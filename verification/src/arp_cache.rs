//! An expiring map from IPv4 addresses to Ethernet addresses.
use vstd::prelude::*;

use crate::repr::ipv4::lemma_address_view;
use crate::repr::{
    EthernetAddress,
    Ipv4Address,
};
use crate::time::{
    Env,
    Instant,
};

verus! {

/// The contents of an ARP cache: each IPv4 address it knows with its
/// Ethernet address and the time it was cached, how long a mapping stays
/// (in nanoseconds), and the time from which expiry is measured.
pub struct CacheState {
    pub entries: Map<Ipv4Address, (EthernetAddress, Instant)>,
    pub expiration: u64,
    pub oldest: Instant,
}

/// Whether a mapping cached at `since` is still valid at `now`: no more than
/// `expiration` has passed (no time has passed if `now` is before `since`).
pub open spec fn spec_fresh(since: Instant, now: Instant, expiration: u64) -> bool {
    now <= since || now - since <= expiration
}

/// The mappings of `m` that are still valid at `now`.
pub open spec fn spec_purge(
    m: Map<Ipv4Address, (EthernetAddress, Instant)>,
    now: Instant,
    expiration: u64,
) -> Map<Ipv4Address, (EthernetAddress, Instant)> {
    Map::new(
        |k: Ipv4Address| m.dom().contains(k) && spec_fresh(m[k].1, now, expiration),
        |k: Ipv4Address| m[k],
    )
}

/// Whether `t` is the earliest caching time of the mappings of `m`.
pub open spec fn spec_is_oldest(m: Map<Ipv4Address, (EthernetAddress, Instant)>, t: Instant) -> bool {
    &&& exists|k: Ipv4Address| #[trigger] m.dom().contains(k) && m[k].1 == t
    &&& forall|k: Ipv4Address| #[trigger] m.dom().contains(k) ==> t <= m[k].1
}

/// The earliest caching time of the mappings of `m`, or `now` when there is
/// none.
pub open spec fn spec_oldest(m: Map<Ipv4Address, (EthernetAddress, Instant)>, now: Instant) -> Instant {
    if exists|t: Instant| spec_is_oldest(m, t) {
        choose|t: Instant| spec_is_oldest(m, t)
    } else {
        now
    }
}

/// The cache after the expired mappings are purged at `now`. The purge runs
/// only once more than `expiration` has passed since `oldest`; it then keeps
/// the valid mappings and measures from the oldest of them.
pub open spec fn spec_expire(s: CacheState, now: Instant) -> CacheState {
    if now > s.oldest.saturating_add(s.expiration) {
        let kept = spec_purge(s.entries, now, s.expiration);
        CacheState { entries: kept, expiration: s.expiration, oldest: spec_oldest(kept, now) }
    } else {
        s
    }
}

/// The Ethernet address that the cache maps `ip` to.
pub open spec fn spec_lookup(s: CacheState, ip: Ipv4Address) -> Option<EthernetAddress> {
    if s.entries.dom().contains(ip) {
        Some(s.entries[ip].0)
    } else {
        None
    }
}

/// The cache after mapping `ip` to `eth` at `now`, expired mappings purged
/// first.
pub open spec fn spec_set(
    s: CacheState,
    ip: Ipv4Address,
    eth: EthernetAddress,
    now: Instant,
) -> CacheState {
    let e = spec_expire(s, now);
    CacheState {
        entries: e.entries.insert(ip, (eth, now)),
        expiration: e.expiration,
        oldest: if e.entries.dom() == Set::<Ipv4Address>::empty() {
            now
        } else {
            e.oldest
        },
    }
}

/// A duration of `secs` seconds in nanoseconds, or the longest duration
/// there is when it does not fit.
pub open spec fn spec_expiration_nanos(secs: u64) -> u64 {
    if secs * 1_000_000_000 > u64::MAX {
        u64::MAX
    } else {
        (secs * 1_000_000_000) as u64
    }
}

struct Entry {
    ipv4_addr: Ipv4Address,
    eth_addr: EthernetAddress,
    in_cache_since: Instant,
}

/// The mapping of an entry.
spec fn value_of(e: Entry) -> (EthernetAddress, Instant) {
    (e.eth_addr, e.in_cache_since)
}

/// The mappings that a list of entries holds.
spec fn map_of(s: Seq<Entry>) -> Map<Ipv4Address, (EthernetAddress, Instant)>
    decreases s.len(),
{
    if s.len() == 0 {
        Map::empty()
    } else {
        map_of(s.drop_last()).insert(s.last().ipv4_addr, value_of(s.last()))
    }
}

/// No IPv4 address occurs twice in a list of entries.
spec fn distinct(s: Seq<Entry>) -> bool {
    forall|i: int, j: int|
        0 <= i < j < s.len() ==> #[trigger] s[i].ipv4_addr != #[trigger] s[j].ipv4_addr
}

/// The addresses of a list of entries are the domain of its mappings.
proof fn lemma_map_of_dom(s: Seq<Entry>)
    ensures
        map_of(s).dom().finite(),
        map_of(s).dom().len() == 0 <==> s.len() == 0,
        forall|k: Ipv4Address|
            #[trigger] map_of(s).dom().contains(k) <==> exists|i: int|
                0 <= i < s.len() && s[i].ipv4_addr == k,
    decreases s.len(),
{
    if s.len() > 0 {
        let t = s.drop_last();
        lemma_map_of_dom(t);
        assert forall|k: Ipv4Address| #[trigger]
            map_of(s).dom().contains(k) <==> exists|i: int|
                0 <= i < s.len() && s[i].ipv4_addr == k by {
            if map_of(s).dom().contains(k) && k != s.last().ipv4_addr {
                let i = choose|i: int| 0 <= i < t.len() && t[i].ipv4_addr == k;
                assert(s[i].ipv4_addr == k);
            }
            if exists|i: int| 0 <= i < s.len() && s[i].ipv4_addr == k {
                let i = choose|i: int| 0 <= i < s.len() && s[i].ipv4_addr == k;
                if i < s.len() - 1 {
                    assert(t[i].ipv4_addr == k);
                }
            }
        }
        assert(map_of(s).dom().contains(s.last().ipv4_addr));
    }
}

/// Each entry of a list without repeated addresses is one of its mappings.
proof fn lemma_map_of_index(s: Seq<Entry>, i: int)
    requires
        distinct(s),
        0 <= i < s.len(),
    ensures
        map_of(s).dom().contains(s[i].ipv4_addr),
        map_of(s)[s[i].ipv4_addr] == value_of(s[i]),
    decreases s.len(),
{
    if i < s.len() - 1 {
        let t = s.drop_last();
        assert(t[i] == s[i]);
        assert(distinct(t));
        lemma_map_of_index(t, i);
        assert(s[i].ipv4_addr != s.last().ipv4_addr);
    }
}

/// Replacing an entry by one for the same address replaces its mapping.
proof fn lemma_map_of_update(s: Seq<Entry>, i: int, e: Entry)
    requires
        distinct(s),
        0 <= i < s.len(),
        e.ipv4_addr == s[i].ipv4_addr,
    ensures
        map_of(s.update(i, e)) == map_of(s).insert(e.ipv4_addr, value_of(e)),
    decreases s.len(),
{
    let u = s.update(i, e);
    if i == s.len() - 1 {
        assert(u.drop_last() =~= s.drop_last());
        let t = s.drop_last();
        lemma_map_of_dom(t);
        assert(!map_of(t).dom().contains(e.ipv4_addr)) by {
            if map_of(t).dom().contains(e.ipv4_addr) {
                let j = choose|j: int| 0 <= j < t.len() && t[j].ipv4_addr == e.ipv4_addr;
                assert(s[j].ipv4_addr == s[i].ipv4_addr);
            }
        }
        assert(map_of(u) =~= map_of(s).insert(e.ipv4_addr, value_of(e)));
    } else {
        let t = s.drop_last();
        assert(distinct(t));
        assert(u.drop_last() =~= t.update(i, e));
        lemma_map_of_update(t, i, e);
        assert(s.last().ipv4_addr != e.ipv4_addr);
        assert(map_of(u) =~= map_of(s).insert(e.ipv4_addr, value_of(e)));
    }
}

/// Two addresses with the same bytes are the same address.
proof fn lemma_address_eq(a: Ipv4Address, b: Ipv4Address)
    requires
        a@ == b@,
    ensures
        a == b,
{
    lemma_address_view(a);
    lemma_address_view(b);
}

/// Maintains an expiring set of IPv4 -> ethernet address mappings.
pub struct ArpCache<T: Env> {
    entries: Vec<Entry>,
    expiration: u64,
    in_cache_since_min: Instant,
    time_env: T,
}

impl<T: Env> View for ArpCache<T> {
    type V = CacheState;

    closed spec fn view(&self) -> CacheState {
        CacheState {
            entries: map_of(self.entries@),
            expiration: self.expiration,
            oldest: self.in_cache_since_min,
        }
    }
}

impl<T: Env> ArpCache<T> {
    /// The cache holds each IPv4 address at most once.
    pub closed spec fn wf(&self) -> bool {
        distinct(self.entries@)
    }

    /// The time environment of the cache.
    pub closed spec fn env(&self) -> T {
        self.time_env
    }

    /// Creates an ARP cache where ethernet address mappings expire after
    /// expiration_in_secs seconds.
    pub fn new(expiration_in_secs: u64, time_env: T) -> (cache: ArpCache<T>)
        ensures
            cache.wf(),
            cache@.entries == Map::<Ipv4Address, (EthernetAddress, Instant)>::empty(),
            cache@.expiration == spec_expiration_nanos(expiration_in_secs),
            cache.env() == time_env,
    {
        let expiration = match expiration_in_secs.checked_mul(1_000_000_000) {
            Some(nanos) => nanos,
            None => u64::MAX,
        };
        let in_cache_since_min = time_env.now_instant();
        let cache = ArpCache { entries: Vec::new(), expiration, in_cache_since_min, time_env };
        assert(cache@.entries =~= Map::<Ipv4Address, (EthernetAddress, Instant)>::empty());
        cache
    }

    /// Lookup the ethernet address for an IPv4 address, with the current
    /// time taken from the environment.
    pub fn eth_addr_for_ip(&mut self, ipv4_addr: Ipv4Address) -> (r: Option<EthernetAddress>)
        requires
            old(self).wf(),
        ensures
            final(self).wf(),
            final(self).env() == old(self).env(),
            exists|now: Instant|
                #[trigger] spec_expire(old(self)@, now) == final(self)@ && r == spec_lookup(
                    final(self)@,
                    ipv4_addr,
                ),
    {
        let now = self.time_env.now_instant();
        self.eth_addr_for_ip_at(ipv4_addr, now)
    }

    /// Lookup the ethernet address for an IPv4 address at time `now`.
    pub fn eth_addr_for_ip_at(&mut self, ipv4_addr: Ipv4Address, now: Instant) -> (r: Option<
        EthernetAddress,
    >)
        requires
            old(self).wf(),
        ensures
            final(self).wf(),
            final(self).env() == old(self).env(),
            final(self)@ == spec_expire(old(self)@, now),
            r == spec_lookup(final(self)@, ipv4_addr),
    {
        self.expire_eth_addr(now);
        match self.position(ipv4_addr) {
            Some(i) => {
                proof {
                    lemma_map_of_index(self.entries@, i as int);
                }
                Some(self.entries[i].eth_addr)
            },
            None => None,
        }
    }

    /// Create or update the ethernet address mapping for an IPv4 address,
    /// with the current time taken from the environment.
    pub fn set_eth_addr_for_ip(&mut self, ipv4_addr: Ipv4Address, eth_addr: EthernetAddress)
        requires
            old(self).wf(),
        ensures
            final(self).wf(),
            final(self).env() == old(self).env(),
            exists|now: Instant| #[trigger]
                spec_set(old(self)@, ipv4_addr, eth_addr, now) == final(self)@,
    {
        let now = self.time_env.now_instant();
        self.set_eth_addr_for_ip_at(ipv4_addr, eth_addr, now);
    }

    /// Create or update the ethernet address mapping for an IPv4 address at
    /// time `now`.
    pub fn set_eth_addr_for_ip_at(
        &mut self,
        ipv4_addr: Ipv4Address,
        eth_addr: EthernetAddress,
        now: Instant,
    )
        requires
            old(self).wf(),
        ensures
            final(self).wf(),
            final(self).env() == old(self).env(),
            final(self)@ == spec_set(old(self)@, ipv4_addr, eth_addr, now),
    {
        self.expire_eth_addr(now);
        let ghost expired = self@;

        proof {
            lemma_map_of_dom(self.entries@);
        }
        if self.entries.len() == 0 {
            self.in_cache_since_min = now;
        }
        let entry = Entry { ipv4_addr, eth_addr, in_cache_since: now };
        match self.position(ipv4_addr) {
            Some(i) => {
                proof {
                    lemma_map_of_update(self.entries@, i as int, entry);
                }
                let ghost before = self.entries@;
                self.entries.set(i, entry);
                assert(self.entries@ == before.update(i as int, entry));
                assert forall|a: int, b: int|
                    0 <= a < b < self.entries@.len() implies #[trigger] self.entries@[a].ipv4_addr
                    != #[trigger] self.entries@[b].ipv4_addr by {
                    assert(before[a].ipv4_addr != before[b].ipv4_addr);
                }
            },
            None => {
                let ghost before = self.entries@;
                self.entries.push(entry);
                assert(self.entries@.drop_last() =~= before);
                assert forall|a: int, b: int|
                    0 <= a < b < self.entries@.len() implies #[trigger] self.entries@[a].ipv4_addr
                    != #[trigger] self.entries@[b].ipv4_addr by {
                    if b == before.len() {
                        assert(before[a].ipv4_addr != ipv4_addr);
                    }
                }
            },
        }
        proof {
            assert(expired.entries.dom() == Set::<Ipv4Address>::empty() <==> expired.entries.dom().len()
                == 0) by {
                if expired.entries.dom().len() == 0 {
                    assert(expired.entries.dom() =~= Set::<Ipv4Address>::empty());
                }
            }
        }
    }

    /// The index of the entry for an IPv4 address, if there is one.
    fn position(&self, ipv4_addr: Ipv4Address) -> (r: Option<usize>)
        requires
            self.wf(),
        ensures
            r matches Some(i) ==> i < self.entries@.len() && self.entries@[i as int].ipv4_addr
                == ipv4_addr,
            r is None ==> !self@.entries.dom().contains(ipv4_addr),
    {
        let mut i: usize = 0;
        while i < self.entries.len()
            invariant
                i <= self.entries@.len(),
                forall|j: int| 0 <= j < i ==> #[trigger] self.entries@[j].ipv4_addr != ipv4_addr,
            decreases self.entries@.len() - i,
        {
            if self.entries[i].ipv4_addr == ipv4_addr {
                proof {
                    lemma_address_eq(self.entries@[i as int].ipv4_addr, ipv4_addr);
                }
                return Some(i);
            }
            i += 1;
        }
        proof {
            lemma_map_of_dom(self.entries@);
        }
        None
    }

    /// Purge Ethernet address entries translations that have expired.
    fn expire_eth_addr(&mut self, now: Instant)
        requires
            old(self).wf(),
        ensures
            final(self).wf(),
            final(self).env() == old(self).env(),
            final(self)@ == spec_expire(old(self)@, now),
    {
        if now > self.in_cache_since_min.saturating_add(self.expiration) {
            // Purge expired entries...
            let expiration = self.expiration;
            let kept = retain_fresh(&self.entries, now, expiration);
            self.entries = kept;

            // Update timestamp of the oldest entry...
            self.in_cache_since_min = oldest_since(&self.entries, now);
        }
    }

    /// The time environment of the cache.
    pub fn time_env(&mut self) -> (env: &mut T)
        ensures
            *env == old(self).env(),
            final(self)@ == old(self)@,
            final(self).wf() == old(self).wf(),
            final(self).env() == *final(env),
    {
        &mut self.time_env
    }
}

/// The entries of a list that are still valid at `now`, in their order.
fn retain_fresh(entries: &Vec<Entry>, now: Instant, expiration: u64) -> (kept: Vec<Entry>)
    requires
        distinct(entries@),
    ensures
        distinct(kept@),
        map_of(kept@) == spec_purge(map_of(entries@), now, expiration),
{
    let mut kept: Vec<Entry> = Vec::new();
    let mut i: usize = 0;
    proof {
        assert(map_of(kept@) =~= spec_purge(map_of(entries@.take(0)), now, expiration));
    }
    while i < entries.len()
        invariant
            i <= entries@.len(),
            distinct(entries@),
            distinct(kept@),
            map_of(kept@) == spec_purge(map_of(entries@.take(i as int)), now, expiration),
        decreases entries@.len() - i,
    {
        let e = &entries[i];
        let ghost prefix = entries@.take(i as int);
        let ghost next = entries@.take(i + 1);
        proof {
            assert(next.drop_last() =~= prefix);
            assert(next.last() == *e);
            lemma_map_of_dom(prefix);
            lemma_map_of_dom(kept@);
            assert(!map_of(prefix).dom().contains(e.ipv4_addr)) by {
                if map_of(prefix).dom().contains(e.ipv4_addr) {
                    let j = choose|j: int| 0 <= j < prefix.len() && prefix[j].ipv4_addr == e.ipv4_addr;
                    assert(entries@[j].ipv4_addr == entries@[i as int].ipv4_addr);
                }
            }
        }
        let fresh = now <= e.in_cache_since || now - e.in_cache_since <= expiration;
        if fresh {
            let ghost before = kept@;
            kept.push(Entry {
                ipv4_addr: e.ipv4_addr,
                eth_addr: e.eth_addr,
                in_cache_since: e.in_cache_since,
            });
            proof {
                assert(kept@.drop_last() =~= before);
                assert(kept@.last() == *e);
                assert forall|a: int, b: int|
                    0 <= a < b < kept@.len() implies #[trigger] kept@[a].ipv4_addr
                    != #[trigger] kept@[b].ipv4_addr by {
                    if b == before.len() {
                        assert(map_of(before).dom().contains(before[a].ipv4_addr));
                    }
                }
                assert(map_of(kept@) =~= spec_purge(map_of(next), now, expiration));
            }
        } else {
            proof {
                assert(map_of(kept@) =~= spec_purge(map_of(next), now, expiration));
            }
        }
        i += 1;
    }
    proof {
        assert(entries@.take(entries@.len() as int) =~= entries@);
    }
    kept
}

/// The earliest caching time of a list of entries, or `now` for an empty
/// list.
fn oldest_since(entries: &Vec<Entry>, now: Instant) -> (t: Instant)
    requires
        distinct(entries@),
    ensures
        t == spec_oldest(map_of(entries@), now),
{
    proof {
        lemma_map_of_dom(entries@);
    }
    let ghost m = map_of(entries@);
    if entries.len() == 0 {
        proof {
            assert forall|t: Instant| !spec_is_oldest(m, t) by {
                if spec_is_oldest(m, t) {
                    let k = choose|k: Ipv4Address| #[trigger] m.dom().contains(k) && m[k].1 == t;
                }
            }
        }
        return now;
    }
    let mut min = entries[0].in_cache_since;
    let ghost mut at: int = 0;
    let mut i: usize = 1;
    while i < entries.len()
        invariant
            1 <= i <= entries@.len(),
            0 <= at < i,
            entries@[at].in_cache_since == min,
            forall|j: int| 0 <= j < i ==> min <= #[trigger] entries@[j].in_cache_since,
        decreases entries@.len() - i,
    {
        if entries[i].in_cache_since < min {
            min = entries[i].in_cache_since;
            proof {
                at = i as int;
            }
        }
        i += 1;
    }
    proof {
        lemma_map_of_index(entries@, at);
        assert(m.dom().contains(entries@[at].ipv4_addr) && m[entries@[at].ipv4_addr].1 == min);
        assert forall|k: Ipv4Address| #[trigger] m.dom().contains(k) implies min <= m[k].1 by {
            let j = choose|j: int| 0 <= j < entries@.len() && entries@[j].ipv4_addr == k;
            lemma_map_of_index(entries@, j);
        }
        assert(spec_is_oldest(m, min));
        let c = choose|t: Instant| spec_is_oldest(m, t);
        assert(spec_is_oldest(m, c));
        let kc = choose|k: Ipv4Address| #[trigger] m.dom().contains(k) && m[k].1 == c;
        assert(min <= c);
        assert(c <= min);
    }
    min
}

/// A mapping made at `t1` is found by a lookup at any `t2` no later than
/// the expiration after it, and is gone at any later `t2`, when the clock
/// does not run backwards: `t1` is no earlier than any time the cache holds.
pub proof fn lemma_set_then_lookup(
    s: CacheState,
    ip: Ipv4Address,
    eth: EthernetAddress,
    t1: Instant,
    t2: Instant,
)
    requires
        s.oldest <= t1,
        forall|k: Ipv4Address| #[trigger] s.entries.dom().contains(k) ==> s.entries[k].1 <= t1,
        t1 <= t2,
    ensures
        spec_lookup(spec_expire(spec_set(s, ip, eth, t1), t2), ip) == if t2 - t1 <= s.expiration {
            Some(eth)
        } else {
            None::<EthernetAddress>
        },
{
    let e = spec_expire(s, t1);
    let s1 = spec_set(s, ip, eth, t1);
    assert(e.oldest <= t1) by {
        if t1 > s.oldest.saturating_add(s.expiration) {
            let kept = spec_purge(s.entries, t1, s.expiration);
            if exists|t: Instant| spec_is_oldest(kept, t) {
                let t = choose|t: Instant| spec_is_oldest(kept, t);
                let k = choose|k: Ipv4Address| #[trigger] kept.dom().contains(k) && kept[k].1 == t;
                assert(s.entries.dom().contains(k));
            }
        }
    }
    assert(s1.oldest <= t1);
    assert(s1.entries.dom().contains(ip) && s1.entries[ip] == (eth, t1));
    assert(s1.expiration == s.expiration);
}

/// Setting a mapping creates or replaces the mapping of that address, with
/// the time it was set, and leaves the other mappings as expiry leaves them.
pub proof fn lemma_set_updates(s: CacheState, ip: Ipv4Address, eth: EthernetAddress, now: Instant)
    ensures
        spec_set(s, ip, eth, now).entries.dom().contains(ip),
        spec_set(s, ip, eth, now).entries[ip] == (eth, now),
        spec_set(s, ip, eth, now).entries.remove(ip) == spec_expire(s, now).entries.remove(ip),
        spec_set(s, ip, eth, now).expiration == s.expiration,
{
    assert(spec_set(s, ip, eth, now).entries.remove(ip) =~= spec_expire(s, now).entries.remove(
        ip,
    ));
}

/// Expiry only ever removes mappings: what it keeps is unchanged.
pub proof fn lemma_expire_only_removes(s: CacheState, now: Instant)
    ensures
        spec_expire(s, now).entries.submap_of(s.entries),
        spec_expire(s, now).expiration == s.expiration,
{
}

/// A call on a cache, with the time it is made at: setting a mapping or
/// looking an address up.
pub enum CacheOp {
    Insert(Ipv4Address, EthernetAddress, Instant),
    Lookup(Ipv4Address, Instant),
}

/// The time a call is made at.
pub open spec fn spec_op_time(op: CacheOp) -> Instant {
    match op {
        CacheOp::Insert(_, _, t) => t,
        CacheOp::Lookup(_, t) => t,
    }
}

/// The cache after one call: `set_eth_addr_for_ip_at` or
/// `eth_addr_for_ip_at`.
pub open spec fn spec_apply(s: CacheState, op: CacheOp) -> CacheState {
    match op {
        CacheOp::Insert(ip, eth, t) => spec_set(s, ip, eth, t),
        CacheOp::Lookup(_, t) => spec_expire(s, t),
    }
}

/// The cache after a sequence of calls, in order.
pub open spec fn spec_run(s: CacheState, ops: Seq<CacheOp>) -> CacheState
    decreases ops.len(),
{
    if ops.len() == 0 {
        s
    } else {
        spec_apply(spec_run(s, ops.drop_last()), ops.last())
    }
}

/// The Ethernet address and the time of the latest call of a sequence that
/// set a mapping for `ip`, if one did.
pub open spec fn spec_latest_set(ops: Seq<CacheOp>, ip: Ipv4Address) -> Option<
    (EthernetAddress, Instant),
>
    decreases ops.len(),
{
    if ops.len() == 0 {
        None
    } else {
        match ops.last() {
            CacheOp::Insert(k, eth, t) => if k == ip {
                Some((eth, t))
            } else {
                spec_latest_set(ops.drop_last(), ip)
            },
            CacheOp::Lookup(_, _) => spec_latest_set(ops.drop_last(), ip),
        }
    }
}

/// The calls of a sequence are made at times that never go back.
pub open spec fn spec_in_time_order(ops: Seq<CacheOp>) -> bool {
    forall|i: int, j: int|
        0 <= i < j < ops.len() ==> spec_op_time(#[trigger] ops[i]) <= spec_op_time(#[trigger] ops[j])
}

/// A nonempty finite map has a mapping with the earliest caching time.
proof fn lemma_has_oldest(m: Map<Ipv4Address, (EthernetAddress, Instant)>)
    requires
        m.dom().finite(),
        m.dom().len() > 0,
    ensures
        exists|t: Instant| spec_is_oldest(m, t),
    decreases m.dom().len(),
{
    let k = m.dom().choose();
    let rest = m.remove(k);
    assert(rest.dom() =~= m.dom().remove(k));
    if rest.dom().len() == 0 {
        assert forall|j: Ipv4Address| #[trigger] m.dom().contains(j) implies m[k].1 <= m[j].1 by {
            if j != k {
                assert(rest.dom().contains(j));
            }
        }
        assert(spec_is_oldest(m, m[k].1));
    } else {
        lemma_has_oldest(rest);
        let t = choose|t: Instant| spec_is_oldest(rest, t);
        let w = choose|j: Ipv4Address| #[trigger] rest.dom().contains(j) && rest[j].1 == t;
        let best = if m[k].1 < t { m[k].1 } else { t };
        assert forall|j: Ipv4Address| #[trigger] m.dom().contains(j) implies best <= m[j].1 by {
            if j != k {
                assert(rest.dom().contains(j));
            }
        }
        if m[k].1 < t {
            assert(spec_is_oldest(m, best));
        } else {
            assert(m.dom().contains(w));
            assert(spec_is_oldest(m, best));
        }
    }
}

/// The earliest caching time of a finite map is no later than any of its
/// mappings, and no later than `now` when the map has a mapping from no
/// later than `now`.
proof fn lemma_oldest_bound(m: Map<Ipv4Address, (EthernetAddress, Instant)>, now: Instant)
    requires
        m.dom().finite(),
    ensures
        forall|k: Ipv4Address| #[trigger] m.dom().contains(k) ==> spec_oldest(m, now) <= m[k].1,
{
    if m.dom().len() > 0 {
        lemma_has_oldest(m);
        let t = choose|t: Instant| spec_is_oldest(m, t);
        assert(spec_is_oldest(m, t));
    } else {
        assert forall|k: Ipv4Address| #[trigger] m.dom().contains(k) implies spec_oldest(m, now)
            <= m[k].1 by {
            assert(m.dom().len() > 0);
        }
    }
}

/// What holds of a cache after a sequence of calls whose last call was at
/// `clock`: it holds exactly the latest mapping set for each address that it
/// still holds, every mapping set and no longer held was stale by `clock`,
/// and `oldest` is no later than any caching time it holds.
spec fn run_inv(c: CacheState, ops: Seq<CacheOp>, clock: Instant, expiration: u64) -> bool {
    &&& c.expiration == expiration
    &&& c.entries.dom().finite()
    &&& forall|k: Ipv4Address| #[trigger]
        c.entries.dom().contains(k) ==> spec_latest_set(ops, k) == Some(c.entries[k])
            && c.oldest <= c.entries[k].1 && c.entries[k].1 <= clock
    &&& forall|k: Ipv4Address| #[trigger]
        spec_latest_set(ops, k) is Some && !c.entries.dom().contains(k) ==> clock
            - spec_latest_set(ops, k)->Some_0.1 > expiration
}

/// Expiry at `now`, no earlier than `clock`, keeps what holds of the cache.
proof fn lemma_expire_keeps_inv(
    c: CacheState,
    ops: Seq<CacheOp>,
    clock: Instant,
    expiration: u64,
    now: Instant,
)
    requires
        run_inv(c, ops, clock, expiration),
        clock <= now,
    ensures
        run_inv(spec_expire(c, now), ops, now, expiration),
{
    if now > c.oldest.saturating_add(c.expiration) {
        let kept = spec_purge(c.entries, now, c.expiration);
        assert(kept.dom() =~= c.entries.dom().filter(
            |k: Ipv4Address| spec_fresh(c.entries[k].1, now, c.expiration),
        ));
        lemma_oldest_bound(kept, now);
    }
}

/// What holds of a cache after a sequence of calls in time order, made on a
/// cache without mappings.
proof fn lemma_run_inv(s: CacheState, ops: Seq<CacheOp>)
    requires
        s.entries.dom() == Set::<Ipv4Address>::empty(),
        spec_in_time_order(ops),
    ensures
        run_inv(
            spec_run(s, ops),
            ops,
            if ops.len() == 0 { 0 } else { spec_op_time(ops.last()) },
            s.expiration,
        ),
    decreases ops.len(),
{
    if ops.len() > 0 {
        let prev = ops.drop_last();
        assert(spec_in_time_order(prev)) by {
            assert forall|i: int, j: int| 0 <= i < j < prev.len() implies spec_op_time(
                #[trigger] prev[i],
            ) <= spec_op_time(#[trigger] prev[j]) by {
                assert(prev[i] == ops[i] && prev[j] == ops[j]);
            }
        }
        lemma_run_inv(s, prev);
        let clock: Instant = if prev.len() == 0 { 0 } else { spec_op_time(prev.last()) };
        let now = spec_op_time(ops.last());
        if prev.len() > 0 {
            assert(prev.last() == ops[ops.len() - 2]);
            assert(spec_op_time(ops[ops.len() - 2]) <= spec_op_time(ops[ops.len() - 1]));
        }
        let c = spec_run(s, prev);
        lemma_expire_keeps_inv(c, prev, clock, s.expiration, now);
        let e = spec_expire(c, now);
        match ops.last() {
            CacheOp::Insert(ip, eth, t) => {
                let c1 = spec_set(c, ip, eth, t);
                assert(c1.entries.dom() =~= e.entries.dom().insert(ip));
                assert forall|k: Ipv4Address| #[trigger] c1.entries.dom().contains(k) implies spec_latest_set(ops, k)
                    == Some(c1.entries[k]) && c1.oldest <= c1.entries[k].1 && c1.entries[k].1 <= now by {
                    if k != ip {
                        assert(e.entries.dom().contains(k));
                    } else if e.entries.dom() != Set::<Ipv4Address>::empty() {
                        assert(exists|j: Ipv4Address| e.entries.dom().contains(j)) by {
                            if !(exists|j: Ipv4Address| e.entries.dom().contains(j)) {
                                assert(e.entries.dom() =~= Set::<Ipv4Address>::empty());
                            }
                        }
                        let j = choose|j: Ipv4Address| e.entries.dom().contains(j);
                        assert(e.oldest <= e.entries[j].1);
                    }
                }
                assert forall|k: Ipv4Address| #[trigger]
                    spec_latest_set(ops, k) is Some && !c1.entries.dom().contains(k) implies now
                        - spec_latest_set(ops, k)->Some_0.1 > s.expiration by {
                    assert(k != ip);
                    assert(spec_latest_set(ops, k) == spec_latest_set(prev, k));
                }
            },
            CacheOp::Lookup(_, _) => {
                assert forall|k: Ipv4Address| #[trigger] spec_latest_set(ops, k) == spec_latest_set(prev, k) by {}
            },
        }
    }
}

/// The cache keeps each mapping for as long as it is valid: on a cache
/// without mappings, after any sequence of `set_eth_addr_for_ip_at` and
/// `eth_addr_for_ip_at` calls at times that never go back, a lookup at
/// `now`, no earlier than any of them, finds the Ethernet address of the
/// latest call that set `ip` when no more than the expiration has passed
/// since that call, and nothing otherwise.
pub proof fn lemma_lookup_after_calls(
    s: CacheState,
    ops: Seq<CacheOp>,
    ip: Ipv4Address,
    now: Instant,
)
    requires
        s.entries.dom() == Set::<Ipv4Address>::empty(),
        spec_in_time_order(ops),
        forall|i: int| 0 <= i < ops.len() ==> spec_op_time(#[trigger] ops[i]) <= now,
    ensures
        spec_lookup(spec_expire(spec_run(s, ops), now), ip) == match spec_latest_set(ops, ip) {
            Some((eth, t)) => if now - t <= s.expiration {
                Some(eth)
            } else {
                None
            },
            None => None::<EthernetAddress>,
        },
{
    lemma_run_inv(s, ops);
    let clock: Instant = if ops.len() == 0 { 0 } else { spec_op_time(ops.last()) };
    if ops.len() > 0 {
        assert(spec_op_time(ops[ops.len() - 1]) <= now);
    }
    let c = spec_run(s, ops);
    lemma_expire_keeps_inv(c, ops, clock, s.expiration, now);
    let e = spec_expire(c, now);
    if c.entries.dom().contains(ip) {
        let t = c.entries[ip].1;
        if now - t > s.expiration {
            assert(now > c.oldest.saturating_add(c.expiration));
            assert(!spec_fresh(t, now, c.expiration));
        }
    }
}

/// A cache made to keep mappings `secs` seconds keeps them `secs` billion
/// nanoseconds, as many as the clock counts in that time, or for the longest
/// time the clock can count when more than 18446744073 seconds are asked.
pub proof fn lemma_expiration_in_nanos(secs: u64)
    ensures
        spec_expiration_nanos(secs) == if secs <= 18446744073 {
            secs * 1000000000
        } else {
            u64::MAX as int
        },
{
    if secs <= 18446744073 {
        assert(secs * 1000000000 <= u64::MAX) by (nonlinear_arith)
            requires
                secs <= 18446744073,
        ;
    } else {
        assert(secs * 1000000000 > u64::MAX) by (nonlinear_arith)
            requires
                secs > 18446744073,
        ;
    }
}

} // verus!
