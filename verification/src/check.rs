//! Compute internet checksums.
use vstd::prelude::*;
use crate::bytes::{get_u16, spec_be16, be16_bytes, splice};
use vstd::arithmetic::div_mod::{lemma_fundamental_div_mod, lemma_fundamental_div_mod_converse};

verus! {

/// The sum of the 16 bit network byte order words of `s`; an odd last byte
/// counts as the high byte of a word whose low byte is zero.
pub open spec fn spec_word_sum(s: Seq<u8>) -> nat
    decreases s.len(),
{
    if s.len() == 0 {
        0
    } else if s.len() == 1 {
        s[0] as nat * 256
    } else {
        (s[0] as nat * 256 + s[1] as nat + spec_word_sum(s.skip(2))) as nat
    }
}

/// Folds a sum into 16 bits with end-around carry: the result lies in
/// `0 ..= 0xFFFF`, is congruent to `acc` modulo `0xFFFF`, and is zero only
/// for a zero sum.
pub open spec fn spec_fold(acc: nat) -> nat {
    if acc == 0 {
        0
    } else {
        ((acc - 1) as nat % 65535 + 1) as nat
    }
}

/// The [RFC 1071](https://tools.ietf.org/html/rfc1071) Internet Checksum of `s`:
/// the ones' complement of the ones' complement sum of its 16 bit words.
pub open spec fn spec_internet_checksum(s: Seq<u8>) -> u16 {
    (65535 - spec_fold(spec_word_sum(s))) as u16
}

/// The largest input whose word sum fits the 32 bit accumulator.
pub open spec fn checksum_len_ok(len: nat) -> bool {
    len <= 131074
}

/// Each word is at most 0xFFFF, so the sum is bounded by the number of words.
pub proof fn lemma_word_sum_bound(s: Seq<u8>)
    ensures
        spec_word_sum(s) <= (s.len() + 1) / 2 * 65535,
    decreases s.len(),
{
    if s.len() >= 2 {
        lemma_word_sum_bound(s.skip(2));
    }
}

/// Overwriting the word at an even offset changes the word sum by the
/// difference of the two words.
pub proof fn lemma_word_sum_splice(s: Seq<u8>, k: int, c: u16)
    requires
        0 <= k,
        k % 2 == 0,
        k + 2 <= s.len(),
    ensures
        spec_word_sum(splice(s, k, be16_bytes(c))) + spec_be16(s, k) == spec_word_sum(s) + c,
    decreases k,
{
    let t = splice(s, k, be16_bytes(c));
    if k == 0 {
        assert(t.skip(2) =~= s.skip(2));
        assert(t[0] as int * 256 + t[1] as int == c) by (nonlinear_arith)
            requires
                t[0] == (c / 256) as u8,
                t[1] == (c % 256) as u8,
                0 <= c < 65536;
    } else {
        lemma_word_sum_splice(s.skip(2), k - 2, c);
        assert(t.skip(2) =~= splice(s.skip(2), k - 2, be16_bytes(c)));
        assert(t[0] == s[0] && t[1] == s[1]);
    }
}

/// The congruence class of a non-zero sum determines its fold.
proof fn lemma_fold_complement(sum: nat)
    ensures
        spec_fold((sum + 65535 - spec_fold(sum)) as nat) == 65535,
        spec_fold(sum) <= 65535,
        spec_fold(sum) <= sum,
{
    if sum > 0 {
        let x = (sum - 1) as int;
        lemma_fundamental_div_mod(x, 65535);
        let q = x / 65535;
        let r = x % 65535;
        assert(0 <= r < 65535);
        let y = (sum + 65535 - spec_fold(sum) - 1) as int;
        assert(y == (q + 1) * 65535 - 1) by (nonlinear_arith)
            requires
                x == 65535 * q + r,
                y == x + 1 + 65535 - (r + 1) - 1;
        assert(y == q * 65535 + 65534) by (nonlinear_arith)
            requires
                y == (q + 1) * 65535 - 1;
        lemma_fundamental_div_mod_converse(y, 65535, q, 65534);
    }
}

/// Writing the checksum of a buffer into a zeroed, word aligned field of the
/// buffer yields a buffer whose checksum is zero, so that receivers accept it.
pub proof fn lemma_checksum_fill(s: Seq<u8>, k: int)
    requires
        0 <= k,
        k % 2 == 0,
        k + 2 <= s.len(),
        s[k] == 0,
        s[k + 1] == 0,
    ensures
        spec_internet_checksum(splice(s, k, be16_bytes(spec_internet_checksum(s)))) == 0,
{
    let c = spec_internet_checksum(s);
    let sum = spec_word_sum(s);
    lemma_word_sum_splice(s, k, c);
    lemma_fold_complement(sum);
    assert(c == 65535 - spec_fold(sum));
}

/// An iterator that inteprets a sequence of bytes as a sequence of network
/// byte order u16's.
pub struct ByteOrderIter<'a> {
    iter: &'a [u8],
    pos: usize,
}

impl<'a> ByteOrderIter<'a> {
    /// The bytes that the iterator has not consumed yet.
    pub closed spec fn remaining(&self) -> Seq<u8> {
        self.iter@.subrange(self.pos as int, self.iter@.len() as int)
    }

    #[verifier::type_invariant]
    closed spec fn wf(&self) -> bool {
        self.pos <= self.iter@.len()
    }

    /// Iterates over the words of a byte slice.
    pub fn from(slice: &'a [u8]) -> (iter: ByteOrderIter<'a>)
        ensures
            iter.remaining() == slice@,
    {
        let iter = ByteOrderIter { iter: slice, pos: 0 };
        assert(iter.remaining() =~= slice@);
        iter
    }

    /// Returns the next word: two bytes in network byte order, or a last odd
    /// byte as the high byte of a word.
    pub fn next(&mut self) -> (word: Option<u16>)
        ensures
            ({
                let rem = old(self).remaining();
                if rem.len() == 0 {
                    word is None && final(self).remaining() == rem
                } else if rem.len() == 1 {
                    word == Some((rem[0] as int * 256) as u16) && final(self).remaining().len() == 0
                } else {
                    word == Some(spec_be16(rem, 0) as u16) && final(self).remaining() == rem.skip(2)
                }
            }),
    {
        proof {
            use_type_invariant(&*self);
        }
        let len = self.iter.len();
        if self.pos >= len {
            None
        } else if self.pos + 1 < len {
            let w = get_u16(self.iter, self.pos);
            self.pos = self.pos + 2;
            assert(self.remaining() =~= old(self).remaining().skip(2));
            Some(w)
        } else {
            let x = self.iter[self.pos];
            self.pos = self.pos + 1;
            assert(((x as u16) << 8) == (x as int * 256) as u16) by (bit_vector);
            Some((x as u16) << 8)
        }
    }
}

/// Calculates the Internet Checksum from [RFC1071](https://tools.ietf.org/html/rfc107)
/// over the words that the iterator produces.
pub fn internet_checksum(iterable: ByteOrderIter) -> (checksum: u16)
    requires
        checksum_len_ok(iterable.remaining().len()),
    ensures
        checksum == spec_internet_checksum(iterable.remaining()),
{
    let ghost all = iterable.remaining();
    let mut iter = iterable;
    let mut acc: u32 = 0;
    proof {
        lemma_word_sum_bound(all);
    }
    loop
        invariant
            acc + spec_word_sum(iter.remaining()) == spec_word_sum(all),
            spec_word_sum(all) <= 0xFFFF_FFFF,
        ensures
            acc == spec_word_sum(all),
        decreases iter.remaining().len(),
    {
        let ghost rem = iter.remaining();
        match iter.next() {
            None => {
                break;
            },
            Some(i) => {
                proof {
                    if rem.len() == 1 {
                        assert(spec_word_sum(iter.remaining()) == 0);
                        assert(i == rem[0] as int * 256) by (nonlinear_arith)
                            requires
                                i == (rem[0] as int * 256) as u16,
                                rem[0] < 256;
                    }
                }
                acc = acc + i as u32;
            },
        }
    }
    while acc > 0xFFFF
        invariant
            acc > 0 ==> spec_fold(acc as nat) == spec_fold(spec_word_sum(all)),
            acc == 0 ==> spec_word_sum(all) == 0,
        decreases acc,
    {
        acc = acc - 0xFFFF;
    }
    proof {
        lemma_complement_low16(acc);
    }
    !acc as u16
}

/// For a value that fits 16 bits, the low 16 bits of its 32 bit complement
/// are its 16 bit complement.
proof fn lemma_complement_low16(acc: u32)
    requires
        acc <= 0xFFFF,
    ensures
        (!acc) as u16 == 0xFFFF - acc,
{
    assert((!acc) as u16 == 0xFFFF - acc) by (bit_vector)
        requires
            acc <= 0xFFFF;
}

} // verus!
