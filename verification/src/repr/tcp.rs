//! TCP headers, options and packets.
use vstd::prelude::*;

use crate::bits::{
    lemma_u16_bits,
    lemma_u8_bits,
    spec_bit,
    spec_set_bit,
};
use crate::bytes::{
    lemma_be_bytes,
    lemma_splice_index,
    be16_bytes,
    be32_bytes,
    get_u16,
    get_u32,
    set_u16,
    set_u32,
    spec_be16,
    spec_be32,
    splice,
};
use crate::check::{
    lemma_checksum_fill,
    spec_internet_checksum,
};
use crate::repr::ipv4::spec_pseudo_header;
use crate::repr::Ipv4Repr;
use crate::{
    Error,
    Result,
};

verus! {

// Fields of a TCP packet held in the byte sequence `s`.
/// The data offset: the header length in 32 bit words, high nibble of byte 12.
pub open spec fn spec_data_offset(s: Seq<u8>) -> u8 {
    s[12] / 16
}

/// The 16 bit field of bytes 12 and 13 that holds the data offset and flags.
pub open spec fn spec_flags_field(s: Seq<u8>) -> u16 {
    spec_be16(s, 12) as u16
}

/// Flag bit `i` of the packet: bits 0 to 7 are FIN, SYN, RST, PSH, ACK,
/// URG, ECE and CWR, bit 8 is NS.
pub open spec fn spec_flag(s: Seq<u8>, i: u16) -> bool {
    spec_bit(spec_flags_field(s), i)
}

/// The options: the bytes between the fixed header and the data offset.
pub open spec fn spec_options(s: Seq<u8>) -> Seq<u8> {
    s.subrange(20, spec_data_offset(s) * 4)
}

/// The checksum of the packet `s` with the pseudo header of `ip_repr`.
pub open spec fn spec_gen_packet_checksum(s: Seq<u8>, ip_repr: Ipv4Repr) -> u16 {
    spec_internet_checksum(spec_pseudo_header(ip_repr) + s)
}

/// The result of the encoding checks of a TCP packet.
pub open spec fn spec_check_encoding(s: Seq<u8>, ip_repr: Ipv4Repr) -> Result<()> {
    if spec_gen_packet_checksum(s, ip_repr) != 0 {
        Err(Error::Checksum)
    } else if spec_data_offset(s) * 4 < 20 || spec_data_offset(s) * 4 > s.len() {
        Err(Error::Malformed)
    } else {
        Ok(())
    }
}

/// The packet that `fill_checksum` leaves: the checksum field holds the
/// checksum computed with a zero checksum field.
pub open spec fn spec_fill_checksum(s: Seq<u8>, ip_repr: Ipv4Repr) -> Seq<u8> {
    let z = splice(s, 16, be16_bytes(0));
    splice(z, 16, be16_bytes(spec_gen_packet_checksum(z, ip_repr)))
}

// Iteration over the options.
/// The length of the option at `pos`, or none where the iteration ends: at
/// the end of the options, or at an option whose length field is missing or
/// runs past the end.
pub open spec fn spec_option_len(opts: Seq<u8>, pos: int) -> Option<int> {
    if pos < 0 || pos >= opts.len() {
        None
    } else if opts[pos] == 0 || opts[pos] == 1 {
        Some(1)
    } else if pos + 2 > opts.len() {
        None
    } else if pos + opts[pos + 1] > opts.len() {
        None
    } else {
        Some(opts[pos + 1] as int)
    }
}

/// An option with a length field below 2, whose payload cannot be sliced.
pub open spec fn spec_option_malformed(opts: Seq<u8>, pos: int) -> bool {
    &&& 0 <= pos < opts.len()
    &&& opts[pos] >= 2
    &&& pos + 2 <= opts.len()
    &&& pos + opts[pos + 1] <= opts.len()
    &&& opts[pos + 1] < 2
}

/// The maximum segment size of the first such option from `pos` on, if the
/// iteration reaches one.
pub open spec fn spec_first_mss(opts: Seq<u8>, pos: int) -> Option<u16>
    decreases opts.len() - pos,
{
    if spec_option_malformed(opts, pos) {
        None
    } else {
        match spec_option_len(opts, pos) {
            None => None,
            Some(l) => if opts[pos] == 2 && l == 4 {
                Some(spec_be16(opts, pos + 2) as u16)
            } else if l >= 1 {
                spec_first_mss(opts, pos + l)
            } else {
                None
            },
        }
    }
}

/// The search for the maximum segment size from `pos` on meets no
/// malformed option.
pub open spec fn spec_options_scannable(opts: Seq<u8>, pos: int) -> bool
    decreases opts.len() - pos,
{
    !spec_option_malformed(opts, pos) && match spec_option_len(opts, pos) {
        None => true,
        Some(l) => (opts[pos] == 2 && l == 4) || (l >= 1 && spec_options_scannable(opts, pos + l)),
    }
}

/// The position of the iteration over `opts` after `k` more options are
/// produced from `pos`, or none when it ends (or meets a malformed option)
/// before that.
pub open spec fn spec_iter_position(opts: Seq<u8>, pos: int, k: nat) -> Option<int>
    decreases k,
{
    if k == 0 {
        Some(pos)
    } else {
        match spec_iter_position(opts, pos, (k - 1) as nat) {
            None => None,
            Some(p) => if spec_option_malformed(opts, p) {
                None
            } else {
                match spec_option_len(opts, p) {
                    None => None,
                    Some(l) => Some(p + l),
                }
            },
        }
    }
}

/// After `k` options from the start the iteration is at least `k` bytes in
/// and still within the options.
proof fn lemma_iteration_bound(opts: Seq<u8>, k: nat)
    ensures
        spec_iter_position(opts, 0, k) matches Some(p) ==> k <= p <= opts.len(),
    decreases k,
{
    if k > 0 {
        lemma_iteration_bound(opts, (k - 1) as nat);
    }
}

/// The iteration over options ends: every option it produces moves it
/// forward by at least one byte and keeps it within the options, so from
/// the start it produces at most `opts.len()` options before it ends.
pub proof fn lemma_iteration_ends(opts: Seq<u8>, k: nat)
    ensures
        spec_iter_position(opts, 0, k) matches Some(p) ==> k <= p <= opts.len(),
        spec_iter_position(opts, 0, (opts.len() + 1) as nat) is None,
{
    lemma_iteration_bound(opts, k);
    lemma_iteration_bound(opts, (opts.len() + 1) as nat);
}

/// Options are read as RFC 793 lays them out: kind 0 (end of options) and
/// kind 1 (no operation) take one byte; any other kind is followed by a
/// length byte that counts the whole option. The maximum segment size is
/// the option of kind 2 and length 4, whose size is in its last two bytes
/// (most significant first); options before it are skipped.
pub proof fn lemma_options_rfc793(opts: Seq<u8>, pos: int)
    requires
        0 <= pos < opts.len(),
    ensures
        opts[pos] == 0 || opts[pos] == 1 ==> spec_option_len(opts, pos) == Some(1int),
        opts[pos] >= 2 && pos + 2 <= opts.len() && pos + opts[pos + 1] <= opts.len()
            ==> spec_option_len(opts, pos) == Some(opts[pos + 1] as int),
        opts[pos] == 2 && pos + 4 <= opts.len() && opts[pos + 1] == 4 ==> spec_first_mss(opts, pos)
            == Some((opts[pos + 2] as int * 256 + opts[pos + 3] as int) as u16),
        (opts[pos] == 0 || opts[pos] == 1) ==> spec_first_mss(opts, pos) == spec_first_mss(
            opts,
            pos + 1,
        ),
{
}

/// A TCP option.
#[derive(Clone, Debug, PartialEq, Eq)]
pub enum TcpOption<'a> {
    EOL,
    NoOp,
    MaxSegmentSize(u16),
    Unknown { kind: u8, payload: &'a [u8] },
}

/// An iterator that produces TcpOptions from a buffer.
pub struct TcpOptionIter<'a> {
    options: &'a [u8],
    position: usize,
}

impl<'a> View for TcpOptionIter<'a> {
    type V = (Seq<u8>, int);

    /// The options and the position of the next option.
    closed spec fn view(&self) -> (Seq<u8>, int) {
        (self.options@, self.position as int)
    }
}

impl<'a> TcpOptionIter<'a> {
    #[verifier::type_invariant]
    closed spec fn inv(&self) -> bool {
        self.position <= self.options@.len()
    }

    /// Creates a new TCP options iterator from a buffer.
    pub fn new(options: &'a [u8]) -> (iter: TcpOptionIter<'a>)
        ensures
            iter@ == (options@, 0int),
    {
        TcpOptionIter { options, position: 0 }
    }

    /// Produces the option at the current position and moves past it, or
    /// ends the iteration at the end of the options or at a truncated one.
    pub fn next(&mut self) -> (option: Option<TcpOption<'a>>)
        requires
            !spec_option_malformed(old(self)@.0, old(self)@.1),
        ensures
            ({
                let (opts, pos) = old(self)@;
                match spec_option_len(opts, pos) {
                    None => option is None && final(self)@ == old(self)@,
                    Some(l) => {
                        &&& final(self)@ == (opts, pos + l)
                        &&& opts[pos] == 0 ==> option == Some(TcpOption::EOL)
                        &&& opts[pos] == 1 ==> option == Some(TcpOption::NoOp)
                        &&& opts[pos] == 2 && l == 4 ==> option == Some(
                            TcpOption::MaxSegmentSize(spec_be16(opts, pos + 2) as u16),
                        )
                        &&& (opts[pos] >= 2 && !(opts[pos] == 2 && l == 4)) ==> (
                        option matches Some(TcpOption::Unknown { kind, payload }) && kind
                            == opts[pos] && payload@ == opts.subrange(pos + 2, pos + l))
                    },
                }
            }),
    {
        proof {
            use_type_invariant(&*self);
        }
        if self.position == self.options.len() {
            return None;
        }
        let kind = self.options[self.position];
        let (option, len) = match kind {
            0 => (TcpOption::EOL, 1),
            1 => (TcpOption::NoOp, 1),
            _ => {
                if self.options.len() - self.position < 2 {
                    // No space for length field!
                    return None;
                }
                let len = self.options[self.position + 1] as usize;

                if len > self.options.len() - self.position {
                    // Length exceeds buffer!
                    return None;
                }
                let options = self.options;
                let payload = &options[self.position + 2..self.position + len];

                if kind == 2 && len == 4 {
                    let mss = get_u16(payload, 0);
                    (TcpOption::MaxSegmentSize(mss), 4)
                } else {
                    (TcpOption::Unknown { kind, payload }, len)
                }
            },
        };

        self.position = self.position + len;

        Some(option)
    }
}

/// View of a byte buffer as a TCP packet.
#[derive(Debug)]
pub struct Packet {
    buffer: Vec<u8>,
}

impl View for Packet {
    type V = Seq<u8>;

    /// The bytes of the packet.
    closed spec fn view(&self) -> Seq<u8> {
        self.buffer@
    }
}

impl Packet {
    pub const MIN_HEADER_LEN: usize = 20;

    /// Tries to create an TCP packet from a byte buffer.
    ///
    /// NOTE: Use check_encoding() before operating on the packet if
    /// constructing a packet via a buffer originating from an untrusted
    /// source like a link.
    pub fn try_new(buffer: Vec<u8>) -> (r: Result<Packet>)
        ensures
            r is Ok <==> buffer@.len() >= 20,
            r matches Ok(p) ==> p@ == buffer@,
            r matches Err(e) ==> e is Exhausted,
    {
        if buffer.len() < Self::MIN_HEADER_LEN {
            Err(Error::Exhausted)
        } else {
            Ok(Packet { buffer })
        }
    }

    /// Returns the bytes of the packet.
    pub fn as_ref(&self) -> (bytes: &[u8])
        ensures
            bytes@ == self@,
    {
        self.buffer.as_slice()
    }

    /// Returns a mutable view of all the bytes of the packet.
    pub fn as_mut(&mut self) -> (bytes: &mut [u8])
        ensures
            bytes@ == old(self)@,
            final(self)@ == final(bytes)@,
    {
        self.buffer.as_mut_slice()
    }

    /// Returns the buffer of the packet.
    pub fn into_inner(self) -> (buffer: Vec<u8>)
        ensures
            buffer@ == self@,
    {
        self.buffer
    }

    /// Returns the length of a TCP packet with no options and the specified
    /// payload size.
    pub fn buffer_len(payload_len: usize) -> (len: usize)
        requires
            payload_len <= usize::MAX - 20,
        ensures
            len == 20 + payload_len,
    {
        20 + payload_len
    }

    /// Checks if the packet has a valid encoding. This may include checksum,
    /// field consistency, etc. checks.
    pub fn check_encoding(&self, ipv4_repr: &Ipv4Repr) -> (r: Result<()>)
        requires
            20 <= self@.len() <= 131062,
        ensures
            r == spec_check_encoding(self@, *ipv4_repr),
    {
        if self.gen_packet_checksum(ipv4_repr) != 0 {
            Err(Error::Checksum)
        } else if ((self.data_offset() * 4) as usize) < Self::MIN_HEADER_LEN || (
        self.data_offset() as usize) * 4 > self.buffer.len() {
            Err(Error::Malformed)
        } else {
            Ok(())
        }
    }

    /// Calculates the packet checksum.
    pub fn gen_packet_checksum(&self, ipv4_repr: &Ipv4Repr) -> (checksum: u16)
        requires
            self@.len() <= 131062,
        ensures
            checksum == spec_gen_packet_checksum(self@, *ipv4_repr),
    {
        ipv4_repr.gen_checksum_with_pseudo_header(self.buffer.as_slice())
    }

    pub fn src_port(&self) -> (port: u16)
        requires
            self@.len() >= 20,
        ensures
            port == spec_be16(self@, 0),
    {
        get_u16(self.buffer.as_slice(), 0)
    }

    pub fn dst_port(&self) -> (port: u16)
        requires
            self@.len() >= 20,
        ensures
            port == spec_be16(self@, 2),
    {
        get_u16(self.buffer.as_slice(), 2)
    }

    pub fn seq_num(&self) -> (seq_num: u32)
        requires
            self@.len() >= 20,
        ensures
            seq_num == spec_be32(self@, 4),
    {
        get_u32(self.buffer.as_slice(), 4)
    }

    pub fn ack_num(&self) -> (ack_num: u32)
        requires
            self@.len() >= 20,
        ensures
            ack_num == spec_be32(self@, 8),
    {
        get_u32(self.buffer.as_slice(), 8)
    }

    pub fn data_offset(&self) -> (data_offset: u8)
        requires
            self@.len() >= 20,
        ensures
            data_offset == spec_data_offset(self@),
            data_offset < 16,
    {
        proof {
            lemma_u8_bits(self@[12], 0);
        }
        self.buffer[12] >> 4
    }

    pub fn ns(&self) -> (r: bool)
        requires
            self@.len() >= 20,
        ensures
            r == spec_flag(self@, 8),
    {
        self.flag(8)
    }

    pub fn cwr(&self) -> (r: bool)
        requires
            self@.len() >= 20,
        ensures
            r == spec_flag(self@, 7),
    {
        self.flag(7)
    }

    pub fn ece(&self) -> (r: bool)
        requires
            self@.len() >= 20,
        ensures
            r == spec_flag(self@, 6),
    {
        self.flag(6)
    }

    pub fn urg(&self) -> (r: bool)
        requires
            self@.len() >= 20,
        ensures
            r == spec_flag(self@, 5),
    {
        self.flag(5)
    }

    pub fn ack(&self) -> (r: bool)
        requires
            self@.len() >= 20,
        ensures
            r == spec_flag(self@, 4),
    {
        self.flag(4)
    }

    pub fn psh(&self) -> (r: bool)
        requires
            self@.len() >= 20,
        ensures
            r == spec_flag(self@, 3),
    {
        self.flag(3)
    }

    pub fn rst(&self) -> (r: bool)
        requires
            self@.len() >= 20,
        ensures
            r == spec_flag(self@, 2),
    {
        self.flag(2)
    }

    pub fn syn(&self) -> (r: bool)
        requires
            self@.len() >= 20,
        ensures
            r == spec_flag(self@, 1),
    {
        self.flag(1)
    }

    pub fn fin(&self) -> (r: bool)
        requires
            self@.len() >= 20,
        ensures
            r == spec_flag(self@, 0),
    {
        self.flag(0)
    }

    fn flag(&self, index: usize) -> (r: bool)
        requires
            self@.len() >= 20,
            index < 16,
        ensures
            r == spec_flag(self@, index as u16),
    {
        let field = get_u16(self.buffer.as_slice(), 12);
        proof {
            lemma_u16_bits(field, index as u16, 0, false);
        }
        (field & (1u16 << (index as u16))) != 0
    }

    pub fn window_size(&self) -> (window_size: u16)
        requires
            self@.len() >= 20,
        ensures
            window_size == spec_be16(self@, 14),
    {
        get_u16(self.buffer.as_slice(), 14)
    }

    pub fn checksum(&self) -> (checksum: u16)
        requires
            self@.len() >= 20,
        ensures
            checksum == spec_be16(self@, 16),
    {
        get_u16(self.buffer.as_slice(), 16)
    }

    pub fn urgent_pointer(&self) -> (urgent_pointer: u16)
        requires
            self@.len() >= 20,
        ensures
            urgent_pointer == spec_be16(self@, 18),
    {
        get_u16(self.buffer.as_slice(), 18)
    }

    /// The options: the bytes between the fixed header and the data offset.
    pub fn options(&self) -> (options: &[u8])
        requires
            20 <= spec_data_offset(self@) * 4 <= self@.len(),
        ensures
            options@ == spec_options(self@),
    {
        let data_offset = (self.data_offset() * 4) as usize;
        &self.buffer.as_slice()[Self::MIN_HEADER_LEN..data_offset]
    }

    /// The payload: the bytes after the data offset.
    pub fn payload(&self) -> (payload: &[u8])
        requires
            self@.len() >= 20,
            spec_data_offset(self@) * 4 <= self@.len(),
        ensures
            payload@ == self@.subrange(spec_data_offset(self@) * 4, self@.len() as int),
    {
        let data_offset = (self.data_offset() * 4) as usize;
        let s = self.buffer.as_slice();
        &s[data_offset..s.len()]
    }

    pub fn set_src_port(&mut self, port: u16)
        requires
            old(self)@.len() >= 20,
        ensures
            final(self)@ == splice(old(self)@, 0, be16_bytes(port)),
    {
        set_u16(self.buffer.as_mut_slice(), 0, port);
    }

    pub fn set_dst_port(&mut self, port: u16)
        requires
            old(self)@.len() >= 20,
        ensures
            final(self)@ == splice(old(self)@, 2, be16_bytes(port)),
    {
        set_u16(self.buffer.as_mut_slice(), 2, port);
    }

    pub fn set_seq_num(&mut self, seq_num: u32)
        requires
            old(self)@.len() >= 20,
        ensures
            final(self)@ == splice(old(self)@, 4, be32_bytes(seq_num)),
    {
        set_u32(self.buffer.as_mut_slice(), 4, seq_num);
    }

    pub fn set_ack_num(&mut self, ack_num: u32)
        requires
            old(self)@.len() >= 20,
        ensures
            final(self)@ == splice(old(self)@, 8, be32_bytes(ack_num)),
    {
        set_u32(self.buffer.as_mut_slice(), 8, ack_num);
    }

    pub fn set_data_offset(&mut self, data_offset: u8)
        requires
            old(self)@.len() >= 20,
        ensures
            final(self)@ == old(self)@.update(
                12,
                ((data_offset % 16) * 16 + old(self)@[12] % 16) as u8,
            ),
    {
        let mut field = self.buffer[12];
        proof {
            lemma_u8_bits(field, data_offset);
        }
        field = field & 0x0F;
        field = field | (data_offset << 4);
        self.buffer[12] = field;
    }

    pub fn set_ns(&mut self, ns: bool)
        requires
            old(self)@.len() >= 20,
        ensures
            final(self)@ == spec_with_flag(old(self)@, 8, ns),
    {
        self.set_flag(8, ns)
    }

    pub fn set_cwr(&mut self, cwr: bool)
        requires
            old(self)@.len() >= 20,
        ensures
            final(self)@ == spec_with_flag(old(self)@, 7, cwr),
    {
        self.set_flag(7, cwr)
    }

    pub fn set_ece(&mut self, ece: bool)
        requires
            old(self)@.len() >= 20,
        ensures
            final(self)@ == spec_with_flag(old(self)@, 6, ece),
    {
        self.set_flag(6, ece)
    }

    pub fn set_urg(&mut self, urg: bool)
        requires
            old(self)@.len() >= 20,
        ensures
            final(self)@ == spec_with_flag(old(self)@, 5, urg),
    {
        self.set_flag(5, urg)
    }

    pub fn set_ack(&mut self, ack: bool)
        requires
            old(self)@.len() >= 20,
        ensures
            final(self)@ == spec_with_flag(old(self)@, 4, ack),
    {
        self.set_flag(4, ack)
    }

    pub fn set_psh(&mut self, psh: bool)
        requires
            old(self)@.len() >= 20,
        ensures
            final(self)@ == spec_with_flag(old(self)@, 3, psh),
    {
        self.set_flag(3, psh)
    }

    pub fn set_rst(&mut self, rst: bool)
        requires
            old(self)@.len() >= 20,
        ensures
            final(self)@ == spec_with_flag(old(self)@, 2, rst),
    {
        self.set_flag(2, rst)
    }

    pub fn set_syn(&mut self, syn: bool)
        requires
            old(self)@.len() >= 20,
        ensures
            final(self)@ == spec_with_flag(old(self)@, 1, syn),
    {
        self.set_flag(1, syn)
    }

    pub fn set_fin(&mut self, fin: bool)
        requires
            old(self)@.len() >= 20,
        ensures
            final(self)@ == spec_with_flag(old(self)@, 0, fin),
    {
        self.set_flag(0, fin)
    }

    fn set_flag(&mut self, index: usize, enabled: bool)
        requires
            old(self)@.len() >= 20,
            index < 16,
        ensures
            final(self)@ == spec_with_flag(old(self)@, index as u16, enabled),
    {
        let mut field = get_u16(self.buffer.as_slice(), 12);
        field = if enabled {
            field | (1u16 << (index as u16))
        } else {
            field & !(1u16 << (index as u16))
        };
        set_u16(self.buffer.as_mut_slice(), 12, field);
    }

    pub fn set_window_size(&mut self, window_size: u16)
        requires
            old(self)@.len() >= 20,
        ensures
            final(self)@ == splice(old(self)@, 14, be16_bytes(window_size)),
    {
        set_u16(self.buffer.as_mut_slice(), 14, window_size);
    }

    pub fn set_checksum(&mut self, checksum: u16)
        requires
            old(self)@.len() >= 20,
        ensures
            final(self)@ == splice(old(self)@, 16, be16_bytes(checksum)),
    {
        set_u16(self.buffer.as_mut_slice(), 16, checksum);
    }

    pub fn set_urgent_pointer(&mut self, urgent_pointer: u16)
        requires
            old(self)@.len() >= 20,
        ensures
            final(self)@ == splice(old(self)@, 18, be16_bytes(urgent_pointer)),
    {
        set_u16(self.buffer.as_mut_slice(), 18, urgent_pointer);
    }

    pub fn options_mut(&mut self) -> (options: &mut [u8])
        requires
            20 <= spec_data_offset(old(self)@) * 4 <= old(self)@.len(),
        ensures
            options@ == spec_options(old(self)@),
            final(self)@ == old(self)@.subrange(0, 20) + final(options)@ + old(self)@.subrange(
                spec_data_offset(old(self)@) * 4,
                old(self)@.len() as int,
            ),
    {
        let data_offset = (self.data_offset() * 4) as usize;
        let s = self.buffer.as_mut_slice();
        let (_, rest) = s.split_at_mut(Self::MIN_HEADER_LEN);
        let (options, _) = rest.split_at_mut(data_offset - Self::MIN_HEADER_LEN);
        options
    }

    pub fn payload_mut(&mut self) -> (payload: &mut [u8])
        requires
            old(self)@.len() >= 20,
            spec_data_offset(old(self)@) * 4 <= old(self)@.len(),
        ensures
            payload@ == old(self)@.subrange(
                spec_data_offset(old(self)@) * 4,
                old(self)@.len() as int,
            ),
            final(self)@ == old(self)@.subrange(0, spec_data_offset(old(self)@) * 4)
                + final(payload)@,
    {
        let data_offset = (self.data_offset() * 4) as usize;
        let s = self.buffer.as_mut_slice();
        let (_, payload) = s.split_at_mut(data_offset);
        payload
    }

    /// Computes the checksum of the packet with the pseudo header of the
    /// IPv4 header and writes it to the checksum field; the packet then
    /// passes the checksum check.
    pub fn fill_checksum(&mut self, ipv4_repr: &Ipv4Repr)
        requires
            20 <= old(self)@.len() <= 131062,
        ensures
            final(self)@ == spec_fill_checksum(old(self)@, *ipv4_repr),
            spec_gen_packet_checksum(final(self)@, *ipv4_repr) == 0,
    {
        self.set_checksum(0);
        let checksum = self.gen_packet_checksum(ipv4_repr);
        self.set_checksum(checksum);
        proof {
            lemma_fill_checksum(old(self)@, *ipv4_repr);
        }
    }
}

/// The packet with flag bit `i` set to `enabled`.
pub open spec fn spec_with_flag(s: Seq<u8>, i: u16, enabled: bool) -> Seq<u8> {
    splice(s, 12, be16_bytes(spec_set_bit(spec_flags_field(s), i, enabled)))
}

/// A TCP header.
///
/// Options are currently not supported.
#[derive(Clone, Copy, Debug, PartialEq, Eq)]
pub struct Repr {
    pub src_port: u16,
    pub dst_port: u16,
    pub seq_num: u32,
    pub ack_num: u32,
    /// Access using the provided FLAG constants.
    pub flags: [bool; 9],
    pub window_size: u16,
    pub urgent_pointer: u16,
    pub max_segment_size: Option<u16>,
}

/// The flags of the packet in the order of the `FLAG_` constants: NS, CWR,
/// ECE, URG, ACK, PSH, RST, SYN and FIN.
pub open spec fn spec_flag_seq(s: Seq<u8>) -> Seq<bool> {
    seq![
        spec_flag(s, 8),
        spec_flag(s, 7),
        spec_flag(s, 6),
        spec_flag(s, 5),
        spec_flag(s, 4),
        spec_flag(s, 3),
        spec_flag(s, 2),
        spec_flag(s, 1),
        spec_flag(s, 0),
    ]
}

/// `r` is the header that `Repr::deserialize` reads from the packet `s`.
pub open spec fn spec_deserializes_to(s: Seq<u8>, r: Repr) -> bool {
    &&& r.src_port == spec_be16(s, 0)
    &&& r.dst_port == spec_be16(s, 2)
    &&& r.seq_num == spec_be32(s, 4)
    &&& r.ack_num == spec_be32(s, 8)
    &&& r.flags@ == spec_flag_seq(s)
    &&& r.window_size == spec_be16(s, 14)
    &&& r.urgent_pointer == spec_be16(s, 18)
    &&& r.max_segment_size == spec_first_mss(spec_options(s), 0)
}

/// The header length of `r` in bytes.
pub open spec fn spec_header_len(r: Repr) -> int {
    if r.max_segment_size is Some {
        24
    } else {
        20
    }
}

/// `s2` is what `Repr::serialize` leaves of the packet `s1`: the header
/// fields of `r`, a zero checksum, an MSS option when `r` has one, the
/// reserved bits and the bytes after the header unchanged.
pub open spec fn spec_serialized(s1: Seq<u8>, s2: Seq<u8>, r: Repr) -> bool {
    &&& s2.len() == s1.len()
    &&& spec_be16(s2, 0) == r.src_port
    &&& spec_be16(s2, 2) == r.dst_port
    &&& spec_be32(s2, 4) == r.seq_num
    &&& spec_be32(s2, 8) == r.ack_num
    &&& spec_data_offset(s2) * 4 == spec_header_len(r)
    &&& (s2[12] % 16) / 2 == (s1[12] % 16) / 2
    &&& spec_flag_seq(s2) == r.flags@
    &&& spec_be16(s2, 14) == r.window_size
    &&& spec_be16(s2, 16) == 0
    &&& spec_be16(s2, 18) == r.urgent_pointer
    &&& (r.max_segment_size matches Some(mss) ==> s2[20] == 2 && s2[21] == 4 && spec_be16(
        s2,
        22,
    ) == mss)
    &&& s2.subrange(spec_header_len(r), s2.len() as int) == s1.subrange(
        spec_header_len(r),
        s1.len() as int,
    )
}

/// The fields of a TCP header as RFC 793 lays them out, each number most
/// significant byte first: source port (bytes 0 and 1), destination port
/// (2 and 3), sequence number (4 to 8), acknowledgment number (8 to 12), the
/// control bits (NS the low bit of byte 12; CWR, ECE, URG, ACK, PSH, RST,
/// SYN and FIN the bits of byte 13 from the highest down), window (14 and
/// 15) and urgent pointer (18 and 19).
pub open spec fn spec_rfc793_fields(s: Seq<u8>, r: Repr) -> bool {
    &&& r.src_port == s[0] as int * 256 + s[1] as int
    &&& r.dst_port == s[2] as int * 256 + s[3] as int
    &&& r.seq_num == s[4] as int * 16777216 + s[5] as int * 65536 + s[6] as int * 256 + s[7] as int
    &&& r.ack_num == s[8] as int * 16777216 + s[9] as int * 65536 + s[10] as int * 256
        + s[11] as int
    &&& r.flags[0] == (s[12] % 2 == 1)
    &&& r.flags[1] == ((s[13] / 128) % 2 == 1)
    &&& r.flags[2] == ((s[13] / 64) % 2 == 1)
    &&& r.flags[3] == ((s[13] / 32) % 2 == 1)
    &&& r.flags[4] == ((s[13] / 16) % 2 == 1)
    &&& r.flags[5] == ((s[13] / 8) % 2 == 1)
    &&& r.flags[6] == ((s[13] / 4) % 2 == 1)
    &&& r.flags[7] == ((s[13] / 2) % 2 == 1)
    &&& r.flags[8] == (s[13] % 2 == 1)
    &&& r.window_size == s[14] as int * 256 + s[15] as int
    &&& r.urgent_pointer == s[18] as int * 256 + s[19] as int
}

/// Bit `i` of the flags field of a packet, counted from the low bit of byte
/// 13, is bit `i` of byte 13 for `i` below 8 and the low bit of byte 12 for
/// `i` 8.
proof fn lemma_flag_bits(a: u8, b: u8, f: u16)
    requires
        f == a * 256 + b,
    ensures
        spec_bit(f, 8) == (a % 2 == 1),
        spec_bit(f, 7) == ((b / 128) % 2 == 1),
        spec_bit(f, 6) == ((b / 64) % 2 == 1),
        spec_bit(f, 5) == ((b / 32) % 2 == 1),
        spec_bit(f, 4) == ((b / 16) % 2 == 1),
        spec_bit(f, 3) == ((b / 8) % 2 == 1),
        spec_bit(f, 2) == ((b / 4) % 2 == 1),
        spec_bit(f, 1) == ((b / 2) % 2 == 1),
        spec_bit(f, 0) == (b % 2 == 1),
{
    assert(((f >> 8u16) & 1 == 1) == (a % 2 == 1)) by (bit_vector)
        requires
            f == a * 256 + b,
    ;
    assert(((f >> 7u16) & 1 == 1) == ((b / 128) % 2 == 1)) by (bit_vector)
        requires
            f == a * 256 + b,
    ;
    assert(((f >> 6u16) & 1 == 1) == ((b / 64) % 2 == 1)) by (bit_vector)
        requires
            f == a * 256 + b,
    ;
    assert(((f >> 5u16) & 1 == 1) == ((b / 32) % 2 == 1)) by (bit_vector)
        requires
            f == a * 256 + b,
    ;
    assert(((f >> 4u16) & 1 == 1) == ((b / 16) % 2 == 1)) by (bit_vector)
        requires
            f == a * 256 + b,
    ;
    assert(((f >> 3u16) & 1 == 1) == ((b / 8) % 2 == 1)) by (bit_vector)
        requires
            f == a * 256 + b,
    ;
    assert(((f >> 2u16) & 1 == 1) == ((b / 4) % 2 == 1)) by (bit_vector)
        requires
            f == a * 256 + b,
    ;
    assert(((f >> 1u16) & 1 == 1) == ((b / 2) % 2 == 1)) by (bit_vector)
        requires
            f == a * 256 + b,
    ;
    assert(((f >> 0u16) & 1 == 1) == (b % 2 == 1)) by (bit_vector)
        requires
            f == a * 256 + b,
    ;
}

/// The flags read from a packet are its RFC 793 control bits.
proof fn lemma_flag_seq_bits(s: Seq<u8>, r: Repr)
    requires
        s.len() >= 20,
        r.flags@ == spec_flag_seq(s),
    ensures
        r.flags[0] == (s[12] % 2 == 1),
        r.flags[1] == ((s[13] / 128) % 2 == 1),
        r.flags[2] == ((s[13] / 64) % 2 == 1),
        r.flags[3] == ((s[13] / 32) % 2 == 1),
        r.flags[4] == ((s[13] / 16) % 2 == 1),
        r.flags[5] == ((s[13] / 8) % 2 == 1),
        r.flags[6] == ((s[13] / 4) % 2 == 1),
        r.flags[7] == ((s[13] / 2) % 2 == 1),
        r.flags[8] == (s[13] % 2 == 1),
{
    lemma_flag_bits(s[12], s[13], spec_flags_field(s));
    assert(r.flags[0] == r.flags@[0]);
    assert(r.flags[1] == r.flags@[1]);
    assert(r.flags[2] == r.flags@[2]);
    assert(r.flags[3] == r.flags@[3]);
    assert(r.flags[4] == r.flags@[4]);
    assert(r.flags[5] == r.flags@[5]);
    assert(r.flags[6] == r.flags@[6]);
    assert(r.flags[7] == r.flags@[7]);
    assert(r.flags[8] == r.flags@[8]);
}

/// Reading a TCP header follows RFC 793: the header that `Repr::deserialize`
/// reads from a packet has the packet's ports, sequence and acknowledgment
/// numbers, control bits, window and urgent pointer at their RFC 793 places.
pub proof fn lemma_deserialize_reads_rfc793(s: Seq<u8>, r: Repr)
    requires
        s.len() >= 20,
        spec_deserializes_to(s, r),
    ensures
        spec_rfc793_fields(s, r),
{
    lemma_flag_seq_bits(s, r);
}

/// Writing a TCP header follows RFC 793: `Repr::serialize` puts the ports,
/// sequence and acknowledgment numbers, control bits, window and urgent
/// pointer at their RFC 793 places, a data offset of 5 words (6 with a
/// maximum segment size option: kind 2, length 4 and the size, in bytes 20
/// to 24), a zero checksum, and leaves the bytes after the header as they
/// were.
pub proof fn lemma_serialize_writes_rfc793(s1: Seq<u8>, s2: Seq<u8>, r: Repr)
    requires
        s1.len() >= 20,
        spec_serialized(s1, s2, r),
    ensures
        spec_rfc793_fields(s2, r),
        s2[12] / 16 == if r.max_segment_size is Some { 6int } else { 5int },
        s2[16] == 0 && s2[17] == 0,
        r.max_segment_size matches Some(mss) ==> s2[20] == 2 && s2[21] == 4 && s2[22] as int * 256
            + s2[23] as int == mss,
        s2.skip(spec_header_len(r)) == s1.skip(spec_header_len(r)),
{
    lemma_flag_seq_bits(s2, r);
    assert(s2[16] == 0 && s2[17] == 0);
    assert(s2.skip(spec_header_len(r)) =~= s2.subrange(spec_header_len(r), s2.len() as int));
    assert(s1.skip(spec_header_len(r)) =~= s1.subrange(spec_header_len(r), s1.len() as int));
}

impl Repr {
    pub const FLAG_NS: usize = 0;

    pub const FLAG_CWR: usize = 1;

    pub const FLAG_ECE: usize = 2;

    pub const FLAG_URG: usize = 3;

    pub const FLAG_ACK: usize = 4;

    pub const FLAG_PSH: usize = 5;

    pub const FLAG_RST: usize = 6;

    pub const FLAG_SYN: usize = 7;

    pub const FLAG_FIN: usize = 8;

    /// Returns the length of the TCP header (including options!) when
    /// serialized to a buffer.
    pub fn header_len(&self) -> (len: usize)
        ensures
            len == spec_header_len(*self),
    {
        20 + if self.max_segment_size.is_some() {
            4
        } else {
            0
        }
    }

    /// Deserializes a packet into a TCP header.
    ///
    /// The maximum segment size is that of the first such option that the
    /// iteration over the options reaches.
    pub fn deserialize(packet: &Packet) -> (r: Repr)
        requires
            20 <= spec_data_offset(packet@) * 4 <= packet@.len(),
            spec_options_scannable(spec_options(packet@), 0),
        ensures
            spec_deserializes_to(packet@, r),
    {
        let mut options_iter = TcpOptionIter::new(packet.options());
        let ghost opts = spec_options(packet@);
        let mut max_segment_size: Option<u16> = None;
        loop
            invariant_except_break
                options_iter@.0 == opts,
                0 <= options_iter@.1 <= opts.len(),
                spec_options_scannable(opts, options_iter@.1),
                spec_first_mss(opts, 0) == spec_first_mss(opts, options_iter@.1),
                max_segment_size is None,
            ensures
                max_segment_size == spec_first_mss(opts, 0),
            decreases opts.len() - options_iter@.1,
        {
            let ghost pos = options_iter@.1;
            match options_iter.next() {
                Some(TcpOption::MaxSegmentSize(mss)) => {
                    max_segment_size = Some(mss);
                    break;
                },
                Some(_) => {},
                None => {
                    break;
                },
            }
        }
        let flags = [
            packet.ns(),
            packet.cwr(),
            packet.ece(),
            packet.urg(),
            packet.ack(),
            packet.psh(),
            packet.rst(),
            packet.syn(),
            packet.fin(),
        ];
        assert(flags@ =~= spec_flag_seq(packet@));
        Repr {
            src_port: packet.src_port(),
            dst_port: packet.dst_port(),
            seq_num: packet.seq_num(),
            ack_num: packet.ack_num(),
            flags,
            window_size: packet.window_size(),
            urgent_pointer: packet.urgent_pointer(),
            max_segment_size,
        }
    }
}

/// Setting one of the flag bits changes that flag only: the other bytes, the
/// other flags, the data offset and the reserved bits stay.
pub proof fn lemma_with_flag(s: Seq<u8>, i: u16, enabled: bool)
    requires
        s.len() >= 20,
        i < 9,
    ensures
        ({
            let t = spec_with_flag(s, i, enabled);
            &&& t.len() == s.len()
            &&& t.subrange(0, 12) == s.subrange(0, 12)
            &&& t.subrange(14, t.len() as int) == s.subrange(14, s.len() as int)
            &&& spec_flag(t, i) == enabled
            &&& forall|j: u16| j < 16 && j != i ==> #[trigger] spec_flag(t, j) == spec_flag(s, j)
            &&& spec_data_offset(t) == spec_data_offset(s)
            &&& (t[12] % 16) / 2 == (s[12] % 16) / 2
        }),
{
    let t = spec_with_flag(s, i, enabled);
    let f = spec_flags_field(s);
    let g = spec_set_bit(f, i, enabled);
    lemma_splice_index(s, 12, be16_bytes(g));
    assert(t.subrange(0, 12) =~= s.subrange(0, 12));
    assert(t.subrange(14, t.len() as int) =~= s.subrange(14, s.len() as int));
    lemma_be_bytes(g, 0);
    lemma_u16_bits(g, 0, 0, false);
    assert(spec_flags_field(t) == g);
    lemma_u16_bits(f, i, 0, enabled);
    assert forall|j: u16| j < 16 && j != i implies #[trigger] spec_flag(t, j) == spec_flag(s, j) by {
        lemma_u16_bits(f, i, j, enabled);
    }
    assert(f == s[12] as int * 256 + s[13] as int);
    assert(t[12] == g / 256);
    assert(spec_data_offset(t) == spec_data_offset(s)) by (nonlinear_arith)
        requires
            t[12] == g / 256,
            g / 4096 == f / 4096,
            f == s[12] as int * 256 + s[13] as int,
            0 <= s[13] < 256,
            0 <= g,
            spec_data_offset(t) == t[12] / 16,
            spec_data_offset(s) == s[12] / 16;
    assert((t[12] % 16) / 2 == (s[12] % 16) / 2) by (nonlinear_arith)
        requires
            t[12] == g / 256,
            (g / 512) % 8 == (f / 512) % 8,
            f == s[12] as int * 256 + s[13] as int,
            0 <= s[13] < 256,
            0 <= g;
}

impl Repr {
    /// Serializes the TCP header into a packet.
    pub fn serialize(&self, packet: &mut Packet) -> (r: Result<()>)
        ensures
            r is Ok <==> spec_header_len(*self) <= old(packet)@.len(),
            r is Ok ==> spec_serialized(old(packet)@, final(packet)@, *self),
            r matches Err(e) ==> e is Exhausted && final(packet)@ == old(packet)@,
    {
        if self.header_len() > packet.as_ref().len() {
            return Err(Error::Exhausted);
        }
        let ghost s0 = packet@;
        write_ports_and_numbers(packet, self.src_port, self.dst_port, self.seq_num, self.ack_num);
        let ghost s1 = packet@;

        // When using options, make sure the header length is a multiple of 32 bits
        // using the NOP option.
        let data_offset: u8 = 5 + if self.max_segment_size.is_some() {
            1
        } else {
            0
        };
        packet.set_data_offset(data_offset);
        let ghost s2 = packet@;

        write_flags(packet, &self.flags);
        let ghost s3 = packet@;
        write_window_checksum_urgent(packet, self.window_size, self.urgent_pointer);
        let ghost s4 = packet@;
        proof {
            assert(s4.subrange(0, 14)[12] == s3.subrange(0, 14)[12]);
            assert(spec_data_offset(s4) * 4 == spec_header_len(*self));
        }

        // Ok for now... in the future we may support arbitrary options on the
        // Repr and should support generic serialization of options.
        match self.max_segment_size {
            Some(mss) => {
                let options = packet.options_mut();
                options[0] = 2;
                options[1] = 4;
                set_u16(options, 2, mss);
                proof {
                    lemma_be_bytes(mss, 0);
                    assert(packet@.subrange(0, 20) =~= s4.subrange(0, 20));
                    assert(packet@.subrange(24, packet@.len() as int) =~= s4.subrange(
                        24,
                        s4.len() as int,
                    ));
                    assert(packet@[22] == be16_bytes(mss)[0] && packet@[23] == be16_bytes(mss)[1]);
                }
            },
            _ => {},
        };
        proof {
            lemma_serialize_steps(*self, s0, s1, s2, s3, s4, packet@);
        }
        Ok(())
    }
}

/// The steps of `Repr::serialize` together write the header of `r`.
proof fn lemma_serialize_steps(
    r: Repr,
    s0: Seq<u8>,
    s1: Seq<u8>,
    s2: Seq<u8>,
    s3: Seq<u8>,
    s4: Seq<u8>,
    s5: Seq<u8>,
)
    requires
        spec_header_len(r) <= s0.len(),
        s1.len() == s0.len(),
        spec_be16(s1, 0) == r.src_port,
        spec_be16(s1, 2) == r.dst_port,
        spec_be32(s1, 4) == r.seq_num,
        spec_be32(s1, 8) == r.ack_num,
        s1.subrange(12, s1.len() as int) == s0.subrange(12, s0.len() as int),
        s2 == s1.update(12, ((spec_header_len(r) / 4 % 16) * 16 + s1[12] % 16) as u8),
        s3 == spec_with_flags(s2, r.flags@),
        s4.len() == s3.len(),
        s4.subrange(0, 14) == s3.subrange(0, 14),
        spec_be16(s4, 14) == r.window_size,
        spec_be16(s4, 16) == 0,
        spec_be16(s4, 18) == r.urgent_pointer,
        s4.subrange(20, s4.len() as int) == s3.subrange(20, s3.len() as int),
        r.max_segment_size is None ==> s5 == s4,
        r.max_segment_size matches Some(mss) ==> {
            &&& s5.len() == s4.len()
            &&& s5.subrange(0, 20) == s4.subrange(0, 20)
            &&& s5[20] == 2
            &&& s5[21] == 4
            &&& spec_be16(s5, 22) == mss
            &&& s5.subrange(24, s5.len() as int) == s4.subrange(24, s4.len() as int)
        },
    ensures
        spec_serialized(s0, s5, r),
{
    lemma_flags(s2, r.flags@);
    let h = spec_header_len(r);
    assert(s2.subrange(0, 12) =~= s1.subrange(0, 12));
    assert(s2.subrange(14, s2.len() as int) =~= s1.subrange(14, s1.len() as int));
    assert(s5.subrange(0, 20) =~= s4.subrange(0, 20));
    assert(s4.subrange(0, 12) =~= s3.subrange(0, 12));
    assert(s5.subrange(0, 12) =~= s1.subrange(0, 12));
    assert(s5[0] == s1[0] && s5[1] == s1[1] && s5[2] == s1[2] && s5[3] == s1[3]) by {
        assert(s5.subrange(0, 12)[0] == s1.subrange(0, 12)[0]);
        assert(s5.subrange(0, 12)[1] == s1.subrange(0, 12)[1]);
        assert(s5.subrange(0, 12)[2] == s1.subrange(0, 12)[2]);
        assert(s5.subrange(0, 12)[3] == s1.subrange(0, 12)[3]);
    }
    assert(s5[4] == s1[4] && s5[5] == s1[5] && s5[6] == s1[6] && s5[7] == s1[7]) by {
        assert(s5.subrange(0, 12)[4] == s1.subrange(0, 12)[4]);
        assert(s5.subrange(0, 12)[5] == s1.subrange(0, 12)[5]);
        assert(s5.subrange(0, 12)[6] == s1.subrange(0, 12)[6]);
        assert(s5.subrange(0, 12)[7] == s1.subrange(0, 12)[7]);
    }
    assert(s5[8] == s1[8] && s5[9] == s1[9] && s5[10] == s1[10] && s5[11] == s1[11]) by {
        assert(s5.subrange(0, 12)[8] == s1.subrange(0, 12)[8]);
        assert(s5.subrange(0, 12)[9] == s1.subrange(0, 12)[9]);
        assert(s5.subrange(0, 12)[10] == s1.subrange(0, 12)[10]);
        assert(s5.subrange(0, 12)[11] == s1.subrange(0, 12)[11]);
    }
    assert(s5[12] == s3[12] && s5[13] == s3[13]) by {
        assert(s5.subrange(0, 20)[12] == s4.subrange(0, 20)[12]);
        assert(s5.subrange(0, 20)[13] == s4.subrange(0, 20)[13]);
        assert(s4.subrange(0, 14)[12] == s3.subrange(0, 14)[12]);
        assert(s4.subrange(0, 14)[13] == s3.subrange(0, 14)[13]);
    }
    assert(s5[14] == s4[14] && s5[15] == s4[15] && s5[16] == s4[16] && s5[17] == s4[17]) by {
        assert(s5.subrange(0, 20)[14] == s4.subrange(0, 20)[14]);
        assert(s5.subrange(0, 20)[15] == s4.subrange(0, 20)[15]);
        assert(s5.subrange(0, 20)[16] == s4.subrange(0, 20)[16]);
        assert(s5.subrange(0, 20)[17] == s4.subrange(0, 20)[17]);
    }
    assert(s5[18] == s4[18] && s5[19] == s4[19]) by {
        assert(s5.subrange(0, 20)[18] == s4.subrange(0, 20)[18]);
        assert(s5.subrange(0, 20)[19] == s4.subrange(0, 20)[19]);
    }
    assert(spec_flags_field(s5) == spec_flags_field(s3));
    assert(spec_flag_seq(s5) =~= spec_flag_seq(s3));
    assert(s3[12] == s5[12]);
    assert(spec_data_offset(s2) * 4 == h);
    assert((s2[12] % 16) / 2 == (s0[12] % 16) / 2) by {
        assert(s1.subrange(12, s1.len() as int)[0] == s0.subrange(12, s0.len() as int)[0]);
    }
    assert(s3.subrange(14, s3.len() as int) =~= s2.subrange(14, s2.len() as int));
    assert(s5.subrange(h, s5.len() as int) =~= s0.subrange(h, s0.len() as int)) by {
        assert forall|k: int| h <= k < s5.len() implies s5[k] == s0[k] by {
            assert(s5[k] == s4[k]) by {
                if r.max_segment_size is Some {
                    assert(s5.subrange(24, s5.len() as int)[k - 24] == s4.subrange(24, s4.len() as int)[k - 24]);
                }
            }
            assert(s4.subrange(20, s4.len() as int)[k - 20] == s3.subrange(20, s3.len() as int)[k - 20]);
            assert(s3.subrange(14, s3.len() as int)[k - 14] == s2.subrange(14, s2.len() as int)[k - 14]);
            assert(s2.subrange(14, s2.len() as int)[k - 14] == s1.subrange(14, s1.len() as int)[k - 14]);
            assert(s1.subrange(12, s1.len() as int)[k - 12] == s0.subrange(12, s0.len() as int)[k - 12]);
        }
    }
}

/// Writes the flags in the order of the `FLAG_` constants.
fn write_flags(packet: &mut Packet, flags: &[bool; 9])
    requires
        old(packet)@.len() >= 20,
    ensures
        final(packet)@ == spec_with_flags(old(packet)@, flags@),
        final(packet)@.len() == old(packet)@.len(),
        spec_data_offset(final(packet)@) == spec_data_offset(old(packet)@),
{
    packet.set_ns(flags[Repr::FLAG_NS]);
    packet.set_cwr(flags[Repr::FLAG_CWR]);
    packet.set_ece(flags[Repr::FLAG_ECE]);
    packet.set_urg(flags[Repr::FLAG_URG]);
    packet.set_ack(flags[Repr::FLAG_ACK]);
    packet.set_psh(flags[Repr::FLAG_PSH]);
    packet.set_rst(flags[Repr::FLAG_RST]);
    packet.set_syn(flags[Repr::FLAG_SYN]);
    packet.set_fin(flags[Repr::FLAG_FIN]);
    proof {
        lemma_flags(old(packet)@, flags@);
    }
}

/// Writes the ports and the sequence and acknowledgement numbers.
fn write_ports_and_numbers(packet: &mut Packet, src_port: u16, dst_port: u16, seq_num: u32, ack_num: u32)
    requires
        old(packet)@.len() >= 20,
    ensures
        final(packet)@.len() == old(packet)@.len(),
        spec_be16(final(packet)@, 0) == src_port,
        spec_be16(final(packet)@, 2) == dst_port,
        spec_be32(final(packet)@, 4) == seq_num,
        spec_be32(final(packet)@, 8) == ack_num,
        final(packet)@.subrange(12, final(packet)@.len() as int) == old(packet)@.subrange(
            12,
            old(packet)@.len() as int,
        ),
{
    packet.set_src_port(src_port);
    packet.set_dst_port(dst_port);
    packet.set_seq_num(seq_num);
    packet.set_ack_num(ack_num);
    proof {
        lemma_be_bytes(src_port, seq_num);
        lemma_be_bytes(dst_port, ack_num);
        let s = packet@;
        assert(s.subrange(0, 2) =~= be16_bytes(src_port));
        assert(s.subrange(2, 4) =~= be16_bytes(dst_port));
        assert(s.subrange(4, 8) =~= be32_bytes(seq_num));
        assert(s.subrange(8, 12) =~= be32_bytes(ack_num));
        assert(s[0] == be16_bytes(src_port)[0] && s[1] == be16_bytes(src_port)[1]);
        assert(s[2] == be16_bytes(dst_port)[0] && s[3] == be16_bytes(dst_port)[1]);
        assert(s[4] == be32_bytes(seq_num)[0] && s[5] == be32_bytes(seq_num)[1]);
        assert(s[6] == be32_bytes(seq_num)[2] && s[7] == be32_bytes(seq_num)[3]);
        assert(s[8] == be32_bytes(ack_num)[0] && s[9] == be32_bytes(ack_num)[1]);
        assert(s[10] == be32_bytes(ack_num)[2] && s[11] == be32_bytes(ack_num)[3]);
        assert(s.subrange(12, s.len() as int) =~= old(packet)@.subrange(
            12,
            old(packet)@.len() as int,
        ));
    }
}

/// Writes the window size, a zero checksum and the urgent pointer.
fn write_window_checksum_urgent(packet: &mut Packet, window_size: u16, urgent_pointer: u16)
    requires
        old(packet)@.len() >= 20,
    ensures
        final(packet)@.len() == old(packet)@.len(),
        final(packet)@.subrange(0, 14) == old(packet)@.subrange(0, 14),
        spec_be16(final(packet)@, 14) == window_size,
        spec_be16(final(packet)@, 16) == 0,
        spec_be16(final(packet)@, 18) == urgent_pointer,
        final(packet)@.subrange(20, final(packet)@.len() as int) == old(packet)@.subrange(
            20,
            old(packet)@.len() as int,
        ),
{
    packet.set_window_size(window_size);
    packet.set_checksum(0);
    packet.set_urgent_pointer(urgent_pointer);
    proof {
        lemma_be_bytes(window_size, 0);
        lemma_be_bytes(urgent_pointer, 0);
        lemma_be_bytes(0, 0);
        let s = packet@;
        assert(s.subrange(0, 14) =~= old(packet)@.subrange(0, 14));
        assert(s[14] == be16_bytes(window_size)[0] && s[15] == be16_bytes(window_size)[1]);
        assert(s[16] == be16_bytes(0)[0] && s[17] == be16_bytes(0)[1]);
        assert(s[18] == be16_bytes(urgent_pointer)[0] && s[19] == be16_bytes(urgent_pointer)[1]);
        assert(s.subrange(20, s.len() as int) =~= old(packet)@.subrange(
            20,
            old(packet)@.len() as int,
        ));
    }
}

/// The packet with the flags of `flags` (in the order of the `FLAG_`
/// constants) set one after the other.
pub open spec fn spec_with_flags(s: Seq<u8>, flags: Seq<bool>) -> Seq<u8> {
    let s = spec_with_flag(s, 8, flags[0]);
    let s = spec_with_flag(s, 7, flags[1]);
    let s = spec_with_flag(s, 6, flags[2]);
    let s = spec_with_flag(s, 5, flags[3]);
    let s = spec_with_flag(s, 4, flags[4]);
    let s = spec_with_flag(s, 3, flags[5]);
    let s = spec_with_flag(s, 2, flags[6]);
    let s = spec_with_flag(s, 1, flags[7]);
    spec_with_flag(s, 0, flags[8])
}

/// Setting all the flags one after the other leaves the flags in place and
/// the other bytes, the data offset and the reserved bits alone.
#[verifier::rlimit(50)]
pub proof fn lemma_flags(s: Seq<u8>, flags: Seq<bool>)
    requires
        s.len() >= 20,
        flags.len() == 9,
    ensures
        ({
            let t = spec_with_flags(s, flags);
            &&& t.len() == s.len()
            &&& t.subrange(0, 12) == s.subrange(0, 12)
            &&& t.subrange(14, t.len() as int) == s.subrange(14, s.len() as int)
            &&& spec_flag_seq(t) == flags
            &&& spec_data_offset(t) == spec_data_offset(s)
            &&& (t[12] % 16) / 2 == (s[12] % 16) / 2
        }),
{
    let s1 = spec_with_flag(s, 8, flags[0]);
    lemma_with_flag(s, 8, flags[0]);
    let s2 = spec_with_flag(s1, 7, flags[1]);
    lemma_with_flag(s1, 7, flags[1]);
    let s3 = spec_with_flag(s2, 6, flags[2]);
    lemma_with_flag(s2, 6, flags[2]);
    let s4 = spec_with_flag(s3, 5, flags[3]);
    lemma_with_flag(s3, 5, flags[3]);
    let s5 = spec_with_flag(s4, 4, flags[4]);
    lemma_with_flag(s4, 4, flags[4]);
    let s6 = spec_with_flag(s5, 3, flags[5]);
    lemma_with_flag(s5, 3, flags[5]);
    let s7 = spec_with_flag(s6, 2, flags[6]);
    lemma_with_flag(s6, 2, flags[6]);
    let s8 = spec_with_flag(s7, 1, flags[7]);
    lemma_with_flag(s7, 1, flags[7]);
    let s9 = spec_with_flag(s8, 0, flags[8]);
    lemma_with_flag(s8, 0, flags[8]);
    assert(spec_flag_seq(s9) =~= flags);
}

/// Filling in the checksum changes only the checksum field, and makes the
/// checksum over the pseudo header and the packet zero.
pub proof fn lemma_fill_checksum(s: Seq<u8>, ip_repr: Ipv4Repr)
    requires
        20 <= s.len(),
    ensures
        ({
            let t = spec_fill_checksum(s, ip_repr);
            &&& t.len() == s.len()
            &&& t.subrange(0, 16) == s.subrange(0, 16)
            &&& t.subrange(18, t.len() as int) == s.subrange(18, s.len() as int)
            &&& spec_gen_packet_checksum(t, ip_repr) == 0
        }),
{
    let z = splice(s, 16, be16_bytes(0));
    let c = spec_gen_packet_checksum(z, ip_repr);
    let t = spec_fill_checksum(s, ip_repr);
    let p = spec_pseudo_header(ip_repr);
    crate::repr::ipv4::lemma_address_view(ip_repr.src_addr);
    crate::repr::ipv4::lemma_address_view(ip_repr.dst_addr);
    assert((p + z)[28] == 0 && (p + z)[29] == 0);
    lemma_checksum_fill(p + z, 28);
    assert(p + t =~= splice(p + z, 28, be16_bytes(c)));
    assert(t.subrange(0, 16) =~= s.subrange(0, 16));
    assert(t.subrange(18, t.len() as int) =~= s.subrange(18, s.len() as int));
}

/// Serializing a header and filling in the checksum yields a packet that
/// passes the encoding checks and deserializes to the header.
pub proof fn lemma_serialize_deserialize(r: Repr, s0: Seq<u8>, s1: Seq<u8>, ip_repr: Ipv4Repr)
    requires
        spec_header_len(r) <= s0.len(),
        spec_serialized(s0, s1, r),
    ensures
        spec_check_encoding(spec_fill_checksum(s1, ip_repr), ip_repr) == Ok::<(), Error>(()),
        spec_options_scannable(spec_options(spec_fill_checksum(s1, ip_repr)), 0),
        spec_deserializes_to(spec_fill_checksum(s1, ip_repr), r),
{
    let s2 = spec_fill_checksum(s1, ip_repr);
    lemma_fill_checksum(s1, ip_repr);
    assert forall|k: int| 0 <= k < s1.len() && k != 16 && k != 17 implies s2[k] == s1[k] by {
        if k < 16 {
            assert(s2.subrange(0, 16)[k] == s1.subrange(0, 16)[k]);
        } else {
            assert(s2.subrange(18, s2.len() as int)[k - 18] == s1.subrange(18, s1.len() as int)[k - 18]);
        }
    }
    assert(spec_flags_field(s2) == spec_flags_field(s1));
    assert(spec_flag_seq(s2) =~= spec_flag_seq(s1));
    let opts = spec_options(s2);
    match r.max_segment_size {
        Some(mss) => {
            assert(opts.len() == 4);
            assert(opts[0] == 2 && opts[1] == 4 && opts[2] == s1[22] && opts[3] == s1[23]);
            assert(spec_first_mss(opts, 0) == Some(mss));
        },
        None => {
            assert(opts.len() == 0);
        },
    }
}

/// The encoding checks of a TCP packet follow RFC 793: the packet passes
/// exactly when, behind the pseudo header of `ip_repr`, it sums to zero and
/// its data offset (four times the high nibble of byte 12) is at least 20
/// and fits the packet; a wrong checksum fails the checksum, and a wrong
/// data offset is malformed.
pub proof fn lemma_check_encoding_rfc793(s: Seq<u8>, ip_repr: Ipv4Repr)
    requires
        s.len() >= 20,
    ensures
        ({
            let summed = spec_internet_checksum(spec_pseudo_header(ip_repr) + s) == 0;
            let offset = (s[12] / 16) as int * 4;
            &&& !summed ==> spec_check_encoding(s, ip_repr) == Err::<(), Error>(Error::Checksum)
            &&& summed && !(20 <= offset <= s.len()) ==> spec_check_encoding(s, ip_repr) == Err::<
                (),
                Error,
            >(Error::Malformed)
            &&& summed && 20 <= offset <= s.len() ==> spec_check_encoding(s, ip_repr) == Ok::<
                (),
                Error,
            >(())
        }),
{
}

} // verus!
