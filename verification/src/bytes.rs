//! Network byte order (big endian) access to byte buffers.
//!
//! The reads and writes of multi-byte integers go through the `byteorder`
//! crate; the helpers here place them at offsets of an owned buffer.
use vstd::prelude::*;
use byteorder::{ByteOrder, NetworkEndian};

verus! {

/// The big endian value of the two bytes of `s` at `at` and `at + 1`.
pub open spec fn spec_be16(s: Seq<u8>, at: int) -> int {
    s[at] as int * 256 + s[at + 1] as int
}

/// The big endian value of the four bytes of `s` starting at `at`.
pub open spec fn spec_be32(s: Seq<u8>, at: int) -> int {
    s[at] as int * 16777216 + s[at + 1] as int * 65536 + s[at + 2] as int * 256 + s[at + 3] as int
}

/// The two bytes of `n` in network byte order.
pub open spec fn be16_bytes(n: u16) -> Seq<u8> {
    seq![(n / 256) as u8, (n % 256) as u8]
}

/// The four bytes of `n` in network byte order.
pub open spec fn be32_bytes(n: u32) -> Seq<u8> {
    seq![(n / 16777216) as u8, ((n / 65536) % 256) as u8, ((n / 256) % 256) as u8, (n % 256) as u8]
}

/// `s` with the bytes `b` written over it from position `at` on.
pub open spec fn splice(s: Seq<u8>, at: int, b: Seq<u8>) -> Seq<u8> {
    s.subrange(0, at) + b + s.subrange(at + b.len(), s.len() as int)
}

/// Reading back the bytes of a number gives the number.
pub proof fn lemma_be_bytes(n: u16, m: u32)
    ensures
        spec_be16(be16_bytes(n), 0) == n,
        spec_be32(be32_bytes(m), 0) == m,
{
    assert(spec_be16(be16_bytes(n), 0) == n) by (nonlinear_arith)
        requires
            be16_bytes(n)[0] == (n / 256) as u8,
            be16_bytes(n)[1] == (n % 256) as u8,
            0 <= n < 65536;
    assert(spec_be32(be32_bytes(m), 0) == m) by (nonlinear_arith)
        requires
            be32_bytes(m)[0] == (m / 16777216) as u8,
            be32_bytes(m)[1] == ((m / 65536) % 256) as u8,
            be32_bytes(m)[2] == ((m / 256) % 256) as u8,
            be32_bytes(m)[3] == (m % 256) as u8,
            0 <= m < 4294967296;
}

/// Each byte of a spliced sequence comes from the spliced bytes within
/// their range and from the sequence elsewhere.
pub proof fn lemma_splice_index(s: Seq<u8>, at: int, b: Seq<u8>)
    requires
        0 <= at,
        at + b.len() <= s.len(),
    ensures
        splice(s, at, b).len() == s.len(),
        forall|k: int|
            0 <= k < s.len() ==> #[trigger] splice(s, at, b)[k] == if at <= k < at + b.len() {
                b[k - at]
            } else {
                s[k]
            },
{
}

/// Reads a `u16` with `NetworkEndian::read_u16`, which takes the first two
/// bytes of the slice as a big endian number (and panics on a shorter slice).
#[verifier::external_body]
fn be_read_u16(buf: &[u8]) -> (n: u16)
    requires
        buf@.len() >= 2,
    ensures
        n as int == spec_be16(buf@, 0),
{
    NetworkEndian::read_u16(buf)
}

/// Reads a `u32` with `NetworkEndian::read_u32`, which takes the first four
/// bytes of the slice as a big endian number (and panics on a shorter slice).
#[verifier::external_body]
fn be_read_u32(buf: &[u8]) -> (n: u32)
    requires
        buf@.len() >= 4,
    ensures
        n as int == spec_be32(buf@, 0),
{
    NetworkEndian::read_u32(buf)
}

/// Reads the big endian `u16` at offset `at` of a buffer.
pub fn get_u16(buf: &[u8], at: usize) -> (n: u16)
    requires
        at + 2 <= buf@.len(),
    ensures
        n as int == spec_be16(buf@, at as int),
{
    let _len = buf.len();
    let end = at + 2;
    let field = &buf[at..end];
    be_read_u16(field)
}

/// Reads the big endian `u32` at offset `at` of a buffer.
pub fn get_u32(buf: &[u8], at: usize) -> (n: u32)
    requires
        at + 4 <= buf@.len(),
    ensures
        n as int == spec_be32(buf@, at as int),
{
    let _len = buf.len();
    let end = at + 4;
    let field = &buf[at..end];
    be_read_u32(field)
}

/// Writes `n` at offset `at` of a buffer with `NetworkEndian::write_u16`,
/// which overwrites the first two bytes of the slice it is given with `n` in
/// big endian order and leaves the rest alone (it panics on a slice
/// shorter than two bytes, which the precondition rules out).
#[verifier::external_body]
pub fn set_u16(buf: &mut [u8], at: usize, n: u16)
    requires
        at + 2 <= old(buf)@.len(),
    ensures
        final(buf)@ == splice(old(buf)@, at as int, be16_bytes(n)),
{
    NetworkEndian::write_u16(&mut buf[at..], n)
}

/// Writes `n` at offset `at` of a buffer with `NetworkEndian::write_u32`,
/// which overwrites the first four bytes of the slice it is given with `n` in
/// big endian order and leaves the rest alone (it panics on a slice
/// shorter than four bytes, which the precondition rules out).
#[verifier::external_body]
pub fn set_u32(buf: &mut [u8], at: usize, n: u32)
    requires
        at + 4 <= old(buf)@.len(),
    ensures
        final(buf)@ == splice(old(buf)@, at as int, be32_bytes(n)),
{
    NetworkEndian::write_u32(&mut buf[at..], n)
}

/// Copies `src` into a buffer from offset `at` on.
pub fn set_bytes(buf: &mut [u8], at: usize, src: &[u8])
    requires
        at + src@.len() <= old(buf)@.len(),
    ensures
        final(buf)@ == splice(old(buf)@, at as int, src@),
{
    let n = src.len();
    let mut i: usize = 0;
    while i < n
        invariant
            n == src@.len(),
            at + n <= buf@.len(),
            buf@.len() == old(buf)@.len(),
            i <= n,
            buf@ == splice(old(buf)@, at as int, src@.subrange(0, i as int)),
        decreases n - i,
    {
        let _len = buf.len();
        buf[at + i] = src[i];
        i = i + 1;
        assert(buf@ =~= splice(old(buf)@, at as int, src@.subrange(0, i as int)));
    }
    assert(src@.subrange(0, n as int) =~= src@);
}

} // verus!
