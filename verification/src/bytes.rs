//! Little-endian 32-bit words in byte buffers, as the binary file formats
//! store them.
use vstd::prelude::*;

verus! {

/// The little-endian 32-bit word stored at `at` in `s`.
pub open spec fn le_u32(s: Seq<u8>, at: int) -> u32 {
    (s[at] as int + s[at + 1] as int * 0x100 + s[at + 2] as int * 0x1_0000 + s[at + 3] as int * 0x100_0000) as u32
}

/// The four little-endian bytes of `w`.
pub open spec fn le_bytes(w: u32) -> Seq<u8> {
    seq![(w % 0x100) as u8, ((w / 0x100) % 0x100) as u8, ((w / 0x1_0000) % 0x100) as u8, (w / 0x100_0000) as u8]
}

/// The little-endian bytes of each word of `ws`, one after another.
pub open spec fn le_words(ws: Seq<u32>) -> Seq<u8>
    decreases ws.len(),
{
    if ws.len() == 0 {
        Seq::empty()
    } else {
        le_words(ws.drop_last()) + le_bytes(ws.last())
    }
}

/// Reading back the bytes of a word gives the word.
pub proof fn law_le_roundtrip(w: u32, s: Seq<u8>, at: int)
    requires
        0 <= at,
        at + 4 <= s.len(),
        s.subrange(at, at + 4) == le_bytes(w),
    ensures
        le_u32(s, at) == w,
{
    assert(s[at] == s.subrange(at, at + 4)[0]);
    assert(s[at + 1] == s.subrange(at, at + 4)[1]);
    assert(s[at + 2] == s.subrange(at, at + 4)[2]);
    assert(s[at + 3] == s.subrange(at, at + 4)[3]);
    let a = w % 0x100;
    let b = (w / 0x100) % 0x100;
    let c = (w / 0x1_0000) % 0x100;
    let d = w / 0x100_0000;
    assert(a + b * 0x100 + c * 0x1_0000 + d * 0x100_0000 == w) by (nonlinear_arith)
        requires
            a == w % 0x100,
            b == (w / 0x100) % 0x100,
            c == (w / 0x1_0000) % 0x100,
            d == w / 0x100_0000,
    ;
}

/// The word of `s` at `at`.
pub fn read_le_u32(s: &[u8], at: usize) -> (w: u32)
    requires
        at + 4 <= s@.len(),
    ensures
        w == le_u32(s@, at as int),
{
    let b0 = s[at] as u32;
    let b1 = s[at + 1] as u32;
    let b2 = s[at + 2] as u32;
    let b3 = s[at + 3] as u32;
    b0 + b1 * 0x100 + b2 * 0x1_0000 + b3 * 0x100_0000
}

/// Appends the little-endian bytes of `w`.
pub fn push_le_u32(out: &mut Vec<u8>, w: u32)
    ensures
        final(out)@ == old(out)@ + le_bytes(w),
{
    out.push((w % 0x100) as u8);
    out.push(((w / 0x100) % 0x100) as u8);
    out.push(((w / 0x1_0000) % 0x100) as u8);
    out.push((w / 0x100_0000) as u8);
    assert(out@ =~= old(out)@ + le_bytes(w));
}

} // verus!
