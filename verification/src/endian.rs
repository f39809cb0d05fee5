//! Big-endian encoding of the fixed-width primitives of both file formats.

use vstd::prelude::*;

verus! {

/// The unsigned number whose big-endian bytes are `s[at..at + 4]`.
pub open spec fn u32_at(s: Seq<u8>, at: int) -> u32 {
    (s[at] as int * 0x100_0000 + s[at + 1] as int * 0x1_0000 + s[at + 2] as int * 0x100
        + s[at + 3] as int) as u32
}

/// The signed (two's complement) number whose big-endian bytes are `s[at..at + 4]`.
pub open spec fn i32_at(s: Seq<u8>, at: int) -> i32 {
    let u = u32_at(s, at) as int;
    if u < 0x8000_0000 {
        u as i32
    } else {
        (u - 0x1_0000_0000) as i32
    }
}

/// The unsigned number whose big-endian bytes are `s[at..at + 2]`.
pub open spec fn u16_at(s: Seq<u8>, at: int) -> u16 {
    (s[at] as int * 0x100 + s[at + 1] as int) as u16
}

/// `n` consecutive signed numbers starting at `at`.
#[verifier::opaque]
pub open spec fn ints_at(s: Seq<u8>, at: int, n: nat) -> Seq<i32> {
    Seq::new(n, |i: int| i32_at(s, at + 4 * i))
}

/// `n` consecutive 32-bit patterns starting at `at`.
#[verifier::opaque]
pub open spec fn words_at(s: Seq<u8>, at: int, n: nat) -> Seq<u32> {
    Seq::new(n, |i: int| u32_at(s, at + 4 * i))
}

/// `n` consecutive 16-bit numbers starting at `at`.
#[verifier::opaque]
pub open spec fn shorts_at(s: Seq<u8>, at: int, n: nat) -> Seq<u16> {
    Seq::new(n, |i: int| u16_at(s, at + 2 * i))
}

/// An array read from a stream has as many entries as were asked for, and
/// entry `i` is the number found `i` widths after the start.
pub proof fn lemma_arrays_at(s: Seq<u8>, at: int, n: nat)
    ensures
        ints_at(s, at, n).len() == n,
        words_at(s, at, n).len() == n,
        shorts_at(s, at, n).len() == n,
        forall|i: int| 0 <= i < n ==> #[trigger] ints_at(s, at, n)[i] == i32_at(s, at + 4 * i),
        forall|i: int| 0 <= i < n ==> #[trigger] words_at(s, at, n)[i] == u32_at(s, at + 4 * i),
        forall|i: int| 0 <= i < n ==> #[trigger] shorts_at(s, at, n)[i] == u16_at(s, at + 2 * i),
{
    reveal(ints_at);
    reveal(words_at);
    reveal(shorts_at);
}

/// A number that lies within the first `k` bytes of a stream is read the
/// same from those bytes alone.
pub proof fn lemma_read_in_prefix(s: Seq<u8>, k: int, at: int)
    requires
        0 <= at,
        at + 4 <= k <= s.len(),
    ensures
        u32_at(s.take(k), at) == u32_at(s, at),
        i32_at(s.take(k), at) == i32_at(s, at),
{
    let t = s.take(k);
    assert(t[at] == s[at]);
    assert(t[at + 1] == s[at + 1]);
    assert(t[at + 2] == s[at + 2]);
    assert(t[at + 3] == s[at + 3]);
}

/// The four big-endian bytes of an unsigned number.
pub open spec fn be_bytes_u32(v: u32) -> Seq<u8> {
    seq![
        (v as int / 0x100_0000) as u8,
        (v as int / 0x1_0000 % 0x100) as u8,
        (v as int / 0x100 % 0x100) as u8,
        (v as int % 0x100) as u8,
    ]
}

/// The unsigned number with the same 32 bits as `v`.
pub open spec fn unsigned(v: i32) -> u32 {
    if v < 0 {
        (v as int + 0x1_0000_0000) as u32
    } else {
        v as u32
    }
}

/// The four big-endian bytes of a signed number, in two's complement.
pub open spec fn be_bytes_i32(v: i32) -> Seq<u8> {
    be_bytes_u32(unsigned(v))
}

/// Joins four bytes into the unsigned number they spell in big-endian order.
pub fn join_u32(b0: u8, b1: u8, b2: u8, b3: u8) -> (r: u32)
    ensures
        r == u32_at(seq![b0, b1, b2, b3], 0),
{
    (b0 as u32) * 0x100_0000 + (b1 as u32) * 0x1_0000 + (b2 as u32) * 0x100 + (b3 as u32)
}

/// Reinterprets 32 bits as a signed number.
pub fn to_signed(u: u32) -> (r: i32)
    ensures
        r as int == if u < 0x8000_0000 { u as int } else { u as int - 0x1_0000_0000 },
        unsigned(r) == u,
{
    if u < 0x8000_0000 {
        u as i32
    } else {
        let low: u32 = u - 0x8000_0000;
        (low as i32) + i32::MIN
    }
}

/// Reinterprets a signed number as its 32 bits.
pub fn to_unsigned(v: i32) -> (r: u32)
    ensures
        r == unsigned(v),
{
    if v < 0 {
        let lifted: i64 = v as i64 + 0x1_0000_0000;
        lifted as u32
    } else {
        v as u32
    }
}

/// Appends the four big-endian bytes of a single-precision bit pattern to `out`.
pub fn write_f32_binary(out: &mut Vec<u8>, bits: u32)
    ensures
        final(out)@ == old(out)@ + be_bytes_u32(bits),
{
    push_word(out, bits);
}

/// Appends the four big-endian bytes of an unsigned number to `out`.
fn push_word(out: &mut Vec<u8>, bits: u32)
    ensures
        final(out)@ == old(out)@ + be_bytes_u32(bits),
{
    out.push((bits / 0x100_0000) as u8);
    out.push((bits / 0x1_0000 % 0x100) as u8);
    out.push((bits / 0x100 % 0x100) as u8);
    out.push((bits % 0x100) as u8);
    assert(out@ =~= old(out)@ + be_bytes_u32(bits));
}

/// The eight big-endian bytes of an unsigned number.
pub open spec fn be_bytes_u64(v: u64) -> Seq<u8> {
    be_bytes_u32((v as int / 0x1_0000_0000) as u32) + be_bytes_u32(
        (v as int % 0x1_0000_0000) as u32,
    )
}

/// Appends the eight big-endian bytes of a double-precision bit pattern to
/// `out`.
pub fn write_f64_binary(out: &mut Vec<u8>, bits: u64)
    ensures
        final(out)@ == old(out)@ + be_bytes_u64(bits),
{
    push_word(out, (bits / 0x1_0000_0000) as u32);
    push_word(out, (bits % 0x1_0000_0000) as u32);
    assert(out@ =~= old(out)@ + be_bytes_u64(bits));
}

/// Appends the four big-endian bytes of `val`, in two's complement, to `out`.
pub fn write_i32_binary(out: &mut Vec<u8>, val: i32)
    ensures
        final(out)@ == old(out)@ + be_bytes_i32(val),
{
    push_word(out, to_unsigned(val));
}

/// Reading back what was written gives the number that was written.
pub proof fn lemma_word_round_trip(v: u32)
    ensures
        be_bytes_u32(v).len() == 4,
        u32_at(be_bytes_u32(v), 0) == v,
{
}

/// Reading back what was written gives the number that was written.
pub proof fn lemma_int_round_trip(v: i32)
    ensures
        be_bytes_i32(v).len() == 4,
        i32_at(be_bytes_i32(v), 0) == v,
{
    lemma_word_round_trip(unsigned(v));
}

} // verus!
