//! What a conversion hands out: bytes, and real numbers that are still to
//! be written.
//!
//! Real numbers live in this crate as bit patterns only. In the binary
//! format the four bytes of a single-precision number are its pattern, and
//! the crate writes them itself. Two things are left to whoever writes the
//! output: the decimal text of a real number, and the double-precision form
//! of the time. The output is therefore a list of pieces, most of them
//! bytes, with a piece of its own for each number of those two kinds.

use vstd::prelude::*;
use vstd::utf8::encode_utf8;
use crate::endian::be_bytes_i32;
use crate::endian::be_bytes_u32;
use crate::endian::write_f32_binary;
use crate::endian::write_i32_binary;

verus! {

/// One piece of the output.
#[derive(Debug, PartialEq, Eq)]
pub enum Piece {
    /// These bytes, as they are.
    Bytes(Vec<u8>),
    /// The decimal text of the single-precision number with this bit
    /// pattern, in plain notation without exponent: the shortest such text
    /// that reads back as the same number.
    Real(u32),
    /// The eight big-endian bytes of the double-precision number equal to
    /// the single-precision number with this bit pattern.
    Double(u32),
}

/// One unit of the output: what the pieces are made of.
pub enum Unit {
    Byte(u8),
    Real(u32),
    Double(u32),
}

/// Bytes as units.
#[verifier::opaque]
pub open spec fn bytes_units(b: Seq<u8>) -> Seq<Unit> {
    Seq::new(b.len(), |i: int| Unit::Byte(b[i]))
}

/// The units of one piece.
pub open spec fn piece_units(p: Piece) -> Seq<Unit> {
    match p {
        Piece::Bytes(b) => bytes_units(b@),
        Piece::Real(bits) => seq![Unit::Real(bits)],
        Piece::Double(bits) => seq![Unit::Double(bits)],
    }
}

/// The units of a list of pieces, in order.
pub open spec fn units(pieces: Seq<Piece>) -> Seq<Unit>
    decreases pieces.len(),
{
    if pieces.len() == 0 {
        Seq::empty()
    } else {
        units(pieces.drop_last()) + piece_units(pieces.last())
    }
}

/// A text as units: the bytes of its UTF-8 encoding.
pub open spec fn text(s: Seq<char>) -> Seq<Unit> {
    bytes_units(encode_utf8(s))
}

/// The output of a conversion while it is being written.
pub struct Output {
    pieces: Vec<Piece>,
    tail: Vec<u8>,
}

impl View for Output {
    type V = Seq<Unit>;

    closed spec fn view(&self) -> Seq<Unit> {
        units(self.pieces@) + bytes_units(self.tail@)
    }
}

impl Output {
    /// An empty output.
    pub fn new() -> (r: Output)
        ensures
            r@ == Seq::<Unit>::empty(),
    {
        reveal(bytes_units);
        let r = Output { pieces: Vec::new(), tail: Vec::new() };
        assert(r@ =~= Seq::<Unit>::empty());
        r
    }

    /// Appends a text.
    pub fn put_str(&mut self, s: &str)
        ensures
            final(self)@ == old(self)@ + text(s@),
    {
        reveal(bytes_units);
        let b = s.as_bytes();
        let n = b.len();
        let ghost before = self.tail@;
        let mut i: usize = 0;
        while i < n
            invariant
                i <= n,
                n == b@.len(),
                self.pieces@ == old(self).pieces@,
                self.tail@ == before + b@.take(i as int),
            decreases n - i,
        {
            self.tail.push(b[i]);
            i = i + 1;
            assert(self.tail@ =~= before + b@.take(i as int));
        }
        assert(b@.take(n as int) =~= b@);
        assert(bytes_units(before + b@) =~= bytes_units(before) + bytes_units(b@));
        assert(self@ =~= old(self)@ + text(s@));
    }

    /// Appends the four big-endian bytes of a signed number.
    pub fn put_i32_binary(&mut self, v: i32)
        ensures
            final(self)@ == old(self)@ + bytes_units(be_bytes_i32(v)),
    {
        reveal(bytes_units);
        let ghost before = self.tail@;
        write_i32_binary(&mut self.tail, v);
        assert(bytes_units(before + be_bytes_i32(v)) =~= bytes_units(before) + bytes_units(
            be_bytes_i32(v),
        ));
        assert(self@ =~= old(self)@ + bytes_units(be_bytes_i32(v)));
    }

    /// Appends the four bytes of a single-precision bit pattern.
    pub fn put_f32_binary(&mut self, bits: u32)
        ensures
            final(self)@ == old(self)@ + bytes_units(be_bytes_u32(bits)),
    {
        reveal(bytes_units);
        let ghost before = self.tail@;
        write_f32_binary(&mut self.tail, bits);
        assert(bytes_units(before + be_bytes_u32(bits)) =~= bytes_units(before) + bytes_units(
            be_bytes_u32(bits),
        ));
        assert(self@ =~= old(self)@ + bytes_units(be_bytes_u32(bits)));
    }

    /// Closes the bytes written so far into a piece.
    fn flush(&mut self)
        ensures
            final(self)@ == old(self)@,
            final(self).tail@.len() == 0,
    {
        reveal(bytes_units);
        if self.tail.len() > 0 {
            let mut chunk: Vec<u8> = Vec::new();
            core::mem::swap(&mut chunk, &mut self.tail);
            let ghost before = self.pieces@;
            self.pieces.push(Piece::Bytes(chunk));
            assert(self.pieces@.drop_last() =~= before);
            assert(self@ =~= old(self)@);
        }
    }

    /// Appends a real number to be written as decimal text.
    pub fn put_real(&mut self, bits: u32)
        ensures
            final(self)@ == old(self)@ + seq![Unit::Real(bits)],
    {
        reveal(bytes_units);
        self.flush();
        let ghost before = self.pieces@;
        self.pieces.push(Piece::Real(bits));
        assert(self.pieces@.drop_last() =~= before);
        assert(self@ =~= old(self)@ + seq![Unit::Real(bits)]);
    }

    /// Appends a real number to be written in double precision.
    pub fn put_double(&mut self, bits: u32)
        ensures
            final(self)@ == old(self)@ + seq![Unit::Double(bits)],
    {
        reveal(bytes_units);
        self.flush();
        let ghost before = self.pieces@;
        self.pieces.push(Piece::Double(bits));
        assert(self.pieces@.drop_last() =~= before);
        assert(self@ =~= old(self)@ + seq![Unit::Double(bits)]);
    }

    /// The pieces of the finished output.
    pub fn finish(self) -> (r: Vec<Piece>)
        ensures
            units(r@) == self@,
    {
        reveal(bytes_units);
        let mut out = self;
        out.flush();
        assert(out@ =~= units(out.pieces@));
        out.pieces
    }
}

} // verus!
