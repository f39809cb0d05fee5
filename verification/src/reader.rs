//! Forward-only reader of big-endian primitives over a byte stream held in memory.

use vstd::prelude::*;
use vstd::slice::slice_subrange;
use vstd::slice::slice_to_vec;
use vstd::string::StrSliceExecFns;
use vstd::utf8::decode_utf8;
use vstd::utf8::valid_utf8;
use crate::endian::i32_at;
use crate::endian::ints_at;
use crate::endian::join_u32;
use crate::endian::shorts_at;
use crate::endian::to_signed;
use crate::endian::u32_at;
use crate::endian::words_at;
use crate::error::ConvertError;
use crate::sizes::lemma_times_is_product;
use crate::sizes::times;

verus! {

/// `s` without its trailing NUL characters.
pub open spec fn trim_nul(s: Seq<char>) -> Seq<char>
    decreases s.len(),
{
    if s.len() > 0 && s.last() == '\0' {
        trim_nul(s.drop_last())
    } else {
        s
    }
}

/// The text held by the fixed-width field `s[at..at + width]`: the field is
/// decoded as UTF-8 and its NUL padding is dropped; a field that is not valid
/// UTF-8 holds the empty text.
pub open spec fn text_at(s: Seq<u8>, at: int, width: int) -> Seq<char> {
    let raw = s.subrange(at, at + width);
    if valid_utf8(raw) {
        trim_nul(decode_utf8(raw))
    } else {
        Seq::empty()
    }
}

/// `n` consecutive text fields of `width` bytes each, starting at `at`.
#[verifier::opaque]
pub open spec fn texts_at(s: Seq<u8>, at: int, n: nat, width: int) -> Seq<Seq<char>> {
    Seq::new(n, |i: int| text_at(s, at + width * i, width))
}

/// A table of texts read from a stream has as many entries as were asked
/// for, and entry `i` is the text found `i` widths after the start.
pub proof fn lemma_texts_at(s: Seq<u8>, at: int, n: nat, width: int)
    ensures
        texts_at(s, at, n, width).len() == n,
        forall|i: int|
            0 <= i < n ==> #[trigger] texts_at(s, at, n, width)[i] == text_at(
                s,
                at + width * i,
                width,
            ),
{
    reveal(texts_at);
}

/// The texts of a sequence of strings.
pub open spec fn texts(v: Seq<String>) -> Seq<Seq<char>> {
    Seq::new(v.len(), |i: int| v[i]@)
}

/// `std::str::from_utf8`: the bytes as text when they are well-formed UTF-8,
/// nothing otherwise. The contract takes "well-formed" to be `valid_utf8`
/// and the text to be `decode_utf8` of the bytes, both as vstd defines them
/// for the standard encoding.
#[verifier::external_body]
fn utf8_text<'a>(bytes: &'a [u8]) -> (r: Option<&'a str>)
    ensures
        r is Some <==> valid_utf8(bytes@),
        r is Some ==> r->0@ == decode_utf8(bytes@),
{
    match std::str::from_utf8(bytes) {
        Ok(text) => Some(text),
        Err(_) => None,
    }
}

/// Drops the NUL padding at the end of a text.
pub fn strip_padding(text: &str) -> (r: String)
    ensures
        r@ == trim_nul(text@),
{
    let mut n: usize = text.unicode_len();
    assert(text@.take(n as int) =~= text@);
    while n > 0 && text.get_char(n - 1) == '\0'
        invariant
            n <= text@.len(),
            trim_nul(text@) == trim_nul(text@.take(n as int)),
        decreases n,
    {
        assert(text@.take(n as int).drop_last() =~= text@.take(n - 1));
        n = n - 1;
    }
    assert(text@.take(n as int) =~= text@.subrange(0, n as int));
    text.substring_char(0, n).to_owned()
}

/// A cursor over a byte stream. It only moves forward, and a read that the
/// stream cannot satisfy leaves it where it was.
pub struct Reader<'a> {
    data: &'a [u8],
    pos: usize,
}

impl<'a> Reader<'a> {
    #[verifier::type_invariant]
    spec fn in_bounds(self) -> bool {
        self.pos <= self.data@.len()
    }

    /// The whole stream.
    pub closed spec fn bytes(&self) -> Seq<u8> {
        self.data@
    }

    /// How many bytes have been consumed.
    pub closed spec fn position(&self) -> int {
        self.pos as int
    }

    /// Whether `size` more bytes can be read.
    pub open spec fn has(&self, size: int) -> bool {
        self.position() + size <= self.bytes().len()
    }

    /// The stream is no longer than a machine size, and the position is
    /// not negative.
    pub proof fn lemma_sizes(&self)
        ensures
            self.bytes().len() <= usize::MAX,
            0 <= self.position(),
    {
        vstd::slice::axiom_spec_len(self.data);
    }

    /// A reader at the start of `data`.
    pub fn new(data: &'a [u8]) -> (r: Self)
        ensures
            r.bytes() == data@,
            r.position() == 0,
    {
        Reader { data, pos: 0 }
    }

    /// How many bytes have been consumed.
    pub fn offset(&self) -> (r: usize)
        ensures
            r == self.position(),
            0 <= self.position() <= self.bytes().len() <= usize::MAX,
    {
        proof {
            use_type_invariant(self);
            vstd::slice::axiom_spec_len(self.data);
        }
        self.pos
    }

    /// How many bytes are left.
    pub fn remaining(&self) -> (r: usize)
        ensures
            r == self.bytes().len() - self.position(),
            0 <= self.position() <= self.bytes().len(),
    {
        proof {
            use_type_invariant(self);
        }
        self.data.len() - self.pos
    }

    /// Moves over `count` bytes without looking at them.
    pub fn skip(&mut self, count: usize) -> (r: Result<(), ConvertError>)
        ensures
            final(self).bytes() == old(self).bytes(),
            r is Ok <==> old(self).has(count as int),
            r is Ok ==> final(self).position() == old(self).position() + count,
            r is Err ==> r == Err::<(), ConvertError>(ConvertError::Truncated) && final(self).position() == old(
                self,
            ).position(),
    {
        proof {
            use_type_invariant(&*self);
        }
        if count > self.data.len() - self.pos {
            return Err(ConvertError::Truncated);
        }
        self.pos = self.pos + count;
        Ok(())
    }

    /// Reads one 32-bit pattern.
    pub fn read_f32(&mut self) -> (r: Result<u32, ConvertError>)
        ensures
            final(self).bytes() == old(self).bytes(),
            r is Ok <==> old(self).has(4),
            r is Ok ==> r->Ok_0 == u32_at(old(self).bytes(), old(self).position())
                && final(self).position() == old(self).position() + 4,
            r is Err ==> r->Err_0 == ConvertError::Truncated && final(self).position() == old(
                self,
            ).position(),
    {
        proof {
            use_type_invariant(&*self);
        }
        if self.data.len() - self.pos < 4 {
            return Err(ConvertError::Truncated);
        }
        let p = self.pos;
        let v = join_u32(self.data[p], self.data[p + 1], self.data[p + 2], self.data[p + 3]);
        self.pos = p + 4;
        Ok(v)
    }

    /// Reads `count` signed 32-bit numbers.
    pub fn read_i32_vec(&mut self, count: usize) -> (r: Result<Vec<i32>, ConvertError>)
        ensures
            final(self).bytes() == old(self).bytes(),
            r is Ok <==> old(self).has(4 * count),
            r is Ok ==> r->Ok_0@ == ints_at(old(self).bytes(), old(self).position(), count as nat)
                && final(self).position() == old(self).position() + 4 * count,
            r is Err ==> r->Err_0 == ConvertError::Truncated && final(self).position() == old(
                self,
            ).position(),
    {
        proof {
            use_type_invariant(&*self);
        }
        let data = self.data;
        let start = self.pos;
        let total = data.len();
        if count > (total - start) / 4 {
            return Err(ConvertError::Truncated);
        }
        let mut out: Vec<i32> = Vec::with_capacity(count);
        let mut i: usize = 0;
        proof {
            reveal(ints_at);
        }
        while i < count
            invariant
                i <= count,
                start + 4 * count <= data@.len() <= usize::MAX,
                out@ == ints_at(data@, start as int, i as nat),
            decreases count - i,
        {
            let p = start + 4 * i;
            let v = to_signed(join_u32(data[p], data[p + 1], data[p + 2], data[p + 3]));
            out.push(v);
            i = i + 1;
            proof {
                reveal(ints_at);
            }
            assert(out@ =~= ints_at(data@, start as int, i as nat));
        }
        self.pos = start + 4 * count;
        Ok(out)
    }

    /// Reads `count` 32-bit patterns.
    pub fn read_f32_vec(&mut self, count: usize) -> (r: Result<Vec<u32>, ConvertError>)
        ensures
            final(self).bytes() == old(self).bytes(),
            r is Ok <==> old(self).has(4 * count),
            r is Ok ==> r->Ok_0@ == words_at(old(self).bytes(), old(self).position(), count as nat)
                && final(self).position() == old(self).position() + 4 * count,
            r is Err ==> r->Err_0 == ConvertError::Truncated && final(self).position() == old(
                self,
            ).position(),
    {
        proof {
            use_type_invariant(&*self);
        }
        let data = self.data;
        let start = self.pos;
        let total = data.len();
        if count > (total - start) / 4 {
            return Err(ConvertError::Truncated);
        }
        let mut out: Vec<u32> = Vec::with_capacity(count);
        let mut i: usize = 0;
        proof {
            reveal(words_at);
        }
        while i < count
            invariant
                i <= count,
                start + 4 * count <= data@.len() <= usize::MAX,
                out@ == words_at(data@, start as int, i as nat),
            decreases count - i,
        {
            let p = start + 4 * i;
            let v = join_u32(data[p], data[p + 1], data[p + 2], data[p + 3]);
            out.push(v);
            i = i + 1;
            proof {
                reveal(words_at);
            }
            assert(out@ =~= words_at(data@, start as int, i as nat));
        }
        self.pos = start + 4 * count;
        Ok(out)
    }

    /// Reads `count` unsigned 16-bit numbers.
    pub fn read_u16_vec(&mut self, count: usize) -> (r: Result<Vec<u16>, ConvertError>)
        ensures
            final(self).bytes() == old(self).bytes(),
            r is Ok <==> old(self).has(2 * count),
            r is Ok ==> r->Ok_0@ == shorts_at(
                old(self).bytes(),
                old(self).position(),
                count as nat,
            ) && final(self).position() == old(self).position() + 2 * count,
            r is Err ==> r->Err_0 == ConvertError::Truncated && final(self).position() == old(
                self,
            ).position(),
    {
        proof {
            use_type_invariant(&*self);
        }
        let data = self.data;
        let start = self.pos;
        let total = data.len();
        if count > (total - start) / 2 {
            return Err(ConvertError::Truncated);
        }
        let mut out: Vec<u16> = Vec::with_capacity(count);
        let mut i: usize = 0;
        proof {
            reveal(shorts_at);
        }
        while i < count
            invariant
                i <= count,
                start + 2 * count <= data@.len() <= usize::MAX,
                out@ == shorts_at(data@, start as int, i as nat),
            decreases count - i,
        {
            let p = start + 2 * i;
            let v: u16 = (data[p] as u16) * 0x100 + (data[p + 1] as u16);
            out.push(v);
            i = i + 1;
            proof {
                reveal(shorts_at);
            }
            assert(out@ =~= shorts_at(data@, start as int, i as nat));
        }
        self.pos = start + 2 * count;
        Ok(out)
    }

    /// Reads `count` raw bytes.
    pub fn read_bytes(&mut self, count: usize) -> (r: Result<Vec<u8>, ConvertError>)
        ensures
            final(self).bytes() == old(self).bytes(),
            r is Ok <==> old(self).has(count as int),
            r is Ok ==> r->Ok_0@ == old(self).bytes().subrange(
                old(self).position(),
                old(self).position() + count,
            ) && final(self).position() == old(self).position() + count,
            r is Err ==> r->Err_0 == ConvertError::Truncated && final(self).position() == old(
                self,
            ).position(),
    {
        proof {
            use_type_invariant(&*self);
        }
        let data = self.data;
        let start = self.pos;
        if count > data.len() - start {
            return Err(ConvertError::Truncated);
        }
        let out = slice_to_vec(slice_subrange(data, start, start + count));
        self.pos = start + count;
        Ok(out)
    }

    /// Reads one text field that occupies exactly `count` bytes.
    pub fn read_text(&mut self, count: usize) -> (r: Result<String, ConvertError>)
        ensures
            final(self).bytes() == old(self).bytes(),
            r is Ok <==> old(self).has(count as int),
            r is Ok ==> r->Ok_0@ == text_at(old(self).bytes(), old(self).position(), count as int)
                && final(self).position() == old(self).position() + count,
            r is Err ==> r->Err_0 == ConvertError::Truncated && final(self).position() == old(
                self,
            ).position(),
    {
        proof {
            use_type_invariant(&*self);
        }
        let data = self.data;
        let start = self.pos;
        if count > data.len() - start {
            return Err(ConvertError::Truncated);
        }
        let raw = slice_subrange(data, start, start + count);
        let text = match utf8_text(raw) {
            Some(t) => strip_padding(t),
            None => String::new(),
        };
        self.pos = start + count;
        Ok(text)
    }

    /// Reads `count` text fields of `width` bytes each.
    pub fn read_text_vec(&mut self, count: usize, width: usize) -> (r: Result<
        Vec<String>,
        ConvertError,
    >)
        ensures
            final(self).bytes() == old(self).bytes(),
            r is Ok <==> old(self).has(times(width as int, count as int)),
            r is Ok ==> texts(r->Ok_0@) == texts_at(
                old(self).bytes(),
                old(self).position(),
                count as nat,
                width as int,
            ) && final(self).position() == old(self).position() + times(width as int, count as int),
            r is Err ==> r->Err_0 == ConvertError::Truncated && final(self).position() == old(
                self,
            ).position(),
    {
        proof {
            use_type_invariant(&*self);
        }
        proof {
            lemma_times_is_product(width as int, count as int);
        }
        let start = self.pos;
        let left = self.data.len() - start;
        if count > 0 && width > left / count {
            proof {
                assert(width * count > left) by (nonlinear_arith)
                    requires
                        count > 0,
                        width > left / count,
                ;
            }
            return Err(ConvertError::Truncated);
        }
        proof {
            assert(width * count <= left) by (nonlinear_arith)
                requires
                    count == 0 || width <= left / count,
                    left >= 0,
                    width >= 0,
                    count >= 0,
            ;
        }
        let mut out: Vec<String> = Vec::with_capacity(count);
        let mut i: usize = 0;
        proof {
            reveal(texts_at);
        }
        while i < count
            invariant
                i <= count,
                self.bytes() == old(self).bytes(),
                start == old(self).position(),
                start + width * count <= self.bytes().len(),
                self.position() == start + width * i,
                out@.len() == i,
                texts(out@) == texts_at(self.bytes(), start as int, i as nat, width as int),
            decreases count - i,
        {
            proof {
                assert(width * i + width <= width * count) by (nonlinear_arith)
                    requires
                        i < count,
                        width >= 0,
                ;
                assert(width * (i + 1) == width * i + width) by (nonlinear_arith);
            }
            proof {
                reveal(texts_at);
            }
            let ghost before = out@;
            match self.read_text(width) {
                Ok(t) => {
                    out.push(t);
                },
                Err(e) => {
                    return Err(e);
                },
            }
            i = i + 1;
            assert forall|j: int| 0 <= j < i implies #[trigger] texts(out@)[j] == texts_at(
                self.bytes(),
                start as int,
                i as nat,
                width as int,
            )[j] by {
                if j < i - 1 {
                    assert(texts(before)[j] == before[j]@);
                }
            }
            assert(texts(out@) =~= texts_at(self.bytes(), start as int, i as nat, width as int));
        }
        Ok(out)
    }

    /// Reads one signed 32-bit number.
    pub fn read_i32(&mut self) -> (r: Result<i32, ConvertError>)
        ensures
            final(self).bytes() == old(self).bytes(),
            r is Ok <==> old(self).has(4),
            r is Ok ==> r->Ok_0 == i32_at(old(self).bytes(), old(self).position())
                && final(self).position() == old(self).position() + 4,
            r is Err ==> r->Err_0 == ConvertError::Truncated && final(self).position() == old(
                self,
            ).position(),
    {
        match self.read_f32() {
            Ok(u) => Ok(to_signed(u)),
            Err(e) => Err(e),
        }
    }
}

} // verus!
