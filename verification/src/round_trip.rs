//! What is written can be read back: an array of integers, and in the
//! binary variant an array of real numbers, comes back from the output as
//! it went in, so that both variants of an output hold the same values.

use vstd::prelude::*;
use crate::endian::be_bytes_i32;
use crate::endian::be_bytes_u32;
use crate::endian::i32_at;
use crate::endian::ints_at;
use crate::endian::lemma_arrays_at;
use crate::endian::lemma_int_round_trip;
use crate::endian::lemma_word_round_trip;
use crate::endian::u32_at;
use crate::endian::words_at;
use crate::output::bytes_units;
use crate::output::text;
use crate::output::Unit;
use crate::render::int_value;
use crate::render::int_values;
use crate::render::line;
use crate::render::newline;
use crate::render::scalar_value;
use crate::render::scalar_values;
use crate::text::decimal;
use crate::text::decimal_nat;
use crate::text::digit_value;
use crate::text::digits;
use crate::text::digits_value;
use crate::text::is_space;
use crate::text::parse_i32;
use crate::vtk_read::available;
use crate::vtk_read::gather;
use crate::vtk_read::int_lines;
use crate::vtk_read::scan;
use crate::vtk_read::tokens;
use crate::vtk_read::ReadError;

verus! {

/// The bytes of an array of integers in the binary variant.
pub open spec fn ints_bytes(v: Seq<i32>) -> Seq<u8>
    decreases v.len(),
{
    if v.len() == 0 {
        Seq::empty()
    } else {
        ints_bytes(v.drop_last()) + be_bytes_i32(v.last())
    }
}

/// The bytes of an array of real numbers in the binary variant.
pub open spec fn words_bytes(v: Seq<u32>) -> Seq<u8>
    decreases v.len(),
{
    if v.len() == 0 {
        Seq::empty()
    } else {
        words_bytes(v.drop_last()) + be_bytes_u32(v.last())
    }
}

/// The lines of an array of integers in the text variant.
pub open spec fn ints_lines(v: Seq<i32>) -> Seq<Seq<char>> {
    Seq::new(v.len(), |i: int| decimal(v[i] as int))
}

/// Lines as units, each with the end of its line.
pub open spec fn lines_units(l: Seq<Seq<char>>) -> Seq<Unit>
    decreases l.len(),
{
    if l.len() == 0 {
        Seq::empty()
    } else {
        lines_units(l.drop_last()) + line(l.last())
    }
}

/// The binary variant writes an array of integers as its bytes, and
/// nothing else.
pub proof fn lemma_binary_ints_are_bytes(v: Seq<i32>)
    ensures
        int_values(v, true) == bytes_units(ints_bytes(v)),
    decreases v.len(),
{
    reveal(bytes_units);
    if v.len() == 0 {
        assert(int_values(v, true) =~= bytes_units(ints_bytes(v)));
    } else {
        lemma_binary_ints_are_bytes(v.drop_last());
        assert(int_values(v, true) =~= bytes_units(ints_bytes(v)));
    }
}

/// The binary variant writes an array of real numbers as its bytes, and
/// nothing else.
pub proof fn lemma_binary_scalars_are_bytes(v: Seq<u32>)
    ensures
        scalar_values(v, true) == bytes_units(words_bytes(v)),
    decreases v.len(),
{
    reveal(bytes_units);
    if v.len() == 0 {
        assert(scalar_values(v, true) =~= bytes_units(words_bytes(v)));
    } else {
        lemma_binary_scalars_are_bytes(v.drop_last());
        assert(scalar_values(v, true) =~= bytes_units(words_bytes(v)));
    }
}

/// The text variant writes an array of integers as one line per integer.
pub proof fn lemma_text_ints_are_lines(v: Seq<i32>)
    ensures
        int_values(v, false) == lines_units(ints_lines(v)),
    decreases v.len(),
{
    if v.len() == 0 {
    } else {
        lemma_text_ints_are_lines(v.drop_last());
        assert(ints_lines(v).drop_last() =~= ints_lines(v.drop_last()));
        assert(int_value(v.last(), false) =~= line(decimal(v.last() as int)));
    }
}

/// The integers of an array sit in its bytes four by four.
proof fn lemma_ints_bytes(v: Seq<i32>)
    ensures
        ints_bytes(v).len() == 4 * v.len(),
        forall|i: int| 0 <= i < v.len() ==> #[trigger] i32_at(ints_bytes(v), 4 * i) == v[i],
    decreases v.len(),
{
    if v.len() > 0 {
        let head = v.drop_last();
        lemma_ints_bytes(head);
        lemma_int_round_trip(v.last());
        let b = ints_bytes(v);
        let tail = be_bytes_i32(v.last());
        assert forall|i: int| 0 <= i < v.len() implies #[trigger] i32_at(b, 4 * i) == v[i] by {
            if i < head.len() {
                assert(i32_at(ints_bytes(head), 4 * i) == head[i]);
                assert(b[4 * i] == ints_bytes(head)[4 * i]);
                assert(b[4 * i + 1] == ints_bytes(head)[4 * i + 1]);
                assert(b[4 * i + 2] == ints_bytes(head)[4 * i + 2]);
                assert(b[4 * i + 3] == ints_bytes(head)[4 * i + 3]);
            } else {
                assert(b[4 * i] == tail[0]);
                assert(b[4 * i + 1] == tail[1]);
                assert(b[4 * i + 2] == tail[2]);
                assert(b[4 * i + 3] == tail[3]);
            }
        }
    }
}

/// The real numbers of an array sit in its bytes four by four.
proof fn lemma_words_bytes(v: Seq<u32>)
    ensures
        words_bytes(v).len() == 4 * v.len(),
        forall|i: int| 0 <= i < v.len() ==> #[trigger] u32_at(words_bytes(v), 4 * i) == v[i],
    decreases v.len(),
{
    if v.len() > 0 {
        let head = v.drop_last();
        lemma_words_bytes(head);
        lemma_word_round_trip(v.last());
        let b = words_bytes(v);
        let tail = be_bytes_u32(v.last());
        assert forall|i: int| 0 <= i < v.len() implies #[trigger] u32_at(b, 4 * i) == v[i] by {
            if i < head.len() {
                assert(u32_at(words_bytes(head), 4 * i) == head[i]);
                assert(b[4 * i] == words_bytes(head)[4 * i]);
                assert(b[4 * i + 1] == words_bytes(head)[4 * i + 1]);
                assert(b[4 * i + 2] == words_bytes(head)[4 * i + 2]);
                assert(b[4 * i + 3] == words_bytes(head)[4 * i + 3]);
            } else {
                assert(b[4 * i] == tail[0]);
                assert(b[4 * i + 1] == tail[1]);
                assert(b[4 * i + 2] == tail[2]);
                assert(b[4 * i + 3] == tail[3]);
            }
        }
    }
}

/// Reading an array of integers back from its bytes gives the array.
pub proof fn lemma_binary_ints_read_back(v: Seq<i32>)
    ensures
        ints_at(ints_bytes(v), 0, available(ints_bytes(v).len(), v.len())) == v,
{
    lemma_ints_bytes(v);
    lemma_arrays_at(ints_bytes(v), 0, v.len());
    assert(ints_at(ints_bytes(v), 0, v.len()) =~= v);
}

/// Reading an array of real numbers back from its bytes gives the array,
/// bit for bit.
pub proof fn lemma_binary_scalars_read_back(v: Seq<u32>)
    ensures
        words_at(words_bytes(v), 0, available(words_bytes(v).len(), v.len())) == v,
{
    lemma_words_bytes(v);
    lemma_arrays_at(words_bytes(v), 0, v.len());
    assert(words_at(words_bytes(v), 0, v.len()) =~= v);
}

/// The decimal notation of a natural number is made of digits, and spells
/// the number.
proof fn lemma_decimal_nat(n: nat)
    ensures
        decimal_nat(n).len() > 0,
        digits_value(decimal_nat(n)) == Some(n as int),
        forall|i: int|
            0 <= i < decimal_nat(n).len() ==> digit_value(#[trigger] decimal_nat(n)[i]) is Some,
    decreases n,
{
    if n < 10 {
        let s = decimal_nat(n);
        assert(s.drop_last() =~= Seq::<char>::empty());
        assert(digits_value(s.drop_last()) == Some(0int));
        assert(digit_value(digits()[n as int]) == Some(n as int));
    } else {
        lemma_decimal_nat(n / 10);
        let s = decimal_nat(n);
        assert(s.drop_last() =~= decimal_nat(n / 10));
        assert(digit_value(digits()[(n % 10) as int]) == Some((n % 10) as int));
    }
}

/// The decimal notation of a 32-bit integer reads back as the integer.
pub proof fn lemma_decimal_reads_back(v: i32)
    ensures
        parse_i32(decimal(v as int)) == Some(v),
{
    if v < 0 {
        let m = (-v) as nat;
        lemma_decimal_nat(m);
        let s = decimal(v as int);
        assert(s.drop_first() =~= decimal_nat(m));
    } else {
        lemma_decimal_nat(v as nat);
        let s = decimal(v as int);
        assert(digit_value(s[0]) is Some);
    }
}

/// A text without white space is one token.
proof fn lemma_scan_solid(s: Seq<char>)
    requires
        forall|i: int| 0 <= i < s.len() ==> !is_space(#[trigger] s[i]),
    ensures
        scan(s) == (Seq::<Seq<char>>::empty(), s),
    decreases s.len(),
{
    if s.len() > 0 {
        lemma_scan_solid(s.drop_last());
        assert(s.drop_last().push(s.last()) =~= s);
    } else {
        assert(s =~= Seq::<char>::empty());
    }
}

/// The decimal notation of an integer is one token.
proof fn lemma_decimal_is_one_token(v: i32)
    ensures
        tokens(decimal(v as int)) == seq![decimal(v as int)],
{
    let s = decimal(v as int);
    if v < 0 {
        lemma_decimal_nat((-v) as nat);
        assert forall|i: int| 0 <= i < s.len() implies !is_space(#[trigger] s[i]) by {
            if i > 0 {
                assert(s[i] == decimal_nat((-v) as nat)[i - 1]);
                assert(digit_value(decimal_nat((-v) as nat)[i - 1]) is Some);
            }
        }
    } else {
        lemma_decimal_nat(v as nat);
        assert forall|i: int| 0 <= i < s.len() implies !is_space(#[trigger] s[i]) by {
            assert(digit_value(decimal_nat(v as nat)[i]) is Some);
        }
    }
    lemma_scan_solid(s);
    assert(tokens(s) =~= seq![s]);
}

/// Reading the lines of an array of integers from line `from` on, with
/// the integers before it in hand, gives the array.
proof fn lemma_lines_from(v: Seq<i32>, from: int)
    requires
        0 <= from <= v.len(),
    ensures
        int_lines(ints_lines(v), from, v.take(from), v.len()) == Ok::<
            (Seq<i32>, int),
            ReadError,
        >((v, v.len() as int)),
    decreases v.len() - from,
{
    if from == v.len() {
        assert(v.take(from) =~= v);
    } else {
        let x = v[from];
        let found = v.take(from);
        lemma_decimal_is_one_token(x);
        lemma_decimal_reads_back(x);
        let t = tokens(ints_lines(v)[from]);
        assert(t == seq![decimal(x as int)]);
        assert(t.first() == decimal(x as int));
        assert(t.drop_first() =~= Seq::<Seq<char>>::empty());
        assert(found.push(x) =~= v.take(from + 1));
        assert(gather(t.drop_first(), found.push(x), v.len()) == Ok::<Seq<i32>, ReadError>(
            found.push(x),
        ));
        assert(gather(t, found, v.len()) == Ok::<Seq<i32>, ReadError>(v.take(from + 1)));
        lemma_lines_from(v, from + 1);
    }
}

/// Reading an array of integers back from its lines gives the array, and
/// takes every line.
pub proof fn lemma_text_ints_read_back(v: Seq<i32>)
    ensures
        int_lines(ints_lines(v), 0, Seq::empty(), v.len()) == Ok::<(Seq<i32>, int), ReadError>(
            (v, v.len() as int),
        ),
{
    assert(v.take(0) =~= Seq::<i32>::empty());
    lemma_lines_from(v, 0);
}

/// Both variants of the output hold the same array of integers: the
/// binary one as bytes, the text one as lines, and each reads back as the
/// array that was written.
pub proof fn lemma_int_arrays_agree(v: Seq<i32>)
    ensures
        int_values(v, true) == bytes_units(ints_bytes(v)),
        int_values(v, false) == lines_units(ints_lines(v)),
        ints_at(ints_bytes(v), 0, available(ints_bytes(v).len(), v.len())) == v,
        int_lines(ints_lines(v), 0, Seq::empty(), v.len()) == Ok::<(Seq<i32>, int), ReadError>(
            (v, v.len() as int),
        ),
{
    lemma_binary_ints_are_bytes(v);
    lemma_text_ints_are_lines(v);
    lemma_binary_ints_read_back(v);
    lemma_text_ints_read_back(v);
}

/// The real numbers that an output leaves to be written as decimal text,
/// in order.
pub open spec fn reals_in(u: Seq<Unit>) -> Seq<u32>
    decreases u.len(),
{
    if u.len() == 0 {
        Seq::empty()
    } else {
        match u.last() {
            Unit::Real(bits) => reals_in(u.drop_last()).push(bits),
            _ => reals_in(u.drop_last()),
        }
    }
}

/// The real numbers of two outputs in a row are those of the first, then
/// those of the second.
pub proof fn lemma_reals_in_both(a: Seq<Unit>, b: Seq<Unit>)
    ensures
        reals_in(a + b) == reals_in(a) + reals_in(b),
    decreases b.len(),
{
    if b.len() == 0 {
        assert(a + b =~= a);
        assert(reals_in(a) + reals_in(b) =~= reals_in(a));
    } else {
        lemma_reals_in_both(a, b.drop_last());
        assert((a + b).drop_last() =~= a + b.drop_last());
        assert((a + b).last() == b.last());
        assert(reals_in(a + b) =~= reals_in(a) + reals_in(b));
    }
}

/// Bytes hold no real number that is still to be written.
pub proof fn lemma_no_reals_in_bytes(b: Seq<u8>)
    ensures
        reals_in(bytes_units(b)) == Seq::<u32>::empty(),
    decreases b.len(),
{
    reveal(bytes_units);
    if b.len() > 0 {
        lemma_no_reals_in_bytes(b.drop_last());
        assert(bytes_units(b).drop_last() =~= bytes_units(b.drop_last()));
    }
}

/// The text variant leaves each real number of an array of scalars to be
/// written as decimal text, in the order of the array.
pub proof fn lemma_text_scalars_hold_reals(v: Seq<u32>)
    ensures
        reals_in(scalar_values(v, false)) == v,
    decreases v.len(),
{
    if v.len() == 0 {
        assert(reals_in(scalar_values(v, false)) =~= v);
    } else {
        let head = v.drop_last();
        lemma_text_scalars_hold_reals(head);
        let one = seq![Unit::Real(v.last())];
        assert(one.drop_last() =~= Seq::<Unit>::empty());
        assert(reals_in(one.drop_last()) =~= Seq::<u32>::empty());
        assert(one.last() == Unit::Real(v.last()));
        assert(reals_in(one) =~= seq![v.last()]);
        lemma_no_reals_in_bytes(vstd::utf8::encode_utf8("\n"@));
        lemma_reals_in_both(one, newline());
        lemma_reals_in_both(scalar_values(head, false), scalar_value(v.last(), false));
        assert(reals_in(scalar_values(v, false)) =~= v);
    }
}

/// Both variants of the output hold the same array of real numbers: the
/// text one as the numbers left to be written as decimal text, the binary
/// one as bytes that read back as the array, bit for bit.
pub proof fn lemma_scalar_arrays_agree(v: Seq<u32>)
    ensures
        reals_in(scalar_values(v, false)) == v,
        scalar_values(v, true) == bytes_units(words_bytes(v)),
        words_at(words_bytes(v), 0, available(words_bytes(v).len(), v.len())) == v,
{
    lemma_text_scalars_hold_reals(v);
    lemma_binary_scalars_are_bytes(v);
    lemma_binary_scalars_read_back(v);
}

} // verus!
