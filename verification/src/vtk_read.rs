//! Reading arrays back from an output, for tools that compare two outputs.

use vstd::prelude::*;
use vstd::string::StrSliceExecFns;
use crate::endian::ints_at;
use crate::endian::join_u32;
use crate::endian::to_signed;
use crate::endian::words_at;
use crate::reader::texts;
use crate::text::is_space;
use crate::text::lemma_digits_grow;
use crate::text::is_whitespace;
use crate::text::parse_i32;
use crate::text::digits_value;
use crate::text::parse_int;
use crate::text::trim;
use crate::text::trimmed;

verus! {

/// How many numbers of four bytes a read of `count` numbers finds in
/// `len` bytes.
pub open spec fn available(len: nat, count: nat) -> nat {
    if count <= len / 4 {
        count
    } else {
        len / 4
    }
}

/// Reads up to `count` signed big-endian numbers from the start of
/// `buffer`; fewer when the buffer ends first.
pub fn read_binary_ints(buffer: &[u8], count: usize) -> (r: Vec<i32>)
    ensures
        r@ == ints_at(buffer@, 0, available(buffer@.len(), count as nat)),
{
    let len = buffer.len();
    let n = if count <= len / 4 {
        count
    } else {
        len / 4
    };
    let mut out: Vec<i32> = Vec::with_capacity(n);
    let mut i: usize = 0;
    proof {
        reveal(ints_at);
    }
    while i < n
        invariant
            i <= n,
            len == buffer@.len(),
            4 * n <= len,
            out@ == ints_at(buffer@, 0, i as nat),
        decreases n - i,
    {
        let p = 4 * i;
        out.push(to_signed(join_u32(buffer[p], buffer[p + 1], buffer[p + 2], buffer[p + 3])));
        i = i + 1;
        proof {
            reveal(ints_at);
        }
        assert(out@ =~= ints_at(buffer@, 0, i as nat));
    }
    out
}

/// Reads up to `count` single-precision bit patterns from the start of
/// `buffer`; fewer when the buffer ends first.
pub fn read_binary_floats(buffer: &[u8], count: usize) -> (r: Vec<u32>)
    ensures
        r@ == words_at(buffer@, 0, available(buffer@.len(), count as nat)),
{
    let len = buffer.len();
    let n = if count <= len / 4 {
        count
    } else {
        len / 4
    };
    let mut out: Vec<u32> = Vec::with_capacity(n);
    let mut i: usize = 0;
    proof {
        reveal(words_at);
    }
    while i < n
        invariant
            i <= n,
            len == buffer@.len(),
            4 * n <= len,
            out@ == words_at(buffer@, 0, i as nat),
        decreases n - i,
    {
        let p = 4 * i;
        out.push(join_u32(buffer[p], buffer[p + 1], buffer[p + 2], buffer[p + 3]));
        i = i + 1;
        proof {
            reveal(words_at);
        }
        assert(out@ =~= words_at(buffer@, 0, i as nat));
    }
    out
}

/// Why an array of integers cannot be read from text.
#[derive(Clone, Copy, Debug, PartialEq, Eq, Structural)]
pub enum ReadError {
    /// A token does not spell a 32-bit integer.
    InvalidInteger,
    /// The lines end before the array is complete.
    UnexpectedEnd,
    /// The number of points in a header line does not spell a size.
    PointCount,
    /// The number of cells in a header line does not spell a size.
    CellCount,
    /// The size of the cell list in a header line does not spell a size.
    CellListSize,
    /// The number of cell types in a header line does not spell a size.
    CellTypeCount,
}

impl ReadError {
    /// What to tell the user.
    pub open spec fn text(self) -> Seq<char> {
        match self {
            ReadError::InvalidInteger => "Failed to parse int"@,
            ReadError::UnexpectedEnd => "Failed to read int values: unexpected end of file"@,
            ReadError::PointCount => "Failed to parse number of points"@,
            ReadError::CellCount => "Failed to parse number of cells"@,
            ReadError::CellListSize => "Failed to parse cell size"@,
            ReadError::CellTypeCount => "Failed to parse number of cell types"@,
        }
    }

    /// What to tell the user.
    pub fn message(&self) -> (r: &'static str)
        ensures
            r@ == self.text(),
    {
        match self {
            ReadError::InvalidInteger => "Failed to parse int",
            ReadError::UnexpectedEnd => "Failed to read int values: unexpected end of file",
            ReadError::PointCount => "Failed to parse number of points",
            ReadError::CellCount => "Failed to parse number of cells",
            ReadError::CellListSize => "Failed to parse cell size",
            ReadError::CellTypeCount => "Failed to parse number of cell types",
        }
    }
}

/// The state of a scan for tokens: the tokens that have ended, and the
/// characters of the token that has not.
pub open spec fn scan(s: Seq<char>) -> (Seq<Seq<char>>, Seq<char>)
    decreases s.len(),
{
    if s.len() == 0 {
        (Seq::empty(), Seq::empty())
    } else {
        let (done, current) = scan(s.drop_last());
        if !is_space(s.last()) {
            (done, current.push(s.last()))
        } else if current.len() > 0 {
            (done.push(current), Seq::empty())
        } else {
            (done, current)
        }
    }
}

/// The tokens of a line: its maximal runs of characters that are not white
/// space.
pub open spec fn tokens(s: Seq<char>) -> Seq<Seq<char>> {
    let (done, current) = scan(s);
    if current.len() > 0 {
        done.push(current)
    } else {
        done
    }
}

/// The integers gathered once the tokens of one line are read: each token
/// adds one integer until `count` are there; the rest of the line is not
/// looked at.
pub open spec fn gather(t: Seq<Seq<char>>, found: Seq<i32>, count: nat) -> Result<
    Seq<i32>,
    ReadError,
>
    decreases t.len(),
{
    if t.len() == 0 || found.len() >= count {
        Ok(found)
    } else {
        match parse_i32(t.first()) {
            None => Err(ReadError::InvalidInteger),
            Some(v) => gather(t.drop_first(), found.push(v), count),
        }
    }
}

/// The integers gathered when whole lines are read, from line `from` on,
/// until `count` are there, and the index of the first line not read.
pub open spec fn int_lines(lines: Seq<Seq<char>>, from: int, found: Seq<i32>, count: nat) -> Result<
    (Seq<i32>, int),
    ReadError,
>
    decreases lines.len() - from,
{
    if found.len() >= count {
        Ok((found, from))
    } else if from < 0 || from >= lines.len() {
        Err(ReadError::UnexpectedEnd)
    } else {
        match gather(tokens(lines[from]), found, count) {
            Err(e) => Err(e),
            Ok(more) => int_lines(lines, from + 1, more, count),
        }
    }
}

/// Splits a line into its tokens.
pub fn split_whitespace(line: &str) -> (r: Vec<String>)
    ensures
        texts(r@) == tokens(line@),
{
    let n = line.unicode_len();
    let mut done: Vec<String> = Vec::new();
    let mut start: usize = 0;
    let mut i: usize = 0;
    assert(texts(done@) =~= scan(line@.take(0)).0);
    assert(line@.subrange(0, 0) =~= scan(line@.take(0)).1);
    while i < n
        invariant
            start <= i <= n,
            n == line@.len(),
            texts(done@) == scan(line@.take(i as int)).0,
            line@.subrange(start as int, i as int) == scan(line@.take(i as int)).1,
        decreases n - i,
    {
        assert(line@.take(i + 1).drop_last() =~= line@.take(i as int));
        if !is_whitespace(line.get_char(i)) {
            assert(line@.subrange(start as int, i + 1) =~= line@.subrange(
                start as int,
                i as int,
            ).push(line@[i as int]));
        } else {
            if start < i {
                let ghost before = done@;
                let token = line.substring_char(start, i).to_owned();
                done.push(token);
                assert(texts(done@) =~= texts(before).push(line@.subrange(start as int, i as int)));
            }
            start = i + 1;
            assert(line@.subrange(start as int, i + 1) =~= Seq::<char>::empty());
        }
        i = i + 1;
    }
    assert(line@.take(n as int) =~= line@);
    if start < n {
        let ghost before = done@;
        let token = line.substring_char(start, n).to_owned();
        done.push(token);
        assert(texts(done@) =~= texts(before).push(line@.subrange(start as int, n as int)));
    }
    done
}

/// Reads `count` integers from whole lines of text, starting with line
/// `from`. Gives the integers and the index of the first line not read.
pub fn read_int_values(lines: &Vec<String>, from: usize, count: usize) -> (r: Result<
    (Vec<i32>, usize),
    ReadError,
>)
    ensures
        match int_lines(texts(lines@), from as int, Seq::empty(), count as nat) {
            Ok((values, next)) => r is Ok && r->Ok_0.0@ == values && r->Ok_0.1 == next,
            Err(e) => r is Err && r->Err_0 == e,
        },
{
    let ghost all = texts(lines@);
    let mut values: Vec<i32> = Vec::new();
    let mut at: usize = from;
    while values.len() < count
        invariant
            from <= at,
            all == texts(lines@),
            values@.len() <= count,
            int_lines(all, from as int, Seq::empty(), count as nat) == int_lines(
                all,
                at as int,
                values@,
                count as nat,
            ),
        decreases lines@.len() - at, count - values@.len(),
    {
        if at >= lines.len() {
            return Err(ReadError::UnexpectedEnd);
        }
        let line_tokens = split_whitespace(lines[at].as_str());
        let ghost t = texts(line_tokens@);
        assert(t == tokens(all[at as int]));
        let ghost entry = values@;
        let mut k: usize = 0;
        assert(t.skip(0) =~= t);
        while k < line_tokens.len() && values.len() < count
            invariant
                k <= line_tokens@.len(),
                t == texts(line_tokens@),
                values@.len() <= count,
                from <= at < lines@.len(),
                all == texts(lines@),
                t == tokens(all[at as int]),
                entry.len() < count,
                int_lines(all, from as int, Seq::empty(), count as nat) == int_lines(
                    all,
                    at as int,
                    entry,
                    count as nat,
                ),
                gather(t, entry, count as nat) == gather(t.skip(k as int), values@, count as nat),
            decreases line_tokens@.len() - k,
        {
            assert(t.skip(k as int).first() == line_tokens@[k as int]@);
            assert(t.skip(k as int).drop_first() =~= t.skip(k + 1));
            match parse_int(line_tokens[k].as_str()) {
                Some(v) => {
                    values.push(v);
                },
                None => {
                    return Err(ReadError::InvalidInteger);
                },
            }
            k = k + 1;
        }
        at = at + 1;
    }
    Ok((values, at))
}

/// Whether `s` starts with `p`.
pub open spec fn starts_with(s: Seq<char>, p: Seq<char>) -> bool {
    p.len() <= s.len() && s.subrange(0, p.len() as int) == p
}

/// Whether a text starts with another.
pub fn has_prefix(s: &str, p: &str) -> (r: bool)
    ensures
        r == starts_with(s@, p@),
{
    let n = p.unicode_len();
    if s.unicode_len() < n {
        return false;
    }
    let mut i: usize = 0;
    while i < n
        invariant
            i <= n,
            n == p@.len(),
            n <= s@.len(),
            s@.subrange(0, i as int) == p@.subrange(0, i as int),
        decreases n - i,
    {
        if s.get_char(i) != p.get_char(i) {
            assert(s@.subrange(0, n as int)[i as int] != p@[i as int]);
            return false;
        }
        i = i + 1;
        assert(s@.subrange(0, i as int) =~= s@.subrange(0, i - 1).push(s@[i - 1]));
        assert(p@.subrange(0, i as int) =~= p@.subrange(0, i - 1).push(p@[i - 1]));
    }
    assert(p@.subrange(0, n as int) =~= p@);
    true
}

/// The size that a text spells in decimal notation: an optional `+`, then
/// one or more digits and nothing else; nothing when the text is not of
/// that form or the number is no machine size.
pub open spec fn parse_size(s: Seq<char>) -> Option<usize> {
    let body = if s.len() > 0 && s[0] == '+' {
        s.drop_first()
    } else {
        s
    };
    if body.len() == 0 {
        None
    } else {
        match digits_value(body) {
            Some(m) => if m <= usize::MAX {
                Some(m as usize)
            } else {
                None
            },
            None => None,
        }
    }
}

/// Reads a size in decimal notation.
pub fn parse_count(s: &str) -> (r: Option<usize>)
    ensures
        r == parse_size(s@),
{
    let n = s.unicode_len();
    if n == 0 {
        return None;
    }
    let start: usize = if s.get_char(0) == '+' {
        1
    } else {
        0
    };
    if start == n {
        return None;
    }
    let ghost body = s@.skip(start as int);
    assert(start == 1 ==> body =~= s@.drop_first());
    assert(start == 0 ==> body =~= s@);
    let mut acc: usize = 0;
    let mut i: usize = start;
    assert(body.take(0) =~= Seq::<char>::empty());
    while i < n
        invariant
            start <= i <= n,
            start < n,
            start <= 1,
            n == s@.len(),
            (start == 1) == (s@[0] == '+'),
            body == s@.skip(start as int),
            start == 1 ==> body == s@.drop_first(),
            start == 0 ==> body == s@,
            digits_value(body.take(i - start)) == Some(acc as int),
        decreases n - i,
    {
        let c = s.get_char(i);
        assert(body.take(i - start + 1).drop_last() =~= body.take(i - start));
        assert(body.take(i - start + 1).last() == c);
        proof {
            lemma_digits_grow(body, i - start + 1);
        }
        if c < '0' || c > '9' {
            return None;
        }
        let d: usize = (c as u32 - '0' as u32) as usize;
        let next = match acc.checked_mul(10) {
            Some(t) => t.checked_add(d),
            None => None,
        };
        match next {
            Some(v) => {
                acc = v;
            },
            None => {
                return None;
            },
        }
        i = i + 1;
    }
    assert(body.take(n - start) =~= body);
    Some(acc)
}

/// Where a reader of the text variant stands: before the fields, among
/// the fields on points, or among the fields on cells.
#[derive(Clone, Copy, Debug, PartialEq, Eq, Structural)]
pub enum Mode {
    Grid,
    PointData,
    CellData,
}

/// What a line of the text variant asks its reader to do next.
#[derive(Clone, Copy, Debug, PartialEq, Eq, Structural)]
pub enum Action {
    /// Nothing: go on with the next line.
    Skip,
    /// Read the coordinates of this many points, three real numbers each.
    Points(usize),
    /// Read the cell list, this many integers.
    Cells(usize),
    /// Read this many cell types, one integer each.
    CellTypes(usize),
    /// Go on among the fields on points or on cells.
    Enter(Mode),
    /// Pass over one line, then read one real number per point.
    PointScalars,
    /// Read three real numbers per point.
    PointVectors,
    /// Pass over one line, then read one integer per cell.
    CellIntegers,
    /// Pass over one line, then read one real number per cell.
    CellReals,
}

/// A count that a header line holds in token `k`, or the given error when
/// the token spells no size.
pub open spec fn count_at(w: Seq<Seq<char>>, k: int, e: ReadError) -> Result<usize, ReadError> {
    match parse_size(w[k]) {
        Some(n) => Ok(n),
        None => Err(e),
    }
}

/// What a line asks for before the fields.
pub open spec fn grid_action(t: Seq<char>, w: Seq<Seq<char>>) -> Result<Action, ReadError> {
    if starts_with(t, "POINTS"@) {
        if w.len() >= 2 {
            match count_at(w, 1, ReadError::PointCount) {
                Ok(n) => Ok(Action::Points(n)),
                Err(e) => Err(e),
            }
        } else {
            Ok(Action::Skip)
        }
    } else if starts_with(t, "CELLS"@) {
        if w.len() >= 3 {
            match count_at(w, 1, ReadError::CellCount) {
                Ok(n) => match count_at(w, 2, ReadError::CellListSize) {
                    Ok(size) => Ok(Action::Cells(size)),
                    Err(e) => Err(e),
                },
                Err(e) => Err(e),
            }
        } else {
            Ok(Action::Skip)
        }
    } else if starts_with(t, "CELL_TYPES"@) {
        if w.len() >= 2 {
            match count_at(w, 1, ReadError::CellTypeCount) {
                Ok(n) => Ok(Action::CellTypes(n)),
                Err(e) => Err(e),
            }
        } else {
            Ok(Action::Skip)
        }
    } else if starts_with(t, "POINT_DATA"@) {
        Ok(Action::Enter(Mode::PointData))
    } else if starts_with(t, "CELL_DATA"@) {
        Ok(Action::Enter(Mode::CellData))
    } else {
        Ok(Action::Skip)
    }
}

/// What a line asks for among the fields on points.
pub open spec fn point_action(t: Seq<char>, w: Seq<Seq<char>>) -> Action {
    if starts_with(t, "CELL_DATA"@) {
        Action::Enter(Mode::CellData)
    } else if starts_with(t, "SCALARS"@) && w.len() >= 2 {
        Action::PointScalars
    } else if starts_with(t, "VECTORS"@) && w.len() >= 2 {
        Action::PointVectors
    } else {
        Action::Skip
    }
}

/// What a line asks for among the fields on cells.
pub open spec fn cell_action(t: Seq<char>, w: Seq<Seq<char>>) -> Action {
    if starts_with(t, "SCALARS"@) && w.len() >= 3 {
        if w[2] == "int"@ {
            Action::CellIntegers
        } else {
            Action::CellReals
        }
    } else {
        Action::Skip
    }
}

/// What a line of the text variant asks its reader to do, by the keyword
/// that the line starts with once the white space around it is dropped,
/// and by its tokens. A header line with too few tokens asks for nothing.
pub open spec fn action_of(mode: Mode, line: Seq<char>) -> Result<Action, ReadError> {
    match mode {
        Mode::Grid => grid_action(trimmed(line), tokens(line)),
        Mode::PointData => Ok(point_action(trimmed(line), tokens(line))),
        Mode::CellData => Ok(cell_action(trimmed(line), tokens(line))),
    }
}

/// Reads the count that a header line holds in token `k`.
fn read_count(w: &Vec<String>, k: usize, e: ReadError) -> (r: Result<usize, ReadError>)
    requires
        k < w@.len(),
    ensures
        r == count_at(texts(w@), k as int, e),
{
    match parse_count(w[k].as_str()) {
        Some(n) => Ok(n),
        None => Err(e),
    }
}

/// Whether two texts are the same.
fn same_text(a: &str, b: &str) -> (r: bool)
    ensures
        r == (a@ == b@),
{
    let same = a.unicode_len() == b.unicode_len() && has_prefix(a, b);
    proof {
        if a@.len() == b@.len() {
            assert(a@.subrange(0, b@.len() as int) =~= a@);
        }
    }
    same
}

/// Decides what a line of the text variant asks its reader to do next.
pub fn next_action(mode: Mode, line: &str) -> (r: Result<Action, ReadError>)
    ensures
        r == action_of(mode, line@),
{
    let t = trim(line);
    let w = split_whitespace(line);
    match mode {
        Mode::Grid => {
            if has_prefix(t, "POINTS") {
                if w.len() >= 2 {
                    match read_count(&w, 1, ReadError::PointCount) {
                        Ok(n) => Ok(Action::Points(n)),
                        Err(e) => Err(e),
                    }
                } else {
                    Ok(Action::Skip)
                }
            } else if has_prefix(t, "CELLS") {
                if w.len() >= 3 {
                    match read_count(&w, 1, ReadError::CellCount) {
                        Ok(n) => match read_count(&w, 2, ReadError::CellListSize) {
                            Ok(size) => Ok(Action::Cells(size)),
                            Err(e) => Err(e),
                        },
                        Err(e) => Err(e),
                    }
                } else {
                    Ok(Action::Skip)
                }
            } else if has_prefix(t, "CELL_TYPES") {
                if w.len() >= 2 {
                    match read_count(&w, 1, ReadError::CellTypeCount) {
                        Ok(n) => Ok(Action::CellTypes(n)),
                        Err(e) => Err(e),
                    }
                } else {
                    Ok(Action::Skip)
                }
            } else if has_prefix(t, "POINT_DATA") {
                Ok(Action::Enter(Mode::PointData))
            } else if has_prefix(t, "CELL_DATA") {
                Ok(Action::Enter(Mode::CellData))
            } else {
                Ok(Action::Skip)
            }
        },
        Mode::PointData => {
            if has_prefix(t, "CELL_DATA") {
                Ok(Action::Enter(Mode::CellData))
            } else if has_prefix(t, "SCALARS") && w.len() >= 2 {
                Ok(Action::PointScalars)
            } else if has_prefix(t, "VECTORS") && w.len() >= 2 {
                Ok(Action::PointVectors)
            } else {
                Ok(Action::Skip)
            }
        },
        Mode::CellData => {
            if has_prefix(t, "SCALARS") && w.len() >= 3 {
                assert(texts(w@)[2] == w@[2]@);
                if same_text(w[2].as_str(), "int") {
                    Ok(Action::CellIntegers)
                } else {
                    Ok(Action::CellReals)
                }
            } else {
                Ok(Action::Skip)
            }
        },
    }
}

} // verus!
