//! Part numbers of the elements of one family.
//!
//! A family names its parts in a sparse table: a list of element indices at
//! which the part changes, and one label per entry. A cursor walks the list
//! once while the elements are taken in order. Before element `i` is given
//! its part, the cursor moves past every entry equal to `i`; the element
//! then belongs to the part under the cursor, or to part zero once the
//! cursor has left the table.

use vstd::prelude::*;
use crate::reader::texts;
use crate::text::label_value;
use crate::text::parse_label;

verus! {

/// How many entries of the part table can be used: each needs a boundary
/// and a label.
pub open spec fn part_limit(boundaries: Seq<i32>, labels: Seq<Seq<char>>) -> int {
    if boundaries.len() <= labels.len() {
        boundaries.len() as int
    } else {
        labels.len() as int
    }
}

/// The cursor once it has moved past every entry equal to `i`, starting
/// from `cursor`.
pub open spec fn advance(boundaries: Seq<i32>, limit: int, cursor: int, i: int) -> int
    decreases limit - cursor,
{
    if 0 <= cursor < limit && boundaries[cursor] as int == i {
        advance(boundaries, limit, cursor + 1, i)
    } else {
        cursor
    }
}

/// The cursor at the moment element `i` is given its part. It starts at
/// the first entry, before element zero.
pub open spec fn cursor_at(boundaries: Seq<i32>, limit: int, i: int) -> int
    decreases i + 1,
{
    if i < 0 {
        0
    } else {
        advance(boundaries, limit, cursor_at(boundaries, limit, i - 1), i)
    }
}

/// The part number of element `i`.
pub open spec fn part_of(boundaries: Seq<i32>, labels: Seq<Seq<char>>, i: int) -> i32 {
    let limit = part_limit(boundaries, labels);
    let cursor = cursor_at(boundaries, limit, i);
    if 0 <= cursor < limit {
        label_value(labels[cursor])
    } else {
        0
    }
}

/// The part numbers of the first `count` elements.
pub open spec fn part_ids(boundaries: Seq<i32>, labels: Seq<Seq<char>>, count: nat) -> Seq<i32> {
    Seq::new(count, |i: int| part_of(boundaries, labels, i))
}

/// The cursor never leaves the range from the first entry to the end of
/// the table, and never moves back.
pub proof fn lemma_cursor_bounds(boundaries: Seq<i32>, limit: int, i: int)
    requires
        0 <= limit,
    ensures
        0 <= cursor_at(boundaries, limit, i) <= limit,
        i >= 0 ==> cursor_at(boundaries, limit, i - 1) <= cursor_at(boundaries, limit, i),
    decreases i + 1,
{
    if i >= 0 {
        lemma_cursor_bounds(boundaries, limit, i - 1);
        lemma_advance_bounds(boundaries, limit, cursor_at(boundaries, limit, i - 1), i);
    }
}

/// Moving the cursor keeps it in the table and never moves it back.
pub proof fn lemma_advance_bounds(boundaries: Seq<i32>, limit: int, cursor: int, i: int)
    requires
        0 <= cursor <= limit,
    ensures
        cursor <= advance(boundaries, limit, cursor, i) <= limit,
    decreases limit - cursor,
{
    if cursor < limit && boundaries[cursor] as int == i {
        lemma_advance_bounds(boundaries, limit, cursor + 1, i);
    }
}

/// The entries never go down.
pub open spec fn rising(boundaries: Seq<i32>, limit: int) -> bool {
    forall|j: int, k: int| 0 <= j <= k < limit ==> boundaries[j] <= boundaries[k]
}

/// Whether `cursor` is the first entry greater than `i`, or the end of the
/// table when no entry is.
pub open spec fn first_above(boundaries: Seq<i32>, limit: int, cursor: int, i: int) -> bool {
    &&& 0 <= cursor <= limit
    &&& forall|k: int| 0 <= k < cursor ==> boundaries[k] <= i
    &&& cursor < limit ==> boundaries[cursor] > i
}

/// Over entries that never go down, moving past the entries equal to `i`
/// from the first entry not below `i` leads to the first entry above `i`.
proof fn lemma_advance_rising(boundaries: Seq<i32>, limit: int, cursor: int, i: int)
    requires
        0 <= limit <= boundaries.len(),
        rising(boundaries, limit),
        0 <= cursor <= limit,
        forall|k: int| 0 <= k < cursor ==> boundaries[k] <= i,
        cursor < limit ==> boundaries[cursor] >= i,
    ensures
        first_above(boundaries, limit, advance(boundaries, limit, cursor, i), i),
    decreases limit - cursor,
{
    if cursor < limit && boundaries[cursor] as int == i {
        if cursor + 1 < limit {
            assert(boundaries[cursor] <= boundaries[cursor + 1]);
        }
        lemma_advance_rising(boundaries, limit, cursor + 1, i);
    }
}

/// In a table whose entries are not negative and never go down, each entry
/// is the index at which its part ends: when element `i` is given its
/// part, the cursor stands at the first entry greater than `i`.
pub proof fn lemma_cursor_of_rising(boundaries: Seq<i32>, limit: int, i: int)
    requires
        0 <= limit <= boundaries.len(),
        rising(boundaries, limit),
        limit > 0 ==> boundaries[0] >= 0,
        -1 <= i,
    ensures
        first_above(boundaries, limit, cursor_at(boundaries, limit, i), i),
    decreases i + 1,
{
    if i >= 0 {
        lemma_cursor_of_rising(boundaries, limit, i - 1);
        let before = cursor_at(boundaries, limit, i - 1);
        lemma_advance_rising(boundaries, limit, before, i);
    } else {
        if limit > 0 {
            assert(boundaries[0] > i);
        }
    }
}

/// In a table whose entries are not negative and never go down, an
/// element belongs to the part whose entry is the first greater than its
/// index, and to part zero when no entry is.
pub proof fn lemma_part_of_rising(
    boundaries: Seq<i32>,
    labels: Seq<Seq<char>>,
    i: int,
    part: int,
)
    requires
        rising(boundaries, part_limit(boundaries, labels)),
        part_limit(boundaries, labels) > 0 ==> boundaries[0] >= 0,
        0 <= i,
        first_above(boundaries, part_limit(boundaries, labels), part, i),
    ensures
        part_of(boundaries, labels, i) == if part < part_limit(boundaries, labels) {
            label_value(labels[part])
        } else {
            0
        },
{
    let limit = part_limit(boundaries, labels);
    lemma_cursor_of_rising(boundaries, limit, i);
    let cursor = cursor_at(boundaries, limit, i);
    if cursor < part {
        assert(boundaries[cursor] <= i);
    }
    if part < cursor {
        assert(boundaries[part] <= i);
    }
}

/// Reads the part number of each label.
fn label_values(labels: &Vec<String>) -> (r: Vec<i32>)
    ensures
        r@.len() == labels@.len(),
        forall|k: int| 0 <= k < r@.len() ==> r@[k] == label_value(#[trigger] labels@[k]@),
{
    let mut r: Vec<i32> = Vec::with_capacity(labels.len());
    let mut k: usize = 0;
    while k < labels.len()
        invariant
            k <= labels@.len(),
            r@.len() == k,
            forall|j: int| 0 <= j < k ==> r@[j] == label_value(#[trigger] labels@[j]@),
        decreases labels@.len() - k,
    {
        r.push(parse_label(labels[k].as_str()));
        k = k + 1;
    }
    r
}

/// Gives each of the first `count` elements of a family its part number.
pub fn resolve_parts(boundaries: &Vec<i32>, labels: &Vec<String>, count: usize) -> (r: Vec<i32>)
    ensures
        r@ == part_ids(boundaries@, texts(labels@), count as nat),
{
    let values = label_values(labels);
    let limit: usize = if boundaries.len() <= labels.len() {
        boundaries.len()
    } else {
        labels.len()
    };
    let ghost b = boundaries@;
    let ghost l = texts(labels@);
    let mut r: Vec<i32> = Vec::with_capacity(count);
    let mut cursor: usize = 0;
    let mut i: usize = 0;
    while i < count
        invariant
            i <= count,
            b == boundaries@,
            l == texts(labels@),
            limit == part_limit(b, l),
            limit <= boundaries@.len(),
            limit <= labels@.len(),
            values@.len() == labels@.len(),
            forall|k: int| 0 <= k < values@.len() ==> values@[k] == label_value(#[trigger] labels@[k]@),
            cursor <= limit,
            cursor == cursor_at(b, limit as int, i - 1),
            r@ == part_ids(b, l, i as nat),
        decreases count - i,
    {
        let ghost entry = cursor;
        while cursor < limit && boundaries[cursor] >= 0 && boundaries[cursor] as usize == i
            invariant
                cursor <= limit,
                b == boundaries@,
                limit <= boundaries@.len(),
                advance(b, limit as int, entry as int, i as int) == advance(
                    b,
                    limit as int,
                    cursor as int,
                    i as int,
                ),
            decreases limit - cursor,
        {
            cursor = cursor + 1;
        }
        assert(cursor == cursor_at(b, limit as int, i as int));
        let part = if cursor < limit {
            values[cursor]
        } else {
            0
        };
        assert(part == part_of(b, l, i as int)) by {
            if cursor < limit {
                assert(l[cursor as int] == labels@[cursor as int]@);
            }
        }
        r.push(part);
        i = i + 1;
        assert(r@ =~= part_ids(b, l, i as nat));
    }
    r
}

} // verus!
