//! Cells of the output grid, and how the node slots of a facet or a volume
//! decide its shape.

use vstd::prelude::*;

verus! {

/// One cell of the output grid, with its nodes in output order.
#[derive(Clone, Copy, Debug, PartialEq, Eq, Structural)]
pub enum Cell {
    Vertex(i32),
    Edge(i32, i32),
    Triangle(i32, i32, i32),
    Quad(i32, i32, i32, i32),
    Tetra(i32, i32, i32, i32),
    Hexa(i32, i32, i32, i32, i32, i32, i32, i32),
}

impl Cell {
    /// The nodes of the cell, in output order.
    pub open spec fn nodes(self) -> Seq<i32> {
        match self {
            Cell::Vertex(a) => seq![a],
            Cell::Edge(a, b) => seq![a, b],
            Cell::Triangle(a, b, c) => seq![a, b, c],
            Cell::Quad(a, b, c, d) => seq![a, b, c, d],
            Cell::Tetra(a, b, c, d) => seq![a, b, c, d],
            Cell::Hexa(a, b, c, d, e, f, g, h) => seq![a, b, c, d, e, f, g, h],
        }
    }

    /// The type code of the cell's shape in the output format.
    pub open spec fn code(self) -> i32 {
        match self {
            Cell::Vertex(..) => 1,
            Cell::Edge(..) => 3,
            Cell::Triangle(..) => 5,
            Cell::Quad(..) => 9,
            Cell::Tetra(..) => 10,
            Cell::Hexa(..) => 12,
        }
    }

    /// The type code of the cell's shape in the output format.
    pub fn type_code(&self) -> (r: i32)
        ensures
            r == self.code(),
    {
        match self {
            Cell::Vertex(..) => 1,
            Cell::Edge(..) => 3,
            Cell::Triangle(..) => 5,
            Cell::Quad(..) => 9,
            Cell::Tetra(..) => 10,
            Cell::Hexa(..) => 12,
        }
    }

    /// The nodes of the cell, in output order.
    pub fn node_list(&self) -> (r: Vec<i32>)
        ensures
            r@ == self.nodes(),
    {
        let mut r: Vec<i32> = Vec::new();
        match *self {
            Cell::Vertex(a) => {
                r.push(a);
            },
            Cell::Edge(a, b) => {
                r.push(a);
                r.push(b);
            },
            Cell::Triangle(a, b, c) => {
                r.push(a);
                r.push(b);
                r.push(c);
            },
            Cell::Quad(a, b, c, d) => {
                r.push(a);
                r.push(b);
                r.push(c);
                r.push(d);
            },
            Cell::Tetra(a, b, c, d) => {
                r.push(a);
                r.push(b);
                r.push(c);
                r.push(d);
            },
            Cell::Hexa(a, b, c, d, e, f, g, h) => {
                r.push(a);
                r.push(b);
                r.push(c);
                r.push(d);
                r.push(e);
                r.push(f);
                r.push(g);
                r.push(h);
            },
        }
        assert(r@ =~= self.nodes());
        r
    }
}

/// How many different values a sequence holds.
pub open spec fn distinct_count(s: Seq<i32>) -> nat {
    s.to_set().len()
}

/// Each value is smaller than the next.
pub open spec fn ascending(s: Seq<i32>) -> bool {
    forall|i: int, j: int| 0 <= i < j < s.len() ==> s[i] < s[j]
}

/// The different values of `s`, smallest first.
pub open spec fn ascending_values(s: Seq<i32>) -> Seq<i32> {
    choose|r: Seq<i32>| ascending(r) && r.to_set() == s.to_set()
}

/// The different values of `s`, in the order in which each first appears.
pub open spec fn first_occurrences(s: Seq<i32>) -> Seq<i32>
    decreases s.len(),
{
    if s.len() == 0 {
        Seq::empty()
    } else if s.drop_last().contains(s.last()) {
        first_occurrences(s.drop_last())
    } else {
        first_occurrences(s.drop_last()).push(s.last())
    }
}

/// The cell that the eight node slots of a volume stand for: a tetrahedron
/// on the four different nodes, smallest first, when there are exactly four
/// of them; else a hexahedron on the eight slots as they are.
pub open spec fn solid_of(c: Seq<i32>) -> Cell {
    if distinct_count(c) == 4 {
        let r = ascending_values(c);
        Cell::Tetra(r[0], r[1], r[2], r[3])
    } else {
        Cell::Hexa(c[0], c[1], c[2], c[3], c[4], c[5], c[6], c[7])
    }
}

/// The cell that the four node slots of a facet stand for: a triangle on
/// the three different nodes, in the order of the slots, when there are
/// exactly three of them; else a quadrilateral on the four slots as they are.
pub open spec fn face_of(c: Seq<i32>) -> Cell {
    if distinct_count(c) == 3 {
        let r = first_occurrences(c);
        Cell::Triangle(r[0], r[1], r[2])
    } else {
        Cell::Quad(c[0], c[1], c[2], c[3])
    }
}

/// An ascending sequence holds as many different values as it has entries.
pub proof fn lemma_ascending_count(s: Seq<i32>)
    requires
        ascending(s),
    ensures
        distinct_count(s) == s.len(),
{
    assert(s.no_duplicates());
    s.unique_seq_to_set();
}

/// There is only one ascending sequence with a given set of values.
pub proof fn lemma_ascending_unique(a: Seq<i32>, b: Seq<i32>)
    requires
        ascending(a),
        ascending(b),
        a.to_set() == b.to_set(),
    ensures
        a == b,
    decreases a.len(),
{
    lemma_ascending_count(a);
    lemma_ascending_count(b);
    if a.len() > 0 {
        let x = a.last();
        let y = b.last();
        assert(a.contains(x));
        assert(b.to_set().contains(x));
        assert(b.contains(x));
        assert(b.contains(y));
        assert(a.to_set().contains(y));
        assert(a.contains(y));
        assert(x == y);
        let a0 = a.drop_last();
        let b0 = b.drop_last();
        assert forall|v: i32| a0.to_set().contains(v) == b0.to_set().contains(v) by {
            if a0.contains(v) {
                let i = choose|i: int| 0 <= i < a0.len() && a0[i] == v;
                assert(a[i] == v);
                assert(v < x);
                assert(a.contains(v));
                assert(b.to_set().contains(v));
                let j = choose|j: int| 0 <= j < b.len() && b[j] == v;
                assert(b0[j] == v);
            }
            if b0.contains(v) {
                let i = choose|i: int| 0 <= i < b0.len() && b0[i] == v;
                assert(b[i] == v);
                assert(v < y);
                assert(b.contains(v));
                assert(a.to_set().contains(v));
                let j = choose|j: int| 0 <= j < a.len() && a[j] == v;
                assert(a0[j] == v);
            }
        }
        assert(a0.to_set() =~= b0.to_set());
        lemma_ascending_unique(a0, b0);
        assert(a =~= a0.push(x));
        assert(b =~= b0.push(y));
    } else {
        assert(a =~= b);
    }
}

/// The values in order of first appearance are the different values of the
/// sequence, each once.
pub proof fn lemma_first_occurrences(s: Seq<i32>)
    ensures
        first_occurrences(s).no_duplicates(),
        first_occurrences(s).to_set() == s.to_set(),
        first_occurrences(s).len() == distinct_count(s),
    decreases s.len(),
{
    let f = first_occurrences(s);
    if s.len() == 0 {
        assert(f.to_set() =~= s.to_set());
    } else {
        let rest = s.drop_last();
        let x = s.last();
        let f0 = first_occurrences(rest);
        lemma_first_occurrences(rest);
        assert(s =~= rest.push(x));
        rest.lemma_push_to_set_commute(x);
        if rest.contains(x) {
            assert(rest.to_set().contains(x));
            assert(rest.to_set().insert(x) =~= rest.to_set());
        } else {
            assert(!f0.to_set().contains(x));
            assert(!f0.contains(x));
            f0.lemma_push_to_set_commute(x);
            assert(f.no_duplicates());
        }
    }
    f.unique_seq_to_set();
}

/// Puts `x` at its place in an ascending vector, unless it is there already.
fn insert_ascending(v: &mut Vec<i32>, x: i32)
    requires
        ascending(old(v)@),
    ensures
        ascending(final(v)@),
        final(v)@.to_set() == old(v)@.to_set().insert(x),
{
    let mut p: usize = 0;
    while p < v.len() && v[p] < x
        invariant
            p <= v.len(),
            v@ == old(v)@,
            forall|k: int| 0 <= k < p ==> v@[k] < x,
        decreases v.len() - p,
    {
        p = p + 1;
    }
    let ghost before = v@;
    if p < v.len() && v[p] == x {
        proof {
            assert(before.contains(x));
            assert(before.to_set().insert(x) =~= before.to_set());
        }
    } else {
        v.insert(p, x);
        proof {
            let after = v@;
            before.insert_ensures(p as int, x);
            assert forall|i: int, j: int| 0 <= i < j < after.len() implies after[i] < after[j] by {
                if i < p && j > p {
                    assert(after[j] == before[j - 1]);
                }
            }
            assert forall|y: i32| after.to_set().contains(y) == before.to_set().insert(x).contains(
                y,
            ) by {
                if after.contains(y) {
                    let i = choose|i: int| 0 <= i < after.len() && after[i] == y;
                    if i < p {
                        assert(before[i] == y);
                    } else if i > p {
                        assert(before[i - 1] == y);
                    }
                }
                if before.contains(y) {
                    let i = choose|i: int| 0 <= i < before.len() && before[i] == y;
                    if i < p {
                        assert(after[i] == y);
                    } else {
                        assert(after[i + 1] == y);
                    }
                }
                if y == x {
                    assert(after[p as int] == y);
                }
            }
            assert(after.to_set() =~= before.to_set().insert(x));
        }
    }
}

/// Decides the shape of a volume from its eight node slots.
pub fn classify_3d(cell: [i32; 8]) -> (r: Cell)
    ensures
        r == solid_of(cell@),
        distinct_count(cell@) == 4 ==> r.code() == 10,
        distinct_count(cell@) != 4 ==> r.code() == 12,
{
    let mut d: Vec<i32> = Vec::new();
    let mut i: usize = 0;
    assert(d@.to_set() =~= cell@.take(0).to_set());
    while i < 8
        invariant
            i <= 8,
            ascending(d@),
            d@.to_set() == cell@.take(i as int).to_set(),
        decreases 8 - i,
    {
        insert_ascending(&mut d, cell[i]);
        proof {
            assert(cell@.take(i + 1) =~= cell@.take(i as int).push(cell@[i as int]));
            cell@.take(i as int).lemma_push_to_set_commute(cell@[i as int]);
        }
        i = i + 1;
    }
    proof {
        assert(cell@.take(8) =~= cell@);
        lemma_ascending_count(d@);
        let r = ascending_values(cell@);
        assert(ascending(r) && r.to_set() == cell@.to_set());
        lemma_ascending_unique(d@, r);
    }
    if d.len() == 4 {
        Cell::Tetra(d[0], d[1], d[2], d[3])
    } else {
        Cell::Hexa(cell[0], cell[1], cell[2], cell[3], cell[4], cell[5], cell[6], cell[7])
    }
}

/// Whether `x` is among the entries of `v`.
fn holds(v: &Vec<i32>, x: i32) -> (r: bool)
    ensures
        r == v@.contains(x),
{
    let mut i: usize = 0;
    while i < v.len()
        invariant
            i <= v.len(),
            forall|k: int| 0 <= k < i ==> v@[k] != x,
        decreases v.len() - i,
    {
        if v[i] == x {
            return true;
        }
        i = i + 1;
    }
    false
}

/// Decides the shape of a facet from its four node slots.
pub fn classify_2d(cell: [i32; 4]) -> (r: Cell)
    ensures
        r == face_of(cell@),
        distinct_count(cell@) == 3 ==> r.code() == 5,
        distinct_count(cell@) != 3 ==> r.code() == 9,
{
    let mut d: Vec<i32> = Vec::new();
    let mut i: usize = 0;
    while i < 4
        invariant
            i <= 4,
            d@ == first_occurrences(cell@.take(i as int)),
        decreases 4 - i,
    {
        proof {
            let head = cell@.take(i as int);
            lemma_first_occurrences(head);
            assert(cell@.take(i + 1).drop_last() =~= head);
            assert(head.contains(cell@[i as int]) == head.to_set().contains(cell@[i as int]));
            assert(d@.contains(cell@[i as int]) == d@.to_set().contains(cell@[i as int]));
        }
        if !holds(&d, cell[i]) {
            d.push(cell[i]);
        }
        i = i + 1;
    }
    proof {
        assert(cell@.take(4) =~= cell@);
        lemma_first_occurrences(cell@);
    }
    if d.len() == 3 {
        Cell::Triangle(d[0], d[1], d[2])
    } else {
        Cell::Quad(cell[0], cell[1], cell[2], cell[3])
    }
}

} // verus!
