//! Sizes of tables: products of counts.
//!
//! The length of a table in a frame is a product of two counts read from
//! the stream. Such products are kept behind one name, `times`, so that
//! layouts stay sums of named terms.

use vstd::prelude::*;

verus! {

/// The product of two sizes.
#[verifier::opaque]
pub open spec fn times(a: int, b: int) -> int {
    a * b
}

/// `times` is multiplication.
pub proof fn lemma_times_is_product(a: int, b: int)
    ensures
        times(a, b) == a * b,
{
    reveal(times);
}

/// A product of sizes is a size.
pub proof fn lemma_times_nonnegative(a: int, b: int)
    requires
        a >= 0,
        b >= 0,
    ensures
        times(a, b) >= 0,
{
    reveal(times);
    assert(a * b >= 0) by (nonlinear_arith)
        requires
            a >= 0,
            b >= 0,
    ;
}

/// Row `j` of a table of `rows` rows of `n` entries lies within the table.
pub proof fn lemma_times_row(j: int, rows: int, n: int)
    requires
        0 <= j < rows,
        0 <= n,
    ensures
        0 <= times(j, n),
        times(j + 1, n) == times(j, n) + n,
        times(j + 1, n) <= times(rows, n),
{
    reveal(times);
    assert(j * n >= 0) by (nonlinear_arith)
        requires
            j >= 0,
            n >= 0,
    ;
    assert((j + 1) * n == j * n + n) by (nonlinear_arith);
    assert((j + 1) * n <= rows * n) by (nonlinear_arith)
        requires
            j + 1 <= rows,
            n >= 0,
    ;
}

/// The product of two sizes, when it is itself a size.
pub fn area(a: usize, b: usize) -> (r: Option<usize>)
    ensures
        match r {
            Some(n) => n == times(a as int, b as int),
            None => times(a as int, b as int) > usize::MAX,
        },
{
    reveal(times);
    a.checked_mul(b)
}

} // verus!
