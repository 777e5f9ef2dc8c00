//! Sums of an integer-valued function over rows and rectangles of the
//! grid plane, with the algebra the conservation argument needs: pointwise
//! equality, splitting, shrinking past zeros, shifting, and addition.

use vstd::prelude::*;

verus! {

/// Sum of `f(i, j)` over the row segment `j0 <= j < j1` of row `i`.
pub open spec fn sum_row(f: spec_fn(int, int) -> int, i: int, j0: int, j1: int) -> int
    decreases j1 - j0,
{
    if j0 >= j1 {
        0
    } else {
        f(i, j0) + sum_row(f, i, j0 + 1, j1)
    }
}

/// Sum of `f(i, j)` over the rectangle `i0 <= i < i1`, `j0 <= j < j1`.
pub open spec fn sum_rect(
    f: spec_fn(int, int) -> int,
    i0: int,
    i1: int,
    j0: int,
    j1: int,
) -> int
    decreases i1 - i0,
{
    if i0 >= i1 {
        0
    } else {
        sum_row(f, i0, j0, j1) + sum_rect(f, i0 + 1, i1, j0, j1)
    }
}

/// Functions equal on a row segment have equal row sums.
pub proof fn lemma_sum_row_ext(f: spec_fn(int, int) -> int, g: spec_fn(int, int) -> int, i: int, j0: int, j1: int)
    requires
        forall|j: int| j0 <= j < j1 ==> #[trigger] f(i, j) == g(i, j),
    ensures
        sum_row(f, i, j0, j1) == sum_row(g, i, j0, j1),
    decreases j1 - j0,
{
    if j0 < j1 {
        lemma_sum_row_ext(f, g, i, j0 + 1, j1);
    }
}

/// Functions equal on a rectangle have equal rectangle sums.
pub proof fn lemma_sum_rect_ext(f: spec_fn(int, int) -> int, g: spec_fn(int, int) -> int, i0: int, i1: int, j0: int, j1: int)
    requires
        forall|i: int, j: int| i0 <= i < i1 && j0 <= j < j1 ==> #[trigger] f(i, j) == g(i, j),
    ensures
        sum_rect(f, i0, i1, j0, j1) == sum_rect(g, i0, i1, j0, j1),
    decreases i1 - i0,
{
    if i0 < i1 {
        lemma_sum_row_ext(f, g, i0, j0, j1);
        lemma_sum_rect_ext(f, g, i0 + 1, i1, j0, j1);
    }
}

/// A function that vanishes on a row segment sums to zero there.
pub proof fn lemma_sum_row_zero(f: spec_fn(int, int) -> int, i: int, j0: int, j1: int)
    requires
        forall|j: int| j0 <= j < j1 ==> #[trigger] f(i, j) == 0,
    ensures
        sum_row(f, i, j0, j1) == 0,
    decreases j1 - j0,
{
    if j0 < j1 {
        lemma_sum_row_zero(f, i, j0 + 1, j1);
    }
}

/// A function that vanishes on a rectangle sums to zero there.
pub proof fn lemma_sum_rect_zero(f: spec_fn(int, int) -> int, i0: int, i1: int, j0: int, j1: int)
    requires
        forall|i: int, j: int| i0 <= i < i1 && j0 <= j < j1 ==> #[trigger] f(i, j) == 0,
    ensures
        sum_rect(f, i0, i1, j0, j1) == 0,
    decreases i1 - i0,
{
    if i0 < i1 {
        lemma_sum_row_zero(f, i0, j0, j1);
        lemma_sum_rect_zero(f, i0 + 1, i1, j0, j1);
    }
}

/// A row sum splits at any point of the segment.
pub proof fn lemma_sum_row_split(f: spec_fn(int, int) -> int, i: int, j0: int, jm: int, j1: int)
    requires
        j0 <= jm <= j1,
    ensures
        sum_row(f, i, j0, j1) == sum_row(f, i, j0, jm) + sum_row(f, i, jm, j1),
    decreases jm - j0,
{
    if j0 < jm {
        lemma_sum_row_split(f, i, j0 + 1, jm, j1);
    }
}

/// A rectangle sum splits at any row.
pub proof fn lemma_sum_rect_split_rows(f: spec_fn(int, int) -> int, i0: int, im: int, i1: int, j0: int, j1: int)
    requires
        i0 <= im <= i1,
    ensures
        sum_rect(f, i0, i1, j0, j1) == sum_rect(f, i0, im, j0, j1) + sum_rect(f, im, i1, j0, j1),
    decreases im - i0,
{
    if i0 < im {
        lemma_sum_rect_split_rows(f, i0 + 1, im, i1, j0, j1);
    }
}

/// A rectangle sum splits at any column.
pub proof fn lemma_sum_rect_split_cols(f: spec_fn(int, int) -> int, i0: int, i1: int, j0: int, jm: int, j1: int)
    requires
        j0 <= jm <= j1,
    ensures
        sum_rect(f, i0, i1, j0, j1) == sum_rect(f, i0, i1, j0, jm) + sum_rect(f, i0, i1, jm, j1),
    decreases i1 - i0,
{
    if i0 < i1 {
        lemma_sum_row_split(f, i0, j0, jm, j1);
        lemma_sum_rect_split_cols(f, i0 + 1, i1, j0, jm, j1);
    }
}

/// A rectangle sum shrinks to any subrectangle outside which the function
/// vanishes.
pub proof fn lemma_sum_rect_shrink(
    f: spec_fn(int, int) -> int,
    i0: int,
    i1: int,
    j0: int,
    j1: int,
    a: int,
    b: int,
    c: int,
    d: int,
)
    requires
        i0 <= a <= b <= i1,
        j0 <= c <= d <= j1,
        forall|i: int, j: int|
            i0 <= i < i1 && j0 <= j < j1 && !(a <= i < b && c <= j < d) ==> #[trigger] f(i, j)
                == 0,
    ensures
        sum_rect(f, i0, i1, j0, j1) == sum_rect(f, a, b, c, d),
{
    lemma_sum_rect_split_rows(f, i0, a, i1, j0, j1);
    lemma_sum_rect_split_rows(f, a, b, i1, j0, j1);
    lemma_sum_rect_zero(f, i0, a, j0, j1);
    lemma_sum_rect_zero(f, b, i1, j0, j1);
    lemma_sum_rect_split_cols(f, a, b, j0, c, j1);
    lemma_sum_rect_split_cols(f, a, b, c, d, j1);
    lemma_sum_rect_zero(f, a, b, j0, c);
    lemma_sum_rect_zero(f, a, b, d, j1);
}

/// Summing a translated function over a segment is summing the original
/// over the translated segment.
pub proof fn lemma_sum_row_shift(
    f: spec_fn(int, int) -> int,
    g: spec_fn(int, int) -> int,
    i: int,
    j0: int,
    j1: int,
    di: int,
    dj: int,
)
    requires
        forall|a: int, b: int| #[trigger] g(a, b) == f(a + di, b + dj),
    ensures
        sum_row(g, i, j0, j1) == sum_row(f, i + di, j0 + dj, j1 + dj),
    decreases j1 - j0,
{
    if j0 < j1 {
        lemma_sum_row_shift(f, g, i, j0 + 1, j1, di, dj);
    }
}

/// Summing a translated function over a rectangle is summing the original
/// over the translated rectangle.
pub proof fn lemma_sum_rect_shift(
    f: spec_fn(int, int) -> int,
    g: spec_fn(int, int) -> int,
    i0: int,
    i1: int,
    j0: int,
    j1: int,
    di: int,
    dj: int,
)
    requires
        forall|a: int, b: int| #[trigger] g(a, b) == f(a + di, b + dj),
    ensures
        sum_rect(g, i0, i1, j0, j1) == sum_rect(f, i0 + di, i1 + di, j0 + dj, j1 + dj),
    decreases i1 - i0,
{
    if i0 < i1 {
        lemma_sum_row_shift(f, g, i0, j0, j1, di, dj);
        lemma_sum_rect_shift(f, g, i0 + 1, i1, j0, j1, di, dj);
    }
}

/// Row sums add pointwise.
pub proof fn lemma_sum_row_add(
    f: spec_fn(int, int) -> int,
    g: spec_fn(int, int) -> int,
    h: spec_fn(int, int) -> int,
    i: int,
    j0: int,
    j1: int,
)
    requires
        forall|j: int| j0 <= j < j1 ==> #[trigger] h(i, j) == f(i, j) + g(i, j),
    ensures
        sum_row(h, i, j0, j1) == sum_row(f, i, j0, j1) + sum_row(g, i, j0, j1),
    decreases j1 - j0,
{
    if j0 < j1 {
        lemma_sum_row_add(f, g, h, i, j0 + 1, j1);
    }
}

/// Rectangle sums add pointwise.
pub proof fn lemma_sum_rect_add(
    f: spec_fn(int, int) -> int,
    g: spec_fn(int, int) -> int,
    h: spec_fn(int, int) -> int,
    i0: int,
    i1: int,
    j0: int,
    j1: int,
)
    requires
        forall|i: int, j: int| i0 <= i < i1 && j0 <= j < j1 ==> #[trigger] h(i, j) == f(i, j) + g(
            i,
            j,
        ),
    ensures
        sum_rect(h, i0, i1, j0, j1) == sum_rect(f, i0, i1, j0, j1) + sum_rect(g, i0, i1, j0, j1),
    decreases i1 - i0,
{
    if i0 < i1 {
        lemma_sum_row_add(f, g, h, i0, j0, j1);
        lemma_sum_rect_add(f, g, h, i0 + 1, i1, j0, j1);
    }
}

/// A row sum of a pointwise negation is the negated row sum.
pub proof fn lemma_sum_row_neg(
    f: spec_fn(int, int) -> int,
    g: spec_fn(int, int) -> int,
    i: int,
    j0: int,
    j1: int,
)
    requires
        forall|j: int| j0 <= j < j1 ==> #[trigger] g(i, j) == -f(i, j),
    ensures
        sum_row(g, i, j0, j1) == -sum_row(f, i, j0, j1),
    decreases j1 - j0,
{
    if j0 < j1 {
        lemma_sum_row_neg(f, g, i, j0 + 1, j1);
    }
}

/// A rectangle sum of a pointwise negation is the negated rectangle sum.
pub proof fn lemma_sum_rect_neg(
    f: spec_fn(int, int) -> int,
    g: spec_fn(int, int) -> int,
    i0: int,
    i1: int,
    j0: int,
    j1: int,
)
    requires
        forall|i: int, j: int| i0 <= i < i1 && j0 <= j < j1 ==> #[trigger] g(i, j) == -f(i, j),
    ensures
        sum_rect(g, i0, i1, j0, j1) == -sum_rect(f, i0, i1, j0, j1),
    decreases i1 - i0,
{
    if i0 < i1 {
        lemma_sum_row_neg(f, g, i0, j0, j1);
        lemma_sum_rect_neg(f, g, i0 + 1, i1, j0, j1);
    }
}

} // verus!
