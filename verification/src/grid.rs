//! The mathematics of a square grid of counts: cells, sums, growth by zero
//! padding, and what one more observation does to the sums.

use vstd::prelude::*;

verus! {

/// The sum of a sequence of counts.
pub open spec fn sum(s: Seq<nat>) -> nat
    decreases s.len(),
{
    if s.len() == 0 {
        0
    } else {
        sum(s.drop_last()) + s.last()
    }
}

/// Whether `cells` has `n` rows of `n` counts each.
pub open spec fn square(cells: Seq<Seq<nat>>, n: nat) -> bool {
    &&& cells.len() == n
    &&& forall|i: int| 0 <= i < cells.len() ==> (#[trigger] cells[i]).len() == n
}

/// The count at row `i`, column `j`; zero outside the grid.
pub open spec fn cell(cells: Seq<Seq<nat>>, i: int, j: int) -> nat {
    if 0 <= i < cells.len() && 0 <= j < cells[i].len() {
        cells[i][j]
    } else {
        0
    }
}

/// The grid of dimension `n` that agrees with `cells` wherever `cells` has
/// a count and is zero elsewhere.
pub open spec fn padded(cells: Seq<Seq<nat>>, n: nat) -> Seq<Seq<nat>> {
    Seq::new(n, |i: int| Seq::new(n, |j: int| cell(cells, i, j)))
}

/// The grid with the count at row `g`, column `p` raised by one.
pub open spec fn bumped(cells: Seq<Seq<nat>>, g: int, p: int) -> Seq<Seq<nat>> {
    cells.update(g, cells[g].update(p, cells[g][p] + 1))
}

/// Column `j`, from the first row to the last.
pub open spec fn column(cells: Seq<Seq<nat>>, j: int) -> Seq<nat> {
    Seq::new(cells.len(), |i: int| cell(cells, i, j))
}

/// The counts on the diagonal.
pub open spec fn diagonal(cells: Seq<Seq<nat>>) -> Seq<nat> {
    Seq::new(cells.len(), |i: int| cell(cells, i, i))
}

/// The sum of each row.
pub open spec fn row_totals(cells: Seq<Seq<nat>>) -> Seq<nat> {
    Seq::new(cells.len(), |i: int| sum(cells[i]))
}

/// The sum of all counts.
pub open spec fn total(cells: Seq<Seq<nat>>) -> nat {
    sum(row_totals(cells))
}

/// The sum of the counts on the diagonal.
pub open spec fn correct(cells: Seq<Seq<nat>>) -> nat {
    sum(diagonal(cells))
}

/// A sequence of zeros sums to zero.
pub proof fn lemma_sum_zeros(s: Seq<nat>)
    requires
        forall|i: int| 0 <= i < s.len() ==> s[i] == 0,
    ensures
        sum(s) == 0,
    decreases s.len(),
{
    if s.len() > 0 {
        lemma_sum_zeros(s.drop_last());
    }
}

/// A prefix that is one longer sums to one more element.
pub proof fn lemma_sum_prefix_step(s: Seq<nat>, k: int)
    requires
        0 <= k < s.len(),
    ensures
        sum(s.subrange(0, k + 1)) == sum(s.subrange(0, k)) + s[k],
{
    assert(s.subrange(0, k + 1).drop_last() =~= s.subrange(0, k));
}

/// Sequences that are pointwise ordered have ordered sums.
pub proof fn lemma_sum_pointwise(a: Seq<nat>, b: Seq<nat>)
    requires
        a.len() == b.len(),
        forall|i: int| 0 <= i < a.len() ==> a[i] <= b[i],
    ensures
        sum(a) <= sum(b),
    decreases a.len(),
{
    if a.len() > 0 {
        lemma_sum_pointwise(a.drop_last(), b.drop_last());
    }
}

/// A prefix sums to no more than the whole.
pub proof fn lemma_sum_prefix_le(s: Seq<nat>, k: int)
    requires
        0 <= k <= s.len(),
    ensures
        sum(s.subrange(0, k)) <= sum(s),
    decreases s.len() - k,
{
    if k == s.len() {
        assert(s.subrange(0, k) =~= s);
    } else {
        lemma_sum_prefix_step(s, k);
        lemma_sum_prefix_le(s, k + 1);
    }
}

/// No element exceeds the sum.
pub proof fn lemma_sum_bounds_element(s: Seq<nat>, k: int)
    requires
        0 <= k < s.len(),
    ensures
        s[k] <= sum(s),
{
    lemma_sum_prefix_step(s, k);
    lemma_sum_prefix_le(s, k + 1);
}

/// Raising one element by `d` raises the sum by `d`.
pub proof fn lemma_sum_update(s: Seq<nat>, k: int, d: nat)
    requires
        0 <= k < s.len(),
    ensures
        sum(s.update(k, s[k] + d)) == sum(s) + d,
    decreases s.len(),
{
    let t = s.update(k, s[k] + d);
    if k == s.len() - 1 {
        assert(t.drop_last() =~= s.drop_last());
    } else {
        lemma_sum_update(s.drop_last(), k, d);
        assert(t.drop_last() =~= s.drop_last().update(k, s[k] + d));
    }
}

/// Appending zeros leaves the sum unchanged.
pub proof fn lemma_sum_zero_extended(s: Seq<nat>, t: Seq<nat>)
    requires
        s.len() <= t.len(),
        forall|i: int| 0 <= i < s.len() ==> t[i] == s[i],
        forall|i: int| s.len() <= i < t.len() ==> t[i] == 0,
    ensures
        sum(t) == sum(s),
    decreases t.len(),
{
    if t.len() == s.len() {
        assert(t =~= s);
    } else {
        lemma_sum_zero_extended(s, t.drop_last());
    }
}

/// Padding a square grid with zeros keeps every row sum that it had and
/// gives each new row the sum zero.
pub proof fn lemma_padded_row_totals(cells: Seq<Seq<nat>>, n: nat, dim: nat)
    requires
        square(cells, dim),
        dim <= n,
    ensures
        square(padded(cells, n), n),
        forall|i: int| 0 <= i < dim ==> sum(#[trigger] padded(cells, n)[i]) == sum(cells[i]),
        forall|i: int| dim <= i < n ==> sum(#[trigger] padded(cells, n)[i]) == 0,
{
    let grown = padded(cells, n);
    assert forall|i: int| 0 <= i < dim implies sum(#[trigger] grown[i]) == sum(cells[i]) by {
        lemma_sum_zero_extended(cells[i], grown[i]);
    }
    assert forall|i: int| dim <= i < n implies sum(#[trigger] grown[i]) == 0 by {
        lemma_sum_zeros(grown[i]);
    }
}

/// Padding a square grid with zeros changes neither the sum of all counts
/// nor the sum of the diagonal.
pub proof fn lemma_padded_totals(cells: Seq<Seq<nat>>, n: nat, dim: nat)
    requires
        square(cells, dim),
        dim <= n,
    ensures
        total(padded(cells, n)) == total(cells),
        correct(padded(cells, n)) == correct(cells),
{
    let grown = padded(cells, n);
    lemma_padded_row_totals(cells, n, dim);
    lemma_sum_zero_extended(row_totals(cells), row_totals(grown));
    lemma_sum_zero_extended(diagonal(cells), diagonal(grown));
}

/// One more observation raises the sum of all counts by one.
pub proof fn lemma_bumped_total(cells: Seq<Seq<nat>>, g: int, p: int, dim: nat)
    requires
        square(cells, dim),
        0 <= g < dim,
        0 <= p < dim,
    ensures
        square(bumped(cells, g, p), dim),
        total(bumped(cells, g, p)) == total(cells) + 1,
{
    let after = bumped(cells, g, p);
    lemma_sum_update(cells[g], p, 1);
    lemma_sum_update(row_totals(cells), g, 1);
    assert(row_totals(after) =~= row_totals(cells).update(g, row_totals(cells)[g] + 1));
}

/// The diagonal of a square grid sums to no more than all of its counts.
pub proof fn lemma_correct_le_total(cells: Seq<Seq<nat>>, dim: nat)
    requires
        square(cells, dim),
    ensures
        correct(cells) <= total(cells),
{
    assert forall|i: int| 0 <= i < dim implies diagonal(cells)[i] <= row_totals(cells)[i] by {
        lemma_sum_bounds_element(cells[i], i);
    }
    lemma_sum_pointwise(diagonal(cells), row_totals(cells));
}

/// A column of a square grid sums to no more than all of its counts.
pub proof fn lemma_column_le_total(cells: Seq<Seq<nat>>, j: int, dim: nat)
    requires
        square(cells, dim),
        0 <= j < dim,
    ensures
        sum(column(cells, j)) <= total(cells),
{
    assert forall|i: int| 0 <= i < dim implies column(cells, j)[i] <= row_totals(cells)[i] by {
        lemma_sum_bounds_element(cells[i], j);
    }
    lemma_sum_pointwise(column(cells, j), row_totals(cells));
}

/// A row of a grid sums to no more than all of its counts.
pub proof fn lemma_row_le_total(cells: Seq<Seq<nat>>, i: int)
    requires
        0 <= i < cells.len(),
    ensures
        sum(cells[i]) <= total(cells),
{
    lemma_sum_bounds_element(row_totals(cells), i);
}

} // verus!
