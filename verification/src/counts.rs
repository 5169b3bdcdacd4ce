//! A square matrix of counts that grows on demand.

use crate::grid::{
    bumped, cell, column, correct, diagonal, lemma_bumped_total, lemma_column_le_total,
    lemma_correct_le_total, lemma_padded_totals, lemma_row_le_total, lemma_sum_bounds_element,
    lemma_sum_prefix_le, lemma_sum_prefix_step, padded, square, sum, total,
};
use vstd::prelude::*;

verus! {

/// A square matrix of counts, indexed by row and column.
///
/// It only ever grows, by whole rows and columns of zeros, and a count only
/// ever rises, by one at a time.
pub struct Counts {
    rows: Vec<Vec<usize>>,
    total: usize,
}

impl View for Counts {
    type V = Seq<Seq<nat>>;

    /// The counts, row by row.
    closed spec fn view(&self) -> Seq<Seq<nat>> {
        Seq::new(
            self.rows@.len(),
            |i: int| Seq::new(self.rows@[i]@.len(), |j: int| self.rows@[i]@[j] as nat),
        )
    }
}

impl Counts {
    /// Whether the running total agrees with the counts.
    pub closed spec fn tallied(&self) -> bool {
        self.total as nat == total(self@)
    }

    /// The matrix is square, and the sum of its counts is on record and
    /// fits the machine.
    pub open spec fn wf(&self) -> bool {
        &&& square(self@, self@.len())
        &&& total(self@) <= usize::MAX
        &&& self.tallied()
    }

    /// The matrix of dimension zero.
    pub fn new() -> (counts: Self)
        ensures
            counts.wf(),
            counts@ == Seq::<Seq<nat>>::empty(),
    {
        let counts = Counts { rows: Vec::new(), total: 0 };
        counts
    }

    /// The number of rows, which is the number of columns.
    pub fn dim(&self) -> (n: usize)
        ensures
            n == self@.len(),
    {
        self.rows.len()
    }

    /// The sum of all counts.
    pub fn total(&self) -> (n: usize)
        requires
            self.wf(),
        ensures
            n == total(self@),
    {
        self.total
    }

    /// The count at row `i`, column `j`.
    pub fn get(&self, i: usize, j: usize) -> (n: usize)
        requires
            self.wf(),
            i < self@.len(),
            j < self@.len(),
        ensures
            n == self@[i as int][j as int],
    {
        assert(self@[i as int].len() == self@.len());
        self.rows[i][j]
    }

    /// Adds one row and one column of zeros.
    fn grow(&mut self)
        requires
            old(self).wf(),
        ensures
            final(self).wf(),
            final(self)@ == padded(old(self)@, old(self)@.len() + 1),
    {
        let dim = self.rows.len();
        let ghost before = self@;
        let mut row: Vec<usize> = Vec::new();
        let mut j: usize = 0;
        while j < dim
            invariant
                j <= dim,
                row@.len() == j,
                forall|k: int| 0 <= k < j ==> row@[k] == 0,
            decreases dim - j,
        {
            row.push(0);
            j += 1;
        }
        assert forall|r: int| 0 <= r < dim implies (#[trigger] self.rows@[r])@.len() == dim by {
            assert(before[r].len() == dim);
        }
        self.rows.push(row);
        let size = self.rows.len();
        let mut i: usize = 0;
        while i < size
            invariant
                i <= size,
                size == dim + 1,
                self.total == old(self).total,
                self.rows@.len() == size,
                before == old(self)@,
                before.len() == dim,
                square(before, dim as nat),
                forall|r: int| 0 <= r < i ==> (#[trigger] self.rows@[r])@.len() == dim + 1,
                forall|r: int| i <= r <= dim ==> (#[trigger] self.rows@[r])@.len() == dim,
                forall|r: int, c: int|
                    0 <= r <= dim && 0 <= c < dim ==> (#[trigger] self.rows@[r]@[c]) as nat == cell(
                        before,
                        r,
                        c,
                    ),
                forall|r: int| 0 <= r < i ==> (#[trigger] self.rows@[r])@[dim as int] == 0,
            decreases size - i,
        {
            self.rows[i].push(0);
            i += 1;
        }
        assert(self@ =~~= padded(before, (dim + 1) as nat));
        proof {
            lemma_padded_totals(before, (dim + 1) as nat, dim as nat);
        }
    }

    /// Grows the matrix to dimension `n`, if it is smaller, by adding rows
    /// and columns of zeros. Every count that was there stays as it is.
    pub fn grow_to(&mut self, n: usize)
        requires
            old(self).wf(),
        ensures
            final(self).wf(),
            final(self)@ == padded(
                old(self)@,
                if n > old(self)@.len() {
                    n as nat
                } else {
                    old(self)@.len()
                },
            ),
            total(final(self)@) == total(old(self)@),
    {
        assert(self@ =~~= padded(self@, self@.len()));
        while self.rows.len() < n
            invariant
                self.wf(),
                old(self).wf(),
                old(self)@.len() <= self@.len(),
                self@.len() <= n || self@.len() == old(self)@.len(),
                self@ == padded(old(self)@, self@.len()),
            decreases n - self.rows.len(),
        {
            self.grow();
            assert(self@ =~~= padded(old(self)@, self@.len()));
        }
        proof {
            lemma_padded_totals(old(self)@, self@.len(), old(self)@.len());
        }
    }

    /// Raises the count at row `g`, column `p` by one.
    pub fn increment(&mut self, g: usize, p: usize)
        requires
            old(self).wf(),
            g < old(self)@.len(),
            p < old(self)@.len(),
            total(old(self)@) < usize::MAX,
        ensures
            final(self).wf(),
            final(self)@ == bumped(old(self)@, g as int, p as int),
            total(final(self)@) == total(old(self)@) + 1,
    {
        let ghost before = self@;
        proof {
            lemma_row_le_total(before, g as int);
            lemma_sum_bounds_element(before[g as int], p as int);
            lemma_bumped_total(before, g as int, p as int, before.len());
        }
        let n = self.rows[g][p];
        self.rows[g][p] = n + 1;
        self.total = self.total + 1;
        assert(self@ =~~= bumped(before, g as int, p as int));
    }

    /// The sum of row `i`: how often the class `i` was the gold one.
    pub fn row_total(&self, i: usize) -> (n: usize)
        requires
            self.wf(),
            i < self@.len(),
        ensures
            n == sum(self@[i as int]),
    {
        let ghost row = self@[i as int];
        let dim = self.rows.len();
        proof {
            lemma_row_le_total(self@, i as int);
        }
        let mut n: usize = 0;
        let mut j: usize = 0;
        while j < dim
            invariant
                self.wf(),
                i < self@.len(),
                dim == self@.len(),
                row == self@[i as int],
                row.len() == dim,
                j <= dim,
                n == sum(row.subrange(0, j as int)),
                sum(row) <= usize::MAX,
            decreases dim - j,
        {
            proof {
                lemma_sum_prefix_step(row, j as int);
                lemma_sum_prefix_le(row, j + 1);
            }
            n = n + self.rows[i][j];
            j += 1;
        }
        assert(row.subrange(0, dim as int) =~= row);
        n
    }

    /// The sum of column `j`: how often the class `j` was the predicted
    /// one.
    pub fn column_total(&self, j: usize) -> (n: usize)
        requires
            self.wf(),
            j < self@.len(),
        ensures
            n == sum(column(self@, j as int)),
    {
        let ghost col = column(self@, j as int);
        let dim = self.rows.len();
        proof {
            lemma_column_le_total(self@, j as int, self@.len());
        }
        let mut n: usize = 0;
        let mut i: usize = 0;
        while i < dim
            invariant
                self.wf(),
                j < self@.len(),
                dim == self@.len(),
                col == column(self@, j as int),
                i <= dim,
                n == sum(col.subrange(0, i as int)),
                sum(col) <= usize::MAX,
            decreases dim - i,
        {
            proof {
                lemma_sum_prefix_step(col, i as int);
                lemma_sum_prefix_le(col, i + 1);
            }
            n = n + self.rows[i][j];
            i += 1;
        }
        assert(col.subrange(0, dim as int) =~= col);
        n
    }

    /// The sum of the diagonal: how often the predicted class was the gold
    /// one.
    pub fn correct(&self) -> (n: usize)
        requires
            self.wf(),
        ensures
            n == correct(self@),
            n <= total(self@),
    {
        let ghost diag = diagonal(self@);
        let dim = self.rows.len();
        proof {
            lemma_correct_le_total(self@, self@.len());
        }
        let mut n: usize = 0;
        let mut i: usize = 0;
        while i < dim
            invariant
                self.wf(),
                dim == self@.len(),
                diag == diagonal(self@),
                i <= dim,
                n == sum(diag.subrange(0, i as int)),
                sum(diag) <= usize::MAX,
            decreases dim - i,
        {
            proof {
                lemma_sum_prefix_step(diag, i as int);
                lemma_sum_prefix_le(diag, i + 1);
            }
            n = n + self.rows[i][i];
            i += 1;
        }
        assert(diag.subrange(0, dim as int) =~= diag);
        n
    }
}

} // verus!
