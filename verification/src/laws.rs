//! What holds of numbering and of confusion matrices whatever is observed,
//! stated over their mathematical models.

use crate::confusion::ConfusionView;
use crate::grid::{
    cell, correct, lemma_bumped_total, lemma_correct_le_total, lemma_padded_row_totals,
    lemma_padded_totals, lemma_sum_bounds_element, padded, sum, total,
};
use crate::numberer::{numbered, numbered_all};
use crate::render::accuracy_of;
use crate::table::CellView;
use crate::score::{fault, gap, ScoreError, ScoreView};
use crate::token::TokenView;
use vstd::prelude::*;

verus! {

/// In a sequence without duplicates, a value is found where it stands.
pub proof fn lemma_index_of_unique<K>(s: Seq<K>, i: int)
    requires
        s.no_duplicates(),
        0 <= i < s.len(),
    ensures
        s.contains(s[i]),
        s.index_of(s[i]) == i,
{
    assert(s.contains(s[i]));
    let k = s.index_of(s[i]);
    assert(0 <= k < s.len() && s[k] == s[i]);
}

/// Numbering a value keeps every earlier number, introduces no duplicate
/// and makes the value known.
pub proof fn lemma_numbered<K>(known: Seq<K>, v: K)
    requires
        known.no_duplicates(),
    ensures
        numbered(known, v).no_duplicates(),
        numbered(known, v).contains(v),
        known.len() <= numbered(known, v).len() <= known.len() + 1,
        forall|i: int| 0 <= i < known.len() ==> numbered(known, v)[i] == known[i],
        forall|x: K| numbered(known, v).contains(x) <==> known.contains(x) || x == v,
        forall|x: K| known.contains(x) ==> numbered(known, v).index_of(x) == known.index_of(x),
{
    let after = numbered(known, v);
    if !known.contains(v) {
        assert(after[known.len() as int] == v);
    }
    assert forall|x: K| after.contains(x) <==> known.contains(x) || x == v by {
        if known.contains(x) {
            let i = known.index_of(x);
            assert(after[i] == x);
        }
    }
    assert forall|x: K| known.contains(x) implies after.index_of(x) == known.index_of(x) by {
        let i = known.index_of(x);
        assert(after[i] == x);
        lemma_index_of_unique(after, i);
    }
}

/// A class keeps its number: once `v` has been numbered, numbering any
/// value `w` afterwards, `v` itself included, changes neither the number
/// of `v` nor, if `w` is `v`, anything at all.
pub proof fn law_number_is_stable<K>(known: Seq<K>, v: K, w: K)
    requires
        known.no_duplicates(),
    ensures
        numbered(known, v).contains(v),
        numbered(numbered(known, v), v) == numbered(known, v),
        numbered(numbered(known, v), w).index_of(v) == numbered(known, v).index_of(v),
{
    lemma_numbered(known, v);
    lemma_numbered(numbered(known, v), w);
}

/// Distinct classes never share a number.
pub proof fn law_numbers_do_not_collide<K>(known: Seq<K>, v: K, w: K)
    requires
        known.no_duplicates(),
        known.contains(v),
        known.contains(w),
        v != w,
    ensures
        known.index_of(v) != known.index_of(w),
{
}

/// Numbering a sequence of values from nothing yields each distinct value
/// once: the known classes are the values seen, and there are as many of
/// them as there are distinct values.
pub proof fn law_len_counts_distinct_values<K>(seen: Seq<K>)
    ensures
        numbered_all(seen).no_duplicates(),
        numbered_all(seen).to_set() == seen.to_set(),
        numbered_all(seen).len() == seen.to_set().len(),
    decreases seen.len(),
{
    let all = numbered_all(seen);
    if seen.len() == 0 {
        assert(all.to_set() =~= seen.to_set());
    } else {
        let before = numbered_all(seen.drop_last());
        law_len_counts_distinct_values(seen.drop_last());
        lemma_numbered(before, seen.last());
        assert forall|x: K| all.to_set().contains(x) <==> seen.to_set().contains(x) by {
            assert(before.to_set().contains(x) <==> before.contains(x));
            assert(seen.drop_last().to_set().contains(x) <==> seen.drop_last().contains(x));
            if seen.contains(x) {
                let i = seen.index_of(x);
                if i < seen.len() - 1 {
                    assert(seen.drop_last()[i] == x);
                }
            }
            if seen.drop_last().contains(x) {
                let i = seen.drop_last().index_of(x);
                assert(seen[i] == x);
            }
            assert(seen[seen.len() - 1] == seen.last());
        }
        assert(all.to_set() =~= seen.to_set());
    }
    all.unique_seq_to_set();
}

/// One more observation leaves the matrix well formed and raises exactly
/// one count, that of the observed pair of classes, by one. Counts are
/// taken by class, not by number.
pub proof fn lemma_inserted_counts<K>(m: ConfusionView<K>, gold: K, pred: K)
    requires
        m.wf(),
    ensures
        m.inserted(gold, pred).wf(),
        m.inserted(gold, pred).name == m.name,
        total(m.inserted(gold, pred).cells) == total(m.cells) + 1,
        forall|x: K| #[trigger]
            m.inserted(gold, pred).classes.contains(x) <==> m.classes.contains(x) || x == gold || x
                == pred,
        forall|x: K, y: K| #[trigger]
            m.inserted(gold, pred).count(x, y) == m.count(x, y) + if x == gold && y == pred {
                1nat
            } else {
                0nat
            },
{
    let first = numbered(m.classes, gold);
    let classes = numbered(first, pred);
    let after = m.inserted(gold, pred);
    lemma_numbered(m.classes, gold);
    lemma_numbered(first, pred);
    let dim = classes.len();
    let g = classes.index_of(gold);
    let p = classes.index_of(pred);
    assert(classes.contains(gold) && classes.contains(pred));
    lemma_padded_row_totals(m.cells, dim, m.classes.len());
    lemma_padded_totals(m.cells, dim, m.classes.len());
    lemma_bumped_total(padded(m.cells, dim), g, p, dim);
    assert forall|x: K, y: K| #[trigger]
        after.count(x, y) == m.count(x, y) + if x == gold && y == pred {
            1nat
        } else {
            0nat
        } by {
        if classes.contains(x) && classes.contains(y) {
            let i = classes.index_of(x);
            let j = classes.index_of(y);
            if m.classes.contains(x) && m.classes.contains(y) {
                assert(m.classes.index_of(x) == i);
                assert(m.classes.index_of(y) == j);
                assert(m.cells[i].len() == m.classes.len());
            } else if !m.classes.contains(x) {
                if i < m.classes.len() {
                    assert(m.classes[i] == x);
                }
            } else {
                if j < m.classes.len() {
                    assert(m.classes[j] == y);
                }
            }
        }
    }
}

/// Growth preserves history: whatever is observed next, every count
/// between two classes that were already known is what it was, but for the
/// one count of the observed pair, which rises by one. When the observation
/// brings in a class that was not known, no earlier count changes at all,
/// and the earlier classes keep their numbers.
pub proof fn law_growth_preserves_history<K>(m: ConfusionView<K>, gold: K, pred: K)
    requires
        m.wf(),
    ensures
        m.inserted(gold, pred).wf(),
        forall|i: int|
            0 <= i < m.classes.len() ==> #[trigger] m.inserted(gold, pred).classes[i]
                == m.classes[i],
        forall|i: int, j: int|
            0 <= i < m.classes.len() && 0 <= j < m.classes.len() ==> #[trigger] cell(
                m.inserted(gold, pred).cells,
                i,
                j,
            ) == cell(m.cells, i, j) + if m.classes[i] == gold && m.classes[j] == pred {
                1nat
            } else {
                0nat
            },
        !(m.classes.contains(gold) && m.classes.contains(pred)) ==> forall|i: int, j: int|
            0 <= i < m.classes.len() && 0 <= j < m.classes.len() ==> #[trigger] cell(
                m.inserted(gold, pred).cells,
                i,
                j,
            ) == cell(m.cells, i, j),
{
    let first = numbered(m.classes, gold);
    let classes = numbered(first, pred);
    lemma_numbered(m.classes, gold);
    lemma_numbered(first, pred);
    lemma_inserted_counts(m, gold, pred);
    let g = classes.index_of(gold);
    let p = classes.index_of(pred);
    assert(classes.contains(gold) && classes.contains(pred));
    assert forall|i: int, j: int|
        0 <= i < m.classes.len() && 0 <= j < m.classes.len() implies #[trigger] cell(
        m.inserted(gold, pred).cells,
        i,
        j,
    ) == cell(m.cells, i, j) + if m.classes[i] == gold && m.classes[j] == pred {
        1nat
    } else {
        0nat
    } by {
        assert(m.cells[i].len() == m.classes.len());
        assert(classes[i] == m.classes[i]);
        assert(classes[j] == m.classes[j]);
        lemma_index_of_unique(classes, i);
        lemma_index_of_unique(classes, j);
    }
    if !(m.classes.contains(gold) && m.classes.contains(pred)) {
        assert forall|i: int, j: int|
            0 <= i < m.classes.len() && 0 <= j < m.classes.len() implies #[trigger] cell(
            m.inserted(gold, pred).cells,
            i,
            j,
        ) == cell(m.cells, i, j) by {
            assert(m.classes.contains(m.classes[i]));
            assert(m.classes.contains(m.classes[j]));
        }
    }
}

/// The order of two observations does not matter: observing `(a, b)` and
/// then `(c, d)` gives the same classes and, class by class, the same
/// counts as observing `(c, d)` and then `(a, b)`. Only the numbers that
/// the classes are given may differ.
pub proof fn law_insertion_order_is_immaterial<K>(m: ConfusionView<K>, a: K, b: K, c: K, d: K)
    requires
        m.wf(),
    ensures
        m.inserted(a, b).inserted(c, d).wf(),
        m.inserted(c, d).inserted(a, b).wf(),
        m.inserted(a, b).inserted(c, d).classes.len() == m.inserted(c, d).inserted(
            a,
            b,
        ).classes.len(),
        m.inserted(a, b).inserted(c, d).classes.to_set() == m.inserted(c, d).inserted(
            a,
            b,
        ).classes.to_set(),
        forall|x: K, y: K| #[trigger]
            m.inserted(a, b).inserted(c, d).count(x, y) == m.inserted(c, d).inserted(a, b).count(
                x,
                y,
            ),
{
    let ab = m.inserted(a, b);
    let cd = m.inserted(c, d);
    let abcd = ab.inserted(c, d);
    let cdab = cd.inserted(a, b);
    lemma_inserted_counts(m, a, b);
    lemma_inserted_counts(m, c, d);
    lemma_inserted_counts(ab, c, d);
    lemma_inserted_counts(cd, a, b);
    assert forall|x: K| abcd.classes.to_set().contains(x) <==> cdab.classes.to_set().contains(
        x,
    ) by {
        assert(abcd.classes.contains(x) <==> ab.classes.contains(x) || x == c || x == d);
        assert(cdab.classes.contains(x) <==> cd.classes.contains(x) || x == a || x == b);
        assert(ab.classes.contains(x) <==> m.classes.contains(x) || x == a || x == b);
        assert(cd.classes.contains(x) <==> m.classes.contains(x) || x == c || x == d);
    }
    assert(abcd.classes.to_set() =~= cdab.classes.to_set());
    abcd.classes.unique_seq_to_set();
    cdab.classes.unique_seq_to_set();
    assert forall|x: K, y: K| #[trigger] abcd.count(x, y) == cdab.count(x, y) by {
        assert(abcd.count(x, y) == ab.count(x, y) + if x == c && y == d {
            1nat
        } else {
            0nat
        });
        assert(ab.count(x, y) == m.count(x, y) + if x == a && y == b {
            1nat
        } else {
            0nat
        });
        assert(cdab.count(x, y) == cd.count(x, y) + if x == a && y == b {
            1nat
        } else {
            0nat
        });
        assert(cd.count(x, y) == m.count(x, y) + if x == c && y == d {
            1nat
        } else {
            0nat
        });
    }
}

/// The overall accuracy lies between zero and one: the observations on
/// the diagonal are among all observations.
pub proof fn law_accuracy_is_bounded<K>(m: ConfusionView<K>)
    requires
        m.wf(),
    ensures
        0 <= correct(m.cells) <= total(m.cells),
{
    lemma_correct_le_total(m.cells, m.classes.len());
}

/// A class that was never the gold class has no accuracy: its ratio is
/// zero of zero, which has no value.
pub proof fn law_unseen_gold_class_has_no_accuracy<K>(m: ConfusionView<K>, i: int)
    requires
        m.wf(),
        0 <= i < m.classes.len(),
        sum(m.cells[i]) == 0,
    ensures
        accuracy_of(m, i) == CellView::Ratio(0, 0),
{
    lemma_sum_bounds_element(m.cells[i], i);
}

/// Comparing one more token keeps the state of a run in order.
pub proof fn lemma_observed_wf(
    s: ScoreView,
    gold: (usize, Seq<char>),
    pred: (usize, Seq<char>),
    idx: usize,
)
    requires
        s.wf(),
    ensures
        s.observed(gold, pred, idx).wf(),
        s.observed(gold, pred, idx).total == s.total + 1,
{
    lemma_inserted_counts(s.deprels, gold.1, pred.1);
    lemma_inserted_counts(s.distances, gap(gold.0, idx), gap(pred.0, idx));
}

/// Comparing the first `n` tokens of two sentences keeps the state of a
/// run in order and counts `n` tokens.
pub proof fn lemma_scored_prefix_wf(
    s: ScoreView,
    gold: Seq<TokenView>,
    pred: Seq<TokenView>,
    n: nat,
)
    requires
        s.wf(),
    ensures
        s.scored_prefix(gold, pred, n).wf(),
        s.scored_prefix(gold, pred, n).total == s.total + n,
    decreases n,
{
    if n > 0 {
        lemma_scored_prefix_wf(s, gold, pred, (n - 1) as nat);
        lemma_observed_wf(
            s.scored_prefix(gold, pred, (n - 1) as nat),
            gold[n - 1].head.unwrap(),
            pred[n - 1].head.unwrap(),
            n as usize,
        );
    }
}

/// The labeled score never exceeds the unlabeled one: after a sentence has
/// been compared, the tokens with the right governor and label are among
/// those with the right governor, which are among all tokens compared.
pub proof fn law_labeled_within_unlabeled(s: ScoreView, gold: Seq<TokenView>, pred: Seq<TokenView>)
    requires
        s.wf(),
    ensures
        s.scored(gold, pred).wf(),
        s.scored(gold, pred).correct_head_label <= s.scored(gold, pred).correct_head,
        s.scored(gold, pred).correct_head <= s.scored(gold, pred).total,
        s.scored(gold, pred).total == s.total + gold.len(),
{
    lemma_scored_prefix_wf(s, gold, pred, gold.len());
}

/// The same holds of a whole run, wherever it ends without a fault, and
/// from whatever sound state it starts.
pub proof fn law_labeled_within_unlabeled_run(
    start: ScoreView,
    gold: Seq<Seq<TokenView>>,
    pred: Seq<Seq<TokenView>>,
    n: nat,
)
    requires
        start.wf(),
    ensures
        start.run(gold, pred, n) matches Ok(state) ==> state.wf() && state.correct_head_label
            <= state.correct_head && state.correct_head <= state.total,
    decreases n,
{
    if n > 0 {
        law_labeled_within_unlabeled_run(start, gold, pred, (n - 1) as nat);
        if let Ok(state) = start.run(gold, pred, (n - 1) as nat) {
            law_labeled_within_unlabeled(state, gold[n - 1], pred[n - 1]);
        }
    }
}

/// A difference in surface form at any position makes two sentences
/// misaligned, whatever else holds of them.
pub proof fn law_form_mismatch_is_misalignment(
    gold: Seq<TokenView>,
    pred: Seq<TokenView>,
    k: int,
)
    requires
        0 <= k < gold.len(),
        k < pred.len(),
        gold[k].form != pred[k].form,
    ensures
        fault(gold, pred) == Some(ScoreError::AlignmentMismatch),
{
}

} // verus!
