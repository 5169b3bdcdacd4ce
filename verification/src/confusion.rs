//! Confusion matrices: how often each gold class met each predicted class.

use crate::class::Class;
use crate::counts::Counts;
use crate::grid::{bumped, padded, square, total};
use crate::numberer::{numbered, Numberer};
use vstd::prelude::*;
use vstd::string::StringExecFns;

verus! {

/// What a confusion matrix holds: its name, its classes in numbering
/// order, and for each gold class (row) and predicted class (column) the
/// number of observations.
pub struct ConfusionView<K> {
    pub name: Seq<char>,
    pub classes: Seq<K>,
    pub cells: Seq<Seq<nat>>,
}

impl<K> ConfusionView<K> {
    /// No class occurs twice, and there is one row and one column for each
    /// class.
    pub open spec fn wf(self) -> bool {
        &&& self.classes.no_duplicates()
        &&& square(self.cells, self.classes.len())
    }

    /// How often `gold` was observed with the prediction `pred`; zero if
    /// either class is unknown.
    pub open spec fn count(self, gold: K, pred: K) -> nat {
        if self.classes.contains(gold) && self.classes.contains(pred) {
            self.cells[self.classes.index_of(gold)][self.classes.index_of(pred)]
        } else {
            0
        }
    }

    /// The matrix after one more observation of `gold` with the prediction
    /// `pred`: first `gold`, then `pred` is numbered, the cells are padded
    /// with zeros to the new dimension, and the one count rises by one.
    pub open spec fn inserted(self, gold: K, pred: K) -> ConfusionView<K> {
        let classes = numbered(numbered(self.classes, gold), pred);
        ConfusionView {
            name: self.name,
            classes,
            cells: bumped(
                padded(self.cells, classes.len()),
                classes.index_of(gold),
                classes.index_of(pred),
            ),
        }
    }
}

/// A confusion matrix over classes of type `V`, with the numbering of its
/// classes.
pub struct Confusion<V> {
    confusion: Counts,
    numberer: Numberer<V>,
    name: String,
}

impl<V: Class> View for Confusion<V> {
    type V = ConfusionView<V::V>;

    closed spec fn view(&self) -> ConfusionView<V::V> {
        ConfusionView { name: self.name@, classes: self.numberer@, cells: self.confusion@ }
    }
}

impl<V: Class> Confusion<V> {
    /// Whether the parts of the matrix are each in order.
    pub closed spec fn sound(&self) -> bool {
        &&& self.confusion.wf()
        &&& self.numberer.wf()
    }

    /// The matrix has one row and one column for each numbered class, and
    /// the sum of its counts fits the machine.
    pub open spec fn wf(&self) -> bool {
        &&& self@.wf()
        &&& total(self@.cells) <= usize::MAX
        &&& self.sound()
    }

    /// An empty matrix with the given name.
    pub fn new(name: &str) -> (confusion: Self)
        ensures
            confusion.wf(),
            confusion@ == (ConfusionView::<V::V> {
                name: name@,
                classes: Seq::empty(),
                cells: Seq::empty(),
            }),
    {
        Confusion {
            confusion: Counts::new(),
            numberer: Numberer::new(),
            name: String::from_str(name),
        }
    }

    /// Records one observation of the gold class `target` with the
    /// predicted class `prediction`.
    pub fn insert(&mut self, target: V, prediction: V)
        requires
            old(self).wf(),
            total(old(self)@.cells) < usize::MAX,
        ensures
            final(self).wf(),
            final(self)@ == old(self)@.inserted(target@, prediction@),
            total(final(self)@.cells) == total(old(self)@.cells) + 1,
    {
        let ghost gold = target@;
        let ghost pred = prediction@;
        let target_idx = self.numberer.number(target);
        let ghost first = self.numberer@;
        let pred_idx = self.numberer.number(prediction);
        let ghost classes = self.numberer@;
        assert(classes[target_idx as int] == gold) by {
            assert(classes[target_idx as int] == first[target_idx as int]);
        }
        assert(classes.contains(gold) && classes.contains(pred));
        assert(classes.index_of(gold) == target_idx);
        assert(classes.index_of(pred) == pred_idx);
        self.confusion.grow_to(self.numberer.len());
        self.confusion.increment(target_idx, pred_idx);
    }

    /// The numbering of the classes.
    pub fn numberer(&self) -> (numberer: &Numberer<V>)
        requires
            self.wf(),
        ensures
            numberer.wf(),
            numberer@ == self@.classes,
    {
        &self.numberer
    }

    /// The counts, by the numbers of the gold and the predicted class.
    pub fn counts(&self) -> (counts: &Counts)
        requires
            self.wf(),
        ensures
            counts.wf(),
            counts@ == self@.cells,
    {
        &self.confusion
    }

    /// The name of the matrix.
    pub fn name(&self) -> (name: &str)
        ensures
            name@ == self@.name,
    {
        self.name.as_str()
    }
}

} // verus!
