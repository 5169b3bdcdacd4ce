//! Dense numbering of classes in the order in which they are first seen.

use crate::class::Class;
use vstd::prelude::*;

verus! {

/// The classes known after `v` has been numbered among `known`.
pub open spec fn numbered<K>(known: Seq<K>, v: K) -> Seq<K> {
    if known.contains(v) {
        known
    } else {
        known.push(v)
    }
}

/// The classes known after every value of `seen` has been numbered, in
/// order, starting from nothing.
pub open spec fn numbered_all<K>(seen: Seq<K>) -> Seq<K>
    decreases seen.len(),
{
    if seen.len() == 0 {
        Seq::empty()
    } else {
        numbered(numbered_all(seen.drop_last()), seen.last())
    }
}

/// Assigns each distinct class the next free index, starting at zero.
/// Indices are never reused or reordered.
pub struct Numberer<V> {
    idx2val: Vec<V>,
}

impl<V: Class> View for Numberer<V> {
    type V = Seq<V::V>;

    /// The known classes; the class at position `i` has the number `i`.
    closed spec fn view(&self) -> Seq<V::V> {
        self.idx2val@.map_values(|v: V| v@)
    }
}

impl<V: Class> Numberer<V> {
    /// No class is numbered twice.
    pub open spec fn wf(&self) -> bool {
        self@.no_duplicates()
    }

    /// A numberer that knows no class.
    pub fn new() -> (numberer: Self)
        ensures
            numberer.wf(),
            numberer@ == Seq::<V::V>::empty(),
    {
        let numberer = Numberer { idx2val: Vec::new() };
        assert(numberer@ =~= Seq::<V::V>::empty());
        numberer
    }

    /// The position of the class of `val` among the known values, if it is
    /// known.
    fn find(&self, val: &V) -> (found: Option<usize>)
        ensures
            found is Some <==> self@.contains(val@),
            found matches Some(idx) ==> idx < self@.len() && self@[idx as int] == val@,
    {
        let mut idx: usize = 0;
        while idx < self.idx2val.len()
            invariant
                idx <= self.idx2val.len(),
                forall|k: int| 0 <= k < idx ==> self@[k] != val@,
            decreases self.idx2val.len() - idx,
        {
            if self.idx2val[idx].same(val) {
                assert(self@[idx as int] == val@);
                return Some(idx);
            }
            idx += 1;
        }
        None
    }

    /// The number of the class of `val`, which is given the next free
    /// number if it is not yet known.
    pub fn number(&mut self, val: V) -> (idx: usize)
        requires
            old(self).wf(),
        ensures
            final(self).wf(),
            final(self)@ == numbered(old(self)@, val@),
            idx < final(self)@.len(),
            final(self)@[idx as int] == val@,
            old(self)@.contains(val@) ==> idx == old(self)@.index_of(val@),
            !old(self)@.contains(val@) ==> idx == old(self)@.len(),
    {
        match self.find(&val) {
            Some(idx) => {
                assert(old(self)@.index_of(val@) == idx) by {
                    let k = old(self)@.index_of(val@);
                    assert(0 <= k < old(self)@.len() && old(self)@[k] == val@);
                }
                idx
            },
            None => {
                let n_vals = self.idx2val.len();
                self.idx2val.push(val);
                assert(self@ =~= old(self)@.push(val@));
                n_vals
            },
        }
    }

    /// The number of the class of `val`, if it is known.
    pub fn get_number(&self, val: &V) -> (number: Option<usize>)
        requires
            self.wf(),
        ensures
            number is Some <==> self@.contains(val@),
            number matches Some(idx) ==> idx < self@.len() && self@[idx as int] == val@ && idx
                == self@.index_of(val@),
    {
        let number = self.find(val);
        assert(number matches Some(idx) ==> idx == self@.index_of(val@)) by {
            if self@.contains(val@) {
                let k = self@.index_of(val@);
                assert(0 <= k < self@.len() && self@[k] == val@);
            }
        }
        number
    }

    /// How many classes are known.
    pub fn len(&self) -> (n: usize)
        ensures
            n == self@.len(),
    {
        self.idx2val.len()
    }

    /// Whether no class is known.
    pub fn is_empty(&self) -> (empty: bool)
        ensures
            empty == (self@.len() == 0),
    {
        self.idx2val.len() == 0
    }

    /// The value that was given the number `idx`, if any was.
    pub fn get_val(&self, idx: usize) -> (val: Option<&V>)
        ensures
            val is Some <==> idx < self@.len(),
            val matches Some(v) ==> v@ == self@[idx as int],
    {
        if idx < self.idx2val.len() {
            Some(&self.idx2val[idx])
        } else {
            None
        }
    }
}

} // verus!
