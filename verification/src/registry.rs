//! Process-wide, append-only collections of test contributions.
//!
//! A registry collects zero-argument entry functions contributed from
//! arbitrary, unrelated places in a program. It has a strict two-phase
//! lifecycle: entries are appended while the program is being wired up, and
//! the aggregator then reads the finished collection. There is no operation
//! that removes or reorders an entry, so every contribution survives until
//! aggregation, in contribution order.

use vstd::prelude::*;

verus! {

/// An append-only collection of contribution entries.
///
/// The view of a registry is the sequence of its entries, in the order in
/// which they were contributed.
pub struct Registry<F> {
    entries: Vec<F>,
}

impl<F> View for Registry<F> {
    type V = Seq<F>;

    closed spec fn view(&self) -> Seq<F> {
        self.entries@
    }
}

impl<F> Registry<F> {
    /// An empty registry, to which contribution sites then append.
    pub fn new() -> (r: Self)
        ensures
            r@ == Seq::<F>::empty(),
    {
        Registry { entries: Vec::new() }
    }

    /// Appends one contributed entry. Nothing already contributed moves or
    /// disappears: the new entry stands at the end.
    pub fn add(&mut self, entry: F)
        ensures
            final(self)@ == old(self)@.push(entry),
    {
        self.entries.push(entry);
    }

    /// The number of entries contributed so far.
    pub fn len(&self) -> (n: usize)
        ensures
            n == self@.len(),
    {
        self.entries.len()
    }

    /// Reads the entry at position `i`. Reading is pure: it returns exactly
    /// the entry that was contributed, so repeated reads of one registry
    /// always yield the same entries in the same order.
    pub fn get(&self, i: usize) -> (entry: &F)
        requires
            i < self@.len(),
        ensures
            *entry == self@[i as int],
    {
        &self.entries[i]
    }
}

} // verus!
