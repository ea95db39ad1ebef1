//! Sequence numbers of writes, and sets of them.

use vstd::prelude::*;

verus! {

/// The per-table sequence number a writer gave to a write.
#[derive(Debug, Clone, Copy, PartialEq, Eq, Structural)]
pub struct SequenceNumber(pub u64);

impl SequenceNumber {
    pub fn new(v: u64) -> (s: Self)
        ensures
            s.0 == v,
    {
        SequenceNumber(v)
    }

    pub fn get(&self) -> (v: u64)
        ensures
            v == self.0,
    {
        self.0
    }
}

/// The greater of two optional sequence numbers, where an absent one is
/// below every present one.
pub open spec fn max_sequence(a: Option<u64>, b: Option<u64>) -> Option<u64> {
    match (a, b) {
        (None, _) => b,
        (_, None) => a,
        (Some(x), Some(y)) => if x >= y {
            a
        } else {
            b
        },
    }
}

/// The greater of two optional sequence numbers, where an absent one is
/// below every present one.
pub fn max_of_sequences(a: Option<u64>, b: Option<u64>) -> (m: Option<u64>)
    ensures
        m == max_sequence(a, b),
{
    match (a, b) {
        (None, _) => b,
        (_, None) => a,
        (Some(x), Some(y)) => if x >= y {
            a
        } else {
            b
        },
    }
}

/// A set of sequence numbers.
#[derive(Debug)]
pub struct SequenceNumberSet {
    items: Vec<u64>,
}

impl View for SequenceNumberSet {
    type V = Set<u64>;

    closed spec fn view(&self) -> Set<u64> {
        self.items@.to_set()
    }
}

impl SequenceNumberSet {
    #[verifier::type_invariant]
    spec fn distinct(self) -> bool {
        self.items@.no_duplicates()
    }

    /// The empty set.
    pub fn new() -> (s: Self)
        ensures
            s@ == Set::<u64>::empty(),
    {
        SequenceNumberSet { items: Vec::new() }
    }

    /// Whether `n` is in the set.
    pub fn contains(&self, n: SequenceNumber) -> (b: bool)
        ensures
            b == self@.contains(n.0),
    {
        let mut i: usize = 0;
        while i < self.items.len()
            invariant
                i <= self.items@.len(),
                forall|j: int| 0 <= j < i ==> self.items@[j] != n.0,
            decreases self.items@.len() - i,
        {
            if self.items[i] == n.0 {
                return true;
            }
            i = i + 1;
        }
        false
    }

    /// Adds `n` to the set.
    pub fn add(&mut self, n: SequenceNumber)
        ensures
            final(self)@ == old(self)@.insert(n.0),
    {
        proof {
            use_type_invariant(&*self);
        }
        if !self.contains(n) {
            let mut items = self.items.clone();
            proof {
                items@.lemma_push_to_set_commute(n.0);
            }
            items.push(n.0);
            self.items = items;
        }
    }

    /// The number of sequence numbers in the set.
    pub fn len(&self) -> (n: usize)
        ensures
            n == self@.len(),
    {
        proof {
            use_type_invariant(self);
            self.items@.unique_seq_to_set();
        }
        self.items.len()
    }

    /// The members of the set, each once, in no stated order.
    pub fn to_vec(&self) -> (out: Vec<u64>)
        ensures
            out@.to_set() == self@,
            out@.no_duplicates(),
    {
        proof {
            use_type_invariant(self);
        }
        self.items.clone()
    }
}

} // verus!
