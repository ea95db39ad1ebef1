//! A set of names.

use vstd::prelude::*;
use crate::ingester::batch::names_view;

verus! {

/// A set of names, such as the columns of a table.
#[derive(Debug, PartialEq, Eq)]
pub struct NameSet {
    names: Vec<String>,
}

impl View for NameSet {
    type V = Set<Seq<char>>;

    closed spec fn view(&self) -> Set<Seq<char>> {
        names_view(self.names@).to_set()
    }
}

/// The names of a prefix, with the next name added, are the names of the
/// prefix that is one longer.
proof fn lemma_prefix_set(names: Seq<Seq<char>>, i: int)
    requires
        0 <= i < names.len(),
    ensures
        names.subrange(0, i + 1).to_set() == names.subrange(0, i).to_set().insert(names[i]),
        names.no_duplicates() ==> !names.subrange(0, i).to_set().contains(names[i]),
        names.subrange(0, i).to_set().finite(),
{
    assert(names.subrange(0, i + 1) =~= names.subrange(0, i).push(names[i]));
    names.subrange(0, i).lemma_push_to_set_commute(names[i]);
}

impl NameSet {
    #[verifier::type_invariant]
    spec fn distinct(self) -> bool {
        names_view(self.names@).no_duplicates()
    }

    /// The empty set.
    pub fn new() -> (s: Self)
        ensures
            s@ == Set::<Seq<char>>::empty(),
    {
        NameSet { names: Vec::new() }
    }

    /// Whether `name` is in the set.
    pub fn contains(&self, name: &String) -> (b: bool)
        ensures
            b == self@.contains(name@),
    {
        let mut i: usize = 0;
        while i < self.names.len()
            invariant
                i <= self.names@.len(),
                forall|j: int| 0 <= j < i ==> names_view(self.names@)[j] != name@,
            decreases self.names@.len() - i,
        {
            if self.names[i] == *name {
                assert(names_view(self.names@)[i as int] == name@);
                return true;
            }
            i = i + 1;
        }
        false
    }

    /// Adds `name` to the set.
    pub fn insert(&mut self, name: String)
        ensures
            final(self)@ == old(self)@.insert(name@),
    {
        proof {
            use_type_invariant(&*self);
        }
        if !self.contains(&name) {
            let mut names = self.names.clone();
            let ghost before = names_view(names@);
            names.push(name);
            proof {
                assert(names_view(names@) =~= before.push(name@));
                before.lemma_push_to_set_commute(name@);
            }
            self.names = names;
        }
    }

    /// The names of the set, each once, in no stated order.
    pub fn to_vec(&self) -> (out: Vec<String>)
        ensures
            names_view(out@).to_set() == self@,
            names_view(out@).no_duplicates(),
    {
        proof {
            use_type_invariant(self);
        }
        self.names.clone()
    }

    /// The set of the names in `names`.
    pub fn from_names(names: Vec<String>) -> (s: Self)
        ensures
            s@ == names_view(names@).to_set(),
    {
        let ghost all = names_view(names@);
        let mut names = names;
        let mut kept: Vec<String> = Vec::new();
        // The names are taken from the back; a name seen before is dropped.
        while names.len() > 0
            invariant
                names@.len() <= all.len(),
                names_view(names@) == all.subrange(0, names@.len() as int),
                names_view(kept@).no_duplicates(),
                names_view(kept@).to_set() == all.subrange(
                    names@.len() as int,
                    all.len() as int,
                ).to_set(),
            decreases names@.len(),
        {
            let ghost k = names@.len() - 1;
            let ghost tail = all.subrange(k + 1, all.len() as int);
            let ghost before = names_view(kept@);
            let ghost old_names = names@;
            let name = names.pop().unwrap();
            proof {
                assert(names_view(old_names)[k] == old_names[k]@);
                assert(all.subrange(k, all.len() as int) =~= seq![name@] + tail);
                vstd::seq_lib::seq_to_set_distributes_over_add(seq![name@], tail);
                Seq::<Seq<char>>::empty().lemma_push_to_set_commute(name@);
            }
            let candidate = NameSet::probe(&kept, &name);
            if !candidate {
                kept.push(name);
                proof {
                    assert(names_view(kept@) =~= before.push(name@));
                    before.lemma_push_to_set_commute(name@);
                }
            }
        }
        NameSet { names: kept }
    }

    fn probe(names: &Vec<String>, name: &String) -> (b: bool)
        ensures
            b == names_view(names@).contains(name@),
    {
        let mut i: usize = 0;
        while i < names.len()
            invariant
                i <= names@.len(),
                forall|j: int| 0 <= j < i ==> names_view(names@)[j] != name@,
            decreases names@.len() - i,
        {
            if names[i] == *name {
                assert(names_view(names@)[i as int] == name@);
                return true;
            }
            i = i + 1;
        }
        false
    }

    /// The number of names in the set.
    pub fn len(&self) -> (n: usize)
        ensures
            n == self@.len(),
    {
        proof {
            use_type_invariant(self);
            names_view(self.names@).unique_seq_to_set();
        }
        self.names.len()
    }

    /// The number of names that are in this set or in `other`.
    pub fn union_len(&self, other: &NameSet) -> (n: usize)
        requires
            self@.len() + other@.len() <= usize::MAX,
        ensures
            n == self@.union(other@).len(),
    {
        let ghost theirs = names_view(other.names@);
        proof {
            use_type_invariant(self);
            use_type_invariant(other);
            names_view(self.names@).unique_seq_to_set();
            theirs.unique_seq_to_set();
            assert(theirs.subrange(0, 0).to_set() =~= Set::<Seq<char>>::empty());
            assert(self@.union(Set::<Seq<char>>::empty()) =~= self@);
        }
        let mut n: usize = self.names.len();
        let mut i: usize = 0;
        while i < other.names.len()
            invariant
                i <= other.names@.len(),
                theirs == names_view(other.names@),
                theirs.no_duplicates(),
                self@.finite(),
                self@.len() == self.names@.len(),
                self.names@.len() + other.names@.len() <= usize::MAX,
                n == self@.union(theirs.subrange(0, i as int).to_set()).len(),
                n <= self.names@.len() + i,
            decreases other.names@.len() - i,
        {
            proof {
                lemma_prefix_set(theirs, i as int);
                let prefix = theirs.subrange(0, i as int).to_set();
                assert(self@.union(prefix.insert(theirs[i as int])) =~= self@.union(prefix).insert(
                    theirs[i as int],
                ));
            }
            if !self.contains(&other.names[i]) {
                n = n + 1;
            }
            i = i + 1;
        }
        assert(theirs.subrange(0, i as int) =~= theirs);
        n
    }
}

} // verus!
