//! The sort key of a partition: the ordered columns by which the rows of
//! its files are sorted, by name and by catalog id.

use vstd::prelude::*;
use crate::ingester::batch::names_view;

verus! {

/// The sort key by column name, most significant column first.
#[derive(Debug, PartialEq, Eq)]
pub struct SortKey {
    pub columns: Vec<String>,
}

impl View for SortKey {
    type V = Seq<Seq<char>>;

    open spec fn view(&self) -> Seq<Seq<char>> {
        names_view(self.columns@)
    }
}

/// The names of `names`, copied.
pub fn copy_names(names: &Vec<String>) -> (out: Vec<String>)
    ensures
        names_view(out@) == names_view(names@),
{
    let mut out: Vec<String> = Vec::new();
    let mut i: usize = 0;
    while i < names.len()
        invariant
            i <= names@.len(),
            names_view(out@) == names_view(names@.subrange(0, i as int)),
        decreases names@.len() - i,
    {
        out.push(names[i].clone());
        proof {
            assert(names_view(names@.subrange(0, i + 1)) =~= names_view(
                names@.subrange(0, i as int),
            ).push(names@[i as int]@));
        }
        i = i + 1;
    }
    out
}

/// Whether the two lists hold the same names in the same order.
pub fn same_names(a: &Vec<String>, b: &Vec<String>) -> (eq: bool)
    ensures
        eq == (names_view(a@) == names_view(b@)),
{
    if a.len() != b.len() {
        return false;
    }
    let mut i: usize = 0;
    while i < a.len()
        invariant
            i <= a@.len(),
            a@.len() == b@.len(),
            forall|j: int| 0 <= j < i ==> names_view(a@)[j] == names_view(b@)[j],
        decreases a@.len() - i,
    {
        if a[i] != b[i] {
            assert(names_view(a@)[i as int] != names_view(b@)[i as int]);
            return false;
        }
        i = i + 1;
    }
    assert(names_view(a@) =~= names_view(b@));
    true
}

impl SortKey {
    /// The sort key over `columns`, in that order.
    pub fn from_columns(columns: Vec<String>) -> (k: Self)
        ensures
            k@ == names_view(columns@),
    {
        SortKey { columns }
    }

    /// The number of columns.
    pub fn len(&self) -> (n: usize)
        ensures
            n == self@.len(),
    {
        self.columns.len()
    }

    /// The column names, in order.
    pub fn to_columns(&self) -> (out: Vec<String>)
        ensures
            names_view(out@) == self@,
    {
        copy_names(&self.columns)
    }

    /// A copy of this key.
    pub fn duplicate(&self) -> (k: Self)
        ensures
            k@ == self@,
    {
        SortKey { columns: copy_names(&self.columns) }
    }

    /// Whether `other` names the same columns in the same order.
    pub fn same_as(&self, other: &SortKey) -> (eq: bool)
        ensures
            eq == (self@ == other@),
    {
        same_names(&self.columns, &other.columns)
    }
}

/// The sort key by column id, in the order of the [`SortKey`].
#[derive(Debug, PartialEq, Eq)]
pub struct SortedColumnSet {
    pub ids: Vec<i64>,
}

impl View for SortedColumnSet {
    type V = Seq<i64>;

    open spec fn view(&self) -> Seq<i64> {
        self.ids@
    }
}

impl SortedColumnSet {
    /// The set over `ids`, in that order.
    pub fn from(ids: Vec<i64>) -> (s: Self)
        ensures
            s@ == ids@,
    {
        SortedColumnSet { ids }
    }

    /// The number of columns.
    pub fn len(&self) -> (n: usize)
        ensures
            n == self@.len(),
    {
        self.ids.len()
    }

    /// Whether there is no column.
    pub fn is_empty(&self) -> (b: bool)
        ensures
            b == (self@.len() == 0),
    {
        self.ids.len() == 0
    }

    /// A copy of this set.
    pub fn duplicate(&self) -> (s: Self)
        ensures
            s@ == self@,
    {
        let ids = self.ids.clone();
        assert(ids@ =~= self.ids@);
        SortedColumnSet { ids }
    }

    /// Whether `other` holds the same ids in the same order.
    pub fn same_as(&self, other: &SortedColumnSet) -> (eq: bool)
        ensures
            eq == (self@ == other@),
    {
        if self.ids.len() != other.ids.len() {
            return false;
        }
        let mut i: usize = 0;
        while i < self.ids.len()
            invariant
                i <= self.ids@.len(),
                self.ids@.len() == other.ids@.len(),
                forall|j: int| 0 <= j < i ==> self.ids@[j] == other.ids@[j],
            decreases self.ids@.len() - i,
        {
            if self.ids[i] != other.ids[i] {
                return false;
            }
            i = i + 1;
        }
        assert(self.ids@ =~= other.ids@);
        true
    }
}

/// What a partition knows of its sort key.
#[derive(Debug)]
pub enum SortKeyState {
    /// Not fetched from the catalog yet; whoever needs it has to load it.
    Deferred,
    /// Known: the key by name and by id, either of which the catalog may
    /// not have yet.
    Provided(Option<SortKey>, Option<SortedColumnSet>),
}

/// An optional [`SortKey`] as a mathematical value.
pub open spec fn key_view(key: Option<SortKey>) -> Option<Seq<Seq<char>>> {
    match key {
        None => None,
        Some(k) => Some(k@),
    }
}

/// An optional [`SortedColumnSet`] as a mathematical value.
pub open spec fn ids_view(ids: Option<SortedColumnSet>) -> Option<Seq<i64>> {
    match ids {
        None => None,
        Some(s) => Some(s@),
    }
}

/// A [`SortKeyState`] as a mathematical value.
pub enum SortKeyStateView {
    Deferred,
    Provided(Option<Seq<Seq<char>>>, Option<Seq<i64>>),
}

impl View for SortKeyState {
    type V = SortKeyStateView;

    open spec fn view(&self) -> SortKeyStateView {
        match self {
            SortKeyState::Deferred => SortKeyStateView::Deferred,
            SortKeyState::Provided(k, ids) => SortKeyStateView::Provided(
                key_view(*k),
                ids_view(*ids),
            ),
        }
    }
}

/// A copy of an optional sort key.
pub fn copy_key(key: &Option<SortKey>) -> (out: Option<SortKey>)
    ensures
        key_view(out) == key_view(*key),
{
    match key {
        None => None,
        Some(k) => Some(k.duplicate()),
    }
}

/// A copy of an optional column-id set.
pub fn copy_ids(ids: &Option<SortedColumnSet>) -> (out: Option<SortedColumnSet>)
    ensures
        ids_view(out) == ids_view(*ids),
{
    match ids {
        None => None,
        Some(s) => Some(s.duplicate()),
    }
}

impl SortKeyState {
    /// The key by name, when it is known: `None` means that it has to be
    /// loaded first, `Some(None)` that the partition has no sort key yet.
    pub fn get_sort_key(&self) -> (out: Option<Option<SortKey>>)
        ensures
            self@ is Deferred <==> out is None,
            self@ matches SortKeyStateView::Provided(k, _) ==> out is Some && key_view(out->0)
                == k,
    {
        match self {
            SortKeyState::Deferred => None,
            SortKeyState::Provided(k, _) => Some(copy_key(k)),
        }
    }

    /// The key by id, when it is known.
    pub fn get_sort_key_ids(&self) -> (out: Option<Option<SortedColumnSet>>)
        ensures
            self@ is Deferred <==> out is None,
            self@ matches SortKeyStateView::Provided(_, ids) ==> out is Some && ids_view(out->0)
                == ids,
    {
        match self {
            SortKeyState::Deferred => None,
            SortKeyState::Provided(_, ids) => Some(copy_ids(ids)),
        }
    }

    /// Both the key by name and the key by id, when they are known.
    pub fn get(&self) -> (out: Option<(Option<SortKey>, Option<SortedColumnSet>)>)
        ensures
            self@ is Deferred <==> out is None,
            self@ matches SortKeyStateView::Provided(k, ids) ==> (out matches Some(pair)
                && key_view(pair.0) == k && ids_view(pair.1) == ids),
    {
        match self {
            SortKeyState::Deferred => None,
            SortKeyState::Provided(k, ids) => Some((copy_key(k), copy_ids(ids))),
        }
    }
}

} // verus!
