use crate::errors::RepositoryError;
use vstd::prelude::*;

verus! {

/// Mathematical view of a stored label: its id and its name.
pub ghost struct LabelView {
    pub id: int,
    pub name: Seq<char>,
}

/// A persisted label: a server-assigned unique id and a name.
///
/// Values handed out by a repository are immutable snapshots; they do not
/// track later changes to the store.
#[derive(Debug, PartialEq, Eq)]
pub struct Label {
    pub id: i32,
    pub name: String,
}

impl View for Label {
    type V = LabelView;

    open spec fn view(&self) -> LabelView {
        LabelView { id: self.id as int, name: self.name@ }
    }
}

impl Clone for Label {
    fn clone(&self) -> (r: Self)
        ensures
            r@ == self@,
    {
        Label { id: self.id, name: self.name.clone() }
    }
}

impl Label {
    pub fn new(id: i32, name: String) -> (r: Self)
        ensures
            r@ == (LabelView { id: id as int, name: name@ }),
    {
        Label { id, name }
    }
}

/// Command to create a label. The name must be validated (1 to 100
/// characters) before the command reaches a repository.
#[derive(Debug, PartialEq, Eq)]
pub struct CreateLabel {
    pub name: String,
}

impl CreateLabel {
    /// The field-level validation rule for a label name.
    pub open spec fn valid(&self) -> bool {
        1 <= self.name@.len() <= 100
    }

    /// Checks the validation rule: the name holds 1 to 100 characters.
    pub fn validate(&self) -> (r: bool)
        ensures
            r == self.valid(),
    {
        let n: usize = self.name.as_str().unicode_len();
        1 <= n && n <= 100
    }
}

/// Command to partially update a label: a missing name leaves the stored
/// name unchanged.
#[derive(Debug, PartialEq, Eq)]
pub struct UpdateLabel {
    pub name: Option<String>,
}

impl UpdateLabel {
    /// A supplied name must satisfy the same rule as on create.
    pub open spec fn valid(&self) -> bool {
        match self.name {
            Some(n) => 1 <= n@.len() <= 100,
            None => true,
        }
    }

    pub fn validate(&self) -> (r: bool)
        ensures
            r == self.valid(),
    {
        match &self.name {
            Some(n) => {
                let len: usize = n.as_str().unicode_len();
                1 <= len && len <= 100
            },
            None => true,
        }
    }
}

/// The labels are sorted strictly ascending by id (so ids are unique).
pub open spec fn sorted_by_id(s: Seq<LabelView>) -> bool {
    forall|i: int, j: int| 0 <= i < j < s.len() ==> s[i].id < s[j].id
}

/// Some stored label carries the id.
pub open spec fn contains_id(s: Seq<LabelView>, id: int) -> bool {
    exists|i: int| 0 <= i < s.len() && (#[trigger] s[i]).id == id
}

/// The position of the label with the given id (meaningful when
/// `contains_id` holds and the ids are unique).
pub open spec fn id_index(s: Seq<LabelView>, id: int) -> int {
    choose|i: int| 0 <= i < s.len() && (#[trigger] s[i]).id == id
}

/// Some stored label carries the name.
pub open spec fn contains_name(s: Seq<LabelView>, name: Seq<char>) -> bool {
    exists|i: int| 0 <= i < s.len() && (#[trigger] s[i]).name == name
}

/// `d` is the id of the first stored label (in id order) named `name`.
pub open spec fn first_id_with_name(s: Seq<LabelView>, name: Seq<char>, d: int) -> bool {
    exists|i: int|
        {
            &&& 0 <= i < s.len()
            &&& (#[trigger] s[i]).name == name
            &&& s[i].id == d
            &&& forall|j: int| 0 <= j < i ==> (#[trigger] s[j]).name != name
        }
}

/// In a sequence with unique ids, `id_index` recovers the position of each
/// element from its id.
pub proof fn lemma_id_index_unique(s: Seq<LabelView>, i: int)
    requires
        sorted_by_id(s),
        0 <= i < s.len(),
    ensures
        contains_id(s, s[i].id),
        id_index(s, s[i].id) == i,
{
    assert(contains_id(s, s[i].id));
    let j = id_index(s, s[i].id);
    if j < i {
        assert(s[j].id < s[i].id);
    } else if i < j {
        assert(s[i].id < s[j].id);
    }
}

/// Removing an element of a sequence with ascending ids keeps the ids
/// ascending, and the removed id is gone.
pub proof fn lemma_remove_keeps_sorted(s: Seq<LabelView>, i: int)
    requires
        sorted_by_id(s),
        0 <= i < s.len(),
    ensures
        sorted_by_id(s.remove(i)),
        !contains_id(s.remove(i), s[i].id),
{
    let t = s.remove(i);
    assert forall|p: int, q: int| 0 <= p < q < t.len() implies t[p].id < t[q].id by {
        assert(t[p] == (if p < i { s[p] } else { s[p + 1] }));
        assert(t[q] == (if q < i { s[q] } else { s[q + 1] }));
    }
    assert forall|p: int| 0 <= p < t.len() implies t[p].id != s[i].id by {
        assert(t[p] == (if p < i { s[p] } else { s[p + 1] }));
    }
}

/// Appending a label whose id exceeds every stored id keeps the ids
/// ascending.
pub proof fn lemma_push_keeps_sorted(s: Seq<LabelView>, v: LabelView)
    requires
        sorted_by_id(s),
        forall|i: int| 0 <= i < s.len() ==> (#[trigger] s[i]).id < v.id,
    ensures
        sorted_by_id(s.push(v)),
{
    let t = s.push(v);
    assert forall|p: int, q: int| 0 <= p < q < t.len() implies t[p].id < t[q].id by {
        assert(t[p] == s[p]);
        assert(t[q] == (if q < s.len() { s[q] } else { v }));
    }
}

/// The repository capability for labels: the abstract contract every
/// backend satisfies, independent of storage technology.
///
/// `labels()` is the abstract state: the stored labels ascending by id.
/// `Unexpected` stands for a storage fault; the verified in-memory backend
/// raises it only when the id space is exhausted (`at_capacity`), while the
/// durable backend — which lives outside the verified core because it talks
/// to a relational store — may raise it on any connectivity loss.
pub trait LabelRepository: Sized {
    /// The stored labels, ascending by id.
    spec fn labels(&self) -> Seq<LabelView>;

    /// The backend's internal well-formedness.
    spec fn inv(&self) -> bool;

    /// No further id can be assigned.
    spec fn at_capacity(&self) -> bool;

    /// Every well-formed backend keeps its labels strictly ascending by id.
    proof fn inv_sorted(&self)
        requires
            self.inv(),
        ensures
            sorted_by_id(self.labels()),
    ;

    /// Creates a label with a fresh id greater than every stored id, unless
    /// a label with the same name already exists, in which case the create
    /// is rejected with `Duplicate` carrying the conflicting id and the
    /// store is unchanged.
    fn create(&mut self, payload: CreateLabel) -> (r: Result<Label, RepositoryError>)
        requires
            old(self).inv(),
        ensures
            final(self).inv(),
            match r {
                Ok(l) => {
                    &&& !old(self).at_capacity()
                    &&& !contains_name(old(self).labels(), payload.name@)
                    &&& l@.name == payload.name@
                    &&& forall|i: int|
                        0 <= i < old(self).labels().len() ==> (#[trigger] old(
                            self,
                        ).labels()[i]).id < l@.id
                    &&& final(self).labels() =~= old(self).labels().push(l@)
                },
                Err(RepositoryError::Duplicate(d)) => {
                    &&& contains_name(old(self).labels(), payload.name@)
                    &&& first_id_with_name(old(self).labels(), payload.name@, d as int)
                    &&& final(self).labels() =~= old(self).labels()
                },
                Err(RepositoryError::Unexpected(_)) => {
                    &&& old(self).at_capacity()
                    &&& !contains_name(old(self).labels(), payload.name@)
                    &&& final(self).labels() =~= old(self).labels()
                },
                Err(RepositoryError::NotFound(_)) => false,
            },
    ;

    /// Returns the label with the given id, or `NotFound(id)` exactly when
    /// no stored label carries it.
    fn find(&self, id: i32) -> (r: Result<Label, RepositoryError>)
        requires
            self.inv(),
        ensures
            match r {
                Ok(l) => {
                    &&& contains_id(self.labels(), id as int)
                    &&& l@ == self.labels()[id_index(self.labels(), id as int)]
                    &&& l@.id == id as int
                },
                Err(RepositoryError::NotFound(n)) => {
                    &&& n == id
                    &&& !contains_id(self.labels(), id as int)
                },
                Err(_) => false,
            },
    ;

    /// Returns the labels owned by the given user. The verified in-memory
    /// backend does not model the owner association and returns every
    /// stored label whatever the owner; it is therefore scoped to
    /// owner-agnostic use.
    fn find_by_user(&self, user_id: i32) -> (r: Result<Vec<Label>, RepositoryError>)
        requires
            self.inv(),
        ensures
            match r {
                Ok(v) => {
                    &&& v@.len() == self.labels().len()
                    &&& forall|i: int|
                        0 <= i < v@.len() ==> (#[trigger] v@[i])@ == self.labels()[i]
                },
                Err(_) => false,
            },
    ;

    /// Returns every stored label, ascending by id.
    fn all(&self) -> (r: Result<Vec<Label>, RepositoryError>)
        requires
            self.inv(),
        ensures
            match r {
                Ok(v) => {
                    &&& v@.len() == self.labels().len()
                    &&& forall|i: int|
                        0 <= i < v@.len() ==> (#[trigger] v@[i])@ == self.labels()[i]
                },
                Err(_) => false,
            },
    ;

    /// Partially updates the label with the given id: a missing name in the
    /// command retains the stored name. Yields `NotFound(id)` exactly when
    /// no stored label carries the id, leaving the store unchanged.
    fn update(&mut self, id: i32, payload: UpdateLabel) -> (r: Result<Label, RepositoryError>)
        requires
            old(self).inv(),
        ensures
            final(self).inv(),
            match r {
                Ok(l) => {
                    &&& contains_id(old(self).labels(), id as int)
                    &&& l@.id == id as int
                    &&& l@.name == match payload.name {
                        Some(n) => n@,
                        None => old(self).labels()[id_index(old(self).labels(), id as int)].name,
                    }
                    &&& final(self).labels() =~= old(self).labels().update(
                        id_index(old(self).labels(), id as int),
                        l@,
                    )
                },
                Err(RepositoryError::NotFound(n)) => {
                    &&& n == id
                    &&& !contains_id(old(self).labels(), id as int)
                    &&& final(self).labels() =~= old(self).labels()
                },
                Err(_) => false,
            },
            (r is Ok && payload.name is None) ==> final(self).labels() =~= old(self).labels(),
    ;

    /// Deletes the label with the given id. Yields `NotFound(id)` exactly
    /// when no stored label carries the id, leaving the store unchanged.
    fn delete(&mut self, id: i32) -> (r: Result<(), RepositoryError>)
        requires
            old(self).inv(),
        ensures
            final(self).inv(),
            match r {
                Ok(_) => {
                    &&& contains_id(old(self).labels(), id as int)
                    &&& final(self).labels() =~= old(self).labels().remove(
                        id_index(old(self).labels(), id as int),
                    )
                },
                Err(RepositoryError::NotFound(n)) => {
                    &&& n == id
                    &&& !contains_id(old(self).labels(), id as int)
                    &&& final(self).labels() =~= old(self).labels()
                },
                Err(_) => false,
            },
    ;
}

/// The volatile in-memory backend: a process-local list of labels kept
/// ascending by id, with a monotonic id counter (ids are never reused after
/// a delete).
#[derive(Debug)]
pub struct LabelRepositoryForMemory {
    entries: Vec<Label>,
    next_id: i32,
}

impl LabelRepositoryForMemory {
    /// An empty store whose first assigned id is 1.
    pub fn new() -> (r: Self)
        ensures
            r.inv(),
            r.labels() =~= Seq::<LabelView>::empty(),
            !r.at_capacity(),
    {
        let r = LabelRepositoryForMemory { entries: Vec::new(), next_id: 1 };
        r
    }

    /// Position of the first entry with the given name, scanning ascending
    /// by id.
    fn index_of_name(&self, name: &String) -> (r: Option<usize>)
        ensures
            match r {
                Some(i) => {
                    &&& i < self.entries@.len()
                    &&& (self.entries@[i as int])@.name == name@
                    &&& forall|j: int|
                        0 <= j < i ==> (#[trigger] self.entries@[j])@.name != name@
                },
                None => forall|j: int|
                    0 <= j < self.entries@.len() ==> (#[trigger] self.entries@[j])@.name != name@,
            },
    {
        let n: usize = self.entries.len();
        let mut i: usize = 0;
        while i < n
            invariant
                n == self.entries@.len(),
                i <= n,
                forall|j: int| 0 <= j < i ==> (#[trigger] self.entries@[j])@.name != name@,
            decreases n - i,
        {
            if self.entries[i].name.eq(name) {
                return Some(i);
            }
            i += 1;
        }
        None
    }

    /// Position of the entry with the given id.
    fn index_of_id(&self, id: i32) -> (r: Option<usize>)
        ensures
            match r {
                Some(i) => {
                    &&& i < self.entries@.len()
                    &&& (self.entries@[i as int])@.id == id as int
                },
                None => forall|j: int|
                    0 <= j < self.entries@.len() ==> (#[trigger] self.entries@[j])@.id != id as int,
            },
    {
        let n: usize = self.entries.len();
        let mut i: usize = 0;
        while i < n
            invariant
                n == self.entries@.len(),
                i <= n,
                forall|j: int| 0 <= j < i ==> (#[trigger] self.entries@[j])@.id != id as int,
            decreases n - i,
        {
            if self.entries[i].id == id {
                return Some(i);
            }
            i += 1;
        }
        None
    }
}

impl LabelRepository for LabelRepositoryForMemory {
    closed spec fn labels(&self) -> Seq<LabelView> {
        Seq::new(self.entries@.len(), |i: int| self.entries@[i]@)
    }

    closed spec fn inv(&self) -> bool {
        &&& sorted_by_id(self.labels())
        &&& 1 <= self.next_id
        &&& forall|i: int|
            0 <= i < self.entries@.len() ==> 1 <= (#[trigger] self.entries@[i])@.id
                < self.next_id
    }

    closed spec fn at_capacity(&self) -> bool {
        self.next_id == i32::MAX
    }

    proof fn inv_sorted(&self) {
    }

    fn create(&mut self, payload: CreateLabel) -> (r: Result<Label, RepositoryError>) {
        match self.index_of_name(&payload.name) {
            Some(i) => {
                let d: i32 = self.entries[i].id;
                proof {
                    assert(old(self).labels()[i as int].name == payload.name@);
                    assert(contains_name(old(self).labels(), payload.name@));
                    assert(first_id_with_name(old(self).labels(), payload.name@, d as int));
                }
                Err(RepositoryError::Duplicate(d))
            },
            None => {
                proof {
                    assert(!contains_name(self.labels(), payload.name@));
                }
                if self.next_id == i32::MAX {
                    Err(
                        RepositoryError::Unexpected(
                            String::from_str("label id space exhausted"),
                        ),
                    )
                } else {
                    let id: i32 = self.next_id;
                    self.next_id = id + 1;
                    let label = Label { id, name: payload.name };
                    let out = label.clone();
                    proof {
                        lemma_push_keeps_sorted(old(self).labels(), label@);
                    }
                    self.entries.push(label);
                    proof {
                        assert(self.labels() =~= old(self).labels().push(out@));
                    }
                    Ok(out)
                }
            },
        }
    }

    fn find(&self, id: i32) -> (r: Result<Label, RepositoryError>) {
        match self.index_of_id(id) {
            Some(i) => {
                proof {
                    lemma_id_index_unique(self.labels(), i as int);
                }
                Ok(self.entries[i].clone())
            },
            None => Err(RepositoryError::NotFound(id)),
        }
    }

    fn find_by_user(&self, _user_id: i32) -> (r: Result<Vec<Label>, RepositoryError>) {
        self.all()
    }

    fn all(&self) -> (r: Result<Vec<Label>, RepositoryError>) {
        let n: usize = self.entries.len();
        let mut out: Vec<Label> = Vec::new();
        let mut i: usize = 0;
        while i < n
            invariant
                n == self.entries@.len(),
                i <= n,
                out@.len() == i,
                forall|j: int| 0 <= j < i ==> (#[trigger] out@[j])@ == self.labels()[j],
            decreases n - i,
        {
            out.push(self.entries[i].clone());
            i += 1;
        }
        Ok(out)
    }

    fn update(&mut self, id: i32, payload: UpdateLabel) -> (r: Result<Label, RepositoryError>) {
        match self.index_of_id(id) {
            None => Err(RepositoryError::NotFound(id)),
            Some(i) => {
                proof {
                    lemma_id_index_unique(old(self).labels(), i as int);
                }
                let had_name = payload.name.is_some();
                let new_name = match payload.name {
                    Some(n) => n,
                    None => self.entries[i].name.clone(),
                };
                let updated = Label { id: self.entries[i].id, name: new_name };
                let out = updated.clone();
                self.entries.set(i, updated);
                proof {
                    assert(self.labels() =~= old(self).labels().update(i as int, out@));
                    assert forall|p: int, q: int|
                        0 <= p < q < self.labels().len() implies self.labels()[p].id
                        < self.labels()[q].id by {
                        assert(old(self).labels()[p].id < old(self).labels()[q].id);
                    }
                    if !had_name {
                        assert(self.labels() =~= old(self).labels());
                    }
                }
                Ok(out)
            },
        }
    }

    fn delete(&mut self, id: i32) -> (r: Result<(), RepositoryError>) {
        match self.index_of_id(id) {
            None => Err(RepositoryError::NotFound(id)),
            Some(i) => {
                proof {
                    lemma_id_index_unique(old(self).labels(), i as int);
                    lemma_remove_keeps_sorted(old(self).labels(), i as int);
                }
                self.entries.remove(i);
                proof {
                    assert(self.labels() =~= old(self).labels().remove(i as int));
                }
                Ok(())
            },
        }
    }
}

} // verus!
