use crate::errors::RepositoryError;
use vstd::prelude::*;

verus! {

/// Mathematical view of a stored item: its id, its text and its done flag.
pub ghost struct TodoView {
    pub id: int,
    pub text: Seq<char>,
    pub completed: bool,
}

/// A persisted item ("todo"): a server-assigned unique id, a text and a
/// completion flag.
///
/// Values handed out by a repository are immutable snapshots; they do not
/// track later changes to the store.
#[derive(Debug, PartialEq, Eq)]
pub struct Todo {
    pub id: i32,
    pub text: String,
    pub completed: bool,
}

impl View for Todo {
    type V = TodoView;

    open spec fn view(&self) -> TodoView {
        TodoView { id: self.id as int, text: self.text@, completed: self.completed }
    }
}

impl Clone for Todo {
    fn clone(&self) -> (r: Self)
        ensures
            r@ == self@,
    {
        Todo { id: self.id, text: self.text.clone(), completed: self.completed }
    }
}

impl Todo {
    /// A fresh item starts not completed.
    pub fn new(id: i32, text: String) -> (r: Self)
        ensures
            r@ == (TodoView { id: id as int, text: text@, completed: false }),
    {
        Todo { id, text, completed: false }
    }
}

/// Command to create an item: the text is required, the label associations
/// are accepted but not persisted in this scope.
#[derive(Debug, PartialEq, Eq)]
pub struct CreateTodo {
    pub text: String,
    pub labels: Vec<i32>,
}

impl CreateTodo {
    pub fn new(text: String, labels: Vec<i32>) -> (r: Self)
        ensures
            r.text@ == text@,
            r.labels@ == labels@,
    {
        CreateTodo { text, labels }
    }

    /// The field-level validation rule: the text must not be empty.
    pub open spec fn valid(&self) -> bool {
        1 <= self.text@.len()
    }

    pub fn validate(&self) -> (r: bool)
        ensures
            r == self.valid(),
    {
        let n: usize = self.text.as_str().unicode_len();
        1 <= n
    }
}

/// Command to partially update an item: a missing field leaves the stored
/// field unchanged.
#[derive(Debug, PartialEq, Eq)]
pub struct UpdateTodo {
    pub text: Option<String>,
    pub completed: Option<bool>,
}

impl UpdateTodo {
    /// A supplied text must satisfy the same rule as on create.
    pub open spec fn valid(&self) -> bool {
        match self.text {
            Some(t) => 1 <= t@.len(),
            None => true,
        }
    }

    pub fn validate(&self) -> (r: bool)
        ensures
            r == self.valid(),
    {
        match &self.text {
            Some(t) => {
                let n: usize = t.as_str().unicode_len();
                1 <= n
            },
            None => true,
        }
    }
}

/// The items are sorted strictly ascending by id (so ids are unique); with
/// monotonic id assignment this is also the insertion order.
pub open spec fn sorted_by_id(s: Seq<TodoView>) -> bool {
    forall|i: int, j: int| 0 <= i < j < s.len() ==> s[i].id < s[j].id
}

/// Some stored item carries the id.
pub open spec fn contains_id(s: Seq<TodoView>, id: int) -> bool {
    exists|i: int| 0 <= i < s.len() && (#[trigger] s[i]).id == id
}

/// The position of the item with the given id (meaningful when
/// `contains_id` holds and the ids are unique).
pub open spec fn id_index(s: Seq<TodoView>, id: int) -> int {
    choose|i: int| 0 <= i < s.len() && (#[trigger] s[i]).id == id
}

/// In a sequence with unique ids, `id_index` recovers the position of each
/// element from its id.
pub proof fn lemma_id_index_unique(s: Seq<TodoView>, i: int)
    requires
        sorted_by_id(s),
        0 <= i < s.len(),
    ensures
        contains_id(s, s[i].id),
        id_index(s, s[i].id) == i,
{
    assert(contains_id(s, s[i].id));
    let j = id_index(s, s[i].id);
    if j < i {
        assert(s[j].id < s[i].id);
    } else if i < j {
        assert(s[i].id < s[j].id);
    }
}

/// Removing an element of a sequence with ascending ids keeps the ids
/// ascending, and the removed id is gone.
pub proof fn lemma_remove_keeps_sorted(s: Seq<TodoView>, i: int)
    requires
        sorted_by_id(s),
        0 <= i < s.len(),
    ensures
        sorted_by_id(s.remove(i)),
        !contains_id(s.remove(i), s[i].id),
{
    let t = s.remove(i);
    assert forall|p: int, q: int| 0 <= p < q < t.len() implies t[p].id < t[q].id by {
        assert(t[p] == (if p < i { s[p] } else { s[p + 1] }));
        assert(t[q] == (if q < i { s[q] } else { s[q + 1] }));
    }
    assert forall|p: int| 0 <= p < t.len() implies t[p].id != s[i].id by {
        assert(t[p] == (if p < i { s[p] } else { s[p + 1] }));
    }
}

/// Appending an item whose id exceeds every stored id keeps the ids
/// ascending.
pub proof fn lemma_push_keeps_sorted(s: Seq<TodoView>, v: TodoView)
    requires
        sorted_by_id(s),
        forall|i: int| 0 <= i < s.len() ==> (#[trigger] s[i]).id < v.id,
    ensures
        sorted_by_id(s.push(v)),
{
    let t = s.push(v);
    assert forall|p: int, q: int| 0 <= p < q < t.len() implies t[p].id < t[q].id by {
        assert(t[p] == s[p]);
        assert(t[q] == (if q < s.len() { s[q] } else { v }));
    }
}

/// The repository capability for items: the abstract contract every
/// backend satisfies, independent of storage technology.
///
/// `todos()` is the abstract state: the stored items ascending by id.
/// `Unexpected` stands for a storage fault; the verified in-memory backend
/// raises it only when the id space is exhausted (`at_capacity`), while the
/// durable backend — which lives outside the verified core because it talks
/// to a relational store — may raise it on any connectivity loss.
pub trait TodoRepository: Sized {
    /// The stored items, ascending by id.
    spec fn todos(&self) -> Seq<TodoView>;

    /// The backend's internal well-formedness.
    spec fn inv(&self) -> bool;

    /// No further id can be assigned.
    spec fn at_capacity(&self) -> bool;

    /// Every well-formed backend keeps its items strictly ascending by id.
    proof fn inv_sorted(&self)
        requires
            self.inv(),
        ensures
            sorted_by_id(self.todos()),
    ;

    /// Creates an item, not yet completed, with a fresh id greater than
    /// every stored id.
    fn create(&mut self, payload: CreateTodo) -> (r: Result<Todo, RepositoryError>)
        requires
            old(self).inv(),
        ensures
            final(self).inv(),
            match r {
                Ok(t) => {
                    &&& !old(self).at_capacity()
                    &&& t@.text == payload.text@
                    &&& t@.completed == false
                    &&& forall|i: int|
                        0 <= i < old(self).todos().len() ==> (#[trigger] old(
                            self,
                        ).todos()[i]).id < t@.id
                    &&& final(self).todos() =~= old(self).todos().push(t@)
                },
                Err(RepositoryError::Unexpected(_)) => {
                    &&& old(self).at_capacity()
                    &&& final(self).todos() =~= old(self).todos()
                },
                Err(_) => false,
            },
    ;

    /// Returns the item with the given id, or `NotFound(id)` exactly when
    /// no stored item carries it.
    fn find(&self, id: i32) -> (r: Result<Todo, RepositoryError>)
        requires
            self.inv(),
        ensures
            match r {
                Ok(t) => {
                    &&& contains_id(self.todos(), id as int)
                    &&& t@ == self.todos()[id_index(self.todos(), id as int)]
                    &&& t@.id == id as int
                },
                Err(RepositoryError::NotFound(n)) => {
                    &&& n == id
                    &&& !contains_id(self.todos(), id as int)
                },
                Err(_) => false,
            },
    ;

    /// Returns every stored item, ascending by id (insertion order).
    fn all(&self) -> (r: Result<Vec<Todo>, RepositoryError>)
        requires
            self.inv(),
        ensures
            match r {
                Ok(v) => {
                    &&& v@.len() == self.todos().len()
                    &&& forall|i: int|
                        0 <= i < v@.len() ==> (#[trigger] v@[i])@ == self.todos()[i]
                },
                Err(_) => false,
            },
    ;

    /// Partially updates the item with the given id: a missing field in the
    /// command retains the stored field. Yields `NotFound(id)` exactly when
    /// no stored item carries the id, leaving the store unchanged.
    fn update(&mut self, id: i32, payload: UpdateTodo) -> (r: Result<Todo, RepositoryError>)
        requires
            old(self).inv(),
        ensures
            final(self).inv(),
            match r {
                Ok(t) => {
                    &&& contains_id(old(self).todos(), id as int)
                    &&& t@.id == id as int
                    &&& t@.text == match payload.text {
                        Some(x) => x@,
                        None => old(self).todos()[id_index(old(self).todos(), id as int)].text,
                    }
                    &&& t@.completed == match payload.completed {
                        Some(c) => c,
                        None => old(self).todos()[id_index(
                            old(self).todos(),
                            id as int,
                        )].completed,
                    }
                    &&& final(self).todos() =~= old(self).todos().update(
                        id_index(old(self).todos(), id as int),
                        t@,
                    )
                },
                Err(RepositoryError::NotFound(n)) => {
                    &&& n == id
                    &&& !contains_id(old(self).todos(), id as int)
                    &&& final(self).todos() =~= old(self).todos()
                },
                Err(_) => false,
            },
            (r is Ok && payload.text is None && payload.completed is None)
                ==> final(self).todos() =~= old(self).todos(),
    ;

    /// Deletes the item with the given id. Yields `NotFound(id)` exactly
    /// when no stored item carries the id, leaving the store unchanged.
    fn delete(&mut self, id: i32) -> (r: Result<(), RepositoryError>)
        requires
            old(self).inv(),
        ensures
            final(self).inv(),
            match r {
                Ok(_) => {
                    &&& contains_id(old(self).todos(), id as int)
                    &&& final(self).todos() =~= old(self).todos().remove(
                        id_index(old(self).todos(), id as int),
                    )
                },
                Err(RepositoryError::NotFound(n)) => {
                    &&& n == id
                    &&& !contains_id(old(self).todos(), id as int)
                    &&& final(self).todos() =~= old(self).todos()
                },
                Err(_) => false,
            },
    ;
}

/// The volatile in-memory backend: a process-local list of items kept
/// ascending by id, with a monotonic id counter (ids are never reused after
/// a delete).
#[derive(Debug)]
pub struct TodoRepositoryForMemory {
    entries: Vec<Todo>,
    next_id: i32,
}

impl TodoRepositoryForMemory {
    /// An empty store whose first assigned id is 1.
    pub fn new() -> (r: Self)
        ensures
            r.inv(),
            r.todos() =~= Seq::<TodoView>::empty(),
            !r.at_capacity(),
    {
        let r = TodoRepositoryForMemory { entries: Vec::new(), next_id: 1 };
        r
    }

    /// Position of the entry with the given id.
    fn index_of_id(&self, id: i32) -> (r: Option<usize>)
        ensures
            match r {
                Some(i) => {
                    &&& i < self.entries@.len()
                    &&& (self.entries@[i as int])@.id == id as int
                },
                None => forall|j: int|
                    0 <= j < self.entries@.len() ==> (#[trigger] self.entries@[j])@.id != id as int,
            },
    {
        let n: usize = self.entries.len();
        let mut i: usize = 0;
        while i < n
            invariant
                n == self.entries@.len(),
                i <= n,
                forall|j: int| 0 <= j < i ==> (#[trigger] self.entries@[j])@.id != id as int,
            decreases n - i,
        {
            if self.entries[i].id == id {
                return Some(i);
            }
            i += 1;
        }
        None
    }
}

impl TodoRepository for TodoRepositoryForMemory {
    closed spec fn todos(&self) -> Seq<TodoView> {
        Seq::new(self.entries@.len(), |i: int| self.entries@[i]@)
    }

    closed spec fn inv(&self) -> bool {
        &&& sorted_by_id(self.todos())
        &&& 1 <= self.next_id
        &&& forall|i: int|
            0 <= i < self.entries@.len() ==> 1 <= (#[trigger] self.entries@[i])@.id
                < self.next_id
    }

    closed spec fn at_capacity(&self) -> bool {
        self.next_id == i32::MAX
    }

    proof fn inv_sorted(&self) {
    }

    fn create(&mut self, payload: CreateTodo) -> (r: Result<Todo, RepositoryError>) {
        if self.next_id == i32::MAX {
            Err(RepositoryError::Unexpected(String::from_str("item id space exhausted")))
        } else {
            let id: i32 = self.next_id;
            self.next_id = id + 1;
            let todo = Todo { id, text: payload.text, completed: false };
            let out = todo.clone();
            proof {
                lemma_push_keeps_sorted(old(self).todos(), todo@);
            }
            self.entries.push(todo);
            proof {
                assert(self.todos() =~= old(self).todos().push(out@));
            }
            Ok(out)
        }
    }

    fn find(&self, id: i32) -> (r: Result<Todo, RepositoryError>) {
        match self.index_of_id(id) {
            Some(i) => {
                proof {
                    lemma_id_index_unique(self.todos(), i as int);
                }
                Ok(self.entries[i].clone())
            },
            None => Err(RepositoryError::NotFound(id)),
        }
    }

    fn all(&self) -> (r: Result<Vec<Todo>, RepositoryError>) {
        let n: usize = self.entries.len();
        let mut out: Vec<Todo> = Vec::new();
        let mut i: usize = 0;
        while i < n
            invariant
                n == self.entries@.len(),
                i <= n,
                out@.len() == i,
                forall|j: int| 0 <= j < i ==> (#[trigger] out@[j])@ == self.todos()[j],
            decreases n - i,
        {
            out.push(self.entries[i].clone());
            i += 1;
        }
        Ok(out)
    }

    fn update(&mut self, id: i32, payload: UpdateTodo) -> (r: Result<Todo, RepositoryError>) {
        match self.index_of_id(id) {
            None => Err(RepositoryError::NotFound(id)),
            Some(i) => {
                proof {
                    lemma_id_index_unique(old(self).todos(), i as int);
                }
                let untouched = payload.text.is_none() && payload.completed.is_none();
                let new_text = match payload.text {
                    Some(x) => x,
                    None => self.entries[i].text.clone(),
                };
                let new_completed = match payload.completed {
                    Some(c) => c,
                    None => self.entries[i].completed,
                };
                let updated = Todo { id: self.entries[i].id, text: new_text, completed: new_completed };
                let out = updated.clone();
                self.entries.set(i, updated);
                proof {
                    assert(self.todos() =~= old(self).todos().update(i as int, out@));
                    assert forall|p: int, q: int|
                        0 <= p < q < self.todos().len() implies self.todos()[p].id
                        < self.todos()[q].id by {
                        assert(old(self).todos()[p].id < old(self).todos()[q].id);
                    }
                    if untouched {
                        assert(self.todos() =~= old(self).todos());
                    }
                }
                Ok(out)
            },
        }
    }

    fn delete(&mut self, id: i32) -> (r: Result<(), RepositoryError>) {
        match self.index_of_id(id) {
            None => Err(RepositoryError::NotFound(id)),
            Some(i) => {
                proof {
                    lemma_id_index_unique(old(self).todos(), i as int);
                    lemma_remove_keeps_sorted(old(self).todos(), i as int);
                }
                self.entries.remove(i);
                proof {
                    assert(self.todos() =~= old(self).todos().remove(i as int));
                }
                Ok(())
            },
        }
    }
}

} // verus!
