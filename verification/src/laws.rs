//! The laws that bind every repository backend, stated over the abstract
//! state that the method contracts use: a sequence of stored entities
//! ascending by id. `create` ends in `labels().push(v)` with a fresh
//! highest id, `delete` in `labels().remove(id_index(..))`, `find` returns
//! `labels()[id_index(..)]`, and `find`, `update` and `delete` yield
//! `NotFound(id)` exactly when `contains_id` fails; the lemmas here chain
//! those contracts across calls. Each label-side law whose twin is not
//! written out holds word for word for the item repository, whose model is
//! the same sequence with a text and a completion flag in place of the
//! name.

use crate::label::{
    contains_id, contains_name, first_id_with_name, id_index, lemma_id_index_unique,
    lemma_push_keeps_sorted, lemma_remove_keeps_sorted, sorted_by_id, LabelRepository, LabelView,
};
use crate::todo;
use crate::todo::{TodoRepository, TodoView};
use vstd::prelude::*;

verus! {

/// Law: a create followed by a find of the returned id yields the created
/// value. After a label with a fresh highest id is appended, the store
/// still has ascending ids, the new id is present, and the label stored
/// under it — the one `find` returns — is the appended one.
pub proof fn lemma_created_label_is_found(s: Seq<LabelView>, v: LabelView)
    requires
        sorted_by_id(s),
        forall|i: int| 0 <= i < s.len() ==> (#[trigger] s[i]).id < v.id,
    ensures
        sorted_by_id(s.push(v)),
        contains_id(s.push(v), v.id),
        s.push(v)[id_index(s.push(v), v.id)] == v,
{
    lemma_push_keeps_sorted(s, v);
    assert(s.push(v)[s.len() as int] == v);
    lemma_id_index_unique(s.push(v), s.len() as int);
}

/// Law: a deleted id is absent. After the label holding `id` is removed,
/// the store still has ascending ids and no longer contains `id` — so
/// `find`, `update` and `delete`, whose contracts yield `NotFound` exactly
/// on the absent ids, all yield `NotFound(id)`; in particular the second
/// of two deletes of one id yields `NotFound` while the first succeeded.
pub proof fn lemma_deleted_label_id_absent(s: Seq<LabelView>, id: int)
    requires
        sorted_by_id(s),
        contains_id(s, id),
    ensures
        sorted_by_id(s.remove(id_index(s, id))),
        !contains_id(s.remove(id_index(s, id)), id),
{
    let i = id_index(s, id);
    assert(0 <= i < s.len() && s[i].id == id);
    lemma_remove_keeps_sorted(s, i);
}

/// Law: an update that supplies no field leaves the stored values
/// unchanged, for labels and items alike. `update` writes back the row it
/// read, and writing a position of the store with its own value is the
/// identity; the same fact stands as the final clause of each `update`'s
/// own contract.
pub proof fn lemma_empty_update_is_identity<T>(s: Seq<T>, i: int)
    requires
        0 <= i < s.len(),
    ensures
        s.update(i, s[i]) =~= s,
{
}

/// Law: a create followed by a find of the returned id yields the created
/// value — the item-side twin of `lemma_created_label_is_found`.
pub proof fn lemma_created_todo_is_found(s: Seq<TodoView>, v: TodoView)
    requires
        todo::sorted_by_id(s),
        forall|i: int| 0 <= i < s.len() ==> (#[trigger] s[i]).id < v.id,
    ensures
        todo::sorted_by_id(s.push(v)),
        todo::contains_id(s.push(v), v.id),
        s.push(v)[todo::id_index(s.push(v), v.id)] == v,
{
    todo::lemma_push_keeps_sorted(s, v);
    assert(s.push(v)[s.len() as int] == v);
    todo::lemma_id_index_unique(s.push(v), s.len() as int);
}

/// Law: a deleted id is absent — the item-side twin of
/// `lemma_deleted_label_id_absent`.
pub proof fn lemma_deleted_todo_id_absent(s: Seq<TodoView>, id: int)
    requires
        todo::sorted_by_id(s),
        todo::contains_id(s, id),
    ensures
        todo::sorted_by_id(s.remove(todo::id_index(s, id))),
        !todo::contains_id(s.remove(todo::id_index(s, id)), id),
{
    let i = todo::id_index(s, id);
    assert(0 <= i < s.len() && s[i].id == id);
    todo::lemma_remove_keeps_sorted(s, i);
}

/// Law: creating a second label with the name of an existing one is
/// rejected as a duplicate of exactly that label. After a label `v` with a
/// fresh highest id is created under a name no other label carries, the
/// name is present and `v.id` is the first id carrying it — so a second
/// create with the same name must, by `create`'s contract, yield
/// `Duplicate(d)` with `first_id_with_name` pinning `d`, and
/// `lemma_first_id_with_name_unique` pins `d` to `v.id`.
pub proof fn lemma_second_create_is_duplicate(s: Seq<LabelView>, v: LabelView)
    requires
        sorted_by_id(s),
        forall|i: int| 0 <= i < s.len() ==> (#[trigger] s[i]).id < v.id,
        !contains_name(s, v.name),
    ensures
        contains_name(s.push(v), v.name),
        first_id_with_name(s.push(v), v.name, v.id),
{
    let t = s.push(v);
    let n = s.len() as int;
    assert(t[n] == v);
    assert forall|j: int| 0 <= j < n implies (#[trigger] t[j]).name != v.name by {
        assert(t[j] == s[j]);
    }
    assert(contains_name(t, v.name));
}

/// The id that `first_id_with_name` describes is unique: `Duplicate`
/// carries one well-defined id.
pub proof fn lemma_first_id_with_name_unique(
    s: Seq<LabelView>,
    name: Seq<char>,
    d1: int,
    d2: int,
)
    requires
        first_id_with_name(s, name, d1),
        first_id_with_name(s, name, d2),
    ensures
        d1 == d2,
{
    let i1 = choose|i: int|
        {
            &&& 0 <= i < s.len()
            &&& (#[trigger] s[i]).name == name
            &&& s[i].id == d1
            &&& forall|j: int| 0 <= j < i ==> (#[trigger] s[j]).name != name
        };
    let i2 = choose|i: int|
        {
            &&& 0 <= i < s.len()
            &&& (#[trigger] s[i]).name == name
            &&& s[i].id == d2
            &&& forall|j: int| 0 <= j < i ==> (#[trigger] s[j]).name != name
        };
    if i1 < i2 {
        assert(s[i1].name != name);
    } else if i2 < i1 {
        assert(s[i2].name != name);
    }
}

/// Law: `all` lists the labels ascending by id whatever interleaving of
/// creates, updates and deletes produced the store: every well-formed
/// backend keeps its labels sorted, and `all`'s contract returns exactly
/// that sequence.
pub proof fn lemma_all_is_sorted<R: LabelRepository>(repo: &R)
    requires
        repo.inv(),
    ensures
        sorted_by_id(repo.labels()),
{
    repo.inv_sorted();
}

/// Law: every well-formed item backend lists its items ascending by id,
/// which with monotonic id assignment is their insertion order.
pub proof fn lemma_all_todos_sorted<R: TodoRepository>(repo: &R)
    requires
        repo.inv(),
    ensures
        todo::sorted_by_id(repo.todos()),
{
    repo.inv_sorted();
}

} // verus!
