//! Todos: records with a store-assigned id, free text and a completion flag.
//!
//! The repository interface is stated over a mathematical model: the store is
//! a mapping from id to record (`Map<i32, Todo>`), and every operation's
//! contract says exactly how it reads or rewrites that mapping.  The volatile
//! backend below is verified against those contracts; the durable backend
//! performs I/O against a relational store and therefore lives outside the
//! verified core, reusing the pure pieces (`merge_todo`, `Todo::from_row`)
//! that its logic reduces to.

use vstd::pervasive::VecAdditionalExecFns;
use vstd::prelude::*;
use vstd::string::StrSliceExecFns;
use vstd::string::StringExecFns;

use crate::repositories::within_length_bounds;
use crate::repositories::RepositoryError;

verus! {

/// A stored todo record.
#[derive(Debug, PartialEq, Eq)]
pub struct Todo {
    pub id: i32,
    pub text: String,
    pub completed: bool,
}

impl Todo {
    /// A freshly created todo: the given id and text, not yet completed.
    pub fn new(id: i32, text: String) -> (t: Self)
        ensures
            t.id == id,
            t.text == text,
            !t.completed,
    {
        Self { id, text, completed: false }
    }

    /// Folds one flat stored row into the record shape handed to callers.
    /// The folding is lossless: each field carries over unchanged.
    pub fn from_row(id: i32, text: String, completed: bool) -> (t: Self)
        ensures
            t.id == id,
            t.text == text,
            t.completed == completed,
    {
        Self { id, text, completed }
    }
}

impl Clone for Todo {
    fn clone(&self) -> (res: Self)
        ensures
            res == *self,
    {
        Todo { id: self.id, text: self.text.clone(), completed: self.completed }
    }
}

/// The creation payload: the text of the new record.
#[derive(Debug, PartialEq, Eq)]
pub struct CreateTodo {
    pub text: String,
}

impl CreateTodo {
    pub fn new(text: String) -> (p: Self)
        ensures
            p.text == text,
    {
        Self { text }
    }

    /// Whether the text meets the boundary rule: non-empty, at most 100
    /// characters.  Callers reject the payload before it reaches a store.
    pub fn is_valid(&self) -> (r: bool)
        ensures
            r == within_length_bounds(self.text@),
    {
        let n = self.text.as_str().unicode_len();
        1 <= n && n <= 100
    }
}

/// The update payload: a field-level patch.  An absent field keeps the stored
/// value, a present field overwrites it.
#[derive(Debug, PartialEq, Eq)]
pub struct UpdateTodo {
    pub text: Option<String>,
    pub completed: Option<bool>,
}

/// The record that applying a field-level patch to `current` produces.
pub open spec fn merged(current: Todo, patch: UpdateTodo) -> Todo {
    Todo {
        id: current.id,
        text: match patch.text {
            Some(t) => t,
            None => current.text,
        },
        completed: match patch.completed {
            Some(c) => c,
            None => current.completed,
        },
    }
}

/// Applies a field-level patch: present fields overwrite, absent fields keep
/// the stored value.  The id never changes.
pub fn merge_todo(current: Todo, patch: UpdateTodo) -> (t: Todo)
    ensures
        t == merged(current, patch),
{
    let text = match patch.text {
        Some(t) => t,
        None => current.text,
    };
    let completed = match patch.completed {
        Some(c) => c,
        None => current.completed,
    };
    Todo { id: current.id, text, completed }
}

/// Whether some stored record carries the given id.
pub open spec fn contains_id(s: Seq<Todo>, id: i32) -> bool {
    exists|i: int| 0 <= i < s.len() && s[i].id == id
}

/// The position of the record with the given id (meaningful when one exists).
pub open spec fn index_of_id(s: Seq<Todo>, id: i32) -> int {
    choose|i: int| 0 <= i < s.len() && s[i].id == id
}

/// Whether no two stored records share an id.
pub open spec fn ids_unique(s: Seq<Todo>) -> bool {
    forall|i: int, j: int| 0 <= i < j < s.len() ==> s[i].id != s[j].id
}

/// The stored records read as a mapping from id to record.
pub open spec fn id_map(s: Seq<Todo>) -> Map<i32, Todo> {
    Map::new(|id: i32| contains_id(s, id), |id: i32| s[index_of_id(s, id)])
}

/// What a lookup of `id` returns: the stored record, or `NotFound`.
pub open spec fn find_result(m: Map<i32, Todo>, id: i32) -> Result<Todo, RepositoryError> {
    if m.dom().contains(id) {
        Ok(m[id])
    } else {
        Err(RepositoryError::NotFound(id))
    }
}

/// What an update of `id` with `patch` returns: the merge of the stored
/// record and the patch, or `NotFound`.
pub open spec fn update_result(m: Map<i32, Todo>, id: i32, patch: UpdateTodo) -> Result<
    Todo,
    RepositoryError,
> {
    if m.dom().contains(id) {
        Ok(merged(m[id], patch))
    } else {
        Err(RepositoryError::NotFound(id))
    }
}

/// What a deletion of `id` returns: success, or `NotFound`.
pub open spec fn delete_result(m: Map<i32, Todo>, id: i32) -> Result<(), RepositoryError> {
    if m.dom().contains(id) {
        Ok(())
    } else {
        Err(RepositoryError::NotFound(id))
    }
}

/// What a listing of the whole store must hold: exactly the stored records,
/// each under its own id, each exactly once, in some order.
pub open spec fn lists_todos(l: Seq<Todo>, m: Map<i32, Todo>) -> bool {
    &&& forall|i: int|
        0 <= i < l.len() ==> m.dom().contains((#[trigger] l[i]).id) && m[l[i].id] == l[i]
    &&& forall|id: i32| #[trigger] m.dom().contains(id) ==> contains_id(l, id)
    &&& ids_unique(l)
}

/// The capability set every todo backend offers.  Contracts are stated over
/// the abstract store `todos()`: a backend may fail with `UnexpectedError`
/// (the durable one does on store trouble), but whatever it answers must
/// read and rewrite the mapping as stated, and a failure leaves the mapping
/// as it was.
pub trait TodoRepository {
    /// The records the backend currently stores, keyed by id.
    spec fn todos(&self) -> Map<i32, Todo>;

    /// The backend's internal well-formedness.
    spec fn inv(&self) -> bool;

    /// Stores a new record with the given text, not yet completed, under a
    /// fresh id, and returns it.
    fn create(&mut self, payload: CreateTodo) -> (r: Result<Todo, RepositoryError>)
        requires
            old(self).inv(),
        ensures
            final(self).inv(),
            (r matches Ok(t) ==> t.text == payload.text && !t.completed && !old(
                self,
            ).todos().dom().contains(t.id) && final(self).todos() == old(self).todos().insert(
                t.id,
                t,
            )),
            (r matches Err(e) ==> final(self).todos() == old(self).todos() && e matches
                RepositoryError::UnexpectedError(_)),
    ;

    /// Returns the record stored under `id`, or `NotFound`.
    fn find(&self, id: i32) -> (r: Result<Todo, RepositoryError>)
        requires
            self.inv(),
        ensures
            (r matches Ok(t) ==> self.todos().dom().contains(id) && t == self.todos()[id]),
            (r matches Err(e) ==> match e {
                RepositoryError::NotFound(missing) => missing == id && !self.todos().dom().contains(
                    id,
                ),
                RepositoryError::UnexpectedError(_) => true,
                RepositoryError::Duplicate(_) => false,
            }),
    ;

    /// Returns every stored record, with no implicit filter.
    fn all(&self) -> (r: Result<Vec<Todo>, RepositoryError>)
        requires
            self.inv(),
        ensures
            (r matches Ok(l) ==> lists_todos(l@, self.todos())),
            (r matches Err(e) ==> e matches RepositoryError::UnexpectedError(_)),
    ;

    /// Rewrites the record stored under `id` to the merge of its prior state
    /// and the patch, and returns the merge; `NotFound` when absent.
    fn update(&mut self, id: i32, payload: UpdateTodo) -> (r: Result<Todo, RepositoryError>)
        requires
            old(self).inv(),
        ensures
            final(self).inv(),
            (r matches Ok(t) ==> old(self).todos().dom().contains(id) && t == merged(
                old(self).todos()[id],
                payload,
            ) && final(self).todos() == old(self).todos().insert(id, t)),
            (r matches Err(e) ==> final(self).todos() == old(self).todos() && match e {
                RepositoryError::NotFound(missing) => missing == id && !old(
                    self,
                ).todos().dom().contains(id),
                RepositoryError::UnexpectedError(_) => true,
                RepositoryError::Duplicate(_) => false,
            }),
    ;

    /// Removes the record stored under `id`; `NotFound` when absent.
    fn delete(&mut self, id: i32) -> (r: Result<(), RepositoryError>)
        requires
            old(self).inv(),
        ensures
            final(self).inv(),
            (r matches Ok(u) ==> old(self).todos().dom().contains(id) && final(self).todos()
                == old(self).todos().remove(id)),
            (r matches Err(e) ==> final(self).todos() == old(self).todos() && match e {
                RepositoryError::NotFound(missing) => missing == id && !old(
                    self,
                ).todos().dom().contains(id),
                RepositoryError::UnexpectedError(_) => true,
                RepositoryError::Duplicate(_) => false,
            }),
    ;
}

/// The volatile backend: the records live in process memory and vanish with
/// it.  Ids come from an explicit monotonic counter, so an id is never
/// reused within the process lifetime, deletions notwithstanding.
#[derive(Debug)]
pub struct TodoRepositoryForMemory {
    store: Vec<Todo>,
    next_id: i32,
}

impl TodoRepositoryForMemory {
    /// An empty store; the first record will receive id 1.
    pub fn new() -> (repo: Self)
        ensures
            repo.inv(),
            repo.todos() == Map::<i32, Todo>::empty(),
            repo.next_id() == 1,
    {
        let repo = TodoRepositoryForMemory { store: Vec::new(), next_id: 1 };
        proof {
            assert(repo.todos() =~= Map::<i32, Todo>::empty());
        }
        repo
    }

    /// The id the next created record will receive.
    pub closed spec fn next_id(&self) -> i32 {
        self.next_id
    }
}

/// The position of the record with the given id, scanning from the front.
fn position_of(store: &Vec<Todo>, id: i32) -> (r: Option<usize>)
    ensures
        (r matches Some(i) ==> i < store.len() && store@[i as int].id == id),
        (r is None ==> !contains_id(store@, id)),
{
    let mut i: usize = 0;
    while i < store.len()
        invariant
            i <= store.len(),
            forall|k: int| 0 <= k < i ==> (#[trigger] store@[k]).id != id,
        decreases store.len() - i,
    {
        if store[i].id == id {
            return Some(i);
        }
        i = i + 1;
    }
    None
}

impl TodoRepository for TodoRepositoryForMemory {
    closed spec fn todos(&self) -> Map<i32, Todo> {
        id_map(self.store@)
    }

    closed spec fn inv(&self) -> bool {
        &&& ids_unique(self.store@)
        &&& 1 <= self.next_id
        &&& forall|i: int|
            0 <= i < self.store@.len() ==> 1 <= (#[trigger] self.store@[i]).id < self.next_id
    }

    fn create(&mut self, payload: CreateTodo) -> (r: Result<Todo, RepositoryError>)
        ensures
            old(self).next_id() < i32::MAX ==> (r matches Ok(t) && t == (Todo {
                id: old(self).next_id(),
                text: payload.text,
                completed: false,
            }) && final(self).next_id() == old(self).next_id() + 1),
            old(self).next_id() == i32::MAX ==> (r matches Err(e) && *final(self) == *old(self)),
    {
        if self.next_id == i32::MAX {
            return Err(
                RepositoryError::UnexpectedError(String::from_str("id space exhausted")),
            );
        }
        let id = self.next_id;
        let todo = Todo::new(id, payload.text);
        let result = todo.clone();
        proof {
            assert(!contains_id(self.store@, id)) by {
                if contains_id(self.store@, id) {
                    let k = index_of_id(self.store@, id);
                    assert(self.store@[k].id < self.next_id);
                }
            }
            lemma_id_map_push(self.store@, todo);
        }
        self.store.push(todo);
        self.next_id = self.next_id + 1;
        Ok(result)
    }

    fn find(&self, id: i32) -> (r: Result<Todo, RepositoryError>)
        ensures
            r == find_result(self.todos(), id),
    {
        match position_of(&self.store, id) {
            Some(i) => {
                proof {
                    lemma_id_map_index(self.store@, i as int);
                }
                Ok(self.store[i].clone())
            },
            None => Err(RepositoryError::NotFound(id)),
        }
    }

    fn all(&self) -> (r: Result<Vec<Todo>, RepositoryError>)
        ensures
            r is Ok,
    {
        let mut l: Vec<Todo> = Vec::new();
        let mut i: usize = 0;
        while i < self.store.len()
            invariant
                i <= self.store.len(),
                l@ == self.store@.subrange(0, i as int),
            decreases self.store.len() - i,
        {
            l.push(self.store[i].clone());
            proof {
                assert(l@ =~= self.store@.subrange(0, i + 1));
            }
            i = i + 1;
        }
        proof {
            assert(l@ =~= self.store@);
            lemma_id_map_lists(self.store@);
        }
        Ok(l)
    }

    fn update(&mut self, id: i32, payload: UpdateTodo) -> (r: Result<Todo, RepositoryError>)
        ensures
            r == update_result(old(self).todos(), id, payload),
            final(self).next_id() == old(self).next_id(),
    {
        match position_of(&self.store, id) {
            Some(i) => {
                let current = self.store[i].clone();
                let updated = merge_todo(current, payload);
                let result = updated.clone();
                proof {
                    lemma_id_map_index(self.store@, i as int);
                    lemma_id_map_update(self.store@, i as int, updated);
                }
                self.store.set(i, updated);
                Ok(result)
            },
            None => Err(RepositoryError::NotFound(id)),
        }
    }

    fn delete(&mut self, id: i32) -> (r: Result<(), RepositoryError>)
        ensures
            r == delete_result(old(self).todos(), id),
            final(self).next_id() == old(self).next_id(),
    {
        match position_of(&self.store, id) {
            Some(i) => {
                proof {
                    lemma_id_map_index(self.store@, i as int);
                    lemma_id_map_remove(self.store@, i as int);
                }
                self.store.remove(i);
                Ok(())
            },
            None => Err(RepositoryError::NotFound(id)),
        }
    }
}

/// Each stored record is what the store's id map holds at its id.
proof fn lemma_id_map_index(s: Seq<Todo>, i: int)
    requires
        ids_unique(s),
        0 <= i < s.len(),
    ensures
        id_map(s).dom().contains(s[i].id),
        id_map(s)[s[i].id] == s[i],
{
    assert(contains_id(s, s[i].id));
    let j = index_of_id(s, s[i].id);
    assert(0 <= j < s.len() && s[j].id == s[i].id);
    if j < i {
        assert(s[j].id != s[i].id);
    }
    if i < j {
        assert(s[i].id != s[j].id);
    }
}

/// A store with unique ids lists itself: the sequence holds exactly the
/// records of its own id map.
proof fn lemma_id_map_lists(s: Seq<Todo>)
    requires
        ids_unique(s),
    ensures
        lists_todos(s, id_map(s)),
{
    assert forall|i: int|
        0 <= i < s.len() implies id_map(s).dom().contains((#[trigger] s[i]).id) && id_map(
        s,
    )[s[i].id] == s[i] by {
        lemma_id_map_index(s, i);
    }
}

/// Appending a record with a fresh id adds exactly that record to the id map.
proof fn lemma_id_map_push(s: Seq<Todo>, t: Todo)
    requires
        ids_unique(s),
        !contains_id(s, t.id),
    ensures
        ids_unique(s.push(t)),
        id_map(s.push(t)) == id_map(s).insert(t.id, t),
{
    let s2 = s.push(t);
    assert forall|i: int, j: int| 0 <= i < j < s2.len() implies s2[i].id != s2[j].id by {
        if j < s.len() {
            assert(s[i].id != s[j].id);
        } else {
            assert(s2[j] == t);
            if s2[i].id == t.id {
                assert(contains_id(s, t.id));
            }
        }
    }
    assert forall|id: i32| #[trigger]
        id_map(s2).dom().contains(id) == id_map(s).insert(t.id, t).dom().contains(id) by {
        if contains_id(s2, id) {
            let k = choose|k: int| 0 <= k < s2.len() && s2[k].id == id;
            if k < s.len() {
                assert(s[k].id == id);
                assert(contains_id(s, id));
            } else {
                assert(s2[k] == t);
            }
        }
        if contains_id(s, id) {
            let k = choose|k: int| 0 <= k < s.len() && s[k].id == id;
            assert(s2[k].id == id);
            assert(contains_id(s2, id));
        }
        if id == t.id {
            assert(s2[s.len() as int].id == id);
            assert(contains_id(s2, id));
        }
    }
    assert forall|id: i32| #[trigger]
        id_map(s2).dom().contains(id) implies id_map(s2)[id] == id_map(s).insert(t.id, t)[id] by {
        if id == t.id {
            lemma_id_map_index(s2, s.len() as int);
        } else {
            let k = choose|k: int| 0 <= k < s2.len() && s2[k].id == id;
            assert(k < s.len());
            assert(s[k].id == id);
            lemma_id_map_index(s2, k);
            lemma_id_map_index(s, k);
        }
    }
    assert(id_map(s2) =~= id_map(s).insert(t.id, t));
}

/// Rewriting the record at a position, id kept, rewrites exactly that id's
/// entry in the id map.
proof fn lemma_id_map_update(s: Seq<Todo>, i: int, t: Todo)
    requires
        ids_unique(s),
        0 <= i < s.len(),
        t.id == s[i].id,
    ensures
        ids_unique(s.update(i, t)),
        forall|k: int| 0 <= k < s.len() ==> (#[trigger] s.update(i, t)[k]).id == s[k].id,
        id_map(s.update(i, t)) == id_map(s).insert(t.id, t),
{
    let s2 = s.update(i, t);
    assert forall|k: int| 0 <= k < s.len() implies (#[trigger] s2[k]).id == s[k].id by {
        if k == i {
            assert(s2[k] == t);
        }
    }
    assert forall|a: int, b: int| 0 <= a < b < s2.len() implies s2[a].id != s2[b].id by {
        assert(s[a].id != s[b].id);
    }
    assert forall|id: i32| #[trigger]
        id_map(s2).dom().contains(id) == id_map(s).insert(t.id, t).dom().contains(id) by {
        if contains_id(s2, id) {
            let k = choose|k: int| 0 <= k < s2.len() && s2[k].id == id;
            assert(s[k].id == id);
            assert(contains_id(s, id));
        }
        if contains_id(s, id) {
            let k = choose|k: int| 0 <= k < s.len() && s[k].id == id;
            assert(s2[k].id == id);
            assert(contains_id(s2, id));
        }
    }
    assert forall|id: i32| #[trigger]
        id_map(s2).dom().contains(id) implies id_map(s2)[id] == id_map(s).insert(t.id, t)[id] by {
        if id == t.id {
            lemma_id_map_index(s2, i);
            assert(s2[i] == t);
        } else {
            let k = choose|k: int| 0 <= k < s2.len() && s2[k].id == id;
            assert(k != i);
            assert(s2[k] == s[k]);
            lemma_id_map_index(s2, k);
            lemma_id_map_index(s, k);
        }
    }
    assert(id_map(s2) =~= id_map(s).insert(t.id, t));
}

/// Removing the record at a position removes exactly that id's entry from
/// the id map.
proof fn lemma_id_map_remove(s: Seq<Todo>, i: int)
    requires
        ids_unique(s),
        0 <= i < s.len(),
    ensures
        ids_unique(s.remove(i)),
        forall|k: int|
            0 <= k < s.remove(i).len() ==> contains_id(s, (#[trigger] s.remove(i)[k]).id),
        id_map(s.remove(i)) == id_map(s).remove(s[i].id),
{
    let s2 = s.remove(i);
    s.remove_ensures(i);
    assert forall|k: int| 0 <= k < s2.len() implies contains_id(s, (#[trigger] s2[k]).id) by {
        if k < i {
            assert(s2[k] == s[k]);
        } else {
            assert(s2[k] == s[k + 1]);
        }
    }
    assert forall|a: int, b: int| 0 <= a < b < s2.len() implies s2[a].id != s2[b].id by {
        if b < i {
            assert(s2[a] == s[a] && s2[b] == s[b]);
        } else if a < i {
            assert(s2[a] == s[a] && s2[b] == s[b + 1]);
        } else {
            assert(s2[a] == s[a + 1] && s2[b] == s[b + 1]);
        }
    }
    assert forall|id: i32| #[trigger]
        id_map(s2).dom().contains(id) == id_map(s).remove(s[i].id).dom().contains(id) by {
        if contains_id(s2, id) {
            let k = choose|k: int| 0 <= k < s2.len() && s2[k].id == id;
            if k < i {
                assert(s[k].id == id);
                assert(contains_id(s, id));
                assert(k != i);
                if k < i {
                    assert(s[k].id != s[i].id);
                }
            } else {
                assert(s[k + 1].id == id);
                assert(contains_id(s, id));
                assert(s[i].id != s[k + 1].id);
            }
        }
        if contains_id(s, id) && id != s[i].id {
            let k = choose|k: int| 0 <= k < s.len() && s[k].id == id;
            assert(k != i);
            if k < i {
                assert(s2[k].id == id);
            } else {
                assert(s2[k - 1] == s[k]);
            }
            assert(contains_id(s2, id));
        }
    }
    assert forall|id: i32| #[trigger]
        id_map(s2).dom().contains(id) implies id_map(s2)[id] == id_map(s).remove(s[i].id)[id] by {
        let k = choose|k: int| 0 <= k < s2.len() && s2[k].id == id;
        lemma_id_map_index(s2, k);
        if k < i {
            assert(s2[k] == s[k]);
            lemma_id_map_index(s, k);
        } else {
            assert(s2[k] == s[k + 1]);
            lemma_id_map_index(s, k + 1);
        }
    }
    assert(id_map(s2) =~= id_map(s).remove(s[i].id));
}

/// Law: creating a record and then finding the id it returned yields that
/// very record.
pub proof fn lemma_create_then_find(m: Map<i32, Todo>, t: Todo)
    ensures
        find_result(m.insert(t.id, t), t.id) == Ok::<Todo, RepositoryError>(t),
{
}

/// Law: an id the store does not hold makes find, update and delete all fail
/// with `NotFound` carrying that id.
pub proof fn lemma_absent_id_not_found(m: Map<i32, Todo>, id: i32, patch: UpdateTodo)
    requires
        !m.dom().contains(id),
    ensures
        find_result(m, id) == Err::<Todo, RepositoryError>(RepositoryError::NotFound(id)),
        update_result(m, id, patch) == Err::<Todo, RepositoryError>(RepositoryError::NotFound(id)),
        delete_result(m, id) == Err::<(), RepositoryError>(RepositoryError::NotFound(id)),
{
}

/// Law: deleting a stored id succeeds once; deleting the same id again fails
/// with `NotFound`.
pub proof fn lemma_delete_twice(m: Map<i32, Todo>, id: i32)
    requires
        m.dom().contains(id),
    ensures
        delete_result(m, id) == Ok::<(), RepositoryError>(()),
        delete_result(m.remove(id), id) == Err::<(), RepositoryError>(RepositoryError::NotFound(
            id,
        )),
{
}

/// Law: a patch that only carries text changes only the text; the empty
/// patch changes nothing, and updating with it leaves the store as it was.
pub proof fn lemma_update_merge(m: Map<i32, Todo>, id: i32, new_text: String)
    requires
        m.dom().contains(id),
    ensures
        ({
            let patched = merged(m[id], UpdateTodo { text: Some(new_text), completed: None });
            patched.id == m[id].id && patched.text == new_text && patched.completed
                == m[id].completed
        }),
        merged(m[id], (UpdateTodo { text: None, completed: None })) == m[id],
        update_result(m, id, (UpdateTodo { text: None, completed: None })) == Ok::<
            Todo,
            RepositoryError,
        >(m[id]),
        m.insert(id, merged(m[id], (UpdateTodo { text: None, completed: None }))) == m,
{
    assert(m.insert(id, m[id]) =~= m);
}

} // verus!
