//! Labels: records with a store-assigned id and a name that must stay unique
//! across all labels.
//!
//! The implemented surface stores labels durably only, so the backend itself
//! performs I/O and lives outside the verified core.  What its logic decides
//! — refusing a duplicate name with the existing label's id, and reading a
//! deletion's row count — is verified here, and the backend reduces to these
//! functions plus single queries.

use vstd::prelude::*;
use vstd::string::StrSliceExecFns;

use crate::repositories::within_length_bounds;
use crate::repositories::RepositoryError;

verus! {

/// A stored label.
#[derive(Debug, PartialEq, Eq)]
pub struct Label {
    pub id: i32,
    pub name: String,
}

impl Clone for Label {
    fn clone(&self) -> (res: Self)
        ensures
            res == *self,
    {
        Label { id: self.id, name: self.name.clone() }
    }
}

/// The creation payload: the name of the new label.
#[derive(Debug, PartialEq, Eq)]
pub struct CreateLabel {
    pub name: String,
}

impl CreateLabel {
    pub fn new(name: String) -> (p: Self)
        ensures
            p.name == name,
    {
        Self { name }
    }

    /// Whether the name meets the boundary rule: non-empty, at most 100
    /// characters.  Callers reject the payload before it reaches a store.
    pub fn is_valid(&self) -> (r: bool)
        ensures
            r == within_length_bounds(self.name@),
    {
        let n = self.name.as_str().unicode_len();
        1 <= n && n <= 100
    }
}

/// A label update payload.  The implemented surface defines no label update
/// operation, so nothing consumes it yet.
#[derive(Debug, PartialEq, Eq)]
pub struct UpdateLabel {
    pub id: i32,
    pub name: String,
}

/// The capability set every label backend offers.  The one implemented
/// backend keeps its records in a relational store and so performs I/O on
/// every call; it stands outside the verified core and answers through this
/// interface.
pub trait LabelRepository {
    /// Stores a new label with the given name under a fresh id and returns
    /// it; a label already bearing the name refuses creation with
    /// `Duplicate` carrying the existing id.
    fn create(&mut self, name: String) -> Result<Label, RepositoryError>;

    /// Returns every stored label, ordered by ascending id.
    fn all(&self) -> Result<Vec<Label>, RepositoryError>;

    /// Removes the label stored under `id`; `NotFound` when absent.
    fn delete(&mut self, id: i32) -> Result<(), RepositoryError>;
}

/// What label creation decides from the uniqueness probe: a label already
/// bearing the requested name refuses creation with that label's id.
pub open spec fn create_check(existing: Option<Label>) -> Result<(), RepositoryError> {
    match existing {
        Some(l) => Err(RepositoryError::Duplicate(l.id)),
        None => Ok(()),
    }
}

/// Decides label creation from the result of probing the store for a label
/// with the requested name: only when the probe found nothing may the new
/// label be inserted.
pub fn decide_create(existing: Option<Label>) -> (r: Result<(), RepositoryError>)
    ensures
        r == create_check(existing),
{
    match existing {
        Some(l) => Err(RepositoryError::Duplicate(l.id)),
        None => Ok(()),
    }
}

/// Whether no two stored labels share a name.
pub open spec fn names_unique(s: Seq<Label>) -> bool {
    forall|i: int, j: int| 0 <= i < j < s.len() ==> s[i].name@ != s[j].name@
}

/// Whether the stored labels are ordered by strictly ascending id.
pub open spec fn ids_ascending(s: Seq<Label>) -> bool {
    forall|i: int, j: int| 0 <= i < j < s.len() ==> s[i].id < s[j].id
}

/// Law: when some stored label already bears a name, creation probed with
/// that label is refused with its id, and a store whose names are unique
/// holds no second label with that name.
pub proof fn lemma_duplicate_name_refused(s: Seq<Label>, k: int)
    requires
        names_unique(s),
        0 <= k < s.len(),
    ensures
        create_check(Some(s[k])) == Err::<(), RepositoryError>(RepositoryError::Duplicate(
            s[k].id,
        )),
        forall|j: int| 0 <= j < s.len() && (#[trigger] s[j]).name@ == s[k].name@ ==> j == k,
{
    assert forall|j: int|
        0 <= j < s.len() && (#[trigger] s[j]).name@ == s[k].name@ implies j == k by {
        if j < k {
            assert(s[j].name@ != s[k].name@);
        }
        if k < j {
            assert(s[k].name@ != s[j].name@);
        }
    }
}

/// Law: when no stored label bears the requested name — the one case in
/// which creation is allowed to insert — adding the new label keeps names
/// unique.
pub proof fn lemma_fresh_name_keeps_names_unique(s: Seq<Label>, l: Label)
    requires
        names_unique(s),
        forall|i: int| 0 <= i < s.len() ==> (#[trigger] s[i]).name@ != l.name@,
    ensures
        names_unique(s.push(l)),
{
    let s2 = s.push(l);
    assert forall|i: int, j: int| 0 <= i < j < s2.len() implies s2[i].name@ != s2[j].name@ by {
        if j < s.len() {
            assert(s[i].name@ != s[j].name@);
        } else {
            assert(s2[j] == l);
            assert(s2[i] == s[i]);
        }
    }
}

/// Law: a label whose id exceeds every stored id lists last when the listing
/// is ordered by ascending id.
pub proof fn lemma_new_label_lists_last(s: Seq<Label>, l: Label)
    requires
        ids_ascending(s),
        forall|i: int| 0 <= i < s.len() ==> (#[trigger] s[i]).id < l.id,
    ensures
        ids_ascending(s.push(l)),
        s.push(l).len() == s.len() + 1,
        s.push(l)[s.len() as int] == l,
{
    let s2 = s.push(l);
    assert forall|i: int, j: int| 0 <= i < j < s2.len() implies s2[i].id < s2[j].id by {
        if j < s.len() {
            assert(s[i].id < s[j].id);
        } else {
            assert(s2[j] == l);
            assert(s2[i] == s[i]);
        }
    }
}

/// Law: once the label at a position is removed, no listed label carries its
/// id any more, and the listing stays ordered by ascending id.
pub proof fn lemma_deleted_label_listed_no_more(s: Seq<Label>, k: int)
    requires
        ids_ascending(s),
        0 <= k < s.len(),
    ensures
        ids_ascending(s.remove(k)),
        forall|j: int| 0 <= j < s.remove(k).len() ==> (#[trigger] s.remove(k)[j]).id != s[k].id,
{
    let s2 = s.remove(k);
    s.remove_ensures(k);
    assert forall|i: int, j: int| 0 <= i < j < s2.len() implies s2[i].id < s2[j].id by {
        if j < k {
            assert(s2[i] == s[i] && s2[j] == s[j]);
        } else if i < k {
            assert(s2[i] == s[i] && s2[j] == s[j + 1]);
        } else {
            assert(s2[i] == s[i + 1] && s2[j] == s[j + 1]);
        }
    }
    assert forall|j: int| 0 <= j < s2.len() implies (#[trigger] s2[j]).id != s[k].id by {
        if j < k {
            assert(s2[j] == s[j]);
            assert(s[j].id < s[k].id);
        } else {
            assert(s2[j] == s[j + 1]);
            assert(s[k].id < s[j + 1].id);
        }
    }
}

} // verus!
