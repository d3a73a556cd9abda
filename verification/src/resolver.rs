//! Permission resolution: whether a user may read or write under an entry.
//! The walk starts at that entry and ascends from parent to parent until an
//! access group decides, the root is passed, or the depth limit is reached.
//!
//! Reading an entry is the caller's business. [`Resolver`] holds the state
//! of a walk: the caller reads the entry that `current_id` names, hands it
//! to [`Resolver::step`], and goes on as the result says.

use crate::consts::ROOT_ID;
use crate::entry::{Entry, EntryData, EntryDataView, EntryView};
use crate::error::DataError;
use crate::idset::{DefaultedIdSet, IdSetView};
use vstd::prelude::*;

verus! {

/// The largest number of entries that one walk reads.
pub const MAX_TRAVERSAL_DEPTH: usize = 4096;

/// What a user wants to do under an entry.
#[derive(Clone, Copy, Debug, PartialEq, Eq, Structural)]
pub enum PermKind {
    Read,
    Write,
}

impl EntryDataView {
    /// The permission set of an access group for `kind`; a message has
    /// none.
    pub open spec fn perm_set(self, kind: PermKind) -> Option<IdSetView> {
        match self {
            EntryDataView::AccessGroup { name, write_perms, read_perms } => Some(
                match kind {
                    PermKind::Read => read_perms,
                    PermKind::Write => write_perms,
                },
            ),
            EntryDataView::Message { .. } => None,
        }
    }
}

impl EntryView {
    /// What this entry alone decides for `user_id`.
    pub open spec fn decision(self, user_id: u64, kind: PermKind) -> Option<bool> {
        match self.entry_data.perm_set(kind) {
            Some(set) => set.contains(user_id),
            None => None,
        }
    }
}

/// The entries of a store, by id.
pub type Entries = Map<u64, EntryView>;

/// The outcome of a walk that starts at `current_id` and may read `fuel`
/// entries: the first decision on the way up; denial when the root decides
/// nothing; failure when an entry is missing or the fuel runs out.
pub open spec fn resolve(
    entries: Entries,
    user_id: u64,
    kind: PermKind,
    current_id: u64,
    fuel: nat,
) -> Result<bool, DataError>
    decreases fuel,
{
    if fuel == 0 {
        Err(DataError::InternalError)
    } else if !entries.contains_key(current_id) {
        Err(DataError::DoesNotExist)
    } else {
        match entries[current_id].decision(user_id, kind) {
            Some(allowed) => Ok(allowed),
            None => if current_id == ROOT_ID {
                Ok(false)
            } else {
                resolve(
                    entries,
                    user_id,
                    kind,
                    entries[current_id].header_data.parent_id,
                    (fuel - 1) as nat,
                )
            },
        }
    }
}

/// Whether `user_id` may do `kind` under the entry `target_id`.
pub open spec fn permitted(entries: Entries, user_id: u64, kind: PermKind, target_id: u64)
    -> Result<bool, DataError> {
    resolve(entries, user_id, kind, target_id, MAX_TRAVERSAL_DEPTH as nat)
}

/// `path` leads upwards through `entries`: each id but the last is followed
/// by its entry's parent, and none but the last is the root.
pub open spec fn is_ancestor_path(entries: Entries, path: Seq<u64>) -> bool {
    &&& path.len() > 0
    &&& forall|i: int| 0 <= i < path.len() ==> entries.contains_key(#[trigger] path[i])
    &&& forall|i: int|
        0 <= i < path.len() - 1 ==> #[trigger] path[i] != ROOT_ID && path[i + 1]
            == entries[path[i]].header_data.parent_id
}

/// A path that leads upwards still does without its first entry, and then
/// begins at that entry's parent.
proof fn lemma_path_rest(entries: Entries, path: Seq<u64>)
    requires
        is_ancestor_path(entries, path),
        path.len() > 1,
    ensures
        is_ancestor_path(entries, path.skip(1)),
        path[0] != ROOT_ID,
        path.skip(1)[0] == entries[path[0]].header_data.parent_id,
{
    let rest = path.skip(1);
    assert forall|i: int| 0 <= i < rest.len() - 1 implies #[trigger] rest[i] != ROOT_ID
        && rest[i + 1] == entries[rest[i]].header_data.parent_id by {
        assert(rest[i] == path[i + 1]);
    }
}

/// Where an ancestor allows the user and no entry before it on the way up
/// denies, the walk allows.
pub proof fn lemma_first_allow_wins(
    entries: Entries,
    user_id: u64,
    kind: PermKind,
    path: Seq<u64>,
    k: int,
    fuel: nat,
)
    requires
        is_ancestor_path(entries, path),
        0 <= k < path.len(),
        k < fuel,
        entries[path[k]].decision(user_id, kind) == Some(true),
        forall|j: int|
            0 <= j < k ==> entries[#[trigger] path[j]].decision(user_id, kind) != Some(false),
    ensures
        resolve(entries, user_id, kind, path[0], fuel) == Ok::<bool, DataError>(true),
    decreases k,
{
    if k > 0 && entries[path[0]].decision(user_id, kind) is None {
        let rest = path.skip(1);
        lemma_path_rest(entries, path);
        assert forall|j: int| 0 <= j < k - 1 implies entries[#[trigger] rest[j]].decision(
            user_id,
            kind,
        ) != Some(false) by {
            assert(rest[j] == path[j + 1]);
        }
        lemma_first_allow_wins(entries, user_id, kind, rest, k - 1, (fuel - 1) as nat);
    }
}

/// Where no entry from the target up to and including the root decides,
/// the walk denies.
pub proof fn lemma_no_decision_denies(
    entries: Entries,
    user_id: u64,
    kind: PermKind,
    path: Seq<u64>,
    fuel: nat,
)
    requires
        is_ancestor_path(entries, path),
        path.last() == ROOT_ID,
        path.len() <= fuel,
        forall|i: int|
            0 <= i < path.len() ==> entries[#[trigger] path[i]].decision(user_id, kind) is None,
    ensures
        resolve(entries, user_id, kind, path[0], fuel) == Ok::<bool, DataError>(false),
    decreases path.len(),
{
    if path.len() > 1 {
        let rest = path.skip(1);
        lemma_path_rest(entries, path);
        assert forall|i: int| 0 <= i < rest.len() implies entries[#[trigger] rest[i]].decision(
            user_id,
            kind,
        ) is None by {
            assert(rest[i] == path[i + 1]);
        }
        lemma_no_decision_denies(entries, user_id, kind, rest, (fuel - 1) as nat);
    }
}

/// Where the first entry on the way up that decides at all denies, the
/// walk denies.
pub proof fn lemma_first_deny_wins(
    entries: Entries,
    user_id: u64,
    kind: PermKind,
    path: Seq<u64>,
    k: int,
    fuel: nat,
)
    requires
        is_ancestor_path(entries, path),
        0 <= k < path.len(),
        k < fuel,
        entries[path[k]].decision(user_id, kind) == Some(false),
        forall|j: int|
            0 <= j < k ==> entries[#[trigger] path[j]].decision(user_id, kind) != Some(true),
    ensures
        resolve(entries, user_id, kind, path[0], fuel) == Ok::<bool, DataError>(false),
    decreases k,
{
    if k > 0 && entries[path[0]].decision(user_id, kind) is None {
        let rest = path.skip(1);
        lemma_path_rest(entries, path);
        assert forall|j: int| 0 <= j < k - 1 implies entries[#[trigger] rest[j]].decision(
            user_id,
            kind,
        ) != Some(true) by {
            assert(rest[j] == path[j + 1]);
        }
        lemma_first_deny_wins(entries, user_id, kind, rest, k - 1, (fuel - 1) as nat);
    }
}

impl EntryData {
    /// The permission set of an access group for `kind`; a message has
    /// none.
    pub fn perm_set(&self, kind: PermKind) -> (set: Option<&DefaultedIdSet>)
        ensures
            match set {
                Some(s) => self@.perm_set(kind) == Some(s@),
                None => self@.perm_set(kind) is None,
            },
    {
        match self {
            EntryData::AccessGroup { name: _, write_perms, read_perms } => Some(
                match kind {
                    PermKind::Read => read_perms,
                    PermKind::Write => write_perms,
                },
            ),
            EntryData::Message { .. } => None,
        }
    }
}

impl Entry {
    /// What this entry alone decides for `user_id`.
    pub fn decision(&self, user_id: u64, kind: PermKind) -> (decision: Option<bool>)
        ensures
            decision == self@.decision(user_id, kind),
    {
        match self.entry_data.perm_set(kind) {
            Some(set) => set.contains(user_id),
            None => None,
        }
    }
}

/// The state of a walk.
#[derive(Clone, Copy, Debug, PartialEq, Eq, Structural)]
pub struct Resolver {
    /// The user whose permission is in question.
    pub user_id: u64,
    pub kind: PermKind,
    /// The entry that the walk has reached and needs to see.
    pub current_id: u64,
    /// How many entries the walk may still read.
    pub reads_left: usize,
}

/// How a walk goes on after an entry was seen.
#[derive(Clone, Copy, Debug, PartialEq, Eq, Structural)]
pub enum ResolveStep {
    /// The walk is over: the user is allowed (`true`) or denied.
    Decided(bool),
    /// The walk moved on to the parent, which is to be read next.
    Ascend,
    /// The walk is over: it may read no more entries.
    TooDeep,
}

impl Resolver {
    /// The outcome of this walk over `entries`.
    pub open spec fn outcome(self, entries: Entries) -> Result<bool, DataError> {
        resolve(entries, self.user_id, self.kind, self.current_id, self.reads_left as nat)
    }

    /// The state after `entry` was seen at `current_id`, and how the walk
    /// goes on.
    pub open spec fn after(self, entry: EntryView) -> (Resolver, ResolveStep) {
        if self.reads_left == 0 {
            (self, ResolveStep::TooDeep)
        } else {
            match entry.decision(self.user_id, self.kind) {
                Some(allowed) => (self, ResolveStep::Decided(allowed)),
                None => if self.current_id == ROOT_ID {
                    (self, ResolveStep::Decided(false))
                } else if self.reads_left == 1 {
                    (self, ResolveStep::TooDeep)
                } else {
                    (
                        Resolver {
                            current_id: entry.header_data.parent_id,
                            reads_left: (self.reads_left - 1) as usize,
                            ..self
                        },
                        ResolveStep::Ascend,
                    )
                },
            }
        }
    }

    /// A walk for `user_id` and `kind` that starts at `target_id`.
    pub fn new(user_id: u64, kind: PermKind, target_id: u64) -> (resolver: Self)
        ensures
            resolver == (Resolver {
                user_id,
                kind,
                current_id: target_id,
                reads_left: MAX_TRAVERSAL_DEPTH,
            }),
    {
        Resolver { user_id, kind, current_id: target_id, reads_left: MAX_TRAVERSAL_DEPTH }
    }

    /// Takes the walk one entry further: `entry` is what the store holds
    /// at `current_id`.
    pub fn step(&mut self, entry: &Entry) -> (step: ResolveStep)
        ensures
            (*final(self), step) == old(self).after(entry@),
    {
        if self.reads_left == 0 {
            return ResolveStep::TooDeep;
        }
        match entry.decision(self.user_id, self.kind) {
            Some(allowed) => ResolveStep::Decided(allowed),
            None => {
                if self.current_id == ROOT_ID {
                    ResolveStep::Decided(false)
                } else if self.reads_left == 1 {
                    ResolveStep::TooDeep
                } else {
                    self.current_id = entry.header_data.parent_id;
                    self.reads_left = self.reads_left - 1;
                    ResolveStep::Ascend
                }
            },
        }
    }
}

/// A walk that starts afresh has the outcome that the rules prescribe.
pub proof fn lemma_new_walk_outcome(entries: Entries, user_id: u64, kind: PermKind, target_id: u64)
    ensures
        (Resolver {
            user_id,
            kind,
            current_id: target_id,
            reads_left: MAX_TRAVERSAL_DEPTH,
        }).outcome(entries) == permitted(entries, user_id, kind, target_id),
{
}

/// One step keeps the outcome of a walk: what it decides is the outcome,
/// and where it ascends, the outcome is that of the walk from there.
pub proof fn lemma_step_keeps_outcome(resolver: Resolver, entries: Entries)
    requires
        entries.contains_key(resolver.current_id),
    ensures
        ({
            let (next, step) = resolver.after(entries[resolver.current_id]);
            resolver.outcome(entries) == match step {
                ResolveStep::Decided(allowed) => Ok::<bool, DataError>(allowed),
                ResolveStep::TooDeep => Err::<bool, DataError>(DataError::InternalError),
                ResolveStep::Ascend => next.outcome(entries),
            }
        }),
{
    let entry = entries[resolver.current_id];
    if resolver.reads_left == 1 && entry.decision(resolver.user_id, resolver.kind) is None
        && resolver.current_id != ROOT_ID {
        assert(resolve(
            entries,
            resolver.user_id,
            resolver.kind,
            entry.header_data.parent_id,
            0,
        ) == Err::<bool, DataError>(DataError::InternalError));
    }
}

/// A walk that has reached an entry which the store lacks, fails.
pub proof fn lemma_missing_entry_fails(resolver: Resolver, entries: Entries)
    requires
        !entries.contains_key(resolver.current_id),
        resolver.reads_left > 0,
    ensures
        resolver.outcome(entries) == Err::<bool, DataError>(DataError::DoesNotExist),
{
}

} // verus!
