//! The board as a whole: what a store holds, what its operations do to it,
//! and what the handling of a request comes to when every operation that
//! the handler asks for is performed on such a store.

use crate::consts::{ENTRY_FILE_VERSION, ROOT_ID};
use crate::entry::EntryView;
use crate::error::DataError;
use crate::handler::{HandlerStepView, HandlerView, StoreOpView, StoreReplyView};
use crate::request::BoardRequestView;
use crate::resolver::{
    lemma_step_keeps_outcome, permitted, PermKind, ResolveStep, Resolver, MAX_TRAVERSAL_DEPTH,
};
use crate::response::BoardResponseView;
use crate::store::{lemma_next_id_is_fresh, next_id};
use crate::user::UserDataView;
use vstd::prelude::*;

verus! {

/// What a store holds: its entries and its user records by id, and the
/// list of all users.
pub struct StoreState {
    pub entries: Map<u64, EntryView>,
    pub users: Map<u64, UserDataView>,
    pub user_list: Seq<u64>,
}

/// The order in which a store lists a set of ids.
pub type Listing = spec_fn(Set<u64>) -> Seq<u64>;

/// An answer with the store as the request leaves it.
pub type Outcome = (StoreState, Result<BoardResponseView, DataError>);

impl StoreState {
    /// The store after the operation `op`, and the reply to it, where
    /// nothing fails but what the rules of the store make fail: an entry
    /// or a user that is missing, a record that exists already where a
    /// new one is to be written, an entry or a record that cannot be
    /// encoded.
    pub open spec fn perform(self, op: StoreOpView, listing: Listing) -> (
        StoreState,
        StoreReplyView,
    ) {
        match op {
            StoreOpView::ReadEntry(id) => if self.entries.contains_key(id) {
                (self, StoreReplyView::Entry(self.entries[id]))
            } else {
                (self, StoreReplyView::Failed(DataError::DoesNotExist))
            },
            StoreOpView::WriteEntryNew(id, entry) => if self.entries.contains_key(id) {
                (self, StoreReplyView::Failed(DataError::AlreadyExists))
            } else if !entry.encodable() {
                (self, StoreReplyView::Failed(DataError::OOBUsizeConversion))
            } else {
                (
                    StoreState { entries: self.entries.insert(id, entry.as_stored()), ..self },
                    StoreReplyView::Done,
                )
            },
            StoreOpView::WriteEntryForce(id, entry) => if !entry.encodable() {
                (self, StoreReplyView::Failed(DataError::OOBUsizeConversion))
            } else {
                (
                    StoreState { entries: self.entries.insert(id, entry.as_stored()), ..self },
                    StoreReplyView::Done,
                )
            },
            StoreOpView::ReadUser(id) => if self.users.contains_key(id) {
                (self, StoreReplyView::User(self.users[id]))
            } else {
                (self, StoreReplyView::Failed(DataError::DoesNotExist))
            },
            StoreOpView::WriteUser(id, user) => if !self.users.contains_key(id) {
                (self, StoreReplyView::Failed(DataError::DoesNotExist))
            } else if !user.encodable() {
                (self, StoreReplyView::Failed(DataError::OOBUsizeConversion))
            } else {
                (StoreState { users: self.users.insert(id, user), ..self }, StoreReplyView::Done)
            },
            StoreOpView::CreateUserFile(id) => if self.users.contains_key(id) {
                (self, StoreReplyView::Failed(DataError::AlreadyExists))
            } else {
                (
                    StoreState {
                        users: self.users.insert(id, UserDataView { entry_ids: Seq::empty() }),
                        ..self
                    },
                    StoreReplyView::Done,
                )
            },
            StoreOpView::ReadUserList => (self, StoreReplyView::Ids(self.user_list)),
            StoreOpView::AppendUserId(id) => (
                StoreState { user_list: self.user_list.push(id), ..self },
                StoreReplyView::Done,
            ),
            StoreOpView::ListEntryIds => (
                self,
                StoreReplyView::Ids(listing(self.entries.dom())),
            ),
        }
    }
}

/// What comes of a handler that stands at `step` when each operation that
/// it asks for is performed on `store`, as long as `fuel` operations are
/// not used up.
pub open spec fn run(store: StoreState, step: HandlerStepView, listing: Listing, fuel: nat)
    -> Outcome
    decreases fuel,
{
    match step {
        HandlerStepView::Finish(answer) => (store, answer),
        HandlerStepView::Ask(handler, op) => if fuel == 0 {
            (store, Err(DataError::InternalError))
        } else {
            let (after, reply) = store.perform(op, listing);
            run(after, handler.next(reply), listing, (fuel - 1) as nat)
        },
    }
}

/// The answer to a walk through the permissions: `granted` where it
/// allows, a refusal where it denies, its failure where it fails.
pub open spec fn if_permitted(
    walk: Result<bool, DataError>,
    store: StoreState,
    granted: Outcome,
) -> Outcome {
    match walk {
        Ok(true) => granted,
        Ok(false) => (store, Err(DataError::InsufficientPerms)),
        Err(e) => (store, Err(e)),
    }
}

/// Reading an entry: its author may always; another user may where the
/// permissions to read under the entry's parent allow. The store stays as
/// it is.
pub open spec fn get_entry(store: StoreState, user_id: u64, entry_id: u64) -> Outcome {
    if !store.entries.contains_key(entry_id) {
        (store, Err(DataError::DoesNotExist))
    } else {
        let entry = store.entries[entry_id];
        let answer = (store, Ok(BoardResponseView::GetEntry(entry)));
        if entry.header_data.author_id == user_id {
            answer
        } else {
            if_permitted(
                permitted(store.entries, user_id, PermKind::Read, entry.header_data.parent_id),
                store,
                answer,
            )
        }
    }
}

/// Adding an entry once it is permitted: the entry is written under a new
/// id, the new id is added to the children of the parent, then to the
/// entries of the author. What was written before a failure stays written.
pub open spec fn write_entry(store: StoreState, user_id: u64, entry: EntryView, listing: Listing)
    -> Outcome {
    let parent_id = entry.header_data.parent_id;
    match next_id(listing(store.entries.dom())) {
        None => (store, Err(DataError::InternalError)),
        Some(new_id) => if store.entries.contains_key(new_id) {
            (store, Err(DataError::AlreadyExists))
        } else if !entry.encodable() {
            (store, Err(DataError::OOBUsizeConversion))
        } else {
            let written = StoreState {
                entries: store.entries.insert(new_id, entry.as_stored()),
                ..store
            };
            let parent = store.entries[parent_id].with_child(new_id);
            if !parent.encodable() {
                (written, Err(DataError::OOBUsizeConversion))
            } else {
                let linked = StoreState {
                    entries: written.entries.insert(parent_id, parent.as_stored()),
                    ..written
                };
                if !store.users.contains_key(user_id) {
                    (linked, Err(DataError::DoesNotExist))
                } else {
                    let user = store.users[user_id].with_entry(new_id);
                    if !user.encodable() {
                        (linked, Err(DataError::OOBUsizeConversion))
                    } else {
                        (
                            StoreState { users: linked.users.insert(user_id, user), ..linked },
                            Ok(BoardResponseView::AddEntry(new_id)),
                        )
                    }
                }
            }
        },
    }
}

/// Adding an entry: where the permissions to write under its parent
/// allow, it is written; the store stays as it is where they do not.
pub open spec fn add_entry(store: StoreState, user_id: u64, entry: EntryView, listing: Listing)
    -> Outcome {
    if_permitted(
        permitted(store.entries, user_id, PermKind::Write, entry.header_data.parent_id),
        store,
        write_entry(store, user_id, entry, listing),
    )
}

/// Reading a user record. The store stays as it is.
pub open spec fn get_user(store: StoreState, user_id: u64) -> Outcome {
    if store.users.contains_key(user_id) {
        (store, Ok(BoardResponseView::GetUser(store.users[user_id])))
    } else {
        (store, Err(DataError::DoesNotExist))
    }
}

/// Adding a user: a new id joins the list of users, and gets the record of
/// a user who has written nothing.
pub open spec fn add_user(store: StoreState) -> Outcome {
    match next_id(store.user_list) {
        None => (store, Err(DataError::InternalError)),
        Some(new_id) => {
            let listed = StoreState { user_list: store.user_list.push(new_id), ..store };
            if store.users.contains_key(new_id) {
                (listed, Err(DataError::AlreadyExists))
            } else {
                (
                    StoreState {
                        users: listed.users.insert(
                            new_id,
                            UserDataView { entry_ids: Seq::empty() },
                        ),
                        ..listed
                    },
                    Ok(BoardResponseView::AddUser(new_id)),
                )
            }
        },
    }
}

/// What a request comes to on a store.
pub open spec fn handle(store: StoreState, request: BoardRequestView, listing: Listing) -> Outcome {
    match request {
        BoardRequestView::GetEntry { user_id, entry_id } => get_entry(store, user_id, entry_id),
        BoardRequestView::AddEntry { user_id, entry } => add_entry(store, user_id, entry, listing),
        BoardRequestView::GetUser { user_id } => get_user(store, user_id),
        BoardRequestView::AddUser => add_user(store),
    }
}

/// A handler that has its answer is done, whatever fuel is left.
proof fn lemma_run_finished(
    store: StoreState,
    answer: Result<BoardResponseView, DataError>,
    listing: Listing,
    fuel: nat,
)
    ensures
        run(store, HandlerStepView::Finish(answer), listing, fuel) == (store, answer),
{
}

/// One operation further.
proof fn lemma_run_step(
    store: StoreState,
    handler: HandlerView,
    op: StoreOpView,
    listing: Listing,
    fuel: nat,
)
    requires
        fuel > 0,
    ensures
        run(store, HandlerStepView::Ask(handler, op), listing, fuel) == run(
            store.perform(op, listing).0,
            handler.next(store.perform(op, listing).1),
            listing,
            (fuel - 1) as nat,
        ),
{
}

/// A walk for reading comes to what the permissions say.
proof fn lemma_run_read_walk(
    store: StoreState,
    entry: EntryView,
    resolver: Resolver,
    listing: Listing,
    fuel: nat,
)
    requires
        resolver.reads_left >= 1,
        fuel >= resolver.reads_left,
    ensures
        run(
            store,
            HandlerStepView::Ask(
                (HandlerView::ResolvingRead { entry, resolver }),
                StoreOpView::ReadEntry(resolver.current_id),
            ),
            listing,
            fuel,
        ) == if_permitted(
            resolver.outcome(store.entries),
            store,
            (store, Ok(BoardResponseView::GetEntry(entry))),
        ),
    decreases resolver.reads_left,
{
    let handler = HandlerView::ResolvingRead { entry, resolver };
    let op = StoreOpView::ReadEntry(resolver.current_id);
    lemma_run_step(store, handler, op, listing, fuel);
    let left = (fuel - 1) as nat;
    if !store.entries.contains_key(resolver.current_id) {
        lemma_run_finished(store, Err(DataError::DoesNotExist), listing, left);
    } else {
        let seen = store.entries[resolver.current_id];
        let (next, walk) = resolver.after(seen);
        lemma_step_keeps_outcome(resolver, store.entries);
        match walk {
            ResolveStep::Decided(true) => {
                lemma_run_finished(store, Ok(BoardResponseView::GetEntry(entry)), listing, left);
            },
            ResolveStep::Decided(false) => {
                lemma_run_finished(store, Err(DataError::InsufficientPerms), listing, left);
            },
            ResolveStep::TooDeep => {
                lemma_run_finished(store, Err(DataError::InternalError), listing, left);
            },
            ResolveStep::Ascend => {
                lemma_run_read_walk(store, entry, next, listing, left);
            },
        }
    }
}

/// The writes that add an entry come to what `write_entry` says.
proof fn lemma_run_write_entry(
    store: StoreState,
    user_id: u64,
    entry: EntryView,
    listing: Listing,
    fuel: nat,
)
    requires
        fuel >= 6,
        store.entries.contains_key(entry.header_data.parent_id),
    ensures
        run(
            store,
            HandlerStepView::Ask(
                (HandlerView::AwaitEntryIds { user_id, entry }),
                StoreOpView::ListEntryIds,
            ),
            listing,
            fuel,
        ) == write_entry(store, user_id, entry, listing),
{
    let parent_id = entry.header_data.parent_id;
    let f1 = (fuel - 1) as nat;
    let f2 = (fuel - 2) as nat;
    let f3 = (fuel - 3) as nat;
    let f4 = (fuel - 4) as nat;
    let f5 = (fuel - 5) as nat;
    let f6 = (fuel - 6) as nat;
    lemma_run_step(
        store,
        HandlerView::AwaitEntryIds { user_id, entry },
        StoreOpView::ListEntryIds,
        listing,
        fuel,
    );
    match next_id(listing(store.entries.dom())) {
        None => {
            lemma_run_finished(store, Err(DataError::InternalError), listing, f1);
        },
        Some(new_id) => {
            lemma_run_step(
                store,
                HandlerView::AwaitWriteNew { user_id, new_id, parent_id },
                StoreOpView::WriteEntryNew(new_id, entry),
                listing,
                f1,
            );
            if store.entries.contains_key(new_id) {
                lemma_run_finished(store, Err(DataError::AlreadyExists), listing, f2);
            } else if !entry.encodable() {
                lemma_run_finished(store, Err(DataError::OOBUsizeConversion), listing, f2);
            } else {
                let written = StoreState {
                    entries: store.entries.insert(new_id, entry.as_stored()),
                    ..store
                };
                lemma_run_step(
                    written,
                    HandlerView::AwaitParent { user_id, new_id, parent_id },
                    StoreOpView::ReadEntry(parent_id),
                    listing,
                    f2,
                );
                let parent = store.entries[parent_id].with_child(new_id);
                lemma_run_step(
                    written,
                    HandlerView::AwaitParentWrite { user_id, new_id },
                    StoreOpView::WriteEntryForce(parent_id, parent),
                    listing,
                    f3,
                );
                if !parent.encodable() {
                    lemma_run_finished(written, Err(DataError::OOBUsizeConversion), listing, f4);
                } else {
                    let linked = StoreState {
                        entries: written.entries.insert(parent_id, parent.as_stored()),
                        ..written
                    };
                    lemma_run_step(
                        linked,
                        HandlerView::AwaitUser { user_id, new_id },
                        StoreOpView::ReadUser(user_id),
                        listing,
                        f4,
                    );
                    if !store.users.contains_key(user_id) {
                        lemma_run_finished(linked, Err(DataError::DoesNotExist), listing, f5);
                    } else {
                        let user = store.users[user_id].with_entry(new_id);
                        lemma_run_step(
                            linked,
                            HandlerView::AwaitUserWrite { new_id },
                            StoreOpView::WriteUser(user_id, user),
                            listing,
                            f5,
                        );
                        if !user.encodable() {
                            lemma_run_finished(
                                linked,
                                Err(DataError::OOBUsizeConversion),
                                listing,
                                f6,
                            );
                        } else {
                            lemma_run_finished(
                                StoreState { users: linked.users.insert(user_id, user), ..linked },
                                Ok(BoardResponseView::AddEntry(new_id)),
                                listing,
                                f6,
                            );
                        }
                    }
                }
            }
        },
    }
}

/// A walk for writing comes to what the permissions say, and to the writes
/// where they allow.
proof fn lemma_run_write_walk(
    store: StoreState,
    user_id: u64,
    entry: EntryView,
    resolver: Resolver,
    listing: Listing,
    fuel: nat,
)
    requires
        resolver.reads_left >= 1,
        fuel >= resolver.reads_left + 6,
        store.entries.contains_key(entry.header_data.parent_id),
    ensures
        run(
            store,
            HandlerStepView::Ask(
                (HandlerView::ResolvingWrite { user_id, entry, resolver }),
                StoreOpView::ReadEntry(resolver.current_id),
            ),
            listing,
            fuel,
        ) == if_permitted(
            resolver.outcome(store.entries),
            store,
            write_entry(store, user_id, entry, listing),
        ),
    decreases resolver.reads_left,
{
    let handler = HandlerView::ResolvingWrite { user_id, entry, resolver };
    let op = StoreOpView::ReadEntry(resolver.current_id);
    lemma_run_step(store, handler, op, listing, fuel);
    let left = (fuel - 1) as nat;
    if !store.entries.contains_key(resolver.current_id) {
        lemma_run_finished(store, Err(DataError::DoesNotExist), listing, left);
    } else {
        let seen = store.entries[resolver.current_id];
        let (next, walk) = resolver.after(seen);
        lemma_step_keeps_outcome(resolver, store.entries);
        match walk {
            ResolveStep::Decided(true) => {
                lemma_run_write_entry(store, user_id, entry, listing, left);
            },
            ResolveStep::Decided(false) => {
                lemma_run_finished(store, Err(DataError::InsufficientPerms), listing, left);
            },
            ResolveStep::TooDeep => {
                lemma_run_finished(store, Err(DataError::InternalError), listing, left);
            },
            ResolveStep::Ascend => {
                lemma_run_write_walk(store, user_id, entry, next, listing, left);
            },
        }
    }
}

/// The handler does what the rules of the board say: run against a store,
/// it leaves the store, and gives the answer, that `handle` prescribes for
/// the request. It is done after at most as many operations of the store
/// as the longest walk through the permissions reads entries, and six more.
pub proof fn lemma_handler_carries_out_request(
    store: StoreState,
    request: BoardRequestView,
    listing: Listing,
    fuel: nat,
)
    requires
        fuel >= MAX_TRAVERSAL_DEPTH + 6,
    ensures
        run(store, HandlerView::first(request), listing, fuel) == handle(store, request, listing),
{
    let f1 = (fuel - 1) as nat;
    let f2 = (fuel - 2) as nat;
    let f3 = (fuel - 3) as nat;
    match request {
        BoardRequestView::GetEntry { user_id, entry_id } => {
            lemma_run_step(
                store,
                HandlerView::AwaitEntry { user_id },
                StoreOpView::ReadEntry(entry_id),
                listing,
                fuel,
            );
            if !store.entries.contains_key(entry_id) {
                lemma_run_finished(store, Err(DataError::DoesNotExist), listing, f1);
            } else {
                let entry = store.entries[entry_id];
                if entry.header_data.author_id == user_id {
                    lemma_run_finished(
                        store,
                        Ok(BoardResponseView::GetEntry(entry)),
                        listing,
                        f1,
                    );
                } else {
                    let resolver = Resolver {
                        user_id,
                        kind: PermKind::Read,
                        current_id: entry.header_data.parent_id,
                        reads_left: MAX_TRAVERSAL_DEPTH,
                    };
                    lemma_run_read_walk(store, entry, resolver, listing, f1);
                }
            }
        },
        BoardRequestView::AddEntry { user_id, entry } => {
            let resolver = Resolver {
                user_id,
                kind: PermKind::Write,
                current_id: entry.header_data.parent_id,
                reads_left: MAX_TRAVERSAL_DEPTH,
            };
            if store.entries.contains_key(entry.header_data.parent_id) {
                lemma_run_write_walk(store, user_id, entry, resolver, listing, fuel);
            } else {
                lemma_run_step(
                    store,
                    HandlerView::ResolvingWrite { user_id, entry, resolver },
                    StoreOpView::ReadEntry(resolver.current_id),
                    listing,
                    fuel,
                );
                lemma_run_finished(store, Err(DataError::DoesNotExist), listing, f1);
            }
        },
        BoardRequestView::GetUser { user_id } => {
            lemma_run_step(
                store,
                HandlerView::AwaitUserRecord,
                StoreOpView::ReadUser(user_id),
                listing,
                fuel,
            );
            if store.users.contains_key(user_id) {
                lemma_run_finished(
                    store,
                    Ok(BoardResponseView::GetUser(store.users[user_id])),
                    listing,
                    f1,
                );
            } else {
                lemma_run_finished(store, Err(DataError::DoesNotExist), listing, f1);
            }
        },
        BoardRequestView::AddUser => {
            lemma_run_step(
                store,
                HandlerView::AwaitUserList,
                StoreOpView::ReadUserList,
                listing,
                fuel,
            );
            match next_id(store.user_list) {
                None => {
                    lemma_run_finished(store, Err(DataError::InternalError), listing, f1);
                },
                Some(new_id) => {
                    lemma_run_step(
                        store,
                        HandlerView::AwaitAppend { new_id },
                        StoreOpView::AppendUserId(new_id),
                        listing,
                        f1,
                    );
                    let listed = StoreState { user_list: store.user_list.push(new_id), ..store };
                    lemma_run_step(
                        listed,
                        HandlerView::AwaitCreate { new_id },
                        StoreOpView::CreateUserFile(new_id),
                        listing,
                        f2,
                    );
                    if store.users.contains_key(new_id) {
                        lemma_run_finished(listed, Err(DataError::AlreadyExists), listing, f3);
                    } else {
                        lemma_run_finished(
                            StoreState {
                                users: listed.users.insert(
                                    new_id,
                                    UserDataView { entry_ids: Seq::empty() },
                                ),
                                ..listed
                            },
                            Ok(BoardResponseView::AddUser(new_id)),
                            listing,
                            f3,
                        );
                    }
                },
            }
        },
    }
}

/// Whoever wrote an entry may read it, whatever the permissions above it
/// say.
pub proof fn lemma_author_reads_own_entry(
    store: StoreState,
    user_id: u64,
    entry_id: u64,
    listing: Listing,
)
    requires
        store.entries.contains_key(entry_id),
        store.entries[entry_id].header_data.author_id == user_id,
    ensures
        handle(store, (BoardRequestView::GetEntry { user_id, entry_id }), listing) == (
            store,
            Ok::<BoardResponseView, DataError>(
                BoardResponseView::GetEntry(store.entries[entry_id]),
            ),
        ),
{
}

/// Reading leaves the store as it is.
pub proof fn lemma_reading_changes_nothing(
    store: StoreState,
    request: BoardRequestView,
    listing: Listing,
)
    requires
        request is GetEntry || request is GetUser,
    ensures
        handle(store, request, listing).0 == store,
{
}

/// An entry that may not be added is not added: the request is refused and
/// the store stays as it is.
pub proof fn lemma_denied_entry_changes_nothing(
    store: StoreState,
    user_id: u64,
    entry: EntryView,
    listing: Listing,
)
    requires
        permitted(store.entries, user_id, PermKind::Write, entry.header_data.parent_id) == Ok::<
            bool,
            DataError,
        >(false),
    ensures
        handle(store, (BoardRequestView::AddEntry { user_id, entry }), listing) == (
            store,
            Err::<BoardResponseView, DataError>(DataError::InsufficientPerms),
        ),
{
}

/// Where a store lists its entries faithfully, an entry that is added gets
/// an id that no entry had; the store then holds the entry under that id,
/// the parent has the id as its last child, and the author's record has it
/// as its last entry. Nothing else in the store changes.
pub proof fn lemma_added_entry(
    store: StoreState,
    user_id: u64,
    entry: EntryView,
    listing: Listing,
    new_id: u64,
)
    requires
        listing(store.entries.dom()).to_set() == store.entries.dom(),
        handle(store, (BoardRequestView::AddEntry { user_id, entry }), listing).1 == Ok::<
            BoardResponseView,
            DataError,
        >(BoardResponseView::AddEntry(new_id)),
    ensures
        ({
            let after = handle(store, (BoardRequestView::AddEntry { user_id, entry }), listing).0;
            let parent_id = entry.header_data.parent_id;
            &&& new_id != 0
            &&& !store.entries.contains_key(new_id)
            &&& store.entries.contains_key(parent_id)
            &&& store.users.contains_key(user_id)
            &&& after.entries == store.entries.insert(new_id, entry.as_stored()).insert(
                parent_id,
                store.entries[parent_id].with_child(new_id).as_stored(),
            )
            &&& after.entries[new_id] == entry.as_stored()
            &&& after.users == store.users.insert(
                user_id,
                store.users[user_id].with_entry(new_id),
            )
            &&& after.user_list == store.user_list
        }),
{
    lemma_next_id_is_fresh(listing(store.entries.dom()));
}

/// A user that is added gets an id that is not zero and that the list of
/// users did not hold; the id then ends the list, and the user has the
/// record of one who has written nothing. The entries stay as they are.
pub proof fn lemma_added_user(store: StoreState, listing: Listing, new_id: u64)
    requires
        handle(store, BoardRequestView::AddUser, listing).1 == Ok::<BoardResponseView, DataError>(
            BoardResponseView::AddUser(new_id),
        ),
    ensures
        ({
            let after = handle(store, BoardRequestView::AddUser, listing).0;
            &&& new_id != 0
            &&& !store.user_list.contains(new_id)
            &&& !store.users.contains_key(new_id)
            &&& after.user_list == store.user_list.push(new_id)
            &&& after.users == store.users.insert(
                new_id,
                (UserDataView { entry_ids: Seq::empty() }),
            )
            &&& after.entries == store.entries
        }),
{
    lemma_next_id_is_fresh(store.user_list);
}

/// An entry that its author has added can be read by its author as it was
/// stored.
pub proof fn lemma_added_entry_is_read_back(
    store: StoreState,
    user_id: u64,
    entry: EntryView,
    listing: Listing,
    new_id: u64,
)
    requires
        listing(store.entries.dom()).to_set() == store.entries.dom(),
        entry.header_data.author_id == user_id,
        handle(store, (BoardRequestView::AddEntry { user_id, entry }), listing).1 == Ok::<
            BoardResponseView,
            DataError,
        >(BoardResponseView::AddEntry(new_id)),
    ensures
        ({
            let after = handle(store, (BoardRequestView::AddEntry { user_id, entry }), listing).0;
            handle(after, (BoardRequestView::GetEntry { user_id, entry_id: new_id }), listing) == (
                after,
                Ok::<BoardResponseView, DataError>(
                    BoardResponseView::GetEntry(entry.as_stored()),
                ),
            )
        }),
{
    lemma_added_entry(store, user_id, entry, listing, new_id);
}

/// The entries form a tree: the root is there, is its own parent and is an
/// access group, and the parent of every entry is there.
pub open spec fn is_tree(entries: Map<u64, EntryView>) -> bool {
    &&& entries.contains_key(ROOT_ID)
    &&& entries[ROOT_ID].header_data.parent_id == ROOT_ID
    &&& entries[ROOT_ID].entry_data is AccessGroup
    &&& forall|id: u64| #[trigger]
        entries.contains_key(id) ==> entries.contains_key(entries[id].header_data.parent_id)
}

/// Whatever the request and however it ends, the entries still form a tree
/// afterwards.
pub proof fn lemma_handling_keeps_the_tree(
    store: StoreState,
    request: BoardRequestView,
    listing: Listing,
)
    requires
        is_tree(store.entries),
    ensures
        is_tree(handle(store, request, listing).0.entries),
{
    if request is AddEntry && next_id(listing(store.entries.dom())) is Some {
        lemma_next_id_is_fresh(listing(store.entries.dom()));
    }
}

/// Nothing is ever taken out of a store: after a request every entry and
/// every user that was there is still there, and the list of users begins
/// as it did before.
pub proof fn lemma_handling_destroys_nothing(
    store: StoreState,
    request: BoardRequestView,
    listing: Listing,
)
    ensures
        ({
            let after = handle(store, request, listing).0;
            &&& store.entries.dom().subset_of(after.entries.dom())
            &&& store.users.dom().subset_of(after.users.dom())
            &&& store.user_list.is_prefix_of(after.user_list)
        }),
{
}

/// An entry, once written, stays as it is, but for the children that it
/// gets: after a request every entry that was there is what it was, or
/// what it was with one more child.
pub proof fn lemma_entries_change_by_children_only(
    store: StoreState,
    request: BoardRequestView,
    listing: Listing,
    id: u64,
)
    requires
        store.entries.contains_key(id),
        store.entries[id].header_data.version == ENTRY_FILE_VERSION,
    ensures
        ({
            let before = store.entries[id];
            let after = handle(store, request, listing).0.entries[id];
            ||| after == before
            ||| exists|child_id: u64|
                !store.entries.contains_key(child_id) && after == before.with_child(child_id)
        }),
{
}

} // verus!
