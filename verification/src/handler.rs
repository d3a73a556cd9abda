//! The request handler: what the board does with one request.
//!
//! The handler never touches the store itself. It says which operation of
//! the store it needs next ([`HandlerStep::Ask`]); whoever runs it performs
//! that operation and hands back what came of it ([`StoreReply`]), until
//! the handler has its answer ([`HandlerStep::Finish`]).

use crate::entry::{Entry, EntryView, HeaderView};
use crate::error::DataError;
use crate::request::{BoardRequest, BoardRequestView};
use crate::resolver::{PermKind, ResolveStep, Resolver, MAX_TRAVERSAL_DEPTH};
use crate::response::{maybe_view, BoardResponse, BoardResponseView, MaybeBoardResponse};
use crate::store::{fresh_id, next_id};
use crate::user::{UserData, UserDataView};
use vstd::prelude::*;

verus! {

/// An operation of the store.
#[derive(PartialEq, Eq, Debug)]
pub enum StoreOp {
    /// Read the entry of this id.
    ReadEntry(u64),
    /// Write an entry under an id that has none yet.
    WriteEntryNew(u64, Entry),
    /// Write an entry, whether or not the id has one.
    WriteEntryForce(u64, Entry),
    /// Read the record of this user.
    ReadUser(u64),
    /// Write the record of a user that has one.
    WriteUser(u64, UserData),
    /// Create the empty record of a new user.
    CreateUserFile(u64),
    /// Read the ids of all users.
    ReadUserList,
    /// Add an id to the list of all users.
    AppendUserId(u64),
    /// Read the ids of all entries.
    ListEntryIds,
}

/// What came of an operation of the store.
#[derive(PartialEq, Eq, Debug)]
pub enum StoreReply {
    /// The entry that was read.
    Entry(Entry),
    /// The user record that was read.
    User(UserData),
    /// The ids that were read.
    Ids(Vec<u64>),
    /// The write was made.
    Done,
    /// The operation failed.
    Failed(DataError),
}

/// A request in the course of being handled: what the handler remembers
/// while it waits for the store.
#[derive(PartialEq, Eq, Debug)]
pub enum Handler {
    /// Reading an entry for `user_id`.
    AwaitEntry { user_id: u64 },
    /// Walking up from the parent of `entry` to see whether it may be
    /// read.
    ResolvingRead { entry: Entry, resolver: Resolver },
    /// Walking up from the parent of `entry` to see whether it may be
    /// added.
    ResolvingWrite { user_id: u64, entry: Entry, resolver: Resolver },
    /// Choosing an id for `entry`.
    AwaitEntryIds { user_id: u64, entry: Entry },
    /// Writing the new entry.
    AwaitWriteNew { user_id: u64, new_id: u64, parent_id: u64 },
    /// Reading the parent, to add the new entry to its children.
    AwaitParent { user_id: u64, new_id: u64, parent_id: u64 },
    /// Writing the parent back.
    AwaitParentWrite { user_id: u64, new_id: u64 },
    /// Reading the author's record, to add the new entry to it.
    AwaitUser { user_id: u64, new_id: u64 },
    /// Writing the author's record back.
    AwaitUserWrite { new_id: u64 },
    /// Reading a user record.
    AwaitUserRecord,
    /// Choosing an id for a new user.
    AwaitUserList,
    /// Adding the new user to the list of all users.
    AwaitAppend { new_id: u64 },
    /// Creating the new user's record.
    AwaitCreate { new_id: u64 },
}

/// What the handler wants next.
#[derive(PartialEq, Eq, Debug)]
pub enum HandlerStep {
    /// The store is to perform the operation; the handler goes on from
    /// the state given with it.
    Ask(Handler, StoreOp),
    /// The request is handled: this is its answer.
    Finish(MaybeBoardResponse),
}

/// An operation of the store as a mathematical value.
pub enum StoreOpView {
    ReadEntry(u64),
    WriteEntryNew(u64, EntryView),
    WriteEntryForce(u64, EntryView),
    ReadUser(u64),
    WriteUser(u64, UserDataView),
    CreateUserFile(u64),
    ReadUserList,
    AppendUserId(u64),
    ListEntryIds,
}

impl View for StoreOp {
    type V = StoreOpView;

    open spec fn view(&self) -> StoreOpView {
        match *self {
            StoreOp::ReadEntry(id) => StoreOpView::ReadEntry(id),
            StoreOp::WriteEntryNew(id, entry) => StoreOpView::WriteEntryNew(id, entry@),
            StoreOp::WriteEntryForce(id, entry) => StoreOpView::WriteEntryForce(id, entry@),
            StoreOp::ReadUser(id) => StoreOpView::ReadUser(id),
            StoreOp::WriteUser(id, user) => StoreOpView::WriteUser(id, user@),
            StoreOp::CreateUserFile(id) => StoreOpView::CreateUserFile(id),
            StoreOp::ReadUserList => StoreOpView::ReadUserList,
            StoreOp::AppendUserId(id) => StoreOpView::AppendUserId(id),
            StoreOp::ListEntryIds => StoreOpView::ListEntryIds,
        }
    }
}

/// A reply of the store as a mathematical value.
pub enum StoreReplyView {
    Entry(EntryView),
    User(UserDataView),
    Ids(Seq<u64>),
    Done,
    Failed(DataError),
}

impl View for StoreReply {
    type V = StoreReplyView;

    open spec fn view(&self) -> StoreReplyView {
        match *self {
            StoreReply::Entry(entry) => StoreReplyView::Entry(entry@),
            StoreReply::User(user) => StoreReplyView::User(user@),
            StoreReply::Ids(ids) => StoreReplyView::Ids(ids@),
            StoreReply::Done => StoreReplyView::Done,
            StoreReply::Failed(e) => StoreReplyView::Failed(e),
        }
    }
}

/// The state of a handler as a mathematical value.
pub enum HandlerView {
    AwaitEntry { user_id: u64 },
    ResolvingRead { entry: EntryView, resolver: Resolver },
    ResolvingWrite { user_id: u64, entry: EntryView, resolver: Resolver },
    AwaitEntryIds { user_id: u64, entry: EntryView },
    AwaitWriteNew { user_id: u64, new_id: u64, parent_id: u64 },
    AwaitParent { user_id: u64, new_id: u64, parent_id: u64 },
    AwaitParentWrite { user_id: u64, new_id: u64 },
    AwaitUser { user_id: u64, new_id: u64 },
    AwaitUserWrite { new_id: u64 },
    AwaitUserRecord,
    AwaitUserList,
    AwaitAppend { new_id: u64 },
    AwaitCreate { new_id: u64 },
}

impl View for Handler {
    type V = HandlerView;

    open spec fn view(&self) -> HandlerView {
        match *self {
            Handler::AwaitEntry { user_id } => HandlerView::AwaitEntry { user_id },
            Handler::ResolvingRead { entry, resolver } => HandlerView::ResolvingRead {
                entry: entry@,
                resolver,
            },
            Handler::ResolvingWrite { user_id, entry, resolver } => HandlerView::ResolvingWrite {
                user_id,
                entry: entry@,
                resolver,
            },
            Handler::AwaitEntryIds { user_id, entry } => HandlerView::AwaitEntryIds {
                user_id,
                entry: entry@,
            },
            Handler::AwaitWriteNew { user_id, new_id, parent_id } => HandlerView::AwaitWriteNew {
                user_id,
                new_id,
                parent_id,
            },
            Handler::AwaitParent { user_id, new_id, parent_id } => HandlerView::AwaitParent {
                user_id,
                new_id,
                parent_id,
            },
            Handler::AwaitParentWrite { user_id, new_id } => HandlerView::AwaitParentWrite {
                user_id,
                new_id,
            },
            Handler::AwaitUser { user_id, new_id } => HandlerView::AwaitUser { user_id, new_id },
            Handler::AwaitUserWrite { new_id } => HandlerView::AwaitUserWrite { new_id },
            Handler::AwaitUserRecord => HandlerView::AwaitUserRecord,
            Handler::AwaitUserList => HandlerView::AwaitUserList,
            Handler::AwaitAppend { new_id } => HandlerView::AwaitAppend { new_id },
            Handler::AwaitCreate { new_id } => HandlerView::AwaitCreate { new_id },
        }
    }
}

/// A step of a handler as a mathematical value.
pub enum HandlerStepView {
    Ask(HandlerView, StoreOpView),
    Finish(Result<BoardResponseView, DataError>),
}

impl View for HandlerStep {
    type V = HandlerStepView;

    open spec fn view(&self) -> HandlerStepView {
        match *self {
            HandlerStep::Ask(handler, op) => HandlerStepView::Ask(handler@, op@),
            HandlerStep::Finish(answer) => HandlerStepView::Finish(maybe_view(answer)),
        }
    }
}

impl EntryView {
    /// This entry with one more child.
    pub open spec fn with_child(self, child_id: u64) -> EntryView {
        EntryView {
            header_data: HeaderView {
                children_ids: self.header_data.children_ids.push(child_id),
                ..self.header_data
            },
            ..self
        }
    }
}

impl UserDataView {
    /// This record with one more entry.
    pub open spec fn with_entry(self, entry_id: u64) -> UserDataView {
        UserDataView { entry_ids: self.entry_ids.push(entry_id) }
    }
}

/// How the handler goes on after one step of a walk through the
/// permissions: `granted` where the walk allows, a refusal where it
/// denies, an internal error where it is too deep, and `ascend` where it
/// moved on.
pub open spec fn after_walk(walk: ResolveStep, granted: HandlerStepView, ascend: HandlerStepView)
    -> HandlerStepView {
    match walk {
        ResolveStep::Decided(true) => granted,
        ResolveStep::Decided(false) => HandlerStepView::Finish(Err(DataError::InsufficientPerms)),
        ResolveStep::TooDeep => HandlerStepView::Finish(Err(DataError::InternalError)),
        ResolveStep::Ascend => ascend,
    }
}

impl HandlerView {
    /// The first step for `request`: to read the entry that is asked for;
    /// to begin the walk that decides whether the new entry may be added
    /// under its parent; to read the user record that is asked for; to
    /// read the list of users, from which the new user's id is chosen.
    pub open spec fn first(request: BoardRequestView) -> HandlerStepView {
        match request {
            BoardRequestView::GetEntry { user_id, entry_id } => HandlerStepView::Ask(
                HandlerView::AwaitEntry { user_id },
                StoreOpView::ReadEntry(entry_id),
            ),
            BoardRequestView::AddEntry { user_id, entry } => HandlerStepView::Ask(
                HandlerView::ResolvingWrite {
                    user_id,
                    entry,
                    resolver: Resolver {
                        user_id,
                        kind: PermKind::Write,
                        current_id: entry.header_data.parent_id,
                        reads_left: MAX_TRAVERSAL_DEPTH,
                    },
                },
                StoreOpView::ReadEntry(entry.header_data.parent_id),
            ),
            BoardRequestView::GetUser { user_id } => HandlerStepView::Ask(
                HandlerView::AwaitUserRecord,
                StoreOpView::ReadUser(user_id),
            ),
            BoardRequestView::AddUser => HandlerStepView::Ask(
                HandlerView::AwaitUserList,
                StoreOpView::ReadUserList,
            ),
        }
    }

    /// How the handler goes on from this state when the store replies
    /// `reply`.
    ///
    /// A failure of the store ends the request with that failure, and a
    /// reply of a kind that the state does not wait for ends it with an
    /// internal error.
    pub open spec fn next(self, reply: StoreReplyView) -> HandlerStepView {
        match (self, reply) {
            (_, StoreReplyView::Failed(e)) => HandlerStepView::Finish(Err(e)),
            (HandlerView::AwaitEntry { user_id }, StoreReplyView::Entry(entry)) => {
                if entry.header_data.author_id == user_id {
                    HandlerStepView::Finish(Ok(BoardResponseView::GetEntry(entry)))
                } else {
                    HandlerStepView::Ask(
                        HandlerView::ResolvingRead {
                            entry,
                            resolver: Resolver {
                                user_id,
                                kind: PermKind::Read,
                                current_id: entry.header_data.parent_id,
                                reads_left: MAX_TRAVERSAL_DEPTH,
                            },
                        },
                        StoreOpView::ReadEntry(entry.header_data.parent_id),
                    )
                }
            },
            (HandlerView::ResolvingRead { entry, resolver }, StoreReplyView::Entry(seen)) => {
                let (next, walk) = resolver.after(seen);
                after_walk(
                    walk,
                    HandlerStepView::Finish(Ok(BoardResponseView::GetEntry(entry))),
                    HandlerStepView::Ask(
                        HandlerView::ResolvingRead { entry, resolver: next },
                        StoreOpView::ReadEntry(next.current_id),
                    ),
                )
            },
            (
                HandlerView::ResolvingWrite { user_id, entry, resolver },
                StoreReplyView::Entry(seen),
            ) => {
                let (next, walk) = resolver.after(seen);
                after_walk(
                    walk,
                    HandlerStepView::Ask(
                        HandlerView::AwaitEntryIds { user_id, entry },
                        StoreOpView::ListEntryIds,
                    ),
                    HandlerStepView::Ask(
                        HandlerView::ResolvingWrite { user_id, entry, resolver: next },
                        StoreOpView::ReadEntry(next.current_id),
                    ),
                )
            },
            (HandlerView::AwaitEntryIds { user_id, entry }, StoreReplyView::Ids(ids)) => {
                match next_id(ids) {
                    Some(new_id) => HandlerStepView::Ask(
                        HandlerView::AwaitWriteNew {
                            user_id,
                            new_id,
                            parent_id: entry.header_data.parent_id,
                        },
                        StoreOpView::WriteEntryNew(new_id, entry),
                    ),
                    None => HandlerStepView::Finish(Err(DataError::InternalError)),
                }
            },
            (HandlerView::AwaitWriteNew { user_id, new_id, parent_id }, StoreReplyView::Done) => {
                HandlerStepView::Ask(
                    HandlerView::AwaitParent { user_id, new_id, parent_id },
                    StoreOpView::ReadEntry(parent_id),
                )
            },
            (
                HandlerView::AwaitParent { user_id, new_id, parent_id },
                StoreReplyView::Entry(parent),
            ) => {
                HandlerStepView::Ask(
                    HandlerView::AwaitParentWrite { user_id, new_id },
                    StoreOpView::WriteEntryForce(parent_id, parent.with_child(new_id)),
                )
            },
            (HandlerView::AwaitParentWrite { user_id, new_id }, StoreReplyView::Done) => {
                HandlerStepView::Ask(
                    HandlerView::AwaitUser { user_id, new_id },
                    StoreOpView::ReadUser(user_id),
                )
            },
            (HandlerView::AwaitUser { user_id, new_id }, StoreReplyView::User(user)) => {
                HandlerStepView::Ask(
                    HandlerView::AwaitUserWrite { new_id },
                    StoreOpView::WriteUser(user_id, user.with_entry(new_id)),
                )
            },
            (HandlerView::AwaitUserWrite { new_id }, StoreReplyView::Done) => {
                HandlerStepView::Finish(Ok(BoardResponseView::AddEntry(new_id)))
            },
            (HandlerView::AwaitUserRecord, StoreReplyView::User(user)) => {
                HandlerStepView::Finish(Ok(BoardResponseView::GetUser(user)))
            },
            (HandlerView::AwaitUserList, StoreReplyView::Ids(ids)) => {
                match next_id(ids) {
                    Some(new_id) => HandlerStepView::Ask(
                        HandlerView::AwaitAppend { new_id },
                        StoreOpView::AppendUserId(new_id),
                    ),
                    None => HandlerStepView::Finish(Err(DataError::InternalError)),
                }
            },
            (HandlerView::AwaitAppend { new_id }, StoreReplyView::Done) => {
                HandlerStepView::Ask(
                    HandlerView::AwaitCreate { new_id },
                    StoreOpView::CreateUserFile(new_id),
                )
            },
            (HandlerView::AwaitCreate { new_id }, StoreReplyView::Done) => {
                HandlerStepView::Finish(Ok(BoardResponseView::AddUser(new_id)))
            },
            _ => HandlerStepView::Finish(Err(DataError::InternalError)),
        }
    }
}

/// Whoever wrote an entry may read it, whatever the permissions say: once
/// the store has handed over the entry that a user asked for, and that user
/// is its author, the request is answered with the entry.
pub proof fn lemma_author_may_read(user_id: u64, entry_id: u64, entry: EntryView)
    requires
        entry.header_data.author_id == user_id,
    ensures
        HandlerView::first((BoardRequestView::GetEntry { user_id, entry_id }))
            == HandlerStepView::Ask(
            (HandlerView::AwaitEntry { user_id }),
            StoreOpView::ReadEntry(entry_id),
        ),
        (HandlerView::AwaitEntry { user_id }).next(StoreReplyView::Entry(entry))
            == HandlerStepView::Finish(Ok(BoardResponseView::GetEntry(entry))),
{
}

impl Handler {
    /// Begins to handle `request`.
    pub fn start(request: BoardRequest) -> (step: HandlerStep)
        ensures
            step@ == HandlerView::first(request@),
    {
        match request {
            BoardRequest::GetEntry { user_id, entry_id } => HandlerStep::Ask(
                Handler::AwaitEntry { user_id },
                StoreOp::ReadEntry(entry_id),
            ),
            BoardRequest::AddEntry { user_id, entry } => {
                let parent_id = entry.header_data.parent_id;
                let resolver = Resolver::new(user_id, PermKind::Write, parent_id);
                HandlerStep::Ask(
                    Handler::ResolvingWrite { user_id, entry, resolver },
                    StoreOp::ReadEntry(parent_id),
                )
            },
            BoardRequest::GetUser { user_id } => HandlerStep::Ask(
                Handler::AwaitUserRecord,
                StoreOp::ReadUser(user_id),
            ),
            BoardRequest::AddUser => HandlerStep::Ask(
                Handler::AwaitUserList,
                StoreOp::ReadUserList,
            ),
        }
    }

    /// Goes on with the request now that the store has replied.
    pub fn advance(self, reply: StoreReply) -> (step: HandlerStep)
        ensures
            step@ == self@.next(reply@),
    {
        match (self, reply) {
            (_, StoreReply::Failed(e)) => HandlerStep::Finish(Err(e)),
            (Handler::AwaitEntry { user_id }, StoreReply::Entry(entry)) => {
                if entry.header_data.author_id == user_id {
                    HandlerStep::Finish(Ok(BoardResponse::GetEntry(entry)))
                } else {
                    let parent_id = entry.header_data.parent_id;
                    let resolver = Resolver::new(user_id, PermKind::Read, parent_id);
                    HandlerStep::Ask(
                        Handler::ResolvingRead { entry, resolver },
                        StoreOp::ReadEntry(parent_id),
                    )
                }
            },
            (Handler::ResolvingRead { entry, resolver }, StoreReply::Entry(seen)) => {
                let mut resolver = resolver;
                match resolver.step(&seen) {
                    ResolveStep::Decided(true) => HandlerStep::Finish(
                        Ok(BoardResponse::GetEntry(entry)),
                    ),
                    ResolveStep::Decided(false) => HandlerStep::Finish(
                        Err(DataError::InsufficientPerms),
                    ),
                    ResolveStep::TooDeep => HandlerStep::Finish(Err(DataError::InternalError)),
                    ResolveStep::Ascend => {
                        let next_id = resolver.current_id;
                        HandlerStep::Ask(
                            Handler::ResolvingRead { entry, resolver },
                            StoreOp::ReadEntry(next_id),
                        )
                    },
                }
            },
            (Handler::ResolvingWrite { user_id, entry, resolver }, StoreReply::Entry(seen)) => {
                let mut resolver = resolver;
                match resolver.step(&seen) {
                    ResolveStep::Decided(true) => HandlerStep::Ask(
                        Handler::AwaitEntryIds { user_id, entry },
                        StoreOp::ListEntryIds,
                    ),
                    ResolveStep::Decided(false) => HandlerStep::Finish(
                        Err(DataError::InsufficientPerms),
                    ),
                    ResolveStep::TooDeep => HandlerStep::Finish(Err(DataError::InternalError)),
                    ResolveStep::Ascend => {
                        let next_id = resolver.current_id;
                        HandlerStep::Ask(
                            Handler::ResolvingWrite { user_id, entry, resolver },
                            StoreOp::ReadEntry(next_id),
                        )
                    },
                }
            },
            (Handler::AwaitEntryIds { user_id, entry }, StoreReply::Ids(ids)) => {
                match fresh_id(&ids) {
                    Some(new_id) => {
                        let parent_id = entry.header_data.parent_id;
                        HandlerStep::Ask(
                            Handler::AwaitWriteNew { user_id, new_id, parent_id },
                            StoreOp::WriteEntryNew(new_id, entry),
                        )
                    },
                    None => HandlerStep::Finish(Err(DataError::InternalError)),
                }
            },
            (Handler::AwaitWriteNew { user_id, new_id, parent_id }, StoreReply::Done) => {
                HandlerStep::Ask(
                    Handler::AwaitParent { user_id, new_id, parent_id },
                    StoreOp::ReadEntry(parent_id),
                )
            },
            (Handler::AwaitParent { user_id, new_id, parent_id }, StoreReply::Entry(parent)) => {
                let mut updated = parent;
                updated.header_data.children_ids.push(new_id);
                HandlerStep::Ask(
                    Handler::AwaitParentWrite { user_id, new_id },
                    StoreOp::WriteEntryForce(parent_id, updated),
                )
            },
            (Handler::AwaitParentWrite { user_id, new_id }, StoreReply::Done) => {
                HandlerStep::Ask(Handler::AwaitUser { user_id, new_id }, StoreOp::ReadUser(user_id))
            },
            (Handler::AwaitUser { user_id, new_id }, StoreReply::User(user)) => {
                let mut updated = user;
                updated.entry_ids.push(new_id);
                HandlerStep::Ask(
                    Handler::AwaitUserWrite { new_id },
                    StoreOp::WriteUser(user_id, updated),
                )
            },
            (Handler::AwaitUserWrite { new_id }, StoreReply::Done) => {
                HandlerStep::Finish(Ok(BoardResponse::AddEntry(new_id)))
            },
            (Handler::AwaitUserRecord, StoreReply::User(user)) => {
                HandlerStep::Finish(Ok(BoardResponse::GetUser(user)))
            },
            (Handler::AwaitUserList, StoreReply::Ids(ids)) => {
                match fresh_id(&ids) {
                    Some(new_id) => HandlerStep::Ask(
                        Handler::AwaitAppend { new_id },
                        StoreOp::AppendUserId(new_id),
                    ),
                    None => HandlerStep::Finish(Err(DataError::InternalError)),
                }
            },
            (Handler::AwaitAppend { new_id }, StoreReply::Done) => {
                HandlerStep::Ask(Handler::AwaitCreate { new_id }, StoreOp::CreateUserFile(new_id))
            },
            (Handler::AwaitCreate { new_id }, StoreReply::Done) => {
                HandlerStep::Finish(Ok(BoardResponse::AddUser(new_id)))
            },
            _ => HandlerStep::Finish(Err(DataError::InternalError)),
        }
    }
}

} // verus!
