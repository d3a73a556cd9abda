use message_board::store::{
    create_user_file, decode_user_list, user_list_record, write_entry_force, write_entry_new,
    write_user,
};
use message_board::{
    BoardRequest, BoardResponse, DataError, DefaultBase, DefaultedIdSet, Entry, EntryData,
    Handler, HandlerStep, HeaderData, MaybeBoardResponse, StoreOp, StoreReply, UserData, ROOT_ID,
};
use rand::Rng;
use std::collections::{BTreeMap, BTreeSet};

/// A store that keeps its files in memory.
struct MemStore {
    entries: BTreeMap<u64, Vec<u8>>,
    users: BTreeMap<u64, Vec<u8>>,
    user_list: Vec<u8>,
    operations: Vec<String>,
}

fn done(res: Result<(), DataError>) -> StoreReply {
    match res {
        Ok(()) => StoreReply::Done,
        Err(e) => StoreReply::Failed(e),
    }
}

impl MemStore {
    fn new() -> Self {
        let root = Entry {
            header_data: HeaderData {
                version: 0,
                parent_id: ROOT_ID,
                children_ids: vec![],
                author_id: 0,
            },
            entry_data: EntryData::AccessGroup {
                name: String::from("root"),
                write_perms: DefaultedIdSet::White {
                    blacklist_ids: vec![],
                },
                read_perms: DefaultedIdSet::White {
                    blacklist_ids: vec![],
                },
            },
        };
        let mut store = MemStore {
            entries: BTreeMap::new(),
            users: BTreeMap::new(),
            user_list: Vec::new(),
            operations: Vec::new(),
        };
        store.put_entry(ROOT_ID, &root);
        store
    }

    fn put_entry(&mut self, id: u64, entry: &Entry) {
        self.entries.insert(id, write_entry_force(entry).unwrap());
    }

    fn entry(&self, id: u64) -> Entry {
        Entry::from_data(&self.entries[&id]).unwrap()
    }

    fn user(&self, id: u64) -> UserData {
        UserData::from_data(&self.users[&id]).unwrap()
    }

    fn perform(&mut self, op: StoreOp) -> StoreReply {
        self.operations.push(format!("{:?}", op).split('(').next().unwrap().to_string());
        match op {
            StoreOp::ReadEntry(id) => match self.entries.get(&id) {
                None => StoreReply::Failed(DataError::DoesNotExist),
                Some(bytes) => match Entry::from_data(bytes) {
                    Ok(entry) => StoreReply::Entry(entry),
                    Err(e) => StoreReply::Failed(e),
                },
            },
            StoreOp::WriteEntryNew(id, entry) => {
                done(write_entry_new(self.entries.contains_key(&id), &entry).map(|bytes| {
                    self.entries.insert(id, bytes);
                }))
            }
            StoreOp::WriteEntryForce(id, entry) => done(write_entry_force(&entry).map(|bytes| {
                self.entries.insert(id, bytes);
            })),
            StoreOp::ReadUser(id) => match self.users.get(&id) {
                None => StoreReply::Failed(DataError::DoesNotExist),
                Some(bytes) => match UserData::from_data(bytes) {
                    Ok(user) => StoreReply::User(user),
                    Err(e) => StoreReply::Failed(e),
                },
            },
            StoreOp::WriteUser(id, user) => {
                done(write_user(self.users.contains_key(&id), &user).map(|bytes| {
                    self.users.insert(id, bytes);
                }))
            }
            StoreOp::CreateUserFile(id) => {
                done(create_user_file(self.users.contains_key(&id)).map(|bytes| {
                    self.users.insert(id, bytes);
                }))
            }
            StoreOp::ReadUserList => match decode_user_list(&self.user_list) {
                Ok(ids) => StoreReply::Ids(ids),
                Err(e) => StoreReply::Failed(e),
            },
            StoreOp::AppendUserId(id) => {
                self.user_list.extend(user_list_record(id));
                StoreReply::Done
            }
            StoreOp::ListEntryIds => StoreReply::Ids(self.entries.keys().copied().collect()),
        }
    }

    /// Handles a request as a worker of the server does.
    fn handle(&mut self, request: BoardRequest) -> MaybeBoardResponse {
        self.operations.clear();
        let mut step = Handler::start(request);
        loop {
            match step {
                HandlerStep::Finish(answer) => return answer,
                HandlerStep::Ask(handler, op) => {
                    let reply = self.perform(op);
                    step = handler.advance(reply);
                }
            }
        }
    }

    /// Handles a request that arrives as bytes and answers in bytes.
    fn serve(&mut self, request: &[u8]) -> Vec<u8> {
        let request = BoardRequest::from_data(request).unwrap();
        BoardResponse::into_data(&self.handle(request)).unwrap()
    }

    fn add_user(&mut self) -> u64 {
        match self.handle(BoardRequest::AddUser) {
            Ok(BoardResponse::AddUser(id)) => id,
            other => panic!("no user was added: {:?}", other),
        }
    }

    fn add_entry(&mut self, user_id: u64, entry: Entry) -> u64 {
        match self.handle(BoardRequest::AddEntry { user_id, entry }) {
            Ok(BoardResponse::AddEntry(id)) => id,
            other => panic!("no entry was added: {:?}", other),
        }
    }
}

fn message(parent_id: u64, author_id: u64, text: &str) -> Entry {
    Entry {
        header_data: HeaderData {
            version: 0,
            parent_id,
            children_ids: vec![],
            author_id,
        },
        entry_data: EntryData::Message {
            timestamp: 1_700_000_000,
            message: String::from(text),
        },
    }
}

fn group(parent_id: u64, author_id: u64, write: DefaultedIdSet, read: DefaultedIdSet) -> Entry {
    Entry {
        header_data: HeaderData {
            version: 0,
            parent_id,
            children_ids: vec![],
            author_id,
        },
        entry_data: EntryData::AccessGroup {
            name: String::from("group"),
            write_perms: write,
            read_perms: read,
        },
    }
}

fn silent() -> DefaultedIdSet {
    DefaultedIdSet::Inherit {
        whitelist_ids: vec![],
        blacklist_ids: vec![],
    }
}

#[test]
fn fresh_user_then_root_read() {
    let mut store = MemStore::new();
    let answer = store.serve(&[0x00, 0x21]);
    assert_eq!(answer, vec![0x00, 0x21, 1, 0, 0, 0, 0, 0, 0, 0]);
    let Ok(BoardResponse::AddUser(user_id)) = BoardResponse::from_data(&answer) else {
        panic!("a user should have been added");
    };
    assert_ne!(user_id, 0);
    assert_eq!(store.user(user_id), UserData::new_empty());
    assert_eq!(decode_user_list(&store.user_list), Ok(vec![user_id]));

    let request = BoardRequest::GetEntry {
        user_id,
        entry_id: 0,
    };
    let answer = store.serve(&request.into_data().unwrap());
    let Ok(BoardResponse::GetEntry(root)) = BoardResponse::from_data(&answer) else {
        panic!("the root should have been read");
    };
    assert_eq!(root.header_data.parent_id, 0);
    match &root.entry_data {
        EntryData::AccessGroup { read_perms, .. } => {
            assert_eq!(read_perms.get_default_base(), DefaultBase::White)
        }
        _ => panic!("the root is an access group"),
    }
}

#[test]
fn users_get_different_ids() {
    let mut store = MemStore::new();
    let first = store.add_user();
    let second = store.add_user();
    let third = store.add_user();
    assert_eq!((first, second, third), (1, 2, 3));
    assert_eq!(
        store.operations,
        vec!["ReadUserList", "AppendUserId", "CreateUserFile"]
    );
    assert_eq!(decode_user_list(&store.user_list), Ok(vec![1, 2, 3]));
}

#[test]
fn add_message_under_permitted_parent() {
    let mut store = MemStore::new();
    let user_id = store.add_user();
    let parent_id = store.add_entry(user_id, group(ROOT_ID, user_id, silent(), silent()));
    let written = message(parent_id, user_id, "first!");
    let entry_id = store.add_entry(user_id, message(parent_id, user_id, "first!"));
    assert_ne!(entry_id, parent_id);
    assert_eq!(
        store.operations,
        vec![
            "ReadEntry", // the parent decides nothing
            "ReadEntry", // the root allows
            "ListEntryIds",
            "WriteEntryNew",
            "ReadEntry",
            "WriteEntryForce",
            "ReadUser",
            "WriteUser"
        ]
    );

    let parent = store.handle(BoardRequest::GetEntry {
        user_id,
        entry_id: parent_id,
    });
    let Ok(BoardResponse::GetEntry(parent)) = parent else {
        panic!("the parent should be readable");
    };
    assert_eq!(parent.header_data.children_ids, vec![entry_id]);
    assert_eq!(
        store.handle(BoardRequest::GetEntry { user_id, entry_id }),
        Ok(BoardResponse::GetEntry(written))
    );
    assert_eq!(
        store.handle(BoardRequest::GetUser { user_id }),
        Ok(BoardResponse::GetUser(UserData {
            entry_ids: vec![parent_id, entry_id]
        }))
    );
    assert_eq!(store.entry(ROOT_ID).header_data.children_ids, vec![parent_id]);
}

#[test]
fn add_message_under_denied_parent() {
    let mut store = MemStore::new();
    let owner = store.add_user();
    let user_id = store.add_user();
    let closed = store.add_entry(
        owner,
        group(
            ROOT_ID,
            owner,
            DefaultedIdSet::Black {
                whitelist_ids: vec![owner],
            },
            silent(),
        ),
    );
    let parent_id = store.add_entry(
        owner,
        group(
            closed,
            owner,
            DefaultedIdSet::Inherit {
                whitelist_ids: vec![],
                blacklist_ids: vec![user_id],
            },
            silent(),
        ),
    );
    let entries_before = store.entries.clone();
    let users_before = store.users.clone();

    let request = BoardRequest::AddEntry {
        user_id,
        entry: message(parent_id, user_id, "let me in"),
    };
    let answer = store.serve(&request.into_data().unwrap());
    assert_eq!(answer, vec![0x00, 0xff]);
    assert_eq!(store.operations, vec!["ReadEntry"]);
    assert_eq!(store.entries, entries_before);
    assert_eq!(store.users, users_before);

    // neither under an entry whose ancestor denies by default
    let inner = store.add_entry(owner, group(closed, owner, silent(), silent()));
    assert_eq!(
        store.handle(BoardRequest::AddEntry {
            user_id,
            entry: message(inner, user_id, "let me in"),
        }),
        Err(DataError::InsufficientPerms)
    );
    assert_eq!(store.operations, vec!["ReadEntry", "ReadEntry"]);
}

#[test]
fn two_entries_under_the_same_parent() {
    let mut store = MemStore::new();
    let first_user = store.add_user();
    let second_user = store.add_user();
    let parent_id = store.add_entry(first_user, group(ROOT_ID, first_user, silent(), silent()));
    let first = store.add_entry(first_user, message(parent_id, first_user, "one"));
    let second = store.add_entry(second_user, message(parent_id, second_user, "two"));
    assert_ne!(first, second);
    let children = store.entry(parent_id).header_data.children_ids;
    assert_eq!(children.iter().filter(|id| **id == first).count(), 1);
    assert_eq!(children.iter().filter(|id| **id == second).count(), 1);
    assert_eq!(children.len(), 2);
    assert_eq!(store.user(first_user).entry_ids, vec![parent_id, first]);
    assert_eq!(store.user(second_user).entry_ids, vec![second]);
}

#[test]
fn author_reads_own_entry_whatever_the_permissions() {
    let mut store = MemStore::new();
    let author = store.add_user();
    let other = store.add_user();
    let closed = group(
        ROOT_ID,
        author,
        silent(),
        DefaultedIdSet::Black {
            whitelist_ids: vec![],
        },
    );
    let closed_id = store.add_entry(author, closed);
    let entry_id = store.add_entry(author, message(closed_id, author, "mine"));
    // put the author on the blacklist of the parent, beside the other user
    store.put_entry(
        closed_id,
        &Entry {
            header_data: HeaderData {
                version: 0,
                parent_id: ROOT_ID,
                children_ids: vec![entry_id],
                author_id: author,
            },
            entry_data: EntryData::AccessGroup {
                name: String::from("group"),
                write_perms: silent(),
                read_perms: DefaultedIdSet::Inherit {
                    whitelist_ids: vec![],
                    blacklist_ids: vec![author, other],
                },
            },
        },
    );
    assert_eq!(
        store.handle(BoardRequest::GetEntry {
            user_id: author,
            entry_id
        }),
        Ok(BoardResponse::GetEntry(message(closed_id, author, "mine")))
    );
    assert_eq!(store.operations, vec!["ReadEntry"]);
    assert_eq!(
        store.handle(BoardRequest::GetEntry {
            user_id: other,
            entry_id
        }),
        Err(DataError::InsufficientPerms)
    );
    assert_eq!(store.operations, vec!["ReadEntry", "ReadEntry"]);
}

#[test]
fn reading_is_decided_by_the_parent_of_the_entry() {
    let mut store = MemStore::new();
    let author = store.add_user();
    let reader = store.add_user();
    // the group itself closes reading for everyone; it hangs under the open root
    let group_id = store.add_entry(
        author,
        group(
            ROOT_ID,
            author,
            silent(),
            DefaultedIdSet::Black {
                whitelist_ids: vec![],
            },
        ),
    );
    let entry_id = store.add_entry(author, message(group_id, author, "inside"));
    assert!(store
        .handle(BoardRequest::GetEntry {
            user_id: reader,
            entry_id: group_id
        })
        .is_ok());
    assert_eq!(
        store.handle(BoardRequest::GetEntry {
            user_id: reader,
            entry_id
        }),
        Err(DataError::InsufficientPerms)
    );
}

#[test]
fn missing_entry_and_missing_user() {
    let mut store = MemStore::new();
    let user_id = store.add_user();
    assert_eq!(
        store.handle(BoardRequest::GetEntry {
            user_id,
            entry_id: 99
        }),
        Err(DataError::DoesNotExist)
    );
    assert_eq!(
        store.handle(BoardRequest::GetUser { user_id: 99 }),
        Err(DataError::DoesNotExist)
    );
    assert_eq!(
        store.handle(BoardRequest::AddEntry {
            user_id,
            entry: message(99, user_id, "nowhere"),
        }),
        Err(DataError::DoesNotExist)
    );
    // an entry of a user who has no record is written, then the request fails
    let orphan = store.handle(BoardRequest::AddEntry {
        user_id: 42,
        entry: message(ROOT_ID, 42, "who am i"),
    });
    assert_eq!(orphan, Err(DataError::DoesNotExist));
}

#[test]
fn full_id_space_is_an_internal_error() {
    let mut store = MemStore::new();
    store.user_list.extend(user_list_record(u64::MAX));
    assert_eq!(
        store.handle(BoardRequest::AddUser),
        Err(DataError::InternalError)
    );
    assert_eq!(store.operations, vec!["ReadUserList"]);
    let mut store = MemStore::new();
    let user_id = store.add_user();
    store.put_entry(u64::MAX, &message(ROOT_ID, user_id, "last"));
    assert_eq!(
        store.handle(BoardRequest::AddEntry {
            user_id,
            entry: message(ROOT_ID, user_id, "one more"),
        }),
        Err(DataError::InternalError)
    );
}

#[test]
fn unreadable_user_list_fails_the_request() {
    let mut store = MemStore::new();
    store.user_list = vec![1, 2, 3];
    assert_eq!(
        store.handle(BoardRequest::AddUser),
        Err(DataError::InsufficientBytes)
    );
}

#[test]
fn handler_first_steps() {
    assert_eq!(
        Handler::start(BoardRequest::GetEntry {
            user_id: 3,
            entry_id: 8
        }),
        HandlerStep::Ask(Handler::AwaitEntry { user_id: 3 }, StoreOp::ReadEntry(8))
    );
    assert_eq!(
        Handler::start(BoardRequest::GetUser { user_id: 3 }),
        HandlerStep::Ask(Handler::AwaitUserRecord, StoreOp::ReadUser(3))
    );
    assert_eq!(
        Handler::start(BoardRequest::AddUser),
        HandlerStep::Ask(Handler::AwaitUserList, StoreOp::ReadUserList)
    );
    match Handler::start(BoardRequest::AddEntry {
        user_id: 3,
        entry: message(8, 3, "x"),
    }) {
        HandlerStep::Ask(Handler::ResolvingWrite { user_id, entry, resolver }, op) => {
            assert_eq!(user_id, 3);
            assert_eq!(entry, message(8, 3, "x"));
            assert_eq!(resolver.current_id, 8);
            assert_eq!(op, StoreOp::ReadEntry(8));
        }
        other => panic!("unexpected first step: {:?}", other),
    }
}

#[test]
fn unexpected_reply_is_an_internal_error() {
    assert_eq!(
        Handler::AwaitUserRecord.advance(StoreReply::Done),
        HandlerStep::Finish(Err(DataError::InternalError))
    );
    assert_eq!(
        Handler::AwaitEntry { user_id: 1 }.advance(StoreReply::Ids(vec![])),
        HandlerStep::Finish(Err(DataError::InternalError))
    );
    assert_eq!(
        Handler::AwaitCreate { new_id: 1 }.advance(StoreReply::Failed(DataError::AlreadyExists)),
        HandlerStep::Finish(Err(DataError::AlreadyExists))
    );
}

#[test]
fn parent_and_author_are_updated_by_appending() {
    let parent = Entry {
        header_data: HeaderData {
            version: 0,
            parent_id: ROOT_ID,
            children_ids: vec![5, 6],
            author_id: 1,
        },
        entry_data: EntryData::Message {
            timestamp: 0,
            message: String::from("p"),
        },
    };
    let step = Handler::AwaitParent {
        user_id: 2,
        new_id: 7,
        parent_id: 4,
    }
    .advance(StoreReply::Entry(parent));
    let mut updated = message(ROOT_ID, 1, "p");
    updated.header_data.children_ids = vec![5, 6, 7];
    if let EntryData::Message { timestamp, .. } = &mut updated.entry_data {
        *timestamp = 0;
    }
    assert_eq!(
        step,
        HandlerStep::Ask(
            Handler::AwaitParentWrite {
                user_id: 2,
                new_id: 7
            },
            StoreOp::WriteEntryForce(4, updated)
        )
    );
    let step = Handler::AwaitUser {
        user_id: 2,
        new_id: 7,
    }
    .advance(StoreReply::User(UserData {
        entry_ids: vec![1],
    }));
    assert_eq!(
        step,
        HandlerStep::Ask(
            Handler::AwaitUserWrite { new_id: 7 },
            StoreOp::WriteUser(
                2,
                UserData {
                    entry_ids: vec![1, 7]
                }
            )
        )
    );
}

#[test]
fn random_requests_keep_the_store_in_order() {
    let mut rng = rand::rng();
    let mut store = MemStore::new();
    let mut users: Vec<u64> = Vec::new();
    let mut added: Vec<(u64, u64)> = Vec::new(); // (parent, child)
    for _ in 0..300 {
        match rng.random_range(0..4) {
            0 => users.push(store.add_user()),
            1 | 2 if !users.is_empty() => {
                let user_id = users[rng.random_range(0..users.len())];
                let ids: Vec<u64> = store.entries.keys().copied().collect();
                let parent_id = ids[rng.random_range(0..ids.len())];
                let entry = if rng.random_range(0..2) == 0 {
                    message(parent_id, user_id, "text")
                } else {
                    let other = users[rng.random_range(0..users.len())];
                    let set = match rng.random_range(0..4) {
                        0 => DefaultedIdSet::Black {
                            whitelist_ids: vec![other],
                        },
                        1 => DefaultedIdSet::White {
                            blacklist_ids: vec![other],
                        },
                        2 => DefaultedIdSet::Inherit {
                            whitelist_ids: vec![],
                            blacklist_ids: vec![other],
                        },
                        _ => silent(),
                    };
                    group(parent_id, user_id, set, silent())
                };
                let before = store.entries.clone();
                match store.handle(BoardRequest::AddEntry { user_id, entry }) {
                    Ok(BoardResponse::AddEntry(new_id)) => {
                        assert!(!before.contains_key(&new_id));
                        assert_ne!(new_id, ROOT_ID);
                        added.push((parent_id, new_id));
                    }
                    Err(DataError::InsufficientPerms) => assert_eq!(store.entries, before),
                    other => panic!("unexpected answer: {:?}", other),
                }
            }
            _ => {
                let ids: Vec<u64> = store.entries.keys().copied().collect();
                let entry_id = ids[rng.random_range(0..ids.len())];
                let before = (store.entries.clone(), store.users.clone());
                let _ = store.handle(BoardRequest::GetEntry {
                    user_id: rng.random_range(1..5),
                    entry_id,
                });
                assert_eq!((store.entries.clone(), store.users.clone()), before);
            }
        }
        // the root is in place, and every entry hangs under an entry
        let root = store.entry(ROOT_ID);
        assert_eq!(root.header_data.parent_id, ROOT_ID);
        assert!(matches!(root.entry_data, EntryData::AccessGroup { .. }));
        for id in store.entries.keys() {
            let parent_id = store.entry(*id).header_data.parent_id;
            assert!(store.entries.contains_key(&parent_id));
        }
    }
    // every entry that was added is a child of its parent exactly once
    for (parent_id, child) in &added {
        let children = store.entry(*parent_id).header_data.children_ids;
        assert_eq!(children.iter().filter(|id| *id == child).count(), 1);
        assert_eq!(store.entry(*child).header_data.parent_id, *parent_id);
    }
    let children: usize = store
        .entries
        .keys()
        .map(|id| store.entry(*id).header_data.children_ids.len())
        .sum();
    assert_eq!(children, added.len());
    // no id was given out twice, to users or to entries
    let listed = decode_user_list(&store.user_list).unwrap();
    assert_eq!(listed, users);
    assert_eq!(users.iter().collect::<BTreeSet<_>>().len(), users.len());
    assert!(!users.contains(&0));
    let new_ids: BTreeSet<u64> = added.iter().map(|(_, child)| *child).collect();
    assert_eq!(new_ids.len(), added.len());
}
