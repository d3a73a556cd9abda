use message_board::{
    DataError, DefaultBase, DefaultedIdSet, Entry, EntryData, HeaderData, PermKind, ResolveStep,
    Resolver, MAX_TRAVERSAL_DEPTH, ROOT_ID,
};
use std::collections::HashMap;

fn group(parent_id: u64, write_perms: DefaultedIdSet, read_perms: DefaultedIdSet) -> Entry {
    Entry {
        header_data: HeaderData {
            version: 0,
            parent_id,
            children_ids: vec![],
            author_id: 1,
        },
        entry_data: EntryData::AccessGroup {
            name: String::from("group"),
            write_perms,
            read_perms,
        },
    }
}

fn message(parent_id: u64) -> Entry {
    Entry {
        header_data: HeaderData {
            version: 0,
            parent_id,
            children_ids: vec![],
            author_id: 1,
        },
        entry_data: EntryData::Message {
            timestamp: 0,
            message: String::from("text"),
        },
    }
}

fn silent() -> DefaultedIdSet {
    DefaultedIdSet::Inherit {
        whitelist_ids: vec![],
        blacklist_ids: vec![],
    }
}

fn allow(id: u64) -> DefaultedIdSet {
    DefaultedIdSet::Inherit {
        whitelist_ids: vec![id],
        blacklist_ids: vec![],
    }
}

fn deny(id: u64) -> DefaultedIdSet {
    DefaultedIdSet::Inherit {
        whitelist_ids: vec![],
        blacklist_ids: vec![id],
    }
}

/// Walks as a server would: reads what the resolver asks for until it is done.
fn walk(
    entries: &HashMap<u64, Entry>,
    user_id: u64,
    kind: PermKind,
    target_id: u64,
) -> (Result<bool, DataError>, usize) {
    let mut resolver = Resolver::new(user_id, kind, target_id);
    let mut reads = 0;
    loop {
        let Some(entry) = entries.get(&resolver.current_id) else {
            return (Err(DataError::DoesNotExist), reads);
        };
        reads += 1;
        match resolver.step(entry) {
            ResolveStep::Decided(allowed) => return (Ok(allowed), reads),
            ResolveStep::TooDeep => return (Err(DataError::InternalError), reads),
            ResolveStep::Ascend => {}
        }
    }
}

#[test]
fn white_set_denies_only_the_blacklisted() {
    let set = DefaultedIdSet::White {
        blacklist_ids: vec![4, 9],
    };
    assert_eq!(set.contains(4), Some(false));
    assert_eq!(set.contains(9), Some(false));
    assert_eq!(set.contains(5), Some(true));
    assert_eq!(set.contains(0), Some(true));
    assert_eq!(set.get_default_base(), DefaultBase::White);
    let open = DefaultedIdSet::White {
        blacklist_ids: vec![],
    };
    assert_eq!(open.contains(u64::MAX), Some(true));
}

#[test]
fn black_set_allows_only_the_whitelisted() {
    let set = DefaultedIdSet::Black {
        whitelist_ids: vec![4, 9],
    };
    assert_eq!(set.contains(4), Some(true));
    assert_eq!(set.contains(9), Some(true));
    assert_eq!(set.contains(5), Some(false));
    assert_eq!(set.get_default_base(), DefaultBase::Black);
    let closed = DefaultedIdSet::Black {
        whitelist_ids: vec![],
    };
    assert_eq!(closed.contains(0), Some(false));
}

#[test]
fn inherit_set_decides_only_for_the_listed() {
    let set = DefaultedIdSet::Inherit {
        whitelist_ids: vec![1, 2, 3],
        blacklist_ids: vec![3, 4],
    };
    assert_eq!(set.contains(1), Some(true));
    assert_eq!(set.contains(2), Some(true));
    assert_eq!(set.contains(4), Some(false));
    assert_eq!(set.contains(3), None); // in both lists
    assert_eq!(set.contains(5), None); // in neither
    assert_eq!(set.get_default_base(), DefaultBase::Inherit);
}

#[test]
fn entry_decides_by_the_set_of_the_kind() {
    let entry = group(ROOT_ID, allow(7), deny(7));
    assert_eq!(entry.decision(7, PermKind::Write), Some(true));
    assert_eq!(entry.decision(7, PermKind::Read), Some(false));
    assert_eq!(entry.decision(8, PermKind::Read), None);
    assert_eq!(message(ROOT_ID).decision(7, PermKind::Read), None);
    assert!(message(ROOT_ID).entry_data.perm_set(PermKind::Write).is_none());
    assert_eq!(
        entry.entry_data.perm_set(PermKind::Write),
        Some(&allow(7))
    );
}

#[test]
fn first_allowing_ancestor_wins() {
    let mut entries = HashMap::new();
    entries.insert(ROOT_ID, group(ROOT_ID, deny(7), deny(7)));
    entries.insert(10, group(ROOT_ID, allow(7), silent()));
    entries.insert(20, group(10, silent(), silent()));
    entries.insert(30, message(20));
    assert_eq!(walk(&entries, 7, PermKind::Write, 30), (Ok(true), 3));
    // for reading, the only decision on the way up is the root's
    assert_eq!(walk(&entries, 7, PermKind::Read, 30), (Ok(false), 4));
    assert_eq!(walk(&entries, 7, PermKind::Write, 10), (Ok(true), 1));
}

#[test]
fn first_denying_ancestor_wins() {
    let mut entries = HashMap::new();
    entries.insert(
        ROOT_ID,
        group(
            ROOT_ID,
            DefaultedIdSet::White {
                blacklist_ids: vec![],
            },
            silent(),
        ),
    );
    entries.insert(10, group(ROOT_ID, deny(7), silent()));
    entries.insert(20, message(10));
    assert_eq!(walk(&entries, 7, PermKind::Write, 20), (Ok(false), 2));
    assert_eq!(walk(&entries, 8, PermKind::Write, 20), (Ok(true), 3));
}

#[test]
fn undecided_up_to_the_root_is_denied() {
    let mut entries = HashMap::new();
    entries.insert(ROOT_ID, group(ROOT_ID, silent(), silent()));
    entries.insert(10, group(ROOT_ID, silent(), silent()));
    entries.insert(20, message(10));
    assert_eq!(walk(&entries, 7, PermKind::Read, 20), (Ok(false), 3));
    assert_eq!(walk(&entries, 7, PermKind::Write, ROOT_ID), (Ok(false), 1));
}

#[test]
fn walk_ends_at_the_root_whatever_its_parent() {
    let mut entries = HashMap::new();
    entries.insert(ROOT_ID, group(55, silent(), silent()));
    entries.insert(55, group(ROOT_ID, allow(7), allow(7)));
    assert_eq!(walk(&entries, 7, PermKind::Read, ROOT_ID), (Ok(false), 1));
}

#[test]
fn missing_ancestor_fails_the_walk() {
    let mut entries = HashMap::new();
    entries.insert(20, message(10));
    assert_eq!(
        walk(&entries, 7, PermKind::Read, 20),
        (Err(DataError::DoesNotExist), 1)
    );
}

#[test]
fn walk_in_a_cycle_is_cut_off() {
    let mut entries = HashMap::new();
    entries.insert(1, group(2, silent(), silent()));
    entries.insert(2, group(1, silent(), silent()));
    assert_eq!(MAX_TRAVERSAL_DEPTH, 4096);
    assert_eq!(
        walk(&entries, 7, PermKind::Read, 1),
        (Err(DataError::InternalError), 4096)
    );
}

#[test]
fn walk_of_the_greatest_depth() {
    // ids 1..=4095 form a chain that ends at the root: 4096 entries are read
    let mut entries = HashMap::new();
    entries.insert(
        ROOT_ID,
        group(
            ROOT_ID,
            silent(),
            DefaultedIdSet::White {
                blacklist_ids: vec![],
            },
        ),
    );
    for id in 1..=4096u64 {
        entries.insert(id, group(id - 1, silent(), silent()));
    }
    assert_eq!(walk(&entries, 7, PermKind::Read, 4095), (Ok(true), 4096));
    assert_eq!(
        walk(&entries, 7, PermKind::Read, 4096),
        (Err(DataError::InternalError), 4096)
    );
}

#[test]
fn resolver_state_after_a_step() {
    let mut resolver = Resolver::new(7, PermKind::Read, 20);
    assert_eq!(
        resolver,
        Resolver {
            user_id: 7,
            kind: PermKind::Read,
            current_id: 20,
            reads_left: 4096
        }
    );
    assert_eq!(resolver.step(&message(10)), ResolveStep::Ascend);
    assert_eq!(
        resolver,
        Resolver {
            user_id: 7,
            kind: PermKind::Read,
            current_id: 10,
            reads_left: 4095
        }
    );
    let before = resolver;
    assert_eq!(
        resolver.step(&group(ROOT_ID, silent(), allow(7))),
        ResolveStep::Decided(true)
    );
    assert_eq!(resolver, before);
}
