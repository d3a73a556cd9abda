use message_board::utils::{char_is_blank, y_n_answer};
use message_board::{
    extract_name, DataError, DefaultedIdSet, Entry, EntryData, EntryVariant, HeaderData,
    PathManager, Selector, ROOT_ID,
};

fn group(parent_id: u64, name: &str) -> Entry {
    Entry {
        header_data: HeaderData {
            version: 0,
            parent_id,
            children_ids: vec![],
            author_id: 1,
        },
        entry_data: EntryData::AccessGroup {
            name: String::from(name),
            write_perms: DefaultedIdSet::White {
                blacklist_ids: vec![],
            },
            read_perms: DefaultedIdSet::White {
                blacklist_ids: vec![],
            },
        },
    }
}

fn message(parent_id: u64) -> Entry {
    Entry {
        header_data: HeaderData {
            version: 0,
            parent_id,
            children_ids: vec![],
            author_id: 1,
        },
        entry_data: EntryData::Message {
            timestamp: 0,
            message: String::from("text"),
        },
    }
}

#[test]
fn entries_are_shown_by_name_or_by_id() {
    assert_eq!(extract_name(5, &group(0, "news")), "news");
    assert_eq!(extract_name(0x2a, &message(0)), "000000000000002A");
    assert_eq!(extract_name(u64::MAX, &message(0)), "FFFFFFFFFFFFFFFF");
}

#[test]
fn path_begins_at_the_root() {
    let mut path = PathManager::new();
    assert!(!path.is_init());
    assert_eq!(path.push(3, &group(ROOT_ID, "a")), Err(DataError::MalformedRoot));
    assert_eq!(path.push(ROOT_ID, &group(3, "a")), Err(DataError::MalformedRoot));
    assert_eq!(path.push(ROOT_ID, &message(ROOT_ID)), Err(DataError::MalformedRoot));
    assert!(path.path.is_empty());
    assert_eq!(path.push(ROOT_ID, &group(ROOT_ID, "root")), Ok(()));
    assert!(path.is_init());
    assert_eq!(path.peek(), &(ROOT_ID, String::from("root")));
}

#[test]
fn path_grows_by_children_only() {
    let mut path = PathManager::new();
    path.push(ROOT_ID, &group(ROOT_ID, "root")).unwrap();
    assert_eq!(path.push(7, &group(ROOT_ID, "seven")), Ok(()));
    assert_eq!(path.push(8, &message(ROOT_ID)), Err(DataError::NonChild));
    assert_eq!(path.push(8, &message(9)), Err(DataError::NonChild));
    assert_eq!(path.push(8, &message(7)), Ok(()));
    assert_eq!(
        path.path,
        vec![
            (0, String::from("root")),
            (7, String::from("seven")),
            (8, String::from("0000000000000008"))
        ]
    );
    assert_eq!(path.peek().0, 8);
}

#[test]
fn path_keeps_its_root() {
    let mut path = PathManager::new();
    assert_eq!(path.pop(), None);
    path.push(ROOT_ID, &group(ROOT_ID, "root")).unwrap();
    path.push(7, &group(ROOT_ID, "seven")).unwrap();
    assert_eq!(path.pop(), Some((7, String::from("seven"))));
    assert_eq!(path.pop(), None);
    assert_eq!(path.pop(), None);
    assert_eq!(path.path, vec![(0, String::from("root"))]);
}

#[test]
fn cursor_goes_round() {
    let mut selector = Selector::new(vec!['a', 'b', 'c']);
    assert_eq!(selector.selection(), None);
    selector.down();
    assert_eq!(selector.selection(), Some((0, &'a')));
    selector.down();
    selector.down();
    assert_eq!(selector.selection(), Some((2, &'c')));
    selector.down();
    assert_eq!(selector.selection(), Some((0, &'a')));
    selector.up();
    assert_eq!(selector.selection(), Some((2, &'c')));
    selector.up();
    assert_eq!(selector.selection(), Some((1, &'b')));
    selector.deselect();
    assert_eq!(selector.selection(), None);
    selector.up();
    assert_eq!(selector.cursor_pos, Some(0));
}

#[test]
fn cursor_is_put_on_the_first_choice() {
    let mut selector = Selector::new(vec![EntryVariant::Message, EntryVariant::AccessGroup]);
    selector.select();
    assert_eq!(selector.cursor_pos, Some(0));
    selector.down();
    selector.select();
    assert_eq!(selector.cursor_pos, Some(1));
    assert_eq!(
        selector.selection().map(|(at, variant)| (at, variant.as_string())),
        Some((1, "Access Group"))
    );
}

#[test]
fn cursor_follows_a_shorter_list() {
    let mut selector = Selector::new(vec![1, 2, 3, 4, 5]);
    selector.select();
    selector.up();
    assert_eq!(selector.cursor_pos, Some(4));
    selector.replace_items(vec![7, 8, 9, 10, 11, 12]);
    assert_eq!(selector.selection(), Some((4, &11)));
    selector.replace_items(vec![7, 8]);
    assert_eq!(selector.cursor_pos, Some(2));
    assert_eq!(selector.items, vec![7, 8]);
    let mut unselected = Selector::new(vec![1]);
    unselected.replace_items(vec![]);
    assert_eq!(unselected.cursor_pos, None);
}

#[test]
fn yes_and_no() {
    assert_eq!(y_n_answer("y"), Some(true));
    assert_eq!(y_n_answer("y\n"), Some(true));
    assert_eq!(y_n_answer("  Y \r\n"), Some(true));
    assert_eq!(y_n_answer("n\n"), Some(false));
    assert_eq!(y_n_answer("\tN"), Some(false));
    assert_eq!(y_n_answer("\u{a0}y\u{3000}\u{2003}"), Some(true));
}

#[test]
fn neither_yes_nor_no() {
    assert_eq!(y_n_answer(""), None);
    assert_eq!(y_n_answer("\n"), None);
    assert_eq!(y_n_answer("yes"), None);
    assert_eq!(y_n_answer("y n"), None);
    assert_eq!(y_n_answer("yy"), None);
    assert_eq!(y_n_answer("x y"), None);
    assert_eq!(y_n_answer("no"), None);
    assert_eq!(y_n_answer("ý"), None);
    assert_eq!(y_n_answer("y\u{200b}"), None); // a zero-width space is no white space
}

#[test]
fn white_space_is_what_the_standard_library_trims() {
    for n in 0..=0x3100u32 {
        if let Some(c) = char::from_u32(n) {
            assert_eq!(char_is_blank(c), c.is_whitespace(), "U+{:04X}", n);
        }
    }
    assert!(!char_is_blank('\u{10ffff}'));
}
