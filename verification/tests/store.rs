use message_board::store::{
    create_user_file, decode_user_list, file_name, fresh_id, parse_file_name, user_list_record,
    write_entry_force, write_entry_new, write_user,
};
use message_board::{DataError, Entry, EntryData, HeaderData, UserData};

fn note() -> Entry {
    Entry {
        header_data: HeaderData {
            version: 0,
            parent_id: 0,
            children_ids: vec![],
            author_id: 1,
        },
        entry_data: EntryData::Message {
            timestamp: 5,
            message: String::from("note"),
        },
    }
}

#[test]
fn file_names_are_sixteen_upper_case_hex_digits() {
    assert_eq!(file_name(0), "0000000000000000");
    assert_eq!(file_name(0x1f), "000000000000001F");
    assert_eq!(file_name(0x0123_4567_89ab_cdef), "0123456789ABCDEF");
    assert_eq!(file_name(u64::MAX), "FFFFFFFFFFFFFFFF");
    assert_eq!(file_name(1 << 32), "0000000100000000");
}

#[test]
fn file_names_are_read_back() {
    for id in [0, 1, 9, 10, 15, 16, 255, 0xdead_beef, u64::MAX - 1, u64::MAX] {
        assert_eq!(parse_file_name(&file_name(id)), Some(id));
    }
    assert_eq!(parse_file_name("00000000000000A0"), Some(0xa0));
}

#[test]
fn other_names_are_no_file_names() {
    assert_eq!(parse_file_name(""), None);
    assert_eq!(parse_file_name("0000001F"), None); // eight digits
    assert_eq!(parse_file_name("000000000000001f"), None); // lower case
    assert_eq!(parse_file_name("00000000000000001"), None); // seventeen
    assert_eq!(parse_file_name("000000000000000G"), None);
    assert_eq!(parse_file_name("+000000000000001"), None);
    assert_eq!(parse_file_name("00000000000000é"), None); // sixteen bytes, fifteen characters
    assert_eq!(parse_file_name("0000000 00000000"), None);
}

#[test]
fn user_list_is_split_into_ids() {
    assert_eq!(decode_user_list(&[]), Ok(vec![]));
    let data = [1, 0, 0, 0, 0, 0, 0, 0, 0, 1, 0, 0, 0, 0, 0, 0];
    assert_eq!(decode_user_list(&data), Ok(vec![1, 256]));
    assert_eq!(
        decode_user_list(&data[..15]),
        Err(DataError::InsufficientBytes)
    );
    assert_eq!(
        decode_user_list(&data[..9]),
        Err(DataError::InsufficientBytes)
    );
    assert_eq!(decode_user_list(&[7]), Err(DataError::InsufficientBytes));
}

#[test]
fn user_list_grows_by_eight_bytes() {
    assert_eq!(user_list_record(0x0102), vec![2, 1, 0, 0, 0, 0, 0, 0]);
    let mut list = Vec::new();
    for id in [3u64, 1, u64::MAX] {
        list.extend(user_list_record(id));
    }
    assert_eq!(decode_user_list(&list), Ok(vec![3, 1, u64::MAX]));
}

#[test]
fn fresh_id_is_one_past_the_largest() {
    assert_eq!(fresh_id(&vec![]), Some(1));
    assert_eq!(fresh_id(&vec![0]), Some(1));
    assert_eq!(fresh_id(&vec![5, 2, 9, 3]), Some(10));
    assert_eq!(fresh_id(&vec![9, 9]), Some(10));
    assert_eq!(fresh_id(&vec![u64::MAX - 1]), Some(u64::MAX));
    assert_eq!(fresh_id(&vec![1, u64::MAX, 2]), None);
}

#[test]
fn fresh_id_is_not_in_use() {
    let ids = vec![4, 8, 15, 16, 23, 42];
    let id = fresh_id(&ids).unwrap();
    assert!(!ids.contains(&id));
    assert_ne!(id, 0);
}

#[test]
fn duplicate_entry_write() {
    let bytes = note().into_data().unwrap();
    assert_eq!(write_entry_new(true, &note()), Err(DataError::AlreadyExists));
    assert_eq!(write_entry_force(&note()), Ok(bytes.clone()));
    assert_eq!(write_entry_new(false, &note()), Ok(bytes));
}

#[test]
fn entry_that_cannot_be_encoded_is_not_written() {
    let mut entry = note();
    entry.header_data.children_ids = vec![0; 70_000];
    assert_eq!(
        write_entry_new(false, &entry),
        Err(DataError::OOBUsizeConversion)
    );
    assert_eq!(write_entry_new(true, &entry), Err(DataError::AlreadyExists));
    assert_eq!(write_entry_force(&entry), Err(DataError::OOBUsizeConversion));
}

#[test]
fn user_files() {
    let user = UserData {
        entry_ids: vec![1, 2],
    };
    assert_eq!(write_user(false, &user), Err(DataError::DoesNotExist));
    assert_eq!(write_user(true, &user), user.into_data());
    assert_eq!(create_user_file(true), Err(DataError::AlreadyExists));
    let fresh = create_user_file(false).unwrap();
    assert_eq!(fresh, vec![0x70, 0x14, 0, 0, 0, 0, 0]);
    assert_eq!(UserData::from_data(&fresh), Ok(UserData::new_empty()));
}
