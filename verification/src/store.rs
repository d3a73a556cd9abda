//! What the store on disk is made of, apart from the reading and writing of
//! files: the names of its files, the list of users, and the choice of new
//! ids.
//!
//! The store keeps one file per entry and one per user, each named by the
//! sixteen upper-case hexadecimal digits of its id, and one file that lists
//! the ids of all users, eight bytes each.

use crate::entry::Entry;
use crate::error::DataError;
use crate::user::{UserData, UserDataView};
use crate::le::{
    lemma_u64_from_le_prefix, lemma_u64_le_roundtrip, put_u64, u64_from_le, u64_le,
};
use crate::wire::{ids_from_le, ids_le, lemma_ids_le_len, lemma_parse_ids_roundtrip, take_ids};
use vstd::prelude::*;
use vstd::pervasive::unreached;
use vstd::utf8::encode_utf8;

verus! {

/// The bytes to put into the file of a new entry. An entry that has a file
/// already is not written again.
pub fn write_entry_new(exists: bool, entry: &Entry) -> (res: Result<Vec<u8>, DataError>)
    ensures
        exists ==> res == Err::<Vec<u8>, DataError>(DataError::AlreadyExists),
        !exists && entry@.encodable() ==> res is Ok && res->Ok_0@ == entry@.encoding(),
        !exists && !entry@.encodable() ==> res == Err::<Vec<u8>, DataError>(
            DataError::OOBUsizeConversion,
        ),
{
    if exists {
        return Err(DataError::AlreadyExists);
    }
    entry.into_data()
}

/// The bytes to put into the file of an entry, whether or not it has one.
pub fn write_entry_force(entry: &Entry) -> (res: Result<Vec<u8>, DataError>)
    ensures
        entry@.encodable() ==> res is Ok && res->Ok_0@ == entry@.encoding(),
        !entry@.encodable() ==> res == Err::<Vec<u8>, DataError>(DataError::OOBUsizeConversion),
{
    entry.into_data()
}

/// The bytes to put into the file of a user. A user without a file is not
/// given one this way.
pub fn write_user(exists: bool, user: &UserData) -> (res: Result<Vec<u8>, DataError>)
    ensures
        !exists ==> res == Err::<Vec<u8>, DataError>(DataError::DoesNotExist),
        exists && user@.encodable() ==> res is Ok && res->Ok_0@ == user@.encoding(),
        exists && !user@.encodable() ==> res == Err::<Vec<u8>, DataError>(
            DataError::OOBUsizeConversion,
        ),
{
    if !exists {
        return Err(DataError::DoesNotExist);
    }
    user.into_data()
}

/// The bytes to put into the file of a new user: the record of a user who
/// has written nothing. A user that has a file already is not created
/// again.
pub fn create_user_file(exists: bool) -> (res: Result<Vec<u8>, DataError>)
    ensures
        exists ==> res == Err::<Vec<u8>, DataError>(DataError::AlreadyExists),
        !exists ==> res is Ok && res->Ok_0@ == (UserDataView {
            entry_ids: Seq::empty(),
        }).encoding(),
{
    if exists {
        return Err(DataError::AlreadyExists);
    }
    let user = UserData::new_empty();
    user.into_data()
}

/// The ids that a user list of these bytes holds. Bytes left over after the
/// last whole id make the list unreadable.
pub open spec fn parse_user_list(s: Seq<u8>) -> Result<Seq<u64>, DataError> {
    if s.len() % 8 != 0 {
        Err(DataError::InsufficientBytes)
    } else {
        Ok(ids_from_le(s, s.len() / 8))
    }
}

/// A user list written id by id is read back as it was written.
pub proof fn lemma_user_list_round_trip(ids: Seq<u64>)
    ensures
        parse_user_list(ids_le(ids)) == Ok::<Seq<u64>, DataError>(ids),
{
    lemma_ids_le_len(ids);
    lemma_parse_ids_roundtrip(ids, Seq::empty());
}

/// Appending the eight bytes of an id to a user list appends the id.
pub proof fn lemma_user_list_append(s: Seq<u8>, id: u64)
    requires
        parse_user_list(s) is Ok,
    ensures
        parse_user_list(s + u64_le(id)) == Ok::<Seq<u64>, DataError>(
            parse_user_list(s)->Ok_0.push(id),
        ),
{
    let n = s.len() / 8;
    let t = s + u64_le(id);
    lemma_u64_le_roundtrip(id, Seq::empty());
    assert forall|i: int| 0 <= i < n + 1 implies u64_from_le(t.skip(8 * i)) == ids_from_le(
        s,
        n,
    ).push(id)[i] by {
        if i < n {
            assert(t.skip(8 * i).take(8) =~= s.skip(8 * i).take(8));
            lemma_u64_from_le_prefix(t.skip(8 * i), s.skip(8 * i));
        } else {
            assert(t.skip(8 * i) =~= u64_le(id) + Seq::<u8>::empty());
        }
    }
    assert(ids_from_le(t, n + 1) =~= ids_from_le(s, n).push(id));
}

/// Reads the list of users from the bytes of its file.
pub fn decode_user_list(data: &[u8]) -> (res: Result<Vec<u64>, DataError>)
    ensures
        match res {
            Ok(ids) => parse_user_list(data@) == Ok::<Seq<u64>, DataError>(ids@),
            Err(e) => parse_user_list(data@) == Err::<Seq<u64>, DataError>(e),
        },
{
    if data.len() % 8 != 0 {
        return Err(DataError::InsufficientBytes);
    }
    let (ids, _) = take_ids(data, data.len() / 8)?;
    Ok(ids)
}

/// The bytes by which the list of users grows when `id` joins it.
pub fn user_list_record(id: u64) -> (record: Vec<u8>)
    ensures
        record@ == u64_le(id),
{
    let mut record = Vec::new();
    put_u64(&mut record, id);
    record
}

/// The largest of `ids`, and 0 where there is none.
pub open spec fn max_id(ids: Seq<u64>) -> u64
    decreases ids.len(),
{
    if ids.len() == 0 {
        0
    } else if max_id(ids.drop_last()) >= ids.last() {
        max_id(ids.drop_last())
    } else {
        ids.last()
    }
}

/// The id that is given out next when `ids` are in use: one more than the
/// largest of them. None is left once the largest possible id is in use.
pub open spec fn next_id(ids: Seq<u64>) -> Option<u64> {
    if max_id(ids) == u64::MAX {
        None
    } else {
        Some((max_id(ids) + 1) as u64)
    }
}

/// No id is larger than the largest.
pub proof fn lemma_max_id_bounds(ids: Seq<u64>, i: int)
    requires
        0 <= i < ids.len(),
    ensures
        ids[i] <= max_id(ids),
    decreases ids.len(),
{
    if i < ids.len() - 1 {
        lemma_max_id_bounds(ids.drop_last(), i);
    }
}

/// An id that is given out is not in use, and is not zero.
pub proof fn lemma_next_id_is_fresh(ids: Seq<u64>)
    requires
        next_id(ids) is Some,
    ensures
        !ids.contains(next_id(ids)->Some_0),
        next_id(ids)->Some_0 != 0,
{
    assert forall|i: int| 0 <= i < ids.len() implies ids[i] != next_id(ids)->Some_0 by {
        lemma_max_id_bounds(ids, i);
    }
}

/// The largest of some ids is one of them.
pub proof fn lemma_max_id_is_member(ids: Seq<u64>)
    requires
        ids.len() > 0,
    ensures
        ids.contains(max_id(ids)),
    decreases ids.len(),
{
    let front = ids.drop_last();
    if front.len() > 0 && max_id(front) >= ids.last() {
        lemma_max_id_is_member(front);
        let i = choose|i: int| 0 <= i < front.len() && front[i] == max_id(front);
    } else {
        if front.len() == 0 {
            assert(max_id(front) == 0);
        }
    }
}

/// The id that is given out next depends on which ids are in use, not on
/// the order in which they are listed.
pub proof fn lemma_next_id_ignores_order(a: Seq<u64>, b: Seq<u64>)
    requires
        a.to_set() == b.to_set(),
    ensures
        next_id(a) == next_id(b),
{
    if a.len() > 0 {
        lemma_max_id_is_member(a);
        assert(a.to_set().contains(max_id(a)));
        let j = choose|j: int| 0 <= j < b.len() && b[j] == max_id(a);
        lemma_max_id_bounds(b, j);
    }
    if b.len() > 0 {
        lemma_max_id_is_member(b);
        assert(b.to_set().contains(max_id(b)));
        let i = choose|i: int| 0 <= i < a.len() && a[i] == max_id(b);
        lemma_max_id_bounds(a, i);
    }
}

/// Chooses an id that none of `ids` has, if there is one to give.
pub fn fresh_id(ids: &Vec<u64>) -> (res: Option<u64>)
    ensures
        res == next_id(ids@),
{
    let mut largest: u64 = 0;
    let mut i: usize = 0;
    while i < ids.len()
        invariant
            i <= ids.len(),
            largest == max_id(ids@.take(i as int)),
        decreases ids.len() - i,
    {
        assert(ids@.take(i + 1).drop_last() =~= ids@.take(i as int));
        if ids[i] > largest {
            largest = ids[i];
        }
        i += 1;
    }
    assert(ids@.take(ids.len() as int) =~= ids@);
    if largest == u64::MAX {
        None
    } else {
        Some(largest + 1)
    }
}

/// The ASCII code of one hexadecimal digit, in upper case.
pub open spec fn hex_digit(n: u8) -> u8
    recommends
        n < 16,
{
    if n < 10 {
        (48 + n) as u8
    } else {
        (55 + n) as u8
    }
}

/// Whether `b` is the ASCII code of a hexadecimal digit in upper case.
pub open spec fn is_hex_digit(b: u8) -> bool {
    48 <= b <= 57 || 65 <= b <= 70
}

/// The last `digits` hexadecimal digits of `id` in ASCII, the most
/// significant first.
pub open spec fn hex_bytes(id: u64, digits: nat) -> Seq<u8>
    decreases digits,
{
    if digits == 0 {
        Seq::empty()
    } else {
        hex_bytes(id / 16, (digits - 1) as nat).push(hex_digit((id % 16) as u8))
    }
}

/// The name of the file that holds the entry or the user `id`: the sixteen
/// hexadecimal digits of `id`.
pub open spec fn hex_name(id: u64) -> Seq<char> {
    Seq::new(16, |i: int| hex_bytes(id, 16)[i] as char)
}

/// 16 to the power of `n`.
pub open spec fn pow16(n: nat) -> nat
    decreases n,
{
    if n == 0 {
        1
    } else {
        16 * pow16((n - 1) as nat)
    }
}

proof fn lemma_pow16_grows(a: nat, b: nat)
    requires
        a <= b,
    ensures
        pow16(a) <= pow16(b),
    decreases b,
{
    if a < b {
        lemma_pow16_grows(a, (b - 1) as nat);
    }
}

proof fn lemma_pow16_of_16()
    ensures
        pow16(16) == 0x1_0000_0000_0000_0000,
{
    assert(pow16(4) == 0x1_0000) by {
        reveal_with_fuel(pow16, 5);
    }
    assert(pow16(8) == 0x1_0000_0000) by {
        reveal_with_fuel(pow16, 5);
    }
    assert(pow16(12) == 0x1_0000_0000_0000) by {
        reveal_with_fuel(pow16, 5);
    }
    assert(pow16(16) == 0x1_0000_0000_0000_0000) by {
        reveal_with_fuel(pow16, 5);
    }
}

/// Every byte of a name is a hexadecimal digit.
pub proof fn lemma_hex_bytes_digits(id: u64, digits: nat)
    ensures
        hex_bytes(id, digits).len() == digits,
        forall|i: int| 0 <= i < digits ==> is_hex_digit(#[trigger] hex_bytes(id, digits)[i]),
    decreases digits,
{
    if digits > 0 {
        lemma_hex_bytes_digits(id / 16, (digits - 1) as nat);
    }
}

/// A name in UTF-8 is its sixteen digits in ASCII.
pub proof fn lemma_hex_name_bytes(id: u64)
    ensures
        encode_utf8(hex_name(id)) == hex_bytes(id, 16),
{
    let name = hex_name(id);
    let bytes = hex_bytes(id, 16);
    lemma_hex_bytes_digits(id, 16);
    assert forall|i: int| 0 <= i < name.len() implies '\0' <= #[trigger] name[i] <= '\u{7f}' by {
        assert(is_hex_digit(bytes[i]));
    }
    vstd::utf8::is_ascii_chars_encode_utf8(name);
    assert forall|i: int| 0 <= i < 16 implies encode_utf8(name)[i] == bytes[i] by {
        assert(is_hex_digit(bytes[i]));
        assert(name[i] as u8 == encode_utf8(name)[i]);
    }
}

/// Different ids have different names.
pub proof fn lemma_hex_name_injective(a: u64, b: u64)
    requires
        hex_name(a) == hex_name(b),
    ensures
        a == b,
{
    lemma_hex_name_bytes(a);
    lemma_hex_name_bytes(b);
    lemma_pow16_of_16();
    lemma_hex_bytes_injective(a, b, 16);
}

/// Numbers of at most `digits` digits with the same digits are the same.
proof fn lemma_hex_bytes_injective(a: u64, b: u64, digits: nat)
    requires
        hex_bytes(a, digits) == hex_bytes(b, digits),
        a < pow16(digits),
        b < pow16(digits),
    ensures
        a == b,
    decreases digits,
{
    if digits > 0 {
        let front_a = hex_bytes(a / 16, (digits - 1) as nat);
        let front_b = hex_bytes(b / 16, (digits - 1) as nat);
        let last_a = hex_digit((a % 16) as u8);
        let last_b = hex_digit((b % 16) as u8);
        assert(front_a.push(last_a).drop_last() =~= front_a);
        assert(front_b.push(last_b).drop_last() =~= front_b);
        assert(front_b.push(last_b).last() == last_b);
        lemma_hex_bytes_injective(a / 16, b / 16, (digits - 1) as nat);
    }
}

/// Appends the last `digits` hexadecimal digits of `id`.
fn put_hex(buf: &mut Vec<u8>, id: u64, digits: usize)
    ensures
        final(buf)@ == old(buf)@ + hex_bytes(id, digits as nat),
    decreases digits,
{
    if digits > 0 {
        put_hex(buf, id / 16, digits - 1);
        let n = (id % 16) as u8;
        buf.push(if n < 10 { 48 + n } else { 55 + n });
    }
}

/// The name of the file that holds the entry or the user `id`.
pub fn file_name(id: u64) -> (name: String)
    ensures
        name@ == hex_name(id),
{
    let mut buf: Vec<u8> = Vec::new();
    put_hex(&mut buf, id, 16);
    proof {
        lemma_hex_name_bytes(id);
        vstd::utf8::encode_utf8_valid_utf8(hex_name(id));
    }
    match String::from_utf8(buf) {
        Ok(name) => {
            proof {
                vstd::utf8::encode_utf8_decode_utf8(name@);
                vstd::utf8::encode_utf8_decode_utf8(hex_name(id));
            }
            name
        },
        Err(_) => unreached(),
    }
}

/// The id whose file has this name, if the name is one of sixteen
/// upper-case hexadecimal digits.
pub fn parse_file_name(name: &str) -> (res: Option<u64>)
    ensures
        match res {
            Some(id) => name@ == hex_name(id),
            None => forall|id: u64| name@ != hex_name(id),
        },
{
    let bytes = name.as_bytes();
    if bytes.len() != 16 {
        proof {
            assert forall|id: u64| name@ != hex_name(id) by {
                lemma_hex_name_bytes(id);
                lemma_hex_bytes_digits(id, 16);
            }
        }
        return None;
    }
    let mut id: u64 = 0;
    let mut i: usize = 0;
    while i < 16
        invariant
            i <= 16,
            bytes@.len() == 16,
            bytes@ == encode_utf8(name@),
            id < pow16(i as nat),
            hex_bytes(id, i as nat) == bytes@.take(i as int),
        decreases 16 - i,
    {
        let b = bytes[i];
        let digit = if 48 <= b && b <= 57 {
            b - 48
        } else if 65 <= b && b <= 70 {
            b - 55
        } else {
            proof {
                assert forall|other: u64| name@ != hex_name(other) by {
                    lemma_hex_name_bytes(other);
                    lemma_hex_bytes_digits(other, 16);
                }
            }
            return None;
        };
        proof {
            lemma_pow16_grows((i + 1) as nat, 16);
            lemma_pow16_of_16();
        }
        id = id * 16 + digit as u64;
        i += 1;
    }
    proof {
        assert(bytes@.take(16) =~= bytes@);
        lemma_hex_name_bytes(id);
        vstd::utf8::encode_utf8_decode_utf8(name@);
        vstd::utf8::encode_utf8_decode_utf8(hex_name(id));
    }
    Some(id)
}

} // verus!
