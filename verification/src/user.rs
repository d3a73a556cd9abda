//! User records: the entries that a user has written, oldest first.

use crate::consts::{USER_FILE_VERSION, USER_MAGIC_NUMBER};
use crate::error::DataError;
use crate::le::{lemma_u16_from_le_inverse, put_u16, u16_from_le, u16_le, u32_from_le};
use crate::wire::{
    advances, decodes, decodes_whole, fits_u32, id_list_fits, id_list_le, lemma_concat_assoc,
    lemma_id_list_count_exceeds, lemma_parse_id_list_roundtrip, lemma_parse_u16_roundtrip,
    lemma_parse_u8_roundtrip, parse_id_list, parse_u16, parse_u8, put_id_list, take_id_list,
    take_u16, take_u8, DataIter,
};
use vstd::prelude::*;

verus! {

/// What the board keeps of a user.
#[derive(PartialEq, Eq, Debug)]
pub struct UserData {
    pub entry_ids: Vec<u64>,
}

/// A user record as a mathematical value.
pub struct UserDataView {
    pub entry_ids: Seq<u64>,
}

impl View for UserData {
    type V = UserDataView;

    open spec fn view(&self) -> UserDataView {
        UserDataView { entry_ids: self.entry_ids@ }
    }
}

impl UserDataView {
    /// Whether the entries are few enough for their 32-bit count.
    pub open spec fn encodable(self) -> bool {
        fits_u32(self.entry_ids.len())
    }

    /// The bytes that stand for this record: magic number, format version,
    /// the entry ids behind their count.
    pub open spec fn encoding(self) -> Seq<u8> {
        u16_le(USER_MAGIC_NUMBER) + seq![USER_FILE_VERSION] + id_list_le(self.entry_ids)
    }
}

/// The user record at the front of `s`.
pub open spec fn parse_user(s: Seq<u8>) -> Result<(UserDataView, Seq<u8>), DataError> {
    match parse_u16(s) {
        Err(e) => Err(e),
        Ok((magic, s1)) => if magic != USER_MAGIC_NUMBER {
            Err(DataError::IncorrectMagicNum)
        } else {
            match parse_u8(s1) {
                Err(e) => Err(e),
                Ok((version, s2)) => if version != USER_FILE_VERSION {
                    Err(DataError::UnsupportedVersion)
                } else {
                    match parse_id_list(s2) {
                        Err(e) => Err(e),
                        Ok((entry_ids, s3)) => Ok((UserDataView { entry_ids }, s3)),
                    }
                },
            }
        },
    }
}

/// A user record read back from its bytes is the record, whatever follows.
pub proof fn lemma_parse_user_roundtrip(user: UserDataView, rest: Seq<u8>)
    requires
        user.encodable(),
    ensures
        parse_user(user.encoding() + rest) == Ok::<(UserDataView, Seq<u8>), DataError>(
            (user, rest),
        ),
{
    let s2 = id_list_le(user.entry_ids) + rest;
    let s1 = seq![USER_FILE_VERSION] + s2;
    lemma_parse_u16_roundtrip(USER_MAGIC_NUMBER, s1);
    lemma_parse_u8_roundtrip(USER_FILE_VERSION, s2);
    lemma_parse_id_list_roundtrip(user.entry_ids, rest);
    lemma_concat_assoc(
        u16_le(USER_MAGIC_NUMBER) + seq![USER_FILE_VERSION],
        id_list_le(user.entry_ids),
        rest,
    );
    lemma_concat_assoc(u16_le(USER_MAGIC_NUMBER), seq![USER_FILE_VERSION], s2);
}

/// Decoding the bytes of a user record gives the record.
pub proof fn lemma_user_round_trip(user: UserDataView)
    requires
        user.encodable(),
    ensures
        parse_user(user.encoding()) == Ok::<(UserDataView, Seq<u8>), DataError>(
            (user, Seq::empty()),
        ),
{
    lemma_parse_user_roundtrip(user, Seq::empty());
}

/// Bytes that do not begin with the magic number of user records are
/// rejected as such.
pub proof fn lemma_user_wrong_magic(s: Seq<u8>)
    requires
        s.len() >= 2,
        s.take(2) != u16_le(USER_MAGIC_NUMBER),
    ensures
        parse_user(s) == Err::<(UserDataView, Seq<u8>), DataError>(DataError::IncorrectMagicNum),
{
    lemma_u16_from_le_inverse(s);
}

/// A user record of a version other than the known one is rejected as such.
pub proof fn lemma_user_wrong_version(s: Seq<u8>)
    requires
        s.len() >= 3,
        u16_from_le(s) == USER_MAGIC_NUMBER,
        s[2] != USER_FILE_VERSION,
    ensures
        parse_user(s) == Err::<(UserDataView, Seq<u8>), DataError>(DataError::UnsupportedVersion),
{
}

/// A user record that announces more entries than its bytes can hold is cut
/// short.
pub proof fn lemma_user_count_exceeds(s: Seq<u8>)
    requires
        s.len() >= 7,
        u16_from_le(s) == USER_MAGIC_NUMBER,
        s[2] == USER_FILE_VERSION,
        8 * u32_from_le(s.skip(3)) > s.len() - 7,
    ensures
        parse_user(s) == Err::<(UserDataView, Seq<u8>), DataError>(DataError::InsufficientBytes),
{
    assert(s.skip(2).skip(1) =~= s.skip(3));
    lemma_id_list_count_exceeds(s.skip(3));
}

impl UserData {
    /// The record of a user who has written nothing.
    pub fn new_empty() -> (user: Self)
        ensures
            user@.entry_ids == Seq::<u64>::empty(),
    {
        UserData { entry_ids: Vec::new() }
    }

    /// Decodes the user record at the front of `data` and gives the bytes
    /// after it.
    pub fn decode(data: &[u8]) -> (res: Result<(Self, &[u8]), DataError>)
        ensures
            decodes(res, parse_user(data@)),
    {
        let (magic_number, rest) = take_u16(data)?;
        if magic_number != USER_MAGIC_NUMBER {
            return Err(DataError::IncorrectMagicNum);
        }
        let (version, rest) = take_u8(rest)?;
        if version != USER_FILE_VERSION {
            return Err(DataError::UnsupportedVersion);
        }
        let (entry_ids, rest) = take_id_list(rest)?;
        Ok((UserData { entry_ids }, rest))
    }

    /// Decodes the user record at the front of `data`.
    pub fn from_data(data: &[u8]) -> (res: Result<Self, DataError>)
        ensures
            decodes_whole(res, parse_user(data@)),
    {
        let (user, _) = Self::decode(data)?;
        Ok(user)
    }

    /// Decodes the user record at the cursor and moves the cursor past it.
    pub fn from_data_iter(data_iter: &mut DataIter) -> (res: Result<Self, DataError>)
        ensures
            advances(res, old(data_iter)@, final(data_iter)@, parse_user(old(data_iter)@)),
    {
        let (user, rest) = Self::decode(data_iter.data)?;
        data_iter.data = rest;
        Ok(user)
    }

    /// Whether the entries are few enough for their 32-bit count.
    pub fn is_encodable(&self) -> (encodable: bool)
        ensures
            encodable == self@.encodable(),
    {
        id_list_fits(&self.entry_ids)
    }

    /// Appends the bytes of this record.
    pub(crate) fn put(&self, data: &mut Vec<u8>)
        requires
            self@.encodable(),
        ensures
            final(data)@ == old(data)@ + self@.encoding(),
    {
        put_u16(data, USER_MAGIC_NUMBER);
        data.push(USER_FILE_VERSION);
        put_id_list(data, &self.entry_ids);
    }

    /// The bytes of this record, or a failure when it has too many entries
    /// for their count.
    pub fn into_data(&self) -> (res: Result<Vec<u8>, DataError>)
        ensures
            self@.encodable() ==> res is Ok && res->Ok_0@ == self@.encoding(),
            !self@.encodable() ==> res == Err::<Vec<u8>, DataError>(
                DataError::OOBUsizeConversion,
            ),
    {
        let mut data = Vec::new();
        self.extend_data(&mut data)?;
        Ok(data)
    }

    /// Appends the bytes of this record, or fails and appends nothing.
    pub fn extend_data(&self, data: &mut Vec<u8>) -> (res: Result<(), DataError>)
        ensures
            self@.encodable() ==> res is Ok && final(data)@ == old(data)@ + self@.encoding(),
            !self@.encodable() ==> res == Err::<(), DataError>(DataError::OOBUsizeConversion)
                && final(data)@ == old(data)@,
    {
        if !self.is_encodable() {
            return Err(DataError::OOBUsizeConversion);
        }
        self.put(data);
        Ok(())
    }
}

} // verus!
