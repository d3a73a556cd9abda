//! Responses: what the board answers. A failure travels as a single byte
//! and comes out at the other end as an internal error.

use crate::consts::{
    ADD_ENTRY, ADD_USER, ENTRY_FILE_VERSION, ERROR, GET_ENTRY, GET_USER, RESPONSE_FORMAT_VERSION,
};
use crate::entry::{lemma_parse_entry_roundtrip, parse_entry, Entry, EntryView};
use crate::error::DataError;
use crate::le::{put_u64, u64_le};
use crate::user::{lemma_parse_user_roundtrip, parse_user, UserData, UserDataView};
use crate::wire::{
    decodes, lemma_concat_assoc, lemma_parse_u64_roundtrip, lemma_parse_u8_roundtrip, parse_u64,
    parse_u8, take_u64, take_u8,
};
use vstd::prelude::*;

verus! {

/// The answer to a request that succeeded.
#[derive(PartialEq, Eq, Debug)]
pub enum BoardResponse {
    /// The entry that was asked for.
    GetEntry(Entry),
    /// The id that the new entry was given.
    AddEntry(u64),
    /// The user record that was asked for.
    GetUser(UserData),
    /// The id that the new user was given.
    AddUser(u64),
}

/// The answer to a request: a response, or why there is none.
pub type MaybeBoardResponse = Result<BoardResponse, DataError>;

/// A response as a mathematical value.
pub enum BoardResponseView {
    GetEntry(EntryView),
    AddEntry(u64),
    GetUser(UserDataView),
    AddUser(u64),
}

impl View for BoardResponse {
    type V = BoardResponseView;

    open spec fn view(&self) -> BoardResponseView {
        match *self {
            BoardResponse::GetEntry(entry) => BoardResponseView::GetEntry(entry@),
            BoardResponse::AddEntry(entry_id) => BoardResponseView::AddEntry(entry_id),
            BoardResponse::GetUser(user) => BoardResponseView::GetUser(user@),
            BoardResponse::AddUser(user_id) => BoardResponseView::AddUser(user_id),
        }
    }
}

/// An answer as a mathematical value.
pub open spec fn maybe_view(val: MaybeBoardResponse) -> Result<BoardResponseView, DataError> {
    match val {
        Ok(response) => Ok(response@),
        Err(e) => Err(e),
    }
}

impl BoardResponseView {
    /// The byte that tells the kind of this response.
    pub open spec fn discriminant(self) -> u8 {
        match self {
            BoardResponseView::GetEntry(_) => GET_ENTRY,
            BoardResponseView::AddEntry(_) => ADD_ENTRY,
            BoardResponseView::GetUser(_) => GET_USER,
            BoardResponseView::AddUser(_) => ADD_USER,
        }
    }

    /// Whether every count and length fits its prefix on the wire.
    pub open spec fn encodable(self) -> bool {
        match self {
            BoardResponseView::GetEntry(entry) => entry.encodable(),
            BoardResponseView::GetUser(user) => user.encodable(),
            _ => true,
        }
    }

    /// Whether decoding can give this response: an entry in it then has the
    /// one known format version.
    pub open spec fn decodable(self) -> bool {
        self matches BoardResponseView::GetEntry(entry) ==> entry.header_data.version
            == ENTRY_FILE_VERSION
    }

    /// What follows the version and the kind.
    pub open spec fn payload(self) -> Seq<u8> {
        match self {
            BoardResponseView::GetEntry(entry) => entry.encoding(),
            BoardResponseView::AddEntry(entry_id) => u64_le(entry_id),
            BoardResponseView::GetUser(user) => user.encoding(),
            BoardResponseView::AddUser(user_id) => u64_le(user_id),
        }
    }

    /// The bytes that stand for this response: format version, kind,
    /// payload.
    pub open spec fn encoding(self) -> Seq<u8> {
        seq![RESPONSE_FORMAT_VERSION] + seq![self.discriminant()] + self.payload()
    }
}

/// Whether an answer can be encoded: every failure can.
pub open spec fn maybe_encodable(val: Result<BoardResponseView, DataError>) -> bool {
    match val {
        Ok(response) => response.encodable(),
        Err(_) => true,
    }
}

/// The bytes that stand for an answer. Of a failure only the fact is sent.
pub open spec fn maybe_encoding(val: Result<BoardResponseView, DataError>) -> Seq<u8> {
    match val {
        Ok(response) => response.encoding(),
        Err(_) => seq![RESPONSE_FORMAT_VERSION] + seq![ERROR],
    }
}

/// The payload of a response of kind `discriminant` at the front of `s`.
pub open spec fn parse_response_payload(s: Seq<u8>, discriminant: u8) -> Result<
    (BoardResponseView, Seq<u8>),
    DataError,
> {
    if discriminant == GET_ENTRY {
        match parse_entry(s) {
            Err(e) => Err(e),
            Ok((entry, s1)) => Ok((BoardResponseView::GetEntry(entry), s1)),
        }
    } else if discriminant == ADD_ENTRY {
        match parse_u64(s) {
            Err(e) => Err(e),
            Ok((entry_id, s1)) => Ok((BoardResponseView::AddEntry(entry_id), s1)),
        }
    } else if discriminant == GET_USER {
        match parse_user(s) {
            Err(e) => Err(e),
            Ok((user, s1)) => Ok((BoardResponseView::GetUser(user), s1)),
        }
    } else if discriminant == ADD_USER {
        match parse_u64(s) {
            Err(e) => Err(e),
            Ok((user_id, s1)) => Ok((BoardResponseView::AddUser(user_id), s1)),
        }
    } else if discriminant == ERROR {
        Err(DataError::InternalError)
    } else {
        Err(DataError::InvalidDiscriminant)
    }
}

/// The answer at the front of `s`.
pub open spec fn parse_response(s: Seq<u8>) -> Result<(BoardResponseView, Seq<u8>), DataError> {
    match parse_u8(s) {
        Err(e) => Err(e),
        Ok((version, s1)) => if version != RESPONSE_FORMAT_VERSION {
            Err(DataError::UnsupportedVersion)
        } else {
            match parse_u8(s1) {
                Err(e) => Err(e),
                Ok((discriminant, s2)) => parse_response_payload(s2, discriminant),
            }
        },
    }
}

/// The payload of a response read back from its bytes is the response,
/// whatever follows.
pub proof fn lemma_parse_response_payload_roundtrip(response: BoardResponseView, rest: Seq<u8>)
    requires
        response.encodable(),
        response.decodable(),
    ensures
        parse_response_payload(response.payload() + rest, response.discriminant()) == Ok::<
            (BoardResponseView, Seq<u8>),
            DataError,
        >((response, rest)),
{
    match response {
        BoardResponseView::GetEntry(entry) => {
            lemma_parse_entry_roundtrip(entry, rest);
        },
        BoardResponseView::AddEntry(entry_id) => {
            lemma_parse_u64_roundtrip(entry_id, rest);
        },
        BoardResponseView::GetUser(user) => {
            lemma_parse_user_roundtrip(user, rest);
        },
        BoardResponseView::AddUser(user_id) => {
            lemma_parse_u64_roundtrip(user_id, rest);
        },
    }
}

/// A response read back from its bytes is the response, whatever follows.
pub proof fn lemma_parse_response_roundtrip(response: BoardResponseView, rest: Seq<u8>)
    requires
        response.encodable(),
        response.decodable(),
    ensures
        parse_response(response.encoding() + rest) == Ok::<
            (BoardResponseView, Seq<u8>),
            DataError,
        >((response, rest)),
{
    let s2 = response.payload() + rest;
    let s1 = seq![response.discriminant()] + s2;
    lemma_parse_u8_roundtrip(RESPONSE_FORMAT_VERSION, s1);
    lemma_parse_u8_roundtrip(response.discriminant(), s2);
    lemma_parse_response_payload_roundtrip(response, rest);
    lemma_concat_assoc(
        seq![RESPONSE_FORMAT_VERSION] + seq![response.discriminant()],
        response.payload(),
        rest,
    );
    lemma_concat_assoc(seq![RESPONSE_FORMAT_VERSION], seq![response.discriminant()], s2);
}

/// Decoding the bytes of an answer gives the response that was encoded,
/// and an internal error where a failure was encoded.
pub proof fn lemma_response_round_trip(val: Result<BoardResponseView, DataError>)
    requires
        maybe_encodable(val),
        val matches Ok(response) ==> response.decodable(),
    ensures
        val matches Ok(response) ==> parse_response(maybe_encoding(val)) == Ok::<
            (BoardResponseView, Seq<u8>),
            DataError,
        >((response, Seq::empty())),
        val is Err ==> parse_response(maybe_encoding(val)) == Err::<
            (BoardResponseView, Seq<u8>),
            DataError,
        >(DataError::InternalError),
{
    match val {
        Ok(response) => {
            lemma_parse_response_roundtrip(response, Seq::empty());
        },
        Err(_) => {
            lemma_parse_u8_roundtrip(RESPONSE_FORMAT_VERSION, seq![ERROR]);
            lemma_parse_u8_roundtrip(ERROR, Seq::empty());
        },
    }
}

/// An answer of a version other than the known one is rejected as such.
pub proof fn lemma_response_wrong_version(s: Seq<u8>)
    requires
        s.len() >= 1,
        s[0] != RESPONSE_FORMAT_VERSION,
    ensures
        parse_response(s) == Err::<(BoardResponseView, Seq<u8>), DataError>(
            DataError::UnsupportedVersion,
        ),
{
}

/// An answer of a kind other than the five known ones is rejected as such.
pub proof fn lemma_response_unknown_kind(s: Seq<u8>)
    requires
        s.len() >= 2,
        s[0] == RESPONSE_FORMAT_VERSION,
        s[1] != GET_ENTRY,
        s[1] != ADD_ENTRY,
        s[1] != GET_USER,
        s[1] != ADD_USER,
        s[1] != ERROR,
    ensures
        parse_response(s) == Err::<(BoardResponseView, Seq<u8>), DataError>(
            DataError::InvalidDiscriminant,
        ),
{
}

impl BoardResponse {
    /// Decodes the answer at the front of `data` and gives the bytes after
    /// it.
    pub fn decode(data: &[u8]) -> (res: Result<(Self, &[u8]), DataError>)
        ensures
            decodes(res, parse_response(data@)),
    {
        let (version, rest) = take_u8(data)?;
        if version != RESPONSE_FORMAT_VERSION {
            return Err(DataError::UnsupportedVersion);
        }
        let (discriminant, rest) = take_u8(rest)?;
        if discriminant == GET_ENTRY {
            let (entry, rest) = Entry::decode(rest)?;
            Ok((BoardResponse::GetEntry(entry), rest))
        } else if discriminant == ADD_ENTRY {
            let (entry_id, rest) = take_u64(rest)?;
            Ok((BoardResponse::AddEntry(entry_id), rest))
        } else if discriminant == GET_USER {
            let (user, rest) = UserData::decode(rest)?;
            Ok((BoardResponse::GetUser(user), rest))
        } else if discriminant == ADD_USER {
            let (user_id, rest) = take_u64(rest)?;
            Ok((BoardResponse::AddUser(user_id), rest))
        } else if discriminant == ERROR {
            Err(DataError::InternalError)
        } else {
            Err(DataError::InvalidDiscriminant)
        }
    }

    /// Decodes the answer at the front of `data`.
    pub fn from_data(data: &[u8]) -> (res: MaybeBoardResponse)
        ensures
            match res {
                Ok(response) => parse_response(data@) is Ok && parse_response(data@)->Ok_0.0
                    == response@,
                Err(e) => parse_response(data@) == Err::<(BoardResponseView, Seq<u8>), DataError>(
                    e,
                ),
            },
    {
        let (response, _) = Self::decode(data)?;
        Ok(response)
    }

    /// Whether the answer can be encoded.
    pub fn is_encodable(val: &MaybeBoardResponse) -> (encodable: bool)
        ensures
            encodable == maybe_encodable(maybe_view(*val)),
    {
        match val {
            Ok(BoardResponse::GetEntry(entry)) => entry.is_encodable(),
            Ok(BoardResponse::GetUser(user)) => user.is_encodable(),
            _ => true,
        }
    }

    /// Appends the bytes of the answer.
    pub(crate) fn put(val: &MaybeBoardResponse, data: &mut Vec<u8>)
        requires
            maybe_encodable(maybe_view(*val)),
        ensures
            final(data)@ == old(data)@ + maybe_encoding(maybe_view(*val)),
    {
        data.push(RESPONSE_FORMAT_VERSION);
        match val {
            Ok(BoardResponse::GetEntry(entry)) => {
                data.push(GET_ENTRY);
                entry.put(data);
            },
            Ok(BoardResponse::AddEntry(entry_id)) => {
                data.push(ADD_ENTRY);
                put_u64(data, *entry_id);
            },
            Ok(BoardResponse::GetUser(user)) => {
                data.push(GET_USER);
                user.put(data);
            },
            Ok(BoardResponse::AddUser(user_id)) => {
                data.push(ADD_USER);
                put_u64(data, *user_id);
            },
            Err(_) => {
                data.push(ERROR);
            },
        }
    }

    /// The bytes of the answer, or a failure when a count or a length does
    /// not fit its prefix.
    pub fn into_data(val: &MaybeBoardResponse) -> (res: Result<Vec<u8>, DataError>)
        ensures
            maybe_encodable(maybe_view(*val)) ==> res is Ok && res->Ok_0@ == maybe_encoding(
                maybe_view(*val),
            ),
            !maybe_encodable(maybe_view(*val)) ==> res == Err::<Vec<u8>, DataError>(
                DataError::OOBUsizeConversion,
            ),
    {
        let mut data = Vec::new();
        Self::extend_data(val, &mut data)?;
        Ok(data)
    }

    /// Appends the bytes of the answer, or fails and appends nothing.
    pub fn extend_data(val: &MaybeBoardResponse, data: &mut Vec<u8>) -> (res: Result<
        (),
        DataError,
    >)
        ensures
            maybe_encodable(maybe_view(*val)) ==> res is Ok && final(data)@ == old(data)@
                + maybe_encoding(maybe_view(*val)),
            !maybe_encodable(maybe_view(*val)) ==> res == Err::<(), DataError>(
                DataError::OOBUsizeConversion,
            ) && final(data)@ == old(data)@,
    {
        if !Self::is_encodable(val) {
            return Err(DataError::OOBUsizeConversion);
        }
        Self::put(val, data);
        Ok(())
    }
}

} // verus!
