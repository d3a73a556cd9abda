//! Requests: what a client asks of the board.

use crate::consts::{
    ADD_ENTRY, ADD_USER, ENTRY_FILE_VERSION, GET_ENTRY, GET_USER, REQUEST_FORMAT_VERSION,
};
use crate::entry::{lemma_parse_entry_roundtrip, parse_entry, Entry, EntryView};
use crate::error::DataError;
use crate::le::{put_u64, u64_le};
use crate::wire::{
    decodes, decodes_whole, lemma_concat_assoc, lemma_parse_u64_roundtrip,
    lemma_parse_u8_roundtrip, parse_u64, parse_u8, take_u64, take_u8,
};
use vstd::prelude::*;

verus! {

/// A request.
#[derive(PartialEq, Eq, Debug)]
pub enum BoardRequest {
    /// Read an entry.
    GetEntry { user_id: u64, entry_id: u64 },
    /// Add an entry under the parent that its header names.
    AddEntry { user_id: u64, entry: Entry },
    /// Read a user record.
    GetUser { user_id: u64 },
    /// Create a user.
    AddUser,
}

/// A request as a mathematical value.
pub enum BoardRequestView {
    GetEntry { user_id: u64, entry_id: u64 },
    AddEntry { user_id: u64, entry: EntryView },
    GetUser { user_id: u64 },
    AddUser,
}

impl View for BoardRequest {
    type V = BoardRequestView;

    open spec fn view(&self) -> BoardRequestView {
        match *self {
            BoardRequest::GetEntry { user_id, entry_id } => BoardRequestView::GetEntry {
                user_id,
                entry_id,
            },
            BoardRequest::AddEntry { user_id, entry } => BoardRequestView::AddEntry {
                user_id,
                entry: entry@,
            },
            BoardRequest::GetUser { user_id } => BoardRequestView::GetUser { user_id },
            BoardRequest::AddUser => BoardRequestView::AddUser,
        }
    }
}

impl BoardRequestView {
    /// The byte that tells the kind of this request.
    pub open spec fn discriminant(self) -> u8 {
        match self {
            BoardRequestView::GetEntry { .. } => GET_ENTRY,
            BoardRequestView::AddEntry { .. } => ADD_ENTRY,
            BoardRequestView::GetUser { .. } => GET_USER,
            BoardRequestView::AddUser => ADD_USER,
        }
    }

    /// Whether every count and length fits its prefix on the wire.
    pub open spec fn encodable(self) -> bool {
        match self {
            BoardRequestView::AddEntry { user_id, entry } => entry.encodable(),
            _ => true,
        }
    }

    /// Whether decoding can give this request: an entry in it then has the
    /// one known format version.
    pub open spec fn decodable(self) -> bool {
        self matches BoardRequestView::AddEntry { entry, .. } ==> entry.header_data.version
            == ENTRY_FILE_VERSION
    }

    /// What follows the version and the kind.
    pub open spec fn payload(self) -> Seq<u8> {
        match self {
            BoardRequestView::GetEntry { user_id, entry_id } => u64_le(user_id) + u64_le(entry_id),
            BoardRequestView::AddEntry { user_id, entry } => u64_le(user_id) + entry.encoding(),
            BoardRequestView::GetUser { user_id } => u64_le(user_id),
            BoardRequestView::AddUser => Seq::empty(),
        }
    }

    /// The bytes that stand for this request: format version, kind, payload.
    pub open spec fn encoding(self) -> Seq<u8> {
        seq![REQUEST_FORMAT_VERSION] + seq![self.discriminant()] + self.payload()
    }
}

/// The payload of a request of kind `discriminant` at the front of `s`.
pub open spec fn parse_request_payload(s: Seq<u8>, discriminant: u8) -> Result<
    (BoardRequestView, Seq<u8>),
    DataError,
> {
    if discriminant == GET_ENTRY {
        match parse_u64(s) {
            Err(e) => Err(e),
            Ok((user_id, s1)) => match parse_u64(s1) {
                Err(e) => Err(e),
                Ok((entry_id, s2)) => Ok((BoardRequestView::GetEntry { user_id, entry_id }, s2)),
            },
        }
    } else if discriminant == ADD_ENTRY {
        match parse_u64(s) {
            Err(e) => Err(e),
            Ok((user_id, s1)) => match parse_entry(s1) {
                Err(e) => Err(e),
                Ok((entry, s2)) => Ok((BoardRequestView::AddEntry { user_id, entry }, s2)),
            },
        }
    } else if discriminant == GET_USER {
        match parse_u64(s) {
            Err(e) => Err(e),
            Ok((user_id, s1)) => Ok((BoardRequestView::GetUser { user_id }, s1)),
        }
    } else if discriminant == ADD_USER {
        Ok((BoardRequestView::AddUser, s))
    } else {
        Err(DataError::InvalidDiscriminant)
    }
}

/// The request at the front of `s`.
pub open spec fn parse_request(s: Seq<u8>) -> Result<(BoardRequestView, Seq<u8>), DataError> {
    match parse_u8(s) {
        Err(e) => Err(e),
        Ok((version, s1)) => if version != REQUEST_FORMAT_VERSION {
            Err(DataError::UnsupportedVersion)
        } else {
            match parse_u8(s1) {
                Err(e) => Err(e),
                Ok((discriminant, s2)) => parse_request_payload(s2, discriminant),
            }
        },
    }
}

/// The payload of a request read back from its bytes is the request,
/// whatever follows.
pub proof fn lemma_parse_request_payload_roundtrip(request: BoardRequestView, rest: Seq<u8>)
    requires
        request.encodable(),
        request.decodable(),
    ensures
        parse_request_payload(request.payload() + rest, request.discriminant()) == Ok::<
            (BoardRequestView, Seq<u8>),
            DataError,
        >((request, rest)),
{
    match request {
        BoardRequestView::GetEntry { user_id, entry_id } => {
            lemma_parse_u64_roundtrip(user_id, u64_le(entry_id) + rest);
            lemma_parse_u64_roundtrip(entry_id, rest);
            lemma_concat_assoc(u64_le(user_id), u64_le(entry_id), rest);
        },
        BoardRequestView::AddEntry { user_id, entry } => {
            lemma_parse_u64_roundtrip(user_id, entry.encoding() + rest);
            lemma_parse_entry_roundtrip(entry, rest);
            lemma_concat_assoc(u64_le(user_id), entry.encoding(), rest);
        },
        BoardRequestView::GetUser { user_id } => {
            lemma_parse_u64_roundtrip(user_id, rest);
        },
        BoardRequestView::AddUser => {},
    }
}

/// A request read back from its bytes is the request, whatever follows.
pub proof fn lemma_parse_request_roundtrip(request: BoardRequestView, rest: Seq<u8>)
    requires
        request.encodable(),
        request.decodable(),
    ensures
        parse_request(request.encoding() + rest) == Ok::<(BoardRequestView, Seq<u8>), DataError>(
            (request, rest),
        ),
{
    let s2 = request.payload() + rest;
    let s1 = seq![request.discriminant()] + s2;
    lemma_parse_u8_roundtrip(REQUEST_FORMAT_VERSION, s1);
    lemma_parse_u8_roundtrip(request.discriminant(), s2);
    lemma_parse_request_payload_roundtrip(request, rest);
    lemma_concat_assoc(
        seq![REQUEST_FORMAT_VERSION] + seq![request.discriminant()],
        request.payload(),
        rest,
    );
    lemma_concat_assoc(seq![REQUEST_FORMAT_VERSION], seq![request.discriminant()], s2);
}

/// Decoding the bytes of a request gives the request.
pub proof fn lemma_request_round_trip(request: BoardRequestView)
    requires
        request.encodable(),
        request.decodable(),
    ensures
        parse_request(request.encoding()) == Ok::<(BoardRequestView, Seq<u8>), DataError>(
            (request, Seq::empty()),
        ),
{
    lemma_parse_request_roundtrip(request, Seq::empty());
}

/// A request of a version other than the known one is rejected as such.
pub proof fn lemma_request_wrong_version(s: Seq<u8>)
    requires
        s.len() >= 1,
        s[0] != REQUEST_FORMAT_VERSION,
    ensures
        parse_request(s) == Err::<(BoardRequestView, Seq<u8>), DataError>(
            DataError::UnsupportedVersion,
        ),
{
}

/// A request of a kind other than the four known ones is rejected as such.
pub proof fn lemma_request_unknown_kind(s: Seq<u8>)
    requires
        s.len() >= 2,
        s[0] == REQUEST_FORMAT_VERSION,
        s[1] != GET_ENTRY,
        s[1] != ADD_ENTRY,
        s[1] != GET_USER,
        s[1] != ADD_USER,
    ensures
        parse_request(s) == Err::<(BoardRequestView, Seq<u8>), DataError>(
            DataError::InvalidDiscriminant,
        ),
{
}

impl BoardRequest {
    /// Decodes the request at the front of `data` and gives the bytes after
    /// it.
    pub fn decode(data: &[u8]) -> (res: Result<(Self, &[u8]), DataError>)
        ensures
            decodes(res, parse_request(data@)),
    {
        let (version, rest) = take_u8(data)?;
        if version != REQUEST_FORMAT_VERSION {
            return Err(DataError::UnsupportedVersion);
        }
        let (discriminant, rest) = take_u8(rest)?;
        if discriminant == GET_ENTRY {
            let (user_id, rest) = take_u64(rest)?;
            let (entry_id, rest) = take_u64(rest)?;
            Ok((BoardRequest::GetEntry { user_id, entry_id }, rest))
        } else if discriminant == ADD_ENTRY {
            let (user_id, rest) = take_u64(rest)?;
            let (entry, rest) = Entry::decode(rest)?;
            Ok((BoardRequest::AddEntry { user_id, entry }, rest))
        } else if discriminant == GET_USER {
            let (user_id, rest) = take_u64(rest)?;
            Ok((BoardRequest::GetUser { user_id }, rest))
        } else if discriminant == ADD_USER {
            Ok((BoardRequest::AddUser, rest))
        } else {
            Err(DataError::InvalidDiscriminant)
        }
    }

    /// Decodes the request at the front of `data`.
    pub fn from_data(data: &[u8]) -> (res: Result<Self, DataError>)
        ensures
            decodes_whole(res, parse_request(data@)),
    {
        let (request, _) = Self::decode(data)?;
        Ok(request)
    }

    /// Whether every count and length fits its prefix on the wire.
    pub fn is_encodable(&self) -> (encodable: bool)
        ensures
            encodable == self@.encodable(),
    {
        match self {
            BoardRequest::AddEntry { user_id: _, entry } => entry.is_encodable(),
            _ => true,
        }
    }

    /// Appends the bytes of this request.
    pub(crate) fn put(&self, data: &mut Vec<u8>)
        requires
            self@.encodable(),
        ensures
            final(data)@ == old(data)@ + self@.encoding(),
    {
        data.push(REQUEST_FORMAT_VERSION);
        match self {
            BoardRequest::GetEntry { user_id, entry_id } => {
                data.push(GET_ENTRY);
                put_u64(data, *user_id);
                put_u64(data, *entry_id);
            },
            BoardRequest::AddEntry { user_id, entry } => {
                data.push(ADD_ENTRY);
                put_u64(data, *user_id);
                entry.put(data);
            },
            BoardRequest::GetUser { user_id } => {
                data.push(GET_USER);
                put_u64(data, *user_id);
            },
            BoardRequest::AddUser => {
                data.push(ADD_USER);
            },
        }
    }

    /// The bytes of this request, or a failure when a count or a length
    /// does not fit its prefix.
    pub fn into_data(&self) -> (res: Result<Vec<u8>, DataError>)
        ensures
            self@.encodable() ==> res is Ok && res->Ok_0@ == self@.encoding(),
            !self@.encodable() ==> res == Err::<Vec<u8>, DataError>(
                DataError::OOBUsizeConversion,
            ),
    {
        let mut data = Vec::new();
        self.extend_data(&mut data)?;
        Ok(data)
    }

    /// Appends the bytes of this request, or fails and appends nothing.
    pub fn extend_data(&self, data: &mut Vec<u8>) -> (res: Result<(), DataError>)
        ensures
            self@.encodable() ==> res is Ok && final(data)@ == old(data)@ + self@.encoding(),
            !self@.encodable() ==> res == Err::<(), DataError>(DataError::OOBUsizeConversion)
                && final(data)@ == old(data)@,
    {
        if !self.is_encodable() {
            return Err(DataError::OOBUsizeConversion);
        }
        self.put(data);
        Ok(())
    }
}

} // verus!
