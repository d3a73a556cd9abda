//! Entries: the nodes of the board's tree. An entry is a header, which
//! places it in the tree, and a payload, a message or an access group.

use crate::consts::{ACCESS_GROUP, ENTRY_FILE_VERSION, ENTRY_MAGIC_NUMBER, MESSAGE};
use crate::error::DataError;
use crate::idset::{lemma_parse_id_set_roundtrip, parse_id_set, DefaultedIdSet, IdSetView};
use crate::le::{
    lemma_u16_from_le_inverse, put_u16, put_u64, u16_from_le, u16_le, u32_from_le, u64_le,
};
use crate::wire::{
    advances, decodes, decodes_whole, fits_u32, ids_le, lemma_concat_assoc,
    lemma_parse_ids_roundtrip, lemma_parse_text_roundtrip, lemma_parse_u16_roundtrip,
    lemma_parse_u64_roundtrip, lemma_parse_u8_roundtrip, lemma_text_length_exceeds, parse_ids,
    parse_text, parse_u16, parse_u64, parse_u8, put_ids, put_text, take_ids, take_text, take_u16,
    take_u64, take_u8, text_fits, text_le, DataIter,
};
use vstd::prelude::*;
use vstd::utf8::encode_utf8;

verus! {

/// The part that every entry has: where it hangs in the tree and who wrote
/// it.
#[derive(PartialEq, Eq, Debug)]
pub struct HeaderData {
    pub version: u8,
    pub parent_id: u64,
    pub children_ids: Vec<u64>,
    pub author_id: u64,
}

/// A header as a mathematical value.
pub struct HeaderView {
    pub version: u8,
    pub parent_id: u64,
    pub children_ids: Seq<u64>,
    pub author_id: u64,
}

impl View for HeaderData {
    type V = HeaderView;

    open spec fn view(&self) -> HeaderView {
        HeaderView {
            version: self.version,
            parent_id: self.parent_id,
            children_ids: self.children_ids@,
            author_id: self.author_id,
        }
    }
}

impl HeaderView {
    /// Whether the children are few enough for their 16-bit count.
    pub open spec fn encodable(self) -> bool {
        self.children_ids.len() <= u16::MAX
    }

    /// The bytes that stand for this header in an entry of kind
    /// `entry_type`: magic number, format version, kind, parent, the
    /// children behind their count, author.
    pub open spec fn encoding(self, entry_type: u8) -> Seq<u8> {
        u16_le(ENTRY_MAGIC_NUMBER) + seq![ENTRY_FILE_VERSION] + seq![entry_type] + u64_le(
            self.parent_id,
        )
            + u16_le(self.children_ids.len() as u16) + ids_le(self.children_ids) + u64_le(
            self.author_id,
        )
    }
}

/// The header at the front of `s`, with the kind of the entry.
pub open spec fn parse_header(s: Seq<u8>) -> Result<((HeaderView, u8), Seq<u8>), DataError> {
    match parse_u16(s) {
        Err(e) => Err(e),
        Ok((magic, s1)) => if magic != ENTRY_MAGIC_NUMBER {
            Err(DataError::IncorrectMagicNum)
        } else {
            match parse_u8(s1) {
                Err(e) => Err(e),
                Ok((version, s2)) => if version != ENTRY_FILE_VERSION {
                    Err(DataError::UnsupportedVersion)
                } else {
                    match parse_u8(s2) {
                        Err(e) => Err(e),
                        Ok((entry_type, s3)) => parse_header_fields(s3, version, entry_type),
                    }
                },
            }
        },
    }
}

/// The rest of a header, after its magic number, version and kind.
pub open spec fn parse_header_fields(s: Seq<u8>, version: u8, entry_type: u8) -> Result<
    ((HeaderView, u8), Seq<u8>),
    DataError,
> {
    match parse_u64(s) {
        Err(e) => Err(e),
        Ok((parent_id, s1)) => match parse_u16(s1) {
            Err(e) => Err(e),
            Ok((num_children, s2)) => match parse_ids(s2, num_children as nat) {
                Err(e) => Err(e),
                Ok((children_ids, s3)) => match parse_u64(s3) {
                    Err(e) => Err(e),
                    Ok((author_id, s4)) => Ok(
                        (
                            (
                                HeaderView { version, parent_id, children_ids, author_id },
                                entry_type,
                            ),
                            s4,
                        ),
                    ),
                },
            },
        },
    }
}

/// A header read back from its bytes is the header, whatever follows.
pub proof fn lemma_parse_header_roundtrip(header: HeaderView, entry_type: u8, rest: Seq<u8>)
    requires
        header.encodable(),
        header.version == ENTRY_FILE_VERSION,
    ensures
        parse_header(header.encoding(entry_type) + rest) == Ok::<
            ((HeaderView, u8), Seq<u8>),
            DataError,
        >(((header, entry_type), rest)),
{
    let n = header.children_ids.len() as u16;
    let s7 = u64_le(header.author_id) + rest;
    let s6 = ids_le(header.children_ids) + s7;
    let s5 = u16_le(n) + s6;
    let s4 = u64_le(header.parent_id) + s5;
    let s3 = seq![entry_type] + s4;
    let s2 = seq![ENTRY_FILE_VERSION] + s3;
    let s1 = u16_le(ENTRY_MAGIC_NUMBER) + s2;
    lemma_parse_u16_roundtrip(ENTRY_MAGIC_NUMBER, s2);
    lemma_parse_u8_roundtrip(ENTRY_FILE_VERSION, s3);
    lemma_parse_u8_roundtrip(entry_type, s4);
    lemma_parse_u64_roundtrip(header.parent_id, s5);
    lemma_parse_u16_roundtrip(n, s6);
    lemma_parse_ids_roundtrip(header.children_ids, s7);
    lemma_parse_u64_roundtrip(header.author_id, rest);
    let a1 = u16_le(ENTRY_MAGIC_NUMBER);
    let a2 = a1 + seq![ENTRY_FILE_VERSION];
    let a3 = a2 + seq![entry_type];
    let a4 = a3 + u64_le(header.parent_id);
    let a5 = a4 + u16_le(n);
    let a6 = a5 + ids_le(header.children_ids);
    lemma_concat_assoc(a6, u64_le(header.author_id), rest);
    lemma_concat_assoc(a5, ids_le(header.children_ids), s7);
    lemma_concat_assoc(a4, u16_le(n), s6);
    lemma_concat_assoc(a3, u64_le(header.parent_id), s5);
    lemma_concat_assoc(a2, seq![entry_type], s4);
    lemma_concat_assoc(a1, seq![ENTRY_FILE_VERSION], s3);
}

/// The payload of an entry.
#[derive(PartialEq, Eq, Debug)]
pub enum EntryData {
    Message { timestamp: u64, message: String },
    AccessGroup { name: String, write_perms: DefaultedIdSet, read_perms: DefaultedIdSet },
}

/// A payload as a mathematical value.
pub enum EntryDataView {
    Message { timestamp: u64, message: Seq<char> },
    AccessGroup { name: Seq<char>, write_perms: IdSetView, read_perms: IdSetView },
}

impl View for EntryData {
    type V = EntryDataView;

    open spec fn view(&self) -> EntryDataView {
        match *self {
            EntryData::Message { timestamp, message } => EntryDataView::Message {
                timestamp,
                message: message@,
            },
            EntryData::AccessGroup { name, write_perms, read_perms } => EntryDataView::AccessGroup {
                name: name@,
                write_perms: write_perms@,
                read_perms: read_perms@,
            },
        }
    }
}

impl EntryDataView {
    /// The byte that tells the kind of this payload.
    pub open spec fn discriminant(self) -> u8 {
        match self {
            EntryDataView::Message { .. } => MESSAGE,
            EntryDataView::AccessGroup { .. } => ACCESS_GROUP,
        }
    }

    /// Whether the text and the lists are short enough for their 32-bit
    /// lengths.
    pub open spec fn encodable(self) -> bool {
        match self {
            EntryDataView::Message { timestamp, message } => fits_u32(encode_utf8(message).len()),
            EntryDataView::AccessGroup { name, write_perms, read_perms } => fits_u32(
                encode_utf8(name).len(),
            ) && write_perms.encodable() && read_perms.encodable(),
        }
    }

    /// The bytes that stand for this payload: for a message its timestamp
    /// and text, for an access group its name, its write permissions and
    /// its read permissions.
    pub open spec fn encoding(self) -> Seq<u8> {
        match self {
            EntryDataView::Message { timestamp, message } => u64_le(timestamp) + text_le(message),
            EntryDataView::AccessGroup { name, write_perms, read_perms } => text_le(name)
                + write_perms.encoding() + read_perms.encoding(),
        }
    }
}

/// The payload of kind `entry_type` at the front of `s`.
pub open spec fn parse_entry_data(s: Seq<u8>, entry_type: u8) -> Result<
    (EntryDataView, Seq<u8>),
    DataError,
> {
    if entry_type == MESSAGE {
        match parse_u64(s) {
            Err(e) => Err(e),
            Ok((timestamp, s1)) => match parse_text(s1) {
                Err(e) => Err(e),
                Ok((message, s2)) => Ok((EntryDataView::Message { timestamp, message }, s2)),
            },
        }
    } else if entry_type == ACCESS_GROUP {
        match parse_text(s) {
            Err(e) => Err(e),
            Ok((name, s1)) => match parse_id_set(s1) {
                Err(e) => Err(e),
                Ok((write_perms, s2)) => match parse_id_set(s2) {
                    Err(e) => Err(e),
                    Ok((read_perms, s3)) => Ok(
                        (EntryDataView::AccessGroup { name, write_perms, read_perms }, s3),
                    ),
                },
            },
        }
    } else {
        Err(DataError::InvalidDiscriminant)
    }
}

/// A payload read back from its bytes is the payload, whatever follows.
pub proof fn lemma_parse_entry_data_roundtrip(entry_data: EntryDataView, rest: Seq<u8>)
    requires
        entry_data.encodable(),
    ensures
        parse_entry_data(entry_data.encoding() + rest, entry_data.discriminant()) == Ok::<
            (EntryDataView, Seq<u8>),
            DataError,
        >((entry_data, rest)),
{
    match entry_data {
        EntryDataView::Message { timestamp, message } => {
            let s1 = text_le(message) + rest;
            lemma_parse_u64_roundtrip(timestamp, s1);
            lemma_parse_text_roundtrip(message, rest);
            lemma_concat_assoc(u64_le(timestamp), text_le(message), rest);
        },
        EntryDataView::AccessGroup { name, write_perms, read_perms } => {
            let s2 = read_perms.encoding() + rest;
            let s1 = write_perms.encoding() + s2;
            lemma_parse_text_roundtrip(name, s1);
            lemma_parse_id_set_roundtrip(write_perms, s2);
            lemma_parse_id_set_roundtrip(read_perms, rest);
            lemma_concat_assoc(text_le(name) + write_perms.encoding(), read_perms.encoding(), rest);
            lemma_concat_assoc(text_le(name), write_perms.encoding(), s2);
        },
    }
}

/// An entry.
#[derive(PartialEq, Eq, Debug)]
pub struct Entry {
    pub header_data: HeaderData,
    pub entry_data: EntryData,
}

/// An entry as a mathematical value.
pub struct EntryView {
    pub header_data: HeaderView,
    pub entry_data: EntryDataView,
}

impl View for Entry {
    type V = EntryView;

    open spec fn view(&self) -> EntryView {
        EntryView { header_data: self.header_data@, entry_data: self.entry_data@ }
    }
}

impl EntryView {
    /// Whether every count and length fits its prefix on the wire.
    pub open spec fn encodable(self) -> bool {
        self.header_data.encodable() && self.entry_data.encodable()
    }

    /// The bytes that stand for this entry: its header, then its payload.
    pub open spec fn encoding(self) -> Seq<u8> {
        self.header_data.encoding(self.entry_data.discriminant()) + self.entry_data.encoding()
    }

    /// This entry as it is read back once it was written: with the format
    /// version that is written, whatever its own says.
    pub open spec fn as_stored(self) -> EntryView {
        EntryView {
            header_data: HeaderView { version: ENTRY_FILE_VERSION, ..self.header_data },
            ..self
        }
    }
}

/// The entry at the front of `s`.
pub open spec fn parse_entry(s: Seq<u8>) -> Result<(EntryView, Seq<u8>), DataError> {
    match parse_header(s) {
        Err(e) => Err(e),
        Ok(((header_data, entry_type), s1)) => match parse_entry_data(s1, entry_type) {
            Err(e) => Err(e),
            Ok((entry_data, s2)) => Ok((EntryView { header_data, entry_data }, s2)),
        },
    }
}

/// An entry read back from its bytes is the entry, whatever follows.
pub proof fn lemma_parse_entry_roundtrip(entry: EntryView, rest: Seq<u8>)
    requires
        entry.encodable(),
        entry.header_data.version == ENTRY_FILE_VERSION,
    ensures
        parse_entry(entry.encoding() + rest) == Ok::<(EntryView, Seq<u8>), DataError>(
            (entry, rest),
        ),
{
    let entry_type = entry.entry_data.discriminant();
    let s1 = entry.entry_data.encoding() + rest;
    lemma_parse_header_roundtrip(entry.header_data, entry_type, s1);
    lemma_parse_entry_data_roundtrip(entry.entry_data, rest);
    lemma_concat_assoc(entry.header_data.encoding(entry_type), entry.entry_data.encoding(), rest);
}

/// Decoding the bytes of an entry gives the entry.
pub proof fn lemma_entry_round_trip(entry: EntryView)
    requires
        entry.encodable(),
        entry.header_data.version == ENTRY_FILE_VERSION,
    ensures
        parse_entry(entry.encoding()) == Ok::<(EntryView, Seq<u8>), DataError>(
            (entry, Seq::empty()),
        ),
{
    lemma_parse_entry_roundtrip(entry, Seq::empty());
}

/// Decoding the bytes of any entry that can be encoded gives the entry as
/// it is stored: with the one format version that is ever written.
pub proof fn lemma_entry_read_back(entry: EntryView)
    requires
        entry.encodable(),
    ensures
        parse_entry(entry.encoding()) == Ok::<(EntryView, Seq<u8>), DataError>(
            (entry.as_stored(), Seq::empty()),
        ),
{
    lemma_entry_round_trip(entry.as_stored());
}

/// Bytes that do not begin with the magic number of entries are rejected as
/// such.
pub proof fn lemma_entry_wrong_magic(s: Seq<u8>)
    requires
        s.len() >= 2,
        s.take(2) != u16_le(ENTRY_MAGIC_NUMBER),
    ensures
        parse_header(s) == Err::<((HeaderView, u8), Seq<u8>), DataError>(
            DataError::IncorrectMagicNum,
        ),
        parse_entry(s) == Err::<(EntryView, Seq<u8>), DataError>(DataError::IncorrectMagicNum),
{
    lemma_u16_from_le_inverse(s);
}

/// An entry of a version other than the known one is rejected as such.
pub proof fn lemma_entry_wrong_version(s: Seq<u8>)
    requires
        s.len() >= 3,
        u16_from_le(s) == ENTRY_MAGIC_NUMBER,
        s[2] != ENTRY_FILE_VERSION,
    ensures
        parse_header(s) == Err::<((HeaderView, u8), Seq<u8>), DataError>(
            DataError::UnsupportedVersion,
        ),
        parse_entry(s) == Err::<(EntryView, Seq<u8>), DataError>(DataError::UnsupportedVersion),
{
}

/// A payload of a kind other than message and access group is rejected as
/// such, whatever its bytes.
pub proof fn lemma_entry_data_unknown_kind(s: Seq<u8>, entry_type: u8)
    requires
        entry_type != MESSAGE,
        entry_type != ACCESS_GROUP,
    ensures
        parse_entry_data(s, entry_type) == Err::<(EntryDataView, Seq<u8>), DataError>(
            DataError::InvalidDiscriminant,
        ),
{
}

/// An entry whose header names a kind other than message and access group
/// is rejected as such.
pub proof fn lemma_entry_unknown_kind(s: Seq<u8>)
    requires
        parse_header(s) is Ok,
        parse_header(s)->Ok_0.0.1 != MESSAGE,
        parse_header(s)->Ok_0.0.1 != ACCESS_GROUP,
    ensures
        parse_entry(s) == Err::<(EntryView, Seq<u8>), DataError>(DataError::InvalidDiscriminant),
{
}

/// A message whose text is announced longer than the bytes that follow is
/// cut short.
pub proof fn lemma_message_length_exceeds(s: Seq<u8>)
    requires
        s.len() >= 12,
        u32_from_le(s.skip(8)) > s.len() - 12,
    ensures
        parse_entry_data(s, MESSAGE) == Err::<(EntryDataView, Seq<u8>), DataError>(
            DataError::InsufficientBytes,
        ),
{
    lemma_text_length_exceeds(s.skip(8));
}

/// An access group whose name is announced longer than the bytes that
/// follow is cut short.
pub proof fn lemma_group_name_length_exceeds(s: Seq<u8>)
    requires
        s.len() >= 4,
        u32_from_le(s) > s.len() - 4,
    ensures
        parse_entry_data(s, ACCESS_GROUP) == Err::<(EntryDataView, Seq<u8>), DataError>(
            DataError::InsufficientBytes,
        ),
{
    lemma_text_length_exceeds(s);
}

impl HeaderData {
    /// Decodes the header at the front of `data`; gives it with the kind
    /// of the entry, and the bytes after it.
    pub fn decode(data: &[u8]) -> (res: Result<((Self, u8), &[u8]), DataError>)
        ensures
            decodes(res, parse_header(data@)),
    {
        let (magic_number, rest) = take_u16(data)?;
        if magic_number != ENTRY_MAGIC_NUMBER {
            return Err(DataError::IncorrectMagicNum);
        }
        let (version, rest) = take_u8(rest)?;
        if version != ENTRY_FILE_VERSION {
            return Err(DataError::UnsupportedVersion);
        }
        let (entry_type, rest) = take_u8(rest)?;
        let (parent_id, rest) = take_u64(rest)?;
        let (num_children, rest) = take_u16(rest)?;
        let (children_ids, rest) = take_ids(rest, num_children as usize)?;
        let (author_id, rest) = take_u64(rest)?;
        Ok(((HeaderData { version, parent_id, children_ids, author_id }, entry_type), rest))
    }

    /// Decodes the header at the front of `data`; gives it with the kind
    /// of the entry.
    pub fn from_data(data: &[u8]) -> (res: Result<(Self, u8), DataError>)
        ensures
            decodes_whole(res, parse_header(data@)),
    {
        let (header, _) = Self::decode(data)?;
        Ok(header)
    }

    /// Decodes the header at the cursor and moves the cursor past it;
    /// gives the header with the kind of the entry.
    pub fn from_data_iter(data_iter: &mut DataIter) -> (res: Result<(Self, u8), DataError>)
        ensures
            advances(res, old(data_iter)@, final(data_iter)@, parse_header(old(data_iter)@)),
    {
        let (header, rest) = Self::decode(data_iter.data)?;
        data_iter.data = rest;
        Ok(header)
    }

    /// Whether the children are few enough for their 16-bit count.
    pub fn is_encodable(&self) -> (encodable: bool)
        ensures
            encodable == self@.encodable(),
    {
        self.children_ids.len() <= u16::MAX as usize
    }

    /// Appends the bytes of this header in an entry of kind `entry_type`.
    pub(crate) fn put(&self, entry_type: u8, data: &mut Vec<u8>)
        requires
            self@.encodable(),
        ensures
            final(data)@ == old(data)@ + self@.encoding(entry_type),
    {
        put_u16(data, ENTRY_MAGIC_NUMBER);
        data.push(ENTRY_FILE_VERSION);
        data.push(entry_type);
        put_u64(data, self.parent_id);
        put_u16(data, self.children_ids.len() as u16);
        put_ids(data, &self.children_ids);
        put_u64(data, self.author_id);
    }

    /// The bytes of this header in an entry of kind `entry_type`, or a
    /// failure when it has too many children for their count.
    pub fn into_data(&self, entry_type: u8) -> (res: Result<Vec<u8>, DataError>)
        ensures
            self@.encodable() ==> res is Ok && res->Ok_0@ == self@.encoding(entry_type),
            !self@.encodable() ==> res == Err::<Vec<u8>, DataError>(
                DataError::OOBUsizeConversion,
            ),
    {
        let mut data = Vec::new();
        self.extend_data(entry_type, &mut data)?;
        Ok(data)
    }

    /// Appends the bytes of this header, or fails and appends nothing.
    pub fn extend_data(&self, entry_type: u8, data: &mut Vec<u8>) -> (res: Result<(), DataError>)
        ensures
            self@.encodable() ==> res is Ok && final(data)@ == old(data)@ + self@.encoding(
                entry_type,
            ),
            !self@.encodable() ==> res == Err::<(), DataError>(DataError::OOBUsizeConversion)
                && final(data)@ == old(data)@,
    {
        if !self.is_encodable() {
            return Err(DataError::OOBUsizeConversion);
        }
        self.put(entry_type, data);
        Ok(())
    }
}

impl EntryData {
    pub fn get_discriminant(&self) -> (discriminant: u8)
        ensures
            discriminant == self@.discriminant(),
    {
        match self {
            EntryData::Message { .. } => MESSAGE,
            EntryData::AccessGroup { .. } => ACCESS_GROUP,
        }
    }

    /// Decodes the payload of kind `entry_type` at the front of `data` and
    /// gives the bytes after it.
    pub fn decode(data: &[u8], entry_type: u8) -> (res: Result<(Self, &[u8]), DataError>)
        ensures
            decodes(res, parse_entry_data(data@, entry_type)),
    {
        if entry_type == MESSAGE {
            let (timestamp, rest) = take_u64(data)?;
            let (message, rest) = take_text(rest)?;
            Ok((EntryData::Message { timestamp, message }, rest))
        } else if entry_type == ACCESS_GROUP {
            let (name, rest) = take_text(data)?;
            let (write_perms, rest) = DefaultedIdSet::decode(rest)?;
            let (read_perms, rest) = DefaultedIdSet::decode(rest)?;
            Ok((EntryData::AccessGroup { name, write_perms, read_perms }, rest))
        } else {
            Err(DataError::InvalidDiscriminant)
        }
    }

    /// Decodes the payload of kind `entry_type` at the front of `data`.
    pub fn from_data(data: &[u8], entry_type: u8) -> (res: Result<Self, DataError>)
        ensures
            decodes_whole(res, parse_entry_data(data@, entry_type)),
    {
        let (entry_data, _) = Self::decode(data, entry_type)?;
        Ok(entry_data)
    }

    /// Decodes the payload of kind `entry_type` at the cursor and moves the
    /// cursor past it.
    pub fn from_data_iter(data_iter: &mut DataIter, entry_type: u8) -> (res: Result<
        Self,
        DataError,
    >)
        ensures
            advances(
                res,
                old(data_iter)@,
                final(data_iter)@,
                parse_entry_data(old(data_iter)@, entry_type),
            ),
    {
        let (entry_data, rest) = Self::decode(data_iter.data, entry_type)?;
        data_iter.data = rest;
        Ok(entry_data)
    }

    /// Whether the text and the lists are short enough for their lengths.
    pub fn is_encodable(&self) -> (encodable: bool)
        ensures
            encodable == self@.encodable(),
    {
        match self {
            EntryData::Message { timestamp: _, message } => text_fits(message.as_str()),
            EntryData::AccessGroup { name, write_perms, read_perms } => text_fits(name.as_str())
                && write_perms.is_encodable() && read_perms.is_encodable(),
        }
    }

    /// Appends the bytes of this payload.
    pub(crate) fn put(&self, data: &mut Vec<u8>)
        requires
            self@.encodable(),
        ensures
            final(data)@ == old(data)@ + self@.encoding(),
    {
        match self {
            EntryData::Message { timestamp, message } => {
                put_u64(data, *timestamp);
                put_text(data, message.as_str());
            },
            EntryData::AccessGroup { name, write_perms, read_perms } => {
                put_text(data, name.as_str());
                write_perms.put(data);
                read_perms.put(data);
            },
        }
    }

    /// The bytes of this payload, or a failure when a length does not fit.
    pub fn into_data(&self) -> (res: Result<Vec<u8>, DataError>)
        ensures
            self@.encodable() ==> res is Ok && res->Ok_0@ == self@.encoding(),
            !self@.encodable() ==> res == Err::<Vec<u8>, DataError>(
                DataError::OOBUsizeConversion,
            ),
    {
        let mut data = Vec::new();
        self.extend_data(&mut data)?;
        Ok(data)
    }

    /// Appends the bytes of this payload, or fails and appends nothing.
    pub fn extend_data(&self, data: &mut Vec<u8>) -> (res: Result<(), DataError>)
        ensures
            self@.encodable() ==> res is Ok && final(data)@ == old(data)@ + self@.encoding(),
            !self@.encodable() ==> res == Err::<(), DataError>(DataError::OOBUsizeConversion)
                && final(data)@ == old(data)@,
    {
        if !self.is_encodable() {
            return Err(DataError::OOBUsizeConversion);
        }
        self.put(data);
        Ok(())
    }
}

impl Entry {
    /// Decodes the entry at the front of `data` and gives the bytes after
    /// it.
    pub fn decode(data: &[u8]) -> (res: Result<(Self, &[u8]), DataError>)
        ensures
            decodes(res, parse_entry(data@)),
    {
        let ((header_data, entry_type), rest) = HeaderData::decode(data)?;
        let (entry_data, rest) = EntryData::decode(rest, entry_type)?;
        Ok((Entry { header_data, entry_data }, rest))
    }

    /// Decodes the entry at the front of `data`.
    pub fn from_data(data: &[u8]) -> (res: Result<Self, DataError>)
        ensures
            decodes_whole(res, parse_entry(data@)),
    {
        let (entry, _) = Self::decode(data)?;
        Ok(entry)
    }

    /// Decodes the entry at the cursor and moves the cursor past it.
    pub fn from_data_iter(data_iter: &mut DataIter) -> (res: Result<Self, DataError>)
        ensures
            advances(res, old(data_iter)@, final(data_iter)@, parse_entry(old(data_iter)@)),
    {
        let (entry, rest) = Self::decode(data_iter.data)?;
        data_iter.data = rest;
        Ok(entry)
    }

    /// Whether every count and length fits its prefix on the wire.
    pub fn is_encodable(&self) -> (encodable: bool)
        ensures
            encodable == self@.encodable(),
    {
        self.header_data.is_encodable() && self.entry_data.is_encodable()
    }

    /// Appends the bytes of this entry.
    pub(crate) fn put(&self, data: &mut Vec<u8>)
        requires
            self@.encodable(),
        ensures
            final(data)@ == old(data)@ + self@.encoding(),
    {
        self.header_data.put(self.entry_data.get_discriminant(), data);
        self.entry_data.put(data);
    }

    /// The bytes of this entry, or a failure when a count or a length does
    /// not fit its prefix.
    pub fn into_data(&self) -> (res: Result<Vec<u8>, DataError>)
        ensures
            self@.encodable() ==> res is Ok && res->Ok_0@ == self@.encoding(),
            !self@.encodable() ==> res == Err::<Vec<u8>, DataError>(
                DataError::OOBUsizeConversion,
            ),
    {
        let mut data = Vec::new();
        self.extend_data(&mut data)?;
        Ok(data)
    }

    /// Appends the bytes of this entry, or fails and appends nothing.
    pub fn extend_data(&self, data: &mut Vec<u8>) -> (res: Result<(), DataError>)
        ensures
            self@.encodable() ==> res is Ok && final(data)@ == old(data)@ + self@.encoding(),
            !self@.encodable() ==> res == Err::<(), DataError>(DataError::OOBUsizeConversion)
                && final(data)@ == old(data)@,
    {
        if !self.is_encodable() {
            return Err(DataError::OOBUsizeConversion);
        }
        self.put(data);
        Ok(())
    }
}

/// The kinds of entry that a user can choose to write.
#[derive(Clone, Copy)]
pub enum EntryVariant {
    Message,
    AccessGroup,
}

impl EntryVariant {
    /// The name of this kind, as shown to a user.
    pub fn as_string(self) -> (name: &'static str)
        ensures
            name@ == match self {
                EntryVariant::Message => "Message"@,
                EntryVariant::AccessGroup => "Access Group"@,
            },
    {
        match self {
            EntryVariant::Message => "Message",
            EntryVariant::AccessGroup => "Access Group",
        }
    }
}

} // verus!
