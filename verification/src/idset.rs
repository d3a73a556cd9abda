//! Permission sets: lists of ids around a default.

use crate::consts::{BLACK_BASE, INHERIT_BASE, WHITE_BASE};
use crate::error::DataError;
use crate::wire::{
    advances, decodes, id_list_fits, id_list_le, lemma_concat_assoc, lemma_parse_id_list_roundtrip,
    lemma_parse_u8_roundtrip, parse_id_list, parse_u8, put_id_list, take_id_list, take_u8,
    fits_u32, DataIter,
};
use vstd::prelude::*;

verus! {

/// What a permission set decides for an id that none of its lists names.
#[derive(PartialEq, Eq, Debug, Clone, Copy, Structural)]
pub enum DefaultBase {
    /// No decision: the ancestors decide.
    Inherit,
    /// Allowed.
    White,
    /// Denied.
    Black,
}

impl DefaultBase {
    /// The byte that stands for this base on the wire.
    pub open spec fn discriminant(self) -> u8 {
        match self {
            DefaultBase::Inherit => INHERIT_BASE,
            DefaultBase::White => WHITE_BASE,
            DefaultBase::Black => BLACK_BASE,
        }
    }

    /// The base that a byte stands for, if it stands for one.
    pub open spec fn of_discriminant(discriminant: u8) -> Result<DefaultBase, DataError> {
        if discriminant == INHERIT_BASE {
            Ok(DefaultBase::Inherit)
        } else if discriminant == WHITE_BASE {
            Ok(DefaultBase::White)
        } else if discriminant == BLACK_BASE {
            Ok(DefaultBase::Black)
        } else {
            Err(DataError::InvalidDiscriminant)
        }
    }

    pub fn get_discriminant(&self) -> (discriminant: u8)
        ensures
            discriminant == self.discriminant(),
    {
        match self {
            DefaultBase::Inherit => INHERIT_BASE,
            DefaultBase::White => WHITE_BASE,
            DefaultBase::Black => BLACK_BASE,
        }
    }

    pub fn from_discriminant(discriminant: u8) -> (res: Result<Self, DataError>)
        ensures
            res == Self::of_discriminant(discriminant),
    {
        if discriminant == INHERIT_BASE {
            Ok(DefaultBase::Inherit)
        } else if discriminant == WHITE_BASE {
            Ok(DefaultBase::White)
        } else if discriminant == BLACK_BASE {
            Ok(DefaultBase::Black)
        } else {
            Err(DataError::InvalidDiscriminant)
        }
    }

    /// The name of this base, as shown to a user.
    pub fn as_string(self) -> (name: &'static str)
        ensures
            name@ == match self {
                DefaultBase::Inherit => "Inherit"@,
                DefaultBase::White => "White"@,
                DefaultBase::Black => "Black"@,
            },
    {
        match self {
            DefaultBase::Inherit => "Inherit",
            DefaultBase::White => "White",
            DefaultBase::Black => "Black",
        }
    }
}

/// A base is found again from its byte.
pub proof fn lemma_default_base_roundtrip(base: DefaultBase)
    ensures
        DefaultBase::of_discriminant(base.discriminant()) == Ok::<DefaultBase, DataError>(base),
{
}

/// Only the three known bytes stand for a base.
pub proof fn lemma_default_base_unknown(discriminant: u8)
    requires
        discriminant != INHERIT_BASE,
        discriminant != WHITE_BASE,
        discriminant != BLACK_BASE,
    ensures
        DefaultBase::of_discriminant(discriminant) == Err::<DefaultBase, DataError>(
            DataError::InvalidDiscriminant,
        ),
{
}

/// A permission set.
#[derive(PartialEq, Eq, Debug)]
pub enum DefaultedIdSet {
    /// Allows the whitelisted, denies the blacklisted, leaves the rest to
    /// the ancestors.
    Inherit { whitelist_ids: Vec<u64>, blacklist_ids: Vec<u64> },
    /// Allows all but the blacklisted.
    White { blacklist_ids: Vec<u64> },
    /// Denies all but the whitelisted.
    Black { whitelist_ids: Vec<u64> },
}

/// A permission set as a mathematical value.
pub enum IdSetView {
    Inherit { whitelist_ids: Seq<u64>, blacklist_ids: Seq<u64> },
    White { blacklist_ids: Seq<u64> },
    Black { whitelist_ids: Seq<u64> },
}

impl View for DefaultedIdSet {
    type V = IdSetView;

    open spec fn view(&self) -> IdSetView {
        match *self {
            DefaultedIdSet::Inherit { whitelist_ids, blacklist_ids } => IdSetView::Inherit {
                whitelist_ids: whitelist_ids@,
                blacklist_ids: blacklist_ids@,
            },
            DefaultedIdSet::White { blacklist_ids } => IdSetView::White {
                blacklist_ids: blacklist_ids@,
            },
            DefaultedIdSet::Black { whitelist_ids } => IdSetView::Black {
                whitelist_ids: whitelist_ids@,
            },
        }
    }
}

impl IdSetView {
    /// The decision for `id`: allowed, denied, or left to the ancestors.
    pub open spec fn contains(self, id: u64) -> Option<bool> {
        match self {
            IdSetView::Inherit { whitelist_ids, blacklist_ids } => {
                if whitelist_ids.contains(id) && !blacklist_ids.contains(id) {
                    Some(true)
                } else if !whitelist_ids.contains(id) && blacklist_ids.contains(id) {
                    Some(false)
                } else {
                    None
                }
            },
            IdSetView::White { blacklist_ids } => Some(!blacklist_ids.contains(id)),
            IdSetView::Black { whitelist_ids } => Some(whitelist_ids.contains(id)),
        }
    }

    pub open spec fn default_base(self) -> DefaultBase {
        match self {
            IdSetView::Inherit { .. } => DefaultBase::Inherit,
            IdSetView::White { .. } => DefaultBase::White,
            IdSetView::Black { .. } => DefaultBase::Black,
        }
    }

    /// Whether every list is short enough for its 32-bit count.
    pub open spec fn encodable(self) -> bool {
        match self {
            IdSetView::Inherit { whitelist_ids, blacklist_ids } => fits_u32(whitelist_ids.len())
                && fits_u32(blacklist_ids.len()),
            IdSetView::White { blacklist_ids } => fits_u32(blacklist_ids.len()),
            IdSetView::Black { whitelist_ids } => fits_u32(whitelist_ids.len()),
        }
    }

    /// The bytes that stand for this set: the byte of its base, then its
    /// lists, the whitelist first.
    pub open spec fn encoding(self) -> Seq<u8> {
        match self {
            IdSetView::Inherit { whitelist_ids, blacklist_ids } => seq![INHERIT_BASE] + id_list_le(
                whitelist_ids,
            ) + id_list_le(blacklist_ids),
            IdSetView::White { blacklist_ids } => seq![WHITE_BASE] + id_list_le(blacklist_ids),
            IdSetView::Black { whitelist_ids } => seq![BLACK_BASE] + id_list_le(whitelist_ids),
        }
    }
}

/// A set that allows by default denies the ids on its blacklist and allows
/// every other.
pub proof fn lemma_white_contains(blacklist_ids: Seq<u64>, id: u64)
    ensures
        blacklist_ids.contains(id) <==> (IdSetView::White { blacklist_ids }).contains(id) == Some(
            false,
        ),
        !blacklist_ids.contains(id) <==> (IdSetView::White { blacklist_ids }).contains(id) == Some(
            true,
        ),
{
}

/// A set that denies by default allows the ids on its whitelist and denies
/// every other.
pub proof fn lemma_black_contains(whitelist_ids: Seq<u64>, id: u64)
    ensures
        whitelist_ids.contains(id) <==> (IdSetView::Black { whitelist_ids }).contains(id) == Some(
            true,
        ),
        !whitelist_ids.contains(id) <==> (IdSetView::Black { whitelist_ids }).contains(id) == Some(
            false,
        ),
{
}

/// A set that inherits allows the ids that are on its whitelist alone,
/// denies those that are on its blacklist alone, and decides nothing for
/// the ids on both lists or on none.
pub proof fn lemma_inherit_contains(whitelist_ids: Seq<u64>, blacklist_ids: Seq<u64>, id: u64)
    ensures
        (IdSetView::Inherit { whitelist_ids, blacklist_ids }).contains(id) == Some(true) <==> (
        whitelist_ids.contains(id) && !blacklist_ids.contains(id)),
        (IdSetView::Inherit { whitelist_ids, blacklist_ids }).contains(id) == Some(false) <==> (
        !whitelist_ids.contains(id) && blacklist_ids.contains(id)),
        (IdSetView::Inherit { whitelist_ids, blacklist_ids }).contains(id) is None <==> (
        whitelist_ids.contains(id) <==> blacklist_ids.contains(id)),
{
}

/// Only a set that inherits leaves a decision open.
pub proof fn lemma_only_inherit_defers(set: IdSetView, id: u64)
    requires
        set.contains(id) is None,
    ensures
        set is Inherit,
{
}

/// The permission set at the front of `s`.
pub open spec fn parse_id_set(s: Seq<u8>) -> Result<(IdSetView, Seq<u8>), DataError> {
    match parse_u8(s) {
        Err(e) => Err(e),
        Ok((discriminant, s1)) => match DefaultBase::of_discriminant(discriminant) {
            Err(e) => Err(e),
            Ok(DefaultBase::Inherit) => match parse_id_list(s1) {
                Err(e) => Err(e),
                Ok((whitelist_ids, s2)) => match parse_id_list(s2) {
                    Err(e) => Err(e),
                    Ok((blacklist_ids, s3)) => Ok(
                        (IdSetView::Inherit { whitelist_ids, blacklist_ids }, s3),
                    ),
                },
            },
            Ok(DefaultBase::White) => match parse_id_list(s1) {
                Err(e) => Err(e),
                Ok((blacklist_ids, s2)) => Ok((IdSetView::White { blacklist_ids }, s2)),
            },
            Ok(DefaultBase::Black) => match parse_id_list(s1) {
                Err(e) => Err(e),
                Ok((whitelist_ids, s2)) => Ok((IdSetView::Black { whitelist_ids }, s2)),
            },
        },
    }
}

/// A set read back from its bytes is the set, whatever follows.
pub proof fn lemma_parse_id_set_roundtrip(set: IdSetView, rest: Seq<u8>)
    requires
        set.encodable(),
    ensures
        parse_id_set(set.encoding() + rest) == Ok::<(IdSetView, Seq<u8>), DataError>((set, rest)),
{
    match set {
        IdSetView::Inherit { whitelist_ids, blacklist_ids } => {
            let s2 = id_list_le(blacklist_ids) + rest;
            let s1 = id_list_le(whitelist_ids) + s2;
            lemma_parse_u8_roundtrip(INHERIT_BASE, s1);
            lemma_parse_id_list_roundtrip(whitelist_ids, s2);
            lemma_parse_id_list_roundtrip(blacklist_ids, rest);
            lemma_concat_assoc(
                seq![INHERIT_BASE] + id_list_le(whitelist_ids),
                id_list_le(blacklist_ids),
                rest,
            );
            lemma_concat_assoc(seq![INHERIT_BASE], id_list_le(whitelist_ids), s2);
        },
        IdSetView::White { blacklist_ids } => {
            let s1 = id_list_le(blacklist_ids) + rest;
            lemma_parse_u8_roundtrip(WHITE_BASE, s1);
            lemma_parse_id_list_roundtrip(blacklist_ids, rest);
            lemma_concat_assoc(seq![WHITE_BASE], id_list_le(blacklist_ids), rest);
        },
        IdSetView::Black { whitelist_ids } => {
            let s1 = id_list_le(whitelist_ids) + rest;
            lemma_parse_u8_roundtrip(BLACK_BASE, s1);
            lemma_parse_id_list_roundtrip(whitelist_ids, rest);
            lemma_concat_assoc(seq![BLACK_BASE], id_list_le(whitelist_ids), rest);
        },
    }
}

/// A set that begins with an unknown byte is rejected.
pub proof fn lemma_id_set_unknown_base(s: Seq<u8>)
    requires
        s.len() >= 1,
        s[0] != INHERIT_BASE,
        s[0] != WHITE_BASE,
        s[0] != BLACK_BASE,
    ensures
        parse_id_set(s) == Err::<(IdSetView, Seq<u8>), DataError>(DataError::InvalidDiscriminant),
{
}

/// Whether `id` occurs in `ids`.
pub fn id_in(ids: &Vec<u64>, id: u64) -> (found: bool)
    ensures
        found == ids@.contains(id),
{
    let mut i: usize = 0;
    while i < ids.len()
        invariant
            i <= ids.len(),
            forall|j: int| 0 <= j < i ==> ids@[j] != id,
        decreases ids.len() - i,
    {
        if ids[i] == id {
            return true;
        }
        i += 1;
    }
    false
}

impl DefaultedIdSet {
    /// The decision of this set for `id`.
    pub fn contains(&self, id: u64) -> (decision: Option<bool>)
        ensures
            decision == self@.contains(id),
    {
        match self {
            DefaultedIdSet::Inherit { whitelist_ids, blacklist_ids } => {
                let whitelisted = id_in(whitelist_ids, id);
                let blacklisted = id_in(blacklist_ids, id);
                if whitelisted && !blacklisted {
                    Some(true)
                } else if !whitelisted && blacklisted {
                    Some(false)
                } else {
                    None
                }
            },
            DefaultedIdSet::White { blacklist_ids } => Some(!id_in(blacklist_ids, id)),
            DefaultedIdSet::Black { whitelist_ids } => Some(id_in(whitelist_ids, id)),
        }
    }

    pub fn get_default_base(&self) -> (base: DefaultBase)
        ensures
            base == self@.default_base(),
    {
        match self {
            DefaultedIdSet::Inherit { .. } => DefaultBase::Inherit,
            DefaultedIdSet::White { .. } => DefaultBase::White,
            DefaultedIdSet::Black { .. } => DefaultBase::Black,
        }
    }

    /// Decodes the set at the front of `data` and gives the bytes after it.
    pub fn decode(data: &[u8]) -> (res: Result<(Self, &[u8]), DataError>)
        ensures
            decodes(res, parse_id_set(data@)),
    {
        let (discriminant, rest) = take_u8(data)?;
        match DefaultBase::from_discriminant(discriminant)? {
            DefaultBase::Inherit => {
                let (whitelist_ids, rest) = take_id_list(rest)?;
                let (blacklist_ids, rest) = take_id_list(rest)?;
                Ok((DefaultedIdSet::Inherit { whitelist_ids, blacklist_ids }, rest))
            },
            DefaultBase::White => {
                let (blacklist_ids, rest) = take_id_list(rest)?;
                Ok((DefaultedIdSet::White { blacklist_ids }, rest))
            },
            DefaultBase::Black => {
                let (whitelist_ids, rest) = take_id_list(rest)?;
                Ok((DefaultedIdSet::Black { whitelist_ids }, rest))
            },
        }
    }

    /// Decodes the set at the cursor and moves the cursor past it.
    pub fn from_data_iter(data_iter: &mut DataIter) -> (res: Result<Self, DataError>)
        ensures
            advances(res, old(data_iter)@, final(data_iter)@, parse_id_set(old(data_iter)@)),
    {
        let (set, rest) = Self::decode(data_iter.data)?;
        data_iter.data = rest;
        Ok(set)
    }

    /// Whether every list is short enough for its 32-bit count.
    pub fn is_encodable(&self) -> (encodable: bool)
        ensures
            encodable == self@.encodable(),
    {
        match self {
            DefaultedIdSet::Inherit { whitelist_ids, blacklist_ids } => id_list_fits(
                whitelist_ids,
            ) && id_list_fits(blacklist_ids),
            DefaultedIdSet::White { blacklist_ids } => id_list_fits(blacklist_ids),
            DefaultedIdSet::Black { whitelist_ids } => id_list_fits(whitelist_ids),
        }
    }

    /// Appends the bytes of this set.
    pub(crate) fn put(&self, data: &mut Vec<u8>)
        requires
            self@.encodable(),
        ensures
            final(data)@ == old(data)@ + self@.encoding(),
    {
        data.push(self.get_default_base().get_discriminant());
        match self {
            DefaultedIdSet::Inherit { whitelist_ids, blacklist_ids } => {
                put_id_list(data, whitelist_ids);
                put_id_list(data, blacklist_ids);
            },
            DefaultedIdSet::White { blacklist_ids } => {
                put_id_list(data, blacklist_ids);
            },
            DefaultedIdSet::Black { whitelist_ids } => {
                put_id_list(data, whitelist_ids);
            },
        }
    }

    /// Appends the bytes of this set, or fails and appends nothing when a
    /// list is too long for its count.
    pub fn extend_data(&self, data: &mut Vec<u8>) -> (res: Result<(), DataError>)
        ensures
            self@.encodable() ==> res is Ok && final(data)@ == old(data)@ + self@.encoding(),
            !self@.encodable() ==> res == Err::<(), DataError>(DataError::OOBUsizeConversion)
                && final(data)@ == old(data)@,
    {
        if !self.is_encodable() {
            return Err(DataError::OOBUsizeConversion);
        }
        self.put(data);
        Ok(())
    }
}

} // verus!
