//! The fields that every record is made of: single bytes, integers, lists of
//! ids and text. For each field a spec function says which bytes stand for a
//! value (`.._le`) and another which value the front of a byte string stands
//! for (`parse_..`, which also gives the bytes that follow the field).

use crate::error::DataError;
use crate::le::{
    get_u16, get_u32, get_u64, lemma_u16_le_roundtrip, lemma_u32_le_roundtrip,
    lemma_u64_le_roundtrip, put_u32, put_u64, u16_from_le, u16_le, u32_from_le, u32_le,
    u64_from_le, u64_le,
};
use vstd::prelude::*;
use vstd::slice::{slice_subrange, slice_to_vec};
use vstd::utf8::{decode_utf8, encode_utf8, valid_utf8};

verus! {

/// A cursor over bytes that are still to be decoded.
pub struct DataIter<'a> {
    /// The bytes that have not been consumed yet.
    pub data: &'a [u8],
}

impl<'a> View for DataIter<'a> {
    type V = Seq<u8>;

    open spec fn view(&self) -> Seq<u8> {
        self.data@
    }
}

/// A decoder's result `res` is what the format `model` prescribes: the
/// same value with the same bytes left over, or the same error.
pub open spec fn decodes<T: View>(
    res: Result<(T, &[u8]), DataError>,
    model: Result<(T::V, Seq<u8>), DataError>,
) -> bool {
    match res {
        Ok((value, rest)) => model == Ok::<(T::V, Seq<u8>), DataError>((value@, rest@)),
        Err(e) => model == Err::<(T::V, Seq<u8>), DataError>(e),
    }
}

/// A cursor was moved as the format `model` prescribes: past the value on
/// success, not at all on failure.
pub open spec fn advances<T: View>(
    res: Result<T, DataError>,
    before: Seq<u8>,
    after: Seq<u8>,
    model: Result<(T::V, Seq<u8>), DataError>,
) -> bool {
    match res {
        Ok(value) => model == Ok::<(T::V, Seq<u8>), DataError>((value@, after)),
        Err(e) => model == Err::<(T::V, Seq<u8>), DataError>(e) && after == before,
    }
}

/// A whole buffer decodes as the format `model` prescribes; bytes after the
/// value are ignored.
pub open spec fn decodes_whole<T: View>(
    res: Result<T, DataError>,
    model: Result<(T::V, Seq<u8>), DataError>,
) -> bool {
    match res {
        Ok(value) => model is Ok && model->Ok_0.0 == value@,
        Err(e) => model == Err::<(T::V, Seq<u8>), DataError>(e),
    }
}

/// The first byte of `s`.
pub open spec fn parse_u8(s: Seq<u8>) -> Result<(u8, Seq<u8>), DataError> {
    if s.len() < 1 {
        Err(DataError::InsufficientBytes)
    } else {
        Ok((s[0], s.skip(1)))
    }
}

/// The 16-bit number at the front of `s`.
pub open spec fn parse_u16(s: Seq<u8>) -> Result<(u16, Seq<u8>), DataError> {
    if s.len() < 2 {
        Err(DataError::InsufficientBytes)
    } else {
        Ok((u16_from_le(s), s.skip(2)))
    }
}

/// The 32-bit number at the front of `s`.
pub open spec fn parse_u32(s: Seq<u8>) -> Result<(u32, Seq<u8>), DataError> {
    if s.len() < 4 {
        Err(DataError::InsufficientBytes)
    } else {
        Ok((u32_from_le(s), s.skip(4)))
    }
}

/// The 64-bit number at the front of `s`.
pub open spec fn parse_u64(s: Seq<u8>) -> Result<(u64, Seq<u8>), DataError> {
    if s.len() < 8 {
        Err(DataError::InsufficientBytes)
    } else {
        Ok((u64_from_le(s), s.skip(8)))
    }
}

/// The ids one after the other, eight bytes each.
pub open spec fn ids_le(ids: Seq<u64>) -> Seq<u8>
    decreases ids.len(),
{
    if ids.len() == 0 {
        Seq::empty()
    } else {
        ids_le(ids.drop_last()) + u64_le(ids.last())
    }
}

/// The `n` ids that the first `8 * n` bytes of `b` hold.
pub open spec fn ids_from_le(b: Seq<u8>, n: nat) -> Seq<u64> {
    Seq::new(n, |i: int| u64_from_le(b.skip(8 * i)))
}

/// `n` ids at the front of `s`.
pub open spec fn parse_ids(s: Seq<u8>, n: nat) -> Result<(Seq<u64>, Seq<u8>), DataError> {
    if s.len() < 8 * n {
        Err(DataError::InsufficientBytes)
    } else {
        Ok((ids_from_le(s, n), s.skip(8 * (n as int))))
    }
}

/// A list of ids behind its 32-bit count.
#[verifier::opaque]
pub open spec fn id_list_le(ids: Seq<u64>) -> Seq<u8> {
    u32_le(ids.len() as u32) + ids_le(ids)
}

/// A 32-bit count and that many ids at the front of `s`.
#[verifier::opaque]
pub open spec fn parse_id_list(s: Seq<u8>) -> Result<(Seq<u64>, Seq<u8>), DataError> {
    match parse_u32(s) {
        Ok((n, rest)) => parse_ids(rest, n as nat),
        Err(e) => Err(e),
    }
}

/// A text as UTF-8 behind its 32-bit length in bytes.
#[verifier::opaque]
pub open spec fn text_le(text: Seq<char>) -> Seq<u8> {
    u32_le(encode_utf8(text).len() as u32) + encode_utf8(text)
}

/// A 32-bit length and that many bytes of UTF-8 at the front of `s`.
#[verifier::opaque]
pub open spec fn parse_text(s: Seq<u8>) -> Result<(Seq<char>, Seq<u8>), DataError> {
    match parse_u32(s) {
        Ok((len, rest)) => {
            if rest.len() < len {
                Err(DataError::InsufficientBytes)
            } else if !valid_utf8(rest.take(len as int)) {
                Err(DataError::StringError)
            } else {
                Ok((decode_utf8(rest.take(len as int)), rest.skip(len as int)))
            }
        },
        Err(e) => Err(e),
    }
}

/// Whether a list is short enough for a 32-bit count.
pub open spec fn fits_u32(len: nat) -> bool {
    len <= u32::MAX
}

/// Concatenation may be regrouped.
pub proof fn lemma_concat_assoc(a: Seq<u8>, b: Seq<u8>, c: Seq<u8>)
    ensures
        (a + b) + c == a + (b + c),
{
}

/// A byte read back is the byte, whatever follows.
pub proof fn lemma_parse_u8_roundtrip(x: u8, rest: Seq<u8>)
    ensures
        parse_u8(seq![x] + rest) == Ok::<(u8, Seq<u8>), DataError>((x, rest)),
{
    assert((seq![x] + rest).skip(1) =~= rest);
}

/// A 16-bit number read back from its bytes is the number, whatever follows.
pub proof fn lemma_parse_u16_roundtrip(x: u16, rest: Seq<u8>)
    ensures
        parse_u16(u16_le(x) + rest) == Ok::<(u16, Seq<u8>), DataError>((x, rest)),
{
    lemma_u16_le_roundtrip(x, rest);
    assert((u16_le(x) + rest).skip(2) =~= rest);
}

/// A 32-bit number read back from its bytes is the number, whatever follows.
pub proof fn lemma_parse_u32_roundtrip(x: u32, rest: Seq<u8>)
    ensures
        parse_u32(u32_le(x) + rest) == Ok::<(u32, Seq<u8>), DataError>((x, rest)),
{
    lemma_u32_le_roundtrip(x, rest);
    assert((u32_le(x) + rest).skip(4) =~= rest);
}

/// A 64-bit number read back from its bytes is the number, whatever follows.
pub proof fn lemma_parse_u64_roundtrip(x: u64, rest: Seq<u8>)
    ensures
        parse_u64(u64_le(x) + rest) == Ok::<(u64, Seq<u8>), DataError>((x, rest)),
{
    lemma_u64_le_roundtrip(x, rest);
    assert((u64_le(x) + rest).skip(8) =~= rest);
}

/// Each id takes eight bytes.
pub proof fn lemma_ids_le_len(ids: Seq<u64>)
    ensures
        ids_le(ids).len() == 8 * ids.len(),
    decreases ids.len(),
{
    if ids.len() > 0 {
        lemma_ids_le_len(ids.drop_last());
        lemma_u64_le_roundtrip(ids.last(), Seq::empty());
    }
}

/// The ids read back from their bytes are the ids, whatever follows.
pub proof fn lemma_parse_ids_roundtrip(ids: Seq<u64>, rest: Seq<u8>)
    ensures
        parse_ids(ids_le(ids) + rest, ids.len()) == Ok::<(Seq<u64>, Seq<u8>), DataError>(
            (ids, rest),
        ),
    decreases ids.len(),
{
    let s = ids_le(ids) + rest;
    lemma_ids_le_len(ids);
    assert(s.skip(8 * (ids.len() as int)) =~= rest);
    if ids.len() > 0 {
        let front = ids.drop_last();
        let tail = u64_le(ids.last()) + rest;
        lemma_ids_le_len(front);
        lemma_parse_ids_roundtrip(front, tail);
        lemma_u64_le_roundtrip(ids.last(), rest);
        assert(s =~= ids_le(front) + tail);
        assert forall|i: int| 0 <= i < ids.len() implies u64_from_le(s.skip(8 * i)) == ids[i] by {
            if i < front.len() {
                assert(ids_from_le(s, front.len())[i] == front[i]);
            }
        }
    }
    assert(ids_from_le(s, ids.len()) =~= ids);
}

/// A list read back from its bytes is the list, whatever follows.
pub proof fn lemma_parse_id_list_roundtrip(ids: Seq<u64>, rest: Seq<u8>)
    requires
        fits_u32(ids.len()),
    ensures
        parse_id_list(id_list_le(ids) + rest) == Ok::<(Seq<u64>, Seq<u8>), DataError>(
            (ids, rest),
        ),
{
    reveal(id_list_le);
    reveal(parse_id_list);
    lemma_parse_u32_roundtrip(ids.len() as u32, ids_le(ids) + rest);
    lemma_parse_ids_roundtrip(ids, rest);
    assert(id_list_le(ids) + rest =~= u32_le(ids.len() as u32) + (ids_le(ids) + rest));
}

/// A text read back from its bytes is the text, whatever follows.
pub proof fn lemma_parse_text_roundtrip(text: Seq<char>, rest: Seq<u8>)
    requires
        fits_u32(encode_utf8(text).len()),
    ensures
        parse_text(text_le(text) + rest) == Ok::<(Seq<char>, Seq<u8>), DataError>((text, rest)),
{
    reveal(text_le);
    reveal(parse_text);
    let bytes = encode_utf8(text);
    lemma_parse_u32_roundtrip(bytes.len() as u32, bytes + rest);
    vstd::utf8::encode_utf8_valid_utf8(text);
    vstd::utf8::encode_utf8_decode_utf8(text);
    assert(text_le(text) + rest =~= u32_le(bytes.len() as u32) + (bytes + rest));
    assert((bytes + rest).take(bytes.len() as int) =~= bytes);
    assert((bytes + rest).skip(bytes.len() as int) =~= rest);
}

/// A text field whose length prefix exceeds what follows it is cut short.
pub proof fn lemma_text_length_exceeds(s: Seq<u8>)
    requires
        s.len() >= 4,
        u32_from_le(s) > s.len() - 4,
    ensures
        parse_text(s) == Err::<(Seq<char>, Seq<u8>), DataError>(DataError::InsufficientBytes),
{
    reveal(parse_text);
}

/// An id list whose count prefix exceeds what follows it is cut short.
pub proof fn lemma_id_list_count_exceeds(s: Seq<u8>)
    requires
        s.len() >= 4,
        8 * u32_from_le(s) > s.len() - 4,
    ensures
        parse_id_list(s) == Err::<(Seq<u64>, Seq<u8>), DataError>(DataError::InsufficientBytes),
{
    reveal(parse_id_list);
}

/// Takes one byte off the front of `data`.
pub fn take_u8(data: &[u8]) -> (res: Result<(u8, &[u8]), DataError>)
    ensures
        decodes(res, parse_u8(data@)),
{
    if data.len() < 1 {
        return Err(DataError::InsufficientBytes);
    }
    let rest = slice_subrange(data, 1, data.len());
    Ok((data[0], rest))
}

/// Takes a 16-bit number off the front of `data`.
pub fn take_u16(data: &[u8]) -> (res: Result<(u16, &[u8]), DataError>)
    ensures
        decodes(res, parse_u16(data@)),
{
    if data.len() < 2 {
        return Err(DataError::InsufficientBytes);
    }
    let rest = slice_subrange(data, 2, data.len());
    assert(data@.skip(0) =~= data@);
    Ok((get_u16(data, 0), rest))
}

/// Takes a 32-bit number off the front of `data`.
pub fn take_u32(data: &[u8]) -> (res: Result<(u32, &[u8]), DataError>)
    ensures
        decodes(res, parse_u32(data@)),
{
    if data.len() < 4 {
        return Err(DataError::InsufficientBytes);
    }
    let rest = slice_subrange(data, 4, data.len());
    assert(data@.skip(0) =~= data@);
    Ok((get_u32(data, 0), rest))
}

/// Takes a 64-bit number off the front of `data`.
pub fn take_u64(data: &[u8]) -> (res: Result<(u64, &[u8]), DataError>)
    ensures
        decodes(res, parse_u64(data@)),
{
    if data.len() < 8 {
        return Err(DataError::InsufficientBytes);
    }
    let rest = slice_subrange(data, 8, data.len());
    assert(data@.skip(0) =~= data@);
    Ok((get_u64(data, 0), rest))
}

/// Takes `n` ids off the front of `data`.
pub fn take_ids(data: &[u8], n: usize) -> (res: Result<(Vec<u64>, &[u8]), DataError>)
    ensures
        decodes(res, parse_ids(data@, n as nat)),
{
    if data.len() / 8 < n {
        return Err(DataError::InsufficientBytes);
    }
    let mut ids: Vec<u64> = Vec::new();
    let mut i: usize = 0;
    while i < n
        invariant
            i <= n,
            8 * n <= data.len(),
            ids@ =~= ids_from_le(data@, i as nat),
        decreases n - i,
    {
        ids.push(get_u64(data, 8 * i));
        i += 1;
    }
    let rest = slice_subrange(data, 8 * n, data.len());
    Ok((ids, rest))
}

/// Takes a 32-bit count and that many ids off the front of `data`.
pub fn take_id_list(data: &[u8]) -> (res: Result<(Vec<u64>, &[u8]), DataError>)
    ensures
        decodes(res, parse_id_list(data@)),
{
    proof {
        reveal(parse_id_list);
    }
    let (n, rest) = take_u32(data)?;
    take_ids(rest, n as usize)
}

/// `String::from_utf8` of the standard library, which is not verified here.
/// Assumed: it succeeds exactly when the bytes are valid UTF-8, and the
/// string it then returns consists of those same bytes.
pub assume_specification[ String::from_utf8 ](vec: Vec<u8>) -> (res: Result<
    String,
    std::string::FromUtf8Error,
>)
    ensures
        res is Ok <==> valid_utf8(vec@),
        res matches Ok(text) ==> encode_utf8(text@) == vec@,
;

/// Takes a 32-bit length and that many bytes of UTF-8 off the front of
/// `data`.
pub fn take_text(data: &[u8]) -> (res: Result<(String, &[u8]), DataError>)
    ensures
        decodes(res, parse_text(data@)),
{
    proof {
        reveal(parse_text);
    }
    let (len, body) = take_u32(data)?;
    let len = len as usize;
    if body.len() < len {
        return Err(DataError::InsufficientBytes);
    }
    let bytes = slice_to_vec(slice_subrange(body, 0, len));
    let rest = slice_subrange(body, len, body.len());
    match String::from_utf8(bytes) {
        Ok(text) => {
            proof {
                vstd::utf8::encode_utf8_decode_utf8(text@);
            }
            Ok((text, rest))
        },
        Err(e) => Err(DataError::from(e)),
    }
}

/// Appends the ids, eight bytes each.
pub fn put_ids(data: &mut Vec<u8>, ids: &Vec<u64>)
    ensures
        final(data)@ == old(data)@ + ids_le(ids@),
{
    let mut i: usize = 0;
    while i < ids.len()
        invariant
            i <= ids.len(),
            data@ == old(data)@ + ids_le(ids@.take(i as int)),
        decreases ids.len() - i,
    {
        put_u64(data, ids[i]);
        proof {
            let next = ids@.take(i + 1);
            assert(next.drop_last() =~= ids@.take(i as int));
        }
        i += 1;
    }
    assert(ids@.take(ids.len() as int) =~= ids@);
}

/// Appends the list behind its 32-bit count.
pub(crate) fn put_id_list(data: &mut Vec<u8>, ids: &Vec<u64>)
    requires
        fits_u32(ids@.len()),
    ensures
        final(data)@ == old(data)@ + id_list_le(ids@),
{
    proof {
        reveal(id_list_le);
    }
    put_u32(data, ids.len() as u32);
    put_ids(data, ids);
}

/// Appends every byte of `bytes`.
pub fn put_bytes(data: &mut Vec<u8>, bytes: &[u8])
    ensures
        final(data)@ == old(data)@ + bytes@,
{
    data.extend_from_slice(bytes);
}

/// Appends the text as UTF-8 behind its 32-bit length in bytes.
pub(crate) fn put_text(data: &mut Vec<u8>, text: &str)
    requires
        fits_u32(encode_utf8(text@).len()),
    ensures
        final(data)@ == old(data)@ + text_le(text@),
{
    proof {
        reveal(text_le);
    }
    let bytes = text.as_bytes();
    put_u32(data, bytes.len() as u32);
    put_bytes(data, bytes);
}

/// Whether the text's UTF-8 is short enough for a 32-bit length.
pub fn text_fits(text: &str) -> (fits: bool)
    ensures
        fits == fits_u32(encode_utf8(text@).len()),
{
    text.as_bytes().len() <= u32::MAX as usize
}

/// Whether the list is short enough for a 32-bit count.
pub fn id_list_fits(ids: &Vec<u64>) -> (fits: bool)
    ensures
        fits == fits_u32(ids@.len()),
{
    ids.len() <= u32::MAX as usize
}

impl<'a> DataIter<'a> {
    /// A cursor at the front of `data`.
    pub fn new(data: &'a [u8]) -> (data_iter: Self)
        ensures
            data_iter@ == data@,
    {
        DataIter { data }
    }

    /// Takes the next byte, if there is one.
    pub fn next(&mut self) -> (res: Option<u8>)
        ensures
            old(self)@.len() == 0 ==> res is None && final(self)@ == old(self)@,
            old(self)@.len() > 0 ==> res == Some(old(self)@[0]) && final(self)@ == old(self)@.skip(
                1,
            ),
    {
        match take_u8(self.data) {
            Ok((byte, rest)) => {
                self.data = rest;
                Some(byte)
            },
            Err(_) => None,
        }
    }
}

/// Reads a 16-bit number and moves the cursor past it.
pub fn read_u16(data_iter: &mut DataIter) -> (res: Result<u16, DataError>)
    ensures
        advances(res, old(data_iter)@, final(data_iter)@, parse_u16(old(data_iter)@)),
{
    let (value, rest) = take_u16(data_iter.data)?;
    data_iter.data = rest;
    Ok(value)
}

/// Reads a 32-bit number and moves the cursor past it.
pub fn read_u32(data_iter: &mut DataIter) -> (res: Result<u32, DataError>)
    ensures
        advances(res, old(data_iter)@, final(data_iter)@, parse_u32(old(data_iter)@)),
{
    let (value, rest) = take_u32(data_iter.data)?;
    data_iter.data = rest;
    Ok(value)
}

/// Reads a 64-bit number and moves the cursor past it.
pub fn read_u64(data_iter: &mut DataIter) -> (res: Result<u64, DataError>)
    ensures
        advances(res, old(data_iter)@, final(data_iter)@, parse_u64(old(data_iter)@)),
{
    let (value, rest) = take_u64(data_iter.data)?;
    data_iter.data = rest;
    Ok(value)
}

} // verus!
