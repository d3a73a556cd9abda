//! The numbers that the wire and file formats are built on.

use vstd::prelude::*;

verus! {

/// The TCP port that the server listens on.
pub const PORT: u16 = 8000;

/// The id of the root entry. It is not a valid user id.
pub const ROOT_ID: u64 = 0x00_00_00_00_00_00_00_00;

/// The first two bytes of every encoded entry.
pub const ENTRY_MAGIC_NUMBER: u16 = 0x1234;

/// The first two bytes of every encoded user record.
pub const USER_MAGIC_NUMBER: u16 = 0x1470;

/// Format versions.
pub const ENTRY_FILE_VERSION: u8 = 0x00;

pub const USER_FILE_VERSION: u8 = 0x00;

pub const REQUEST_FORMAT_VERSION: u8 = 0x00;

pub const RESPONSE_FORMAT_VERSION: u8 = 0x00;

/// The discriminant of an error response.
pub const ERROR: u8 = 0xff;

/// Discriminants of the two kinds of entry.
pub const MESSAGE: u8 = 0x00;

pub const ACCESS_GROUP: u8 = 0x01;

/// Discriminants of requests and of their responses.
pub const GET_ENTRY: u8 = 0x00;

pub const ADD_ENTRY: u8 = 0x01;

pub const GET_USER: u8 = 0x20;

pub const ADD_USER: u8 = 0x21;

/// Discriminants of the three shapes of a permission set.
pub const INHERIT_BASE: u8 = 0x00;

pub const WHITE_BASE: u8 = 0x01;

pub const BLACK_BASE: u8 = 0x02;

} // verus!
