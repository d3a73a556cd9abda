use vstd::prelude::*;

verus! {

/// Everything that can go wrong while decoding, encoding, or serving a request.
#[derive(Debug, Clone, Copy, PartialEq, Eq, Structural)]
pub enum DataError {
    /// The data does not begin with the expected magic number.
    IncorrectMagicNum,
    /// The data ended in the middle of a field.
    InsufficientBytes,
    /// A variant byte is not one of the known values.
    InvalidDiscriminant,
    /// A text field is not valid UTF-8.
    StringError,
    /// The format version is not known to this build.
    UnsupportedVersion,
    /// The entry or user is not in the store.
    DoesNotExist,
    /// A write of a new record met an existing one.
    AlreadyExists,
    /// The permission rules deny the request.
    InsufficientPerms,
    /// The user is not who the request says.
    BadCredentials,
    /// The root entry is not its own parent, or is not an access group.
    MalformedRoot,
    /// A path was extended by an entry that is not a child of its last element.
    NonChild,
    /// Store failure, or a traversal that exceeded its depth limit.
    InternalError,
    /// A length does not fit the width of its prefix on the wire.
    OOBUsizeConversion,
}

/// The error of `String::from_utf8`. Nothing is known of what it holds.
#[verifier::external_type_specification]
#[verifier::external_body]
pub struct ExFromUtf8Error(std::string::FromUtf8Error);

impl From<std::string::FromUtf8Error> for DataError {
    /// Bytes that are no UTF-8 make a string error; which bytes they were
    /// is not kept.
    fn from(value: std::string::FromUtf8Error) -> (error: Self) {
        DataError::StringError
    }
}

impl vstd::std_specs::convert::FromSpecImpl<std::string::FromUtf8Error> for DataError {
    open spec fn obeys_from_spec() -> bool {
        true
    }

    open spec fn from_spec(value: std::string::FromUtf8Error) -> Self {
        DataError::StringError
    }
}

} // verus!
