use vstd::prelude::*;

verus! {

/// Failure kinds of the replication core.
///
/// Each variant carries a human-readable message; `code` gives the stable
/// numeric code that callers and logs use to tell the kinds apart.
#[derive(Debug, Clone)]
pub enum Error {
    InvalidConfig(String),
    InvalidArg(String),
    StorageNotFound(String),
    StoragePermissionDenied(String),
    StorageOther(String),
    InvalidPath(String),
    OverwriteDb(String),
    NoGeneration(String),
    WalReaderOffsetTooHigh(String),
    Uuid(String),
    Sqlite(String),
    SqliteWal(String),
    SqliteInvalidWalHeader(String),
    SqliteInvalidWalFrameHeader(String),
    SqliteInvalidWalFrame(String),
    NoSnapshot(String),
    NoWalsegment(String),
    BadShadowWal(String),
    InvalidWalSegment(String),
    MismatchWalHeader(String),
    PanicError(String),
    UnexpectedEof(String),
}

impl Error {
    /// The numeric code of each failure kind.
    pub open spec fn spec_code(&self) -> u32 {
        match self {
            Error::InvalidConfig(_) => 2,
            Error::InvalidArg(_) => 3,
            Error::StorageNotFound(_) => 51,
            Error::StoragePermissionDenied(_) => 52,
            Error::StorageOther(_) => 53,
            Error::InvalidPath(_) => 54,
            Error::OverwriteDb(_) => 81,
            Error::NoGeneration(_) => 82,
            Error::WalReaderOffsetTooHigh(_) => 83,
            Error::Uuid(_) => 102,
            Error::Sqlite(_) => 120,
            Error::SqliteWal(_) => 121,
            Error::SqliteInvalidWalHeader(_) => 122,
            Error::SqliteInvalidWalFrameHeader(_) => 123,
            Error::SqliteInvalidWalFrame(_) => 124,
            Error::NoSnapshot(_) => 125,
            Error::NoWalsegment(_) => 126,
            Error::BadShadowWal(_) => 127,
            Error::InvalidWalSegment(_) => 128,
            Error::MismatchWalHeader(_) => 129,
            Error::PanicError(_) => 140,
            Error::UnexpectedEof(_) => 141,
        }
    }

    /// Numeric code of this error.
    pub fn code(&self) -> (c: u32)
        ensures
            c == self.spec_code(),
    {
        match self {
            Error::InvalidConfig(_) => 2,
            Error::InvalidArg(_) => 3,
            Error::StorageNotFound(_) => 51,
            Error::StoragePermissionDenied(_) => 52,
            Error::StorageOther(_) => 53,
            Error::InvalidPath(_) => 54,
            Error::OverwriteDb(_) => 81,
            Error::NoGeneration(_) => 82,
            Error::WalReaderOffsetTooHigh(_) => 83,
            Error::Uuid(_) => 102,
            Error::Sqlite(_) => 120,
            Error::SqliteWal(_) => 121,
            Error::SqliteInvalidWalHeader(_) => 122,
            Error::SqliteInvalidWalFrameHeader(_) => 123,
            Error::SqliteInvalidWalFrame(_) => 124,
            Error::NoSnapshot(_) => 125,
            Error::NoWalsegment(_) => 126,
            Error::BadShadowWal(_) => 127,
            Error::InvalidWalSegment(_) => 128,
            Error::MismatchWalHeader(_) => 129,
            Error::PanicError(_) => 140,
            Error::UnexpectedEof(_) => 141,
        }
    }

    /// The message the error was built with.
    pub fn message(&self) -> (m: &String)
        ensures
            m@ == self.spec_message(),
    {
        match self {
            Error::InvalidConfig(m) => m,
            Error::InvalidArg(m) => m,
            Error::StorageNotFound(m) => m,
            Error::StoragePermissionDenied(m) => m,
            Error::StorageOther(m) => m,
            Error::InvalidPath(m) => m,
            Error::OverwriteDb(m) => m,
            Error::NoGeneration(m) => m,
            Error::WalReaderOffsetTooHigh(m) => m,
            Error::Uuid(m) => m,
            Error::Sqlite(m) => m,
            Error::SqliteWal(m) => m,
            Error::SqliteInvalidWalHeader(m) => m,
            Error::SqliteInvalidWalFrameHeader(m) => m,
            Error::SqliteInvalidWalFrame(m) => m,
            Error::NoSnapshot(m) => m,
            Error::NoWalsegment(m) => m,
            Error::BadShadowWal(m) => m,
            Error::InvalidWalSegment(m) => m,
            Error::MismatchWalHeader(m) => m,
            Error::PanicError(m) => m,
            Error::UnexpectedEof(m) => m,
        }
    }

    /// The message, as a sequence of characters.
    pub open spec fn spec_message(&self) -> Seq<char> {
        match self {
            Error::InvalidConfig(m) => m@,
            Error::InvalidArg(m) => m@,
            Error::StorageNotFound(m) => m@,
            Error::StoragePermissionDenied(m) => m@,
            Error::StorageOther(m) => m@,
            Error::InvalidPath(m) => m@,
            Error::OverwriteDb(m) => m@,
            Error::NoGeneration(m) => m@,
            Error::WalReaderOffsetTooHigh(m) => m@,
            Error::Uuid(m) => m@,
            Error::Sqlite(m) => m@,
            Error::SqliteWal(m) => m@,
            Error::SqliteInvalidWalHeader(m) => m@,
            Error::SqliteInvalidWalFrameHeader(m) => m@,
            Error::SqliteInvalidWalFrame(m) => m@,
            Error::NoSnapshot(m) => m@,
            Error::NoWalsegment(m) => m@,
            Error::BadShadowWal(m) => m@,
            Error::InvalidWalSegment(m) => m@,
            Error::MismatchWalHeader(m) => m@,
            Error::PanicError(m) => m@,
            Error::UnexpectedEof(m) => m@,
        }
    }
}

} // verus!
