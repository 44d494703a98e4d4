//! Error kinds surfaced by the library.
use vstd::prelude::*;

verus! {

/// The storage engine's status code for a call that succeeded.
pub const STATUS_OK: u32 = 0;

/// One structured taxonomy for every failure, native or local.
#[derive(Debug, Clone, PartialEq, Eq)]
pub enum Error {
    MemoryError(String),
    KeyError(String),
    TypeError(String),
    InvalidError(String),
    IOError(String),
    CapacityError(String),
    IndexError(String),
    CancelledError(String),
    UnknownError(String),
    NotImplementedError(String),
    SerialisationError(String),
    StringLengthError(String),
    /// A local file operation failed.
    ArrowIOError(String),
    /// The embedded signal table could not be parsed, or has no signal field.
    ArrowCompressionError(String),
    /// A native string was not valid UTF-8.
    StringError(String),
}

/// The error that a non-zero status code of the storage engine stands for.
pub open spec fn error_for_code(code: u32, message: String) -> Error {
    if code == 1 {
        Error::MemoryError(message)
    } else if code == 2 {
        Error::KeyError(message)
    } else if code == 3 {
        Error::TypeError(message)
    } else if code == 4 {
        Error::InvalidError(message)
    } else if code == 5 {
        Error::IOError(message)
    } else if code == 6 {
        Error::CapacityError(message)
    } else if code == 7 {
        Error::IndexError(message)
    } else if code == 8 {
        Error::CancelledError(message)
    } else if code == 10 {
        Error::NotImplementedError(message)
    } else if code == 11 {
        Error::SerialisationError(message)
    } else if code == 12 {
        Error::StringLengthError(message)
    } else {
        Error::UnknownError(message)
    }
}

impl Error {
    /// Translates a storage-engine error code and its message into an error.
    /// Codes outside the known table become `UnknownError`.
    pub fn from_error_code(code: u32, message: String) -> (r: Error)
        ensures
            r == error_for_code(code, message),
    {
        match code {
            1 => Error::MemoryError(message),
            2 => Error::KeyError(message),
            3 => Error::TypeError(message),
            4 => Error::InvalidError(message),
            5 => Error::IOError(message),
            6 => Error::CapacityError(message),
            7 => Error::IndexError(message),
            8 => Error::CancelledError(message),
            9 => Error::UnknownError(message),
            10 => Error::NotImplementedError(message),
            11 => Error::SerialisationError(message),
            12 => Error::StringLengthError(message),
            _ => Error::UnknownError(message),
        }
    }
}

/// The checked-call adapter: the status register read right after a native
/// call becomes `Ok(value)` when it reports success, and the translated error
/// otherwise.
pub fn check_status<T>(code: u32, message: String, value: T) -> (r: Result<T, Error>)
    ensures
        code == STATUS_OK ==> r == Ok::<T, Error>(value),
        code != STATUS_OK ==> r == Err::<T, Error>(error_for_code(code, message)),
{
    if code == STATUS_OK {
        Ok(value)
    } else {
        Err(Error::from_error_code(code, message))
    }
}

} // verus!
