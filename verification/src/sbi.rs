//! Supervisor Binary Interface: extension IDs, standard errors and the
//! decoding of the raw `(a0, a1)` pair that every SBI call returns.

use vstd::prelude::*;

verus! {

/// The standard SBI base extension ID.
pub const BASE_EXTENSION_ID: i32 = 0x10;

/// The standard SBI debug console extension ID (`"DBCN"`).
pub const DEBUG_CONSOLE_EXTENSION_ID: i32 = 0x4442_434e;

/// Function ID of `sbi_get_spec_version` in the base extension.
pub const GET_SPEC_VERSION: i32 = 0;

/// Function ID of `sbi_debug_console_write_byte` in the debug console extension.
pub const CONSOLE_WRITE_BYTE: i32 = 2;

/// Standard errors returned by SBI functions.
#[derive(Clone, Copy, Debug, PartialEq, Eq, Structural)]
pub enum Error {
    Failed,
    NotSupported,
    InvalidParameter,
    Denied,
    InvalidAddress,
    AlreadyAvailable,
    AlreadyStarted,
    AlreadyStopped,
    NoSharedMemory,
    InvalidState,
    BadRange,
    Timeout,
    InputOutput,
    DeniedLocked,
    Unknown(isize),
}

/// The error that the SBI specification assigns to a raw error code; codes
/// outside the standard range `-14..=-1` are kept as `Unknown`.
pub open spec fn error_for_code(code: isize) -> Error {
    if code == -1 {
        Error::Failed
    } else if code == -2 {
        Error::NotSupported
    } else if code == -3 {
        Error::InvalidParameter
    } else if code == -4 {
        Error::Denied
    } else if code == -5 {
        Error::InvalidAddress
    } else if code == -6 {
        Error::AlreadyAvailable
    } else if code == -7 {
        Error::AlreadyStarted
    } else if code == -8 {
        Error::AlreadyStopped
    } else if code == -9 {
        Error::NoSharedMemory
    } else if code == -10 {
        Error::InvalidState
    } else if code == -11 {
        Error::BadRange
    } else if code == -12 {
        Error::Timeout
    } else if code == -13 {
        Error::InputOutput
    } else if code == -14 {
        Error::DeniedLocked
    } else {
        Error::Unknown(code)
    }
}

/// The raw code that stands for an error.
pub open spec fn code_of(error: Error) -> isize {
    match error {
        Error::Failed => -1isize,
        Error::NotSupported => -2isize,
        Error::InvalidParameter => -3isize,
        Error::Denied => -4isize,
        Error::InvalidAddress => -5isize,
        Error::AlreadyAvailable => -6isize,
        Error::AlreadyStarted => -7isize,
        Error::AlreadyStopped => -8isize,
        Error::NoSharedMemory => -9isize,
        Error::InvalidState => -10isize,
        Error::BadRange => -11isize,
        Error::Timeout => -12isize,
        Error::InputOutput => -13isize,
        Error::DeniedLocked => -14isize,
        Error::Unknown(code) => code,
    }
}

/// Whether `code` is one of the standard error codes `-14..=-1`.
pub open spec fn is_standard_code(code: isize) -> bool {
    -14 <= code <= -1
}

impl Error {
    /// Decodes a raw SBI error code.
    pub fn from_code(code: isize) -> (error: Self)
        ensures
            error == error_for_code(code),
    {
        match code {
            -1 => Self::Failed,
            -2 => Self::NotSupported,
            -3 => Self::InvalidParameter,
            -4 => Self::Denied,
            -5 => Self::InvalidAddress,
            -6 => Self::AlreadyAvailable,
            -7 => Self::AlreadyStarted,
            -8 => Self::AlreadyStopped,
            -9 => Self::NoSharedMemory,
            -10 => Self::InvalidState,
            -11 => Self::BadRange,
            -12 => Self::Timeout,
            -13 => Self::InputOutput,
            -14 => Self::DeniedLocked,
            code => Self::Unknown(code),
        }
    }
}

/// The result that the SBI calling convention gives a raw `(a0, a1)` pair:
/// `Ok(a1)` when `a0` is zero, otherwise the error that `a0` encodes.
pub open spec fn decode_return(error: isize, value: usize) -> Result<usize, Error> {
    if error == 0 {
        Ok(value)
    } else {
        Err(error_for_code(error))
    }
}

/// Raw pair returned by an SBI call in registers `a0` and `a1`.
#[derive(Clone, Copy, Debug, PartialEq, Eq, Structural)]
#[must_use]
pub struct Return {
    error: isize,
    value: usize,
}

impl Return {
    /// The signed error code held in `a0`.
    pub closed spec fn raw_error(self) -> isize {
        self.error
    }

    /// The value held in `a1`.
    pub closed spec fn raw_value(self) -> usize {
        self.value
    }

    /// Builds the pair from the register values `a0` and `a1`.
    pub fn new(error: isize, value: usize) -> (returned: Self)
        ensures
            returned.raw_error() == error,
            returned.raw_value() == value,
    {
        Return { error, value }
    }

    /// Returns the signed error code from `a0` without interpreting it.
    pub fn error_code(self) -> (code: isize)
        ensures
            code == self.raw_error(),
    {
        self.error
    }

    /// Returns the raw value from `a1`.
    pub fn value(self) -> (value: usize)
        ensures
            value == self.raw_value(),
    {
        self.value
    }

    /// Converts the raw SBI return into a result.
    ///
    /// The value in `a1` is ignored on failure because the SBI specification
    /// leaves it unspecified unless an individual function says otherwise.
    pub fn into_result(self) -> (result: Result<usize, Error>)
        ensures
            result == decode_return(self.raw_error(), self.raw_value()),
    {
        if self.error == 0 {
            Ok(self.value)
        } else {
            Err(Error::from_code(self.error))
        }
    }
}

/// Decoding a code keeps it: the code of the decoded error is the code itself,
/// so distinct codes never decode to the same error, and unknown codes are
/// retained as they came.
pub proof fn lemma_error_code_retained(code: isize)
    ensures
        code_of(error_for_code(code)) == code,
        is_standard_code(code) <==> !(error_for_code(code) is Unknown),
{
}

/// Every error other than an `Unknown` that carries a standard code decodes
/// back from its own code.
pub proof fn lemma_error_round_trip(error: Error)
    requires
        !(error is Unknown && is_standard_code(code_of(error))),
    ensures
        error_for_code(code_of(error)) == error,
{
}

/// A zero error code means success with the value of `a1`; any other code is a
/// failure whose error carries that code, whatever `a1` holds.
pub proof fn lemma_decode_return(error: isize, value: usize, other_value: usize)
    ensures
        error == 0 ==> decode_return(error, value) == Ok::<usize, Error>(value),
        error != 0 ==> decode_return(error, value) is Err,
        error != 0 ==> decode_return(error, value) == decode_return(error, other_value),
        decode_return(error, value) matches Err(e) ==> code_of(e) == error,
{
}

} // verus!
