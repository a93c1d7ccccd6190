//! The error mapper: a closed taxonomy of symbolic failure reasons, derived
//! from the numeric error code that the OS reports right after a failing call.
//! A code outside the recognized set is deliberately left unmapped: the caller
//! treats it as a fatal, unanticipated condition rather than guessing.

use vstd::prelude::*;

verus! {

/// One symbolic failure reason, standing for a recognized OS error code.
#[derive(Clone, Copy, Debug, PartialEq, Eq, Structural)]
pub enum Error {
    ProcedureNotFound,
    NoAccess,
    InvalidParameter,
    NotSupported,
    InvalidHandle,
    ClassRegistrationFailed,
    WindowOfOtherThread,
}

/// The mapper's table: exactly the seven recognized codes have a symbolic
/// reason; every other code is unmapped.
pub open spec fn map_code_spec(code: u32) -> Option<Error> {
    if code == 5 {
        Some(Error::NotSupported)
    } else if code == 6 {
        Some(Error::InvalidHandle)
    } else if code == 87 {
        Some(Error::InvalidParameter)
    } else if code == 127 {
        Some(Error::ProcedureNotFound)
    } else if code == 998 {
        Some(Error::NoAccess)
    } else if code == 1407 {
        Some(Error::ClassRegistrationFailed)
    } else if code == 1408 {
        Some(Error::WindowOfOtherThread)
    } else {
        None
    }
}

impl Error {
    /// Map a raw OS error code to its symbolic reason; `None` marks a code the
    /// taxonomy does not cover, which callers treat as fatal.
    pub fn from_code(code: u32) -> (r: Option<Error>)
        ensures
            r == map_code_spec(code),
    {
        match code {
            5 => Some(Error::NotSupported),
            6 => Some(Error::InvalidHandle),
            87 => Some(Error::InvalidParameter),
            127 => Some(Error::ProcedureNotFound),
            998 => Some(Error::NoAccess),
            1407 => Some(Error::ClassRegistrationFailed),
            1408 => Some(Error::WindowOfOtherThread),
            _ => None,
        }
    }

    /// The symbolic reason's name, for log records.
    pub fn describe(&self) -> (s: &'static str)
        ensures
            s@ == self.describe_spec(),
    {
        match self {
            Error::ProcedureNotFound => "ProcedureNotFound",
            Error::NoAccess => "NoAccess",
            Error::InvalidParameter => "InvalidParameter",
            Error::NotSupported => "NotSupported",
            Error::InvalidHandle => "InvalidHandle",
            Error::ClassRegistrationFailed => "ClassRegistrationFailed",
            Error::WindowOfOtherThread => "WindowOfOtherThread",
        }
    }

    /// The name that `describe` returns for each reason.
    pub open spec fn describe_spec(&self) -> Seq<char> {
        match self {
            Error::ProcedureNotFound => "ProcedureNotFound"@,
            Error::NoAccess => "NoAccess"@,
            Error::InvalidParameter => "InvalidParameter"@,
            Error::NotSupported => "NotSupported"@,
            Error::InvalidHandle => "InvalidHandle"@,
            Error::ClassRegistrationFailed => "ClassRegistrationFailed"@,
            Error::WindowOfOtherThread => "WindowOfOtherThread"@,
        }
    }
}

/// Each of the seven recognized OS error codes maps to its own listed reason,
/// and every other code is unmapped.
pub proof fn lemma_error_codes_map_exactly()
    ensures
        map_code_spec(5) == Some(Error::NotSupported),
        map_code_spec(6) == Some(Error::InvalidHandle),
        map_code_spec(87) == Some(Error::InvalidParameter),
        map_code_spec(127) == Some(Error::ProcedureNotFound),
        map_code_spec(998) == Some(Error::NoAccess),
        map_code_spec(1407) == Some(Error::ClassRegistrationFailed),
        map_code_spec(1408) == Some(Error::WindowOfOtherThread),
        forall|code: u32|
            (map_code_spec(code) is Some) <==> (code == 5 || code == 6 || code == 87 || code == 127
                || code == 998 || code == 1407 || code == 1408),
{
}

} // verus!
