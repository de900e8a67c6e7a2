//! Error values surfaced to callers.
//!
//! Only conditions a caller can meaningfully act on become error values;
//! driver capability gaps are handled with fallbacks and configuration
//! mismatches are ruled out by preconditions.

use vstd::prelude::*;

verus! {

/// A recoverable error reported by the manager.
#[derive(Clone, Copy, Debug, Hash, PartialEq, Eq, Structural)]
pub enum ErrorCode {
    /// Queue and port setup has already been performed on this runtime.
    AlreadyInitialized,
    /// A negative status from the capability layer, stored as its magnitude.
    Unknown { code: u8 },
}

impl ErrorCode {
    /// Wrap a raw status magnitude reported by the capability layer.
    pub fn from_code(code: u8) -> (r: ErrorCode)
        ensures
            r == (ErrorCode::Unknown { code }),
    {
        ErrorCode::Unknown { code }
    }

    /// Translate a negative status value from the capability layer.
    ///
    /// Returns `None` when the status is non-negative (no error), or when
    /// its magnitude does not fit the error byte.
    pub fn from_status(status: i32) -> (r: Option<ErrorCode>)
        ensures
            r matches Some(e) <==> -255 <= status < 0,
            r matches Some(e) ==> e == (ErrorCode::Unknown { code: (-status) as u8 }),
    {
        if -255 <= status && status < 0 {
            Some(ErrorCode::Unknown { code: (-status) as u8 })
        } else {
            None
        }
    }
}

} // verus!
