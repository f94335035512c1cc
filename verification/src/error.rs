//! Errors reported by platform operations.
use vstd::prelude::*;

verus! {

/// An error of a platform operation.
#[derive(Debug, Clone)]
pub enum PlatformError {
    UnknownError,
    LaunchEngineFailure,
    SendMessageFailure { channel: String },
    /// A failed system call, by its `HRESULT` bit pattern.
    WindowsError(u32),
    NotAvailable,
    OffsetOutOfScreenBounds,
    OtherError { error: String },
}

/// Result of a platform operation.
pub type PlatformResult<T> = Result<T, PlatformError>;

/// Facility code of Win32 errors.
pub const FACILITY_WIN32: u32 = 7;

/// The `HRESULT` of a Win32 error code: codes that are not positive as
/// signed numbers pass unchanged, others get the Win32 facility and the
/// failure bit.
pub open spec fn hresult_from_win32(x: u32) -> u32 {
    if x == 0 || x >= 0x8000_0000 {
        x
    } else {
        ((x % 0x10000) + FACILITY_WIN32 * 0x10000 + 0x8000_0000) as u32
    }
}

/// Converts a Win32 error code to an `HRESULT`.
#[allow(non_snake_case)]
pub fn HRESULT_FROM_WIN32(x: u32) -> (r: u32)
    ensures
        r == hresult_from_win32(x),
{
    if x == 0 || x >= 0x8000_0000 {
        x
    } else {
        let r = (x & 0x0000FFFF) | (FACILITY_WIN32 << 16u32) | 0x80000000;
        assert(((x & 0x0000FFFF) | (7u32 << 16u32) | 0x80000000u32) == ((x % 0x10000) + 7
            * 0x10000 + 0x8000_0000) as u32) by (bit_vector);
        r
    }
}

/// The error of a failed system call from its last error code.
pub fn windows_error_from_last_error(last_error: u32) -> (e: PlatformError)
    ensures
        e == PlatformError::WindowsError(hresult_from_win32(last_error)),
{
    PlatformError::WindowsError(HRESULT_FROM_WIN32(last_error))
}

} // verus!
