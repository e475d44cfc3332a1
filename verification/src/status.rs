use vstd::prelude::*;
use r_efi::efi;

verus! {

/// A UEFI status code, held as its plain integer value.
#[derive(Clone, Copy, Debug, PartialEq, Eq, Structural)]
pub struct StatusCode {
    pub code: usize,
}

/// The bit that marks a status code as an error: the top bit of a `usize`.
pub open spec fn error_bit() -> int {
    usize::MAX / 2 + 1
}

/// A code is an error when its two top bits are `1` and `0`: the error bit is
/// set and the bit below it, which marks codes reserved for vendors, is clear.
pub open spec fn is_error_code(code: int) -> bool {
    error_bit() <= code < error_bit() + error_bit() / 2
}

impl StatusCode {
    pub open spec fn is_error(self) -> bool {
        is_error_code(self.code as int)
    }
}

/// Calls `r_efi::efi::Status::is_error` on the status whose code is `code`.
/// In r_efi that method masks the two top bits of the code and compares them
/// with the error mask, so it reports an error exactly for codes in
/// `[2^(w-1), 2^(w-1) + 2^(w-2))`, `w` being the width of `usize`.
#[verifier::external_body]
fn efi_status_is_error(code: usize) -> (r: bool)
    ensures
        r == is_error_code(code as int),
{
    efi::Status::from_usize(code).is_error()
}


/// Reads the code of `r_efi::efi::Status::SUCCESS`, which r_efi defines as 0.
#[verifier::external_body]
fn efi_success() -> (code: usize)
    ensures
        code == 0,
{
    efi::Status::SUCCESS.as_usize()
}

/// Reads the code of `r_efi::efi::Status::INVALID_PARAMETER`, which r_efi
/// defines as `2 | ERROR_MASK`, the error bit being the top bit of `usize`.
#[verifier::external_body]
fn efi_invalid_parameter() -> (code: usize)
    ensures
        code == error_bit() + 2,
{
    efi::Status::INVALID_PARAMETER.as_usize()
}

/// Reads the code of `r_efi::efi::Status::BAD_BUFFER_SIZE`, defined in r_efi
/// as `4 | ERROR_MASK`.
#[verifier::external_body]
fn efi_bad_buffer_size() -> (code: usize)
    ensures
        code == error_bit() + 4,
{
    efi::Status::BAD_BUFFER_SIZE.as_usize()
}

/// Reads the code of `r_efi::efi::Status::OUT_OF_RESOURCES`, defined in r_efi
/// as `9 | ERROR_MASK`.
#[verifier::external_body]
fn efi_out_of_resources() -> (code: usize)
    ensures
        code == error_bit() + 9,
{
    efi::Status::OUT_OF_RESOURCES.as_usize()
}

/// Reads the code of `r_efi::efi::Status::NOT_FOUND`, defined in r_efi as
/// `14 | ERROR_MASK`.
#[verifier::external_body]
fn efi_not_found() -> (code: usize)
    ensures
        code == error_bit() + 14,
{
    efi::Status::NOT_FOUND.as_usize()
}

impl StatusCode {
    pub open spec fn success() -> StatusCode {
        StatusCode { code: 0 }
    }

    pub open spec fn invalid_parameter() -> StatusCode {
        StatusCode { code: (error_bit() + 2) as usize }
    }

    pub open spec fn bad_buffer_size() -> StatusCode {
        StatusCode { code: (error_bit() + 4) as usize }
    }

    pub open spec fn out_of_resources() -> StatusCode {
        StatusCode { code: (error_bit() + 9) as usize }
    }

    pub open spec fn not_found() -> StatusCode {
        StatusCode { code: (error_bit() + 14) as usize }
    }

    /// `EFI_SUCCESS`.
    pub fn success_code() -> (s: StatusCode)
        ensures
            s == StatusCode::success(),
    {
        StatusCode { code: efi_success() }
    }

    /// Whether this status reports a failure.
    pub fn failed(&self) -> (r: bool)
        ensures
            r == self.is_error(),
    {
        efi_status_is_error(self.code)
    }
}

/// The outcome of a firmware call that reported `status` and, on success,
/// produced `value`: the value, unless the status is an error.
pub fn check_status<T>(status: StatusCode, value: T) -> (r: Result<T, StatusCode>)
    ensures
        r == if status.is_error() { Err::<T, StatusCode>(status) } else { Ok(value) },
{
    if status.failed() {
        return Err(status);
    }
    Ok(value)
}

/// The outcome of reading the one-byte game result variable: the status of
/// the read when it failed, `EFI_BAD_BUFFER_SIZE` when the variable did not
/// hold exactly one byte, else the byte.
pub fn pong_result_from_read(status: StatusCode, size: usize, value: u8) -> (r: Result<u8, StatusCode>)
    ensures
        r == if status.is_error() {
            Err::<u8, StatusCode>(status)
        } else if size != 1 {
            Err(StatusCode::bad_buffer_size())
        } else {
            Ok(value)
        },
{
    if status.failed() {
        return Err(status);
    }

    if size != core::mem::size_of::<u8>() {
        return Err(StatusCode { code: efi_bad_buffer_size() });
    }

    Ok(value)
}

/// The outcome of deleting the game result variable: deleting it, or
/// finding it absent, are both success; any other status is passed on.
pub fn clear_result_outcome(status: StatusCode) -> (r: Result<(), StatusCode>)
    ensures
        r == if status == StatusCode::success() || status == StatusCode::not_found() {
            Ok::<(), StatusCode>(())
        } else {
            Err(status)
        },
{
    if status.code == efi_success() || status.code == efi_not_found() {
        return Ok(());
    }

    Err(status)
}

/// The outcome of converting a path text to a device path: the firmware
/// hands back nothing when the text is not a valid path.
pub fn converted_path<T>(path: Option<T>) -> (r: Result<T, StatusCode>)
    ensures
        r == match path {
            Some(p) => Ok::<T, StatusCode>(p),
            None => Err(StatusCode::invalid_parameter()),
        },
{
    match path {
        Some(p) => Ok(p),
        None => Err(StatusCode { code: efi_invalid_parameter() }),
    }
}

/// The outcome of appending a device path: the firmware hands back nothing
/// when it ran out of memory.
pub fn appended_path<T>(path: Option<T>) -> (r: Result<T, StatusCode>)
    ensures
        r == match path {
            Some(p) => Ok::<T, StatusCode>(p),
            None => Err(StatusCode::out_of_resources()),
        },
{
    match path {
        Some(p) => Ok(p),
        None => Err(StatusCode { code: efi_out_of_resources() }),
    }
}


/// The statuses the library reports for its own failures are errors, and
/// success is not.
pub proof fn lemma_reported_statuses_are_errors()
    ensures
        !StatusCode::success().is_error(),
        StatusCode::invalid_parameter().is_error(),
        StatusCode::bad_buffer_size().is_error(),
        StatusCode::out_of_resources().is_error(),
        StatusCode::not_found().is_error(),
{
}

} // verus!
