//! What the answers of the trace data helper mean.
//!
//! Its functions answer with a status. They are asked twice: first for the
//! length of what they have to say, then, with a buffer of that length, for the
//! matter itself.

use vstd::prelude::*;
use vstd::std_specs::convert::FromSpecImpl;
use vstd::string::StringExecFns;
use crate::text::{decimal_string, decimal_text};

verus! {

/// The status of a call that went well.
pub const ERROR_SUCCESS: u32 = 0;

/// The status of a call whose buffer was too short; the call has then said how
/// long the buffer has to be.
pub const ERROR_INSUFFICIENT_BUFFER: u32 = 122;

/// Makes `std::io::Error` known as a type whose values are carried along and
/// never looked into.
#[verifier::external_type_specification]
#[verifier::external_body]
pub struct ExIoError(std::io::Error);

/// What went wrong in a call of the trace data helper.
#[derive(Debug)]
pub enum TdhNativeError {
    /// An error of the operating system.
    IoError(std::io::Error),
}

impl From<std::io::Error> for TdhNativeError {
    fn from(err: std::io::Error) -> (e: Self) {
        TdhNativeError::IoError(err)
    }
}

impl FromSpecImpl<std::io::Error> for TdhNativeError {
    open spec fn obeys_from_spec() -> bool {
        true
    }

    open spec fn from_spec(err: std::io::Error) -> Self {
        TdhNativeError::IoError(err)
    }
}

/// Calls `std::io::Error::from_raw_os_error` with the status, taken as a signed
/// number of the same bits. Nothing in the library reads the error that comes
/// back, so the contract claims nothing of it.
#[verifier::external_body]
fn io_error_from_status(status: u32) -> std::io::Error {
    std::io::Error::from_raw_os_error(status as i32)
}

/// Whether the first call, made without a buffer, has said how long the buffer
/// has to be. Any other answer is a failure.
pub fn asks_for_buffer(status: u32) -> (b: bool)
    ensures
        b == (status == ERROR_INSUFFICIENT_BUFFER),
{
    status == ERROR_INSUFFICIENT_BUFFER
}

/// Whether a call went well.
pub fn succeeded(status: u32) -> (b: bool)
    ensures
        b == (status == ERROR_SUCCESS),
{
    status == ERROR_SUCCESS
}

/// What a query for the size of a property gives: the size that the call wrote,
/// where the call went well; else the error that belongs to the status.
pub fn property_size_result(status: u32, property_size: u32) -> (r: Result<u32, TdhNativeError>)
    ensures
        status == ERROR_SUCCESS ==> r == Ok::<u32, TdhNativeError>(property_size),
        status != ERROR_SUCCESS ==> r is Err,
{
    if status != 0 {
        return Err(TdhNativeError::from(io_error_from_status(status)));
    }
    Ok(property_size)
}

/// What is said when the providers could not be listed.
pub open spec fn enumeration_failure_text(status: u32) -> Seq<char> {
    "TdhEnumerateProviders failed with error code "@ + decimal_text(status as nat)
}

/// What is said when the providers could not be listed.
pub fn enumeration_failure_message(status: u32) -> (message: String)
    ensures
        message@ == enumeration_failure_text(status),
{
    let mut message = String::from_str("TdhEnumerateProviders failed with error code ");
    message.append(decimal_string(status as u64).as_str());
    message
}

} // verus!
