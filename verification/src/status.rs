//! Validation of the HTTP response status.

use vstd::prelude::*;
use crate::error::DownloadError;

verus! {

/// A response status permits the download exactly when it is a success code.
pub open spec fn is_success_code(code: u16) -> bool {
    200 <= code < 300
}

/// Validates the response status: any non-success status aborts the download
/// with an error carrying the code. No output file is created when this
/// returns an error, since the destination is only opened afterwards.
pub fn check_status(code: u16) -> (r: Result<(), DownloadError>)
    ensures
        match r {
            Ok(_) => is_success_code(code),
            Err(e) => !is_success_code(code) && e == DownloadError::HttpStatus(code),
        },
{
    if 200 <= code && code < 300 {
        Ok(())
    } else {
        Err(DownloadError::HttpStatus(code))
    }
}

} // verus!
