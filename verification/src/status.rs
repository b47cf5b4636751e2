//! Which HTTP answers carry a page of skills.

use vstd::prelude::*;

use crate::model::Error;

verus! {

/// A success status: the 2xx range, as `StatusCode::is_success` of the `http`
/// crate defines it.
pub open spec fn is_success_status(status: u16) -> bool {
    200 <= status && status < 300
}

/// Whether `status` is a success status (200 to 299).
pub fn is_success(status: u16) -> (r: bool)
    ensures
        r == is_success_status(status),
        r <==> 200 <= status && status <= 299,
{
    200 <= status && status < 300
}

/// What the API's answer to page `page` with HTTP status `status` means before
/// its body is read: a success status lets the body be decoded, any other is
/// the error `BadStatus` for that page and status.
pub fn check_status(page: u64, status: u16) -> (r: Result<(), Error>)
    ensures
        r == (if is_success_status(status) {
            Ok::<(), Error>(())
        } else {
            Err::<(), Error>(Error::BadStatus { page, status })
        }),
        r is Ok <==> 200 <= status && status <= 299,
        !(200 <= status && status <= 299) ==> r == Err::<(), Error>(
            Error::BadStatus { page, status },
        ),
{
    if is_success(status) {
        Ok(())
    } else {
        Err(Error::BadStatus { page, status })
    }
}

/// Exactly the statuses 200 to 299 are success statuses: every other status,
/// such as 199, 300, 401, 403, 404, 429 or 500, is a failure.
pub proof fn law_success_is_2xx(status: u16)
    ensures
        is_success_status(status) <==> 200 <= status && status <= 299,
{
}

} // verus!
