//! Bearer-token validation for API services without a browser session: the
//! provider's userinfo endpoint is asked per request, and its status decides.

use vstd::prelude::*;

use crate::oidc::error::ValidationError;
use crate::secrets::client::{status_display, status_text};
use crate::text::{append, owned};

verus! {

/// What a userinfo status means: `None` for a success, which carries the
/// identity; 401 and 403 reject the token; anything else is the
/// provider's failure.
pub fn userinfo_status(status: u16) -> (r: Option<ValidationError>)
    ensures
        200 <= status <= 299 ==> r is None,
        status == 401 || status == 403 ==> r matches Some(ValidationError::Rejected),
        !(200 <= status <= 299) && status != 401 && status != 403 ==> (r matches Some(
            ValidationError::Upstream(s),
        ) && s@ == "userinfo returned "@ + status_text(status)),
{
    if 200 <= status && status <= 299 {
        None
    } else if status == 401 || status == 403 {
        Some(ValidationError::Rejected)
    } else {
        let mut m = owned("userinfo returned ");
        let shown = status_display(status);
        append(&mut m, shown.as_str());
        Some(ValidationError::Upstream(m))
    }
}

} // verus!
