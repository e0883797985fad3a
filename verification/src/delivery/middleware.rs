//! Identifiers of requests.

use uuid::Uuid;
use vstd::prelude::*;
use vstd::string::*;

use crate::text;
use crate::uuids;
use crate::uuids::{hyphenated, version_num};

verus! {

/// Name of the header that carries the identifier of a request.
pub const REQUEST_ID_HEADER: &'static str = "x-request-id";

/// `uuid::Uuid::new_v4`: a fresh UUID of version 4. Its other bits are random; nothing is claimed
/// of them.
#[verifier::external_body]
fn new_v4() -> (r: u128)
    ensures
        version_num(r) == 4,
{
    Uuid::new_v4().as_u128()
}

/// The identifier of a request: the one that it brings, or a fresh UUID of version 4.
pub fn request_id(incoming: Option<&str>) -> (r: String)
    ensures
        match incoming {
            Some(id) => r@ == id@,
            None => exists|v: u128| version_num(v) == 4 && r@ == #[trigger] hyphenated(v),
        },
{
    match incoming {
        Some(id) => text::owned(id),
        None => uuids::uuid_string(new_v4()),
    }
}

} // verus!
