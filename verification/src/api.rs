//! Endpoint paths of the scoring service's group interface.

use vstd::prelude::*;
use vstd::string::StringExecFns;

verus! {

/// GET /groups/list
pub fn list(api_uri: &str) -> (r: String)
    ensures
        r@ == api_uri@ + "/api/v0/groups"@,
{
    let mut s = String::from_str(api_uri);
    s.append("/api/v0/groups");
    s
}

/// POST /groups/create
pub fn create(api_uri: &str) -> (r: String)
    ensures
        r@ == api_uri@ + "/api/v0/groups"@,
{
    let mut s = String::from_str(api_uri);
    s.append("/api/v0/groups");
    s
}

} // verus!
