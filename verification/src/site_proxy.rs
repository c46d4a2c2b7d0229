//! Handing requests to a site on to the main server.
use vstd::prelude::*;
use vstd::string::*;

verus! {

/// Where a request to the site is sent on to.
pub fn forwarded_uri(site_forward_prefix: &str, uri: &str) -> (forwarded: String)
    ensures
        forwarded@ == site_forward_prefix@ + uri@,
{
    let mut forwarded = site_forward_prefix.to_owned();
    forwarded.append(uri);
    forwarded
}

} // verus!
