//! The address at which the login starts.
//!
//! The host is taken as it is given: nothing in it is checked or escaped.
//! A host that is no host gives an address that no browser can load.

use vstd::prelude::*;
use vstd::string::*;

verus! {

/// The path, on the gateway, that starts the single-sign-on exchange.
pub const START_PATH: &'static str = "remote/saml/start";

/// The realm that the login is asked for.
pub const REALM: &'static str = "foo";

/// The start address for the gateway `host`:
/// `https://<host>/remote/saml/start?realm=foo`.
pub open spec fn start_address(host: Seq<char>) -> Seq<char> {
    "https://"@ + host + "/"@ + START_PATH@ + "?realm="@ + REALM@
}

/// Builds the address to which the browser is sent first.
pub fn start_url(host: &str) -> (url: String)
    ensures
        url@ == start_address(host@),
{
    let mut url = String::from_str("https://");
    url.append(host);
    url.append("/");
    url.append(START_PATH);
    url.append("?realm=");
    url.append(REALM);
    url
}

/// The start address is the host between two fixed texts, whatever the host.
pub proof fn lemma_start_address_shape(host: Seq<char>)
    ensures
        start_address(host) == "https://"@ + host + "/remote/saml/start?realm=foo"@,
        start_address(host).len() == host.len() + 36,
{
    reveal_strlit("https://");
    reveal_strlit("/");
    reveal_strlit("remote/saml/start");
    reveal_strlit("?realm=");
    reveal_strlit("foo");
    reveal_strlit("/remote/saml/start?realm=foo");
    let tail = "/"@ + START_PATH@ + "?realm="@ + REALM@;
    assert(tail =~= "/remote/saml/start?realm=foo"@);
    assert(start_address(host) =~= "https://"@ + host + tail);
}

} // verus!
