//! Recognising the arrival at the portal, and the scope of the cookie query
//! that follows it.
//!
//! The browser has reached the portal when its address holds the portal's
//! path fragment anywhere: in the path, the query or the fragment. This is a
//! plain substring test and no parse of the address. The cookies are then
//! asked for under the address as far as it stands before that fragment.

use vstd::prelude::*;
use vstd::string::*;
use crate::text::{
    chars_of, contains, find, first_occurrence, lemma_first_occurrence_unique, lemma_prefix_before,
    prefix_before,
};

verus! {

/// The path fragment by which the portal page is known.
pub const PORTAL_MARKER: &'static str = "sslvpn/portal.html";

/// The address `url` is one of the portal.
pub open spec fn is_portal(url: Seq<char>) -> bool {
    contains(url, PORTAL_MARKER@)
}

/// The scope under which the cookies of a portal address are asked for:
/// `url` as far as it stands strictly before the first occurrence of the
/// marker. An address that is not of the portal has none.
pub open spec fn scope_of(url: Seq<char>) -> Option<Seq<char>> {
    prefix_before(url, PORTAL_MARKER@)
}

/// Tells whether `url` is an address of the portal.
pub fn is_portal_url(url: &str) -> (b: bool)
    ensures
        b == is_portal(url@),
{
    let text = chars_of(url);
    let marker = chars_of(PORTAL_MARKER);
    find(text.as_slice(), marker.as_slice()).is_some()
}

/// The scope of the cookie query for `url`: `Some` exactly for an address
/// of the portal, and then the text before the marker's first occurrence.
pub fn cookie_scope(url: &str) -> (scope: Option<String>)
    ensures
        scope.deep_view() == scope_of(url@),
        scope is Some <==> is_portal(url@),
        forall|i: int| #[trigger]
            first_occurrence(url@, PORTAL_MARKER@, i) ==> scope.deep_view() == Some(url@.take(i)),
{
    let text = chars_of(url);
    let marker = chars_of(PORTAL_MARKER);
    match find(text.as_slice(), marker.as_slice()) {
        Some(i) => {
            proof {
                lemma_prefix_before(url@, PORTAL_MARKER@, i as int);
                assert forall|k: int| #[trigger]
                    first_occurrence(url@, PORTAL_MARKER@, k) implies k == i by {
                    lemma_first_occurrence_unique(url@, PORTAL_MARKER@, k, i as int);
                }
            }
            let head = url.substring_char(0, i);
            Some(String::from_str(head))
        },
        None => None,
    }
}

} // verus!
