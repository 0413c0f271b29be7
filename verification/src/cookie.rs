//! Picking the session credential out of the cookies of the portal.
//!
//! The cookie store answers a query with a list of cookies. The first one
//! whose name is exactly the session cookie's decides: with a value that is
//! not empty it gives the credential, and otherwise there is none. Cookies of
//! other names, and cookies without a name, are passed over.

use vstd::prelude::*;
use vstd::string::*;
use crate::text::same_text;

verus! {

/// The name of the cookie that carries the VPN session.
pub const SESSION_COOKIE: &'static str = "SVPNCOOKIE";

/// A cookie as the store hands it out. A malformed one may lack its name
/// or its value.
#[derive(Debug, Clone, PartialEq, Eq)]
pub struct Cookie {
    pub name: Option<String>,
    pub value: Option<String>,
}

/// A cookie as contracts see it: its texts as sequences of characters.
pub ghost struct CookieModel {
    pub name: Option<Seq<char>>,
    pub value: Option<Seq<char>>,
}

impl View for Cookie {
    type V = CookieModel;

    open spec fn view(&self) -> CookieModel {
        CookieModel { name: self.name.deep_view(), value: self.value.deep_view() }
    }
}

impl DeepView for Cookie {
    type V = CookieModel;

    open spec fn deep_view(&self) -> CookieModel {
        self.view()
    }
}

/// `c` bears the session cookie's name, letter for letter.
pub open spec fn is_session_cookie(c: CookieModel) -> bool {
    c.name == Some(SESSION_COOKIE@)
}

/// The credential that the session cookie `c` gives: its name, `=` and its
/// value, where it has a value that is not empty.
pub open spec fn credential_of(c: CookieModel) -> Option<Seq<char>> {
    match c.value {
        Some(v) => if v.len() > 0 {
            Some(SESSION_COOKIE@ + "="@ + v)
        } else {
            None
        },
        None => None,
    }
}

/// The cookie at `i` is the first of `cookies` that bears the session
/// cookie's name.
pub open spec fn first_session_cookie(cookies: Seq<CookieModel>, i: int) -> bool {
    &&& 0 <= i < cookies.len()
    &&& is_session_cookie(cookies[i])
    &&& forall|j: int| 0 <= j < i ==> !is_session_cookie(#[trigger] cookies[j])
}

/// No cookie of `cookies` bears the session cookie's name.
pub open spec fn no_session_cookie(cookies: Seq<CookieModel>) -> bool {
    forall|j: int| 0 <= j < cookies.len() ==> !is_session_cookie(#[trigger] cookies[j])
}

/// The credential held by `cookies`: that of the first cookie that bears
/// the session cookie's name.
pub open spec fn extracted(cookies: Seq<CookieModel>) -> Option<Seq<char>> {
    if exists|i: int| first_session_cookie(cookies, i) {
        credential_of(cookies[choose|i: int| first_session_cookie(cookies, i)])
    } else {
        None
    }
}

/// The first cookie of the right name decides, whatever follows it.
pub proof fn lemma_first_decides(cookies: Seq<CookieModel>, i: int)
    requires
        first_session_cookie(cookies, i),
    ensures
        extracted(cookies) == credential_of(cookies[i]),
{
    let k = choose|k: int| first_session_cookie(cookies, k);
    if k < i {
        assert(!is_session_cookie(cookies[k]));
    } else if i < k {
        assert(!is_session_cookie(cookies[i]));
    }
}

/// Without a cookie of the right name there is no credential.
pub proof fn lemma_none_without_session_cookie(cookies: Seq<CookieModel>)
    requires
        no_session_cookie(cookies),
    ensures
        extracted(cookies) is None,
{
    if exists|i: int| first_session_cookie(cookies, i) {
        let i = choose|i: int| first_session_cookie(cookies, i);
        assert(!is_session_cookie(cookies[i]));
    }
}

/// The cookies of `cookies` that bear the session cookie's name, in the
/// order in which they stand.
pub open spec fn session_cookies(cookies: Seq<CookieModel>) -> Seq<CookieModel> {
    cookies.filter(|c: CookieModel| is_session_cookie(c))
}

/// The first cookie that bears the session cookie's name is the first of
/// `session_cookies`, and there is none exactly where that sequence is empty.
pub proof fn lemma_first_of_session_cookies(cookies: Seq<CookieModel>)
    ensures
        session_cookies(cookies).len() == 0 <==> no_session_cookie(cookies),
        session_cookies(cookies).len() > 0 ==> exists|i: int|
            first_session_cookie(cookies, i) && cookies[i] == session_cookies(cookies)[0],
    decreases cookies.len(),
{
    reveal(Seq::filter);
    let named = |c: CookieModel| is_session_cookie(c);
    if cookies.len() > 0 {
        let rest = cookies.drop_last();
        let last = cookies.last();
        lemma_first_of_session_cookies(rest);
        assert(session_cookies(cookies) == if named(last) {
            session_cookies(rest).push(last)
        } else {
            session_cookies(rest)
        });
        if session_cookies(rest).len() > 0 {
            let i = choose|i: int|
                first_session_cookie(rest, i) && rest[i] == session_cookies(rest)[0];
            assert(cookies[i] == rest[i]);
            assert forall|j: int| 0 <= j < i implies !is_session_cookie(
                #[trigger] cookies[j],
            ) by {
                assert(cookies[j] == rest[j]);
            }
            assert(first_session_cookie(cookies, i));
        } else {
            assert forall|j: int| 0 <= j < rest.len() implies !is_session_cookie(
                #[trigger] cookies[j],
            ) by {
                assert(cookies[j] == rest[j]);
            }
            if named(last) {
                assert(first_session_cookie(cookies, cookies.len() - 1));
            }
        }
    }
}

/// Only the cookies that bear the session cookie's name count, in their
/// order: two answers of the store that agree on them give the same
/// credential, however many other cookies each holds and wherever they stand.
pub proof fn lemma_other_cookies_do_not_count(a: Seq<CookieModel>, b: Seq<CookieModel>)
    requires
        session_cookies(a) == session_cookies(b),
    ensures
        extracted(a) == extracted(b),
{
    lemma_first_of_session_cookies(a);
    lemma_first_of_session_cookies(b);
    if session_cookies(a).len() > 0 {
        let i = choose|i: int| first_session_cookie(a, i) && a[i] == session_cookies(a)[0];
        let j = choose|j: int| first_session_cookie(b, j) && b[j] == session_cookies(b)[0];
        lemma_first_decides(a, i);
        lemma_first_decides(b, j);
    } else {
        lemma_none_without_session_cookie(a);
        lemma_none_without_session_cookie(b);
    }
}

/// Looks through `cookies` for the session credential.
///
/// The answer is `NAME=value` of the first cookie named exactly
/// `SESSION_COOKIE`, if its value is there and not empty. There is no
/// answer where no cookie bears that name, nor where the first that does has
/// no value or an empty one: later cookies of that name are not looked at.
pub fn extract_session_cookie(cookies: &[Cookie]) -> (credential: Option<String>)
    ensures
        credential.deep_view() == extracted(cookies.deep_view()),
        no_session_cookie(cookies.deep_view()) ==> credential is None,
        forall|i: int| first_session_cookie(cookies.deep_view(), i)
            ==> credential.deep_view() == credential_of(#[trigger] cookies.deep_view()[i]),
{
    let ghost model = cookies.deep_view();
    let mut i: usize = 0;
    while i < cookies.len()
        invariant
            i <= cookies.len(),
            model == cookies.deep_view(),
            forall|j: int| 0 <= j < i ==> !is_session_cookie(#[trigger] model[j]),
        decreases cookies.len() - i,
    {
        let cookie = &cookies[i];
        assert(model[i as int] == cookie.deep_view());
        let named = match &cookie.name {
            Some(name) => same_text(name.as_str(), SESSION_COOKIE),
            None => false,
        };
        if named {
            proof {
                assert(first_session_cookie(model, i as int));
                lemma_first_decides(model, i as int);
            }
            return match &cookie.value {
                Some(value) => {
                    if value.as_str().is_empty() {
                        None
                    } else {
                        let mut credential = String::from_str(SESSION_COOKIE);
                        credential.append("=");
                        credential.append(value.as_str());
                        Some(credential)
                    }
                },
                None => None,
            };
        }
        i += 1;
    }
    proof {
        lemma_none_without_session_cookie(model);
    }
    None
}

} // verus!
