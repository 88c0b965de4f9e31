use vstd::prelude::*;

use soup::{NodeExt, QueryBuilderExt, Soup};

use crate::error::Error;

verus! {

/// What scraping the profile page yields: the value attribute of the
/// document's first <input> element, the mirror's anti-forgery token. Left
/// unstated: it names the result of the soup query, a function of the
/// document text alone.
pub uninterp spec fn first_input_value_of(html: Seq<char>) -> Option<Seq<char>>;

/// Relies on soup (Soup::new, tag("input"), find, get("value")): the value
/// attribute of the document's first <input> element, determined by the
/// document text alone; None when no such element or attribute exists.
#[verifier::external_body]
fn scrape_csrf_token(html: &str) -> (r: Option<String>)
    ensures
        r is Some <==> first_input_value_of(html@) is Some,
        r matches Some(s) ==> first_input_value_of(html@) == Some(s@),
{
    Soup::new(html).tag("input").find()?.get("value")
}

/// Establishes the session from the fetched profile page: the fetch must
/// have come back 200, and the page must carry the anti-forgery token;
/// anything else is the fatal session error, and no pagination may start.
pub fn on_profile_response(status: u16, body: &str) -> (r: Result<String, Error>)
    ensures
        status != 200 ==> r == Err::<String, Error>(Error::SessionError),
        status == 200 ==> match first_input_value_of(body@) {
            Some(t) => r matches Ok(s) && s@ == t,
            None => r == Err::<String, Error>(Error::SessionError),
        },
{
    if status != 200 {
        return Err(Error::SessionError);
    }
    match scrape_csrf_token(body) {
        Some(token) => Ok(token),
        None => Err(Error::SessionError),
    }
}

} // verus!
