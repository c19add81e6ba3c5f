//! What the pages of the catalog ask of the service: where a request goes,
//! what it carries, and what an answer that is no success stands for. The
//! requests themselves are the caller's to send.

use crate::decimal::{decimal_digits, render_i64, render_u64, signed_decimal_digits};
use vstd::prelude::*;
use vstd::string::*;

verus! {

/// Why a request to the service was not made or did not succeed.
#[derive(Debug, Clone, PartialEq, Eq)]
pub enum Error {
    /// The service could not be reached; holds why.
    Request(String),
    /// The answer could not be read; holds why.
    Serde(String),
    /// The service answered with a failure; holds the answer.
    Http(String),
    /// The request needs a token and there is none.
    Forbidden,
}

/// The path of the page of the catalog's listing with the number `offset`.
pub fn recipes_path(offset: i64) -> (r: String)
    ensures
        r@ == "/api/v1/recipes?offset="@ + signed_decimal_digits(offset as int),
{
    let mut r = String::from_str("/api/v1/recipes?offset=");
    r.append(render_i64(offset).as_str());
    r
}

/// The path of the recipe under `id`.
pub fn recipe_path(id: i64) -> (r: String)
    ensures
        r@ == "/api/v1/recipes/"@ + signed_decimal_digits(id as int),
{
    let mut r = String::from_str("/api/v1/recipes/");
    r.append(render_i64(id).as_str());
    r
}

/// The authorization header of a request that changes the catalog, which
/// cannot be made without a token.
pub fn bearer_header(token: Option<&str>) -> (r: Result<String, Error>)
    ensures
        token matches Some(t) ==> (r matches Ok(header) && header@ == "Bearer "@ + t@),
        token is None ==> r matches Err(Error::Forbidden),
{
    match token {
        Some(t) => {
            let mut r = String::from_str("Bearer ");
            r.append(t);
            Ok(r)
        },
        None => Err(Error::Forbidden),
    }
}

/// The failure that stands for an answer of the service that is no success:
/// the status in words, the status code, and the answer's text.
pub fn http_failure(status_text: &str, code: u16, text: &str) -> (r: Error)
    ensures
        r matches Error::Http(what) && what@ == status_text@ + " "@ + decimal_digits(
            code as nat,
        ) + " - "@ + text@,
{
    let mut what = String::from_str(status_text);
    what.append(" ");
    what.append(render_u64(code as u64).as_str());
    what.append(" - ");
    what.append(text);
    Error::Http(what)
}

} // verus!
