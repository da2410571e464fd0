//! What the HTTP interface asks of a request, and what it answers.

use crate::text;
use vstd::prelude::*;

verus! {

/// How a request is refused.
#[derive(Clone, Copy, PartialEq, Eq, Structural, Debug)]
pub enum ApiError {
    BadRequest,
    NotFound,
    Internal,
}

impl ApiError {
    /// The HTTP status code.
    pub fn status_code(self) -> (code: u16)
        ensures
            code == match self {
                ApiError::BadRequest => 400u16,
                ApiError::NotFound => 404u16,
                ApiError::Internal => 500u16,
            },
    {
        match self {
            ApiError::BadRequest => 400,
            ApiError::NotFound => 404,
            ApiError::Internal => 500,
        }
    }
}

/// The answer to a request for something that there always is: a failure to
/// load it is an internal one.
pub fn loaded<T, E>(result: Result<T, E>) -> (r: Result<T, ApiError>)
    ensures
        r == match result {
            Ok(value) => Ok::<T, ApiError>(value),
            Err(_) => Err(ApiError::Internal),
        },
{
    match result {
        Ok(value) => Ok(value),
        Err(_) => Err(ApiError::Internal),
    }
}

/// The answer to a request for one device: what was found, "not found", or an
/// internal failure.
pub fn found<T, E>(result: Result<Option<T>, E>) -> (r: Result<T, ApiError>)
    ensures
        r == match result {
            Ok(Some(value)) => Ok::<T, ApiError>(value),
            Ok(None) => Err(ApiError::NotFound),
            Err(_) => Err(ApiError::Internal),
        },
{
    match result {
        Ok(Some(value)) => Ok(value),
        Ok(None) => Err(ApiError::NotFound),
        Err(_) => Err(ApiError::Internal),
    }
}

/// A parameter that a request must have, read: a request without it is a bad
/// one.
pub fn required<T>(parameter: Option<T>) -> (r: Result<T, ApiError>)
    ensures
        r == match parameter {
            Some(value) => Ok::<T, ApiError>(value),
            None => Err(ApiError::BadRequest),
        },
{
    match parameter {
        Some(value) => Ok(value),
        None => Err(ApiError::BadRequest),
    }
}

/// What an agent posts: the value itself, or the value in an envelope.
pub enum Posted<T> {
    Raw(T),
    Envelope { message_type: String, payload: T },
}

/// The posted value, whichever way it came.
pub fn payload_of<T>(posted: Posted<T>) -> (value: T)
    ensures
        value == match posted {
            Posted::Raw(value) => value,
            Posted::Envelope { message_type, payload } => payload,
        },
{
    match posted {
        Posted::Raw(value) => value,
        Posted::Envelope { message_type: _, payload } => payload,
    }
}

/// How many results a search gives unless the request tells.
pub const DEFAULT_SEARCH_LIMIT: u16 = 25;

/// The most results that a search gives.
pub const MAX_SEARCH_LIMIT: u16 = 100;

/// What a search is asked for.
#[derive(Debug)]
pub struct SearchRequest {
    pub query: String,
    pub device_id: Option<String>,
    pub limit: i64,
}

/// A parameter without outer white space; none where nothing is left of it.
pub open spec fn filled(parameter: Option<Seq<char>>) -> Option<Seq<char>> {
    match parameter {
        Some(s) => if text::trim(s).len() > 0 {
            Some(text::trim(s))
        } else {
            None
        },
        None => None,
    }
}

/// The number of results that a request gets: at least one, and no more than
/// the most.
pub open spec fn search_limit(limit: Option<u16>) -> int {
    let wanted = match limit {
        Some(n) => n as int,
        None => DEFAULT_SEARCH_LIMIT as int,
    };
    if wanted < 1 {
        1
    } else if wanted > MAX_SEARCH_LIMIT {
        MAX_SEARCH_LIMIT as int
    } else {
        wanted
    }
}

/// A parameter without outer white space; none where nothing is left of it.
fn filled_text(parameter: Option<&str>) -> (r: Option<String>)
    ensures
        text::opt_text(r) == filled(text::opt_str(parameter)),
{
    match parameter {
        Some(s) => {
            let t = text::trim_text(s);
            if t.as_str().is_empty() {
                None
            } else {
                Some(t)
            }
        },
        None => None,
    }
}

/// What a search request asks for. It is a bad one exactly where it has no
/// query.
pub fn search_request(
    q: Option<&str>,
    device_id: Option<&str>,
    limit: Option<u16>,
) -> (r: Result<SearchRequest, ApiError>)
    ensures
        filled(text::opt_str(q)) is None ==> r == Err::<SearchRequest, ApiError>(
            ApiError::BadRequest,
        ),
        filled(text::opt_str(q)) is Some ==> {
            &&& r is Ok
            &&& Some(r->Ok_0.query@) == filled(text::opt_str(q))
            &&& text::opt_text(r->Ok_0.device_id) == filled(text::opt_str(device_id))
            &&& r->Ok_0.limit == search_limit(limit)
        },
{
    let query = match required(filled_text(q)) {
        Ok(query) => query,
        Err(e) => return Err(e),
    };
    let wanted: u16 = match limit {
        Some(n) => n,
        None => DEFAULT_SEARCH_LIMIT,
    };
    let clamped: u16 = if wanted < 1 {
        1
    } else if wanted > MAX_SEARCH_LIMIT {
        MAX_SEARCH_LIMIT
    } else {
        wanted
    };
    Ok(SearchRequest { query, device_id: filled_text(device_id), limit: clamped as i64 })
}

// ---------------------------------------------------------------------------
// Laws
// ---------------------------------------------------------------------------
/// Every search gives at least one result's room and at most the most.
pub proof fn law_search_is_bounded(limit: Option<u16>)
    ensures
        1 <= search_limit(limit) <= MAX_SEARCH_LIMIT,
{
}

/// A parameter counts without the white space around it, and not at all where there
/// is nothing else.
pub proof fn law_parameters_are_trimmed(front: Seq<char>, core: Seq<char>, back: Seq<char>)
    requires
        forall|i: int| 0 <= i < front.len() ==> text::is_white_space(#[trigger] front[i]),
        forall|i: int| 0 <= i < back.len() ==> text::is_white_space(#[trigger] back[i]),
        core.len() > 0 ==> !text::is_white_space(core[0]) && !text::is_white_space(core.last()),
    ensures
        filled(Some(front + core + back)) == if core.len() > 0 {
            Some(core)
        } else {
            None
        },
        filled(None) is None,
{
    text::law_trim_takes_the_ends(front, core, back, text::CharClass::WhiteSpace);
}

/// A request gets as many results as it asks for, as long as that is one at least
/// and a hundred at most, and the nearest of these otherwise; twenty-five where it
/// does not ask.
pub proof fn law_search_gives_what_is_asked(n: u16)
    ensures
        1 <= n <= 100 ==> search_limit(Some(n)) == n,
        n < 1 ==> search_limit(Some(n)) == 1,
        n > 100 ==> search_limit(Some(n)) == 100,
        search_limit(None) == 25,
{
}

} // verus!
