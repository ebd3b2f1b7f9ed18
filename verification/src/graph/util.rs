//! Rendering the library's errors as resolver error messages.

use vstd::prelude::*;

use crate::grocery::{FetchError, FetchStep, ParseError};

verus! {

/// The message that each fetch error carries: the step that failed and
/// what went wrong, joined as context.
pub open spec fn error_message(e: FetchError) -> Seq<char> {
    match e {
        FetchError::Request(FetchStep::SetLocation) => "set store location: send request"@,
        FetchError::Request(FetchStep::FetchSpecials) => "fetch weekly specials: send request"@,
        FetchError::BadStatus(FetchStep::SetLocation) => "set store location: bad response"@,
        FetchError::BadStatus(FetchStep::FetchSpecials) => "fetch weekly specials: bad response"@,
        FetchError::Parse(ParseError::InvalidJson) => "parse response: invalid json"@,
        FetchError::Parse(ParseError::MissingItems) => "parse products: missing data"@,
        FetchError::Parse(ParseError::BadRecord) => "parse products: bad record"@,
    }
}

/// Render a fetch error as the message a resolver reports.
pub fn format_error(error: &FetchError) -> (r: String)
    ensures
        r@ == error_message(*error),
{
    match error {
        FetchError::Request(FetchStep::SetLocation) => String::from_str(
            "set store location: send request",
        ),
        FetchError::Request(FetchStep::FetchSpecials) => String::from_str(
            "fetch weekly specials: send request",
        ),
        FetchError::BadStatus(FetchStep::SetLocation) => String::from_str(
            "set store location: bad response",
        ),
        FetchError::BadStatus(FetchStep::FetchSpecials) => String::from_str(
            "fetch weekly specials: bad response",
        ),
        FetchError::Parse(ParseError::InvalidJson) => String::from_str(
            "parse response: invalid json",
        ),
        FetchError::Parse(ParseError::MissingItems) => String::from_str(
            "parse products: missing data",
        ),
        FetchError::Parse(ParseError::BadRecord) => String::from_str("parse products: bad record"),
    }
}

} // verus!
