//! The naming scheme of the service's environment variables. Reading the
//! environment itself happens outside the library.

use vstd::prelude::*;

verus! {

/// The prefix under which all of the service's variables live.
pub const NAMESPACE: &'static str = "API";

/// The upper-case form of text.
pub uninterp spec fn upper_of(s: Seq<char>) -> Seq<char>;

/// Relies on `str::to_uppercase`: the Unicode upper-case form, a function
/// of the characters alone.
#[verifier::external_body]
fn to_upper(s: &str) -> (r: String)
    ensures
        r@ == upper_of(s@),
{
    s.to_uppercase()
}

/// The environment variable that holds a named setting: the namespace, an
/// underscore, and the name in upper case.
pub fn key(name: &str) -> (r: String)
    ensures
        r@ == "API_"@ + upper_of(name@),
{
    let mut s = String::from_str(NAMESPACE);
    s.append("_");
    let upper = to_upper(name);
    s.append(upper.as_str());
    proof {
        reveal_strlit("API");
        reveal_strlit("_");
        reveal_strlit("API_");
        assert(s@ =~= "API_"@ + upper_of(name@));
    }
    s
}

} // verus!
