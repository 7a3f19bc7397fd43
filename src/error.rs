//! The error that every failed resolution step reports.

use vstd::prelude::*;

verus! {

/// The single failure kind of resolution: a human-readable message that
/// names the field, key or table involved.
#[derive(Debug)]
pub struct ResolveError {
    pub message: String,
}

/// A text result as text or error message.
pub open spec fn text_view(r: Result<String, ResolveError>) -> Result<Seq<char>, Seq<char>> {
    match r {
        Ok(s) => Ok(s@),
        Err(e) => Err(e.message@),
    }
}

/// A list of named texts as its entries, or the error message.
pub open spec fn entries_view(r: Result<Vec<(String, String)>, ResolveError>) -> Result<Seq<(Seq<char>, Seq<char>)>, Seq<char>> {
    match r {
        Ok(v) => Ok(v.deep_view()),
        Err(e) => Err(e.message@),
    }
}

/// An error carrying the given message.
pub fn build_invalid_data_error_str(text: &str) -> (r: ResolveError)
    ensures
        r.message@ == text@,
{
    ResolveError { message: String::from_str(text) }
}

/// An error carrying the given message.
pub fn build_invalid_data_error_string(text: String) -> (r: ResolveError)
    ensures
        r.message@ == text@,
{
    ResolveError { message: text }
}

/// An error whose message is `a`, then `x`, then `b`.
pub fn error_with(a: &str, x: &str, b: &str) -> (r: ResolveError)
    ensures
        r.message@ == a@ + x@ + b@,
{
    build_invalid_data_error_string(String::from_str(a).concat(x).concat(b))
}

/// An error whose message is `a`, `x`, `b`, `y` and `c` in turn.
pub fn error_with2(a: &str, x: &str, b: &str, y: &str, c: &str) -> (r: ResolveError)
    ensures
        r.message@ == a@ + x@ + b@ + y@ + c@,
{
    build_invalid_data_error_string(String::from_str(a).concat(x).concat(b).concat(y).concat(c))
}

} // verus!
