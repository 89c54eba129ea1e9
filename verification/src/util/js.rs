use vstd::prelude::*;
use vstd::string::StringExecFns;

use crate::error::Error;

verus! {

/// The text of a JavaScript value that was a string, or "unknown".
pub open spec fn string_or_unknown_spec(text: Option<String>) -> Seq<char> {
    match text {
        Some(s) => s@,
        None => "unknown"@,
    }
}

/// The text of a JavaScript value that was a string, or "unknown".
pub fn string_or_unknown(text: Option<String>) -> (r: String)
    ensures
        r@ == string_or_unknown_spec(text),
{
    match text {
        Some(s) => s,
        None => String::from_str("unknown"),
    }
}

/// The outcome of the two futures that forward a tube's bytes to and from a
/// message port: the first failure, as a `JsError` with its text, or success.
pub fn forwarding_outcome(to_port: Result<(), Option<String>>, from_port: Result<(), Option<String>>) -> (r: Result<(), Error>)
    ensures
        to_port is Ok && from_port is Ok ==> r is Ok,
        to_port matches Err(t) ==> (r matches Err(Error::JsError(m)) && m@ == string_or_unknown_spec(t)),
        to_port is Ok ==> (from_port matches Err(t) ==> (r matches Err(Error::JsError(m)) && m@ == string_or_unknown_spec(t))),
{
    match to_port {
        Err(t) => Err(Error::JsError(string_or_unknown(t))),
        Ok(()) => match from_port {
            Err(t) => Err(Error::JsError(string_or_unknown(t))),
            Ok(()) => Ok(()),
        },
    }
}

} // verus!
