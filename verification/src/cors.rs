//! The cross-origin headers the local API answers with, so that the web
//! point of sale may call it from the browser.

use vstd::prelude::*;
use crate::text::{chars_eq_str, chars_of};

verus! {

/// A request is a CORS preflight when its method is `OPTIONS`.
pub fn is_preflight(method: &str) -> (res: bool)
    ensures
        res == (method@ == "OPTIONS"@),
{
    let m = chars_of(method);
    chars_eq_str(m.as_slice(), "OPTIONS")
}

/// The headers added to a response: a preflight is answered with the
/// allowed origin, methods and headers and private-network access; any
/// other response gets the allowed origin and private-network access.
pub open spec fn cors_header_list(preflight: bool) -> Seq<(&'static str, &'static str)> {
    if preflight {
        seq![
            ("Access-Control-Allow-Origin", "*"),
            ("Access-Control-Allow-Methods", "GET, PUT, POST, OPTIONS"),
            ("Access-Control-Allow-Headers", "*"),
            ("Access-Control-Allow-Private-Network", "true"),
        ]
    } else {
        seq![("Access-Control-Allow-Origin", "*"), ("Access-Control-Allow-Private-Network", "true")]
    }
}

/// The headers to add, in order (see `cors_header_list`).
pub fn cors_headers(preflight: bool) -> (res: Vec<(&'static str, &'static str)>)
    ensures
        res@ == cors_header_list(preflight),
{
    let mut res: Vec<(&'static str, &'static str)> = Vec::new();
    res.push(("Access-Control-Allow-Origin", "*"));
    if preflight {
        res.push(("Access-Control-Allow-Methods", "GET, PUT, POST, OPTIONS"));
        res.push(("Access-Control-Allow-Headers", "*"));
    }
    res.push(("Access-Control-Allow-Private-Network", "true"));
    assert(res@ =~= cors_header_list(preflight));
    res
}

} // verus!
