//! Helpers of the program's session around the tutor.
use vstd::prelude::*;
use vstd::string::*;

verus! {

/// Two optional warnings joined: both separated by `; `, or whichever is present.
pub open spec fn joined(first: Option<Seq<char>>, second: Option<Seq<char>>) -> Option<Seq<char>> {
    match (first, second) {
        (Some(a), Some(b)) => Some(a + "; "@ + b),
        (Some(a), None) => Some(a),
        (None, Some(b)) => Some(b),
        (None, None) => None,
    }
}

/// The text of an optional string.
pub open spec fn text_opt(s: Option<String>) -> Option<Seq<char>> {
    match s {
        Some(t) => Some(t@),
        None => None,
    }
}

/// Joins the configuration and the practice-data warnings into one.
pub fn join_warnings(first: Option<String>, second: Option<String>) -> (r: Option<String>)
    ensures
        text_opt(r) == joined(text_opt(first), text_opt(second)),
{
    match (first, second) {
        (Some(a), Some(b)) => {
            let mut s = a;
            proof { reveal_strlit("; "); }
            s.append("; ");
            s.append(b.as_str());
            Some(s)
        },
        (Some(value), None) => Some(value),
        (None, Some(value)) => Some(value),
        (None, None) => None,
    }
}

} // verus!
