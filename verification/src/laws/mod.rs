//! What the translations, the rules and the records promise, said of what goes in and of
//! what comes out.

use crate::json::Jv;
use crate::text;
use vstd::prelude::*;

pub mod chat_stream;
pub mod collectors;
pub mod completion;
pub mod journeys;
pub mod lines;
pub mod lists_shown;
pub mod logins;
pub mod messages_in;
pub mod messages_stream;
pub mod records;
pub mod replies;
pub mod requests_out;
pub mod responses_in;
pub mod responses_stream;
pub mod rules;
pub mod sending;
pub mod targets;
pub mod texts;
pub mod wire;
mod words;

verus! {

/// Whether a value says of itself that it is of some kind, whatever the case.
pub open spec fn is_kind(j: Jv, kind: Seq<char>) -> bool {
    j.get("type"@) matches Some(Jv::Str(t)) && text::lowercase(t) == kind
}

/// A member of a member.
pub open spec fn within(j: Jv, outer: Seq<char>, inner: Seq<char>) -> Option<Jv> {
    match j.get(outer) {
        Some(v) => v.get(inner),
        None => None,
    }
}

/// Whether a member holds that text.
pub open spec fn holds(j: Jv, key: Seq<char>, s: Seq<char>) -> bool {
    j.get(key) == Some(Jv::Str(s))
}

/// The list that a member holds.
pub open spec fn list_in(j: Jv, key: Seq<char>) -> Seq<Jv> {
    match j.get(key) {
        Some(Jv::Arr(s)) => s,
        _ => Seq::empty(),
    }
}

} // verus!
