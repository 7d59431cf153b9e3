//! Times as texts.

use crate::json;
use crate::protocol::responses;
use crate::text;
use vstd::prelude::*;
use vstd::string::*;

verus! {

/// A time, in milliseconds since 1970, as `chrono` writes it with a pattern for the zone
/// that many seconds east of Greenwich; none where it has no date for it, or where there is
/// no such zone.
pub uninterp spec fn rendered_time(ms: int, east: int, pattern: Seq<char>) -> Option<Seq<char>>;

/// The time that a date in the form of mail and web headers names, in milliseconds
/// since 1970, as `chrono` reads it; none where it is no such date.
pub uninterp spec fn header_date(text: Seq<char>) -> Option<i64>;

/// The zone in which times are written, in seconds east of Greenwich: eight hours.
pub const ZONE: i32 = 28800;

/// The pattern with slashes.
pub const SLASHES: &'static str = "%Y/%m/%d %H:%M:%S";

/// The pattern with hyphens that names its zone.
pub const HYPHENS: &'static str = "%Y-%m-%d %H:%M:%S UTC+8";

/// `chrono::DateTime::from_timestamp_millis`, moved with `with_timezone` to the
/// `FixedOffset` of `east_opt` and written with `format`. The result depends on the
/// time, the offset and the pattern alone: no locale and no zone of the machine is
/// asked. `format` fails on a pattern that it does not know, so only the two
/// patterns of this module are given to it.
#[verifier::external_body]
fn render(ms: i64, east: i32, pattern: &str) -> (r: Option<String>)
    requires
        pattern@ == SLASHES@ || pattern@ == HYPHENS@,
    ensures
        json::opt_string(r) == rendered_time(ms as int, east as int, pattern@),
{
    let utc = chrono::DateTime::from_timestamp_millis(ms)?;
    let zone = chrono::FixedOffset::east_opt(east)?;
    Some(utc.with_timezone(&zone).format(pattern).to_string())
}

/// `chrono::DateTime::parse_from_rfc2822`, and `timestamp_millis` of what it gives;
/// the error is dropped.
#[verifier::external_body]
fn read_header_date(text: &str) -> (r: Option<i64>)
    ensures
        r == header_date(text@),
{
    chrono::DateTime::parse_from_rfc2822(text).ok().map(|date| date.timestamp_millis())
}

/// A time as a text, or an empty text where it has no date.
pub open spec fn time_text(ms: int, pattern: Seq<char>) -> Seq<char> {
    match rendered_time(ms, ZONE as int, pattern) {
        Some(s) => s,
        None => Seq::empty(),
    }
}

fn time_or_empty(ms: i64, pattern: &str) -> (r: String)
    requires
        pattern@ == SLASHES@ || pattern@ == HYPHENS@,
    ensures
        r@ == time_text(ms as int, pattern@),
{
    match render(ms, ZONE, pattern) {
        Some(s) => s,
        None => {
            proof {
                reveal_strlit("");
                assert(""@ =~= Seq::empty());
            }
            String::new()
        },
    }
}

/// A time as a text with hyphens that names its zone.
pub fn reset_text_at(reset_at: i64) -> (r: String)
    ensures
        r@ == time_text(reset_at as int, HYPHENS@),
{
    time_or_empty(reset_at, HYPHENS)
}

/// Whether the double behind the bits is above zero.
pub open spec fn is_positive(bits: u64) -> bool {
    0 < bits <= 0x7ff0_0000_0000_0000
}

/// The text for the end of a limit: empty where the time is not above zero or has
/// no date.
pub open spec fn limit_end(bits: u64) -> Seq<char> {
    if is_positive(bits) {
        time_text(json::float_trunc(bits), SLASHES@)
    } else {
        Seq::empty()
    }
}

/// The text for the end of a limit, given by the bits of the time in milliseconds.
pub fn format_reset_text(reset_at: u64) -> (r: String)
    ensures
        r@ == limit_end(reset_at),
{
    if reset_at == 0 || reset_at > 0x7ff0_0000_0000_0000 {
        proof {
            reveal_strlit("");
            assert(""@ =~= Seq::empty());
        }
        return String::new();
    }
    time_or_empty(json::trunc_bits(reset_at), SLASHES)
}

/// The hint that goes with a limit: until when it lasts.
pub open spec fn hint_of(text: Seq<char>) -> Seq<char> {
    if text.len() == 0 {
        Seq::empty()
    } else {
        "（"@ + text + " 恢复）"@
    }
}

/// The hint that goes with a limit.
pub fn reset_hint(reset_text: &str) -> (r: String)
    ensures
        r@ == hint_of(reset_text@),
{
    if reset_text.is_empty() {
        proof {
            reveal_strlit("");
            assert(""@ =~= Seq::empty());
        }
        return String::new();
    }
    text::join3("（", reset_text, " 恢复）")
}

/// A date as a text, where it has one that says something.
pub open spec fn date_said(rendered: Option<Seq<char>>) -> Option<Seq<char>> {
    match rendered {
        Some(s) => if s.len() == 0 {
            None
        } else {
            Some(s)
        },
        None => None,
    }
}

/// A date as a text, where it has one that says something.
pub fn date_text(rendered: Option<String>) -> (r: Option<String>)
    ensures
        json::opt_string(r) == date_said(json::opt_string(rendered)),
{
    match rendered {
        Some(s) => if s.as_str().is_empty() {
            None
        } else {
            Some(s)
        },
        None => None,
    }
}

/// The end of a limit by the header `Retry-After`, as a text: a number of seconds
/// from now, or a date. A number that is not above zero, a date without a text and
/// anything else say nothing.
pub open spec fn retry_after_text(header: Seq<char>, now: int) -> Option<Seq<char>> {
    let text = text::trimmed(header);
    match text::parsed_int(text) {
        Some(seconds) => if seconds > 0 {
            Some(time_text(responses::clamped(now + responses::clamped(seconds * 1000)), HYPHENS@))
        } else {
            None
        },
        None => match header_date(text) {
            Some(ms) => date_said(rendered_time(ms as int, ZONE as int, HYPHENS@)),
            None => None,
        },
    }
}

/// The end of a limit by the header `Retry-After`; `now` is the clock in
/// milliseconds.
pub fn retry_after_reset_text(header: &str, now: i64) -> (r: Option<String>)
    ensures
        json::opt_string(r) == retry_after_text(header@, now as int),
{
    let text = text::trim(header);
    match text::parse_int(text.as_str()) {
        Some(seconds) => if seconds > 0 {
            let delay: i64 = if seconds <= 9223372036854775 {
                seconds * 1000
            } else {
                i64::MAX
            };
            Some(reset_text_at(responses::clamped_sum(now, delay)))
        } else {
            None
        },
        None => match read_header_date(text.as_str()) {
            Some(ms) => date_text(render(ms, ZONE, HYPHENS)),
            None => None,
        },
    }
}

} // verus!
