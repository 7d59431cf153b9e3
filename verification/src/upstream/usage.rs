//! What is recorded of a request on its way: who carried it, every attempt, what
//! it cost, and what went wrong.
//!
//! Some readings are those of the last report (the account, the upstream model,
//! the usage), some those of the first (the identifier, the first frame, the
//! error), and the attempts are a history.

use crate::json::{Json, Jv};
use crate::json;
use crate::protocol::responses;
use crate::protocol;
use crate::text;
use vstd::prelude::*;
use vstd::string::*;

verus! {

/// At most so many attempts are kept in detail.
pub const MAX_ATTEMPT_DETAILS: usize = 24;

/// The longest text of an error in the detail of an attempt.
pub const MAX_ATTEMPT_ERROR_CHARS: usize = 200;

/// The longest name of an account in the detail of an attempt.
pub const MAX_ATTEMPT_ACCOUNT_CHARS: usize = 60;

/// The longest reason of a retry.
pub const MAX_ATTEMPT_RETRY_REASON_CHARS: usize = 120;

/// The longest notice in the detail of an attempt.
pub const MAX_ATTEMPT_NOTICE_CHARS: usize = 200;

/// A count of tokens, by kind.
#[derive(Clone, Copy, Debug, PartialEq, Eq, Structural)]
pub struct UsageTokens {
    pub prompt: i64,
    pub completion: i64,
    pub total: i64,
    pub cache_read: i64,
}

/// The number under a name.
pub open spec fn number_at(usage: Jv, key: Seq<char>) -> Option<int> {
    match usage.get(key) {
        Some(v) => protocol::rough_i64(v),
        None => None,
    }
}

/// The first of two numbers that is there.
pub open spec fn first_of(a: Option<int>, b: Option<int>) -> Option<int> {
    match a {
        Some(n) => Some(n),
        None => b,
    }
}

/// A number, or another where it is missing.
pub open spec fn number_or(a: Option<int>, b: int) -> int {
    match a {
        Some(n) => n,
        None => b,
    }
}

/// The prompt tokens of a usage report.
pub open spec fn prompt_of(usage: Jv) -> int {
    number_or(first_of(number_at(usage, "prompt_tokens"@), number_at(usage, "input_tokens"@)), 0)
}

/// The completion tokens of a usage report.
pub open spec fn completion_of(usage: Jv) -> int {
    number_or(
        first_of(number_at(usage, "completion_tokens"@), number_at(usage, "output_tokens"@)),
        0,
    )
}

/// All tokens of a usage report; the sum of its parts where it does not say.
pub open spec fn total_of(usage: Jv) -> int {
    number_or(
        number_at(usage, "total_tokens"@),
        responses::clamped(prompt_of(usage) + completion_of(usage)),
    )
}

/// The tokens of a usage report that were read from the cache.
pub open spec fn cache_of(usage: Jv) -> int {
    number_or(
        first_of(
            match usage.get("prompt_tokens_details"@) {
                Some(details) => number_at(details, "cached_tokens"@),
                None => None,
            },
            first_of(
                number_at(usage, "cache_read_tokens"@),
                number_at(usage, "cache_read_input_tokens"@),
            ),
        ),
        0,
    )
}

fn read_number(usage: &Json, key: &str) -> (r: Option<i64>)
    ensures
        r is Some <==> number_at(usage@, key@) is Some,
        r matches Some(n) ==> number_at(usage@, key@) == Some(n as int),
{
    match usage.get(key) {
        Some(v) => protocol::rough(v),
        None => None,
    }
}

fn read_either(usage: &Json, first: &str, second: &str) -> (r: Option<i64>)
    ensures
        r is Some <==> first_of(number_at(usage@, first@), number_at(usage@, second@)) is Some,
        r matches Some(n) ==> first_of(number_at(usage@, first@), number_at(usage@, second@))
            == Some(n as int),
{
    match read_number(usage, first) {
        Some(n) => Some(n),
        None => read_number(usage, second),
    }
}

/// The tokens of a usage report; none where it is no object.
pub fn extract_usage(usage: &Json) -> (r: Option<UsageTokens>)
    ensures
        r is Some <==> usage@ is Obj,
        r matches Some(t) ==> t.prompt == prompt_of(usage@) && t.completion == completion_of(usage@)
            && t.total == total_of(usage@) && t.cache_read == cache_of(usage@),
{
    if !usage.is_obj() {
        return None;
    }
    let prompt = match read_either(usage, "prompt_tokens", "input_tokens") {
        Some(n) => n,
        None => 0,
    };
    let completion = match read_either(usage, "completion_tokens", "output_tokens") {
        Some(n) => n,
        None => 0,
    };
    let total = match read_number(usage, "total_tokens") {
        Some(n) => n,
        None => responses::clamped_sum(prompt, completion),
    };
    let nested = match usage.get("prompt_tokens_details") {
        Some(details) => read_number(details, "cached_tokens"),
        None => None,
    };
    let cache_read = match nested {
        Some(n) => n,
        None => match read_either(usage, "cache_read_tokens", "cache_read_input_tokens") {
            Some(n) => n,
            None => 0,
        },
    };
    Some(UsageTokens { prompt, completion, total, cache_read })
}

/// A word that a rule has matched, and how often.
#[derive(Debug)]
pub struct SensitiveHit {
    pub word: String,
    pub count: i64,
}

/// A retry within one attempt: why, what the upstream had answered, and how long
/// it was put off.
#[derive(Debug)]
pub struct RetryEvent {
    pub reason: String,
    pub status: Option<i64>,
    pub delay_ms: u64,
}

/// One attempt: who carried it, how it ended, and what happened within it.
#[derive(Debug)]
pub struct AttemptDetail {
    pub provider: String,
    pub account: String,
    pub status: Option<i64>,
    pub error: Option<String>,
    pub retries: Vec<RetryEvent>,
    pub notice: Option<String>,
}

/// Everything that is recorded of a request.
#[derive(Debug)]
pub struct TelemetrySnapshot {
    pub attempts: i64,
    pub id: String,
    pub account_id: String,
    pub account_name: String,
    pub provider: Option<String>,
    pub upstream_model: String,
    pub prompt_tokens: i64,
    pub completion_tokens: i64,
    pub total_tokens: i64,
    pub cache_read_tokens: i64,
    pub first_response_at: Option<i64>,
    pub error: Option<String>,
    pub sensitive_hits: Vec<SensitiveHit>,
    pub attempts_detail: Vec<AttemptDetail>,
}

/// A word that a rule has matched, and how often.
#[verifier::ext_equal]
pub struct HitV {
    pub word: Seq<char>,
    pub count: int,
}

/// A retry within one attempt.
#[verifier::ext_equal]
pub struct RetryV {
    pub reason: Seq<char>,
    pub status: Option<i64>,
    pub delay: int,
}

/// One attempt.
#[verifier::ext_equal]
pub struct DetailV {
    pub provider: Seq<char>,
    pub account: Seq<char>,
    pub status: Option<i64>,
    pub error: Option<Seq<char>>,
    pub retries: Seq<RetryV>,
    pub notice: Option<Seq<char>>,
}

/// Everything that is recorded of a request.
#[verifier::ext_equal]
pub struct SnapshotV {
    pub attempts: int,
    pub id: Seq<char>,
    pub account_id: Seq<char>,
    pub account_name: Seq<char>,
    pub provider: Option<Seq<char>>,
    pub upstream_model: Seq<char>,
    pub prompt_tokens: int,
    pub completion_tokens: int,
    pub total_tokens: int,
    pub cache_read_tokens: int,
    pub first_response_at: Option<i64>,
    pub error: Option<Seq<char>>,
    pub hits: Seq<HitV>,
    pub details: Seq<DetailV>,
}

impl View for SensitiveHit {
    type V = HitV;

    open spec fn view(&self) -> HitV {
        HitV { word: self.word@, count: self.count as int }
    }
}

impl View for RetryEvent {
    type V = RetryV;

    open spec fn view(&self) -> RetryV {
        RetryV { reason: self.reason@, status: self.status, delay: self.delay_ms as int }
    }
}

/// What a list of matches says.
pub open spec fn hits_view(v: Seq<SensitiveHit>) -> Seq<HitV> {
    Seq::new(v.len(), |i: int| v[i]@)
}

/// What a list of retries says.
pub open spec fn retries_view(v: Seq<RetryEvent>) -> Seq<RetryV> {
    Seq::new(v.len(), |i: int| v[i]@)
}

impl View for AttemptDetail {
    type V = DetailV;

    open spec fn view(&self) -> DetailV {
        DetailV {
            provider: self.provider@,
            account: self.account@,
            status: self.status,
            error: json::opt_string(self.error),
            retries: retries_view(self.retries@),
            notice: json::opt_string(self.notice),
        }
    }
}

/// What a list of attempts says.
pub open spec fn details_view(v: Seq<AttemptDetail>) -> Seq<DetailV> {
    Seq::new(v.len(), |i: int| v[i]@)
}

impl View for TelemetrySnapshot {
    type V = SnapshotV;

    open spec fn view(&self) -> SnapshotV {
        SnapshotV {
            attempts: self.attempts as int,
            id: self.id@,
            account_id: self.account_id@,
            account_name: self.account_name@,
            provider: json::opt_string(self.provider),
            upstream_model: self.upstream_model@,
            prompt_tokens: self.prompt_tokens as int,
            completion_tokens: self.completion_tokens as int,
            total_tokens: self.total_tokens as int,
            cache_read_tokens: self.cache_read_tokens as int,
            first_response_at: self.first_response_at,
            error: json::opt_string(self.error),
            hits: hits_view(self.sensitive_hits@),
            details: details_view(self.attempts_detail@),
        }
    }
}

/// Nothing recorded.
pub open spec fn empty_snapshot() -> SnapshotV {
    SnapshotV {
        attempts: 0,
        id: Seq::empty(),
        account_id: Seq::empty(),
        account_name: Seq::empty(),
        provider: None,
        upstream_model: Seq::empty(),
        prompt_tokens: 0,
        completion_tokens: 0,
        total_tokens: 0,
        cache_read_tokens: 0,
        first_response_at: None,
        error: None,
        hits: Seq::empty(),
        details: Seq::empty(),
    }
}

/// A text cut to so many characters, with a mark where something was cut off.
pub open spec fn clipped(text: Seq<char>, limit: int) -> Seq<char> {
    if text.len() <= limit {
        text
    } else {
        text.take(limit).push('…')
    }
}

fn truncate_chars(text: &str, limit: usize) -> (r: String)
    ensures
        r@ == clipped(text@, limit as int),
{
    let chars = text::chars_of(text);
    if chars.len() <= limit {
        return text.to_owned();
    }
    let mut out = text::text_between(&chars, 0, limit);
    proof {
        assert(out@ =~= text@.take(limit as int));
    }
    out.push('…');
    out
}

/// What is shown of a request that is still on its way.
#[verifier::ext_equal]
pub struct StampV {
    pub provider: Seq<char>,
    pub account_id: Seq<char>,
    pub account_name: Seq<char>,
    pub upstream_model: Seq<char>,
    pub attempts: int,
    pub first_response_at: Option<i64>,
    pub details: nat,
    pub last_status: Option<i64>,
    pub last_error: bool,
    pub last_retries: nat,
    pub last_notice: bool,
    pub hits: nat,
}

/// What is shown of a request of which nothing has been shown.
pub open spec fn empty_stamp() -> StampV {
    StampV {
        provider: Seq::empty(),
        account_id: Seq::empty(),
        account_name: Seq::empty(),
        upstream_model: Seq::empty(),
        attempts: 0,
        first_response_at: None,
        details: 0,
        last_status: None,
        last_error: false,
        last_retries: 0,
        last_notice: false,
        hits: 0,
    }
}

/// What is shown of a request: the readings, and how the last attempt stands.
pub open spec fn stamp_of(s: SnapshotV) -> StampV {
    let n = s.details.len();
    StampV {
        provider: match s.provider {
            Some(p) => p,
            None => Seq::empty(),
        },
        account_id: s.account_id,
        account_name: s.account_name,
        upstream_model: s.upstream_model,
        attempts: s.attempts,
        first_response_at: s.first_response_at,
        details: n,
        last_status: if n > 0 {
            s.details.last().status
        } else {
            None
        },
        last_error: n > 0 && s.details.last().error is Some,
        last_retries: if n > 0 {
            s.details.last().retries.len()
        } else {
            0
        },
        last_notice: n > 0 && s.details.last().notice is Some,
        hits: s.hits.len(),
    }
}

/// The record of a request: what is recorded, the capture of its traffic where
/// there is one, whether somebody watches, and what was shown last.
#[verifier::ext_equal]
pub struct TelemetryV {
    pub snap: SnapshotV,
    pub capture: Option<u64>,
    pub watched: bool,
    pub stamp: StampV,
}

/// The record of a request that has not begun.
pub open spec fn empty_telemetry() -> TelemetryV {
    TelemetryV {
        snap: empty_snapshot(),
        capture: None,
        watched: false,
        stamp: empty_stamp(),
    }
}

/// Shows the record to whoever watches, where it looks different from the last
/// time; the flag says whether it is to be shown.
pub open spec fn shown(t: TelemetryV) -> (TelemetryV, bool) {
    if !t.watched || stamp_of(t.snap) == t.stamp {
        (t, false)
    } else {
        (TelemetryV { stamp: stamp_of(t.snap), ..t }, true)
    }
}

/// What is shown once is not shown again.
pub proof fn shown_once(t: TelemetryV)
    ensures
        shown(shown(t).0) == (shown(t).0, false),
{
}

/// An identifier for the record; the first one counts.
pub open spec fn with_identifier(t: TelemetryV, id: Seq<char>) -> TelemetryV {
    if t.snap.id.len() > 0 {
        t
    } else {
        TelemetryV { snap: SnapshotV { id, ..t.snap }, ..t }
    }
}

/// One more attempt, with this account and this provider.
pub open spec fn attempted(
    t: TelemetryV,
    account_id: Option<Seq<char>>,
    account_name: Seq<char>,
    provider: Seq<char>,
) -> TelemetryV {
    TelemetryV {
        snap: SnapshotV {
            attempts: protocol::next_index(t.snap.attempts),
            account_id: match account_id {
                Some(id) => id,
                None => Seq::empty(),
            },
            account_name,
            provider: if provider.len() == 0 {
                t.snap.provider
            } else {
                Some(provider)
            },
            ..t.snap
        },
        ..t
    }
}

/// An attempt that has just begun.
pub open spec fn new_detail(provider: Seq<char>, account: Seq<char>) -> DetailV {
    DetailV {
        provider,
        account: clipped(account, MAX_ATTEMPT_ACCOUNT_CHARS as int),
        status: None,
        error: None,
        retries: Seq::empty(),
        notice: None,
    }
}

/// The detail of one more attempt, as long as there is room.
pub open spec fn begun(t: TelemetryV, provider: Seq<char>, account: Seq<char>) -> TelemetryV {
    if t.snap.details.len() >= MAX_ATTEMPT_DETAILS {
        t
    } else {
        TelemetryV {
            snap: SnapshotV {
                details: t.snap.details.push(new_detail(provider, account)),
                ..t.snap
            },
            ..t
        }
    }
}

/// The record with another last attempt.
pub open spec fn with_last(t: TelemetryV, d: DetailV) -> TelemetryV {
    TelemetryV {
        snap: SnapshotV { details: t.snap.details.drop_last().push(d), ..t.snap },
        ..t
    }
}

/// Whether a note about the last attempt has a place: it says something, and there
/// is an attempt.
pub open spec fn noteworthy(t: TelemetryV, text: Seq<char>) -> bool {
    text::trimmed(text).len() > 0 && t.snap.details.len() > 0
}

/// A retry within the last attempt.
pub open spec fn retried(
    t: TelemetryV,
    reason: Seq<char>,
    status: Option<i64>,
    delay: int,
) -> TelemetryV {
    let last = t.snap.details.last();
    with_last(
        t,
        DetailV {
            retries: last.retries.push(
                RetryV {
                    reason: clipped(text::trimmed(reason), MAX_ATTEMPT_RETRY_REASON_CHARS as int),
                    status,
                    delay,
                },
            ),
            ..last
        },
    )
}

/// A notice about the last attempt; the first one counts.
pub open spec fn noticed(t: TelemetryV, notice: Seq<char>) -> TelemetryV {
    let last = t.snap.details.last();
    with_last(
        t,
        DetailV {
            notice: match last.notice {
                Some(n) => Some(n),
                None => Some(clipped(text::trimmed(notice), MAX_ATTEMPT_NOTICE_CHARS as int)),
            },
            ..last
        },
    )
}

/// The end of the last attempt: a status and an error, where there are any.
pub open spec fn finished(
    t: TelemetryV,
    status: Option<i64>,
    error: Option<Seq<char>>,
) -> TelemetryV {
    let last = t.snap.details.last();
    with_last(
        t,
        DetailV {
            status: match status {
                Some(n) => Some(n),
                None => last.status,
            },
            error: match error {
                Some(e) => if e.len() == 0 {
                    last.error
                } else {
                    Some(clipped(e, MAX_ATTEMPT_ERROR_CHARS as int))
                },
                None => last.error,
            },
            ..last
        },
    )
}

/// The place of a word from `i` on, or the length where it is not there.
pub open spec fn hit_place(hits: Seq<HitV>, word: Seq<char>, i: int) -> int
    decreases hits.len() - i,
{
    if i < 0 || i >= hits.len() {
        hits.len() as int
    } else if hits[i].word == word {
        i
    } else {
        hit_place(hits, word, i + 1)
    }
}

/// One more match: it is added to those of the same word.
pub open spec fn add_hit(hits: Seq<HitV>, word: Seq<char>, count: int) -> Seq<HitV> {
    let p = hit_place(hits, word, 0);
    if p < hits.len() {
        hits.update(p, HitV { word, count: responses::clamped(hits[p].count + count) })
    } else {
        hits.push(HitV { word, count })
    }
}

/// A list of words and how often each was matched.
pub open spec fn counts_view(v: Seq<(String, usize)>) -> Seq<(Seq<char>, int)> {
    Seq::new(v.len(), |i: int| (v[i].0@, responses::clamped(v[i].1 as int)))
}

/// The matches after the first `n` of a list.
pub open spec fn add_hits(hits: Seq<HitV>, list: Seq<(Seq<char>, int)>, n: nat) -> Seq<HitV>
    decreases n,
{
    if n == 0 {
        hits
    } else {
        add_hit(add_hits(hits, list, (n - 1) as nat), list[n - 1].0, list[n - 1].1)
    }
}

/// Whether no word stands twice.
pub open spec fn each_word_once(hits: Seq<HitV>) -> bool {
    forall|i: int, j: int|
        0 <= i < j < hits.len() ==> (#[trigger] hits[i]).word != (#[trigger] hits[j]).word
}

proof fn hit_place_finds(hits: Seq<HitV>, word: Seq<char>, i: int)
    requires
        0 <= i <= hits.len(),
    ensures
        i <= hit_place(hits, word, i) <= hits.len(),
        hit_place(hits, word, i) < hits.len() ==> hits[hit_place(hits, word, i)].word == word,
        hit_place(hits, word, i) == hits.len() ==> forall|k: int|
            i <= k < hits.len() ==> (#[trigger] hits[k]).word != word,
    decreases hits.len() - i,
{
    if i < hits.len() && hits[i].word != word {
        hit_place_finds(hits, word, i + 1);
    }
}

/// However many matches are added, no word stands twice.
pub proof fn hits_stay_apart(hits: Seq<HitV>, list: Seq<(Seq<char>, int)>, n: nat)
    requires
        each_word_once(hits),
    ensures
        each_word_once(add_hits(hits, list, n)),
    decreases n,
{
    if n > 0 {
        hits_stay_apart(hits, list, (n - 1) as nat);
        let before = add_hits(hits, list, (n - 1) as nat);
        let word = list[n - 1].0;
        hit_place_finds(before, word, 0);
        let after = add_hits(hits, list, n);
        assert forall|i: int, j: int| 0 <= i < j < after.len() implies (#[trigger] after[i]).word
            != (#[trigger] after[j]).word by {
            if j < before.len() {
                assert(before[i].word != before[j].word);
                assert(after[i].word == before[i].word);
                assert(after[j].word == before[j].word);
            } else {
                assert(after[i] == before[i]);
            }
        }
    }
}

/// Whether a record is in order: the details are those of the first attempts.
pub open spec fn in_step(s: SnapshotV) -> bool {
    &&& 0 <= s.attempts
    &&& s.details.len() == if s.attempts <= MAX_ATTEMPT_DETAILS {
        s.attempts
    } else {
        MAX_ATTEMPT_DETAILS as int
    }
}

/// An attempt that is counted and begun leaves the details in step with the count.
pub proof fn attempts_in_step(
    t: TelemetryV,
    account_id: Option<Seq<char>>,
    account_name: Seq<char>,
    provider: Seq<char>,
)
    requires
        in_step(t.snap),
        t.snap.attempts < i64::MAX,
    ensures
        in_step(begun(attempted(t, account_id, account_name, provider), provider, account_name).snap),
{
}

/// What happens within an attempt leaves the details in step with the count.
pub proof fn notes_in_step(
    t: TelemetryV,
    text: Seq<char>,
    status: Option<i64>,
    error: Option<Seq<char>>,
    delay: int,
)
    requires
        in_step(t.snap),
        t.snap.details.len() > 0,
    ensures
        in_step(retried(t, text, status, delay).snap),
        in_step(noticed(t, text).snap),
        in_step(finished(t, status, error).snap),
{
}

/// The record of a request.
pub struct RequestTelemetry {
    inner: TelemetrySnapshot,
    capture: Option<u64>,
    watched: bool,
    stamp: LiveStamp,
}

struct LiveStamp {
    provider: String,
    account_id: String,
    account_name: String,
    upstream_model: String,
    attempts: i64,
    first_response_at: Option<i64>,
    details: usize,
    last_status: Option<i64>,
    last_error: bool,
    last_retries: usize,
    last_notice: bool,
    hits: usize,
}

impl View for LiveStamp {
    type V = StampV;

    closed spec fn view(&self) -> StampV {
        StampV {
            provider: self.provider@,
            account_id: self.account_id@,
            account_name: self.account_name@,
            upstream_model: self.upstream_model@,
            attempts: self.attempts as int,
            first_response_at: self.first_response_at,
            details: self.details as nat,
            last_status: self.last_status,
            last_error: self.last_error,
            last_retries: self.last_retries as nat,
            last_notice: self.last_notice,
            hits: self.hits as nat,
        }
    }
}

fn same_number(a: Option<i64>, b: Option<i64>) -> (r: bool)
    ensures
        r == (a == b),
{
    match (a, b) {
        (Some(x), Some(y)) => x == y,
        (None, None) => true,
        _ => false,
    }
}

impl LiveStamp {
    fn empty() -> (r: LiveStamp)
        ensures
            r@ == empty_stamp(),
    {
        let r = LiveStamp {
            provider: String::new(),
            account_id: String::new(),
            account_name: String::new(),
            upstream_model: String::new(),
            attempts: 0,
            first_response_at: None,
            details: 0,
            last_status: None,
            last_error: false,
            last_retries: 0,
            last_notice: false,
            hits: 0,
        };
        proof {
            reveal_strlit("");
            assert(r@ =~= empty_stamp());
        }
        r
    }

    fn of(s: &TelemetrySnapshot) -> (r: LiveStamp)
        ensures
            r@ == stamp_of(s@),
    {
        let n = s.attempts_detail.len();
        let mut r = LiveStamp {
            provider: match &s.provider {
                Some(p) => p.clone(),
                None => String::new(),
            },
            account_id: s.account_id.clone(),
            account_name: s.account_name.clone(),
            upstream_model: s.upstream_model.clone(),
            attempts: s.attempts,
            first_response_at: s.first_response_at,
            details: n,
            last_status: None,
            last_error: false,
            last_retries: 0,
            last_notice: false,
            hits: s.sensitive_hits.len(),
        };
        if n > 0 {
            let last = &s.attempts_detail[n - 1];
            r.last_status = last.status;
            r.last_error = last.error.is_some();
            r.last_retries = last.retries.len();
            r.last_notice = last.notice.is_some();
        }
        proof {
            reveal_strlit("");
            assert(r@ =~= stamp_of(s@));
        }
        r
    }

    fn is(&self, other: &LiveStamp) -> (r: bool)
        ensures
            r == (self@ == other@),
    {
        text::same(self.provider.as_str(), other.provider.as_str()) && text::same(
            self.account_id.as_str(),
            other.account_id.as_str(),
        ) && text::same(self.account_name.as_str(), other.account_name.as_str()) && text::same(
            self.upstream_model.as_str(),
            other.upstream_model.as_str(),
        ) && self.attempts == other.attempts && same_number(
            self.first_response_at,
            other.first_response_at,
        ) && self.details == other.details && same_number(self.last_status, other.last_status)
            && self.last_error == other.last_error && self.last_retries == other.last_retries
            && self.last_notice == other.last_notice && self.hits == other.hits
    }
}

impl View for RequestTelemetry {
    type V = TelemetryV;

    closed spec fn view(&self) -> TelemetryV {
        TelemetryV {
            snap: self.inner@,
            capture: self.capture,
            watched: self.watched,
            stamp: self.stamp@,
        }
    }
}

impl RequestTelemetry {
    /// The record of a request that has not begun.
    pub fn new() -> (r: RequestTelemetry)
        ensures
            r@ == empty_telemetry(),
    {
        let inner = TelemetrySnapshot {
            attempts: 0,
            id: String::new(),
            account_id: String::new(),
            account_name: String::new(),
            provider: None,
            upstream_model: String::new(),
            prompt_tokens: 0,
            completion_tokens: 0,
            total_tokens: 0,
            cache_read_tokens: 0,
            first_response_at: None,
            error: None,
            sensitive_hits: Vec::new(),
            attempts_detail: Vec::new(),
        };
        proof {
            reveal_strlit("");
            assert(inner@ =~= empty_snapshot());
        }
        RequestTelemetry { inner, capture: None, watched: false, stamp: LiveStamp::empty() }
    }

    /// The record of a request with an identifier.
    pub fn with_id(id: &str) -> (r: RequestTelemetry)
        ensures
            r@ == with_identifier(empty_telemetry(), id@),
    {
        let mut r = Self::new();
        r.ensure_id(id);
        r
    }

    /// Notes under which number the traffic of the request is captured.
    pub fn set_capture(&mut self, capture: u64)
        ensures
            final(self)@ == (TelemetryV { capture: Some(capture), ..old(self)@ }),
    {
        self.capture = Some(capture);
    }

    /// The number under which the traffic of the request is captured.
    pub fn capture(&self) -> (r: Option<u64>)
        ensures
            r == self@.capture,
    {
        self.capture
    }

    /// Gives the record an identifier, if it has none; an empty one says nothing.
    pub fn ensure_id(&mut self, id: &str)
        ensures
            final(self)@ == with_identifier(old(self)@, id@),
            final(self)@ == after_note(old(self)@, NoteV::Identifier(id@)).0,
    {
        if self.inner.id.as_str().is_empty() {
            proof {
                if id@.len() == 0 {
                    assert(id@ =~= self.inner.id@);
                }
            }
            self.inner.id = id.to_owned();
        }
    }

    /// The identifier of the record.
    pub fn id(&self) -> (r: String)
        ensures
            r@ == self@.snap.id,
    {
        self.inner.id.clone()
    }

    /// From now on somebody watches the record.
    pub fn set_live_sink(&mut self)
        ensures
            final(self)@ == (TelemetryV { watched: true, ..old(self)@ }),
    {
        self.watched = true;
    }

    /// Whether the record is to be shown now.
    fn flush_live(&mut self) -> (r: bool)
        ensures
            (final(self)@, r) == shown(old(self)@),
    {
        if !self.watched {
            return false;
        }
        let next = LiveStamp::of(&self.inner);
        if next.is(&self.stamp) {
            return false;
        }
        self.stamp = next;
        true
    }

    /// Counts an attempt with an account of a provider. Like every note that
    /// follows, the result says whether the record is to be shown.
    pub fn note_attempt(
        &mut self,
        account_id: Option<&str>,
        account_name: &str,
        provider: &str,
    ) -> (r: bool)
        ensures
            (final(self)@, r) == shown(
                attempted(old(self)@, json::opt_text(account_id), account_name@, provider@),
            ),
            (final(self)@, r) == after_note(
                old(self)@,
                (NoteV::Attempt {
                    account_id: json::opt_text(account_id),
                    account_name: account_name@,
                    provider: provider@,
                }),
            ),
    {
        if self.inner.attempts < i64::MAX {
            self.inner.attempts = self.inner.attempts + 1;
        }
        proof {
            reveal_strlit("");
            assert(""@ =~= Seq::empty());
        }
        self.inner.account_id = match account_id {
            Some(id) => id.to_owned(),
            None => String::new(),
        };
        self.inner.account_name = account_name.to_owned();
        if !provider.is_empty() {
            self.inner.provider = Some(provider.to_owned());
        }
        self.flush_live()
    }

    /// Begins the detail of an attempt.
    pub fn note_attempt_started(&mut self, provider: &str, account: &str) -> (r: bool)
        ensures
            (final(self)@, r) == (if old(self)@.snap.details.len() >= MAX_ATTEMPT_DETAILS {
                (old(self)@, false)
            } else {
                shown(begun(old(self)@, provider@, account@))
            }),
            (final(self)@, r) == after_note(
                old(self)@,
                (NoteV::Begun { provider: provider@, account: account@ }),
            ),
    {
        if self.inner.attempts_detail.len() >= MAX_ATTEMPT_DETAILS {
            return false;
        }
        let ghost before = self@;
        let detail = AttemptDetail {
            provider: provider.to_owned(),
            account: truncate_chars(account, MAX_ATTEMPT_ACCOUNT_CHARS),
            status: None,
            error: None,
            retries: Vec::new(),
            notice: None,
        };
        proof {
            assert(detail@ =~= new_detail(provider@, account@));
        }
        self.inner.attempts_detail.push(detail);
        proof {
            assert(self@.snap.details =~= before.snap.details.push(detail@));
        }
        self.flush_live()
    }

    fn take_last(&mut self) -> (r: AttemptDetail)
        requires
            old(self)@.snap.details.len() > 0,
        ensures
            r@ == old(self)@.snap.details.last(),
            final(self)@ == (TelemetryV {
                snap: SnapshotV {
                    details: old(self)@.snap.details.drop_last(),
                    ..old(self)@.snap
                },
                ..old(self)@
            }),
    {
        let ghost before = self@;
        let n = self.inner.attempts_detail.len();
        let last = self.inner.attempts_detail.remove(n - 1);
        proof {
            assert(self@.snap.details =~= before.snap.details.drop_last());
        }
        last
    }

    fn put_last(&mut self, d: AttemptDetail)
        ensures
            final(self)@ == (TelemetryV {
                snap: SnapshotV { details: old(self)@.snap.details.push(d@), ..old(self)@.snap },
                ..old(self)@
            }),
    {
        let ghost before = self@;
        self.inner.attempts_detail.push(d);
        proof {
            assert(self@.snap.details =~= before.snap.details.push(d@));
        }
    }

    /// Notes a retry within the last attempt.
    pub fn note_attempt_retry(&mut self, reason: &str, status: Option<i64>, delay_ms: u64) -> (r: bool)
        ensures
            (final(self)@, r) == (if noteworthy(old(self)@, reason@) {
                shown(retried(old(self)@, reason@, status, delay_ms as int))
            } else {
                (old(self)@, false)
            }),
            (final(self)@, r) == after_note(
                old(self)@,
                (NoteV::Retry { reason: reason@, status, delay: delay_ms as int }),
            ),
    {
        let why = text::trim(reason);
        if why.as_str().is_empty() || self.inner.attempts_detail.len() == 0 {
            return false;
        }
        let mut last = self.take_last();
        let ghost retries = retries_view(last.retries@);
        let event = RetryEvent {
            reason: truncate_chars(why.as_str(), MAX_ATTEMPT_RETRY_REASON_CHARS),
            status,
            delay_ms,
        };
        last.retries.push(event);
        proof {
            assert(retries_view(last.retries@) =~= retries.push(event@));
        }
        self.put_last(last);
        self.flush_live()
    }

    /// Notes something about the last attempt.
    pub fn note_attempt_notice(&mut self, notice: &str) -> (r: bool)
        ensures
            (final(self)@, r) == (if noteworthy(old(self)@, notice@) {
                shown(noticed(old(self)@, notice@))
            } else {
                (old(self)@, false)
            }),
            (final(self)@, r) == after_note(old(self)@, NoteV::Notice(notice@)),
    {
        let what = text::trim(notice);
        if what.as_str().is_empty() || self.inner.attempts_detail.len() == 0 {
            return false;
        }
        let mut last = self.take_last();
        if last.notice.is_none() {
            last.notice = Some(truncate_chars(what.as_str(), MAX_ATTEMPT_NOTICE_CHARS));
        }
        self.put_last(last);
        self.flush_live()
    }

    /// Notes how the last attempt ended.
    pub fn finish_last_attempt(&mut self, status: Option<i64>, error: Option<&str>) -> (r: bool)
        ensures
            (final(self)@, r) == (if old(self)@.snap.details.len() > 0 {
                shown(finished(old(self)@, status, json::opt_text(error)))
            } else {
                (old(self)@, false)
            }),
            (final(self)@, r) == after_note(
                old(self)@,
                (NoteV::Finished { status, error: json::opt_text(error) }),
            ),
    {
        if self.inner.attempts_detail.len() == 0 {
            return false;
        }
        let mut last = self.take_last();
        if status.is_some() {
            last.status = status;
        }
        if let Some(text) = error {
            if !text.is_empty() {
                last.error = Some(truncate_chars(text, MAX_ATTEMPT_ERROR_CHARS));
            }
        }
        self.put_last(last);
        self.flush_live()
    }

    /// Notes under which name the model is sent to the upstream; an empty name
    /// says nothing.
    pub fn note_upstream_model(&mut self, model: &str) -> (r: bool)
        ensures
            (final(self)@, r) == (if model@.len() == 0 {
                (old(self)@, false)
            } else {
                shown(
                    TelemetryV {
                        snap: SnapshotV { upstream_model: model@, ..old(self)@.snap },
                        ..old(self)@
                    },
                )
            }),
            (final(self)@, r) == after_note(old(self)@, NoteV::Model(model@)),
    {
        if model.is_empty() {
            return false;
        }
        self.inner.upstream_model = model.to_owned();
        self.flush_live()
    }

    /// Notes what the upstream says it has cost; something that is no object says
    /// nothing.
    pub fn report_usage(&mut self, usage: &Json)
        ensures
            final(self)@ == usage_reported(old(self)@, usage@),
            final(self)@ == after_note(old(self)@, NoteV::Usage(usage@)).0,
    {
        if let Some(tokens) = extract_usage(usage) {
            self.inner.prompt_tokens = tokens.prompt;
            self.inner.completion_tokens = tokens.completion;
            self.inner.total_tokens = tokens.total;
            self.inner.cache_read_tokens = tokens.cache_read;
        }
    }

    /// Notes when the first frame came; the first time counts.
    pub fn note_first_frame_at(&mut self, now: i64) -> (r: bool)
        ensures
            (final(self)@, r) == shown(first_frame(old(self)@, now)),
            (final(self)@, r) == after_note(old(self)@, NoteV::FirstFrame(now)),
    {
        if self.inner.first_response_at.is_none() {
            self.inner.first_response_at = Some(now);
        }
        self.flush_live()
    }

    /// Notes that the first frame has come; the first time counts.
    pub fn note_first_frame(&mut self) -> (r: bool)
        ensures
            exists|now: i64| (final(self)@, r) == shown(#[trigger] first_frame(old(self)@, now)),
    {
        let now = clock_i64();
        self.note_first_frame_at(now)
    }

    /// Notes what went wrong; the first error counts, and an empty text says nothing.
    pub fn note_error(&mut self, message: &str)
        ensures
            final(self)@ == error_noted(old(self)@, message@),
            final(self)@ == after_note(old(self)@, NoteV::Error(message@)).0,
    {
        if message.is_empty() {
            return;
        }
        if self.inner.error.is_none() {
            self.inner.error = Some(message.to_owned());
        }
    }

    /// Notes which words were matched.
    pub fn note_sensitive_hits(&mut self, term_counts: &Vec<(String, usize)>) -> (r: bool)
        ensures
            (final(self)@, r) == (if term_counts@.len() == 0 {
                (old(self)@, false)
            } else {
                shown(
                    TelemetryV {
                        snap: SnapshotV {
                            hits: add_hits(
                                old(self)@.snap.hits,
                                counts_view(term_counts@),
                                term_counts@.len(),
                            ),
                            ..old(self)@.snap
                        },
                        ..old(self)@
                    },
                )
            }),
            (final(self)@, r) == after_note(old(self)@, NoteV::Hits(counts_view(term_counts@))),
    {
        if term_counts.len() == 0 {
            return false;
        }
        let ghost before = self@;
        let ghost list = counts_view(term_counts@);
        let mut i: usize = 0;
        while i < term_counts.len()
            invariant
                i <= term_counts@.len(),
                list == counts_view(term_counts@),
                self@ == (TelemetryV {
                    snap: SnapshotV {
                        hits: add_hits(before.snap.hits, list, i as nat),
                        ..before.snap
                    },
                    ..before
                }),
            decreases term_counts@.len() - i,
        {
            let count: i64 = if term_counts[i].1 as u64 <= i64::MAX as u64 {
                term_counts[i].1 as i64
            } else {
                i64::MAX
            };
            merge_hit(&mut self.inner.sensitive_hits, term_counts[i].0.as_str(), count);
            i = i + 1;
        }
        self.flush_live()
    }

    /// Everything that is recorded.
    pub fn snapshot(&self) -> (r: TelemetrySnapshot)
        ensures
            r@ == self@.snap,
    {
        copy_snapshot(&self.inner)
    }
}

impl Default for RequestTelemetry {
    fn default() -> (r: RequestTelemetry)
        ensures
            r@ == empty_telemetry(),
    {
        Self::new()
    }
}

/// What the upstream says it has cost; the last report counts.
pub open spec fn usage_reported(t: TelemetryV, usage: Jv) -> TelemetryV {
    if usage !is Obj {
        t
    } else {
        TelemetryV {
            snap: SnapshotV {
                prompt_tokens: prompt_of(usage),
                completion_tokens: completion_of(usage),
                total_tokens: total_of(usage),
                cache_read_tokens: cache_of(usage),
                ..t.snap
            },
            ..t
        }
    }
}

/// When the first frame came; the first time counts.
pub open spec fn first_frame(t: TelemetryV, now: i64) -> TelemetryV {
    TelemetryV {
        snap: SnapshotV {
            first_response_at: match t.snap.first_response_at {
                Some(at) => Some(at),
                None => Some(now),
            },
            ..t.snap
        },
        ..t
    }
}

/// What went wrong; the first error counts.
pub open spec fn error_noted(t: TelemetryV, message: Seq<char>) -> TelemetryV {
    if message.len() == 0 || t.snap.error is Some {
        t
    } else {
        TelemetryV { snap: SnapshotV { error: Some(message), ..t.snap }, ..t }
    }
}

// ---------------------------------------------------------------------- laws

/// What is noted in a record.
pub enum NoteV {
    Identifier(Seq<char>),
    Capture(u64),
    Watch,
    Attempt { account_id: Option<Seq<char>>, account_name: Seq<char>, provider: Seq<char> },
    Begun { provider: Seq<char>, account: Seq<char> },
    Retry { reason: Seq<char>, status: Option<i64>, delay: int },
    Notice(Seq<char>),
    Finished { status: Option<i64>, error: Option<Seq<char>> },
    Model(Seq<char>),
    Usage(Jv),
    FirstFrame(i64),
    Error(Seq<char>),
    Hits(Seq<(Seq<char>, int)>),
}

/// The record after a note, and whether it is to be shown.
pub open spec fn after_note(t: TelemetryV, note: NoteV) -> (TelemetryV, bool) {
    match note {
        NoteV::Identifier(id) => (with_identifier(t, id), false),
        NoteV::Capture(n) => (TelemetryV { capture: Some(n), ..t }, false),
        NoteV::Watch => (TelemetryV { watched: true, ..t }, false),
        NoteV::Attempt { account_id, account_name, provider } => shown(
            attempted(t, account_id, account_name, provider),
        ),
        NoteV::Begun { provider, account } => if t.snap.details.len() >= MAX_ATTEMPT_DETAILS {
            (t, false)
        } else {
            shown(begun(t, provider, account))
        },
        NoteV::Retry { reason, status, delay } => if noteworthy(t, reason) {
            shown(retried(t, reason, status, delay))
        } else {
            (t, false)
        },
        NoteV::Notice(notice) => if noteworthy(t, notice) {
            shown(noticed(t, notice))
        } else {
            (t, false)
        },
        NoteV::Finished { status, error } => if t.snap.details.len() > 0 {
            shown(finished(t, status, error))
        } else {
            (t, false)
        },
        NoteV::Model(model) => if model.len() == 0 {
            (t, false)
        } else {
            shown(TelemetryV { snap: SnapshotV { upstream_model: model, ..t.snap }, ..t })
        },
        NoteV::Usage(usage) => (usage_reported(t, usage), false),
        NoteV::FirstFrame(now) => shown(first_frame(t, now)),
        NoteV::Error(message) => (error_noted(t, message), false),
        NoteV::Hits(list) => if list.len() == 0 {
            (t, false)
        } else {
            shown(
                TelemetryV {
                    snap: SnapshotV { hits: add_hits(t.snap.hits, list, list.len()), ..t.snap },
                    ..t
                },
            )
        },
    }
}

/// The record after the first `n` notes, from a new one on.
pub open spec fn after_notes(notes: Seq<NoteV>, n: nat) -> TelemetryV
    decreases n,
{
    if n == 0 {
        empty_telemetry()
    } else {
        after_note(after_notes(notes, (n - 1) as nat), notes[n - 1]).0
    }
}

/// Whether nothing was shown with the time of a first frame that has not come.
pub open spec fn shown_truly(t: TelemetryV) -> bool {
    t.snap.first_response_at is None ==> t.stamp.first_response_at is None
}

/// Whatever is noted, nothing is shown with the time of a first frame before it has come.
pub proof fn records_are_shown_truly(notes: Seq<NoteV>, n: nat)
    ensures
        shown_truly(after_notes(notes, n)),
    decreases n,
{
    if n > 0 {
        records_are_shown_truly(notes, (n - 1) as nat);
    }
}

/// The record after the first frame is noted `n` times more.
pub open spec fn frames_again(t: TelemetryV, times: Seq<i64>, n: nat) -> (TelemetryV, bool)
    decreases n,
{
    if n == 0 {
        (t, false)
    } else {
        let (before, told) = frames_again(t, times, (n - 1) as nat);
        let (after, more) = after_note(before, NoteV::FirstFrame(times[n - 1]));
        (after, told || more)
    }
}

/// Where somebody watches a record, however it came about, the first frame is noted with its
/// time and shown, and noting it again any number of times changes nothing and shows nothing.
pub proof fn first_frame_is_shown_once(notes: Seq<NoteV>, now: i64, times: Seq<i64>)
    requires
        after_notes(notes, notes.len()).watched,
        after_notes(notes, notes.len()).snap.first_response_at is None,
    ensures
        ({
            let before = after_notes(notes, notes.len());
            let (after, told) = after_note(before, NoteV::FirstFrame(now));
            &&& told
            &&& after.snap == (SnapshotV { first_response_at: Some(now), ..before.snap })
            &&& frames_again(after, times, times.len()) == (after, false)
        }),
{
    records_are_shown_truly(notes, notes.len());
    let before = after_notes(notes, notes.len());
    let (after, told) = after_note(before, NoteV::FirstFrame(now));
    assert(stamp_of(first_frame(before, now).snap).first_response_at == Some(now));
    assert(told);
    frames_stay(after, times, times.len());
}

proof fn frames_stay(t: TelemetryV, times: Seq<i64>, n: nat)
    requires
        t.snap.first_response_at is Some,
        stamp_of(t.snap) == t.stamp,
    ensures
        frames_again(t, times, n) == (t, false),
    decreases n,
{
    if n > 0 {
        frames_stay(t, times, (n - 1) as nat);
        assert(first_frame(t, times[n - 1]) == t);
    }
}

/// The clock in milliseconds as a signed number.
pub(crate) fn clock_i64() -> (r: i64)
    ensures
        r >= 0,
{
    let now = protocol::clock_ms();
    if now <= i64::MAX as u64 {
        now as i64
    } else {
        i64::MAX
    }
}

fn merge_hit(hits: &mut Vec<SensitiveHit>, word: &str, count: i64)
    ensures
        hits_view(final(hits)@) == add_hit(hits_view(old(hits)@), word@, count as int),
{
    let ghost before = hits_view(hits@);
    let mut p: usize = 0;
    while p < hits.len() && !text::same(hits[p].word.as_str(), word)
        invariant
            p <= hits@.len(),
            before == hits_view(hits@),
            hit_place(before, word@, 0) == hit_place(before, word@, p as int),
        decreases hits@.len() - p,
    {
        p = p + 1;
    }
    if p < hits.len() {
        let sum = responses::clamped_sum(hits[p].count, count);
        hits.set(p, SensitiveHit { word: word.to_owned(), count: sum });
    } else {
        hits.push(SensitiveHit { word: word.to_owned(), count });
    }
    proof {
        assert(hits_view(hits@) =~= add_hit(before, word@, count as int));
    }
}

fn copy_text(t: &Option<String>) -> (r: Option<String>)
    ensures
        json::opt_string(r) == json::opt_string(*t),
{
    match t {
        Some(s) => Some(s.clone()),
        None => None,
    }
}

fn copy_detail(d: &AttemptDetail) -> (r: AttemptDetail)
    ensures
        r@ == d@,
{
    let mut retries: Vec<RetryEvent> = Vec::new();
    let ghost want = retries_view(d.retries@);
    let mut i: usize = 0;
    while i < d.retries.len()
        invariant
            i <= d.retries@.len(),
            want == retries_view(d.retries@),
            retries_view(retries@) == want.take(i as int),
        decreases d.retries@.len() - i,
    {
        let e = &d.retries[i];
        let one = RetryEvent { reason: e.reason.clone(), status: e.status, delay_ms: e.delay_ms };
        proof {
            assert(one@ == want[i as int]);
            assert(retries_view(retries@.push(one)) =~= retries_view(retries@).push(one@));
            assert(want.take(i as int).push(want[i as int]) =~= want.take(i as int + 1));
        }
        retries.push(one);
        i = i + 1;
    }
    proof {
        assert(want.take(d.retries@.len() as int) =~= want);
    }
    AttemptDetail {
        provider: d.provider.clone(),
        account: d.account.clone(),
        status: d.status,
        error: copy_text(&d.error),
        retries,
        notice: copy_text(&d.notice),
    }
}

fn copy_snapshot(s: &TelemetrySnapshot) -> (r: TelemetrySnapshot)
    ensures
        r@ == s@,
{
    let mut hits: Vec<SensitiveHit> = Vec::new();
    let ghost all_hits = hits_view(s.sensitive_hits@);
    let mut i: usize = 0;
    while i < s.sensitive_hits.len()
        invariant
            i <= s.sensitive_hits@.len(),
            all_hits == hits_view(s.sensitive_hits@),
            hits_view(hits@) == all_hits.take(i as int),
        decreases s.sensitive_hits@.len() - i,
    {
        let h = &s.sensitive_hits[i];
        let one = SensitiveHit { word: h.word.clone(), count: h.count };
        proof {
            assert(one@ == all_hits[i as int]);
            assert(hits_view(hits@.push(one)) =~= hits_view(hits@).push(one@));
            assert(all_hits.take(i as int).push(all_hits[i as int]) =~= all_hits.take(i as int + 1));
        }
        hits.push(one);
        i = i + 1;
    }
    let mut details: Vec<AttemptDetail> = Vec::new();
    let ghost all_details = details_view(s.attempts_detail@);
    let mut j: usize = 0;
    while j < s.attempts_detail.len()
        invariant
            j <= s.attempts_detail@.len(),
            all_details == details_view(s.attempts_detail@),
            details_view(details@) == all_details.take(j as int),
        decreases s.attempts_detail@.len() - j,
    {
        let one = copy_detail(&s.attempts_detail[j]);
        proof {
            assert(one@ == all_details[j as int]);
            assert(details_view(details@.push(one)) =~= details_view(details@).push(one@));
            assert(all_details.take(j as int).push(all_details[j as int]) =~= all_details.take(j as int + 1));
        }
        details.push(one);
        j = j + 1;
    }
    proof {
        assert(all_hits.take(s.sensitive_hits@.len() as int) =~= all_hits);
        assert(all_details.take(s.attempts_detail@.len() as int) =~= all_details);
    }
    TelemetrySnapshot {
        attempts: s.attempts,
        id: s.id.clone(),
        account_id: s.account_id.clone(),
        account_name: s.account_name.clone(),
        provider: copy_text(&s.provider),
        upstream_model: s.upstream_model.clone(),
        prompt_tokens: s.prompt_tokens,
        completion_tokens: s.completion_tokens,
        total_tokens: s.total_tokens,
        cache_read_tokens: s.cache_read_tokens,
        first_response_at: s.first_response_at,
        error: copy_text(&s.error),
        sensitive_hits: hits,
        attempts_detail: details,
    }
}

} // verus!
