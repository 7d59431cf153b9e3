//! What is kept of a request while it is on its way.

use crate::json::Jv;
use crate::laws::within;
use crate::text;
use crate::upstream::usage::{DetailV, HitV, NoteV, RetryV, TelemetryV};
use crate::upstream::usage;
use vstd::prelude::*;
use vstd::string::*;

verus! {

/// A text as it is kept: whole where it is short enough, cut with a mark otherwise.
pub open spec fn kept_short(kept: Seq<char>, whole: Seq<char>, limit: int) -> bool {
    &&& whole.len() <= limit ==> kept == whole
    &&& whole.len() > limit ==> kept.len() == limit + 1 && kept.take(limit) == whole.take(limit)
        && kept.last() == '…'
}

/// The counts of a usage report in the words of the chat protocol are kept; where all of them
/// are not told, it is the sum.
pub proof fn chat_counts_are_kept(t: TelemetryV, u: Map<Seq<char>, Jv>, i: int, o: int)
    requires
        Jv::Obj(u).get("prompt_tokens"@) == Some(Jv::Int(i)),
        Jv::Obj(u).get("completion_tokens"@) == Some(Jv::Int(o)),
        0 <= i <= i64::MAX,
        0 <= o <= i64::MAX - i,
    ensures
        ({
            let after = usage::after_note(t, NoteV::Usage(Jv::Obj(u))).0.snap;
            &&& after.prompt_tokens == i
            &&& after.completion_tokens == o
            &&& Jv::Obj(u).get("total_tokens"@) is None ==> after.total_tokens == i + o
            &&& (Jv::Obj(u).get("total_tokens"@) matches Some(Jv::Int(n)) ==> 0 <= n <= i64::MAX
                ==> after.total_tokens == n)
            &&& (within(Jv::Obj(u), "prompt_tokens_details"@, "cached_tokens"@) matches Some(Jv::Int(n))
                ==> 0 <= n <= i64::MAX ==> after.cache_read_tokens == n)
            &&& after.attempts == t.snap.attempts
            &&& after.details == t.snap.details
        }),
{
}

/// So are those in the words of the Messages protocol.
pub proof fn message_counts_are_kept(t: TelemetryV, u: Map<Seq<char>, Jv>, i: int, o: int, c: int)
    requires
        Jv::Obj(u).get("prompt_tokens"@) is None,
        Jv::Obj(u).get("completion_tokens"@) is None,
        Jv::Obj(u).get("total_tokens"@) is None,
        Jv::Obj(u).get("prompt_tokens_details"@) is None,
        Jv::Obj(u).get("cache_read_tokens"@) is None,
        Jv::Obj(u).get("input_tokens"@) == Some(Jv::Int(i)),
        Jv::Obj(u).get("output_tokens"@) == Some(Jv::Int(o)),
        Jv::Obj(u).get("cache_read_input_tokens"@) == Some(Jv::Int(c)),
        0 <= i <= i64::MAX,
        0 <= o <= i64::MAX - i,
        0 <= c <= i64::MAX,
    ensures
        ({
            let after = usage::after_note(t, NoteV::Usage(Jv::Obj(u))).0.snap;
            &&& after.prompt_tokens == i
            &&& after.completion_tokens == o
            &&& after.total_tokens == i + o
            &&& after.cache_read_tokens == c
        }),
{
}

/// An attempt is counted, with the account and the provider; a provider that is not named stays
/// the one before.
pub proof fn attempts_are_counted(
    t: TelemetryV,
    account: Option<Seq<char>>,
    name: Seq<char>,
    provider: Seq<char>,
)
    requires
        0 <= t.snap.attempts < i64::MAX,
    ensures
        ({
            let note = NoteV::Attempt { account_id: account, account_name: name, provider };
            let after = usage::after_note(t, note).0.snap;
            &&& after.attempts == t.snap.attempts + 1
            &&& (account matches Some(id) ==> after.account_id == id)
            &&& account is None ==> after.account_id.len() == 0
            &&& after.account_name == name
            &&& provider.len() > 0 ==> after.provider == Some(provider)
            &&& provider.len() == 0 ==> after.provider == t.snap.provider
            &&& after.details == t.snap.details
        }),
{
}

/// The details of an attempt begin with its provider and its account; there are no more than
/// twenty-four of them.
pub proof fn details_begin(t: TelemetryV, provider: Seq<char>, account: Seq<char>)
    ensures
        ({
            let note = NoteV::Begun { provider, account };
            let (after, told) = usage::after_note(t, note);
            let d = after.snap.details.last();
            &&& t.snap.details.len() >= 24 ==> after == t && !told
            &&& t.snap.details.len() < 24 ==> {
                &&& after.snap.details.drop_last() == t.snap.details
                &&& d.provider == provider
                &&& kept_short(d.account, account, 60)
                &&& d.status is None && d.error is None && d.notice is None && d.retries.len() == 0
            }
        }),
{
    let note = NoteV::Begun { provider, account };
    let after = usage::after_note(t, note).0;
    let d = after.snap.details.last();
    if t.snap.details.len() < 24 {
        assert(after.snap.details.drop_last() =~= t.snap.details);
        if account.len() > 60 {
            assert(d.account.take(60) =~= account.take(60));
        }
    }
}

/// A further try is noted with the last attempt, with its reason, its status and its delay; a
/// blank reason is none.
pub proof fn retries_are_noted(
    t: TelemetryV,
    reason: Seq<char>,
    status: Option<i64>,
    delay: int,
)
    requires
        t.snap.details.len() > 0,
    ensures
        ({
            let note = NoteV::Retry { reason, status, delay };
            let after = usage::after_note(t, note).0;
            let d = after.snap.details.last();
            let before = t.snap.details.last();
            &&& text::trimmed(reason).len() == 0 ==> after == t
            &&& text::trimmed(reason).len() > 0 ==> {
                &&& after.snap.details.len() == t.snap.details.len()
                &&& after.snap.details.drop_last() == t.snap.details.drop_last()
                &&& d.retries.drop_last() == before.retries
                &&& d.retries.len() == before.retries.len() + 1
                &&& kept_short(d.retries.last().reason, text::trimmed(reason), 120)
                &&& d.retries.last().status == status
                &&& d.retries.last().delay == delay
                &&& d.status == before.status && d.error == before.error && d.notice == before.notice
            }
        }),
{
    let note = NoteV::Retry { reason, status, delay };
    let after = usage::after_note(t, note).0;
    let d = after.snap.details.last();
    let before = t.snap.details.last();
    let trimmed = text::trimmed(reason);
    if trimmed.len() > 0 {
        assert(after.snap.details.drop_last() =~= t.snap.details.drop_last());
        assert(d.retries.drop_last() =~= before.retries);
        if trimmed.len() > 120 {
            assert(d.retries.last().reason.take(120) =~= trimmed.take(120));
        }
    }
}

/// The first notice of an attempt stays.
pub proof fn first_notice_stays(t: TelemetryV, notice: Seq<char>)
    requires
        t.snap.details.len() > 0,
        text::trimmed(notice).len() > 0,
    ensures
        ({
            let d = usage::after_note(t, NoteV::Notice(notice)).0.snap.details.last();
            let before = t.snap.details.last();
            &&& before.notice is Some ==> d.notice == before.notice
            &&& before.notice is None ==> (d.notice matches Some(n) && kept_short(
                n,
                text::trimmed(notice),
                200,
            ))
            &&& d.retries == before.retries && d.status == before.status && d.error == before.error
        }),
{
    let d = usage::after_note(t, NoteV::Notice(notice)).0.snap.details.last();
    let trimmed = text::trimmed(notice);
    if t.snap.details.last().notice is None && trimmed.len() > 200 {
        assert(d.notice->0.take(200) =~= trimmed.take(200));
    }
}

/// An attempt ends with its status and its error; what is not told stays as it was.
pub proof fn endings_are_noted(t: TelemetryV, status: Option<i64>, error: Option<Seq<char>>)
    requires
        t.snap.details.len() > 0,
    ensures
        ({
            let note = NoteV::Finished { status, error };
            let after = usage::after_note(t, note).0.snap;
            let d = after.details.last();
            let before = t.snap.details.last();
            &&& after.details.len() == t.snap.details.len()
            &&& after.details.drop_last() == t.snap.details.drop_last()
            &&& status is Some ==> d.status == status
            &&& status is None ==> d.status == before.status
            &&& (error matches Some(e) ==> e.len() > 0 ==> (d.error matches Some(k) && kept_short(
                k,
                e,
                200,
            )))
            &&& error is None ==> d.error == before.error
            &&& d.retries == before.retries && d.notice == before.notice && d.provider
                == before.provider && d.account == before.account
        }),
{
    let note = NoteV::Finished { status, error };
    let after = usage::after_note(t, note).0.snap;
    assert(after.details.drop_last() =~= t.snap.details.drop_last());
    if let Some(e) = error {
        if e.len() > 200 {
            assert(after.details.last().error->0.take(200) =~= e.take(200));
        }
    }
}

/// The first frame, the first error and the first identifier stay; the last model counts.
pub proof fn first_things_stay(t: TelemetryV, now: i64, message: Seq<char>, id: Seq<char>, model: Seq<char>)
    requires
        message.len() > 0,
        model.len() > 0,
    ensures
        usage::after_note(t, NoteV::FirstFrame(now)).0.snap.first_response_at == (
        match t.snap.first_response_at {
            Some(at) => Some(at),
            None => Some(now),
        }),
        usage::after_note(t, NoteV::Error(message)).0.snap.error == (match t.snap.error {
            Some(e) => Some(e),
            None => Some(message),
        }),
        usage::after_note(t, NoteV::Identifier(id)).0.snap.id == if t.snap.id.len() > 0 {
            t.snap.id
        } else {
            id
        },
        usage::after_note(t, NoteV::Model(model)).0.snap.upstream_model == model,
{
}

/// How often a word was found.
pub open spec fn found_of(hits: Seq<HitV>, word: Seq<char>, n: nat) -> int
    decreases n,
{
    if n == 0 {
        0
    } else {
        found_of(hits, word, (n - 1) as nat) + if hits[n - 1].word == word {
            hits[n - 1].count
        } else {
            0
        }
    }
}

proof fn found_prefix(a: Seq<HitV>, b: Seq<HitV>, word: Seq<char>, n: nat)
    requires
        n <= a.len(),
        n <= b.len(),
        forall|i: int| 0 <= i < n ==> a[i] == b[i],
    ensures
        found_of(a, word, n) == found_of(b, word, n),
    decreases n,
{
    if n > 0 {
        found_prefix(a, b, word, (n - 1) as nat);
    }
}

proof fn found_changed(a: Seq<HitV>, p: int, h: HitV, word: Seq<char>, n: nat)
    requires
        0 <= p < a.len(),
        n <= a.len(),
        h.word == a[p].word,
    ensures
        found_of(a.update(p, h), word, n) == found_of(a, word, n) + if p < n && h.word == word {
            h.count - a[p].count
        } else {
            0
        },
    decreases n,
{
    if n > 0 {
        found_changed(a, p, h, word, (n - 1) as nat);
    }
}

proof fn place_holds(hits: Seq<HitV>, word: Seq<char>, i: int)
    requires
        0 <= i <= hits.len(),
    ensures
        i <= usage::hit_place(hits, word, i) <= hits.len(),
        usage::hit_place(hits, word, i) < hits.len() ==> hits[usage::hit_place(hits, word, i)].word
            == word,
    decreases hits.len() - i,
{
    if i < hits.len() && hits[i].word != word {
        place_holds(hits, word, i + 1);
    }
}

/// A word that is found is counted for itself, and for no other.
pub proof fn words_are_counted(hits: Seq<HitV>, found: Seq<char>, count: int, word: Seq<char>)
    requires
        0 <= count,
        forall|i: int|
            0 <= i < hits.len() ==> 0 <= (#[trigger] hits[i]).count && hits[i].count + count <= i64::MAX,
        count <= i64::MAX,
    ensures
        ({
            let after = usage::add_hit(hits, found, count);
            found_of(after, word, after.len()) == found_of(hits, word, hits.len()) + if word == found {
                count
            } else {
                0
            }
        }),
{
    place_holds(hits, found, 0);
    let p = usage::hit_place(hits, found, 0);
    let after = usage::add_hit(hits, found, count);
    if p < hits.len() {
        let h = HitV { word: found, count: hits[p].count + count };
        assert(hits[p].count + count <= i64::MAX);
        assert(after == hits.update(p, h));
        found_changed(hits, p, h, word, hits.len());
    } else {
        found_prefix(hits, after, word, hits.len());
    }
}

} // verus!
