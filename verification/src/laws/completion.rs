//! The pieces of a chat stream, put together to one completion.

use crate::errors;
use crate::json::Jv;
use crate::json;
use crate::laws::words;
use crate::laws::{holds, list_in, within};
use crate::protocol::collect;
use crate::protocol;
use crate::text;
use crate::upstream::aggregate::{AccV, CallV};
use crate::upstream::aggregate;
use crate::upstream::usage::TelemetryV;
use vstd::prelude::*;
use vstd::string::*;

verus! {

// -------------------------------------------------------------- pieces of chunks

/// The text under a member; empty where there is none.
pub open spec fn text_at(j: Option<Jv>, key: Seq<char>) -> Seq<char> {
    match j {
        Some(v) => match v.get(key) {
            Some(Jv::Str(s)) => s,
            _ => Seq::empty(),
        },
        None => Seq::empty(),
    }
}

/// The first choice of a chunk.
pub open spec fn first_choice(chunk: Jv) -> Option<Jv> {
    if list_in(chunk, "choices"@).len() > 0 {
        Some(list_in(chunk, "choices"@)[0])
    } else {
        None
    }
}

/// The delta of the first choice of a chunk.
pub open spec fn first_delta(chunk: Jv) -> Option<Jv> {
    match first_choice(chunk) {
        Some(c) => c.get("delta"@),
        None => None,
    }
}

/// The pieces of calls that a chunk brings.
pub open spec fn calls_in(chunk: Jv) -> Seq<Jv> {
    match first_delta(chunk) {
        Some(d) => list_in(d, "tool_calls"@),
        None => Seq::empty(),
    }
}

/// Whether a chunk is one that tells no error.
pub open spec fn fine(chunk: Jv) -> bool {
    chunk is Obj && chunk.get("error"@) is None
}

/// What is known after the first chunks of a stream.
pub open spec fn after_chunks(st: AccV, t: TelemetryV, chunks: Seq<Jv>, n: nat) -> (AccV, TelemetryV)
    decreases n,
{
    if n == 0 {
        (st, t)
    } else {
        let (a, u) = after_chunks(st, t, chunks, (n - 1) as nat);
        let (b, v, _) = aggregate::chunk_step(a, u, chunks[n - 1]);
        (b, v)
    }
}

/// The completion of a stream of chunks.
pub open spec fn completed(
    chunks: Seq<Jv>,
    t: TelemetryV,
    rewrite: Option<Seq<char>>,
    now: int,
) -> Jv {
    aggregate::completion(after_chunks(aggregate::nothing(rewrite), t, chunks, chunks.len()).0, now)
}

/// The choice of a completion.
pub open spec fn only_choice(body: Jv) -> Jv {
    list_in(body, "choices"@)[0]
}

/// The message of a completion.
pub open spec fn message_of(body: Jv) -> Option<Jv> {
    only_choice(body).get("message"@)
}

/// The last text that is not empty under a member of the first choices.
pub open spec fn last_in_choice(chunks: Seq<Jv>, key: Seq<char>, otherwise: Seq<char>, n: nat) -> Seq<char>
    decreases n,
{
    if n == 0 {
        otherwise
    } else if text_at(first_choice(chunks[n - 1]), key).len() > 0 {
        text_at(first_choice(chunks[n - 1]), key)
    } else {
        last_in_choice(chunks, key, otherwise, (n - 1) as nat)
    }
}

/// The last text that is not empty under a member of the deltas.
pub open spec fn last_in_delta(chunks: Seq<Jv>, key: Seq<char>, otherwise: Seq<char>, n: nat) -> Seq<char>
    decreases n,
{
    if n == 0 {
        otherwise
    } else if text_at(first_delta(chunks[n - 1]), key).len() > 0 {
        text_at(first_delta(chunks[n - 1]), key)
    } else {
        last_in_delta(chunks, key, otherwise, (n - 1) as nat)
    }
}

/// The last text that is not empty under a member of the chunks.
pub open spec fn last_in_chunk(chunks: Seq<Jv>, key: Seq<char>, otherwise: Seq<char>, n: nat) -> Seq<char>
    decreases n,
{
    if n == 0 {
        otherwise
    } else if text_at(Some(chunks[n - 1]), key).len() > 0 {
        text_at(Some(chunks[n - 1]), key)
    } else {
        last_in_chunk(chunks, key, otherwise, (n - 1) as nat)
    }
}

/// The texts under a member of the deltas, one after the other.
pub open spec fn joined(chunks: Seq<Jv>, key: Seq<char>, n: nat) -> Seq<char>
    decreases n,
{
    if n == 0 {
        Seq::empty()
    } else {
        joined(chunks, key, (n - 1) as nat) + text_at(first_delta(chunks[n - 1]), key)
    }
}

/// The last usage report of the chunks.
pub open spec fn last_usage(chunks: Seq<Jv>, n: nat) -> Jv
    decreases n,
{
    if n == 0 {
        Jv::Null
    } else {
        match chunks[n - 1].get("usage"@) {
            Some(Jv::Obj(u)) => Jv::Obj(u),
            _ => last_usage(chunks, (n - 1) as nat),
        }
    }
}

/// The last model that the chunks name.
pub open spec fn last_model(chunks: Seq<Jv>, n: nat) -> Seq<char>
    decreases n,
{
    if n == 0 {
        Seq::empty()
    } else {
        match chunks[n - 1].get("model"@) {
            Some(Jv::Str(s)) => s,
            _ => last_model(chunks, (n - 1) as nat),
        }
    }
}

proof fn one_chunk(st: AccV, t: TelemetryV, chunk: Jv)
    requires
        fine(chunk),
    ensures
        ({
            let after = aggregate::chunk_step(st, t, chunk).0;
            let reason = text_at(first_choice(chunk), "finish_reason"@);
            let role = text_at(first_delta(chunk), "role"@);
            let id = text_at(Some(chunk), "id"@);
            &&& after.finish == if reason.len() > 0 {
                reason
            } else {
                st.finish
            }
            &&& after.role == if role.len() > 0 {
                role
            } else {
                st.role
            }
            &&& after.id == if id.len() > 0 {
                id
            } else {
                st.id
            }
            &&& after.content == st.content + text_at(first_delta(chunk), "content"@)
            &&& after.reasoning == st.reasoning + text_at(first_delta(chunk), "reasoning_content"@)
            &&& after.usage == (match chunk.get("usage"@) {
                Some(Jv::Obj(u)) => Some(Jv::Obj(u)),
                _ => st.usage,
            })
            &&& after.model == (match chunk.get("model"@) {
                Some(Jv::Str(s)) => s,
                _ => st.model,
            })
            &&& after.rewrite == st.rewrite
            &&& after.calls == aggregate::merge_pieces(st.calls, calls_in(chunk), calls_in(chunk).len())
        }),
{
    words::chunk_words();
    assert(st.content + Seq::<char>::empty() =~= st.content);
    assert(st.reasoning + Seq::<char>::empty() =~= st.reasoning);
}

/// What is known of a stream holds of its chunks.
pub open spec fn known(st: AccV, chunks: Seq<Jv>, rewrite: Option<Seq<char>>, n: nat) -> bool {
    &&& st.finish == last_in_choice(chunks, "finish_reason"@, Seq::empty(), n)
    &&& st.role == last_in_delta(chunks, "role"@, Seq::empty(), n)
    &&& st.id == last_in_chunk(chunks, "id"@, Seq::empty(), n)
    &&& st.content == joined(chunks, "content"@, n)
    &&& st.reasoning == joined(chunks, "reasoning_content"@, n)
    &&& st.model == last_model(chunks, n)
    &&& st.rewrite == rewrite
    &&& (match st.usage {
        Some(u) => u,
        None => Jv::Null,
    }) == last_usage(chunks, n)
}

proof fn chunks_are_known(chunks: Seq<Jv>, t: TelemetryV, rewrite: Option<Seq<char>>, n: nat)
    requires
        n <= chunks.len(),
        forall|i: int| 0 <= i < chunks.len() ==> fine(#[trigger] chunks[i]),
    ensures
        known(after_chunks(aggregate::nothing(rewrite), t, chunks, n).0, chunks, rewrite, n),
    decreases n,
{
    if n > 0 {
        chunks_are_known(chunks, t, rewrite, (n - 1) as nat);
        let (a, u) = after_chunks(aggregate::nothing(rewrite), t, chunks, (n - 1) as nat);
        assert(fine(chunks[n - 1]));
        one_chunk(a, u, chunks[n - 1]);
    }
}

proof fn defaults_at_the_end(chunks: Seq<Jv>, otherwise: Seq<char>, n: nat)
    ensures
        last_in_choice(chunks, "finish_reason"@, otherwise, n) == protocol::or_else(
            last_in_choice(chunks, "finish_reason"@, Seq::empty(), n),
            otherwise,
        ),
        last_in_delta(chunks, "role"@, otherwise, n) == protocol::or_else(
            last_in_delta(chunks, "role"@, Seq::empty(), n),
            otherwise,
        ),
        last_in_chunk(chunks, "id"@, otherwise, n) == protocol::or_else(
            last_in_chunk(chunks, "id"@, Seq::empty(), n),
            otherwise,
        ),
    decreases n,
{
    if n > 0 {
        defaults_at_the_end(chunks, otherwise, (n - 1) as nat);
    }
}

/// The completion ends for the reason that the last chunk with a reason at its first choice
/// gives, and has stopped where no chunk gives one.
pub proof fn last_reason_counts(
    chunks: Seq<Jv>,
    t: TelemetryV,
    rewrite: Option<Seq<char>>,
    now: int,
)
    requires
        forall|i: int| 0 <= i < chunks.len() ==> fine(#[trigger] chunks[i]),
    ensures
        ({
            let body = completed(chunks, t, rewrite, now);
            &&& list_in(body, "choices"@).len() == 1
            &&& holds(
                only_choice(body),
                "finish_reason"@,
                last_in_choice(chunks, "finish_reason"@, "stop"@, chunks.len()),
            )
        }),
{
    words::chunk_words();
    chunks_are_known(chunks, t, rewrite, chunks.len());
    defaults_at_the_end(chunks, "stop"@, chunks.len());
}

/// The message of the completion holds the texts of the chunks, one after the other, the thinking
/// only where there is some, under the last role that a chunk gives.
pub proof fn texts_are_joined(
    chunks: Seq<Jv>,
    t: TelemetryV,
    rewrite: Option<Seq<char>>,
    now: int,
)
    requires
        forall|i: int| 0 <= i < chunks.len() ==> fine(#[trigger] chunks[i]),
    ensures
        ({
            let body = completed(chunks, t, rewrite, now);
            let thought = joined(chunks, "reasoning_content"@, chunks.len());
            &&& message_of(body) matches Some(m) && {
                &&& holds(m, "content"@, joined(chunks, "content"@, chunks.len()))
                &&& thought.len() > 0 ==> holds(m, "reasoning_content"@, thought)
                &&& thought.len() == 0 ==> m.get("reasoning_content"@) is None
                &&& holds(m, "role"@, last_in_delta(chunks, "role"@, "assistant"@, chunks.len()))
            }
        }),
{
    words::chunk_words();
    chunks_are_known(chunks, t, rewrite, chunks.len());
    defaults_at_the_end(chunks, "assistant"@, chunks.len());
}

/// The completion carries the last identifier, the last usage report and the last model of the
/// chunks, the model under another name where it is to appear so.
pub proof fn heads_go_on(chunks: Seq<Jv>, t: TelemetryV, rewrite: Option<Seq<char>>, now: int)
    requires
        forall|i: int| 0 <= i < chunks.len() ==> fine(#[trigger] chunks[i]),
    ensures
        ({
            let body = completed(chunks, t, rewrite, now);
            let id = last_in_chunk(chunks, "id"@, Seq::empty(), chunks.len());
            &&& id.len() > 0 ==> holds(body, "id"@, id)
            &&& holds(body, "object"@, "chat.completion"@)
            &&& holds(
                body,
                "model"@,
                match rewrite {
                    Some(name) => name,
                    None => last_model(chunks, chunks.len()),
                },
            )
            &&& body.get("usage"@) == Some(last_usage(chunks, chunks.len()))
            &&& only_choice(body).get("index"@) == Some(Jv::Int(0))
        }),
{
    words::chunk_words();
    chunks_are_known(chunks, t, rewrite, chunks.len());
}

/// An error in the stream ends the work with the words of the upstream and a bad gateway, and
/// nothing of that chunk is kept.
pub proof fn error_is_told(st: AccV, t: TelemetryV, chunk: Jv, s: Seq<char>)
    requires
        chunk is Obj,
        within(chunk, "error"@, "message"@) == Some(Jv::Str(s)),
        s.len() > 0,
    ensures
        ({
            let (after, _, e) = aggregate::chunk_step(st, t, chunk);
            &&& after == st
            &&& e matches Some(e) && e.status == 502 && e.message == s
        }),
{
}

/// A line that is no data, an empty one and the closing mark change nothing.
pub proof fn other_lines_are_passed_over(st: AccV, t: TelemetryV, line: Seq<char>)
    requires
        line.len() < 5 || line.take(5) != "data:"@ || text::trimmed(line.skip(5)).len() == 0
            || text::trimmed(line.skip(5)) == "[DONE]"@,
    ensures
        aggregate::line_step(st, t, line) == (st, t, None::<errors::ErrorV>),
{
    reveal_strlit("data:");
}

// -------------------------------------------------------------- calls

/// The number of a piece of a call.
pub open spec fn number_of(call: Jv) -> int {
    match call.get("index"@) {
        Some(Jv::Int(n)) => if i64::MIN <= n <= i64::MAX {
            n
        } else {
            0
        },
        _ => 0,
    }
}

/// What the first pieces say under a member of the function, those of one call one after the
/// other.
pub open spec fn pieces_joined(calls: Seq<Jv>, k: int, key: Seq<char>, n: nat) -> Seq<char>
    decreases n,
{
    if n == 0 {
        Seq::empty()
    } else if number_of(calls[n - 1]) == k {
        pieces_joined(calls, k, key, (n - 1) as nat) + text_at(calls[n - 1].get("function"@), key)
    } else {
        pieces_joined(calls, k, key, (n - 1) as nat)
    }
}

/// The last identifier that the first pieces give to a call.
pub open spec fn last_id(calls: Seq<Jv>, k: int, otherwise: Seq<char>, n: nat) -> Seq<char>
    decreases n,
{
    if n == 0 {
        otherwise
    } else if number_of(calls[n - 1]) == k && text_at(Some(calls[n - 1]), "id"@).len() > 0 {
        text_at(Some(calls[n - 1]), "id"@)
    } else {
        last_id(calls, k, otherwise, (n - 1) as nat)
    }
}

/// All pieces of calls that the first chunks bring.
pub open spec fn all_calls(chunks: Seq<Jv>, n: nat) -> Seq<Jv>
    decreases n,
{
    if n == 0 {
        Seq::empty()
    } else {
        all_calls(chunks, (n - 1) as nat) + calls_in(chunks[n - 1])
    }
}

proof fn merged_one_after_the_other(s: Seq<(int, CallV)>, a: Seq<Jv>, b: Seq<Jv>, n: nat)
    requires
        n <= b.len(),
    ensures
        aggregate::merge_pieces(aggregate::merge_pieces(s, a, a.len()), b, n)
            == aggregate::merge_pieces(s, a + b, a.len() + n),
    decreases n,
{
    if n > 0 {
        merged_one_after_the_other(s, a, b, (n - 1) as nat);
        assert((a + b)[a.len() + n - 1] == b[n - 1]);
    } else {
        merged_prefix(s, a, a + b, a.len());
    }
}

proof fn merged_prefix(s: Seq<(int, CallV)>, a: Seq<Jv>, b: Seq<Jv>, n: nat)
    requires
        n <= a.len() <= b.len(),
        forall|i: int| 0 <= i < n ==> a[i] == b[i],
    ensures
        aggregate::merge_pieces(s, a, n) == aggregate::merge_pieces(s, b, n),
    decreases n,
{
    if n > 0 {
        merged_prefix(s, a, b, (n - 1) as nat);
    }
}

proof fn calls_are_merged(chunks: Seq<Jv>, t: TelemetryV, rewrite: Option<Seq<char>>, n: nat)
    requires
        n <= chunks.len(),
        forall|i: int| 0 <= i < chunks.len() ==> fine(#[trigger] chunks[i]),
    ensures
        after_chunks(aggregate::nothing(rewrite), t, chunks, n).0.calls == aggregate::merge_pieces(
            Seq::empty(),
            all_calls(chunks, n),
            all_calls(chunks, n).len(),
        ),
    decreases n,
{
    if n > 0 {
        calls_are_merged(chunks, t, rewrite, (n - 1) as nat);
        let (a, u) = after_chunks(aggregate::nothing(rewrite), t, chunks, (n - 1) as nat);
        assert(fine(chunks[n - 1]));
        one_chunk(a, u, chunks[n - 1]);
        let more = calls_in(chunks[n - 1]);
        merged_one_after_the_other(Seq::empty(), all_calls(chunks, (n - 1) as nat), more, more.len());
    }
}

pub(crate) proof fn place_is_found<T>(s: Seq<(int, T)>, key: int, i: int, p: int)
    requires
        0 <= i <= p <= s.len(),
        forall|j: int| i <= j < p ==> (#[trigger] s[j]).0 < key,
        p < s.len() ==> s[p].0 >= key,
    ensures
        collect::place_from(s, key, i) == p,
    decreases p - i,
{
    if i < p {
        assert(s[i].0 < key);
        place_is_found(s, key, i + 1, p);
    }
}

pub(crate) proof fn place_holds<T>(s: Seq<(int, T)>, key: int, i: int)
    requires
        0 <= i <= s.len(),
    ensures
        i <= collect::place_from(s, key, i) <= s.len(),
        forall|j: int| i <= j < collect::place_from(s, key, i) ==> (#[trigger] s[j]).0 < key,
        collect::place_from(s, key, i) < s.len() ==> s[collect::place_from(s, key, i)].0 >= key,
    decreases s.len() - i,
{
    if i < s.len() && s[i].0 < key {
        place_holds(s, key, i + 1);
    }
}

pub(crate) proof fn put_then_get<T>(s: Seq<(int, T)>, key: int, c: T, k: int)
    requires
        collect::in_order(s),
    ensures
        collect::get_key(collect::put_key(s, key, c), k) == if k == key {
            Some(c)
        } else {
            collect::get_key(s, k)
        },
{
    let t = collect::put_key(s, key, c);
    let p = collect::place_from(s, key, 0);
    place_holds(s, key, 0);
    let q = collect::place_from(s, k, 0);
    place_holds(s, k, 0);
    if p < s.len() && s[p].0 == key {
        assert(t =~= s.update(p, (key, c)));
        place_is_found(t, k, 0, q);
    } else {
        assert(t =~= s.insert(p, (key, c)));
        if k <= key {
            if q > p {
                assert(s[p].0 < k);
            }
            place_is_found(t, k, 0, q);
        } else {
            if q < p {
                assert(s[q].0 < key);
                assert(s[q].0 >= k);
            }
            assert forall|j: int| 0 <= j < q + 1 implies (#[trigger] t[j]).0 < k by {
                if j < p {
                    assert(t[j] == s[j]);
                } else if j > p {
                    assert(t[j] == s[j - 1]);
                }
            }
            place_is_found(t, k, 0, q + 1);
        }
    }
}

/// What is known of a call after some pieces.
pub open spec fn call_known(s: Seq<(int, CallV)>, calls: Seq<Jv>, k: int, n: nat) -> bool {
    match collect::get_key(s, k) {
        Some(c) => {
            &&& c.arguments == pieces_joined(calls, k, "arguments"@, n)
            &&& c.name == pieces_joined(calls, k, "name"@, n)
            &&& c.id == last_id(calls, k, Seq::empty(), n)
            &&& exists|i: int| 0 <= i < n && number_of(#[trigger] calls[i]) == k
        },
        None => forall|i: int| 0 <= i < n ==> number_of(#[trigger] calls[i]) != k,
    }
}

proof fn no_pieces(calls: Seq<Jv>, k: int, n: nat)
    requires
        n <= calls.len(),
        forall|i: int| 0 <= i < n ==> number_of(#[trigger] calls[i]) != k,
    ensures
        pieces_joined(calls, k, "arguments"@, n) == Seq::<char>::empty(),
        pieces_joined(calls, k, "name"@, n) == Seq::<char>::empty(),
        last_id(calls, k, Seq::empty(), n) == Seq::<char>::empty(),
    decreases n,
{
    if n > 0 {
        assert(number_of(calls[n - 1]) != k);
        no_pieces(calls, k, (n - 1) as nat);
    }
}

proof fn pieces_are_known(calls: Seq<Jv>, k: int, n: nat)
    requires
        n <= calls.len(),
    ensures
        call_known(aggregate::merge_pieces(Seq::empty(), calls, n), calls, k, n),
        collect::in_order(aggregate::merge_pieces(Seq::empty(), calls, n)),
    decreases n,
{
    words::message_words();
    if n > 0 {
        pieces_are_known(calls, k, (n - 1) as nat);
        let s = aggregate::merge_pieces(Seq::empty(), calls, (n - 1) as nat);
        let call = calls[n - 1];
        let key = number_of(call);
        let c = aggregate::merged_call(
            match collect::get_key(s, key) {
                Some(c) => c,
                None => aggregate::no_call(),
            },
            call,
        );
        assert(json::int_or_zero(call.get("index"@)) == key);
        collect::put_key_keeps_order(s, key, c);
        put_then_get(s, key, c, k);
        if k == key && collect::get_key(s, k) is None {
            no_pieces(calls, k, (n - 1) as nat);
        }
    }
}

/// The calls of the completion: each call of the stream stands there with its pieces one after
/// the other, its name and arguments, under the last identifier that was given, and there is no
/// other.
pub proof fn calls_are_put_together(
    chunks: Seq<Jv>,
    t: TelemetryV,
    rewrite: Option<Seq<char>>,
    now: int,
    k: int,
)
    requires
        forall|i: int| 0 <= i < chunks.len() ==> fine(#[trigger] chunks[i]),
        exists|i: int|
            0 <= i < all_calls(chunks, chunks.len()).len() && number_of(
                #[trigger] all_calls(chunks, chunks.len())[i],
            ) == k,
    ensures
        ({
            let body = completed(chunks, t, rewrite, now);
            let calls = all_calls(chunks, chunks.len());
            &&& message_of(body) matches Some(m) && exists|p: int|
                0 <= p < list_in(m, "tool_calls"@).len() && called_with(
                    #[trigger] list_in(m, "tool_calls"@)[p],
                    last_id(calls, k, Seq::empty(), calls.len()),
                    pieces_joined(calls, k, "name"@, calls.len()),
                    pieces_joined(calls, k, "arguments"@, calls.len()),
                )
        }),
{
    words::chunk_words();
    let calls = all_calls(chunks, chunks.len());
    calls_are_merged(chunks, t, rewrite, chunks.len());
    pieces_are_known(calls, k, calls.len());
    let st = after_chunks(aggregate::nothing(rewrite), t, chunks, chunks.len()).0;
    let p = collect::place_from(st.calls, k, 0);
    place_holds(st.calls, k, 0);
    let body = completed(chunks, t, rewrite, now);
    let m = message_of(body)->0;
    assert(collect::get_key(st.calls, k) is Some);
    assert(list_in(m, "tool_calls"@) == aggregate::calls_json(st.calls));
    assert(list_in(m, "tool_calls"@)[p] == aggregate::call_json(st.calls[p].1));
}

/// Whether a call has that identifier, that name and those arguments.
pub open spec fn called_with(call: Jv, id: Seq<char>, name: Seq<char>, arguments: Seq<char>) -> bool {
    &&& holds(call, "id"@, id)
    &&& within(call, "function"@, "name"@) == Some(Jv::Str(name))
    &&& within(call, "function"@, "arguments"@) == Some(Jv::Str(arguments))
}

/// A stream without calls has none in its completion.
pub proof fn no_calls_no_list(
    chunks: Seq<Jv>,
    t: TelemetryV,
    rewrite: Option<Seq<char>>,
    now: int,
)
    requires
        forall|i: int| 0 <= i < chunks.len() ==> fine(#[trigger] chunks[i]),
        all_calls(chunks, chunks.len()).len() == 0,
    ensures
        message_of(completed(chunks, t, rewrite, now)) matches Some(m) && m.get("tool_calls"@) is None,
{
    words::chunk_words();
    calls_are_merged(chunks, t, rewrite, chunks.len());
}

// -------------------------------------------------------------- single pieces

/// A piece of a call gives it its identifier and its kind, where it tells them, and adds to its
/// name and its arguments; a call is one of a function unless it tells otherwise.
pub proof fn pieces_are_merged(c: CallV, call: Jv)
    ensures
        ({
            let after = aggregate::merged_call(c, call);
            let id = text_at(Some(call), "id"@);
            let kind = text_at(Some(call), "type"@);
            &&& after.id == if id.len() > 0 {
                id
            } else {
                c.id
            }
            &&& after.kind == if kind.len() > 0 {
                kind
            } else {
                c.kind
            }
            &&& after.name == c.name + text_at(call.get("function"@), "name"@)
            &&& after.arguments == c.arguments + text_at(call.get("function"@), "arguments"@)
        }),
        aggregate::no_call().kind == "function"@,
        holds(aggregate::call_json(c), "type"@, c.kind),
        holds(aggregate::call_json(c), "id"@, c.id),
{
    words::chunk_words();
}

/// The time of a completion is that of the last chunk that tells one, or now; without an
/// identifier it gets one from the time.
pub proof fn time_goes_on(st: AccV, t: TelemetryV, chunk: Jv, now: int)
    requires
        fine(chunk),
        0 <= now,
    ensures
        ({
            let after = aggregate::chunk_step(st, t, chunk).0;
            &&& (chunk.get("created"@) matches Some(Jv::Int(n)) ==> n != 0 && i64::MIN <= n <= i64::MAX
                ==> after.created == n)
            &&& chunk.get("created"@) is None || chunk.get("created"@) == Some(Jv::Int(0)) ==> after.created
                == st.created
        }),
        st.created != 0 ==> aggregate::completion(st, now).get("created"@) == Some(Jv::Int(st.created)),
        st.created == 0 ==> aggregate::completion(st, now).get("created"@) == Some(Jv::Int(now / 1000)),
        st.id.len() == 0 ==> holds(
            aggregate::completion(st, now),
            "id"@,
            "wb-agg-"@ + text::decimal_int(now),
        ),
{
    words::chunk_words();
}

/// A line with data is a chunk of the stream; one that cannot be read is passed over.
pub proof fn lines_are_chunks(st: AccV, t: TelemetryV, data: Seq<char>)
    requires
        text::trimmed(data).len() > 0,
        text::trimmed(data) != "[DONE]"@,
    ensures
        (json::parsed_json(text::trimmed(data)) matches Some(chunk) ==> aggregate::line_step(
            st,
            t,
            "data:"@ + data,
        ) == aggregate::chunk_step(st, t, chunk)),
        json::parsed_json(text::trimmed(data)) is None ==> aggregate::line_step(st, t, "data:"@ + data)
            == (st, t, None::<errors::ErrorV>),
{
    reveal_strlit("data:");
    let line = "data:"@ + data;
    assert(line.take(5) =~= "data:"@);
    assert(line.skip(5) =~= data);
}

/// The usage that a chunk tells is noted with the request too, also where the chunk tells an
/// error.
pub proof fn usage_is_noted(st: AccV, t: TelemetryV, chunk: Jv, u: Map<Seq<char>, Jv>)
    requires
        chunk is Obj,
        chunk.get("usage"@) == Some(Jv::Obj(u)),
    ensures
        aggregate::chunk_step(st, t, chunk).1 == crate::upstream::usage::after_note(
            t,
            crate::upstream::usage::NoteV::Usage(Jv::Obj(u)),
        ).0,
{
}

} // verus!
