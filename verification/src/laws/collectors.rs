//! A chat stream that is gathered to one message or to one response.

use crate::json::Jv;
use crate::json;
use crate::laws::completion::{number_of, pieces_joined, place_holds, put_then_get, text_at};
use crate::laws::replies::one_if;
use crate::laws::responses_stream::{all_brought, brought, delta_of, proper};
use crate::laws::words;
use crate::laws::{holds, list_in, within};
use crate::protocol::anthropic;
use crate::protocol::anthropic_stream;
use crate::protocol::chat;
use crate::protocol::collect::{CollectedV, ToolV};
use crate::protocol::collect;
use crate::protocol::responses::FreshV;
use crate::protocol::responses;
use crate::protocol::responses_stream::CollectorV;
use crate::protocol::responses_stream;
use crate::protocol::tool_plan::PlanV;
use crate::protocol;
use vstd::prelude::*;
use vstd::string::*;

verus! {

// -------------------------------------------------------------- gathering

/// What is gathered from the first chunks of a stream.
pub open spec fn gathered(chunks: Seq<Jv>, n: nat) -> CollectedV
    decreases n,
{
    if n == 0 {
        collect::nothing_collected()
    } else {
        collect::collect(gathered(chunks, (n - 1) as nat), chunks[n - 1])
    }
}

/// The last reason that the first chunks give at their first choice.
pub open spec fn last_reason(chunks: Seq<Jv>, n: nat) -> Option<Seq<char>>
    decreases n,
{
    if n == 0 {
        None
    } else {
        let reason = text_at(Some(list_in(chunks[n - 1], "choices"@)[0]), "finish_reason"@);
        if reason.len() > 0 {
            Some(reason)
        } else {
            last_reason(chunks, (n - 1) as nat)
        }
    }
}

/// The last usage report of the first chunks.
pub open spec fn last_usage(chunks: Seq<Jv>, n: nat) -> Option<Jv>
    decreases n,
{
    if n == 0 {
        None
    } else {
        match chunks[n - 1].get("usage"@) {
            Some(Jv::Obj(u)) => Some(Jv::Obj(u)),
            _ => last_usage(chunks, (n - 1) as nat),
        }
    }
}

/// The first identifier of the first chunks.
pub open spec fn first_id(chunks: Seq<Jv>, n: nat) -> Seq<char>
    decreases n,
{
    if n == 0 {
        Seq::empty()
    } else if first_id(chunks, (n - 1) as nat).len() > 0 {
        first_id(chunks, (n - 1) as nat)
    } else {
        text_at(Some(chunks[n - 1]), "id"@)
    }
}

/// The calls of a delta.
pub open spec fn calls_in(chunk: Jv) -> Seq<Jv> {
    list_in(delta_of(chunk), "tool_calls"@)
}

/// All pieces of calls that the first chunks bring.
pub open spec fn all_calls(chunks: Seq<Jv>, n: nat) -> Seq<Jv>
    decreases n,
{
    if n == 0 {
        Seq::empty()
    } else {
        all_calls(chunks, (n - 1) as nat) + calls_in(chunks[n - 1])
    }
}

proof fn one_chunk(st: CollectedV, chunk: Jv)
    requires
        proper(chunk),
    ensures
        ({
            let after = collect::collect(st, chunk);
            let reason = text_at(Some(list_in(chunk, "choices"@)[0]), "finish_reason"@);
            &&& after.text == st.text + brought(chunk, false)
            &&& after.reasoning == st.reasoning + brought(chunk, true)
            &&& after.finish == if reason.len() > 0 {
                Some(reason)
            } else {
                st.finish
            }
            &&& after.usage == (match chunk.get("usage"@) {
                Some(Jv::Obj(u)) => Some(Jv::Obj(u)),
                _ => st.usage,
            })
            &&& after.id == if st.id.len() > 0 {
                st.id
            } else {
                text_at(Some(chunk), "id"@)
            }
            &&& after.tools == collect::add_pieces(st.tools, calls_in(chunk), calls_in(chunk).len())
        }),
{
    words::chunk_words();
    let list = list_in(chunk, "choices"@);
    assert(chat::choice_of(chunk) == Some(list[0]));
    assert(st.text + Seq::<char>::empty() =~= st.text);
    assert(st.reasoning + Seq::<char>::empty() =~= st.reasoning);
    if let Some(d) = list[0].get("delta"@) {
        assert(chat::reasoning_of(d) =~= brought(chunk, true));
        assert(chat::calls_of(d) == calls_in(chunk));
    }
}

/// What is gathered holds the texts of the stream, one after the other, the last reason and the
/// last usage report, and the first identifier.
pub proof fn stream_is_gathered(chunks: Seq<Jv>, n: nat)
    requires
        n <= chunks.len(),
        forall|i: int| 0 <= i < chunks.len() ==> proper(#[trigger] chunks[i]),
    ensures
        ({
            let seen = gathered(chunks, n);
            &&& seen.text == all_brought(chunks, false, n)
            &&& seen.reasoning == all_brought(chunks, true, n)
            &&& seen.finish == last_reason(chunks, n)
            &&& seen.usage == last_usage(chunks, n)
            &&& seen.id == first_id(chunks, n)
            &&& seen.tools == collect::add_pieces(
                Seq::empty(),
                all_calls(chunks, n),
                all_calls(chunks, n).len(),
            )
        }),
    decreases n,
{
    if n > 0 {
        stream_is_gathered(chunks, (n - 1) as nat);
        assert(proper(chunks[n - 1]));
        one_chunk(gathered(chunks, (n - 1) as nat), chunks[n - 1]);
        let more = calls_in(chunks[n - 1]);
        added_one_after_the_other(Seq::empty(), all_calls(chunks, (n - 1) as nat), more, more.len());
    }
}

proof fn added_one_after_the_other(s: Seq<(int, ToolV)>, a: Seq<Jv>, b: Seq<Jv>, n: nat)
    requires
        n <= b.len(),
    ensures
        collect::add_pieces(collect::add_pieces(s, a, a.len()), b, n) == collect::add_pieces(
            s,
            a + b,
            a.len() + n,
        ),
    decreases n,
{
    if n > 0 {
        added_one_after_the_other(s, a, b, (n - 1) as nat);
        assert((a + b)[a.len() + n - 1] == b[n - 1]);
    } else {
        added_prefix(s, a, a + b, a.len());
    }
}

proof fn added_prefix(s: Seq<(int, ToolV)>, a: Seq<Jv>, b: Seq<Jv>, n: nat)
    requires
        n <= a.len() <= b.len(),
        forall|i: int| 0 <= i < n ==> a[i] == b[i],
    ensures
        collect::add_pieces(s, a, n) == collect::add_pieces(s, b, n),
    decreases n,
{
    if n > 0 {
        added_prefix(s, a, b, (n - 1) as nat);
    }
}

/// The last text that is not empty under a member of the pieces of a call, or of their functions.
pub open spec fn last_given(calls: Seq<Jv>, k: int, name: bool, n: nat) -> Seq<char>
    decreases n,
{
    if n == 0 {
        Seq::empty()
    } else {
        let call = calls[n - 1];
        let given = if name {
            text_at(call.get("function"@), "name"@)
        } else {
            text_at(Some(call), "id"@)
        };
        if number_of(call) == k && given.len() > 0 {
            given
        } else {
            last_given(calls, k, name, (n - 1) as nat)
        }
    }
}

/// The call of a number among those gathered: its pieces put together, under the last identifier
/// and the last name that they give; there is one exactly where there are pieces of it.
pub proof fn calls_are_gathered(calls: Seq<Jv>, k: int, n: nat)
    requires
        n <= calls.len(),
    ensures
        ({
            let tools = collect::add_pieces(Seq::empty(), calls, n);
            match collect::get_key(tools, k) {
                Some(t) => {
                    &&& t.arguments == pieces_joined(calls, k, "arguments"@, n)
                    &&& t.name == last_given(calls, k, true, n)
                    &&& t.call_id == last_given(calls, k, false, n)
                    &&& exists|i: int| 0 <= i < n && number_of(#[trigger] calls[i]) == k
                },
                None => forall|i: int| 0 <= i < n ==> number_of(#[trigger] calls[i]) != k,
            }
        }),
        collect::in_order(collect::add_pieces(Seq::empty(), calls, n)),
    decreases n,
{
    words::message_words();
    if n > 0 {
        calls_are_gathered(calls, k, (n - 1) as nat);
        let s = collect::add_pieces(Seq::empty(), calls, (n - 1) as nat);
        let call = calls[n - 1];
        let key = number_of(call);
        let t = collect::tool_piece(
            match collect::get_key(s, key) {
                Some(t) => t,
                None => collect::no_tool(),
            },
            call,
        );
        assert(json::int_or_zero(call.get("index"@)) == key);
        collect::put_key_keeps_order(s, key, t);
        put_then_get(s, key, t, k);
        if k == key && collect::get_key(s, k) is None {
            nothing_given(calls, k, (n - 1) as nat);
        }
    }
}

proof fn nothing_given(calls: Seq<Jv>, k: int, n: nat)
    requires
        n <= calls.len(),
        forall|i: int| 0 <= i < n ==> number_of(#[trigger] calls[i]) != k,
    ensures
        pieces_joined(calls, k, "arguments"@, n) == Seq::<char>::empty(),
        last_given(calls, k, true, n) == Seq::<char>::empty(),
        last_given(calls, k, false, n) == Seq::<char>::empty(),
    decreases n,
{
    if n > 0 {
        assert(number_of(calls[n - 1]) != k);
        nothing_given(calls, k, (n - 1) as nat);
    }
}

// -------------------------------------------------------------- as a message

proof fn blocks_of_tools(tools: Seq<(int, ToolV)>, fresh: Seq<Seq<char>>, n: nat)
    ensures
        anthropic_stream::tool_blocks(tools, fresh, n).len() == n,
        forall|i: int|
            #![trigger anthropic_stream::tool_blocks(tools, fresh, n)[i]]
            0 <= i < n ==> anthropic_stream::tool_blocks(tools, fresh, n)[i]
                == anthropic_stream::tool_blocks(tools, fresh, (i + 1) as nat).last(),
    decreases n,
{
    if n > 0 {
        blocks_of_tools(tools, fresh, (n - 1) as nat);
        let before = anthropic_stream::tool_blocks(tools, fresh, (n - 1) as nat);
        let all = anthropic_stream::tool_blocks(tools, fresh, n);
        assert forall|i: int| 0 <= i < n implies #[trigger] all[i] == anthropic_stream::tool_blocks(
            tools,
            fresh,
            (i + 1) as nat,
        ).last() by {
            if i < n - 1 {
                assert(all[i] == before[i]);
            }
        }
    }
}

/// The message of what was gathered: the thinking, the text, and each call with its identifier,
/// its name and its arguments read as an object; why it ends, and its head.
pub proof fn gathered_makes_a_message(
    seen: CollectedV,
    model: Seq<char>,
    fresh: Seq<Seq<char>>,
    fresh_id: Seq<char>,
)
    ensures
        ({
            let body = anthropic_stream::collected_message(seen, model, fresh, fresh_id);
            let out = list_in(body, "content"@);
            let a = one_if(seen.reasoning.len() > 0);
            let b = one_if(seen.text.len() > 0);
            let n = seen.tools.len();
            &&& holds(body, "model"@, model)
            &&& holds(body, "role"@, "assistant"@)
            &&& seen.id.len() > 0 ==> holds(body, "id"@, seen.id)
            &&& holds(
                body,
                "stop_reason"@,
                if seen.finish == Some("length"@) {
                    "max_tokens"@
                } else if seen.finish == Some("tool_calls"@) || n > 0 {
                    "tool_use"@
                } else {
                    "end_turn"@
                },
            )
            &&& a + b + n > 0 ==> out.len() == a + b + n
            &&& a == 1 ==> holds(out[0], "type"@, "thinking"@) && holds(
                out[0],
                "thinking"@,
                seen.reasoning,
            )
            &&& b == 1 ==> holds(out[a], "type"@, "text"@) && holds(out[a], "text"@, seen.text)
            &&& forall|i: int| #![trigger seen.tools[i]]
                0 <= i < n && seen.tools[i].1.call_id.len() > 0 && seen.tools[i].1.name.len() > 0 ==> {
                    let block = out[a + b + i];
                    let t = seen.tools[i].1;
                    &&& holds(block, "type"@, "tool_use"@)
                    &&& holds(block, "id"@, t.call_id)
                    &&& holds(block, "name"@, t.name)
                    &&& (json::parsed_json(t.arguments) matches Some(Jv::Obj(o)) ==> t.arguments.len() > 0
                        ==> block.get("input"@) == Some(Jv::Obj(o)))
                }
        }),
{
    words::event_members();
    words::reason_words();
    reveal_strlit("length");
    reveal_strlit("tool_calls");
    assert("length"@.len() == 6);
    assert("tool_calls"@.len() == 10);
    let n = seen.tools.len();
    blocks_of_tools(seen.tools, fresh, n);
    let head = anthropic::said_blocks(seen.reasoning, seen.text);
    let rest = anthropic_stream::tool_blocks(seen.tools, fresh, n);
    let a = one_if(seen.reasoning.len() > 0);
    let b = one_if(seen.text.len() > 0);
    assert(head.len() == a + b);
    let body = anthropic_stream::collected_message(seen, model, fresh, fresh_id);
    let out = list_in(body, "content"@);
    assert(out == anthropic::never_empty(head + rest));
    if a + b + n > 0 {
        assert(out == head + rest);
        assert(a == 1 ==> out[0] == head[0]);
        assert(b == 1 ==> out[a] == head[a]);
    }
    assert forall|i: int| #![trigger seen.tools[i]]
        0 <= i < n && seen.tools[i].1.call_id.len() > 0 && seen.tools[i].1.name.len() > 0 implies {
        let block = out[a + b + i];
        let t = seen.tools[i].1;
        &&& holds(block, "type"@, "tool_use"@)
        &&& holds(block, "id"@, t.call_id)
        &&& holds(block, "name"@, t.name)
        &&& (json::parsed_json(t.arguments) matches Some(Jv::Obj(o)) ==> t.arguments.len() > 0
            ==> block.get("input"@) == Some(Jv::Obj(o)))
    } by {
        assert(out[a + b + i] == rest[i]);
        assert(rest[i] == anthropic_stream::tool_blocks(seen.tools, fresh, (i + 1) as nat).last());
    }
}

// -------------------------------------------------------------- as a response

proof fn items_of_tools(tools: Seq<(int, ToolV)>, plan: PlanV, fresh: FreshV, n: nat)
    ensures
        responses_stream::tool_items(tools, plan, fresh, n).len() == n,
        forall|i: int|
            #![trigger responses_stream::tool_items(tools, plan, fresh, n)[i]]
            0 <= i < n ==> responses_stream::tool_items(tools, plan, fresh, n)[i]
                == responses_stream::tool_items(tools, plan, fresh, (i + 1) as nat).last(),
    decreases n,
{
    if n > 0 {
        items_of_tools(tools, plan, fresh, (n - 1) as nat);
        let before = responses_stream::tool_items(tools, plan, fresh, (n - 1) as nat);
        let all = responses_stream::tool_items(tools, plan, fresh, n);
        assert forall|i: int| 0 <= i < n implies #[trigger] all[i] == responses_stream::tool_items(
            tools,
            plan,
            fresh,
            (i + 1) as nat,
        ).last() by {
            if i < n - 1 {
                assert(all[i] == before[i]);
            }
        }
    }
}

/// The response of what was gathered: the thinking as a summary, the text as a message, and each
/// call with its identifier, its name and its arguments.
pub proof fn gathered_makes_a_response(
    st: CollectorV,
    model: Seq<char>,
    request: Jv,
    plan: PlanV,
    fresh: FreshV,
    now: int,
)
    requires
        plan.spaces.len() == 0,
    ensures
        ({
            let seen = st.seen;
            let body = responses_stream::collected_response(st, model, request, plan, fresh, now);
            let out = list_in(body, "output"@);
            let n = seen.tools.len();
            let a = one_if(seen.reasoning.len() > 0);
            let b = one_if(seen.text.len() > 0 || n == 0);
            &&& holds(body, "output_text"@, seen.text)
            &&& out.len() == a + b + n
            &&& a == 1 ==> holds(out[0], "type"@, "reasoning"@) && list_in(out[0], "summary"@).len() == 1
                && holds(list_in(out[0], "summary"@)[0], "text"@, seen.reasoning)
            &&& b == 1 ==> holds(out[a], "type"@, "message"@) && list_in(out[a], "content"@).len() == 1
                && holds(list_in(out[a], "content"@)[0], "text"@, seen.text)
            &&& forall|i: int| #![trigger seen.tools[i]]
                0 <= i < n && seen.tools[i].1.call_id.len() > 0 && seen.tools[i].1.name.len() > 0
                    && !plan.is_custom(seen.tools[i].1.name) ==> {
                    let item = out[a + b + i];
                    let t = seen.tools[i].1;
                    &&& holds(item, "type"@, "function_call"@)
                    &&& holds(item, "call_id"@, t.call_id)
                    &&& holds(item, "name"@, t.name)
                    &&& holds(
                        item,
                        "arguments"@,
                        if t.arguments.len() > 0 {
                            t.arguments
                        } else {
                            "{}"@
                        },
                    )
                }
        }),
{
    words::envelope_words();
    words::item_words();
    let seen = st.seen;
    let n = seen.tools.len();
    items_of_tools(seen.tools, plan, fresh, n);
    let head = responses::said_items(seen.reasoning, seen.text, n == 0, fresh);
    let rest = responses_stream::tool_items(seen.tools, plan, fresh, n);
    let a = one_if(seen.reasoning.len() > 0);
    let b = one_if(seen.text.len() > 0 || n == 0);
    assert(head.len() == a + b);
    let body = responses_stream::collected_response(st, model, request, plan, fresh, now);
    let out = list_in(body, "output"@);
    assert(out == head + rest);
    assert(a == 1 ==> out[0] == head[0]);
    assert(b == 1 ==> out[a] == head[a]);
    assert forall|i: int| #![trigger seen.tools[i]]
        0 <= i < n && seen.tools[i].1.call_id.len() > 0 && seen.tools[i].1.name.len() > 0
            && !plan.is_custom(seen.tools[i].1.name) implies {
        let item = out[a + b + i];
        let t = seen.tools[i].1;
        &&& holds(item, "type"@, "function_call"@)
        &&& holds(item, "call_id"@, t.call_id)
        &&& holds(item, "name"@, t.name)
        &&& holds(
            item,
            "arguments"@,
            if t.arguments.len() > 0 {
                t.arguments
            } else {
                "{}"@
            },
        )
    } by {
        assert(out[a + b + i] == rest[i]);
        assert(rest[i] == responses_stream::tool_items(
            seen.tools,
            plan,
            fresh,
            (i + 1) as nat,
        ).last());
    }
}

/// Whether the response of what was gathered is complete, and why not; its head, with the time
/// of the last chunk that tells it.
pub proof fn gathered_response_has_its_head(
    st: CollectorV,
    model: Seq<char>,
    request: Jv,
    plan: PlanV,
    fresh: FreshV,
    now: int,
)
    ensures
        ({
            let body = responses_stream::collected_response(st, model, request, plan, fresh, now);
            let finish = st.seen.finish;
            &&& holds(body, "model"@, model)
            &&& holds(body, "object"@, "response"@)
            &&& st.seen.id.len() > 0 ==> holds(body, "id"@, st.seen.id)
            &&& body.get("created_at"@) == Some(Jv::Int(st.created))
            &&& finish == Some("length"@) ==> holds(body, "status"@, "incomplete"@) && within(
                body,
                "incomplete_details"@,
                "reason"@,
            ) == Some(Jv::Str("max_output_tokens"@))
            &&& finish == Some("content_filter"@) ==> holds(body, "status"@, "incomplete"@) && within(
                body,
                "incomplete_details"@,
                "reason"@,
            ) == Some(Jv::Str("content_filter"@))
            &&& finish is None || finish == Some("stop"@) || finish == Some("tool_calls"@) ==> holds(
                body,
                "status"@,
                "completed"@,
            )
        }),
        forall|chunk: Jv|
            (#[trigger] responses_stream::collect_chunk(st, chunk)).seen == collect::collect(st.seen, chunk)
                && (chunk.get("created"@) matches Some(Jv::Int(t)) ==> i64::MIN <= t <= i64::MAX
                ==> responses_stream::collect_chunk(st, chunk).created == t),
        forall|chunk: Jv|
            chunk.get("created"@) is None ==> (#[trigger] responses_stream::collect_chunk(st, chunk)).created
                == st.created,
{
    words::envelope_words();
    words::reason_words();
    reveal_strlit("length");
    reveal_strlit("content_filter");
    assert("length"@.len() == 6);
    assert("content_filter"@.len() == 14);
}

} // verus!
