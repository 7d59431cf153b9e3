//! A whole chat answer, as a message or as a response.

use crate::json::Jv;
use crate::json;
use crate::laws::words;
use crate::laws::{holds, list_in, within};
use crate::protocol::anthropic;
use crate::protocol::chat;
use crate::protocol::responses::FreshV;
use crate::protocol::responses;
use crate::protocol::tool_plan::PlanV;
use crate::protocol;
use crate::text;
use vstd::prelude::*;
use vstd::string::*;

verus! {

/// Whether a chat answer has that choice, with that message in it.
pub open spec fn answers(chat: Jv, choice: Jv, message: Jv) -> bool {
    &&& list_in(chat, "choices"@).len() > 0
    &&& list_in(chat, "choices"@)[0] == choice
    &&& choice.get("message"@) == Some(message)
}

/// How many there are of what is said or not.
pub open spec fn one_if(b: bool) -> int {
    if b {
        1
    } else {
        0
    }
}

/// Whether a chat call has that identifier, that name and those arguments.
pub open spec fn is_call(call: Jv, id: Seq<char>, name: Seq<char>, arguments: Seq<char>) -> bool {
    &&& holds(call, "id"@, id)
    &&& within(call, "function"@, "name"@) == Some(Jv::Str(name))
    &&& within(call, "function"@, "arguments"@) == Some(Jv::Str(arguments))
}

// -------------------------------------------------------------- as a message

proof fn blocks_of_calls(calls: Seq<Jv>, fresh: Seq<Seq<char>>, n: nat)
    ensures
        anthropic::call_blocks(calls, fresh, n).len() == n,
        forall|i: int|
            #![trigger anthropic::call_blocks(calls, fresh, n)[i]]
            0 <= i < n ==> anthropic::call_blocks(calls, fresh, n)[i] == anthropic::call_blocks(
                calls,
                fresh,
                (i + 1) as nat,
            ).last(),
    decreases n,
{
    if n > 0 {
        blocks_of_calls(calls, fresh, (n - 1) as nat);
        let before = anthropic::call_blocks(calls, fresh, (n - 1) as nat);
        let all = anthropic::call_blocks(calls, fresh, n);
        assert forall|i: int| 0 <= i < n implies #[trigger] all[i] == anthropic::call_blocks(
            calls,
            fresh,
            (i + 1) as nat,
        ).last() by {
            if i < n - 1 {
                assert(all[i] == before[i]);
            }
        }
    }
}

/// Why a message ends: `max_tokens` where the length was reached, `tool_use` where a tool is
/// called, `end_turn` otherwise.
pub proof fn message_tells_the_reason(
    chat: Jv,
    choice: Jv,
    message: Jv,
    reason: Seq<char>,
    model: Seq<char>,
    fresh: Seq<Seq<char>>,
    fresh_id: Seq<char>,
)
    requires
        answers(chat, choice, message),
        holds(choice, "finish_reason"@, reason),
    ensures
        holds(
            anthropic::anthropic_of_chat(chat, model, fresh, fresh_id),
            "stop_reason"@,
            if reason == "length"@ {
                "max_tokens"@
            } else if reason == "tool_calls"@ || list_in(message, "tool_calls"@).len() > 0 {
                "tool_use"@
            } else {
                "end_turn"@
            },
        ),
{
    words::event_members();
    words::reason_words();
}

/// A message says what the chat answer says: the thinking, the text, and each call with its
/// identifier, its name and its arguments read as an object.
pub proof fn message_says_the_same(
    chat: Jv,
    choice: Jv,
    message: Jv,
    thought: Seq<char>,
    said: Seq<char>,
    model: Seq<char>,
    fresh: Seq<Seq<char>>,
    fresh_id: Seq<char>,
)
    requires
        answers(chat, choice, message),
        holds(message, "content"@, said),
        thought.len() > 0 ==> holds(message, "reasoning_content"@, thought),
        thought.len() == 0 ==> message.get("reasoning_content"@) is None && message.get("reasoning"@)
            is None,
    ensures
        ({
            let out = list_in(
                anthropic::anthropic_of_chat(chat, model, fresh, fresh_id),
                "content"@,
            );
            let calls = list_in(message, "tool_calls"@);
            let a = one_if(thought.len() > 0);
            let b = one_if(said.len() > 0);
            &&& a + b + calls.len() > 0 ==> out.len() == a + b + calls.len()
            &&& a == 1 ==> holds(out[0], "type"@, "thinking"@) && holds(out[0], "thinking"@, thought)
            &&& b == 1 ==> holds(out[a], "type"@, "text"@) && holds(out[a], "text"@, said)
            &&& a + b + calls.len() == 0 ==> out.len() == 1 && holds(out[0], "type"@, "text"@) && holds(
                out[0],
                "text"@,
                Seq::empty(),
            )
            &&& forall|i: int, id: Seq<char>, name: Seq<char>, arguments: Seq<char>|
                #![trigger is_call(calls[i], id, name, arguments)]
                0 <= i < calls.len() && is_call(calls[i], id, name, arguments) && id.len() > 0 ==> {
                    let block = out[a + b + i];
                    &&& holds(block, "type"@, "tool_use"@)
                    &&& holds(block, "id"@, id)
                    &&& holds(block, "name"@, name)
                    &&& (json::parsed_json(arguments) matches Some(Jv::Obj(o)) ==> arguments.len() > 0
                        ==> block.get("input"@) == Some(Jv::Obj(o)))
                    &&& arguments.len() == 0 ==> block.get("input"@) == Some(Jv::obj())
                }
        }),
{
    words::event_members();
    let calls = list_in(message, "tool_calls"@);
    blocks_of_calls(calls, fresh, calls.len());
    let head = anthropic::said_blocks(thought, said);
    let rest = anthropic::call_blocks(calls, fresh, calls.len());
    let a = one_if(thought.len() > 0);
    let b = one_if(said.len() > 0);
    assert(chat::reasoning_of(message) =~= thought);
    assert(protocol::opt_plain_text(message.get("content"@)) == said);
    assert(chat::calls_of(message) == calls);
    assert(head.len() == a + b);
    let out = list_in(anthropic::anthropic_of_chat(chat, model, fresh, fresh_id), "content"@);
    assert(out == anthropic::never_empty(head + rest));
    assert(out.len() > 0);
    if a + b + calls.len() > 0 {
        assert(out == head + rest);
        assert(a == 1 ==> out[0] == head[0]);
        assert(b == 1 ==> out[a] == head[a]);
    }
    assert forall|i: int, id: Seq<char>, name: Seq<char>, arguments: Seq<char>|
        #![trigger is_call(calls[i], id, name, arguments)]
        0 <= i < calls.len() && is_call(calls[i], id, name, arguments) && id.len() > 0 implies {
        let block = out[a + b + i];
        &&& holds(block, "type"@, "tool_use"@)
        &&& holds(block, "id"@, id)
        &&& holds(block, "name"@, name)
        &&& (json::parsed_json(arguments) matches Some(Jv::Obj(o)) ==> arguments.len() > 0
            ==> block.get("input"@) == Some(Jv::Obj(o)))
        &&& arguments.len() == 0 ==> block.get("input"@) == Some(Jv::obj())
    } by {
        assert(out[a + b + i] == rest[i]);
        assert(rest[i] == anthropic::call_blocks(calls, fresh, (i + 1) as nat).last());
    }
}

/// A message carries the identifier of the answer and the name of the model.
pub proof fn message_has_its_head(
    chat: Jv,
    id: Seq<char>,
    model: Seq<char>,
    fresh: Seq<Seq<char>>,
    fresh_id: Seq<char>,
)
    requires
        holds(chat, "id"@, id),
    ensures
        ({
            let out = anthropic::anthropic_of_chat(chat, model, fresh, fresh_id);
            &&& holds(
                out,
                "id"@,
                if id.len() > 0 {
                    id
                } else {
                    fresh_id
                },
            )
            &&& holds(out, "type"@, "message"@)
            &&& holds(out, "role"@, "assistant"@)
            &&& holds(out, "model"@, model)
            &&& out.get("stop_sequence"@) == Some(Jv::Null)
        }),
{
    words::event_members();
}

/// The tokens of a message: the input without what came from the cache, what came from it, and
/// the output.
pub proof fn message_counts_tokens(
    chat: Jv,
    u: Map<Seq<char>, Jv>,
    prompt: int,
    cached: int,
    output: int,
    model: Seq<char>,
    fresh: Seq<Seq<char>>,
    fresh_id: Seq<char>,
)
    requires
        chat.get("usage"@) == Some(Jv::Obj(u)),
        Jv::Obj(u).get("prompt_tokens"@) == Some(Jv::Int(prompt)),
        Jv::Obj(u).get("completion_tokens"@) == Some(Jv::Int(output)),
        within(Jv::Obj(u), "prompt_tokens_details"@, "cached_tokens"@) == Some(Jv::Int(cached)) || (
        within(Jv::Obj(u), "prompt_tokens_details"@, "cached_tokens"@) is None && cached == 0),
        0 <= cached <= prompt <= i64::MAX,
        0 <= output <= i64::MAX,
    ensures
        ({
            let out = anthropic::anthropic_of_chat(chat, model, fresh, fresh_id);
            &&& within(out, "usage"@, "input_tokens"@) == Some(Jv::Int(prompt - cached))
            &&& within(out, "usage"@, "output_tokens"@) == Some(Jv::Int(output))
            &&& within(out, "usage"@, "cache_read_input_tokens"@) == Some(Jv::Int(cached))
        }),
{
    words::event_members();
    words::count_words();
}

/// What an error is called in the two protocols, by its status.
pub proof fn errors_are_named(status: int)
    ensures
        anthropic::error_kind(400) == "invalid_request_error"@,
        anthropic::error_kind(401) == "authentication_error"@,
        anthropic::error_kind(403) == "permission_error"@,
        anthropic::error_kind(404) == "not_found_error"@,
        anthropic::error_kind(413) == "request_too_large"@,
        anthropic::error_kind(429) == "rate_limit_error"@,
        status != 400 && status != 401 && status != 403 && status != 404 && status != 413 && status != 429
            ==> anthropic::error_kind(status) == "api_error"@,
        status == 400 || status == 401 || status == 403 || status == 404 || status == 429
            ==> anthropic::error_code(status) == anthropic::error_kind(status),
        500 <= status <= 599 ==> anthropic::error_code(status) == "server_error"@,
        status != 400 && status != 401 && status != 403 && status != 404 && status != 429 && !(500 <= status
            <= 599) ==> anthropic::error_code(status) == "api_error"@,
{
}

// -------------------------------------------------------------- as a response

/// Whether a response is complete, and why not: the length and the filter cut it short.
pub proof fn response_tells_the_reason(
    chat: Jv,
    choice: Jv,
    message: Jv,
    reason: Seq<char>,
    model: Seq<char>,
    request: Jv,
    plan: PlanV,
    fresh: FreshV,
    now: int,
)
    requires
        answers(chat, choice, message),
        holds(choice, "finish_reason"@, reason),
    ensures
        ({
            let out = responses::responses_of_chat(chat, model, request, plan, fresh, now);
            &&& reason == "length"@ ==> holds(out, "status"@, "incomplete"@) && within(
                out,
                "incomplete_details"@,
                "reason"@,
            ) == Some(Jv::Str("max_output_tokens"@)) && out.get("completed_at"@) == Some(Jv::Null)
            &&& reason == "content_filter"@ ==> holds(out, "status"@, "incomplete"@) && within(
                out,
                "incomplete_details"@,
                "reason"@,
            ) == Some(Jv::Str("content_filter"@)) && out.get("completed_at"@) == Some(Jv::Null)
            &&& reason != "length"@ && reason != "content_filter"@ ==> holds(
                out,
                "status"@,
                "completed"@,
            ) && out.get("incomplete_details"@) == Some(Jv::Null) && out.get("completed_at"@) == Some(
                Jv::Int(now),
            )
        }),
{
    words::envelope_words();
    words::reason_words();
    reveal_strlit("incomplete");
    reveal_strlit("completed");
    assert("incomplete"@.len() == 10);
    assert("completed"@.len() == 9);
}

proof fn items_of_calls(calls: Seq<Jv>, plan: PlanV, fresh: FreshV, n: nat)
    ensures
        responses::call_items(calls, plan, fresh, n).len() == n,
        forall|i: int|
            #![trigger responses::call_items(calls, plan, fresh, n)[i]]
            0 <= i < n ==> responses::call_items(calls, plan, fresh, n)[i] == responses::call_items(
                calls,
                plan,
                fresh,
                (i + 1) as nat,
            ).last(),
    decreases n,
{
    if n > 0 {
        items_of_calls(calls, plan, fresh, (n - 1) as nat);
        let before = responses::call_items(calls, plan, fresh, (n - 1) as nat);
        let all = responses::call_items(calls, plan, fresh, n);
        assert forall|i: int| 0 <= i < n implies #[trigger] all[i] == responses::call_items(
            calls,
            plan,
            fresh,
            (i + 1) as nat,
        ).last() by {
            if i < n - 1 {
                assert(all[i] == before[i]);
            }
        }
    }
}

/// A response says what the chat answer says: the thinking as a summary, the text as a message,
/// and each call with its identifier, its name and its arguments as they are.
pub proof fn response_says_the_same(
    chat: Jv,
    choice: Jv,
    message: Jv,
    thought: Seq<char>,
    said: Seq<char>,
    model: Seq<char>,
    request: Jv,
    plan: PlanV,
    fresh: FreshV,
    now: int,
)
    requires
        answers(chat, choice, message),
        holds(message, "content"@, said),
        thought.len() > 0 ==> holds(message, "reasoning_content"@, thought),
        thought.len() == 0 ==> message.get("reasoning_content"@) is None && message.get("reasoning"@)
            is None,
    ensures
        ({
            let body = responses::responses_of_chat(chat, model, request, plan, fresh, now);
            let out = list_in(body, "output"@);
            let calls = list_in(message, "tool_calls"@);
            let a = one_if(thought.len() > 0);
            let b = one_if(said.len() > 0 || calls.len() == 0);
            &&& holds(body, "output_text"@, said)
            &&& out.len() == a + b + calls.len()
            &&& a == 1 ==> holds(out[0], "type"@, "reasoning"@) && list_in(out[0], "summary"@).len() == 1
                && holds(list_in(out[0], "summary"@)[0], "text"@, thought)
            &&& b == 1 ==> holds(out[a], "type"@, "message"@) && holds(out[a], "role"@, "assistant"@)
                && list_in(out[a], "content"@).len() == 1 && holds(
                list_in(out[a], "content"@)[0],
                "type"@,
                "output_text"@,
            ) && holds(list_in(out[a], "content"@)[0], "text"@, said)
            &&& forall|i: int, id: Seq<char>, name: Seq<char>, arguments: Seq<char>|
                #![trigger is_call(calls[i], id, name, arguments)]
                0 <= i < calls.len() && is_call(calls[i], id, name, arguments) && id.len() > 0
                    && !plan.is_custom(name) && plan.spaces.len() == 0 ==> {
                    let item = out[a + b + i];
                    &&& holds(item, "type"@, "function_call"@)
                    &&& holds(item, "call_id"@, id)
                    &&& holds(item, "name"@, name)
                    &&& holds(item, "arguments"@, arguments)
                    &&& holds(item, "status"@, "completed"@)
                }
        }),
{
    words::envelope_words();
    words::item_words();
    let calls = list_in(message, "tool_calls"@);
    items_of_calls(calls, plan, fresh, calls.len());
    let head = responses::said_items(thought, said, calls.len() == 0, fresh);
    let rest = responses::call_items(calls, plan, fresh, calls.len());
    let a = one_if(thought.len() > 0);
    let b = one_if(said.len() > 0 || calls.len() == 0);
    assert(chat::reasoning_of(message) =~= thought);
    assert(protocol::opt_plain_text(message.get("content"@)) == said);
    assert(chat::calls_of(message) == calls);
    assert(head.len() == a + b);
    let out = list_in(
        responses::responses_of_chat(chat, model, request, plan, fresh, now),
        "output"@,
    );
    assert(out == head + rest);
    assert(a == 1 ==> out[0] == head[0]);
    assert(b == 1 ==> out[a] == head[a]);
    assert forall|i: int, id: Seq<char>, name: Seq<char>, arguments: Seq<char>|
        #![trigger is_call(calls[i], id, name, arguments)]
        0 <= i < calls.len() && is_call(calls[i], id, name, arguments) && id.len() > 0
            && !plan.is_custom(name) && plan.spaces.len() == 0 implies {
        let item = out[a + b + i];
        &&& holds(item, "type"@, "function_call"@)
        &&& holds(item, "call_id"@, id)
        &&& holds(item, "name"@, name)
        &&& holds(item, "arguments"@, arguments)
        &&& holds(item, "status"@, "completed"@)
    } by {
        assert(out[a + b + i] == rest[i]);
        assert(rest[i] == responses::call_items(calls, plan, fresh, (i + 1) as nat).last());
    }
}

/// A call of a tool that takes free text stands in the response as such a call, with the text
/// that its arguments hold.
pub proof fn response_calls_free_tools(
    calls: Seq<Jv>,
    plan: PlanV,
    fresh: FreshV,
    i: int,
    id: Seq<char>,
    name: Seq<char>,
    arguments: Seq<char>,
)
    requires
        0 <= i < calls.len(),
        is_call(calls[i], id, name, arguments),
        id.len() > 0,
        plan.custom.contains(name),
        plan.spaces.len() == 0,
    ensures
        ({
            let item = responses::call_items(calls, plan, fresh, calls.len())[i];
            &&& holds(item, "type"@, "custom_tool_call"@)
            &&& holds(item, "call_id"@, id)
            &&& holds(item, "name"@, name)
            &&& item.get("arguments"@) is None
            &&& (json::parsed_json(arguments) matches Some(v) ==> (v.get("input"@) matches Some(
                Jv::Str(s),
            ) ==> holds(item, "input"@, s)))
            &&& json::parsed_json(arguments) is None ==> holds(item, "input"@, arguments)
        }),
{
    words::item_words();
    items_of_calls(calls, plan, fresh, calls.len());
    let all = responses::call_items(calls, plan, fresh, calls.len());
    assert(all[i] == responses::call_items(calls, plan, fresh, (i + 1) as nat).last());
}

/// A call of a tool that was declared in a namespace goes back under the name and the namespace
/// of the declaration.
pub proof fn response_restores_namespaces(item: Jv, plan: PlanV, k: int)
    requires
        item is Obj,
        0 <= k < plan.spaces.len(),
        forall|i: int| 0 <= i < k ==> (#[trigger] plan.spaces[i]).flat != plan.spaces[k].flat,
    ensures
        ({
            let out = plan.restored(item, plan.spaces[k].flat);
            &&& holds(out, "name"@, plan.spaces[k].name)
            &&& holds(out, "namespace"@, plan.spaces[k].namespace)
            &&& forall|key: Seq<char>|
                key != "name"@ && key != "namespace"@ ==> #[trigger] out.get(key) == item.get(key)
        }),
{
    words::item_words();
    space_is_found(plan, 0, k);
}

proof fn space_is_found(plan: PlanV, i: int, k: int)
    requires
        0 <= i <= k < plan.spaces.len(),
        forall|j: int| i <= j < k ==> (#[trigger] plan.spaces[j]).flat != plan.spaces[k].flat,
    ensures
        crate::protocol::tool_plan::space_from(plan.spaces, plan.spaces[k].flat, i) == k,
    decreases k - i,
{
    if i < k {
        assert(plan.spaces[i].flat != plan.spaces[k].flat);
        space_is_found(plan, i + 1, k);
    }
}

/// A response carries the identifier of the answer, the name of the model, the time of the
/// answer, and what the request had asked for.
pub proof fn response_has_its_head(
    chat: Jv,
    id: Seq<char>,
    created: int,
    model: Seq<char>,
    request: Jv,
    plan: PlanV,
    fresh: FreshV,
    now: int,
)
    requires
        holds(chat, "id"@, id),
        chat.get("created"@) == Some(Jv::Int(created)),
        i64::MIN <= created <= i64::MAX,
    ensures
        ({
            let out = responses::responses_of_chat(chat, model, request, plan, fresh, now);
            &&& holds(
                out,
                "id"@,
                if id.len() > 0 {
                    id
                } else {
                    fresh.resp
                },
            )
            &&& holds(out, "object"@, "response"@)
            &&& holds(out, "model"@, model)
            &&& out.get("created_at"@) == Some(Jv::Int(created))
            &&& out.get("error"@) == Some(Jv::Null)
            &&& out.get("store"@) == Some(Jv::Bool(false))
            &&& out.get("background"@) == Some(Jv::Bool(false))
            &&& out.get("previous_response_id"@) == Some(Jv::Null)
            &&& goes_back(out, request, "instructions"@)
            &&& goes_back(out, request, "max_output_tokens"@)
            &&& goes_back(out, request, "max_tool_calls"@)
            &&& goes_back(out, request, "parallel_tool_calls"@)
            &&& goes_back(out, request, "temperature"@)
            &&& goes_back(out, request, "text"@)
            &&& goes_back(out, request, "tool_choice"@)
            &&& goes_back(out, request, "top_logprobs"@)
            &&& goes_back(out, request, "top_p"@)
            &&& goes_back(out, request, "truncation"@)
            &&& goes_back(out, request, "user"@)
            &&& goes_back(out, request, "metadata"@)
            &&& out.get("tools"@) == Some(Jv::Arr(list_in(request, "tools"@)))
            &&& (within(request, "reasoning"@, "effort"@) matches Some(v) ==> within(
                out,
                "reasoning"@,
                "effort"@,
            ) == Some(v))
            &&& (within(request, "reasoning"@, "summary"@) matches Some(v) ==> within(
                out,
                "reasoning"@,
                "summary"@,
            ) == Some(v))
        }),
{
    words::envelope_words();
    words::format_words();
}

/// Whether what a request asks for under a member stands in the response too.
pub open spec fn goes_back(out: Jv, request: Jv, key: Seq<char>) -> bool {
    request.get(key) matches Some(v) ==> v !is Null ==> out.get(key) == Some(v)
}

/// What a response says where the request does not ask for anything.
pub proof fn response_has_its_defaults(
    chat: Jv,
    model: Seq<char>,
    plan: PlanV,
    fresh: FreshV,
    now: int,
)
    ensures
        ({
            let out = responses::responses_of_chat(chat, model, Jv::obj(), plan, fresh, now);
            &&& out.get("parallel_tool_calls"@) == Some(Jv::Bool(true))
            &&& out.get("temperature"@) == Some(Jv::Int(1))
            &&& out.get("top_p"@) == Some(Jv::Int(1))
            &&& out.get("top_logprobs"@) == Some(Jv::Int(0))
            &&& holds(out, "tool_choice"@, "auto"@)
            &&& holds(out, "truncation"@, "disabled"@)
            &&& out.get("tools"@) == Some(Jv::Arr(Seq::empty()))
            &&& out.get("metadata"@) == Some(Jv::obj())
            &&& out.get("instructions"@) == Some(Jv::Null)
            &&& out.get("user"@) == Some(Jv::Null)
        }),
{
    words::envelope_words();
}

/// The tokens of a response: input, output and all of them, with what came from the cache and
/// what was thought where there is some.
pub proof fn response_counts_tokens(
    chat: Jv,
    u: Map<Seq<char>, Jv>,
    i: int,
    o: int,
    model: Seq<char>,
    request: Jv,
    plan: PlanV,
    fresh: FreshV,
    now: int,
)
    requires
        chat.get("usage"@) == Some(Jv::Obj(u)),
        Jv::Obj(u).get("prompt_tokens"@) == Some(Jv::Int(i)),
        Jv::Obj(u).get("completion_tokens"@) == Some(Jv::Int(o)),
        0 <= i <= i64::MAX,
        0 <= o <= i64::MAX - i,
    ensures
        ({
            let out = responses::responses_of_chat(chat, model, request, plan, fresh, now);
            let used = out.get("usage"@)->0;
            &&& out.get("usage"@) is Some
            &&& used.get("input_tokens"@) == Some(Jv::Int(i))
            &&& used.get("output_tokens"@) == Some(Jv::Int(o))
            &&& Jv::Obj(u).get("total_tokens"@) is None ==> used.get("total_tokens"@) == Some(
                Jv::Int(i + o),
            )
            &&& (Jv::Obj(u).get("total_tokens"@) matches Some(Jv::Int(t)) ==> i + o <= t <= i64::MAX
                ==> used.get("total_tokens"@) == Some(Jv::Int(t)))
            &&& (within(Jv::Obj(u), "prompt_tokens_details"@, "cached_tokens"@) matches Some(Jv::Int(c))
                ==> 0 < c <= i64::MAX ==> within(used, "input_tokens_details"@, "cached_tokens"@) == Some(
                Jv::Int(c),
            ))
            &&& (within(Jv::Obj(u), "completion_tokens_details"@, "reasoning_tokens"@) matches Some(
                Jv::Int(c),
            ) ==> 0 < c <= i64::MAX ==> within(used, "output_tokens_details"@, "reasoning_tokens"@)
                == Some(Jv::Int(c)))
        }),
{
    words::envelope_words();
    words::count_words();
    let j = Jv::Obj(u);
    reveal_with_fuel(protocol::number_under, 3);
    assert(responses::usage_input(j) == i) by {
        assert(seq!["prompt_tokens", "input_tokens"][0] == "prompt_tokens");
    }
    assert(responses::usage_output(j) == o) by {
        assert(seq!["completion_tokens", "output_tokens"][0] == "completion_tokens");
    }
    assert(seq!["total_tokens"][0] == "total_tokens");
    let out = responses::responses_of_chat(chat, model, request, plan, fresh, now);
    assert(out.get("usage"@) == Some(responses::responses_usage(Some(j))));
}

} // verus!
