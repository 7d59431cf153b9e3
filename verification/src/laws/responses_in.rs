//! A Responses request, as a chat request.

use crate::json::Jv;
use crate::json;
use crate::laws::words;
use crate::laws::{holds, is_kind, list_in, within};
use crate::protocol::chat;
use crate::protocol::responses::InputV;
use crate::protocol::responses;
use crate::protocol::tool_plan::{DeclV, PlanV};
use crate::protocol::tool_plan;
use crate::protocol;
use crate::text;
use vstd::prelude::*;
use vstd::string::*;

verus! {

/// Whether a request leans on something that the server would have to keep.
pub open spec fn leans(body: Jv) -> bool {
    set(body, "previous_response_id"@) || set(body, "conversation"@) || set(body, "prompt"@) || set(
        body,
        "background"@,
    )
}

/// Whether a member is there and says something.
pub open spec fn set(body: Jv, key: Seq<char>) -> bool {
    match body.get(key) {
        None => false,
        Some(Jv::Null) => false,
        Some(Jv::Bool(b)) => b,
        Some(Jv::Int(n)) => n != 0,
        Some(Jv::Str(s)) => s.len() > 0,
        Some(Jv::Float(bits)) => bits != 0 && bits != 0x8000_0000_0000_0000,
        Some(_) => true,
    }
}

/// A request is refused exactly where it leans on something that the server would have to keep.
pub proof fn kept_state_is_refused(
    body: Jv,
    plan: PlanV,
    fresh: Seq<Seq<char>>,
    names: Seq<Seq<char>>,
)
    ensures
        responses::chat_of_responses(body, plan, fresh, names) is Err <==> leans(body),
{
}

#[verifier::opaque]
spec fn with_member(j: Jv, key: Seq<char>, v: Option<Jv>) -> Jv {
    j.put_some(key, v)
}

proof fn member_is_put(j: Jv, key: Seq<char>, v: Option<Jv>)
    requires
        j is Obj,
    ensures
        with_member(j, key, v) is Obj,
        forall|k: Seq<char>| k != key ==> (#[trigger] with_member(j, key, v).get(k)) == j.get(k),
        j.get(key) is None ==> with_member(j, key, v).get(key) == v,
{
    reveal(with_member);
}

spec fn eleven_members(
    s0: Jv,
    a: Option<Jv>,
    b: Option<Jv>,
    c: Option<Jv>,
    d: Option<Jv>,
    e: Option<Jv>,
    f: Option<Jv>,
    g: Option<Jv>,
    h: Option<Jv>,
    i: Option<Jv>,
    j: Option<Jv>,
    k: Option<Jv>,
) -> Jv {
    let s1 = with_member(s0, "max_completion_tokens"@, a);
    let s2 = with_member(s1, "temperature"@, b);
    let s3 = with_member(s2, "top_p"@, c);
    let s4 = with_member(s3, "service_tier"@, d);
    let s5 = with_member(s4, "parallel_tool_calls"@, e);
    let s6 = with_member(s5, "user"@, f);
    let s7 = with_member(s6, "metadata"@, g);
    let s8 = with_member(s7, "tools"@, h);
    let s9 = with_member(s8, "tool_choice"@, i);
    let s10 = with_member(s9, "response_format"@, j);
    with_member(s10, "reasoning_effort"@, k)
}

proof fn eleven_members_stand(
    s0: Jv,
    a: Option<Jv>,
    b: Option<Jv>,
    c: Option<Jv>,
    d: Option<Jv>,
    e: Option<Jv>,
    f: Option<Jv>,
    g: Option<Jv>,
    h: Option<Jv>,
    i: Option<Jv>,
    j: Option<Jv>,
    k: Option<Jv>,
)
    requires
        s0 is Obj,
        forall|x: Seq<char>|
            x != "model"@ && x != "messages"@ && x != "stream"@ ==> (#[trigger] s0.get(x)) is None,
    ensures
        ({
            let out = eleven_members(s0, a, b, c, d, e, f, g, h, i, j, k);
            &&& out.get("model"@) == s0.get("model"@)
            &&& out.get("messages"@) == s0.get("messages"@)
            &&& out.get("stream"@) == s0.get("stream"@)
            &&& out.get("max_completion_tokens"@) == a
            &&& out.get("temperature"@) == b
            &&& out.get("top_p"@) == c
            &&& out.get("service_tier"@) == d
            &&& out.get("parallel_tool_calls"@) == e
            &&& out.get("user"@) == f
            &&& out.get("metadata"@) == g
            &&& out.get("tools"@) == h
            &&& out.get("tool_choice"@) == i
            &&& out.get("response_format"@) == j
            &&& out.get("reasoning_effort"@) == k
        }),
{
    words::chat_request_words();
    let s1 = with_member(s0, "max_completion_tokens"@, a);
    member_is_put(s0, "max_completion_tokens"@, a);
    let s2 = with_member(s1, "temperature"@, b);
    member_is_put(s1, "temperature"@, b);
    let s3 = with_member(s2, "top_p"@, c);
    member_is_put(s2, "top_p"@, c);
    let s4 = with_member(s3, "service_tier"@, d);
    member_is_put(s3, "service_tier"@, d);
    let s5 = with_member(s4, "parallel_tool_calls"@, e);
    member_is_put(s4, "parallel_tool_calls"@, e);
    let s6 = with_member(s5, "user"@, f);
    member_is_put(s5, "user"@, f);
    let s7 = with_member(s6, "metadata"@, g);
    member_is_put(s6, "metadata"@, g);
    let s8 = with_member(s7, "tools"@, h);
    member_is_put(s7, "tools"@, h);
    let s9 = with_member(s8, "tool_choice"@, i);
    member_is_put(s8, "tool_choice"@, i);
    let s10 = with_member(s9, "response_format"@, j);
    member_is_put(s9, "response_format"@, j);
    let s11 = with_member(s10, "reasoning_effort"@, k);
    member_is_put(s10, "reasoning_effort"@, k);
}

spec fn tools_sent(plan: PlanV) -> Option<Jv> {
    let tools = responses::planned_tools(plan.declarations, plan.declarations.len());
    if tools.len() > 0 {
        Some(Jv::Arr(tools))
    } else {
        None
    }
}

spec fn choice_sent(body: Jv) -> Option<Jv> {
    match json::if_truthy(body.get("tool_choice"@)) {
        Some(choice) => Some(responses::choice_to_chat(choice)),
        None => None,
    }
}

spec fn format_sent(body: Jv) -> Option<Jv> {
    match json::if_truthy(json::opt_get(body.get("text"@), "format"@)) {
        Some(format) => Some(responses::format_of(format)),
        None => None,
    }
}

proof fn sent_as_chat(body: Jv, plan: PlanV, fresh: Seq<Seq<char>>, names: Seq<Seq<char>>)
    requires
        !leans(body),
    ensures
        responses::chat_of_responses(body, plan, fresh, names) matches Ok(out) && {
            &&& out.get("model"@) == Some(body.field("model"@))
            &&& out.get("messages"@) == Some(
                Jv::Arr(
                    responses::messages_of(
                        body.get("instructions"@),
                        body.get("input"@),
                        fresh,
                        names,
                    ),
                ),
            )
            &&& out.get("stream"@) == Some(Jv::Bool(chat::flag(body, "stream"@)))
            &&& out.get("max_completion_tokens"@) == json::if_truthy(body.get("max_output_tokens"@))
            &&& out.get("temperature"@) == json::if_not_null(body.get("temperature"@))
            &&& out.get("top_p"@) == json::if_not_null(body.get("top_p"@))
            &&& out.get("service_tier"@) == json::if_not_null(body.get("service_tier"@))
            &&& out.get("parallel_tool_calls"@) == json::if_not_null(body.get("parallel_tool_calls"@))
            &&& out.get("user"@) == json::if_not_null(body.get("user"@))
            &&& out.get("metadata"@) == json::if_not_null(body.get("metadata"@))
            &&& out.get("tools"@) == tools_sent(plan)
            &&& out.get("tool_choice"@) == choice_sent(body)
            &&& out.get("response_format"@) == format_sent(body)
            &&& out.get("reasoning_effort"@) == responses::if_not_blank(json::opt_get(body.get("reasoning"@), "effort"@))
        },
{
    words::chat_request_words();
    let s0 = Jv::obj().put("model"@, body.field("model"@)).put(
        "messages"@,
        Jv::Arr(
            responses::messages_of(body.get("instructions"@), body.get("input"@), fresh, names),
        ),
    ).put("stream"@, Jv::Bool(chat::flag(body, "stream"@)));
    eleven_members_stand(
        s0,
        json::if_truthy(body.get("max_output_tokens"@)),
        json::if_not_null(body.get("temperature"@)),
        json::if_not_null(body.get("top_p"@)),
        json::if_not_null(body.get("service_tier"@)),
        json::if_not_null(body.get("parallel_tool_calls"@)),
        json::if_not_null(body.get("user"@)),
        json::if_not_null(body.get("metadata"@)),
        tools_sent(plan),
        choice_sent(body),
        format_sent(body),
        responses::if_not_blank(json::opt_get(body.get("reasoning"@), "effort"@)),
    );
    assert(responses::chat_of_responses(body, plan, fresh, names) == Ok::<Jv, Seq<char>>(
        eleven_members(
            s0,
            json::if_truthy(body.get("max_output_tokens"@)),
            json::if_not_null(body.get("temperature"@)),
            json::if_not_null(body.get("top_p"@)),
            json::if_not_null(body.get("service_tier"@)),
            json::if_not_null(body.get("parallel_tool_calls"@)),
            json::if_not_null(body.get("user"@)),
            json::if_not_null(body.get("metadata"@)),
            tools_sent(plan),
            choice_sent(body),
            format_sent(body),
            responses::if_not_blank(json::opt_get(body.get("reasoning"@), "effort"@)),
        ),
    )) by {
        reveal(with_member);
    }
}

/// What a request asks for besides its input goes on under the names of the chat protocol.
pub proof fn plain_members_go_on(
    body: Jv,
    plan: PlanV,
    fresh: Seq<Seq<char>>,
    names: Seq<Seq<char>>,
)
    requires
        !leans(body),
    ensures
        responses::chat_of_responses(body, plan, fresh, names) matches Ok(out) && {
            &&& (body.get("model"@) matches Some(v) ==> out.get("model"@) == Some(v))
            &&& out.get("stream"@) == Some(Jv::Bool(body.get("stream"@) == Some(Jv::Bool(true))))
            &&& (body.get("max_output_tokens"@) matches Some(Jv::Int(n)) ==> n != 0 ==> out.get(
                "max_completion_tokens"@,
            ) == Some(Jv::Int(n)))
            &&& body.get("max_output_tokens"@) is None ==> out.get("max_completion_tokens"@) is None
            &&& kept(out, body, "temperature"@)
            &&& kept(out, body, "top_p"@)
            &&& kept(out, body, "service_tier"@)
            &&& kept(out, body, "parallel_tool_calls"@)
            &&& kept(out, body, "user"@)
            &&& kept(out, body, "metadata"@)
            &&& (within(body, "reasoning"@, "effort"@) matches Some(Jv::Str(s)) ==> text::trimmed(
                s,
            ).len() > 0 ==> holds(out, "reasoning_effort"@, s))
            &&& within(body, "reasoning"@, "effort"@) is None ==> out.get("reasoning_effort"@) is None
        },
{
    sent_as_chat(body, plan, fresh, names);
}

/// Whether a member stands in what is sent as it stood in what came, and only where it did.
pub open spec fn kept(out: Jv, came: Jv, key: Seq<char>) -> bool {
    out.get(key) == match came.get(key) {
        Some(Jv::Null) => None,
        v => v,
    }
}

/// How a tool may be chosen goes on: a word as it is, a function by its name.
pub proof fn choices_go_on(
    body: Jv,
    plan: PlanV,
    fresh: Seq<Seq<char>>,
    names: Seq<Seq<char>>,
    choice: Jv,
)
    requires
        !leans(body),
        body.get("tool_choice"@) == Some(choice),
    ensures
        responses::chat_of_responses(body, plan, fresh, names) matches Ok(out) && {
            &&& (choice matches Jv::Str(s) ==> s.len() > 0 ==> out.get("tool_choice"@) == Some(choice))
            &&& (choice.get("name"@) matches Some(Jv::Str(s)) ==> s.len() > 0 ==> {
                &&& within(out, "tool_choice"@, "type"@) == Some(Jv::Str("function"@))
                &&& out.get("tool_choice"@) matches Some(c) && within(c, "function"@, "name"@) == Some(
                    Jv::Str(s),
                )
            })
        },
{
    words::format_words();
    sent_as_chat(body, plan, fresh, names);
}

/// The format of the answer goes on, that of a schema with its members gathered in one.
pub proof fn format_goes_on(
    body: Jv,
    plan: PlanV,
    fresh: Seq<Seq<char>>,
    names: Seq<Seq<char>>,
    format: Jv,
)
    requires
        !leans(body),
        within(body, "text"@, "format"@) == Some(format),
        format is Obj,
        format.get("type"@) matches Some(Jv::Str(_)),
    ensures
        responses::chat_of_responses(body, plan, fresh, names) matches Ok(out) && {
            &&& !holds(format, "type"@, "json_schema"@) ==> out.get("response_format"@) == Some(format)
            &&& holds(format, "type"@, "json_schema"@) ==> {
                &&& within(out, "response_format"@, "type"@) == Some(Jv::Str("json_schema"@))
                &&& within(out, "response_format"@, "json_schema"@) matches Some(f) && {
                    &&& gathered(f, format, "name"@)
                    &&& gathered(f, format, "description"@)
                    &&& gathered(f, format, "schema"@)
                    &&& gathered(f, format, "strict"@)
                }
            }
        },
{
    words::format_words();
    sent_as_chat(body, plan, fresh, names);
}

/// Whether a member of a flat format stands in the schema.
pub open spec fn gathered(f: Jv, format: Jv, key: Seq<char>) -> bool {
    set(format, key) ==> f.get(key) == format.get(key)
}

/// The tools of the plan go on: a tool in the form of the chat protocol as it is, a flat function
/// in that form, any other as the function that stands in for it.
pub proof fn tools_go_on(
    body: Jv,
    plan: PlanV,
    fresh: Seq<Seq<char>>,
    names: Seq<Seq<char>>,
    i: int,
)
    requires
        !leans(body),
        0 <= i < plan.declarations.len(),
        forall|k: int|
            0 <= k < plan.declarations.len() ==> {
                let d = #[trigger] plan.declarations[k];
                &&& d.tool is Obj
                &&& d.nested || d.downgraded is Some
            },
    ensures
        responses::chat_of_responses(body, plan, fresh, names) matches Ok(out) && {
            let d = plan.declarations[i];
            let t = list_in(out, "tools"@)[i];
            &&& list_in(out, "tools"@).len() == plan.declarations.len()
            &&& d.nested ==> t == d.tool
            &&& is_kind(d.tool, "function"@) && !d.nested && d.flat is Some ==> t == d.flat->0
            &&& is_kind(d.tool, "custom"@) && !d.nested ==> t == d.downgraded->0
        },
{
    sent_as_chat(body, plan, fresh, names);
    tools_are_planned(plan.declarations, plan.declarations.len());
    reveal_strlit("function");
    reveal_strlit("custom");
    assert("function"@.len() == 8);
    assert("custom"@.len() == 6);
    let tools = responses::planned_tools(plan.declarations, plan.declarations.len());
    assert(tools[i] == responses::planned_tool(plan.declarations[i])->0);
}

proof fn tools_are_planned(list: Seq<DeclV>, n: nat)
    requires
        n <= list.len(),
        forall|k: int|
            0 <= k < list.len() ==> {
                let d = #[trigger] list[k];
                &&& d.tool is Obj
                &&& d.nested || d.downgraded is Some
            },
    ensures
        responses::planned_tools(list, n).len() == n,
        forall|i: int|
            #![trigger responses::planned_tools(list, n)[i]]
            0 <= i < n ==> Some(responses::planned_tools(list, n)[i]) == responses::planned_tool(
                list[i],
            ),
    decreases n,
{
    if n > 0 {
        tools_are_planned(list, (n - 1) as nat);
        let d = list[n - 1];
        assert(d.tool is Obj);
    }
}

// -------------------------------------------------------------- the input

/// The instructions stand first, as what the system says.
pub proof fn instructions_stand_first(
    body: Jv,
    plan: PlanV,
    fresh: Seq<Seq<char>>,
    names: Seq<Seq<char>>,
    s: Seq<char>,
    input: Seq<char>,
)
    requires
        !leans(body),
        holds(body, "instructions"@, s),
        text::trimmed(s).len() > 0,
        holds(body, "input"@, input),
    ensures
        responses::chat_of_responses(body, plan, fresh, names) matches Ok(out) && {
            let messages = list_in(out, "messages"@);
            &&& messages.len() == 2
            &&& holds(messages[0], "role"@, "system"@)
            &&& holds(messages[0], "content"@, s)
            &&& holds(messages[1], "role"@, "user"@)
            &&& holds(messages[1], "content"@, input)
        },
{
    words::message_words();
    sent_as_chat(body, plan, fresh, names);
}

/// A call in the input becomes a call of the assistant, with the thinking that came before it.
pub proof fn calls_are_made(
    st: InputV,
    item: Jv,
    id: Seq<char>,
    arguments: Seq<char>,
    fresh: Seq<char>,
    name: Seq<char>,
)
    requires
        holds(item, "call_id"@, id),
        id.len() > 0,
        holds(item, "arguments"@, arguments),
    ensures
        is_kind(item, "function_call"@) ==> {
            let after = responses::input_item(st, item, fresh, name);
            let m = after.messages.last();
            let call = list_in(m, "tool_calls"@)[0];
            &&& after.messages.len() == st.messages.len() + 1
            &&& after.messages.drop_last() == st.messages
            &&& holds(m, "role"@, "assistant"@)
            &&& list_in(m, "tool_calls"@).len() == 1
            &&& holds(call, "id"@, id)
            &&& holds(call, "type"@, "function"@)
            &&& within(call, "function"@, "name"@) == Some(Jv::Str(name))
            &&& within(call, "function"@, "arguments"@) == Some(
                Jv::Str(
                    if arguments.len() > 0 {
                        arguments
                    } else {
                        "{}"@
                    },
                ),
            )
            &&& m.get("reasoning_content"@) == (match st.pending {
                Some(t) => Some(Jv::Str(t)),
                None => None,
            })
        },
{
    words::message_words();
    words::part_kinds();
    let after = responses::input_item(st, item, fresh, name);
    if is_kind(item, "function_call"@) {
        assert(after.messages.drop_last() =~= st.messages);
    }
}

/// A call with free text in the input becomes a call of the function that stands in for the
/// tool, with the text as its input.
pub proof fn free_calls_are_made(
    st: InputV,
    item: Jv,
    id: Seq<char>,
    input: Seq<char>,
    fresh: Seq<char>,
    name: Seq<char>,
)
    requires
        holds(item, "call_id"@, id),
        id.len() > 0,
        holds(item, "input"@, input),
        input.len() > 0,
    ensures
        is_kind(item, "custom_tool_call"@) ==> {
            let m = responses::input_item(st, item, fresh, name).messages.last();
            let call = list_in(m, "tool_calls"@)[0];
            &&& holds(m, "role"@, "assistant"@)
            &&& list_in(m, "tool_calls"@).len() == 1
            &&& holds(call, "id"@, id)
            &&& within(call, "function"@, "name"@) == Some(Jv::Str(name))
            &&& within(call, "function"@, "arguments"@) == Some(
                Jv::Str(json::json_text_of(Jv::obj().put("input"@, Jv::Str(input)))),
            )
        },
{
    words::message_words();
    words::part_kinds();
}

/// The output of a call becomes the message of the tool that answers that call.
pub proof fn outputs_go_on(
    st: InputV,
    item: Jv,
    id: Seq<char>,
    output: Seq<char>,
    fresh: Seq<char>,
    name: Seq<char>,
)
    requires
        holds(item, "call_id"@, id),
        id.len() > 0,
        holds(item, "output"@, output),
    ensures
        is_kind(item, "function_call_output"@) || is_kind(item, "custom_tool_call_output"@) ==> {
            let after = responses::input_item(st, item, fresh, name);
            let m = after.messages.last();
            &&& after.messages.drop_last() == st.messages
            &&& after.pending == st.pending
            &&& holds(m, "role"@, "tool"@)
            &&& holds(m, "tool_call_id"@, id)
            &&& holds(
                m,
                "content"@,
                if output.len() > 0 {
                    output
                } else {
                    "(empty)"@
                },
            )
        },
{
    words::message_words();
    words::part_kinds();
    let after = responses::input_item(st, item, fresh, name);
    if is_kind(item, "function_call_output"@) || is_kind(item, "custom_tool_call_output"@) {
        assert(after.messages.drop_last() =~= st.messages);
    }
}

/// A message in the input goes on with its role and its text, a developer's as the system's; the
/// thinking before it goes with it where it is the assistant's, and is over where it is the
/// user's or the system's.
pub proof fn messages_go_on(
    st: InputV,
    item: Jv,
    s: Seq<char>,
    fresh: Seq<char>,
    name: Seq<char>,
)
    requires
        holds(item, "content"@, s),
        s.len() > 0,
        item.get("summary"@) is None,
        item.get("role"@) matches Some(Jv::Str(_)),
    ensures
        is_kind(item, "message"@) ==> {
            let after = responses::input_item(st, item, fresh, name);
            let m = after.messages.last();
            let role = text::lowercase(item.get("role"@)->0->Str_0);
            &&& after.messages.drop_last() == st.messages
            &&& holds(m, "content"@, s)
            &&& role == "user"@ ==> holds(m, "role"@, "user"@) && after.pending is None
            &&& role == "system"@ || role == "developer"@ ==> holds(m, "role"@, "system"@)
                && after.pending is None
            &&& role == "assistant"@ ==> holds(m, "role"@, "assistant"@) && m.get("reasoning_content"@)
                == (match st.pending {
                Some(t) => Some(Jv::Str(t)),
                None => None,
            })
        },
{
    words::message_words();
    words::part_kinds();
    words::role_words();
    reveal_strlit("user");
    reveal_strlit("system");
    reveal_strlit("assistant");
    let after = responses::input_item(st, item, fresh, name);
    if is_kind(item, "message"@) {
        assert(after.messages.drop_last() =~= st.messages);
    }
}

/// Thinking in the input waits for what the assistant says next; more of it is added on a line
/// of its own, and where what waits was given out, it is replaced.
pub proof fn thinking_waits(
    st: InputV,
    item: Jv,
    part: Jv,
    s: Seq<char>,
    fresh: Seq<char>,
    name: Seq<char>,
)
    requires
        item.get("summary"@) == Some(Jv::Arr(seq![part])),
        holds(part, "text"@, s),
        s.len() > 0,
    ensures
        is_kind(item, "reasoning"@) ==> {
            let after = responses::input_item(st, item, fresh, name);
            &&& after.messages == st.messages
            &&& !after.attached
            &&& st.pending is None ==> after.pending == Some(s)
            &&& (st.pending matches Some(t) ==> st.attached ==> after.pending == Some(s))
            &&& (st.pending matches Some(t) ==> !st.attached ==> after.pending == Some(t + "\n"@ + s))
        },
{
    words::message_words();
    words::part_kinds();
    let parts = seq![part];
    reveal_with_fuel(responses::text_lines, 2);
    assert(responses::text_lines(parts, 1) =~= s);
}

/// Two neighbouring messages of the assistant become one: their texts on lines of their own,
/// their calls one after the other, the first thinking.
pub proof fn neighbours_become_one(a: Jv, b: Jv, s: Seq<char>, t: Seq<char>)
    requires
        a is Obj,
        holds(a, "content"@, s),
        holds(b, "content"@, t),
    ensures
        ({
            let out = responses::merged(a, b);
            &&& s.len() > 0 && t.len() > 0 ==> holds(out, "content"@, s + "\n"@ + t)
            &&& s.len() == 0 && t.len() > 0 ==> holds(out, "content"@, t)
            &&& s.len() > 0 && t.len() == 0 ==> holds(out, "content"@, s)
            &&& list_in(out, "tool_calls"@) == list_in(a, "tool_calls"@) + list_in(b, "tool_calls"@)
            &&& a.get("reasoning_content"@) is Some ==> out.get("reasoning_content"@) == a.get(
                "reasoning_content"@,
            )
            &&& a.get("reasoning_content"@) is None ==> out.get("reasoning_content"@) == b.get(
                "reasoning_content"@,
            )
            &&& out.get("role"@) == a.get("role"@)
        }),
{
    words::message_words();
    let out = responses::merged(a, b);
    assert(list_in(out, "tool_calls"@) =~= list_in(a, "tool_calls"@) + list_in(b, "tool_calls"@));
}

/// The calls of some messages, one after the other.
pub open spec fn all_calls(messages: Seq<Jv>, n: nat) -> Seq<Jv>
    decreases n,
{
    if n == 0 {
        Seq::empty()
    } else {
        all_calls(messages, (n - 1) as nat) + list_in(messages[n - 1], "tool_calls"@)
    }
}

proof fn calls_of_prefix(a: Seq<Jv>, b: Seq<Jv>, n: nat)
    requires
        n <= a.len(),
        n <= b.len(),
        forall|i: int| 0 <= i < n ==> a[i] == b[i],
    ensures
        all_calls(a, n) == all_calls(b, n),
    decreases n,
{
    if n > 0 {
        calls_of_prefix(a, b, (n - 1) as nat);
    }
}

/// No call is lost where neighbouring messages are put together.
pub proof fn no_call_is_lost(messages: Seq<Jv>, n: nat)
    requires
        n <= messages.len(),
        forall|i: int| 0 <= i < messages.len() ==> (#[trigger] messages[i]) is Obj,
    ensures
        ({
            let out = responses::merged_messages(messages, n);
            &&& all_calls(out, out.len()) == all_calls(messages, n)
            &&& forall|i: int| 0 <= i < out.len() ==> (#[trigger] out[i]) is Obj
        }),
    decreases n,
{
    words::message_words();
    if n > 0 {
        no_call_is_lost(messages, (n - 1) as nat);
        let before = responses::merged_messages(messages, (n - 1) as nat);
        let out = responses::merged_messages(messages, n);
        let message = messages[n - 1];
        assert(message is Obj);
        if responses::is_assistant(message) && before.len() > 0 && responses::is_assistant(
            before.last(),
        ) {
            let k = (before.len() - 1) as nat;
            assert(before[k as int] is Obj);
            calls_of_prefix(before, out, k);
            let one = responses::merged(before.last(), message);
            assert(list_in(one, "tool_calls"@) =~= list_in(before.last(), "tool_calls"@) + list_in(
                message,
                "tool_calls"@,
            ));
            assert(all_calls(before, before.len()) == all_calls(before, k) + list_in(
                before.last(),
                "tool_calls"@,
            ));
            assert(all_calls(out, out.len()) == all_calls(out, k) + list_in(one, "tool_calls"@));
            assert(all_calls(out, out.len()) =~= all_calls(before, before.len()) + list_in(
                message,
                "tool_calls"@,
            ));
            assert forall|i: int| 0 <= i < out.len() implies (#[trigger] out[i]) is Obj by {
                if i < k {
                    assert(out[i] == before[i]);
                }
            }
        } else {
            calls_of_prefix(before, out, before.len());
            assert forall|i: int| 0 <= i < out.len() implies (#[trigger] out[i]) is Obj by {
                if i < before.len() {
                    assert(out[i] == before[i]);
                }
            }
        }
    }
}

/// A call and its output go by the identifier of the call, or of the item where there is none.
pub proof fn identifiers_stand_in(item: Jv, fresh: Seq<char>)
    ensures
        (item.get("call_id"@) matches Some(Jv::Str(id)) ==> id.len() > 0 ==> responses::call_id(
            item,
            fresh,
        ) == id),
        item.get("call_id"@) is None ==> (item.get("id"@) matches Some(Jv::Str(id)) ==> id.len() > 0
            ==> responses::call_id(item, fresh) == id),
        item.get("call_id"@) is None && item.get("id"@) is None ==> responses::call_id(item, fresh)
            == fresh,
{
}

/// A text or an image that stands by itself in the input is a message of the user, and what was
/// thought before it is over.
pub proof fn single_parts_are_the_users(
    st: InputV,
    item: Jv,
    s: Seq<char>,
    fresh: Seq<char>,
    name: Seq<char>,
)
    requires
        holds(item, "text"@, s),
    ensures
        is_kind(item, "input_text"@) || is_kind(item, "text"@) ==> {
            let after = responses::input_item(st, item, fresh, name);
            &&& after.messages.drop_last() == st.messages
            &&& holds(after.messages.last(), "role"@, "user"@)
            &&& holds(after.messages.last(), "content"@, s)
            &&& after.pending is None
        },
        is_kind(item, "input_image"@) || is_kind(item, "image_url"@) || is_kind(item, "input_file"@) ==> {
            let after = responses::input_item(st, item, fresh, name);
            &&& after.messages.drop_last() == st.messages
            &&& holds(after.messages.last(), "role"@, "user"@)
            &&& list_in(after.messages.last(), "content"@) == seq![item]
            &&& after.pending is None
        },
        is_kind(item, "additional_tools"@) ==> responses::input_item(st, item, fresh, name) == st,
{
    words::message_words();
    words::part_kinds();
    let after = responses::input_item(st, item, fresh, name);
    if after.messages.len() > st.messages.len() {
        assert(after.messages.drop_last() =~= st.messages);
    }
}

/// Texts that stand by themselves in a list are messages of the user.
pub proof fn bare_texts_are_the_users(
    st: InputV,
    items: Seq<Jv>,
    fresh: Seq<Seq<char>>,
    names: Seq<Seq<char>>,
    n: nat,
    s: Seq<char>,
)
    requires
        n < items.len(),
        items[n as int] == Jv::Str(s),
    ensures
        ({
            let before = responses::input_items(st, items, fresh, names, n);
            let after = responses::input_items(st, items, fresh, names, (n + 1) as nat);
            &&& after.messages.drop_last() == before.messages
            &&& holds(after.messages.last(), "role"@, "user"@)
            &&& holds(after.messages.last(), "content"@, s)
            &&& after.pending is None
        }),
{
    words::message_words();
    let before = responses::input_items(st, items, fresh, names, n);
    let after = responses::input_items(st, items, fresh, names, (n + 1) as nat);
    assert(after.messages.drop_last() =~= before.messages);
}

/// The content of a message: a text as it is, a single part of text as its text, and of several
/// parts each in the form of the chat protocol.
pub proof fn contents_go_on(parts: Seq<Jv>, i: int, s: Seq<char>)
    requires
        0 <= i < parts.len(),
    ensures
        responses::chat_content(Jv::Str(s)) == Jv::Str(s),
        parts.len() == 1 && holds(parts[0], "text"@, s) && (is_kind(parts[0], "input_text"@) || is_kind(
            parts[0],
            "output_text"@,
        ) || is_kind(parts[0], "text"@)) ==> responses::chat_content(Jv::Arr(parts)) == Jv::Str(s),
        parts.len() > 1 ==> (responses::chat_content(Jv::Arr(parts)) matches Jv::Arr(out) && {
            &&& out.len() == parts.len()
            &&& holds(parts[i], "text"@, s) && (is_kind(parts[i], "input_text"@) || is_kind(
                parts[i],
                "output_text"@,
            ) || is_kind(parts[i], "text"@)) ==> holds(out[i], "type"@, "text"@) && holds(
                out[i],
                "text"@,
                s,
            )
            &&& holds(parts[i], "image_url"@, s) && is_kind(parts[i], "input_image"@) ==> holds(
                out[i],
                "type"@,
                "image_url"@,
            ) && within(out[i], "image_url"@, "url"@) == Some(Jv::Str(s))
        }),
{
    words::message_words();
    words::part_kinds();
    blocks_are_each(parts, parts.len());
    assert(responses::chat_blocks(parts, parts.len())[i] == responses::chat_block(parts[i]));
}

proof fn blocks_are_each(parts: Seq<Jv>, n: nat)
    requires
        n <= parts.len(),
    ensures
        responses::chat_blocks(parts, n).len() == n,
        forall|i: int|
            #![trigger responses::chat_blocks(parts, n)[i]]
            0 <= i < n ==> responses::chat_blocks(parts, n)[i] == responses::chat_block(parts[i]),
    decreases n,
{
    if n > 0 {
        blocks_are_each(parts, (n - 1) as nat);
    }
}

} // verus!
