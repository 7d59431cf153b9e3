//! A chat request, sent on to an upstream that speaks Messages or Responses.

use crate::json::Jv;
use crate::json;
use crate::laws::replies::{is_call, one_if};
use crate::laws::words;
use crate::laws::{holds, is_kind, list_in, within};
use crate::protocol::anthropic;
use crate::protocol::anthropic_outbound::TurnV;
use crate::protocol::anthropic_outbound;
use crate::protocol::chat;
use crate::protocol::responses::FreshV;
use crate::protocol::responses;
use crate::protocol::responses_outbound;
use crate::protocol;
use crate::text;
use vstd::prelude::*;
use vstd::string::*;

verus! {

/// Whether a message has that role, whatever the case.
pub open spec fn has_role(message: Jv, role: Seq<char>) -> bool {
    message.get("role"@) matches Some(Jv::Str(t)) && text::lowercase(t) == role
}

/// Whether a message is one of the system's: a system or a developer message.
pub open spec fn of_system(message: Jv) -> bool {
    has_role(message, "system"@) || has_role(message, "developer"@)
}

/// A request without messages is refused by both.
pub proof fn messages_are_needed(chat: Jv, model: Seq<char>)
    requires
        chat.get("messages"@) is None,
    ensures
        anthropic_outbound::request_of_chat(chat, model, Seq::empty()) is Err,
        responses_outbound::responses_of_chat_request(chat, model, Seq::empty()) is Err,
{
}

// -------------------------------------------------------------- what the system says

/// The texts of the system, parted by an empty line.
pub open spec fn system_says(messages: Seq<Jv>, n: nat) -> Seq<char>
    decreases n,
{
    if n == 0 {
        Seq::empty()
    } else {
        let before = system_says(messages, (n - 1) as nat);
        match messages[n - 1].get("content"@) {
            Some(Jv::Str(s)) => if of_system(messages[n - 1]) && text::trimmed(s).len() > 0 {
                if before.len() == 0 {
                    s
                } else {
                    before + "\n\n"@ + s
                }
            } else {
                before
            },
            _ => before,
        }
    }
}

proof fn system_is_gathered(messages: Seq<Jv>, n: nat)
    requires
        n <= messages.len(),
        forall|i: int|
            0 <= i < n ==> ((#[trigger] messages[i]).get("content"@) matches Some(Jv::Str(_))) && (
            messages[i].get("role"@) matches Some(Jv::Str(_))),
    ensures
        anthropic_outbound::system_texts(messages, n) == system_says(messages, n),
    decreases n,
{
    words::role_words();
    if n > 0 {
        system_is_gathered(messages, (n - 1) as nat);
        assert(messages[n - 1].get("content"@) is Some);
        reveal_strlit("system");
        reveal_strlit("developer");
    }
}

/// What the system says goes on as one text: under `system` to Messages, under `instructions` to
/// Responses, and under neither where it says nothing.
pub proof fn system_goes_on(
    chat: Jv,
    messages: Seq<Jv>,
    model: Seq<char>,
    fresh: Seq<Seq<Seq<char>>>,
    ids: Seq<FreshV>,
)
    requires
        chat.get("messages"@) == Some(Jv::Arr(messages)),
        forall|i: int|
            0 <= i < messages.len() ==> ((#[trigger] messages[i]).get("content"@) matches Some(
                Jv::Str(_),
            )) && (messages[i].get("role"@) matches Some(Jv::Str(_))),
    ensures
        ({
            let s = system_says(messages, messages.len());
            let want = if s.len() > 0 {
                Some(Jv::Str(s))
            } else {
                None
            };
            &&& (anthropic_outbound::request_of_chat(chat, model, fresh) matches Ok(out) && out.get(
                "system"@,
            ) == want)
            &&& (responses_outbound::responses_of_chat_request(chat, model, ids) matches Ok(out)
                && out.get("instructions"@) == want)
        }),
{
    words::request_words();
    words::chat_request_words();
    system_is_gathered(messages, messages.len());
}

// -------------------------------------------------------------- limits and thinking

/// How many tokens of thinking a level stands for.
pub open spec fn budget(level: Seq<char>) -> int {
    if level == "minimal"@ || level == "low"@ {
        1024
    } else if level == "medium"@ {
        4096
    } else if level == "high"@ {
        10240
    } else {
        32768
    }
}

/// A known level of thinking asks for its budget of tokens; the limit leaves room for more than
/// that, and nothing is sampled otherwise than by default.
pub proof fn thinking_is_budgeted(
    chat: Jv,
    level: Seq<char>,
    limit: int,
    model: Seq<char>,
    fresh: Seq<Seq<Seq<char>>>,
)
    requires
        chat.get("messages"@) matches Some(Jv::Arr(_)),
        holds(chat, "reasoning_effort"@, level),
        level == "minimal"@ || level == "low"@ || level == "medium"@ || level == "high"@ || level
            == "xhigh"@ || level == "max"@,
        text::trimmed(level) == level,
        chat.get("max_tokens"@) == Some(Jv::Int(limit)),
        0 < limit <= i64::MAX,
    ensures
        anthropic_outbound::request_of_chat(chat, model, fresh) matches Ok(out) && {
            &&& within(out, "thinking"@, "type"@) == Some(Jv::Str("enabled"@))
            &&& within(out, "thinking"@, "budget_tokens"@) == Some(Jv::Int(budget(level)))
            &&& out.get("max_tokens"@) == Some(
                Jv::Int(
                    if limit > budget(level) {
                        limit
                    } else {
                        budget(level) + 1024
                    },
                ),
            )
            &&& out.get("temperature"@) is None
            &&& out.get("top_p"@) is None
        },
{
    words::request_words();
    words::format_words();
    words::level_words();
    reveal_strlit("minimal");
    reveal_strlit("low");
    reveal_strlit("medium");
    reveal_strlit("high");
    reveal_strlit("xhigh");
    reveal_strlit("max");
}

/// Without a level there is no thinking: the limit is the one that is named, the older name
/// first, or the default, and what is asked of the sampling goes on.
pub proof fn limits_go_on(chat: Jv, model: Seq<char>, fresh: Seq<Seq<Seq<char>>>)
    requires
        chat.get("messages"@) matches Some(Jv::Arr(_)),
        chat.get("reasoning_effort"@) is None,
    ensures
        anthropic_outbound::request_of_chat(chat, model, fresh) matches Ok(out) && {
            &&& out.get("thinking"@) is None
            &&& (chat.get("max_tokens"@) matches Some(Jv::Int(n)) ==> 0 < n <= i64::MAX ==> out.get(
                "max_tokens"@,
            ) == Some(Jv::Int(n)))
            &&& chat.get("max_tokens"@) is None ==> (chat.get("max_completion_tokens"@) matches Some(
                Jv::Int(n),
            ) ==> 0 < n <= i64::MAX ==> out.get("max_tokens"@) == Some(Jv::Int(n)))
            &&& chat.get("max_tokens"@) is None && chat.get("max_completion_tokens"@) is None
                ==> out.get("max_tokens"@) == Some(Jv::Int(8192))
            &&& (chat.get("temperature"@) matches Some(v) ==> v !is Null ==> out.get("temperature"@)
                == Some(v))
            &&& (chat.get("top_p"@) matches Some(v) ==> v !is Null ==> out.get("top_p"@) == Some(v))
            &&& chat.get("temperature"@) is None ==> out.get("temperature"@) is None
            &&& holds(out, "model"@, model)
            &&& out.get("stream"@) == Some(Jv::Bool(chat.get("stream"@) == Some(Jv::Bool(true))))
        },
{
    words::request_words();
}

#[verifier::opaque]
spec fn with_member(j: Jv, key: Seq<char>, v: Option<Jv>) -> Jv {
    j.put_some(key, v)
}

proof fn member_is_put(j: Jv, key: Seq<char>, v: Option<Jv>)
    requires
        j is Obj,
    ensures
        with_member(j, key, v) is Obj,
        forall|k: Seq<char>| k != key ==> (#[trigger] with_member(j, key, v).get(k)) == j.get(k),
        j.get(key) is None ==> with_member(j, key, v).get(key) == v,
{
    reveal(with_member);
}

spec fn twelve_members(
    s0: Jv,
    a: Option<Jv>,
    b: Option<Jv>,
    c: Option<Jv>,
    d: Option<Jv>,
    e: Option<Jv>,
    f: Option<Jv>,
    g: Option<Jv>,
    h: Option<Jv>,
    i: Option<Jv>,
    j: Option<Jv>,
    k: Option<Jv>,
    l: Option<Jv>,
) -> Jv {
    let s1 = with_member(s0, "instructions"@, a);
    let s2 = with_member(s1, "max_output_tokens"@, b);
    let s3 = with_member(s2, "temperature"@, c);
    let s4 = with_member(s3, "top_p"@, d);
    let s5 = with_member(s4, "service_tier"@, e);
    let s6 = with_member(s5, "parallel_tool_calls"@, f);
    let s7 = with_member(s6, "user"@, g);
    let s8 = with_member(s7, "metadata"@, h);
    let s9 = with_member(s8, "tools"@, i);
    let s10 = with_member(s9, "tool_choice"@, j);
    let s11 = with_member(s10, "text"@, k);
    let s12 = with_member(s11, "reasoning"@, l);
    with_member(s12, "store"@, Some(Jv::Bool(false)))
}

proof fn twelve_members_stand(
    s0: Jv,
    a: Option<Jv>,
    b: Option<Jv>,
    c: Option<Jv>,
    d: Option<Jv>,
    e: Option<Jv>,
    f: Option<Jv>,
    g: Option<Jv>,
    h: Option<Jv>,
    i: Option<Jv>,
    j: Option<Jv>,
    k: Option<Jv>,
    l: Option<Jv>,
)
    requires
        s0 is Obj,
        forall|x: Seq<char>|
            x != "model"@ && x != "input"@ && x != "stream"@ ==> (#[trigger] s0.get(x)) is None,
    ensures
        ({
            let out = twelve_members(s0, a, b, c, d, e, f, g, h, i, j, k, l);
            &&& out.get("model"@) == s0.get("model"@)
            &&& out.get("input"@) == s0.get("input"@)
            &&& out.get("stream"@) == s0.get("stream"@)
            &&& out.get("store"@) == Some(Jv::Bool(false))
            &&& out.get("instructions"@) == a
            &&& out.get("max_output_tokens"@) == b
            &&& out.get("temperature"@) == c
            &&& out.get("top_p"@) == d
            &&& out.get("service_tier"@) == e
            &&& out.get("parallel_tool_calls"@) == f
            &&& out.get("user"@) == g
            &&& out.get("metadata"@) == h
            &&& out.get("tools"@) == i
            &&& out.get("tool_choice"@) == j
            &&& out.get("text"@) == k
            &&& out.get("reasoning"@) == l
        }),
{
    words::chat_request_words();
    let s1 = with_member(s0, "instructions"@, a);
    member_is_put(s0, "instructions"@, a);
    let s2 = with_member(s1, "max_output_tokens"@, b);
    member_is_put(s1, "max_output_tokens"@, b);
    let s3 = with_member(s2, "temperature"@, c);
    member_is_put(s2, "temperature"@, c);
    let s4 = with_member(s3, "top_p"@, d);
    member_is_put(s3, "top_p"@, d);
    let s5 = with_member(s4, "service_tier"@, e);
    member_is_put(s4, "service_tier"@, e);
    let s6 = with_member(s5, "parallel_tool_calls"@, f);
    member_is_put(s5, "parallel_tool_calls"@, f);
    let s7 = with_member(s6, "user"@, g);
    member_is_put(s6, "user"@, g);
    let s8 = with_member(s7, "metadata"@, h);
    member_is_put(s7, "metadata"@, h);
    let s9 = with_member(s8, "tools"@, i);
    member_is_put(s8, "tools"@, i);
    let s10 = with_member(s9, "tool_choice"@, j);
    member_is_put(s9, "tool_choice"@, j);
    let s11 = with_member(s10, "text"@, k);
    member_is_put(s10, "text"@, k);
    let s12 = with_member(s11, "reasoning"@, l);
    member_is_put(s11, "reasoning"@, l);
    member_is_put(s12, "store"@, Some(Jv::Bool(false)));
}

proof fn sent_to_responses(chat: Jv, messages: Seq<Jv>, model: Seq<char>, fresh: Seq<FreshV>)
    requires
        chat.get("messages"@) == Some(Jv::Arr(messages)),
    ensures
        responses_outbound::responses_of_chat_request(chat, model, fresh) matches Ok(out) && {
            &&& holds(out, "model"@, model)
            &&& out.get("input"@) == Some(
                Jv::Arr(responses_outbound::items_of(messages, fresh, messages.len())),
            )
            &&& out.get("stream"@) == Some(Jv::Bool(chat::flag(chat, "stream"@)))
            &&& out.get("store"@) == Some(Jv::Bool(false))
            &&& out.get("instructions"@) == anthropic_outbound::system_sent(messages)
            &&& out.get("max_output_tokens"@) == responses_outbound::output_limit(chat)
            &&& out.get("temperature"@) == json::if_not_null(chat.get("temperature"@))
            &&& out.get("top_p"@) == json::if_not_null(chat.get("top_p"@))
            &&& out.get("service_tier"@) == json::if_not_null(chat.get("service_tier"@))
            &&& out.get("parallel_tool_calls"@) == json::if_not_null(chat.get("parallel_tool_calls"@))
            &&& out.get("user"@) == json::if_not_null(chat.get("user"@))
            &&& out.get("metadata"@) == json::if_not_null(chat.get("metadata"@))
            &&& out.get("tools"@) == responses_outbound::flat_tools_sent(chat)
            &&& out.get("tool_choice"@) == responses_outbound::flat_choice_sent(chat)
            &&& out.get("text"@) == responses_outbound::format_sent(chat)
            &&& out.get("reasoning"@) == responses_outbound::effort_sent(chat)
        },
{
    words::chat_request_words();
    let s0 = Jv::obj().put("model"@, Jv::Str(model)).put(
        "input"@,
        Jv::Arr(responses_outbound::items_of(messages, fresh, messages.len())),
    ).put("stream"@, Jv::Bool(chat::flag(chat, "stream"@)));
    twelve_members_stand(
        s0,
        anthropic_outbound::system_sent(messages),
        responses_outbound::output_limit(chat),
        json::if_not_null(chat.get("temperature"@)),
        json::if_not_null(chat.get("top_p"@)),
        json::if_not_null(chat.get("service_tier"@)),
        json::if_not_null(chat.get("parallel_tool_calls"@)),
        json::if_not_null(chat.get("user"@)),
        json::if_not_null(chat.get("metadata"@)),
        responses_outbound::flat_tools_sent(chat),
        responses_outbound::flat_choice_sent(chat),
        responses_outbound::format_sent(chat),
        responses_outbound::effort_sent(chat),
    );
    assert(responses_outbound::responses_of_chat_request(chat, model, fresh) == Ok::<Jv, Seq<char>>(
        twelve_members(
            s0,
            anthropic_outbound::system_sent(messages),
            responses_outbound::output_limit(chat),
            json::if_not_null(chat.get("temperature"@)),
            json::if_not_null(chat.get("top_p"@)),
            json::if_not_null(chat.get("service_tier"@)),
            json::if_not_null(chat.get("parallel_tool_calls"@)),
            json::if_not_null(chat.get("user"@)),
            json::if_not_null(chat.get("metadata"@)),
            responses_outbound::flat_tools_sent(chat),
            responses_outbound::flat_choice_sent(chat),
            responses_outbound::format_sent(chat),
            responses_outbound::effort_sent(chat),
        ),
    )) by {
        reveal(with_member);
    }
}

/// What a Responses upstream is asked for besides the input.
pub proof fn plain_members_go_on(chat: Jv, model: Seq<char>, fresh: Seq<FreshV>)
    requires
        chat.get("messages"@) matches Some(Jv::Arr(_)),
    ensures
        responses_outbound::responses_of_chat_request(chat, model, fresh) matches Ok(out) && {
            &&& holds(out, "model"@, model)
            &&& out.get("store"@) == Some(Jv::Bool(false))
            &&& out.get("stream"@) == Some(Jv::Bool(chat.get("stream"@) == Some(Jv::Bool(true))))
            &&& (chat.get("max_completion_tokens"@) matches Some(Jv::Int(n)) ==> 0 < n <= i64::MAX
                ==> out.get("max_output_tokens"@) == Some(Jv::Int(n)))
            &&& chat.get("max_completion_tokens"@) is None ==> (chat.get("max_tokens"@) matches Some(
                Jv::Int(n),
            ) ==> 0 < n <= i64::MAX ==> out.get("max_output_tokens"@) == Some(Jv::Int(n)))
            &&& chat.get("max_completion_tokens"@) is None && chat.get("max_tokens"@) is None ==> out.get(
                "max_output_tokens"@,
            ) is None
            &&& kept(out, chat, "temperature"@)
            &&& kept(out, chat, "top_p"@)
            &&& kept(out, chat, "service_tier"@)
            &&& kept(out, chat, "parallel_tool_calls"@)
            &&& kept(out, chat, "user"@)
            &&& kept(out, chat, "metadata"@)
            &&& (chat.get("reasoning_effort"@) matches Some(Jv::Str(s)) ==> text::trimmed(s).len() > 0
                ==> within(out, "reasoning"@, "effort"@) == Some(Jv::Str(text::trimmed(s))) && within(
                out,
                "reasoning"@,
                "summary"@,
            ) == Some(Jv::Str("auto"@)))
            &&& chat.get("reasoning_effort"@) is None ==> out.get("reasoning"@) is None
        },
{
    words::format_words();
    sent_to_responses(chat, list_in(chat, "messages"@), model, fresh);
}

/// Whether a member stands in what is sent as it stood in what came, and only where it did.
pub open spec fn kept(out: Jv, came: Jv, key: Seq<char>) -> bool {
    out.get(key) == match came.get(key) {
        Some(Jv::Null) => None,
        v => v,
    }
}

/// Where a stream of text is to end goes on as a list; a single text makes a list of one.
pub proof fn stops_go_on(chat: Jv, model: Seq<char>, fresh: Seq<Seq<Seq<char>>>)
    requires
        chat.get("messages"@) matches Some(Jv::Arr(_)),
    ensures
        anthropic_outbound::request_of_chat(chat, model, fresh) matches Ok(out) && {
            &&& (chat.get("stop"@) matches Some(Jv::Arr(list)) ==> list.len() > 0 ==> out.get(
                "stop_sequences"@,
            ) == Some(Jv::Arr(list)))
            &&& (chat.get("stop"@) matches Some(Jv::Str(s)) ==> s.len() > 0 ==> list_in(
                out,
                "stop_sequences"@,
            ) == seq![Jv::Str(s)])
            &&& chat.get("stop"@) is None ==> out.get("stop_sequences"@) is None
        },
{
    words::request_words();
}

// -------------------------------------------------------------- tools

/// Whether a chat tool has that name and those parameters.
pub open spec fn is_tool(tool: Jv, name: Seq<char>, parameters: Jv) -> bool {
    &&& tool.get("function"@) is Some
    &&& tool.get("function"@)->0 is Obj
    &&& within(tool, "function"@, "name"@) == Some(Jv::Str(name))
    &&& within(tool, "function"@, "parameters"@) == Some(parameters)
    &&& name.len() > 0
}

/// Whether a chat tool is a function with a name.
pub open spec fn offers_a_tool(tool: Jv) -> bool {
    &&& tool.get("function"@) matches Some(Jv::Obj(_))
    &&& within(tool, "function"@, "name"@) matches Some(Jv::Str(s)) && s.len() > 0
}

proof fn tools_are_kept(tools: Seq<Jv>, n: nat)
    requires
        n <= tools.len(),
        forall|i: int| 0 <= i < n ==> offers_a_tool(#[trigger] tools[i]),
    ensures
        anthropic_outbound::tools_of(tools, n).len() == n,
        forall|i: int|
            #![trigger anthropic_outbound::tools_of(tools, n)[i]]
            0 <= i < n ==> Some(anthropic_outbound::tools_of(tools, n)[i])
                == anthropic_outbound::tool_of(tools[i]),
        responses_outbound::flat_tools(tools, n).len() == n,
        forall|i: int|
            #![trigger responses_outbound::flat_tools(tools, n)[i]]
            0 <= i < n ==> Some(responses_outbound::flat_tools(tools, n)[i])
                == responses_outbound::flat_tool(tools[i]),
    decreases n,
{
    if n > 0 {
        tools_are_kept(tools, (n - 1) as nat);
        assert(offers_a_tool(tools[n - 1]));
    }
}

/// Every tool of a chat request goes on with its name, its description and its parameters, to
/// Messages as an input schema that is an object, to Responses as they are.
pub proof fn tools_go_on(
    chat: Jv,
    tools: Seq<Jv>,
    i: int,
    name: Seq<char>,
    m: Map<Seq<char>, Jv>,
    model: Seq<char>,
    fresh: Seq<Seq<Seq<char>>>,
    ids: Seq<FreshV>,
)
    requires
        chat.get("messages"@) matches Some(Jv::Arr(_)),
        chat.get("tools"@) == Some(Jv::Arr(tools)),
        forall|i: int| 0 <= i < tools.len() ==> offers_a_tool(#[trigger] tools[i]),
        0 <= i < tools.len(),
        is_tool(tools[i], name, Jv::Obj(m)),
    ensures
        anthropic_outbound::request_of_chat(chat, model, fresh) matches Ok(out) && {
            let t = list_in(out, "tools"@)[i];
            &&& list_in(out, "tools"@).len() == tools.len()
            &&& holds(t, "name"@, name)
            &&& (within(tools[i], "function"@, "description"@) matches Some(Jv::Str(d)) ==> d.len() > 0
                ==> holds(t, "description"@, d))
            &&& is_kind(Jv::Obj(m), "object"@) ==> {
                &&& within(t, "input_schema"@, "type"@) == Some(Jv::Str("object"@))
                &&& forall|key: Seq<char>|
                    key != "type"@ && Jv::Obj(m).get(key) is Some ==> #[trigger] within(
                        t,
                        "input_schema"@,
                        key,
                    ) == Jv::Obj(m).get(key)
                &&& within(t, "input_schema"@, "properties"@) is Some
            }
        },
        responses_outbound::responses_of_chat_request(chat, model, ids) matches Ok(out) && {
            let t = list_in(out, "tools"@)[i];
            &&& list_in(out, "tools"@).len() == tools.len()
            &&& holds(t, "type"@, "function"@)
            &&& holds(t, "name"@, name)
            &&& (within(tools[i], "function"@, "description"@) matches Some(Jv::Str(d)) ==> d.len() > 0
                ==> holds(t, "description"@, d))
            &&& t.get("parameters"@) == Some(Jv::Obj(m))
            &&& t.get("strict"@) == within(tools[i], "function"@, "strict"@)
        },
{
    words::request_words();
    words::chat_request_words();
    words::format_words();
    tools_are_kept(tools, tools.len());
    reveal_strlit("object");
    assert(anthropic_outbound::tools_of(tools, tools.len())[i] == anthropic_outbound::tool_of(
        tools[i],
    )->0);
    assert(responses_outbound::flat_tools(tools, tools.len())[i] == responses_outbound::flat_tool(
        tools[i],
    )->0);
}

/// How a tool may be chosen: `required` is any tool, a named function is that tool, and to
/// Responses the choice goes as it is, a function by its name alone.
pub proof fn choices_go_on(
    chat: Jv,
    choice: Jv,
    model: Seq<char>,
    fresh: Seq<Seq<Seq<char>>>,
    ids: Seq<FreshV>,
)
    requires
        chat.get("messages"@) matches Some(Jv::Arr(_)),
        chat.get("tool_choice"@) == Some(choice),
    ensures
        anthropic_outbound::request_of_chat(chat, model, fresh) matches Ok(out) && {
            &&& choice == Jv::Str("required"@) ==> within(out, "tool_choice"@, "type"@) == Some(
                Jv::Str("any"@),
            )
            &&& choice == Jv::Str("none"@) ==> within(out, "tool_choice"@, "type"@) == Some(
                Jv::Str("none"@),
            )
            &&& choice == Jv::Str("auto"@) ==> within(out, "tool_choice"@, "type"@) == Some(
                Jv::Str("auto"@),
            )
            &&& (within(choice, "function"@, "name"@) matches Some(Jv::Str(s)) ==> s.len() > 0
                ==> within(out, "tool_choice"@, "type"@) == Some(Jv::Str("tool"@)) && within(
                out,
                "tool_choice"@,
                "name"@,
            ) == Some(Jv::Str(s)))
        },
        responses_outbound::responses_of_chat_request(chat, model, ids) matches Ok(out) && {
            &&& (choice matches Jv::Str(s) ==> s.len() > 0 ==> out.get("tool_choice"@) == Some(choice))
            &&& (within(choice, "function"@, "name"@) matches Some(Jv::Str(s)) ==> s.len() > 0
                ==> within(out, "tool_choice"@, "type"@) == Some(Jv::Str("function"@)) && within(
                out,
                "tool_choice"@,
                "name"@,
            ) == Some(Jv::Str(s)))
        },
{
    words::request_words();
    words::chat_request_words();
    words::choice_words();
    words::format_words();
    reveal_strlit("required");
    reveal_strlit("none");
    reveal_strlit("auto");
}

/// The format of the answer goes on to Responses, that of a schema with its members laid flat.
pub proof fn format_goes_on(chat: Jv, format: Jv, model: Seq<char>, ids: Seq<FreshV>)
    requires
        chat.get("messages"@) matches Some(Jv::Arr(_)),
        chat.get("response_format"@) == Some(format),
        format is Obj,
        format.get("type"@) matches Some(Jv::Str(_)),
    ensures
        responses_outbound::responses_of_chat_request(chat, model, ids) matches Ok(out) && {
            &&& !holds(format, "type"@, "json_schema"@) ==> within(out, "text"@, "format"@) == Some(
                format,
            )
            &&& holds(format, "type"@, "json_schema"@) ==> {
                let f = within(out, "text"@, "format"@)->0;
                &&& within(out, "text"@, "format"@) is Some
                &&& holds(f, "type"@, "json_schema"@)
                &&& laid_flat(f, format, "name"@)
                &&& laid_flat(f, format, "description"@)
                &&& laid_flat(f, format, "schema"@)
                &&& laid_flat(f, format, "strict"@)
            }
        },
{
    words::chat_request_words();
    words::format_words();
}

/// Whether a member of the schema of a format stands in the flat format.
pub open spec fn laid_flat(f: Jv, format: Jv, key: Seq<char>) -> bool {
    within(format, "json_schema"@, key) matches Some(v) ==> v !is Null ==> f.get(key) == Some(v)
}

// -------------------------------------------------------------- messages, to Messages

/// A text of the user makes one text block.
pub proof fn user_text_is_a_block(message: Jv, s: Seq<char>, fresh: Seq<Seq<char>>)
    requires
        holds(message, "content"@, s),
        s.len() > 0,
    ensures
        has_role(message, "user"@) ==> {
            let out = anthropic_outbound::blocks_of(
                message,
                anthropic_outbound::role_of(message),
                fresh,
            );
            out.len() == 1 && holds(out[0], "type"@, "text"@) && holds(out[0], "text"@, s)
        },
{
    words::role_words();
    words::message_words();
    reveal_strlit("user");
}

/// The result of a tool goes back to the call that asked for it, an empty one as such.
pub proof fn result_is_a_block(message: Jv, id: Seq<char>, s: Seq<char>, fresh: Seq<Seq<char>>)
    requires
        holds(message, "tool_call_id"@, id),
        holds(message, "content"@, s),
    ensures
        has_role(message, "tool"@) ==> {
            let out = anthropic_outbound::blocks_of(
                message,
                anthropic_outbound::role_of(message),
                fresh,
            );
            &&& out.len() == 1
            &&& holds(out[0], "type"@, "tool_result"@)
            &&& holds(out[0], "tool_use_id"@, id)
            &&& holds(
                out[0],
                "content"@,
                if s.len() > 0 {
                    s
                } else {
                    "(empty)"@
                },
            )
        },
{
    words::role_words();
    words::message_words();
    reveal_strlit("tool");
}

proof fn blocks_of_calls(calls: Seq<Jv>, fresh: Seq<Seq<char>>, n: nat)
    ensures
        anthropic::call_blocks(calls, fresh, n).len() == n,
        forall|i: int|
            #![trigger anthropic::call_blocks(calls, fresh, n)[i]]
            0 <= i < n ==> anthropic::call_blocks(calls, fresh, n)[i] == anthropic::call_blocks(
                calls,
                fresh,
                (i + 1) as nat,
            ).last(),
    decreases n,
{
    if n > 0 {
        blocks_of_calls(calls, fresh, (n - 1) as nat);
        let before = anthropic::call_blocks(calls, fresh, (n - 1) as nat);
        let all = anthropic::call_blocks(calls, fresh, n);
        assert forall|i: int| 0 <= i < n implies #[trigger] all[i] == anthropic::call_blocks(
            calls,
            fresh,
            (i + 1) as nat,
        ).last() by {
            if i < n - 1 {
                assert(all[i] == before[i]);
            }
        }
    }
}

/// What the assistant has thought, said and called goes on as blocks, in that order.
pub proof fn assistant_speaks_in_blocks(
    message: Jv,
    thought: Seq<char>,
    said: Seq<char>,
    fresh: Seq<Seq<char>>,
)
    requires
        holds(message, "content"@, said),
        thought.len() > 0 ==> holds(message, "reasoning_content"@, thought),
        thought.len() == 0 ==> message.get("reasoning_content"@) is None && message.get("reasoning"@)
            is None,
    ensures
        has_role(message, "assistant"@) ==> {
            let out = anthropic_outbound::blocks_of(
                message,
                anthropic_outbound::role_of(message),
                fresh,
            );
            let calls = list_in(message, "tool_calls"@);
            let a = one_if(thought.len() > 0);
            let b = one_if(said.len() > 0);
            &&& out.len() == a + b + calls.len()
            &&& a == 1 ==> holds(out[0], "type"@, "thinking"@) && holds(out[0], "thinking"@, thought)
            &&& b == 1 ==> holds(out[a], "type"@, "text"@) && holds(out[a], "text"@, said)
            &&& forall|i: int, id: Seq<char>, name: Seq<char>, arguments: Seq<char>|
                #![trigger is_call(calls[i], id, name, arguments)]
                0 <= i < calls.len() && is_call(calls[i], id, name, arguments) && id.len() > 0 ==> {
                    let block = out[a + b + i];
                    &&& holds(block, "type"@, "tool_use"@)
                    &&& holds(block, "id"@, id)
                    &&& holds(block, "name"@, name)
                    &&& (json::parsed_json(arguments) matches Some(Jv::Obj(o)) ==> arguments.len() > 0
                        ==> block.get("input"@) == Some(Jv::Obj(o)))
                }
        },
{
    words::role_words();
    words::message_words();
    reveal_strlit("assistant");
    let calls = list_in(message, "tool_calls"@);
    blocks_of_calls(calls, fresh, calls.len());
    let a = one_if(thought.len() > 0);
    let b = one_if(said.len() > 0);
    assert(chat::reasoning_of(message) =~= thought);
    assert(chat::calls_of(message) == calls);
    let thoughts = anthropic_outbound::thinking_blocks(message);
    let texts = anthropic_outbound::content_blocks(message.get("content"@), true);
    let rest = anthropic::call_blocks(calls, fresh, calls.len());
    assert(thoughts.len() == a);
    assert(texts.len() == b);
    let out = anthropic_outbound::blocks_of(message, "assistant"@, fresh);
    assert(out == thoughts + texts + rest);
    assert(a == 1 ==> out[0] == thoughts[0]);
    assert(b == 1 ==> out[a] == texts[0]);
    assert forall|i: int, id: Seq<char>, name: Seq<char>, arguments: Seq<char>|
        #![trigger is_call(calls[i], id, name, arguments)]
        0 <= i < calls.len() && is_call(calls[i], id, name, arguments) && id.len() > 0 implies {
        let block = out[a + b + i];
        &&& holds(block, "type"@, "tool_use"@)
        &&& holds(block, "id"@, id)
        &&& holds(block, "name"@, name)
        &&& (json::parsed_json(arguments) matches Some(Jv::Obj(o)) ==> arguments.len() > 0
            ==> block.get("input"@) == Some(Jv::Obj(o)))
    } by {
        assert(out[a + b + i] == rest[i]);
        assert(rest[i] == anthropic::call_blocks(calls, fresh, (i + 1) as nat).last());
    }
}

/// An image with an address goes on by its address, one that holds its data as that data with
/// its media type.
pub proof fn images_go_on(part: Jv, url: Seq<char>, media: Seq<char>, data: Seq<char>)
    requires
        within(part, "image_url"@, "url"@) == Some(Jv::Str(url)),
        text::trimmed(url) == url,
        part is Obj,
    ensures
        is_kind(part, "image_url"@) && url.len() >= 8 && url.take(8) == "https://"@ ==> {
            &&& anthropic_outbound::part_block(part, false) matches Some(b) && {
                &&& holds(b, "type"@, "image"@)
                &&& within(b, "source"@, "type"@) == Some(Jv::Str("url"@))
                &&& within(b, "source"@, "url"@) == Some(Jv::Str(url))
            }
        },
        is_kind(part, "image_url"@) && url == "data:"@ + media + ";base64,"@ + data && media.len() > 0
            && data.len() > 0 && !media.contains(',') ==> {
            &&& anthropic_outbound::part_block(part, false) matches Some(b) && {
                &&& holds(b, "type"@, "image"@)
                &&& within(b, "source"@, "type"@) == Some(Jv::Str("base64"@))
                &&& within(b, "source"@, "media_type"@) == Some(Jv::Str(media))
                &&& within(b, "source"@, "data"@) == Some(Jv::Str(data))
            }
        },
        is_kind(part, "image_url"@) ==> anthropic_outbound::part_block(part, true) is None,
{
    words::message_words();
    words::kind_words();
    reveal_strlit("https://");
    reveal_strlit("http://");
    reveal_strlit("data:");
    reveal_strlit(";base64,");
    reveal_strlit(";base64");
    if url.len() >= 8 && url.take(8) == "https://"@ {
        assert(url[0] == url.take(8)[0]);
        assert(!text::has_prefix(url, "data:"@)) by {
            if text::has_prefix(url, "data:"@) {
                assert(url.take(5)[0] == 'd');
            }
        }
        assert(text::has_prefix(url, "https://"@));
    }
    if url == "data:"@ + media + ";base64,"@ + data && media.len() > 0 && data.len() > 0
        && !media.contains(',') {
        assert(url.take(5) =~= "data:"@);
        assert(text::has_prefix(url, "data:"@));
        let rest = url.skip(5);
        assert(rest =~= media + ";base64,"@ + data);
        let c = (media.len() + 7) as int;
        assert(rest[c] == ',');
        assert(rest.take(c) =~= media + ";base64"@);
        comma_is_found(rest, 0, c, media);
        assert(rest.skip(c + 1) =~= data);
        let meta = rest.take(c);
        assert(meta.skip(meta.len() - 7) =~= ";base64"@);
        assert(text::has_suffix(meta, ";base64"@));
        assert(meta.take(meta.len() - 7) =~= media);
    }
}

proof fn comma_is_found(rest: Seq<char>, i: int, c: int, media: Seq<char>)
    requires
        0 <= i <= c < rest.len(),
        c == media.len() + 7,
        rest[c] == ',',
        rest.take(c) == media + ";base64"@,
        !media.contains(','),
    ensures
        text::place_of(rest, ',', i) == c,
    decreases c - i,
{
    reveal_strlit(";base64");
    if i < c {
        assert(rest.take(c)[i] == rest[i]);
        if i < media.len() {
            assert(media[i] == rest[i]);
            assert(media.contains(media[i]));
        } else {
            assert(rest[i] == ";base64"@[i - media.len()]);
        }
        comma_is_found(rest, i + 1, c, media);
    }
}

/// The blocks of the messages of a request to Messages, each with its role.
pub open spec fn spoken(list: Seq<Jv>, n: nat) -> Seq<(Option<Jv>, Jv)>
    decreases n,
{
    if n == 0 {
        Seq::empty()
    } else {
        let blocks = list_in(list[n - 1], "content"@);
        spoken(list, (n - 1) as nat) + Seq::new(
            blocks.len(),
            |i: int| (list[n - 1].get("role"@), blocks[i]),
        )
    }
}

/// The blocks of the messages of a chat request, each with the role that it is to have: those of
/// the assistant as the assistant's, all others as the user's, and none of the system.
pub open spec fn to_be_spoken(messages: Seq<Jv>, fresh: Seq<Seq<Seq<char>>>, n: nat) -> Seq<
    (Option<Jv>, Jv),
>
    decreases n,
{
    if n == 0 {
        Seq::empty()
    } else {
        let before = to_be_spoken(messages, fresh, (n - 1) as nat);
        let message = messages[n - 1];
        let role = anthropic_outbound::role_of(message);
        let blocks = anthropic_outbound::blocks_of(message, role, protocol::row(fresh, n - 1));
        if role == "system"@ {
            before
        } else {
            before + Seq::new(
                blocks.len(),
                |i: int|
                    (
                        Some(
                            Jv::Str(
                                if role == "assistant"@ {
                                    "assistant"@
                                } else {
                                    "user"@
                                },
                            ),
                        ),
                        blocks[i],
                    ),
            )
        }
    }
}

proof fn spoken_prefix(a: Seq<Jv>, b: Seq<Jv>, n: nat)
    requires
        n <= a.len(),
        n <= b.len(),
        forall|i: int| 0 <= i < n ==> a[i] == b[i],
    ensures
        spoken(a, n) == spoken(b, n),
    decreases n,
{
    if n > 0 {
        spoken_prefix(a, b, (n - 1) as nat);
        assert(a[n - 1] == b[n - 1]);
        let blocks = list_in(a[n - 1], "content"@);
        assert(Seq::new(blocks.len(), |i: int| (a[n - 1].get("role"@), blocks[i])) =~= Seq::new(
            blocks.len(),
            |i: int| (b[n - 1].get("role"@), blocks[i]),
        ));
    }
}

spec fn tagged(assistant: bool, blocks: Seq<Jv>) -> Seq<(Option<Jv>, Jv)> {
    Seq::new(
        blocks.len(),
        |i: int|
            (
                Some(
                    Jv::Str(
                        if assistant {
                            "assistant"@
                        } else {
                            "user"@
                        },
                    ),
                ),
                blocks[i],
            ),
    )
}

proof fn spoken_last(turns: Seq<TurnV>, n: nat)
    requires
        0 < n <= turns.len(),
    ensures
        spoken(anthropic_outbound::turn_messages(turns), n) == spoken(
            anthropic_outbound::turn_messages(turns),
            (n - 1) as nat,
        ) + tagged(turns[n - 1].assistant, turns[n - 1].blocks),
{
    words::message_words();
    let list = anthropic_outbound::turn_messages(turns);
    let t = turns[n - 1];
    assert(list[n - 1] == anthropic_outbound::turn_message(t));
    let blocks = list_in(list[n - 1], "content"@);
    assert(blocks == t.blocks);
    assert(Seq::new(blocks.len(), |i: int| (list[n - 1].get("role"@), blocks[i])) =~= tagged(
        t.assistant,
        t.blocks,
    ));
}

proof fn one_turn_more(turns: Seq<TurnV>, assistant: bool, blocks: Seq<Jv>)
    ensures
        ({
            let all = anthropic_outbound::add_turn(turns, assistant, blocks);
            spoken(anthropic_outbound::turn_messages(all), all.len()) == spoken(
                anthropic_outbound::turn_messages(turns),
                turns.len(),
            ) + tagged(assistant, blocks)
        }),
{
    let all = anthropic_outbound::add_turn(turns, assistant, blocks);
    let list = anthropic_outbound::turn_messages(turns);
    let more = anthropic_outbound::turn_messages(all);
    spoken_last(all, all.len());
    if turns.len() > 0 && turns.last().assistant == assistant {
        let k = (turns.len() - 1) as nat;
        spoken_last(turns, turns.len());
        assert forall|i: int| 0 <= i < k implies list[i] == more[i] by {
            assert(all[i] == turns[i]);
        }
        spoken_prefix(list, more, k);
        assert(all.last().blocks == turns.last().blocks + blocks);
        assert(tagged(assistant, turns.last().blocks + blocks) =~= tagged(
            assistant,
            turns.last().blocks,
        ) + tagged(assistant, blocks));
        assert(spoken(more, all.len()) =~= spoken(list, turns.len()) + tagged(assistant, blocks));
    } else {
        assert forall|i: int| 0 <= i < turns.len() implies list[i] == more[i] by {
            assert(all[i] == turns[i]);
        }
        spoken_prefix(list, more, turns.len());
    }
}

proof fn turns_keep_all(messages: Seq<Jv>, fresh: Seq<Seq<Seq<char>>>, n: nat)
    requires
        n <= messages.len(),
    ensures
        ({
            let turns = anthropic_outbound::turns_of(messages, fresh, n);
            spoken(anthropic_outbound::turn_messages(turns), turns.len()) == to_be_spoken(
                messages,
                fresh,
                n,
            )
        }),
    decreases n,
{
    if n > 0 {
        turns_keep_all(messages, fresh, (n - 1) as nat);
        let before = anthropic_outbound::turns_of(messages, fresh, (n - 1) as nat);
        let message = messages[n - 1];
        let role = anthropic_outbound::role_of(message);
        let blocks = anthropic_outbound::blocks_of(message, role, protocol::row(fresh, n - 1));
        one_turn_more(before, role == "assistant"@, blocks);
        let so_far = to_be_spoken(messages, fresh, (n - 1) as nat);
        if role != "system"@ {
            assert(to_be_spoken(messages, fresh, n) =~= so_far + tagged(role == "assistant"@, blocks));
            if blocks.len() == 0 {
                assert(so_far + tagged(role == "assistant"@, blocks) =~= so_far);
            }
        }
    } else {
        assert(spoken(anthropic_outbound::turn_messages(Seq::empty()), 0) =~= Seq::empty());
    }
}

/// Nothing of a conversation is lost on its way to Messages: the blocks of its messages stand
/// there in their order, each under its role, however they are gathered to turns.
pub proof fn conversation_goes_on(
    chat: Jv,
    messages: Seq<Jv>,
    model: Seq<char>,
    fresh: Seq<Seq<Seq<char>>>,
)
    requires
        chat.get("messages"@) == Some(Jv::Arr(messages)),
    ensures
        anthropic_outbound::request_of_chat(chat, model, fresh) matches Ok(out) && spoken(
            list_in(out, "messages"@),
            list_in(out, "messages"@).len(),
        ) == to_be_spoken(messages, fresh, messages.len()),
{
    words::request_words();
    turns_keep_all(messages, fresh, messages.len());
}

// -------------------------------------------------------------- messages, to Responses

/// A text of the user makes one message item.
pub proof fn user_text_is_an_item(message: Jv, s: Seq<char>, fresh: FreshV)
    requires
        holds(message, "content"@, s),
    ensures
        has_role(message, "user"@) ==> {
            let out = responses_outbound::message_items(message, fresh);
            &&& out.len() == 1
            &&& holds(out[0], "type"@, "message"@)
            &&& holds(out[0], "role"@, "user"@)
            &&& holds(out[0], "content"@, s)
        },
        of_system(message) ==> responses_outbound::message_items(message, fresh).len() == 0,
{
    words::role_words();
    words::item_words();
    reveal_strlit("user");
    reveal_strlit("system");
}

/// The result of a tool goes back to the call that asked for it.
pub proof fn result_is_an_item(message: Jv, id: Seq<char>, s: Seq<char>, fresh: FreshV)
    requires
        holds(message, "tool_call_id"@, id),
        holds(message, "content"@, s),
    ensures
        has_role(message, "tool"@) ==> {
            let out = responses_outbound::message_items(message, fresh);
            &&& out.len() == 1
            &&& holds(out[0], "type"@, "function_call_output"@)
            &&& holds(out[0], "call_id"@, id)
            &&& holds(
                out[0],
                "output"@,
                if s.len() > 0 {
                    s
                } else {
                    "(empty)"@
                },
            )
        },
{
    words::role_words();
    words::item_words();
    reveal_strlit("tool");
}

proof fn items_of_calls(calls: Seq<Jv>, fresh: FreshV, n: nat)
    ensures
        responses_outbound::called_items(calls, fresh, n).len() == n,
        forall|i: int|
            #![trigger responses_outbound::called_items(calls, fresh, n)[i]]
            0 <= i < n ==> responses_outbound::called_items(calls, fresh, n)[i]
                == responses_outbound::called_items(calls, fresh, (i + 1) as nat).last(),
    decreases n,
{
    if n > 0 {
        items_of_calls(calls, fresh, (n - 1) as nat);
        let before = responses_outbound::called_items(calls, fresh, (n - 1) as nat);
        let all = responses_outbound::called_items(calls, fresh, n);
        assert forall|i: int| 0 <= i < n implies #[trigger] all[i]
            == responses_outbound::called_items(calls, fresh, (i + 1) as nat).last() by {
            if i < n - 1 {
                assert(all[i] == before[i]);
            }
        }
    }
}

/// What the assistant has thought, said and called goes on as items, in that order.
pub proof fn assistant_speaks_in_items(
    message: Jv,
    thought: Seq<char>,
    said: Seq<char>,
    fresh: FreshV,
)
    requires
        holds(message, "content"@, said),
        thought.len() > 0 ==> holds(message, "reasoning_content"@, thought),
        thought.len() == 0 ==> message.get("reasoning_content"@) is None && message.get("reasoning"@)
            is None,
    ensures
        has_role(message, "assistant"@) ==> {
            let out = responses_outbound::message_items(message, fresh);
            let calls = list_in(message, "tool_calls"@);
            let a = one_if(thought.len() > 0);
            let b = one_if(said.len() > 0);
            &&& out.len() == a + b + calls.len()
            &&& a == 1 ==> holds(out[0], "type"@, "reasoning"@) && list_in(out[0], "summary"@).len() == 1
                && holds(list_in(out[0], "summary"@)[0], "text"@, thought)
            &&& b == 1 ==> holds(out[a], "type"@, "message"@) && holds(out[a], "role"@, "assistant"@)
                && list_in(out[a], "content"@).len() == 1 && holds(
                list_in(out[a], "content"@)[0],
                "type"@,
                "output_text"@,
            ) && holds(list_in(out[a], "content"@)[0], "text"@, said)
            &&& forall|i: int, id: Seq<char>, name: Seq<char>, arguments: Seq<char>|
                #![trigger is_call(calls[i], id, name, arguments)]
                0 <= i < calls.len() && is_call(calls[i], id, name, arguments) && id.len() > 0 ==> {
                    let item = out[a + b + i];
                    &&& holds(item, "type"@, "function_call"@)
                    &&& holds(item, "call_id"@, id)
                    &&& holds(item, "name"@, name)
                    &&& holds(
                        item,
                        "arguments"@,
                        if arguments.len() > 0 {
                            arguments
                        } else {
                            "{}"@
                        },
                    )
                }
        },
{
    words::role_words();
    words::item_words();
    reveal_strlit("assistant");
    let calls = list_in(message, "tool_calls"@);
    items_of_calls(calls, fresh, calls.len());
    let a = one_if(thought.len() > 0);
    let b = one_if(said.len() > 0);
    assert(chat::reasoning_of(message) =~= thought);
    assert(chat::calls_of(message) == calls);
    assert(protocol::opt_plain_text(message.get("content"@)) == said);
    let rest = responses_outbound::called_items(calls, fresh, calls.len());
    let out = responses_outbound::assistant_items(message, fresh);
    assert(out.len() == a + b + calls.len());
    assert forall|i: int, id: Seq<char>, name: Seq<char>, arguments: Seq<char>|
        #![trigger is_call(calls[i], id, name, arguments)]
        0 <= i < calls.len() && is_call(calls[i], id, name, arguments) && id.len() > 0 implies {
        let item = out[a + b + i];
        &&& holds(item, "type"@, "function_call"@)
        &&& holds(item, "call_id"@, id)
        &&& holds(item, "name"@, name)
        &&& holds(
            item,
            "arguments"@,
            if arguments.len() > 0 {
                arguments
            } else {
                "{}"@
            },
        )
    } by {
        assert(out[a + b + i] == rest[i]);
        assert(rest[i] == responses_outbound::called_items(calls, fresh, (i + 1) as nat).last());
    }
}

/// The items of each message, one after the other.
pub open spec fn all_items(messages: Seq<Jv>, fresh: Seq<FreshV>, from: nat) -> Seq<Jv>
    decreases messages.len() - from,
{
    if from >= messages.len() {
        Seq::empty()
    } else {
        responses_outbound::message_items(
            messages[from as int],
            responses::ids_at(fresh, from as int),
        ) + all_items(messages, fresh, from + 1)
    }
}

proof fn items_are_all(messages: Seq<Jv>, fresh: Seq<FreshV>, n: nat)
    requires
        n <= messages.len(),
    ensures
        responses_outbound::items_of(messages, fresh, n) + all_items(messages, fresh, n) == all_items(
            messages,
            fresh,
            0,
        ),
    decreases n,
{
    if n > 0 {
        items_are_all(messages, fresh, (n - 1) as nat);
        let k = (n - 1) as nat;
        let one = responses_outbound::message_items(
            messages[k as int],
            responses::ids_at(fresh, k as int),
        );
        assert(responses_outbound::items_of(messages, fresh, n) == responses_outbound::items_of(
            messages,
            fresh,
            k,
        ) + one);
        assert(all_items(messages, fresh, k) == one + all_items(messages, fresh, n));
        assert(responses_outbound::items_of(messages, fresh, k) + one + all_items(messages, fresh, n)
            =~= responses_outbound::items_of(messages, fresh, k) + (one + all_items(
            messages,
            fresh,
            n,
        )));
    } else {
        assert(Seq::<Jv>::empty() + all_items(messages, fresh, 0) =~= all_items(messages, fresh, 0));
    }
}

/// Nothing of a conversation is lost on its way to Responses: the items of its messages stand
/// in the input in their order.
pub proof fn conversation_is_the_input(
    chat: Jv,
    messages: Seq<Jv>,
    model: Seq<char>,
    fresh: Seq<FreshV>,
)
    requires
        chat.get("messages"@) == Some(Jv::Arr(messages)),
    ensures
        responses_outbound::responses_of_chat_request(chat, model, fresh) matches Ok(out) && list_in(
            out,
            "input"@,
        ) == all_items(messages, fresh, 0),
{
    sent_to_responses(chat, messages, model, fresh);
    items_are_all(messages, fresh, messages.len());
    assert(responses_outbound::items_of(messages, fresh, messages.len()) + Seq::<Jv>::empty()
        =~= responses_outbound::items_of(messages, fresh, messages.len()));
}

/// A choice that is neither a word nor names a tool leaves the choice to the model; Responses
/// gets it as it stands.
pub proof fn other_choices_are_left_open(
    chat: Jv,
    choice: Jv,
    model: Seq<char>,
    fresh: Seq<Seq<Seq<char>>>,
    ids: Seq<FreshV>,
)
    requires
        chat.get("messages"@) matches Some(Jv::Arr(_)),
        chat.get("tool_choice"@) == Some(choice),
        choice is Obj,
        choice.get("function"@) is None,
    ensures
        anthropic_outbound::request_of_chat(chat, model, fresh) matches Ok(out) && {
            &&& choice.get("name"@) is None ==> within(out, "tool_choice"@, "type"@) == Some(
                Jv::Str("auto"@),
            )
            &&& (choice.get("name"@) matches Some(Jv::Str(s)) ==> s.len() > 0 ==> within(
                out,
                "tool_choice"@,
                "type"@,
            ) == Some(Jv::Str("tool"@)) && within(out, "tool_choice"@, "name"@) == Some(Jv::Str(s)))
        },
        responses_outbound::responses_of_chat_request(chat, model, ids) matches Ok(out) && {
            &&& choice.get("name"@) is None ==> out.get("tool_choice"@) == Some(choice)
            &&& (choice.get("name"@) matches Some(Jv::Str(s)) ==> s.len() > 0 ==> within(
                out,
                "tool_choice"@,
                "type"@,
            ) == Some(Jv::Str("function"@)) && within(out, "tool_choice"@, "name"@) == Some(
                Jv::Str(s),
            ))
        },
{
    words::request_words();
    words::chat_request_words();
    words::choice_words();
    words::format_words();
}

} // verus!
