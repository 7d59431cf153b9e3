//! Chat requests as Responses requests, and the event stream that comes back as a
//! chat stream.

use crate::json::{Json, Jv};
use crate::json;
use crate::protocol::anthropic_outbound;
use crate::protocol::chat;
use crate::protocol::chunks::{ChunkWriter, Given, NewIds, WriterV};
use crate::protocol::chunks;
use crate::protocol::responses::{Fresh, FreshV};
use crate::protocol::responses;
use crate::protocol::tool_plan;
use crate::protocol::{Frame, Fv, SseLineBuffer};
use crate::protocol;
use crate::text;
use vstd::prelude::*;
use vstd::string::*;

verus! {

// --------------------------------------------------------------------- items

/// The item of a tool's result.
pub open spec fn result_item(message: Jv) -> Jv {
    Jv::obj().put("type"@, Jv::Str("function_call_output"@)).put(
        "call_id"@,
        Jv::Str(protocol::loose_field(message, "tool_call_id"@)),
    ).put("output"@, Jv::Str(responses::output_text(message.get("content"@))))
}

/// A part with the user's text.
pub open spec fn input_part(text: Seq<char>) -> Jv {
    Jv::obj().put("type"@, Jv::Str("input_text"@)).put("text"@, Jv::Str(text))
}

/// The part for one part of a user's message: text, or an image with an address.
pub open spec fn part_of(part: Jv) -> Option<Jv> {
    match part {
        Jv::Str(s) => Some(input_part(s)),
        _ => {
            let kind = text::lowercase(protocol::loose_field(part, "type"@));
            if protocol::is_text_kind(kind) {
                Some(input_part(protocol::loose_field(part, "text"@)))
            } else if (kind == "image_url"@ || kind == "input_image"@) && responses::image_url(part).len() > 0 {
                Some(
                    Jv::obj().put("type"@, Jv::Str("input_image"@)).put(
                        "image_url"@,
                        Jv::Str(responses::image_url(part)),
                    ),
                )
            } else {
                None
            }
        },
    }
}

/// The first `n` parts.
pub open spec fn parts_of(parts: Seq<Jv>, n: nat) -> Seq<Jv>
    decreases n,
{
    if n == 0 {
        Seq::empty()
    } else {
        anthropic_outbound::push_some(parts_of(parts, (n - 1) as nat), part_of(parts[n - 1]))
    }
}

/// The content of a user's message: a text as it is, a list of parts, or an empty
/// text where nothing is left.
pub open spec fn user_content(content: Option<Jv>) -> Jv {
    match content {
        Some(Jv::Str(s)) => Jv::Str(s),
        Some(Jv::Arr(parts)) => if parts_of(parts, parts.len()).len() == 0 {
            Jv::Str(""@)
        } else {
            Jv::Arr(parts_of(parts, parts.len()))
        },
        _ => Jv::Str(""@),
    }
}

/// The item of a user's message.
pub open spec fn user_item(message: Jv) -> Jv {
    Jv::obj().put("type"@, Jv::Str("message"@)).put("role"@, Jv::Str("user"@)).put(
        "content"@,
        user_content(message.get("content"@)),
    )
}

/// The item of what the assistant said.
pub open spec fn spoken_item(id: Seq<char>, text: Seq<char>) -> Jv {
    Jv::obj().put("type"@, Jv::Str("message"@)).put("id"@, Jv::Str(id)).put(
        "role"@,
        Jv::Str("assistant"@),
    ).put(
        "content"@,
        Jv::Arr(
            seq![Jv::obj().put("type"@, Jv::Str("output_text"@)).put("text"@, Jv::Str(text))],
        ),
    )
}

/// The item of a tool call.
pub open spec fn called_item(call: Jv, item_id: Seq<char>, fresh: Seq<char>) -> Jv {
    Jv::obj().put("type"@, Jv::Str("function_call"@)).put("id"@, Jv::Str(item_id)).put(
        "call_id"@,
        Jv::Str(protocol::or_else(protocol::loose_field(call, "id"@), fresh)),
    ).put("name"@, Jv::Str(protocol::opt_loose(json::opt_get(call.get("function"@), "name"@)))).put(
        "arguments"@,
        Jv::Str(protocol::or_else(protocol::opt_loose(json::opt_get(call.get("function"@), "arguments"@)), "{}"@)),
    )
}

/// The items of the first `n` tool calls.
pub open spec fn called_items(calls: Seq<Jv>, fresh: FreshV, n: nat) -> Seq<Jv>
    decreases n,
{
    if n == 0 {
        Seq::empty()
    } else {
        called_items(calls, fresh, (n - 1) as nat).push(
            called_item(calls[n - 1], protocol::text_at(fresh.fc, n - 1), protocol::text_at(fresh.call, n - 1)),
        )
    }
}

/// The items of an assistant's message: its thinking, what it said, its calls, in
/// this order; what is empty is left out.
pub open spec fn assistant_items(message: Jv, fresh: FreshV) -> Seq<Jv> {
    let reasoning = chat::reasoning_of(message);
    let text = protocol::opt_plain_text(message.get("content"@));
    let calls = chat::calls_of(message);
    let thought = if reasoning.len() == 0 {
        Seq::empty()
    } else {
        seq![responses::reasoning_item(fresh.rs, reasoning)]
    };
    let spoken = if text.len() == 0 {
        thought
    } else {
        thought.push(spoken_item(fresh.msg, text))
    };
    spoken + called_items(calls, fresh, calls.len())
}

/// The items of one message.
pub open spec fn message_items(message: Jv, fresh: FreshV) -> Seq<Jv> {
    let role = anthropic_outbound::role_of(message);
    if role == "system"@ {
        Seq::empty()
    } else if role == "tool"@ {
        seq![result_item(message)]
    } else if role == "assistant"@ {
        assistant_items(message, fresh)
    } else {
        seq![user_item(message)]
    }
}

/// The items of the first `n` messages.
pub open spec fn items_of(messages: Seq<Jv>, fresh: Seq<FreshV>, n: nat) -> Seq<Jv>
    decreases n,
{
    if n == 0 {
        Seq::empty()
    } else {
        items_of(messages, fresh, (n - 1) as nat) + message_items(
            messages[n - 1],
            responses::ids_at(fresh, n - 1),
        )
    }
}

fn read_part(part: &Json) -> (r: Option<Json>)
    ensures
        json::opt_owned(r) == part_of(part@),
{
    let text = match part {
        Json::Str(s) => s.clone(),
        _ => {
            let kind = text::lower(protocol::string_field(part, "type").as_str());
            if text::same(kind.as_str(), "text") || text::same(kind.as_str(), "input_text") || text::same(
                kind.as_str(),
                "output_text",
            ) {
                protocol::string_field(part, "text")
            } else if text::same(kind.as_str(), "image_url") || text::same(kind.as_str(), "input_image") {
                let url = responses::image_url_of(part);
                if url.as_str().is_empty() {
                    return None;
                }
                return Some(
                    Json::obj().with("type", Json::str("input_image")).with(
                        "image_url",
                        Json::Str(url),
                    ),
                );
            } else {
                return None;
            }
        },
    };
    Some(Json::obj().with("type", Json::str("input_text")).with("text", Json::Str(text)))
}

fn chat_content_to_responses(content: Option<&Json>) -> (r: Json)
    ensures
        r@ == user_content(json::opt_model(content)),
{
    broadcast use json::group_json;

    match content {
        Some(Json::Str(s)) => Json::Str(s.clone()),
        Some(Json::Arr(parts)) => {
            let ghost want = json::models(parts@);
            proof {
                json::model_arr(*parts);
            }
            let mut out: Vec<Json> = Vec::new();
            let mut i: usize = 0;
            while i < parts.len()
                invariant
                    i <= parts@.len(),
                    want == json::models(parts@),
                    json::models(out@) == parts_of(want, i as nat),
                decreases parts@.len() - i,
            {
                if let Some(one) = read_part(&parts[i]) {
                    proof {
                        json::models_push(out@, one);
                    }
                    out.push(one);
                }
                i = i + 1;
            }
            if out.len() == 0 {
                Json::str("")
            } else {
                proof {
                    json::model_arr(out);
                }
                Json::Arr(out)
            }
        },
        _ => Json::str(""),
    }
}

fn push_assistant_items(items: &mut Vec<Json>, message: &Json, fresh: &Fresh)
    ensures
        json::models(final(items)@) == json::models(old(items)@) + assistant_items(message@, fresh@),
{
    broadcast use json::group_json;

    let ghost before = json::models(items@);
    let reasoning = chat::read_reasoning(message);
    let mut out: Vec<Json> = Vec::new();
    if !reasoning.as_str().is_empty() {
        out.push(responses::make_reasoning_item(fresh.rs.as_str(), reasoning.as_str()));
        proof {
            assert(json::models(out@) =~= seq![responses::reasoning_item(fresh@.rs, reasoning@)]);
        }
    }
    let text = protocol::opt_content_text(message.get("content"));
    if !text.as_str().is_empty() {
        let mut parts: Vec<Json> = Vec::new();
        let part = Json::obj().with("type", Json::str("output_text")).with(
            "text",
            Json::str(text.as_str()),
        );
        parts.push(part);
        proof {
            assert(json::models(parts@) =~= seq![part@]);
            json::model_arr(parts);
        }
        out.push(
            Json::obj().with("type", Json::str("message")).with(
                "id",
                Json::Str(fresh.msg.clone()),
            ).with("role", Json::str("assistant")).with("content", Json::Arr(parts)),
        );
    }
    let ghost head = json::models(out@);
    proof {
        assert(head + Seq::<Jv>::empty() =~= head);
    }
    if let Some(Json::Arr(calls)) = message.get("tool_calls") {
        let ghost want = json::models(calls@);
        proof {
            json::model_arr(*calls);
        }
        let mut i: usize = 0;
        while i < calls.len()
            invariant
                i <= calls@.len(),
                want == json::models(calls@),
                json::models(out@) == head + called_items(want, fresh@, i as nat),
            decreases calls@.len() - i,
        {
            let call = &calls[i];
            let call_id = protocol::or_text(protocol::string_field(call, "id"), protocol::string_at(&fresh.call, i).as_str());
            let name = protocol::opt_string_value(json::get_in(call.get("function"), "name"));
            let arguments = protocol::or_text(
                protocol::opt_string_value(json::get_in(call.get("function"), "arguments")),
                "{}",
            );
            let item = Json::obj().with("type", Json::str("function_call")).with(
                "id",
                Json::Str(protocol::string_at(&fresh.fc, i)),
            ).with("call_id", Json::Str(call_id)).with("name", Json::Str(name)).with(
                "arguments",
                Json::Str(arguments),
            );
            proof {
                json::models_push(out@, item);
                assert(json::models(out@.push(item)) =~= head + called_items(
                    want,
                    fresh@,
                    (i + 1) as nat,
                ));
            }
            out.push(item);
            i = i + 1;
        }
    }
    proof {
        assert(json::models(items@ + out@) =~= before + json::models(out@));
    }
    items.append(&mut out);
}

fn push_message_items(items: &mut Vec<Json>, message: &Json, role: &str, fresh: &Fresh)
    requires
        role@ == anthropic_outbound::role_of(message@),
        role@ != "system"@,
    ensures
        json::models(final(items)@) == json::models(old(items)@) + message_items(message@, fresh@),
{
    broadcast use json::group_json;

    let ghost before = json::models(items@);
    if text::same(role, "assistant") {
        proof {
            reveal_strlit("assistant");
            reveal_strlit("tool");
            assert("assistant"@.len() == 9 && "tool"@.len() == 4);
        }
        push_assistant_items(items, message, fresh);
        return;
    }
    let item = if text::same(role, "tool") {
        Json::obj().with("type", Json::str("function_call_output")).with(
            "call_id",
            Json::Str(protocol::string_field(message, "tool_call_id")),
        ).with("output", Json::Str(responses::tool_output_text(message.get("content"))))
    } else {
        Json::obj().with("type", Json::str("message")).with("role", Json::str("user")).with(
            "content",
            chat_content_to_responses(message.get("content")),
        )
    };
    proof {
        assert(before + seq![item@] =~= before.push(item@));
    }
    items.push(item);
}

// --------------------------------------------------------------------- tools


/// A chat tool as a tool of the upstream; none where it is not in the nested form
/// or has no name.
pub open spec fn flat_tool(tool: Jv) -> Option<Jv> {
    match tool.get("function"@) {
        Some(Jv::Obj(m)) => {
            let function = Jv::Obj(m);
            let name = protocol::loose_field(function, "name"@);
            if name.len() == 0 {
                None
            } else {
                Some(
                    Jv::obj().put("type"@, Jv::Str("function"@)).put(
                        "name"@,
                        Jv::Str(name),
                    ).put_some("description"@, json::if_truthy(function.get("description"@))).put(
                        "parameters"@,
                        match json::if_truthy(function.get("parameters"@)) {
                            Some(p) => p,
                            None => anthropic_outbound::empty_schema(),
                        },
                    ).put_some("strict"@, function.get("strict"@)),
                )
            }
        },
        _ => None,
    }
}

/// The first `n` tools.
pub open spec fn flat_tools(tools: Seq<Jv>, n: nat) -> Seq<Jv>
    decreases n,
{
    if n == 0 {
        Seq::empty()
    } else {
        anthropic_outbound::push_some(flat_tools(tools, (n - 1) as nat), flat_tool(tools[n - 1]))
    }
}

fn tool_to_responses(tool: &Json) -> (r: Option<Json>)
    ensures
        json::opt_owned(r) == flat_tool(tool@),
{
    let function = match tool.get("function") {
        Some(f) => if f.is_obj() {
            f
        } else {
            return None;
        },
        None => {
            return None;
        },
    };
    let name = protocol::string_field(function, "name");
    if name.as_str().is_empty() {
        return None;
    }
    let mut out = Json::obj().with("type", Json::str("function")).with("name", Json::Str(name));
    out.put_some("description", json::truthy_in(function.get("description")));
    let parameters = match json::truthy_in(function.get("parameters")) {
        Some(p) => p.copy(),
        None => anthropic_outbound::make_empty_schema(),
    };
    out.put("parameters", parameters);
    out.put_some("strict", function.get("strict"));
    Some(out)
}

/// The choice among the tools: a word as it is, a tool by its name.
pub open spec fn flat_choice(choice: Jv) -> Jv {
    if choice is Str || anthropic_outbound::chosen_name(choice).len() == 0 {
        choice
    } else {
        Jv::obj().put("type"@, Jv::Str("function"@)).put("name"@, Jv::Str(anthropic_outbound::chosen_name(choice)))
    }
}

fn tool_choice_to_responses(choice: &Json) -> (r: Json)
    ensures
        r@ == flat_choice(choice@),
{
    if let Json::Str(_) = choice {
        return choice.copy();
    }
    let name = anthropic_outbound::read_chosen_name(choice);
    if name.as_str().is_empty() {
        return choice.copy();
    }
    Json::obj().with("type", Json::str("function")).with("name", Json::Str(name))
}

/// The form of the answer that is asked for, without the nesting of the chat
/// protocol.
pub open spec fn flat_format(format: Jv) -> Jv {
    if protocol::loose_field(format, "type"@) != "json_schema"@ {
        format
    } else {
        let inner = format.get("json_schema"@);
        Jv::obj().put("type"@, Jv::Str("json_schema"@)).put_some(
            "name"@,
            json::if_not_null(json::opt_get(inner, "name"@)),
        ).put_some("description"@, json::if_not_null(json::opt_get(inner, "description"@))).put_some(
            "schema"@,
            json::if_not_null(json::opt_get(inner, "schema"@)),
        ).put_some("strict"@, json::if_not_null(json::opt_get(inner, "strict"@)))
    }
}

fn format_to_responses(format: &Json) -> (r: Json)
    ensures
        r@ == flat_format(format@),
{
    if !text::same(protocol::string_field(format, "type").as_str(), "json_schema") {
        return format.copy();
    }
    let inner = format.get("json_schema");
    let mut out = Json::obj().with("type", Json::str("json_schema"));
    out.put_some("name", json::not_null_in(json::get_in(inner, "name")));
    out.put_some("description", json::not_null_in(json::get_in(inner, "description")));
    out.put_some("schema", json::not_null_in(json::get_in(inner, "schema")));
    out.put_some("strict", json::not_null_in(json::get_in(inner, "strict")));
    out
}

// ------------------------------------------------------------------- request

/// The token limit that a chat request names.
pub open spec fn output_limit(chat: Jv) -> Option<Jv> {
    match anthropic_outbound::positive_under(chat, "max_completion_tokens"@) {
        Some(n) => Some(Jv::Int(n)),
        None => match anthropic_outbound::positive_under(chat, "max_tokens"@) {
            Some(n) => Some(Jv::Int(n)),
            None => None,
        },
    }
}

/// The tools of a request, where any are left.
pub open spec fn flat_tools_sent(chat: Jv) -> Option<Jv> {
    match chat.get("tools"@) {
        Some(Jv::Arr(tools)) => if flat_tools(tools, tools.len()).len() == 0 {
            None
        } else {
            Some(Jv::Arr(flat_tools(tools, tools.len())))
        },
        _ => None,
    }
}

/// The choice among the tools, where one was made.
pub open spec fn flat_choice_sent(chat: Jv) -> Option<Jv> {
    match json::if_truthy(chat.get("tool_choice"@)) {
        Some(choice) => Some(flat_choice(choice)),
        None => None,
    }
}

/// The form of the answer, where one is asked for.
pub open spec fn format_sent(chat: Jv) -> Option<Jv> {
    match json::if_truthy(chat.get("response_format"@)) {
        Some(format) => Some(Jv::obj().put("format"@, flat_format(format))),
        None => None,
    }
}

/// How hard the model is asked to think, where a level is named.
pub open spec fn effort_sent(chat: Jv) -> Option<Jv> {
    match anthropic_outbound::asked_effort(chat) {
        Some(level) => Some(
            Jv::obj().put("effort"@, Jv::Str(level)).put("summary"@, Jv::Str("auto"@)),
        ),
        None => None,
    }
}

/// The Responses request of a chat request. `fresh` holds, for each message, the
/// identifiers that its items may need. A request without a list of messages is
/// refused.
pub open spec fn responses_of_chat_request(
    chat: Jv,
    model: Seq<char>,
    fresh: Seq<FreshV>,
) -> Result<Jv, Seq<char>> {
    match chat.get("messages"@) {
        Some(Jv::Arr(messages)) => Ok(
            Jv::obj().put("model"@, Jv::Str(model)).put(
                "input"@,
                Jv::Arr(items_of(messages, fresh, messages.len())),
            ).put("stream"@, Jv::Bool(chat::flag(chat, "stream"@))).put_some(
                "instructions"@,
                anthropic_outbound::system_sent(messages),
            ).put_some("max_output_tokens"@, output_limit(chat)).put_some(
                "temperature"@,
                json::if_not_null(chat.get("temperature"@)),
            ).put_some("top_p"@, json::if_not_null(chat.get("top_p"@))).put_some(
                "service_tier"@,
                json::if_not_null(chat.get("service_tier"@)),
            ).put_some(
                "parallel_tool_calls"@,
                json::if_not_null(chat.get("parallel_tool_calls"@)),
            ).put_some("user"@, json::if_not_null(chat.get("user"@))).put_some(
                "metadata"@,
                json::if_not_null(chat.get("metadata"@)),
            ).put_some("tools"@, flat_tools_sent(chat)).put_some(
                "tool_choice"@,
                flat_choice_sent(chat),
            ).put_some("text"@, format_sent(chat)).put_some("reasoning"@, effort_sent(chat)).put(
                "store"@,
                Jv::Bool(false),
            ),
        ),
        _ => Err("缺少 messages 数组"@),
    }
}

fn read_flat_tools(chat: &Json) -> (r: Option<Json>)
    ensures
        json::opt_owned(r) == flat_tools_sent(chat@),
{
    broadcast use json::group_json;

    if let Some(Json::Arr(tools)) = chat.get("tools") {
        let ghost want = json::models(tools@);
        proof {
            json::model_arr(*tools);
        }
        let mut out: Vec<Json> = Vec::new();
        let mut i: usize = 0;
        while i < tools.len()
            invariant
                i <= tools@.len(),
                want == json::models(tools@),
                json::models(out@) == flat_tools(want, i as nat),
            decreases tools@.len() - i,
        {
            if let Some(tool) = tool_to_responses(&tools[i]) {
                proof {
                    json::models_push(out@, tool);
                }
                out.push(tool);
            }
            i = i + 1;
        }
        if out.len() > 0 {
            proof {
                json::model_arr(out);
            }
            return Some(Json::Arr(out));
        }
    }
    None
}

/// The Responses request of a chat request, with the identifiers that it may need
/// given.
pub fn responses_request_from_chat_with(chat: &Json, model: &str, fresh: &Vec<Fresh>) -> (r: Result<
    Json,
    String,
>)
    ensures
        json::outcome(r) == responses_of_chat_request(chat@, model@, responses::fresh_view(fresh@)),
{
    broadcast use json::group_json;

    let messages = match chat.get("messages") {
        Some(Json::Arr(list)) => list,
        _ => {
            return Err("缺少 messages 数组".to_owned());
        },
    };
    let ghost want = json::models(messages@);
    let ghost ids = responses::fresh_view(fresh@);
    proof {
        json::model_arr(*messages);
    }
    let mut instructions = String::new();
    let mut items: Vec<Json> = Vec::new();
    let none = Fresh::none();
    proof {
        reveal_strlit("");
    }
    let mut i: usize = 0;
    while i < messages.len()
        invariant
            i <= messages@.len(),
            want == json::models(messages@),
            ids == responses::fresh_view(fresh@),
            none@ == responses::no_ids(),
            instructions@ == anthropic_outbound::system_texts(want, i as nat),
            json::models(items@) == items_of(want, ids, i as nat),
        decreases messages@.len() - i,
    {
        let message = &messages[i];
        let role = anthropic_outbound::read_role(message);
        let ghost before = json::models(items@);
        proof {
            assert(before + Seq::<Jv>::empty() =~= before);
        }
        if text::same(role.as_str(), "system") {
            let text = protocol::opt_content_text(message.get("content"));
            if !text::trim(text.as_str()).as_str().is_empty() {
                instructions = protocol::join_with(instructions, "\n\n", text.as_str());
            }
        } else {
            let given: &Fresh = if i < fresh.len() {
                &fresh[i]
            } else {
                &none
            };
            proof {
                assert(given@ == responses::ids_at(ids, i as int));
            }
            push_message_items(&mut items, message, role.as_str(), given);
        }
        i = i + 1;
    }
    proof {
        json::model_arr(items);
    }
    let mut out = Json::obj().with("model", Json::str(model)).with("input", Json::Arr(items)).with(
        "stream",
        Json::Bool(chat::read_flag(chat, "stream")),
    );
    if !instructions.as_str().is_empty() {
        out.put("instructions", Json::Str(instructions));
    }
    let limit = match anthropic_outbound::read_positive(chat, "max_completion_tokens") {
        Some(n) => Some(n),
        None => anthropic_outbound::read_positive(chat, "max_tokens"),
    };
    if let Some(n) = limit {
        out.put("max_output_tokens", Json::Int(n));
    }
    out.put_some("temperature", json::not_null_in(chat.get("temperature")));
    out.put_some("top_p", json::not_null_in(chat.get("top_p")));
    out.put_some("service_tier", json::not_null_in(chat.get("service_tier")));
    out.put_some("parallel_tool_calls", json::not_null_in(chat.get("parallel_tool_calls")));
    out.put_some("user", json::not_null_in(chat.get("user")));
    out.put_some("metadata", json::not_null_in(chat.get("metadata")));
    let tools = read_flat_tools(chat);
    out.put_some("tools", tools.as_ref());
    if let Some(choice) = json::truthy_in(chat.get("tool_choice")) {
        out.put("tool_choice", tool_choice_to_responses(choice));
    }
    if let Some(format) = json::truthy_in(chat.get("response_format")) {
        out.put("text", Json::obj().with("format", format_to_responses(format)));
    }
    if let Some(level) = anthropic_outbound::read_asked_effort(chat) {
        out.put(
            "reasoning",
            Json::obj().with("effort", Json::Str(level)).with("summary", Json::str("auto")),
        );
    }
    out.put("store", Json::Bool(false));
    Ok(out)
}

/// Whether the identifiers are enough for the items of every message.
pub open spec fn items_fit(messages: Seq<Jv>, fresh: Seq<FreshV>) -> bool {
    &&& fresh.len() == messages.len()
    &&& forall|i: int|
        0 <= i < messages.len() ==> (#[trigger] fresh[i]).fits(chat::calls_of(messages[i]).len())
}

/// Fresh identifiers for the items of every message of a chat request.
pub(crate) fn draw_items(chat: &Json) -> (r: Vec<Fresh>)
    ensures
        items_fit(anthropic_outbound::messages_in(chat@), responses::fresh_view(r@)),
{
    broadcast use json::group_json;

    let mut fresh: Vec<Fresh> = Vec::new();
    if let Some(Json::Arr(list)) = chat.get("messages") {
        let ghost want = json::models(list@);
        proof {
            json::model_arr(*list);
        }
        let mut i: usize = 0;
        while i < list.len()
            invariant
                i <= list@.len(),
                want == json::models(list@),
                fresh@.len() == i,
                forall|k: int|
                    0 <= k < i ==> (#[trigger] fresh@[k])@.fits(chat::calls_of(want[k]).len()),
            decreases list@.len() - i,
        {
            let count: usize = match list[i].get("tool_calls") {
                Some(Json::Arr(calls)) => {
                    proof {
                        json::model_arr(*calls);
                    }
                    calls.len()
                },
                _ => 0,
            };
            fresh.push(Fresh::draw(count));
            i = i + 1;
        }
        proof {
            assert(anthropic_outbound::messages_in(chat@) == want);
        }
    }
    fresh
}

/// The Responses request of a chat request.
pub fn responses_request_from_chat(chat: &Json, model: &str) -> (r: Result<Json, String>)
    ensures
        exists|fresh: Seq<FreshV>| #[trigger]
            items_fit(anthropic_outbound::messages_in(chat@), fresh) && json::outcome(r) == responses_of_chat_request(
                chat@,
                model@,
                fresh,
            ),
{
    let fresh = draw_items(chat);
    responses_request_from_chat_with(chat, model, &fresh)
}

// --------------------------------------------------------------------- usage

/// A chat usage report of these counts.
pub open spec fn counts_report(
    input: int,
    cached: int,
    output: int,
    reasoning: int,
    total: int,
) -> Jv {
    Jv::obj().put("prompt_tokens"@, Jv::Int(input)).put_some(
        "prompt_tokens_details"@,
        responses::count_details("cached_tokens"@, cached),
    ).put("completion_tokens"@, Jv::Int(output)).put_some(
        "completion_tokens_details"@,
        responses::count_details("reasoning_tokens"@, reasoning),
    ).put("total_tokens"@, Jv::Int(total))
}

/// The input tokens of a Responses usage report.
pub open spec fn told_input(u: Jv) -> int {
    protocol::number_under(u, seq!["input_tokens", "prompt_tokens"], 0)
}

/// The output tokens of a Responses usage report.
pub open spec fn told_output(u: Jv) -> int {
    protocol::number_under(u, seq!["output_tokens", "completion_tokens"], 0)
}

/// The tokens of a Responses usage report that were read from the cache.
pub open spec fn told_cached(u: Jv) -> int {
    let nested = json::int_or_zero(json::opt_get(u.get("input_tokens_details"@), "cached_tokens"@));
    if nested != 0 {
        nested
    } else {
        protocol::number_under(u, seq!["cache_read_input_tokens"], 0)
    }
}

/// The thinking tokens of a Responses usage report.
pub open spec fn told_reasoning(u: Jv) -> int {
    json::int_or_zero(json::opt_get(u.get("output_tokens_details"@), "reasoning_tokens"@))
}

/// All tokens of a Responses usage report: at least the sum of its parts.
pub open spec fn told_total(u: Jv) -> int {
    let total = protocol::number_under(u, seq!["total_tokens"], 0);
    let sum = responses::clamped(told_input(u) + told_output(u));
    if total > sum {
        total
    } else {
        sum
    }
}

/// The chat usage report of a Responses usage report.
pub open spec fn chat_usage(u: Jv) -> Jv {
    counts_report(told_input(u), told_cached(u), told_output(u), told_reasoning(u), told_total(u))
}

/// The chat usage report of a Responses usage report.
pub fn chat_usage_from_responses(usage: &Json) -> (r: Json)
    ensures
        r@ == chat_usage(usage@),
{
    let inputs = ["input_tokens", "prompt_tokens"];
    let outputs = ["output_tokens", "completion_tokens"];
    let cache = ["cache_read_input_tokens"];
    let totals = ["total_tokens"];
    proof {
        assert(inputs@ =~= seq!["input_tokens", "prompt_tokens"]);
        assert(outputs@ =~= seq!["output_tokens", "completion_tokens"]);
        assert(cache@ =~= seq!["cache_read_input_tokens"]);
        assert(totals@ =~= seq!["total_tokens"]);
    }
    let input = protocol::json_number_of(usage, inputs.as_slice());
    let output = protocol::json_number_of(usage, outputs.as_slice());
    let nested = json::int_or(json::get_in(usage.get("input_tokens_details"), "cached_tokens"));
    let cached = if nested != 0 {
        nested
    } else {
        protocol::json_number_of(usage, cache.as_slice())
    };
    let reasoning = json::int_or(json::get_in(usage.get("output_tokens_details"), "reasoning_tokens"));
    let sum = responses::clamped_sum(input, output);
    let total = protocol::json_number_of(usage, totals.as_slice());
    let mut out = Json::obj().with("prompt_tokens", Json::Int(input));
    if cached != 0 {
        out.put(
            "prompt_tokens_details",
            Json::obj().with("cached_tokens", Json::Int(cached)),
        );
    }
    out.put("completion_tokens", Json::Int(output));
    if reasoning != 0 {
        out.put(
            "completion_tokens_details",
            Json::obj().with("reasoning_tokens", Json::Int(reasoning)),
        );
    }
    out.put(
        "total_tokens",
        Json::Int(
            if total > sum {
                total
            } else {
                sum
            },
        ),
    );
    out
}

proof fn usage_names()
    ensures
        "input_tokens"@ != "output_tokens"@,
        "input_tokens"@ != "input_tokens_details"@,
        "input_tokens"@ != "output_tokens_details"@,
        "input_tokens"@ != "total_tokens"@,
        "output_tokens"@ != "input_tokens_details"@,
        "output_tokens"@ != "output_tokens_details"@,
        "output_tokens"@ != "total_tokens"@,
        "total_tokens"@ != "input_tokens_details"@,
        "total_tokens"@ != "output_tokens_details"@,
        "input_tokens_details"@ != "output_tokens_details"@,
        "cache_read_input_tokens"@ != "input_tokens"@,
        "cache_read_input_tokens"@ != "output_tokens"@,
        "cache_read_input_tokens"@ != "total_tokens"@,
        "cache_read_input_tokens"@ != "input_tokens_details"@,
        "cache_read_input_tokens"@ != "output_tokens_details"@,
{
    reveal_strlit("input_tokens");
    reveal_strlit("output_tokens");
    reveal_strlit("total_tokens");
    reveal_strlit("input_tokens_details");
    reveal_strlit("output_tokens_details");
    reveal_strlit("cache_read_input_tokens");
    assert("input_tokens"@.len() == 12);
    assert("total_tokens"@.len() == 12);
    assert("input_tokens"@[0] == 'i');
    assert("total_tokens"@[0] == 't');
    assert("output_tokens"@.len() == 13);
    assert("input_tokens_details"@.len() == 20);
    assert("output_tokens_details"@.len() == 21);
    assert("cache_read_input_tokens"@.len() == 23);
}

proof fn under_range(j: Jv, keys: Seq<&str>, i: int)
    ensures
        i64::MIN <= protocol::number_under(j, keys, i) <= i64::MAX,
    decreases keys.len() - i,
{
    if 0 <= i < keys.len() {
        under_range(j, keys, i + 1);
        if let Some(Jv::Float(bits)) = j.get(keys[i]@) {
            json::float_trunc_range(bits);
        }
    }
}

/// A chat usage report that goes to the Responses protocol and back keeps its
/// counts.
pub proof fn usage_comes_back(u: Jv)
    requires
        u is Obj,
    ensures
        chat_usage(responses::responses_usage(Some(u))) == counts_report(
            responses::usage_input(u),
            responses::usage_cached(u),
            responses::usage_output(u),
            responses::usage_reasoning(u),
            responses::usage_total(u),
        ),
{
    usage_names();
    let r = responses::responses_usage(Some(u));
    reveal_with_fuel(protocol::number_under, 3);
    under_range(u, seq!["prompt_tokens", "input_tokens"], 0);
    under_range(u, seq!["completion_tokens", "output_tokens"], 0);
    under_range(u, seq!["total_tokens"], 0);
    assert(r.get("input_tokens"@) == Some(Jv::Int(responses::usage_input(u))));
    assert(r.get("output_tokens"@) == Some(Jv::Int(responses::usage_output(u))));
    assert(r.get("total_tokens"@) == Some(Jv::Int(responses::usage_total(u))));
    assert(r.get("input_tokens_details"@) == responses::count_details("cached_tokens"@, responses::usage_cached(u)));
    assert(r.get("output_tokens_details"@) == responses::count_details(
        "reasoning_tokens"@,
        responses::usage_reasoning(u),
    ));
    assert(r.get("cache_read_input_tokens"@) is None);
    under_range(
        u,
        seq![
            "prompt_tokens_details.cached_tokens",
            "prompt_cache_hit_tokens",
            "cache_read_input_tokens",
        ],
        0,
    );
    assert(seq!["input_tokens", "prompt_tokens"][0]@ == "input_tokens"@);
    assert(seq!["output_tokens", "completion_tokens"][0]@ == "output_tokens"@);
    assert(seq!["total_tokens"][0]@ == "total_tokens"@);
    assert(seq!["cache_read_input_tokens"][0]@ == "cache_read_input_tokens"@);
    assert(told_input(r) == responses::usage_input(u));
    assert(told_output(r) == responses::usage_output(u));
    assert(told_total(r) == responses::usage_total(u));
    assert(told_reasoning(r) == responses::usage_reasoning(u));
    assert(told_cached(r) == responses::usage_cached(u));
}

proof fn chat_usage_names()
    ensures
        "prompt_tokens"@.len() == 13,
        "completion_tokens"@.len() == 17,
        "total_tokens"@.len() == 12,
        "prompt_tokens_details"@.len() == 21,
        "completion_tokens_details"@.len() == 25,
        "prompt_tokens_details.cached_tokens"@.len() == 35,
        "prompt_cache_hit_tokens"@.len() == 23,
        "cache_read_input_tokens"@.len() == 23,
{
    reveal_strlit("prompt_tokens");
    reveal_strlit("completion_tokens");
    reveal_strlit("total_tokens");
    reveal_strlit("prompt_tokens_details");
    reveal_strlit("completion_tokens_details");
    reveal_strlit("prompt_tokens_details.cached_tokens");
    reveal_strlit("prompt_cache_hit_tokens");
    reveal_strlit("cache_read_input_tokens");
}

/// A Responses usage report that goes to the chat protocol and back keeps its counts.
pub proof fn usage_goes_back(r: Jv)
    ensures
        chat_usage(r) is Obj,
        responses::usage_input(chat_usage(r)) == told_input(r),
        responses::usage_output(chat_usage(r)) == told_output(r),
        responses::usage_cached(chat_usage(r)) == told_cached(r),
        responses::usage_reasoning(chat_usage(r)) == told_reasoning(r),
        responses::usage_total(chat_usage(r)) == told_total(r),
{
    chat_usage_names();
    let c = chat_usage(r);
    reveal_with_fuel(protocol::number_under, 4);
    under_range(r, seq!["input_tokens", "prompt_tokens"], 0);
    under_range(r, seq!["output_tokens", "completion_tokens"], 0);
    under_range(r, seq!["total_tokens"], 0);
    under_range(r, seq!["cache_read_input_tokens"], 0);
    assert(c.get("prompt_tokens"@) == Some(Jv::Int(told_input(r))));
    assert(c.get("completion_tokens"@) == Some(Jv::Int(told_output(r))));
    assert(c.get("total_tokens"@) == Some(Jv::Int(told_total(r))));
    assert(c.get("prompt_tokens_details"@) == responses::count_details("cached_tokens"@, told_cached(r)));
    assert(c.get("completion_tokens_details"@) == responses::count_details(
        "reasoning_tokens"@,
        told_reasoning(r),
    ));
    assert(c.get("prompt_tokens_details.cached_tokens"@) is None);
    assert(c.get("prompt_cache_hit_tokens"@) is None);
    assert(c.get("cache_read_input_tokens"@) is None);
    assert(seq!["prompt_tokens", "input_tokens"][0]@ == "prompt_tokens"@);
    assert(seq!["completion_tokens", "output_tokens"][0]@ == "completion_tokens"@);
    assert(seq!["total_tokens"][0]@ == "total_tokens"@);
    let caches = seq![
        "prompt_tokens_details.cached_tokens",
        "prompt_cache_hit_tokens",
        "cache_read_input_tokens",
    ];
    assert(caches[0]@ == "prompt_tokens_details.cached_tokens"@);
    assert(caches[1]@ == "prompt_cache_hit_tokens"@);
    assert(caches[2]@ == "cache_read_input_tokens"@);
}

// -------------------------------------------------------------------- stream

/// What the translation of an upstream stream knows.
#[verifier::ext_equal]
pub struct OutboundV {
    /// The line of the upstream that is not complete yet.
    pub line: Seq<u8>,
    pub writer: WriterV,
    /// The tool calls announced, by the keys of the upstream, and whether they have
    /// got any arguments. The place of a call is its number in the chat stream.
    pub tools: Seq<(Seq<char>, bool)>,
    /// The last usage report of the upstream.
    pub usage: Option<Jv>,
}

/// The beginning of a stream.
pub open spec fn fresh_outbound(model: Seq<char>, created: int) -> OutboundV {
    OutboundV {
        line: Seq::empty(),
        writer: chunks::new_writer(model, created),
        tools: Seq::empty(),
        usage: None,
    }
}

/// The place of a key from `i` on, or the length where it is not there.
pub open spec fn place(tools: Seq<(Seq<char>, bool)>, key: Seq<char>, i: int) -> int
    decreases tools.len() - i,
{
    if i < 0 || i >= tools.len() {
        tools.len() as int
    } else if tools[i].0 == key {
        i
    } else {
        place(tools, key, i + 1)
    }
}

/// Nothing said.
pub open spec fn silent(st: OutboundV) -> (OutboundV, Seq<Fv>) {
    (st, Seq::empty())
}

/// The stream begun, if it was not.
pub open spec fn opened(st: OutboundV, id: Seq<char>) -> (OutboundV, Seq<Fv>) {
    let (writer, ev) = chunks::start_step(st.writer, id);
    (OutboundV { writer, ..st }, ev)
}

/// One piece, behind the beginning of the stream.
pub open spec fn said(st: OutboundV, id: Seq<char>, delta: Jv) -> (OutboundV, Seq<Fv>) {
    let (after, ev) = opened(st, id);
    (after, ev.push(chunks::delta_chunk(after.writer, delta)))
}

/// Announces a tool call, once.
pub open spec fn ensure_step(
    x: (OutboundV, Seq<Fv>),
    key: Seq<char>,
    item: Jv,
    fresh: Seq<char>,
) -> (OutboundV, Seq<Fv>) {
    let st = x.0;
    if place(st.tools, key, 0) < st.tools.len() {
        x
    } else {
        (
            OutboundV { tools: st.tools.push((key, false)), ..st },
            x.1.push(
                chunks::delta_chunk(
                    st.writer,
                    chunks::call_delta(
                        st.tools.len() as int,
                        responses::call_id(item, fresh),
                        protocol::loose_field(item, "name"@),
                    ),
                ),
            ),
        )
    }
}

/// Arguments of a tool call that was announced.
pub open spec fn arguments_step(
    x: (OutboundV, Seq<Fv>),
    key: Seq<char>,
    arguments: Seq<char>,
) -> (OutboundV, Seq<Fv>) {
    let st = x.0;
    let p = place(st.tools, key, 0);
    if p >= st.tools.len() {
        x
    } else {
        (
            OutboundV { tools: st.tools.update(p, (key, true)), ..st },
            x.1.push(chunks::delta_chunk(st.writer, chunks::arguments_delta(p, arguments))),
        )
    }
}

/// Arguments of a tool call, which is announced first where it was not.
pub open spec fn call_step(
    st: OutboundV,
    key: Seq<char>,
    item: Jv,
    arguments: Seq<char>,
    ids: NewIds,
) -> (OutboundV, Seq<Fv>) {
    arguments_step(ensure_step(opened(st, ids.id), key, item, ids.call), key, arguments)
}

/// All arguments of a tool call, where none have come.
pub open spec fn fill_step(
    st: OutboundV,
    key: Seq<char>,
    item: Jv,
    arguments: Seq<char>,
    ids: NewIds,
) -> (OutboundV, Seq<Fv>) {
    let p = place(st.tools, key, 0);
    if p < st.tools.len() && st.tools[p].1 {
        silent(st)
    } else {
        call_step(st, key, item, arguments, ids)
    }
}

/// The key of the tool call that an event is about.
pub open spec fn tool_key(event: Jv, item: Jv) -> Seq<char> {
    protocol::or_else(
        protocol::loose_field(item, "call_id"@),
        protocol::or_else(
            protocol::loose_field(item, "id"@),
            protocol::or_else(protocol::loose_field(event, "item_id"@), protocol::opt_loose(event.get("output_index"@))),
        ),
    )
}

/// The usage report in an event, at its top or in its response.
pub open spec fn usage_in(event: Jv) -> Option<Jv> {
    match event.get("usage"@) {
        Some(Jv::Obj(u)) => Some(Jv::Obj(u)),
        _ => match json::opt_get(event.get("response"@), "usage"@) {
            Some(Jv::Obj(u)) => Some(Jv::Obj(u)),
            _ => None,
        },
    }
}

/// What an event tells of the usage.
pub open spec fn usage_noted(st: OutboundV, event: Jv) -> OutboundV {
    match usage_in(event) {
        Some(u) => OutboundV { usage: Some(u), ..st },
        None => st,
    }
}

/// The end of the stream, once: the reason, the usage report where there is one,
/// the closing mark. Without a reason it is told by whether a tool was called.
pub open spec fn complete_step(st: OutboundV, reason: Option<Seq<char>>, id: Seq<char>) -> (
    OutboundV,
    Seq<Fv>,
) {
    if st.writer.finished {
        silent(st)
    } else {
        let (after, ev) = opened(
            OutboundV { writer: WriterV { finished: true, ..st.writer }, ..st },
            id,
        );
        let why = match reason {
            Some(r) => r,
            None => if st.tools.len() == 0 {
                "stop"@
            } else {
                "tool_calls"@
            },
        };
        let ended = ev.push(chunks::finish_chunk(after.writer, why));
        (
            OutboundV { usage: None, ..after },
            (match st.usage {
                Some(u) => ended.push(chunks::usage_chunk(after.writer, chat_usage(u))),
                None => ended,
            }).push(Fv::Done),
        )
    }
}

/// The error in an event, at its top or in its response.
pub open spec fn error_in(event: Jv) -> Option<Jv> {
    match json::if_truthy(event.get("error"@)) {
        Some(e) => Some(e),
        None => json::if_truthy(json::opt_get(event.get("response"@), "error"@)),
    }
}

/// An error of the upstream ends the stream.
pub open spec fn fail_step(st: OutboundV, event: Jv) -> (OutboundV, Seq<Fv>) {
    (
        OutboundV { writer: WriterV { finished: true, ..st.writer }, ..st },
        chunks::error_frames(chunks::stream_error(error_in(event), event)),
    )
}

/// The response announced: its identifier is that of the stream.
pub open spec fn announced(st: OutboundV, event: Jv) -> OutboundV {
    let id = json::str_or_empty(json::opt_get(event.get("response"@), "id"@));
    OutboundV {
        writer: if id.len() == 0 {
            st.writer
        } else {
            WriterV { id, ..st.writer }
        },
        ..st
    }
}

/// A text that goes on, under that name.
pub open spec fn words_step(st: OutboundV, event: Jv, name: Seq<char>, ids: NewIds) -> (
    OutboundV,
    Seq<Fv>,
) {
    let text = json::str_or_empty(event.get("delta"@));
    if text.len() == 0 {
        silent(st)
    } else {
        said(st, ids.id, Jv::obj().put(name, Jv::Str(text)))
    }
}

/// A text that goes on in a free-text call: under `delta`, else under `input`.
pub open spec fn free_text(event: Jv) -> Seq<char> {
    match event.get("delta"@) {
        Some(v) => protocol::loose(v),
        None => protocol::opt_loose(event.get("input"@)),
    }
}

/// The arguments of an item that is a tool call.
pub open spec fn item_arguments(item: Jv) -> Option<Seq<char>> {
    let kind = text::lowercase(protocol::loose_field(item, "type"@));
    if kind == "function_call"@ {
        Some(protocol::or_else(protocol::opt_loose(item.get("arguments"@)), "{}"@))
    } else if kind == "custom_tool_call"@ {
        Some(tool_plan::wrapped_input(protocol::opt_loose(item.get("input"@))))
    } else {
        None
    }
}

/// An item begun: a tool call is announced.
pub open spec fn added_step(st: OutboundV, event: Jv, ids: NewIds) -> (OutboundV, Seq<Fv>) {
    let item = event.field("item"@);
    let kind = text::lowercase(protocol::loose_field(item, "type"@));
    if kind == "function_call"@ || kind == "custom_tool_call"@ {
        ensure_step(opened(st, ids.id), tool_key(event, item), item, ids.call)
    } else {
        silent(st)
    }
}

/// An item complete: a tool call gets its arguments where none have come.
pub open spec fn done_step(st: OutboundV, event: Jv, ids: NewIds) -> (OutboundV, Seq<Fv>) {
    let item = event.field("item"@);
    match item_arguments(item) {
        Some(arguments) => fill_step(st, tool_key(event, item), item, arguments, ids),
        None => silent(st),
    }
}

/// Arguments that go on.
pub open spec fn more_step(st: OutboundV, event: Jv, text: Seq<char>, ids: NewIds) -> (
    OutboundV,
    Seq<Fv>,
) {
    if text.len() == 0 {
        silent(st)
    } else {
        call_step(st, tool_key(event, event), event, text, ids)
    }
}

/// Why a response is not complete.
pub open spec fn why_incomplete(event: Jv) -> Seq<char> {
    protocol::or_else(
        protocol::opt_loose(
            json::opt_get(
                json::opt_get(event.get("response"@), "incomplete_details"@),
                "reason"@,
            ),
        ),
        "length"@,
    )
}

/// One event of the upstream, the usage noted.
pub open spec fn kind_step(st: OutboundV, event: Jv, ids: NewIds) -> (OutboundV, Seq<Fv>) {
    let kind = text::lowercase(protocol::loose_field(event, "type"@));
    if kind == "response.created"@ {
        opened(announced(st, event), ids.id)
    } else if kind == "response.output_text.delta"@ || kind == "response.refusal.delta"@ {
        words_step(st, event, "content"@, ids)
    } else if kind == "response.reasoning_summary_text.delta"@ || kind
        == "response.reasoning_text.delta"@ {
        words_step(st, event, "reasoning_content"@, ids)
    } else if kind == "response.output_item.added"@ {
        added_step(st, event, ids)
    } else if kind == "response.function_call_arguments.delta"@ {
        more_step(st, event, protocol::loose_field(event, "delta"@), ids)
    } else if kind == "response.custom_tool_call_input.delta"@ {
        more_step(st, event, free_text(event), ids)
    } else if kind == "response.function_call_arguments.done"@ {
        fill_step(
            st,
            tool_key(event, event),
            event,
            protocol::or_else(protocol::opt_loose(event.get("arguments"@)), "{}"@),
            ids,
        )
    } else if kind == "response.custom_tool_call_input.done"@ {
        fill_step(
            st,
            tool_key(event, event),
            event,
            tool_plan::wrapped_input(protocol::opt_loose(event.get("input"@))),
            ids,
        )
    } else if kind == "response.output_item.done"@ {
        done_step(st, event, ids)
    } else if kind == "error"@ || kind == "response.failed"@ {
        fail_step(st, event)
    } else if kind == "response.completed"@ || kind == "response.done"@ {
        complete_step(st, None, ids.id)
    } else if kind == "response.incomplete"@ {
        complete_step(st, Some(why_incomplete(event)), ids.id)
    } else {
        silent(st)
    }
}

/// One event of the upstream.
pub open spec fn event_step(st: OutboundV, event: Jv, ids: NewIds) -> (OutboundV, Seq<Fv>) {
    if st.writer.finished {
        silent(st)
    } else {
        kind_step(usage_noted(st, event), event, ids)
    }
}

/// A payload of the upstream; one that is no JSON says nothing.
pub open spec fn payload_step(st: OutboundV, data: Seq<char>, ids: NewIds) -> (
    OutboundV,
    Seq<Fv>,
) {
    match json::parsed_json(data) {
        Some(event) => event_step(st, event, ids),
        None => silent(st),
    }
}

/// The end of the upstream: what is left in the line is taken in first.
pub open spec fn finish_step(st: OutboundV, given: Given) -> (OutboundV, Seq<Fv>) {
    if st.writer.finished {
        silent(st)
    } else {
        let rest = OutboundV { line: Seq::empty(), ..st };
        let (mid, ev) = match protocol::last_payload(st.line) {
            Some(data) => payload_step(rest, data, given.ids),
            None => silent(rest),
        };
        let (after, more) = complete_step(mid, None, given.end);
        (after, ev + more)
    }
}

/// The first `n` payloads; `given` holds what each of them may need.
pub open spec fn payloads_step(
    st: OutboundV,
    list: Seq<Option<Seq<char>>>,
    given: Seq<Given>,
    n: nat,
) -> (OutboundV, Seq<Fv>)
    decreases n,
{
    if n == 0 {
        silent(st)
    } else {
        let (before, ev) = payloads_step(st, list, given, (n - 1) as nat);
        let (after, more) = match list[n - 1] {
            Some(data) => payload_step(before, data, given[n - 1].ids),
            None => finish_step(before, given[n - 1]),
        };
        (after, ev + more)
    }
}

/// Bytes of the upstream.
pub open spec fn push_step(st: OutboundV, bytes: Seq<u8>, given: Seq<Given>) -> (
    OutboundV,
    Seq<Fv>,
) {
    let list = protocol::payloads(st.line, bytes);
    payloads_step(OutboundV { line: protocol::line_left(st.line, bytes), ..st }, list, given, list.len())
}

proof fn payloads_step_prefix(
    st: OutboundV,
    list: Seq<Option<Seq<char>>>,
    a: Seq<Given>,
    b: Seq<Given>,
    n: nat,
)
    requires
        n <= a.len() <= b.len(),
        forall|k: int| 0 <= k < a.len() ==> a[k] == #[trigger] b[k],
    ensures
        payloads_step(st, list, a, n) == payloads_step(st, list, b, n),
    decreases n,
{
    if n > 0 {
        payloads_step_prefix(st, list, a, b, (n - 1) as nat);
    }
}

/// Whether a step leaves the stream open and says nothing but pieces.
spec fn goes_on(x: (OutboundV, Seq<Fv>)) -> bool {
    !x.0.writer.finished && chunks::no_mark(x.1)
}

proof fn opened_goes_on(st: OutboundV, id: Seq<char>)
    requires
        !st.writer.finished,
    ensures
        goes_on(opened(st, id)),
{
}

proof fn ensure_goes_on(x: (OutboundV, Seq<Fv>), key: Seq<char>, item: Jv, fresh: Seq<char>)
    requires
        goes_on(x),
    ensures
        goes_on(ensure_step(x, key, item, fresh)),
{
}

proof fn call_goes_on(
    st: OutboundV,
    key: Seq<char>,
    item: Jv,
    arguments: Seq<char>,
    ids: NewIds,
)
    requires
        !st.writer.finished,
    ensures
        goes_on(call_step(st, key, item, arguments, ids)),
{
    opened_goes_on(st, ids.id);
    let x = opened(st, ids.id);
    ensure_goes_on(x, key, item, ids.call);
    let y = ensure_step(x, key, item, ids.call);
    assert(goes_on(arguments_step(y, key, arguments)));
}

proof fn words_go_on(st: OutboundV, event: Jv, name: Seq<char>, ids: NewIds)
    requires
        !st.writer.finished,
    ensures
        goes_on(words_step(st, event, name, ids)),
{
    opened_goes_on(st, ids.id);
}

proof fn complete_closes(st: OutboundV, reason: Option<Seq<char>>, id: Seq<char>)
    ensures
        complete_step(st, reason, id).0.writer.finished,
        chunks::closes(st.writer.finished, true, complete_step(st, reason, id).1),
{
}

/// Each event closes the stream exactly where it ends it, with the closing mark
/// behind everything else; after the end nothing comes.
pub proof fn event_step_closes(st: OutboundV, event: Jv, ids: NewIds)
    ensures
        chunks::closes(st.writer.finished, event_step(st, event, ids).0.writer.finished, event_step(
            st,
            event,
            ids,
        ).1),
{
    if !st.writer.finished {
        let u = usage_noted(st, event);
        let item = event.field("item"@);
        opened_goes_on(announced(u, event), ids.id);
        words_go_on(u, event, "content"@, ids);
        words_go_on(u, event, "reasoning_content"@, ids);
        opened_goes_on(u, ids.id);
        ensure_goes_on(opened(u, ids.id), tool_key(event, item), item, ids.call);
        call_goes_on(u, tool_key(event, event), event, protocol::loose_field(event, "delta"@), ids);
        call_goes_on(u, tool_key(event, event), event, free_text(event), ids);
        call_goes_on(
            u,
            tool_key(event, event),
            event,
            protocol::or_else(protocol::opt_loose(event.get("arguments"@)), "{}"@),
            ids,
        );
        call_goes_on(
            u,
            tool_key(event, event),
            event,
            tool_plan::wrapped_input(protocol::opt_loose(event.get("input"@))),
            ids,
        );
        if let Some(arguments) = item_arguments(item) {
            call_goes_on(u, tool_key(event, item), item, arguments, ids);
        }
        complete_closes(u, None, ids.id);
        complete_closes(u, Some(why_incomplete(event)), ids.id);
        kind_step_closes(u, event, ids);
    }
}

proof fn kind_step_closes(u: OutboundV, event: Jv, ids: NewIds)
    requires
        !u.writer.finished,
        goes_on(opened(announced(u, event), ids.id)),
        goes_on(words_step(u, event, "content"@, ids)),
        goes_on(words_step(u, event, "reasoning_content"@, ids)),
        goes_on(added_step(u, event, ids)),
        goes_on(more_step(u, event, protocol::loose_field(event, "delta"@), ids)),
        goes_on(more_step(u, event, free_text(event), ids)),
        goes_on(
            fill_step(
                u,
                tool_key(event, event),
                event,
                protocol::or_else(protocol::opt_loose(event.get("arguments"@)), "{}"@),
                ids,
            ),
        ),
        goes_on(
            fill_step(
                u,
                tool_key(event, event),
                event,
                tool_plan::wrapped_input(protocol::opt_loose(event.get("input"@))),
                ids,
            ),
        ),
        goes_on(done_step(u, event, ids)),
        complete_step(u, None, ids.id).0.writer.finished,
        chunks::closes(false, true, complete_step(u, None, ids.id).1),
        complete_step(u, Some(why_incomplete(event)), ids.id).0.writer.finished,
        chunks::closes(false, true, complete_step(u, Some(why_incomplete(event)), ids.id).1),
    ensures
        chunks::closes(false, kind_step(u, event, ids).0.writer.finished, kind_step(u, event, ids).1),
{
}

/// The end of the upstream closes the stream, once.
pub proof fn finish_step_closes(st: OutboundV, given: Given)
    ensures
        finish_step(st, given).0.writer.finished,
        chunks::closes(st.writer.finished, true, finish_step(st, given).1),
{
    if !st.writer.finished {
        let rest = OutboundV { line: Seq::empty(), ..st };
        if let Some(data) = protocol::last_payload(st.line) {
            if let Some(event) = json::parsed_json(data) {
                event_step_closes(rest, event, given.ids);
            }
        }
        let (mid, ev) = match protocol::last_payload(st.line) {
            Some(data) => payload_step(rest, data, given.ids),
            None => silent(rest),
        };
        let more = complete_step(mid, None, given.end).1;
        assert(chunks::closes(mid.writer.finished, true, more));
        chunks::closes_add(false, mid.writer.finished, true, ev, more);
    }
}

/// Bytes of the upstream close the stream at most once, behind everything else.
pub proof fn push_step_closes(st: OutboundV, bytes: Seq<u8>, given: Seq<Given>)
    ensures
        chunks::closes(st.writer.finished, push_step(st, bytes, given).0.writer.finished, push_step(
            st,
            bytes,
            given,
        ).1),
{
    let list = protocol::payloads(st.line, bytes);
    payloads_close(OutboundV { line: protocol::line_left(st.line, bytes), ..st }, list, given, list.len());
}

proof fn payloads_close(
    st: OutboundV,
    list: Seq<Option<Seq<char>>>,
    given: Seq<Given>,
    n: nat,
)
    ensures
        chunks::closes(st.writer.finished, payloads_step(st, list, given, n).0.writer.finished, payloads_step(
            st,
            list,
            given,
            n,
        ).1),
    decreases n,
{
    if n > 0 {
        payloads_close(st, list, given, (n - 1) as nat);
        let (before, ev) = payloads_step(st, list, given, (n - 1) as nat);
        let (after, more) = match list[n - 1] {
            Some(data) => payload_step(before, data, given[n - 1].ids),
            None => finish_step(before, given[n - 1]),
        };
        match list[n - 1] {
            Some(data) => match json::parsed_json(data) {
                Some(event) => event_step_closes(before, event, given[n - 1].ids),
                None => {},
            },
            None => finish_step_closes(before, given[n - 1]),
        }
        chunks::closes_add(
            st.writer.finished,
            before.writer.finished,
            after.writer.finished,
            ev,
            more,
        );
    }
}

/// The calls announced of a stream.
struct Calls {
    list: Vec<(String, bool)>,
}

impl View for Calls {
    type V = Seq<(Seq<char>, bool)>;

    closed spec fn view(&self) -> Seq<(Seq<char>, bool)> {
        Seq::new(self.list@.len(), |i: int| (self.list@[i].0@, self.list@[i].1))
    }
}

impl Calls {
    fn new() -> (r: Calls)
        ensures
            r@ == Seq::<(Seq<char>, bool)>::empty(),
    {
        let r = Calls { list: Vec::new() };
        proof {
            assert(r@ =~= Seq::empty());
        }
        r
    }

    fn count(&self) -> (r: usize)
        ensures
            r == self@.len(),
    {
        self.list.len()
    }

    fn find(&self, key: &str) -> (r: usize)
        ensures
            r == place(self@, key@, 0),
            r <= self@.len(),
            r < self@.len() ==> self@[r as int].0 == key@,
    {
        let mut i: usize = 0;
        while i < self.list.len() && !text::same(self.list[i].0.as_str(), key)
            invariant
                i <= self.list@.len(),
                place(self@, key@, 0) == place(self@, key@, i as int),
            decreases self.list@.len() - i,
        {
            i = i + 1;
        }
        i
    }

    fn filled(&self, i: usize) -> (r: bool)
        ensures
            r == (i < self@.len() && self@[i as int].1),
    {
        i < self.list.len() && self.list[i].1
    }

    fn push(&mut self, key: &str)
        ensures
            final(self)@ == old(self)@.push((key@, false)),
    {
        let ghost before = self@;
        self.list.push((key.to_owned(), false));
        proof {
            assert(self@ =~= before.push((key@, false)));
        }
    }

    fn fill(&mut self, i: usize, key: &str)
        requires
            i < old(self)@.len(),
        ensures
            final(self)@ == old(self)@.update(i as int, (key@, true)),
    {
        let ghost before = self@;
        self.list.set(i, (key.to_owned(), true));
        proof {
            assert(self@ =~= before.update(i as int, (key@, true)));
        }
    }
}

/// Turns the event stream of a Responses upstream into a chat stream.
pub struct ChatFromResponsesStream {
    buffer: SseLineBuffer,
    writer: ChunkWriter,
    tools: Calls,
    usage: Option<Json>,
}

impl View for ChatFromResponsesStream {
    type V = OutboundV;

    closed spec fn view(&self) -> OutboundV {
        OutboundV {
            line: self.buffer.line(),
            writer: self.writer@,
            tools: self.tools@,
            usage: json::opt_owned(self.usage),
        }
    }
}

fn read_tool_key(event: &Json, item: &Json) -> (r: String)
    ensures
        r@ == tool_key(event@, item@),
{
    let last = protocol::opt_string_value(event.get("output_index"));
    let third = protocol::or_text(protocol::string_field(event, "item_id"), last.as_str());
    let second = protocol::or_text(protocol::string_field(item, "id"), third.as_str());
    protocol::or_text(protocol::string_field(item, "call_id"), second.as_str())
}

fn read_item_arguments(item: &Json) -> (r: Option<String>)
    ensures
        json::opt_string(r) == item_arguments(item@),
{
    let kind = text::lower(protocol::string_field(item, "type").as_str());
    if text::same(kind.as_str(), "function_call") {
        Some(protocol::or_text(protocol::opt_string_value(item.get("arguments")), "{}"))
    } else if text::same(kind.as_str(), "custom_tool_call") {
        Some(tool_plan::wrap_freeform_input(protocol::opt_string_value(item.get("input")).as_str()))
    } else {
        None
    }
}

impl ChatFromResponsesStream {
    /// The beginning of a stream, with the time of its making given.
    pub fn at(model: &str, created: i64) -> (r: ChatFromResponsesStream)
        ensures
            r@ == fresh_outbound(model@, created as int),
    {
        ChatFromResponsesStream {
            buffer: SseLineBuffer::new(),
            writer: ChunkWriter::new(model, created),
            tools: Calls::new(),
            usage: None,
        }
    }

    /// The beginning of a stream.
    pub fn new(model: &str) -> (r: ChatFromResponsesStream)
        ensures
            r@ == fresh_outbound(model@, r@.writer.created),
    {
        Self::at(model, responses::clock_s())
    }

    fn ensure_tool(&mut self, out: &mut Vec<Frame>, key: &str, item: &Json, fresh: &str)
        ensures
            (final(self)@, protocol::frames(final(out)@)) == ensure_step(
                (old(self)@, protocol::frames(old(out)@)),
                key@,
                item@,
                fresh@,
            ),
    {
        broadcast use protocol::group_frames;

        if self.tools.find(key) < self.tools.count() {
            return;
        }
        let n = self.tools.count();
        self.tools.push(key);
        let call_id = responses::call_id_of(item, fresh);
        let name = protocol::string_field(item, "name");
        let delta = chunks::make_call_delta(json::count(n), call_id.as_str(), name.as_str());
        out.push(self.writer.delta(delta));
    }

    fn push_arguments(&mut self, out: &mut Vec<Frame>, key: &str, arguments: &str)
        ensures
            (final(self)@, protocol::frames(final(out)@)) == arguments_step(
                (old(self)@, protocol::frames(old(out)@)),
                key@,
                arguments@,
            ),
    {
        broadcast use protocol::group_frames;

        let p = self.tools.find(key);
        if p >= self.tools.count() {
            return;
        }
        self.tools.fill(p, key);
        out.push(self.writer.delta(chunks::make_arguments_delta(json::count(p), arguments)));
    }

    fn add_call(&mut self, key: &str, item: &Json, arguments: &str, call: &str, id: &str) -> (r: Vec<
        Frame,
    >)
        ensures
            (final(self)@, protocol::frames(r@)) == call_step(
                old(self)@,
                key@,
                item@,
                arguments@,
                (NewIds { call: call@, id: id@ }),
            ),
    {
        let mut out = self.writer.start(id);
        self.ensure_tool(&mut out, key, item, call);
        self.push_arguments(&mut out, key, arguments);
        out
    }

    fn fill_call(
        &mut self,
        key: &str,
        item: &Json,
        arguments: &str,
        call: &str,
        id: &str,
    ) -> (r: Vec<Frame>)
        ensures
            (final(self)@, protocol::frames(r@)) == fill_step(
                old(self)@,
                key@,
                item@,
                arguments@,
                (NewIds { call: call@, id: id@ }),
            ),
    {
        broadcast use protocol::group_frames;

        let p = self.tools.find(key);
        if self.tools.filled(p) {
            return Vec::new();
        }
        self.add_call(key, item, arguments, call, id)
    }

    fn add_words(&mut self, event: &Json, name: &str, call: &str, id: &str) -> (r: Vec<Frame>)
        ensures
            (final(self)@, protocol::frames(r@)) == words_step(
                old(self)@,
                event@,
                name@,
                (NewIds { call: call@, id: id@ }),
            ),
    {
        broadcast use protocol::group_frames;

        let text = json::str_or(event.get("delta"));
        if text.as_str().is_empty() {
            return Vec::new();
        }
        let mut out = self.writer.start(id);
        out.push(self.writer.delta(Json::obj().with(name, Json::Str(text))));
        out
    }

    fn add_item(&mut self, event: &Json, call: &str, id: &str) -> (r: Vec<Frame>)
        ensures
            (final(self)@, protocol::frames(r@)) == added_step(
                old(self)@,
                event@,
                (NewIds { call: call@, id: id@ }),
            ),
    {
        broadcast use protocol::group_frames;

        let none = Json::Null;
        let item = match event.get("item") {
            Some(i) => i,
            None => &none,
        };
        let kind = text::lower(protocol::string_field(item, "type").as_str());
        if !text::same(kind.as_str(), "function_call") && !text::same(kind.as_str(), "custom_tool_call") {
            return Vec::new();
        }
        let mut out = self.writer.start(id);
        let key = read_tool_key(event, item);
        self.ensure_tool(&mut out, key.as_str(), item, call);
        out
    }

    fn end_item(&mut self, event: &Json, call: &str, id: &str) -> (r: Vec<Frame>)
        ensures
            (final(self)@, protocol::frames(r@)) == done_step(
                old(self)@,
                event@,
                (NewIds { call: call@, id: id@ }),
            ),
    {
        broadcast use protocol::group_frames;

        let none = Json::Null;
        let item = match event.get("item") {
            Some(i) => i,
            None => &none,
        };
        match read_item_arguments(item) {
            Some(arguments) => {
                let key = read_tool_key(event, item);
                self.fill_call(key.as_str(), item, arguments.as_str(), call, id)
            },
            None => Vec::new(),
        }
    }

    fn add_more(&mut self, event: &Json, text: &str, call: &str, id: &str) -> (r: Vec<Frame>)
        ensures
            (final(self)@, protocol::frames(r@)) == more_step(
                old(self)@,
                event@,
                text@,
                (NewIds { call: call@, id: id@ }),
            ),
    {
        broadcast use protocol::group_frames;

        if text.is_empty() {
            return Vec::new();
        }
        let key = read_tool_key(event, event);
        self.add_call(key.as_str(), event, text, call, id)
    }

    fn complete(&mut self, reason: Option<&str>, id: &str) -> (r: Vec<Frame>)
        ensures
            (final(self)@, protocol::frames(r@)) == complete_step(old(self)@, json::opt_text(reason), id@),
    {
        broadcast use protocol::group_frames;

        if self.writer.is_finished() {
            return Vec::new();
        }
        self.writer.close();
        let mut out = self.writer.start(id);
        let why = match reason {
            Some(r) => r,
            None => if self.tools.count() == 0 {
                "stop"
            } else {
                "tool_calls"
            },
        };
        out.push(self.writer.ending(why));
        if let Some(usage) = &self.usage {
            out.push(self.writer.usage(chat_usage_from_responses(usage)));
        }
        self.usage = None;
        out.push(Frame::Done);
        out
    }

    fn note_usage(&mut self, event: &Json)
        ensures
            final(self)@ == usage_noted(old(self)@, event@),
    {
        if let Some(u) = event.get("usage") {
            if u.is_obj() {
                self.usage = Some(u.copy());
                return;
            }
        }
        if let Some(u) = json::get_in(event.get("response"), "usage") {
            if u.is_obj() {
                self.usage = Some(u.copy());
            }
        }
    }

    /// Takes in one event of the upstream and gives out the frames that follow;
    /// `call` and `id` stand in for missing identifiers of a tool call and of the
    /// stream.
    pub fn consume(&mut self, event: &Json, call: &str, id: &str) -> (r: Vec<Frame>)
        ensures
            (final(self)@, protocol::frames(r@)) == event_step(
                old(self)@,
                event@,
                (NewIds { call: call@, id: id@ }),
            ),
    {
        broadcast use protocol::group_frames;

        if self.writer.is_finished() {
            return Vec::new();
        }
        self.note_usage(event);
        let kind = text::lower(protocol::string_field(event, "type").as_str());
        let k = kind.as_str();
        if text::same(k, "response.created") {
            let announced_id = json::str_or(json::get_in(event.get("response"), "id"));
            if !announced_id.as_str().is_empty() {
                self.writer.set_id(announced_id.as_str());
            }
            return self.writer.start(id);
        }
        if text::same(k, "response.output_text.delta") || text::same(k, "response.refusal.delta") {
            return self.add_words(event, "content", call, id);
        }
        if text::same(k, "response.reasoning_summary_text.delta") || text::same(
            k,
            "response.reasoning_text.delta",
        ) {
            return self.add_words(event, "reasoning_content", call, id);
        }
        if text::same(k, "response.output_item.added") {
            return self.add_item(event, call, id);
        }
        if text::same(k, "response.function_call_arguments.delta") {
            let text = protocol::string_field(event, "delta");
            return self.add_more(event, text.as_str(), call, id);
        }
        if text::same(k, "response.custom_tool_call_input.delta") {
            let text = match event.get("delta") {
                Some(v) => protocol::json_text(v),
                None => protocol::opt_string_value(event.get("input")),
            };
            return self.add_more(event, text.as_str(), call, id);
        }
        if text::same(k, "response.function_call_arguments.done") {
            let key = read_tool_key(event, event);
            let arguments = protocol::or_text(protocol::opt_string_value(event.get("arguments")), "{}");
            return self.fill_call(key.as_str(), event, arguments.as_str(), call, id);
        }
        if text::same(k, "response.custom_tool_call_input.done") {
            let key = read_tool_key(event, event);
            let arguments = tool_plan::wrap_freeform_input(protocol::opt_string_value(event.get("input")).as_str());
            return self.fill_call(key.as_str(), event, arguments.as_str(), call, id);
        }
        if text::same(k, "response.output_item.done") {
            return self.end_item(event, call, id);
        }
        if text::same(k, "error") || text::same(k, "response.failed") {
            self.writer.close();
            let error = match json::truthy_in(event.get("error")) {
                Some(e) => Some(e),
                None => json::truthy_in(json::get_in(event.get("response"), "error")),
            };
            return chunks::make_error_frames(error, event);
        }
        if text::same(k, "response.completed") || text::same(k, "response.done") {
            return self.complete(None, id);
        }
        if text::same(k, "response.incomplete") {
            let details = json::get_in(event.get("response"), "incomplete_details");
            let reason = protocol::or_text(protocol::opt_string_value(json::get_in(details, "reason")), "length");
            return self.complete(Some(reason.as_str()), id);
        }
        Vec::new()
    }

    fn consume_payload(&mut self, data: &str) -> (r: (Vec<Frame>, Ghost<NewIds>))
        ensures
            r.1@.fits("call"@),
            (final(self)@, protocol::frames(r.0@)) == payload_step(old(self)@, data@, r.1@),
    {
        broadcast use protocol::group_frames;

        let call = protocol::random_id("call");
        let id = protocol::random_id("chatcmpl");
        let ghost ids = NewIds { call: call@, id: id@ };
        match json::parse(data) {
            Some(event) => (self.consume(&event, call.as_str(), id.as_str()), Ghost(ids)),
            None => (Vec::new(), Ghost(ids)),
        }
    }

    fn finish_list(&mut self) -> (r: (Vec<Frame>, Ghost<Given>))
        ensures
            r.1@.fits("call"@),
            (final(self)@, protocol::frames(r.0@)) == finish_step(old(self)@, r.1@),
    {
        broadcast use protocol::group_frames;

        let ghost before = self@;
        let end = protocol::random_id("chatcmpl");
        let ghost spare = NewIds {
            call: protocol::id_of("call"@, None, 0),
            id: protocol::id_of("chatcmpl"@, None, 0),
        };
        proof {
            protocol::id_of_is_id("call"@, None, 0);
            protocol::id_of_is_id("chatcmpl"@, None, 0);
        }
        if self.writer.is_finished() {
            return (Vec::new(), Ghost(Given { ids: spare, end: end@ }));
        }
        let rest = self.buffer.finish();
        proof {
            let p = protocol::payload_texts(rest@);
            if rest@.len() > 0 {
                assert(p[0] == json::opt_string(rest@[0]));
                protocol::one_payload(protocol::lossy_text(before.line));
            }
        }
        let mut out: Vec<Frame> = Vec::new();
        let ghost mut ids: NewIds = spare;
        if rest.len() > 0 {
            if let Some(data) = &rest[0] {
                let (list, Ghost(used)) = self.consume_payload(data.as_str());
                out = list;
                proof {
                    ids = used;
                }
            }
        }
        let mut more = self.complete(None, end.as_str());
        out.append(&mut more);
        (out, Ghost(Given { ids, end: end@ }))
    }

    /// Takes in bytes of the upstream and gives out the frames that follow.
    pub fn push(&mut self, chunk: &[u8]) -> (r: Vec<bytes::Bytes>)
        ensures
            exists|given: Seq<Given>|
                #![trigger push_step(old(self)@, chunk@, given)]
                chunks::all_fit(given, "call"@) && given.len() == protocol::payloads(
                    old(self)@.line,
                    chunk@,
                ).len() && final(self)@ == push_step(old(self)@, chunk@, given).0 && protocol::wire(
                    r@,
                    push_step(old(self)@, chunk@, given).1,
                ),
    {
        let ghost list = protocol::payloads(self@.line, chunk@);
        let ghost start = OutboundV { line: protocol::line_left(self@.line, chunk@), ..self@ };
        let queue = self.buffer.push(chunk);
        proof {
            assert(protocol::payload_texts(queue@) == list);
        }
        let mut out: Vec<Frame> = Vec::new();
        let ghost mut given: Seq<Given> = Seq::empty();
        proof {
            assert(protocol::frames(out@) =~= Seq::empty());
        }
        let mut i: usize = 0;
        while i < queue.len()
            invariant
                i <= queue@.len(),
                protocol::payload_texts(queue@) == list,
                given.len() == i,
                chunks::all_fit(given, "call"@),
                (self@, protocol::frames(out@)) == payloads_step(start, list, given, i as nat),
            decreases queue@.len() - i,
        {
            let ghost mut one: Given = arbitrary();
            proof {
                assert(list[i as int] == json::opt_string(queue@[i as int]));
            }
            let mut more: Vec<Frame>;
            match &queue[i] {
                Some(data) => {
                    let (said_now, Ghost(used)) = self.consume_payload(data.as_str());
                    more = said_now;
                    proof {
                        one = Given { ids: used, end: used.id };
                    }
                },
                None => {
                    let (said_now, Ghost(used)) = self.finish_list();
                    more = said_now;
                    proof {
                        one = used;
                    }
                },
            }
            proof {
                let grown = given.push(one);
                assert(grown[i as int] == one);
                payloads_step_prefix(start, list, given, grown, i as nat);
                given = grown;
                protocol::frames_add(out@, more@);
            }
            out.append(&mut more);
            i = i + 1;
        }
        proof {
            assert(push_step(old(self)@, chunk@, given) == payloads_step(
                start,
                list,
                given,
                list.len(),
            ));
        }
        protocol::write_frames(&out)
    }

    /// Ends the stream and gives out the frames that follow; nothing where it has
    /// ended before.
    pub fn finish(&mut self) -> (r: Vec<bytes::Bytes>)
        ensures
            exists|given: Given|
                #![trigger finish_step(old(self)@, given)]
                given.fits("call"@) && final(self)@ == finish_step(old(self)@, given).0 && protocol::wire(
                    r@,
                    finish_step(old(self)@, given).1,
                ),
    {
        let (out, _given) = self.finish_list();
        protocol::write_frames(&out)
    }
}

} // verus!
