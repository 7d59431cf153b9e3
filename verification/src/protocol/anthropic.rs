//! Anthropic Messages and chat completions, in both directions.
//!
//! The system text of a Messages request is a field of its own, the results of
//! tools stand inside user messages and the calls of tools are content blocks. A
//! chat request has a system message, tool messages and a list of tool calls.
//! Thinking blocks become the `reasoning_content` of a chat message.

use crate::json::{Json, Jv};
use crate::json;
use crate::protocol::chat;
use crate::protocol;
use crate::text;
use vstd::prelude::*;
use vstd::string::*;

verus! {

/// The token limit of a request that names none.
pub const DEFAULT_MAX_TOKENS: i64 = 8192;

// ---------------------------------------------------- request: to a chat body

/// The texts of the first `n` system blocks, with an empty line between them.
pub open spec fn system_join(parts: Seq<Jv>, n: nat) -> Seq<char>
    decreases n,
{
    if n == 0 {
        Seq::empty()
    } else {
        protocol::joined(system_join(parts, (n - 1) as nat), "\n\n"@, protocol::loose_field(parts[n - 1], "text"@))
    }
}

/// The system text: a text as it is, or the texts of a list of blocks.
pub open spec fn system_of(system: Jv) -> Seq<char> {
    match system {
        Jv::Str(s) => s,
        _ => system_join(system.items(), system.items().len()),
    }
}

fn system_text(system: &Json) -> (r: String)
    ensures
        r@ == system_of(system@),
{
    if let Json::Str(s) = system {
        return s.clone();
    }
    let parts = protocol::content_parts(system);
    let mut out = String::new();
    let mut i: usize = 0;
    while i < parts.len()
        invariant
            i <= parts@.len(),
            out@ == system_join(json::models(parts@), i as nat),
        decreases parts@.len() - i,
    {
        let piece = protocol::string_field(&parts[i], "text");
        out = protocol::join_with(out, "\n\n", piece.as_str());
        i = i + 1;
    }
    out
}

/// The text of a tool's result; a result without text is marked as empty.
pub open spec fn result_text(content: Jv) -> Seq<char> {
    match content {
        Jv::Arr(_) => protocol::or_else(protocol::or_else(protocol::plain_text(content), protocol::loose(content)), "(empty)"@),
        _ => protocol::or_else(protocol::loose(content), "(empty)"@),
    }
}

/// The text of a tool's result.
pub(crate) fn tool_result_text(content: Option<&Json>) -> (r: String)
    ensures
        r@ == result_text(match json::opt_model(content) {
            Some(v) => v,
            None => Jv::Null,
        }),
{
    match content {
        None => "(empty)".to_owned(),
        Some(v) => match v {
            Json::Arr(_) => {
                let plain = protocol::content_text(v);
                let raw = protocol::json_text(v);
                protocol::or_text(protocol::or_text(plain, raw.as_str()), "(empty)")
            },
            _ => protocol::or_text(protocol::json_text(v), "(empty)"),
        },
    }
}

/// The address that carries image data itself.
pub open spec fn data_uri(media: Seq<char>, data: Seq<char>) -> Seq<char> {
    "data:"@ + protocol::or_else(media, "image/png"@) + ";base64,"@ + data
}

/// The chat block of an image block, where it names an image.
pub open spec fn chat_image(part: Jv) -> Option<Jv> {
    match part.get("source"@) {
        None => None,
        Some(source) => {
            let kind = text::lowercase(protocol::loose_field(source, "type"@));
            if kind == "base64"@ {
                if protocol::loose_field(source, "data"@).len() == 0 {
                    None
                } else {
                    Some(
                        chat::image_block(
                            data_uri(
                                protocol::loose_field(source, "media_type"@),
                                protocol::loose_field(source, "data"@),
                            ),
                        ),
                    )
                }
            } else if kind == "url"@ {
                if protocol::loose_field(source, "url"@).len() == 0 {
                    None
                } else {
                    Some(chat::image_block(protocol::loose_field(source, "url"@)))
                }
            } else {
                None
            }
        },
    }
}

fn image_to_chat(part: &Json) -> (r: Option<Json>)
    ensures
        json::opt_owned(r) == chat_image(part@),
{
    match part.get("source") {
        None => None,
        Some(source) => {
            let kind = text::lower(protocol::string_field(source, "type").as_str());
            if text::same(kind.as_str(), "base64") {
                let media = protocol::or_text(protocol::string_field(source, "media_type"), "image/png");
                let data = protocol::string_field(source, "data");
                if data.as_str().is_empty() {
                    return None;
                }
                let mut url = text::join3("data:", media.as_str(), ";base64,");
                url.append(data.as_str());
                Some(chat::make_image_block(url.as_str()))
            } else if text::same(kind.as_str(), "url") {
                let url = protocol::string_field(source, "url");
                if url.as_str().is_empty() {
                    None
                } else {
                    Some(chat::make_image_block(url.as_str()))
                }
            } else {
                None
            }
        },
    }
}

/// The tool message of a result block; `fresh` stands in for a missing identifier.
pub open spec fn tool_message(part: Jv, fresh: Seq<char>) -> Jv {
    Jv::obj().put("role"@, Jv::Str("tool"@)).put(
        "tool_call_id"@,
        Jv::Str(protocol::or_else(protocol::loose_field(part, "tool_use_id"@), fresh)),
    ).put("content"@, Jv::Str(result_text(part.field("content"@))))
}

fn make_tool_message(part: &Json, fresh: &str) -> (r: Json)
    ensures
        r@ == tool_message(part@, fresh@),
{
    let id = protocol::or_text(protocol::string_field(part, "tool_use_id"), fresh);
    let content = tool_result_text(part.get("content"));
    Json::obj().with("role", Json::str("tool")).with("tool_call_id", Json::Str(id)).with(
        "content",
        Json::Str(content),
    )
}

/// The blocks of a message, sorted: tool results as the messages they become,
/// tool calls, thinking, and the rest.
#[verifier::ext_equal]
pub struct Sorted {
    pub results: Seq<Jv>,
    pub calls: Seq<Jv>,
    pub reasoning: Seq<char>,
    pub normal: Seq<Jv>,
}

/// One more block sorted; `fresh` stands in for a missing identifier.
pub open spec fn sort_block(st: Sorted, part: Jv, fresh: Seq<char>) -> Sorted {
    let kind = text::lowercase(protocol::loose_field(part, "type"@));
    match part {
        Jv::Str(s) => Sorted { normal: st.normal.push(chat::text_block(s)), ..st },
        _ => if kind == "tool_result"@ {
            Sorted { results: st.results.push(tool_message(part, fresh)), ..st }
        } else if kind == "tool_use"@ {
            Sorted {
                calls: st.calls.push(
                    chat::chat_call(
                        protocol::or_else(protocol::loose_field(part, "id"@), fresh),
                        protocol::loose_field(part, "name"@),
                        protocol::or_else(protocol::loose(part.field("input"@)), "{}"@),
                    ),
                ),
                ..st
            }
        } else if kind == "thinking"@ || kind == "redacted_thinking"@ {
            Sorted {
                reasoning: protocol::joined(st.reasoning, "\n"@, protocol::loose_field(part, "thinking"@)),
                ..st
            }
        } else if kind == "text"@ {
            Sorted { normal: st.normal.push(chat::text_block(protocol::loose_field(part, "text"@))), ..st }
        } else if kind == "image"@ {
            match chat_image(part) {
                Some(v) => Sorted { normal: st.normal.push(v), ..st },
                None => st,
            }
        } else {
            Sorted { normal: st.normal.push(part), ..st }
        },
    }
}

/// The first `n` blocks of a message, sorted.
pub open spec fn sort_blocks(parts: Seq<Jv>, fresh: Seq<Seq<char>>, n: nat) -> Sorted
    decreases n,
{
    if n == 0 {
        Sorted {
            results: Seq::empty(),
            calls: Seq::empty(),
            reasoning: Seq::empty(),
            normal: Seq::empty(),
        }
    } else {
        sort_block(sort_blocks(parts, fresh, (n - 1) as nat), parts[n - 1], protocol::text_at(fresh, n - 1))
    }
}

/// Whether a list of blocks holds text blocks alone.
pub open spec fn only_text(parts: Seq<Jv>) -> bool {
    forall|i: int|
        0 <= i < parts.len() ==> {
            let kind = text::lowercase(protocol::loose_field(#[trigger] parts[i], "type"@));
            kind.len() == 0 || kind == "text"@
        }
}

/// The `text` members of the first `n` blocks, one after the other.
pub open spec fn text_fields(parts: Seq<Jv>, n: nat) -> Seq<char>
    decreases n,
{
    if n == 0 {
        Seq::empty()
    } else {
        text_fields(parts, (n - 1) as nat) + protocol::loose_field(parts[n - 1], "text"@)
    }
}

/// A list of blocks as a chat content: a text where there is nothing but text.
pub open spec fn collapsed(parts: Seq<Jv>) -> Jv {
    if only_text(parts) {
        Jv::Str(text_fields(parts, parts.len()))
    } else {
        Jv::Arr(parts)
    }
}

fn collapse_content(parts: Vec<Json>) -> (r: Json)
    ensures
        r@ == collapsed(json::models(parts@)),
{
    broadcast use json::group_json;

    let mut out = String::new();
    let mut i: usize = 0;
    while i < parts.len()
        invariant
            i <= parts@.len(),
            forall|k: int|
                0 <= k < i ==> {
                    let kind = text::lowercase(protocol::loose_field(#[trigger] json::models(parts@)[k], "type"@));
                    kind.len() == 0 || kind == "text"@
                },
            out@ == text_fields(json::models(parts@), i as nat),
        decreases parts@.len() - i,
    {
        let kind = text::lower(protocol::string_field(&parts[i], "type").as_str());
        if !kind.as_str().is_empty() && !text::same(kind.as_str(), "text") {
            proof {
                let bad = json::models(parts@)[i as int];
                assert(bad == json::model(parts@[i as int]));
                assert(!only_text(json::models(parts@)));
                json::model_arr(parts);
            }
            return Json::Arr(parts);
        }
        let piece = protocol::string_field(&parts[i], "text");
        out.append(piece.as_str());
        i = i + 1;
    }
    Json::Str(out)
}

/// The message of the sorted blocks: none where nothing but tool results is there.
pub open spec fn main_message(st: Sorted, role: Seq<char>) -> Seq<Jv> {
    if st.calls.len() > 0 {
        seq![
            chat::plain_message("assistant"@, chat::text_or_null(protocol::plain_text(Jv::Arr(st.normal)))).put_some(
                "reasoning_content"@,
                chat::some_text(st.reasoning),
            ).put("tool_calls"@, Jv::Arr(st.calls)),
        ]
    } else if st.normal.len() > 0 || st.reasoning.len() > 0 {
        seq![
            chat::plain_message(role, collapsed(st.normal)).put_some(
                "reasoning_content"@,
                if role == "assistant"@ {
                    chat::some_text(st.reasoning)
                } else {
                    None
                },
            ),
        ]
    } else {
        Seq::empty()
    }
}

/// The role of a message in a chat request.
pub open spec fn chat_role(message: Jv) -> Seq<char> {
    if text::lowercase(protocol::loose_field(message, "role"@)) == "assistant"@ {
        "assistant"@
    } else {
        "user"@
    }
}

/// The chat messages of one message; `fresh` holds an identifier for each block. The tool
/// results that come with what a user says stand before it, directly behind the calls that
/// they answer; those that come with calls stand behind these.
pub open spec fn chat_messages(message: Jv, fresh: Seq<Seq<char>>) -> Seq<Jv> {
    match message.field("content"@) {
        Jv::Str(s) => seq![chat::plain_message(chat_role(message), Jv::Str(s))],
        content => {
            let st = sort_blocks(content.items(), fresh, content.items().len());
            if chat_role(message) == "assistant"@ || st.calls.len() > 0 {
                main_message(st, chat_role(message)) + st.results
            } else {
                st.results + main_message(st, chat_role(message))
            }
        },
    }
}

/// Adds the chat messages of one message.
fn convert_message(messages: &mut Vec<Json>, message: &Json, fresh: &Vec<String>)
    ensures
        json::models(final(messages)@) == json::models(old(messages)@) + chat_messages(
            message@,
            protocol::texts(fresh@),
        ),
{
    broadcast use json::group_json;

    let ghost before = json::models(messages@);
    let ghost ids = protocol::texts(fresh@);
    let raw_role = text::lower(protocol::string_field(message, "role").as_str());
    let role = if text::same(raw_role.as_str(), "assistant") {
        "assistant"
    } else {
        "user"
    };
    proof {
        assert(before + Seq::<Jv>::empty() =~= before);
    }
    let content = match message.get("content") {
        Some(c) => c,
        None => {
            proof {
                assert(chat_messages(message@, ids) =~= Seq::empty());
            }
            return;
        },
    };
    if let Json::Str(s) = content {
        messages.push(chat::make_message(role, Json::Str(s.clone())));
        proof {
            assert(json::models(messages@) =~= before + chat_messages(message@, ids));
        }
        return;
    }
    let parts = protocol::content_parts(content);
    let ghost want = json::models(parts@);
    let mut results: Vec<Json> = Vec::new();
    let mut calls: Vec<Json> = Vec::new();
    let mut reasoning = String::new();
    let mut normal: Vec<Json> = Vec::new();
    let mut i: usize = 0;
    while i < parts.len()
        invariant
            i <= parts@.len(),
            want == json::models(parts@),
            ids == protocol::texts(fresh@),
            json::models(results@) == sort_blocks(want, ids, i as nat).results,
            json::models(calls@) == sort_blocks(want, ids, i as nat).calls,
            reasoning@ == sort_blocks(want, ids, i as nat).reasoning,
            json::models(normal@) == sort_blocks(want, ids, i as nat).normal,
        decreases parts@.len() - i,
    {
        let part = &parts[i];
        let id = protocol::string_at(fresh, i);
        let kind = text::lower(protocol::string_field(part, "type").as_str());
        if let Json::Str(s) = part {
            normal.push(chat::make_text_block(s.as_str()));
        } else if text::same(kind.as_str(), "tool_result") {
            results.push(make_tool_message(part, id.as_str()));
        } else if text::same(kind.as_str(), "tool_use") {
            let call_id = protocol::or_text(protocol::string_field(part, "id"), id.as_str());
            let name = protocol::string_field(part, "name");
            let arguments = protocol::or_text(protocol::opt_string_value(part.get("input")), "{}");
            calls.push(chat::make_chat_call(call_id.as_str(), name.as_str(), arguments.as_str()));
        } else if text::same(kind.as_str(), "thinking") || text::same(kind.as_str(), "redacted_thinking") {
            let text = protocol::string_field(part, "thinking");
            reasoning = protocol::join_with(reasoning, "\n", text.as_str());
        } else if text::same(kind.as_str(), "text") {
            let text = protocol::string_field(part, "text");
            normal.push(chat::make_text_block(text.as_str()));
        } else if text::same(kind.as_str(), "image") {
            if let Some(v) = image_to_chat(part) {
                normal.push(v);
            }
        } else {
            normal.push(part.copy());
        }
        i = i + 1;
    }
    let ghost st = sort_blocks(want, ids, want.len());
    let results_first = !text::same(role, "assistant") && calls.len() == 0;
    if results_first {
        messages.append(&mut results);
    }
    let ghost first = json::models(messages@);
    proof {
        let ahead = if results_first {
            st.results
        } else {
            Seq::empty()
        };
        assert(first =~= before + ahead);
    }
    if calls.len() > 0 {
        let block = Json::Arr(normal);
        let text = protocol::content_text(&block);
        let mut entry = chat::make_message("assistant", chat::make_text_or_null(text));
        if !reasoning.as_str().is_empty() {
            entry.put("reasoning_content", Json::Str(reasoning));
        }
        entry.put("tool_calls", Json::Arr(calls));
        proof {
            assert(main_message(st, role@) =~= seq![entry@]);
        }
        messages.push(entry);
        proof {
            assert(json::models(messages@) =~= first + main_message(st, role@));
        }
    } else if normal.len() > 0 || !reasoning.as_str().is_empty() {
        let mut entry = chat::make_message(role, collapse_content(normal));
        if text::same(role, "assistant") && !reasoning.as_str().is_empty() {
            entry.put("reasoning_content", Json::Str(reasoning));
        }
        proof {
            assert(main_message(st, role@) =~= seq![entry@]);
        }
        messages.push(entry);
        proof {
            assert(json::models(messages@) =~= first + main_message(st, role@));
        }
    }
    proof {
        assert(first + Seq::<Jv>::empty() =~= first);
    }
    let ghost mid = json::models(messages@);
    messages.append(&mut results);
    proof {
        if results_first {
            assert(json::models(messages@) =~= mid);
            assert(mid =~= before + (st.results + main_message(st, role@)));
        } else {
            assert(json::models(messages@) =~= mid + st.results);
            assert(mid + st.results =~= before + (main_message(st, role@) + st.results));
        }
    }
}

/// A tool of a chat request: a function under its name.
pub open spec fn chat_tool(tool: Jv) -> Option<Jv> {
    let name = protocol::loose_field(tool, "name"@);
    if name.len() == 0 {
        None
    } else {
        let schema = match json::if_truthy(tool.get("input_schema"@)) {
            Some(v) => v,
            None => Jv::obj().put("type"@, Jv::Str("object"@)).put("properties"@, Jv::obj()),
        };
        Some(
            Jv::obj().put("type"@, Jv::Str("function"@)).put(
                "function"@,
                Jv::obj().put("name"@, Jv::Str(name)).put_some(
                    "description"@,
                    json::if_truthy(tool.get("description"@)),
                ).put("parameters"@, schema),
            ),
        )
    }
}

fn tool_to_chat(tool: &Json) -> (r: Option<Json>)
    ensures
        json::opt_owned(r) == chat_tool(tool@),
{
    let name = protocol::string_field(tool, "name");
    if name.as_str().is_empty() {
        return None;
    }
    let schema = match json::truthy_in(tool.get("input_schema")) {
        Some(v) => v.copy(),
        None => Json::obj().with("type", Json::str("object")).with("properties", Json::obj()),
    };
    let mut function = Json::obj().with("name", Json::Str(name));
    function.put_some("description", json::truthy_in(tool.get("description")));
    function.put("parameters", schema);
    Some(Json::obj().with("type", Json::str("function")).with("function", function))
}

/// The first `n` tools of a request as chat tools; those without a name are left out.
pub open spec fn chat_tools(tools: Seq<Jv>, n: nat) -> Seq<Jv>
    decreases n,
{
    if n == 0 {
        Seq::empty()
    } else {
        let before = chat_tools(tools, (n - 1) as nat);
        match chat_tool(tools[n - 1]) {
            Some(v) => before.push(v),
            None => before,
        }
    }
}

fn tools_to_chat(tools: &Vec<Json>) -> (r: Vec<Json>)
    ensures
        json::models(r@) == chat_tools(json::models(tools@), tools@.len()),
{
    broadcast use json::group_json;

    let mut out: Vec<Json> = Vec::new();
    let mut i: usize = 0;
    while i < tools.len()
        invariant
            i <= tools@.len(),
            json::models(out@) == chat_tools(json::models(tools@), i as nat),
        decreases tools@.len() - i,
    {
        if let Some(v) = tool_to_chat(&tools[i]) {
            out.push(v);
        }
        i = i + 1;
    }
    out
}

/// The tool choice of a chat request: `any` is `required` there, a named tool is
/// a named function, and what is not known is `auto`.
pub open spec fn chat_choice(choice: Jv) -> Jv {
    let kind = text::lowercase(protocol::loose_field(choice, "type"@));
    match choice {
        Jv::Str(s) => Jv::Str(s),
        _ => if kind == "any"@ {
            Jv::Str("required"@)
        } else if kind == "none"@ {
            Jv::Str("none"@)
        } else if kind == "tool"@ && protocol::loose_field(choice, "name"@).len() > 0 {
            chat::function_choice(protocol::loose_field(choice, "name"@))
        } else {
            Jv::Str("auto"@)
        },
    }
}

fn tool_choice_to_chat(choice: &Json) -> (r: Json)
    ensures
        r@ == chat_choice(choice@),
{
    if let Json::Str(s) = choice {
        return Json::Str(s.clone());
    }
    let kind = text::lower(protocol::string_field(choice, "type").as_str());
    if text::same(kind.as_str(), "any") {
        return Json::str("required");
    }
    if text::same(kind.as_str(), "none") {
        return Json::str("none");
    }
    if text::same(kind.as_str(), "tool") {
        let name = protocol::string_field(choice, "name");
        if !name.as_str().is_empty() {
            return chat::make_function_choice(name.as_str());
        }
    }
    Json::str("auto")
}

/// The effort that a thinking budget stands for.
pub open spec fn budget_effort(budget: int) -> Seq<char> {
    if budget <= 0 {
        "medium"@
    } else if budget <= 1024 {
        "low"@
    } else if budget <= 4096 {
        "medium"@
    } else if budget <= 10240 {
        "high"@
    } else {
        "xhigh"@
    }
}

fn effort_from_budget(budget: i64) -> (r: &'static str)
    ensures
        r@ == budget_effort(budget as int),
{
    if budget <= 0 {
        "medium"
    } else if budget <= 1024 {
        "low"
    } else if budget <= 4096 {
        "medium"
    } else if budget <= 10240 {
        "high"
    } else {
        "xhigh"
    }
}

/// The effort that a request asks for: none where thinking is off, else what
/// `output_config` names (its `max` is `xhigh` here), else, where thinking is on,
/// what the budget stands for.
pub open spec fn effort_of(body: Jv) -> Option<Seq<char>> {
    let thinking = text::lowercase(
        text::trimmed(protocol::opt_loose(json::opt_get(body.get("thinking"@), "type"@))),
    );
    let explicit = text::lowercase(
        text::trimmed(protocol::opt_loose(json::opt_get(body.get("output_config"@), "effort"@))),
    );
    if thinking == "none"@ || thinking == "off"@ || thinking == "disabled"@ {
        None
    } else if explicit.len() > 0 {
        Some(if explicit == "max"@ {
            "xhigh"@
        } else {
            explicit
        })
    } else if thinking == "enabled"@ || thinking == "adaptive"@ {
        Some(budget_effort(json::int_or_zero(json::opt_get(body.get("thinking"@), "budget_tokens"@))))
    } else {
        None
    }
}

fn anthropic_effort(body: &Json) -> (r: Option<String>)
    ensures
        json::opt_string(r) == effort_of(body@),
{
    let thinking = text::lower(
        text::trim(protocol::opt_string_value(json::get_in(body.get("thinking"), "type")).as_str()).as_str(),
    );
    if text::same(thinking.as_str(), "none") || text::same(thinking.as_str(), "off") || text::same(
        thinking.as_str(),
        "disabled",
    ) {
        return None;
    }
    let explicit = text::lower(
        text::trim(protocol::opt_string_value(json::get_in(body.get("output_config"), "effort")).as_str()).as_str(),
    );
    if !explicit.as_str().is_empty() {
        return if text::same(explicit.as_str(), "max") {
            Some("xhigh".to_owned())
        } else {
            Some(explicit)
        };
    }
    if text::same(thinking.as_str(), "enabled") || text::same(thinking.as_str(), "adaptive") {
        let budget = json::int_or(json::get_in(body.get("thinking"), "budget_tokens"));
        return Some(effort_from_budget(budget).to_owned());
    }
    None
}

/// The chat messages of the first `n` messages.
pub open spec fn all_chat_messages(
    input: Seq<Jv>,
    fresh: Seq<Seq<Seq<char>>>,
    n: nat,
) -> Seq<Jv>
    decreases n,
{
    if n == 0 {
        Seq::empty()
    } else {
        all_chat_messages(input, fresh, (n - 1) as nat) + chat_messages(
            input[n - 1],
            protocol::row(fresh, n - 1),
        )
    }
}

/// The system message of a request, where its system text is not blank.
pub open spec fn system_message(body: Jv) -> Seq<Jv> {
    match body.get("system"@) {
        Some(system) => if text::blank(system_of(system)) {
            Seq::empty()
        } else {
            seq![chat::plain_message("system"@, Jv::Str(system_of(system)))]
        },
        None => Seq::empty(),
    }
}

/// The token limit of a request: a positive integer, or the default.
pub open spec fn token_limit(body: Jv) -> int {
    match body.get("max_tokens"@) {
        Some(v) => match v.as_i64() {
            Some(n) => if n > 0 {
                n
            } else {
                DEFAULT_MAX_TOKENS as int
            },
            None => DEFAULT_MAX_TOKENS as int,
        },
        None => DEFAULT_MAX_TOKENS as int,
    }
}

/// The tools of a request as chat tools, where any are left.
pub open spec fn tools_member(body: Jv) -> Option<Jv> {
    match body.get("tools"@) {
        Some(Jv::Arr(tools)) => if chat_tools(tools, tools.len()).len() > 0 {
            Some(Jv::Arr(chat_tools(tools, tools.len())))
        } else {
            None
        },
        _ => None,
    }
}

/// The chat request of a Messages request. `fresh` holds, for each message and
/// each of its blocks, the identifier that stands in for a missing one. A request
/// without a list of messages is refused.
pub open spec fn chat_of_anthropic(body: Jv, fresh: Seq<Seq<Seq<char>>>) -> Result<Jv, Seq<char>> {
    match body.get("messages"@) {
        Some(Jv::Arr(input)) => Ok(
            Jv::obj().put("model"@, body.field("model"@)).put(
                "messages"@,
                Jv::Arr(system_message(body) + all_chat_messages(input, fresh, input.len())),
            ).put("stream"@, Jv::Bool(chat::flag(body, "stream"@))).put(
                "max_tokens"@,
                Jv::Int(token_limit(body)),
            ).put_some("temperature"@, json::if_not_null(body.get("temperature"@))).put_some(
                "top_p"@,
                json::if_not_null(body.get("top_p"@)),
            ).put_some("metadata"@, json::if_not_null(body.get("metadata"@))).put_some(
                "stop"@,
                json::if_truthy(body.get("stop_sequences"@)),
            ).put_some("tools"@, tools_member(body)).put_some(
                "tool_choice"@,
                match json::if_truthy(body.get("tool_choice"@)) {
                    Some(choice) => Some(chat_choice(choice)),
                    None => None,
                },
            ).put_some(
                "reasoning_effort"@,
                match effort_of(body) {
                    Some(effort) => Some(Jv::Str(effort)),
                    None => None,
                },
            ),
        ),
        _ => Err("缺少 messages 数组"@),
    }
}

/// The chat request of a Messages request, with the identifiers that stand in for
/// missing ones given.
pub fn chat_from_anthropic_with(body: &Json, fresh: &Vec<Vec<String>>) -> (r: Result<Json, String>)
    ensures
        json::outcome(r) == chat_of_anthropic(body@, protocol::grid(fresh@)),
{
    broadcast use json::group_json;

    let ghost ids = protocol::grid(fresh@);
    let mut out = Json::obj();
    out.put("model", json::copy_or_null(body.get("model")));
    let mut messages: Vec<Json> = Vec::new();
    if let Some(system) = body.get("system") {
        let text = system_text(system);
        if !text::trim(text.as_str()).as_str().is_empty() {
            messages.push(chat::make_message("system", Json::Str(text)));
            proof {
                assert(json::models(messages@) =~= system_message(body@));
            }
        }
    }
    proof {
        assert(json::models(messages@) =~= system_message(body@));
    }
    let input = match body.get("messages") {
        Some(Json::Arr(v)) => v,
        _ => {
            return Err("缺少 messages 数组".to_owned());
        },
    };
    let ghost head = system_message(body@);
    let ghost want = json::models(input@);
    proof {
        assert(head + Seq::<Jv>::empty() =~= head);
    }
    let none: Vec<String> = Vec::new();
    proof {
        assert(protocol::texts(none@) =~= Seq::empty());
    }
    let mut i: usize = 0;
    while i < input.len()
        invariant
            i <= input@.len(),
            want == json::models(input@),
            ids == protocol::grid(fresh@),
            protocol::texts(none@) == Seq::<Seq<char>>::empty(),
            json::models(messages@) == head + all_chat_messages(want, ids, i as nat),
        decreases input@.len() - i,
    {
        if i < fresh.len() {
            convert_message(&mut messages, &input[i], &fresh[i]);
        } else {
            convert_message(&mut messages, &input[i], &none);
        }
        proof {
            assert(head + all_chat_messages(want, ids, i as nat) + chat_messages(
                want[i as int],
                protocol::row(ids, i as int),
            ) =~= head + all_chat_messages(want, ids, (i + 1) as nat));
        }
        i = i + 1;
    }
    out.put("messages", Json::Arr(messages));
    out.put("stream", Json::Bool(chat::read_flag(body, "stream")));
    let limit: i64 = match body.get("max_tokens") {
        Some(v) => match v.as_i64() {
            Some(n) => if n > 0 {
                n
            } else {
                DEFAULT_MAX_TOKENS
            },
            None => DEFAULT_MAX_TOKENS,
        },
        None => DEFAULT_MAX_TOKENS,
    };
    out.put("max_tokens", Json::Int(limit));
    out.put_some("temperature", json::not_null_in(body.get("temperature")));
    out.put_some("top_p", json::not_null_in(body.get("top_p")));
    out.put_some("metadata", json::not_null_in(body.get("metadata")));
    out.put_some("stop", json::truthy_in(body.get("stop_sequences")));
    if let Some(Json::Arr(tools)) = body.get("tools") {
        let converted = tools_to_chat(tools);
        if converted.len() > 0 {
            out.put("tools", Json::Arr(converted));
        }
    }
    if let Some(choice) = json::truthy_in(body.get("tool_choice")) {
        out.put("tool_choice", tool_choice_to_chat(choice));
    }
    if let Some(effort) = anthropic_effort(body) {
        out.put("reasoning_effort", Json::Str(effort));
    }
    Ok(out)
}

/// How many blocks a message holds.
pub open spec fn block_count(message: Jv) -> nat {
    message.field("content"@).items().len()
}

/// Whether a grid holds one identifier of the given prefix for each block of each
/// message.
pub open spec fn grid_fits(input: Seq<Jv>, fresh: Seq<Seq<Seq<char>>>, prefix: Seq<char>) -> bool {
    &&& fresh.len() == input.len()
    &&& forall|i: int|
        #![trigger fresh[i]]
        0 <= i < input.len() ==> fresh[i].len() == block_count(input[i]) && protocol::all_ids(
            prefix,
            fresh[i],
        )
}

/// The messages of a request, where they are a list.
pub open spec fn input_of(body: Jv) -> Seq<Jv> {
    body.field("messages"@).items()
}

/// The chat request of a Messages request.
pub fn chat_from_anthropic(body: &Json) -> (r: Result<Json, String>)
    ensures
        exists|fresh: Seq<Seq<Seq<char>>>| #[trigger]
            grid_fits(input_of(body@), fresh, "call"@) && json::outcome(r) == chat_of_anthropic(
                body@,
                fresh,
            ),
{
    broadcast use json::group_json;

    let mut fresh: Vec<Vec<String>> = Vec::new();
    let ghost want = input_of(body@);
    proof {
        assert(grid_fits(want.take(0), protocol::grid(fresh@), "call"@));
    }
    if let Some(Json::Arr(input)) = body.get("messages") {
        let mut i: usize = 0;
        while i < input.len()
            invariant
                i <= input@.len(),
                want == json::models(input@),
                fresh@.len() == i,
                forall|k: int|
                    #![trigger fresh@[k]]
                    0 <= k < i ==> fresh@[k]@.len() == block_count(want[k]) && protocol::all_ids(
                        "call"@,
                        protocol::texts(fresh@[k]@),
                    ),
            decreases input@.len() - i,
        {
            let count = match input[i].get("content") {
                Some(Json::Arr(parts)) => parts.len(),
                _ => 0,
            };
            fresh.push(protocol::random_ids("call", count));
            i = i + 1;
        }
    }
    proof {
        let ids = protocol::grid(fresh@);
        assert forall|k: int|
            #![trigger ids[k]]
            0 <= k < want.len() implies ids[k].len() == block_count(want[k]) && protocol::all_ids(
            "call"@,
            ids[k],
        ) by {
            assert(fresh@[k]@.len() == block_count(want[k]));
        }
        assert(grid_fits(want, ids, "call"@));
    }
    chat_from_anthropic_with(body, &fresh)
}

// ------------------------------------------------- response: from a chat body

/// What a text spells where that is an object, else an object that holds the text as
/// `raw`.
pub open spec fn object_or_held(spelled: Option<Jv>, text: Seq<char>) -> Jv {
    match spelled {
        Some(Jv::Obj(m)) => Jv::Obj(m),
        _ => Jv::obj().put("raw"@, Jv::Str(text)),
    }
}

/// What a text spells where that is an object, else an object that holds the text as
/// `raw`.
pub fn object_or_raw(spelled: Option<Json>, text: &str) -> (r: Json)
    ensures
        r@ == object_or_held(json::opt_owned(spelled), text@),
{
    match spelled {
        Some(v) => if v.is_obj() {
            v
        } else {
            Json::obj().with("raw", Json::str(text))
        },
        None => Json::obj().with("raw", Json::str(text)),
    }
}

/// A value as an object: an object as it is, the object that its text spells, or
/// an object that holds the text as `raw`. Nothing gives an empty object.
pub open spec fn object_of(value: Jv) -> Jv {
    match value {
        Jv::Obj(_) => value,
        _ => {
            let text = protocol::loose(value);
            if text.len() == 0 {
                Jv::obj()
            } else {
                object_or_held(json::parsed_json(text), text)
            }
        },
    }
}

/// A value as an object.
pub(crate) fn parse_json_object(value: &Json) -> (r: Json)
    ensures
        r@ == object_of(value@),
{
    if value.is_obj() {
        return value.copy();
    }
    let text = protocol::json_text(value);
    if text.as_str().is_empty() {
        return Json::obj();
    }
    object_or_raw(json::parse(text.as_str()), text.as_str())
}

/// The larger of a difference and zero, kept in the range of an `i64`.
pub open spec fn difference_or_zero(a: int, b: int) -> int {
    if a - b < 0 {
        0
    } else if a - b > i64::MAX {
        i64::MAX as int
    } else {
        a - b
    }
}

/// The usage report of a Messages response: what was read from the cache is not
/// counted as input.
pub open spec fn anthropic_usage(usage: Option<Jv>) -> Jv {
    match usage {
        Some(Jv::Obj(m)) => {
            let u = Jv::Obj(m);
            let cached = json::int_or_zero(json::opt_get(u.get("prompt_tokens_details"@), "cached_tokens"@));
            Jv::obj().put(
                "input_tokens"@,
                Jv::Int(difference_or_zero(json::int_or_zero(u.get("prompt_tokens"@)), cached)),
            ).put("output_tokens"@, Jv::Int(json::int_or_zero(u.get("completion_tokens"@)))).put(
                "cache_read_input_tokens"@,
                Jv::Int(cached),
            )
        },
        _ => Jv::obj().put("input_tokens"@, Jv::Int(0)).put("output_tokens"@, Jv::Int(0)),
    }
}

/// The usage report of a Messages response.
pub fn usage_to_anthropic(usage: Option<&Json>) -> (r: Json)
    ensures
        r@ == anthropic_usage(json::opt_model(usage)),
{
    match usage {
        Some(u) => if u.is_obj() {
            let cached = json::int_or(json::get_in(u.get("prompt_tokens_details"), "cached_tokens"));
            let input = json::int_or(u.get("prompt_tokens"));
            let fresh: i64 = if input < cached {
                0
            } else {
                match input.checked_sub(cached) {
                    Some(n) => n,
                    None => i64::MAX,
                }
            };
            let output = json::int_or(u.get("completion_tokens"));
            Json::obj().with("input_tokens", Json::Int(fresh)).with(
                "output_tokens",
                Json::Int(output),
            ).with("cache_read_input_tokens", Json::Int(cached))
        } else {
            Json::obj().with("input_tokens", Json::Int(0)).with("output_tokens", Json::Int(0))
        },
        None => Json::obj().with("input_tokens", Json::Int(0)).with("output_tokens", Json::Int(0)),
    }
}

/// A thinking block.
pub open spec fn thinking_block(s: Seq<char>) -> Jv {
    Jv::obj().put("type"@, Jv::Str("thinking"@)).put("thinking"@, Jv::Str(s))
}

pub(crate) fn make_thinking_block(s: &str) -> (r: Json)
    ensures
        r@ == thinking_block(s@),
{
    Json::obj().with("type", Json::str("thinking")).with("thinking", Json::str(s))
}

/// A block that calls a tool.
pub open spec fn tool_use_block(id: Seq<char>, name: Seq<char>, input: Jv) -> Jv {
    Jv::obj().put("type"@, Jv::Str("tool_use"@)).put("id"@, Jv::Str(id)).put(
        "name"@,
        Jv::Str(name),
    ).put("input"@, input)
}

/// A block that calls a tool.
pub(crate) fn make_tool_use_block(id: &str, name: &str, input: Json) -> (r: Json)
    ensures
        r@ == tool_use_block(id@, name@, input@),
{
    Json::obj().with("type", Json::str("tool_use")).with("id", Json::str(id)).with(
        "name",
        Json::str(name),
    ).with("input", input)
}

/// The blocks of the first `n` tool calls of a chat message.
pub open spec fn call_blocks(calls: Seq<Jv>, fresh: Seq<Seq<char>>, n: nat) -> Seq<Jv>
    decreases n,
{
    if n == 0 {
        Seq::empty()
    } else {
        let call = calls[n - 1];
        call_blocks(calls, fresh, (n - 1) as nat).push(
            tool_use_block(
                protocol::or_else(protocol::loose_field(call, "id"@), protocol::text_at(fresh, n - 1)),
                protocol::opt_loose(json::opt_get(call.get("function"@), "name"@)),
                object_of(
                    match json::opt_get(call.get("function"@), "arguments"@) {
                        Some(v) => v,
                        None => Jv::Null,
                    },
                ),
            ),
        )
    }
}

/// The blocks of thinking and text, as far as there is any.
pub open spec fn said_blocks(reasoning: Seq<char>, text: Seq<char>) -> Seq<Jv> {
    let head = if reasoning.len() == 0 {
        Seq::empty()
    } else {
        seq![thinking_block(reasoning)]
    };
    if text.len() == 0 {
        head
    } else {
        head.push(chat::text_block(text))
    }
}

pub(crate) fn make_said_blocks(reasoning: &str, text: &str) -> (r: Vec<Json>)
    ensures
        json::models(r@) == said_blocks(reasoning@, text@),
{
    broadcast use json::group_json;

    let mut out: Vec<Json> = Vec::new();
    if !reasoning.is_empty() {
        out.push(make_thinking_block(reasoning));
        proof {
            assert(json::models(out@) =~= seq![thinking_block(reasoning@)]);
        }
    }
    if !text.is_empty() {
        out.push(chat::make_text_block(text));
    }
    out
}

/// A content that is never empty: an empty text block stands in for nothing.
pub open spec fn never_empty(content: Seq<Jv>) -> Seq<Jv> {
    if content.len() == 0 {
        seq![chat::text_block(Seq::empty())]
    } else {
        content
    }
}

pub(crate) fn fill_if_empty(content: &mut Vec<Json>)
    ensures
        json::models(final(content)@) == never_empty(json::models(old(content)@)),
{
    broadcast use json::group_json;

    if content.len() == 0 {
        content.push(chat::make_text_block(""));
        proof {
            reveal_strlit("");
            assert(""@ =~= Seq::empty());
            assert(json::models(content@) =~= seq![chat::text_block(Seq::empty())]);
        }
    }
}

/// Why the message ended: at the limit, at a tool call, or of its own accord.
pub open spec fn stop_reason(finish: Seq<char>, has_tool: bool) -> Seq<char> {
    if finish == "length"@ {
        "max_tokens"@
    } else if finish == "tool_calls"@ || has_tool {
        "tool_use"@
    } else {
        "end_turn"@
    }
}

pub(crate) fn read_stop_reason(finish: &str, has_tool: bool) -> (r: &'static str)
    ensures
        r@ == stop_reason(finish@, has_tool),
{
    if text::same(finish, "length") {
        "max_tokens"
    } else if text::same(finish, "tool_calls") || has_tool {
        "tool_use"
    } else {
        "end_turn"
    }
}

/// A Messages response.
pub open spec fn anthropic_message(
    id: Seq<char>,
    model: Seq<char>,
    content: Seq<Jv>,
    reason: Seq<char>,
    usage: Jv,
) -> Jv {
    Jv::obj().put("id"@, Jv::Str(id)).put("type"@, Jv::Str("message"@)).put(
        "role"@,
        Jv::Str("assistant"@),
    ).put("model"@, Jv::Str(model)).put("content"@, Jv::Arr(content)).put(
        "stop_reason"@,
        Jv::Str(reason),
    ).put("stop_sequence"@, Jv::Null).put("usage"@, usage)
}

pub(crate) fn make_anthropic_message(
    id: &str,
    model: &str,
    content: Vec<Json>,
    reason: &str,
    usage: Json,
) -> (r: Json)
    ensures
        r@ == anthropic_message(id@, model@, json::models(content@), reason@, usage@),
{
    broadcast use json::group_json;

    Json::obj().with("id", Json::str(id)).with("type", Json::str("message")).with(
        "role",
        Json::str("assistant"),
    ).with("model", Json::str(model)).with("content", Json::Arr(content)).with(
        "stop_reason",
        Json::str(reason),
    ).with("stop_sequence", Json::Null).with("usage", usage)
}

/// The Messages response of a chat response. `fresh` holds an identifier for each
/// tool call and `fresh_id` one for the message, where those are missing.
pub open spec fn anthropic_of_chat(
    chat: Jv,
    model: Seq<char>,
    fresh: Seq<Seq<char>>,
    fresh_id: Seq<char>,
) -> Jv {
    let message = chat::message_of(chat);
    let calls = chat::calls_of(message);
    anthropic_message(
        protocol::or_else(protocol::loose_field(chat, "id"@), fresh_id),
        model,
        never_empty(
            said_blocks(chat::reasoning_of(message), protocol::opt_plain_text(message.get("content"@)))
                + call_blocks(calls, fresh, calls.len()),
        ),
        stop_reason(protocol::opt_loose(json::opt_get(chat::choice_of(chat), "finish_reason"@)), calls.len() > 0),
        anthropic_usage(chat.get("usage"@)),
    )
}

/// The Messages response of a chat response, with the identifiers that stand in
/// for missing ones given.
pub fn anthropic_from_chat_with(
    chat: &Json,
    model: &str,
    fresh: &Vec<String>,
    fresh_id: &str,
) -> (r: Json)
    ensures
        r@ == anthropic_of_chat(chat@, model@, protocol::texts(fresh@), fresh_id@),
{
    broadcast use json::group_json;

    let ghost ids = protocol::texts(fresh@);
    let choice = chat::read_choice(chat);
    let message = json::copy_or_null(json::get_in(choice, "message"));
    let finish = protocol::opt_string_value(json::get_in(choice, "finish_reason"));
    let reasoning = chat::read_reasoning(&message);
    let text = protocol::opt_content_text(message.get("content"));
    let mut content = make_said_blocks(reasoning.as_str(), text.as_str());
    let ghost head = json::models(content@);
    let mut has_tool = false;
    proof {
        assert(head + Seq::<Jv>::empty() =~= head);
    }
    if let Some(Json::Arr(calls)) = message.get("tool_calls") {
        let ghost want = json::models(calls@);
        let mut i: usize = 0;
        while i < calls.len()
            invariant
                i <= calls@.len(),
                want == json::models(calls@),
                ids == protocol::texts(fresh@),
                has_tool == (i > 0),
                json::models(content@) == head + call_blocks(want, ids, i as nat),
            decreases calls@.len() - i,
        {
            has_tool = true;
            let call = &calls[i];
            let id = protocol::or_text(protocol::string_field(call, "id"), protocol::string_at(fresh, i).as_str());
            let name = protocol::opt_string_value(json::get_in(call.get("function"), "name"));
            let raw = json::copy_or_null(json::get_in(call.get("function"), "arguments"));
            let input = parse_json_object(&raw);
            let block = make_tool_use_block(id.as_str(), name.as_str(), input);
            proof {
                json::models_push(content@, block);
                assert(json::models(content@.push(block)) =~= head + call_blocks(
                    want,
                    ids,
                    (i + 1) as nat,
                ));
            }
            content.push(block);
            i = i + 1;
        }
    }
    fill_if_empty(&mut content);
    let reason = read_stop_reason(finish.as_str(), has_tool);
    let id = protocol::or_text(protocol::string_field(chat, "id"), fresh_id);
    let usage = usage_to_anthropic(chat.get("usage"));
    make_anthropic_message(id.as_str(), model, content, reason, usage)
}

/// The Messages response of a chat response.
pub fn anthropic_from_chat(chat: &Json, model: &str) -> (r: Json)
    ensures
        exists|fresh: Seq<Seq<char>>, fresh_id: Seq<char>|
            #![trigger anthropic_of_chat(chat@, model@, fresh, fresh_id)]
            fresh.len() == chat::calls_of(chat::message_of(chat@)).len() && protocol::all_ids("toolu"@, fresh) && protocol::is_id(
                "msg"@,
                fresh_id,
            ) && r@ == anthropic_of_chat(chat@, model@, fresh, fresh_id),
{
    broadcast use json::group_json;

    let count = match json::get_in(json::get_in(chat::read_choice(chat), "message"), "tool_calls") {
        Some(Json::Arr(calls)) => calls.len(),
        _ => 0,
    };
    let fresh = protocol::random_ids("toolu", count);
    let fresh_id = protocol::random_id("msg");
    anthropic_from_chat_with(chat, model, &fresh, fresh_id.as_str())
}

/// The name of an error in the Messages protocol.
pub open spec fn error_kind(status: int) -> Seq<char> {
    if status == 400 {
        "invalid_request_error"@
    } else if status == 401 {
        "authentication_error"@
    } else if status == 403 {
        "permission_error"@
    } else if status == 404 {
        "not_found_error"@
    } else if status == 413 {
        "request_too_large"@
    } else if status == 429 {
        "rate_limit_error"@
    } else {
        "api_error"@
    }
}

/// The name of an error in the Messages protocol, by the status of the answer.
pub fn error_kind_for_status(status: u16) -> (r: &'static str)
    ensures
        r@ == error_kind(status as int),
{
    if status == 400 {
        "invalid_request_error"
    } else if status == 401 {
        "authentication_error"
    } else if status == 403 {
        "permission_error"
    } else if status == 404 {
        "not_found_error"
    } else if status == 413 {
        "request_too_large"
    } else if status == 429 {
        "rate_limit_error"
    } else {
        "api_error"
    }
}

/// The code of an error in the Responses protocol.
pub open spec fn error_code(status: int) -> Seq<char> {
    if status == 400 {
        "invalid_request_error"@
    } else if status == 401 {
        "authentication_error"@
    } else if status == 403 {
        "permission_error"@
    } else if status == 404 {
        "not_found_error"@
    } else if status == 429 {
        "rate_limit_error"@
    } else if 500 <= status <= 599 {
        "server_error"@
    } else {
        "api_error"@
    }
}

/// The code of an error in the Responses protocol, by the status of the answer.
pub fn responses_error_code(status: u16) -> (r: &'static str)
    ensures
        r@ == error_code(status as int),
{
    if status == 400 {
        "invalid_request_error"
    } else if status == 401 {
        "authentication_error"
    } else if status == 403 {
        "permission_error"
    } else if status == 404 {
        "not_found_error"
    } else if status == 429 {
        "rate_limit_error"
    } else if 500 <= status && status <= 599 {
        "server_error"
    } else {
        "api_error"
    }
}

} // verus!
