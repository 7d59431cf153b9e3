//! The Responses protocol and chat completions, in both directions.
//!
//! A Responses request lists items: messages, calls of tools and their results,
//! thinking. A chat request lists messages. Thinking that stands beside a turn
//! goes to every assistant message of that turn, and assistant messages that
//! follow each other become one. Fields that ask the server to remember a
//! conversation are refused.

use crate::json::{Json, Jv};
use crate::json;
use crate::protocol::chat;
use crate::protocol::tool_plan::{DeclV, PlanV, ToolDecl, ToolPlan};
use crate::protocol::tool_plan;
use crate::protocol;
use crate::text;
use vstd::prelude::*;
use vstd::string::*;

verus! {

// ---------------------------------------------------- request: to a chat body

/// The text of a refusal of a field that asks for memory.
pub open spec fn stateful_refusal(field: Seq<char>) -> Seq<char> {
    "字段 "@ + field + " 需要服务端保存对话状态，本网关是无状态转发，无法支持"@
}

/// The first field of a request that asks for memory, if any is set.
pub open spec fn stateful_field(body: Jv) -> Option<Seq<char>> {
    if json::if_truthy(body.get("previous_response_id"@)) is Some {
        Some("previous_response_id"@)
    } else if json::if_truthy(body.get("conversation"@)) is Some {
        Some("conversation"@)
    } else if json::if_truthy(body.get("prompt"@)) is Some {
        Some("prompt"@)
    } else if json::if_truthy(body.get("background"@)) is Some {
        Some("background"@)
    } else {
        None
    }
}

fn find_stateful(body: &Json) -> (r: Option<&'static str>)
    ensures
        json::opt_text(r) == stateful_field(body@),
{
    if json::truthy_in(body.get("previous_response_id")).is_some() {
        Some("previous_response_id")
    } else if json::truthy_in(body.get("conversation")).is_some() {
        Some("conversation")
    } else if json::truthy_in(body.get("prompt")).is_some() {
        Some("prompt")
    } else if json::truthy_in(body.get("background")).is_some() {
        Some("background")
    } else {
        None
    }
}

/// The identifier of a call: `call_id`, else `id`, else a fresh one.
pub open spec fn call_id(item: Jv, fresh: Seq<char>) -> Seq<char> {
    protocol::or_else(protocol::loose_field(item, "call_id"@), protocol::or_else(protocol::loose_field(item, "id"@), fresh))
}

pub(crate) fn call_id_of(item: &Json, fresh: &str) -> (r: String)
    ensures
        r@ == call_id(item@, fresh@),
{
    let inner = protocol::or_text(protocol::string_field(item, "id"), fresh);
    protocol::or_text(protocol::string_field(item, "call_id"), inner.as_str())
}

/// The text of a tool's output; an output without text is marked as empty.
pub open spec fn output_text(output: Option<Jv>) -> Seq<char> {
    protocol::or_else(protocol::opt_loose(output), "(empty)"@)
}

/// The text of a tool's output.
pub(crate) fn tool_output_text(output: Option<&Json>) -> (r: String)
    ensures
        r@ == output_text(json::opt_model(output)),
{
    protocol::or_text(protocol::opt_string_value(output), "(empty)")
}

/// The texts of the first `n` blocks, one per line; empty ones are left out.
pub open spec fn text_lines(parts: Seq<Jv>, n: nat) -> Seq<char>
    decreases n,
{
    if n == 0 {
        Seq::empty()
    } else {
        protocol::joined(text_lines(parts, (n - 1) as nat), "\n"@, protocol::loose_field(parts[n - 1], "text"@))
    }
}

/// The texts of a list of blocks, where there is any.
pub open spec fn block_lines(blocks: Option<Jv>) -> Option<Seq<char>> {
    match blocks {
        Some(Jv::Arr(parts)) => if text_lines(parts, parts.len()).len() == 0 {
            None
        } else {
            Some(text_lines(parts, parts.len()))
        },
        _ => None,
    }
}

fn text_blocks_of(blocks: Option<&Json>) -> (r: Option<String>)
    ensures
        json::opt_string(r) == block_lines(json::opt_model(blocks)),
{
    broadcast use json::group_json;

    match blocks {
        Some(Json::Arr(parts)) => {
            let mut out = String::new();
            let mut i: usize = 0;
            while i < parts.len()
                invariant
                    i <= parts@.len(),
                    out@ == text_lines(json::models(parts@), i as nat),
                decreases parts@.len() - i,
            {
                let piece = protocol::string_field(&parts[i], "text");
                out = protocol::join_with(out, "\n", piece.as_str());
                i = i + 1;
            }
            if out.as_str().is_empty() {
                None
            } else {
                Some(out)
            }
        },
        _ => None,
    }
}

/// The thinking that a message item carries: its summary alone.
pub open spec fn summary_text(item: Jv) -> Option<Seq<char>> {
    block_lines(item.get("summary"@))
}

fn summary_text_of(item: &Json) -> (r: Option<String>)
    ensures
        json::opt_string(r) == summary_text(item@),
{
    text_blocks_of(item.get("summary"))
}

/// The thinking of a reasoning item: its summary, else its content.
pub open spec fn reasoning_text(item: Jv) -> Option<Seq<char>> {
    match summary_text(item) {
        Some(s) => Some(s),
        None => block_lines(item.get("content"@)),
    }
}

fn reasoning_text_of(item: &Json) -> (r: Option<String>)
    ensures
        json::opt_string(r) == reasoning_text(item@),
{
    match summary_text_of(item) {
        Some(s) => Some(s),
        None => text_blocks_of(item.get("content")),
    }
}

/// The address in an image block: `image_url` is a text or holds a `url`.
pub open spec fn image_url(part: Jv) -> Seq<char> {
    let source = match part.get("image_url"@) {
        Some(v) => v,
        None => part,
    };
    match source {
        Jv::Str(s) => s,
        _ => protocol::loose_field(source, "url"@),
    }
}

/// The address in an image block.
pub(crate) fn image_url_of(part: &Json) -> (r: String)
    ensures
        r@ == image_url(part@),
{
    let source = match part.get("image_url") {
        Some(v) => v,
        None => part,
    };
    match source {
        Json::Str(s) => s.clone(),
        _ => protocol::string_field(source, "url"),
    }
}

/// One content block as a chat block.
pub open spec fn chat_block(part: Jv) -> Jv {
    let kind = text::lowercase(protocol::loose_field(part, "type"@));
    match part {
        Jv::Str(s) => chat::text_block(s),
        _ => if protocol::is_text_kind(kind) {
            chat::text_block(protocol::loose_field(part, "text"@))
        } else if kind == "input_image"@ || kind == "image_url"@ {
            chat::image_block(image_url(part))
        } else {
            part
        },
    }
}

/// Whether a content block is text.
pub open spec fn is_text_part(part: Jv) -> bool {
    part is Str || protocol::is_text_kind(text::lowercase(protocol::loose_field(part, "type"@)))
}

/// The first `n` content blocks as chat blocks.
pub open spec fn chat_blocks(parts: Seq<Jv>, n: nat) -> Seq<Jv>
    decreases n,
{
    if n == 0 {
        Seq::empty()
    } else {
        chat_blocks(parts, (n - 1) as nat).push(chat_block(parts[n - 1]))
    }
}

/// A content as a chat content: one text block alone becomes its text.
pub open spec fn chat_content(content: Jv) -> Jv {
    match content {
        Jv::Str(s) => Jv::Str(s),
        _ => {
            let parts = content.items();
            let blocks = chat_blocks(parts, parts.len());
            if parts.len() == 0 {
                Jv::Str(Seq::empty())
            } else if parts.len() == 1 && is_text_part(parts[0]) {
                Jv::Str(match parts[0] {
                    Jv::Str(s) => s,
                    _ => protocol::loose_field(parts[0], "text"@),
                })
            } else {
                Jv::Arr(blocks)
            }
        },
    }
}

fn block_to_chat(part: &Json) -> (r: Json)
    ensures
        r@ == chat_block(part@),
{
    if let Json::Str(s) = part {
        return chat::make_text_block(s.as_str());
    }
    let kind = text::lower(protocol::string_field(part, "type").as_str());
    if text::same(kind.as_str(), "text") || text::same(kind.as_str(), "input_text") || text::same(
        kind.as_str(),
        "output_text",
    ) {
        chat::make_text_block(protocol::string_field(part, "text").as_str())
    } else if text::same(kind.as_str(), "input_image") || text::same(kind.as_str(), "image_url") {
        chat::make_image_block(image_url_of(part).as_str())
    } else {
        part.copy()
    }
}

fn part_is_text(part: &Json) -> (r: bool)
    ensures
        r == is_text_part(part@),
{
    if let Json::Str(_) = part {
        return true;
    }
    let kind = text::lower(protocol::string_field(part, "type").as_str());
    text::same(kind.as_str(), "text") || text::same(kind.as_str(), "input_text") || text::same(
        kind.as_str(),
        "output_text",
    )
}

fn content_to_chat(content: &Json) -> (r: Json)
    ensures
        r@ == chat_content(content@),
{
    broadcast use json::group_json;

    if let Json::Str(s) = content {
        return Json::Str(s.clone());
    }
    let parts = protocol::content_parts(content);
    if parts.len() == 0 {
        return Json::Str(String::new());
    }
    if parts.len() == 1 && part_is_text(&parts[0]) {
        return Json::Str(
            match &parts[0] {
                Json::Str(s) => s.clone(),
                part => protocol::string_field(part, "text"),
            },
        );
    }
    let mut out: Vec<Json> = Vec::new();
    let mut i: usize = 0;
    while i < parts.len()
        invariant
            i <= parts@.len(),
            json::models(out@) == chat_blocks(json::models(parts@), i as nat),
        decreases parts@.len() - i,
    {
        let block = block_to_chat(&parts[i]);
        proof {
            json::models_push(out@, block);
        }
        out.push(block);
        i = i + 1;
    }
    Json::Arr(out)
}

/// Whether a content holds a block that is no text.
pub open spec fn is_structured(content: Jv) -> bool {
    exists|i: int|
        0 <= i < content.items().len() && {
            let kind = text::lowercase(protocol::loose_field(#[trigger] content.items()[i], "type"@));
            kind.len() > 0 && !protocol::is_text_kind(kind)
        }
}

fn content_is_structured(content: &Json) -> (r: bool)
    ensures
        r == is_structured(content@),
{
    let parts = protocol::content_parts(content);
    let ghost want = content@.items();
    let mut i: usize = 0;
    while i < parts.len()
        invariant
            i <= parts@.len(),
            want == json::models(parts@),
            want == content@.items(),
            forall|k: int|
                0 <= k < i ==> {
                    let kind = text::lowercase(protocol::loose_field(#[trigger] want[k], "type"@));
                    kind.len() == 0 || protocol::is_text_kind(kind)
                },
        decreases parts@.len() - i,
    {
        let kind = text::lower(protocol::string_field(&parts[i], "type").as_str());
        if !(kind.as_str().is_empty() || text::same(kind.as_str(), "text") || text::same(
            kind.as_str(),
            "input_text",
        ) || text::same(kind.as_str(), "output_text")) {
            proof {
                assert(want[i as int] == json::model(parts@[i as int]));
            }
            return true;
        }
        i = i + 1;
    }
    false
}

/// The messages so far and the thinking that waits for its turn's messages.
/// `attached` says that a message has it already.
#[verifier::ext_equal]
pub struct InputV {
    pub messages: Seq<Jv>,
    pub pending: Option<Seq<char>>,
    pub attached: bool,
}

/// More thinking: it replaces what belonged to an earlier turn and is added to
/// what still waits.
pub open spec fn stashed(st: InputV, text: Seq<char>) -> InputV {
    InputV {
        pending: match st.pending {
            Some(old) => if st.attached {
                Some(text)
            } else {
                Some(old + "\n"@ + text)
            },
            None => Some(text),
        },
        attached: false,
        ..st
    }
}

/// The end of a turn: the thinking that waited is dropped.
pub open spec fn turn_ended(st: InputV) -> InputV {
    InputV { pending: None, attached: false, ..st }
}

/// A text that may be missing as a value.
pub open spec fn str_opt(s: Option<Seq<char>>) -> Option<Jv> {
    match s {
        Some(t) => Some(Jv::Str(t)),
        None => None,
    }
}

/// An assistant message that calls one tool.
pub open spec fn call_message(
    id: Seq<char>,
    name: Seq<char>,
    arguments: Seq<char>,
    reasoning: Option<Seq<char>>,
) -> Jv {
    chat::plain_message("assistant"@, Jv::Null).put(
        "tool_calls"@,
        Jv::Arr(seq![chat::chat_call(id, name, arguments)]),
    ).put_some("reasoning_content"@, str_opt(reasoning))
}

fn tool_call_message(id: &str, name: &str, arguments: &str, reasoning: Option<String>) -> (r: Json)
    ensures
        r@ == call_message(id@, name@, arguments@, json::opt_string(reasoning)),
{
    broadcast use json::group_json;

    let mut calls: Vec<Json> = Vec::new();
    calls.push(chat::make_chat_call(id, name, arguments));
    proof {
        assert(json::models(calls@) =~= seq![chat::chat_call(id@, name@, arguments@)]);
    }
    let mut message = chat::make_message("assistant", Json::Null);
    message.put("tool_calls", Json::Arr(calls));
    if let Some(text) = reasoning {
        message.put("reasoning_content", Json::Str(text));
    }
    message
}

/// One more message; thinking that waits counts as attached where `took` is set.
pub open spec fn said(st: InputV, message: Jv, took: bool) -> InputV {
    InputV {
        messages: st.messages.push(message),
        attached: st.attached || (took && st.pending is Some),
        ..st
    }
}

/// The message of a tool's output.
pub open spec fn output_message(item: Jv, fresh: Seq<char>) -> Jv {
    Jv::obj().put("role"@, Jv::Str("tool"@)).put("tool_call_id"@, Jv::Str(call_id(item, fresh))).put(
        "content"@,
        Jv::Str(output_text(item.get("output"@))),
    )
}

/// The role of a message item: `developer` is `system`, and `user` is the default.
pub open spec fn item_role(item: Jv) -> Seq<char> {
    let raw = text::lowercase(protocol::loose_field(item, "role"@));
    if raw == "developer"@ {
        "system"@
    } else if raw.len() == 0 {
        "user"@
    } else {
        raw
    }
}

/// A message item. An assistant message without content says nothing; any other
/// message but a tool's ends the turn.
pub open spec fn message_item(st: InputV, item: Jv) -> InputV {
    let role = item_role(item);
    let raw = match item.get("content"@) {
        Some(c) => Some(c),
        None => item.get("text"@),
    };
    match raw {
        None => st,
        Some(c) => {
            let content = chat_content(c);
            if role == "assistant"@ {
                if protocol::plain_text(content).len() == 0 && !is_structured(content) {
                    st
                } else {
                    match summary_text(item) {
                        Some(s) => said(
                            st,
                            chat::plain_message(role, content).put("reasoning_content"@, Jv::Str(s)),
                            false,
                        ),
                        None => said(
                            st,
                            chat::plain_message(role, content).put_some(
                                "reasoning_content"@,
                                str_opt(st.pending),
                            ),
                            true,
                        ),
                    }
                }
            } else if role == "tool"@ {
                said(st, chat::plain_message(role, content), false)
            } else {
                said(turn_ended(st), chat::plain_message(role, content), false)
            }
        },
    }
}

/// One input item. `fresh` stands in for a missing identifier of a call, and
/// `name` is the name under which the upstream knows the tool that it calls.
pub open spec fn input_item(st: InputV, item: Jv, fresh: Seq<char>, name: Seq<char>) -> InputV {
    let kind = text::lowercase(protocol::loose_field(item, "type"@));
    if kind == "function_call"@ {
        said(
            st,
            call_message(
                call_id(item, fresh),
                name,
                protocol::or_else(protocol::opt_loose(item.get("arguments"@)), "{}"@),
                st.pending,
            ),
            true,
        )
    } else if kind == "function_call_output"@ || kind == "custom_tool_call_output"@ {
        said(st, output_message(item, fresh), false)
    } else if kind == "custom_tool_call"@ {
        said(
            st,
            call_message(
                call_id(item, fresh),
                name,
                tool_plan::wrapped_input(
                    protocol::or_else(protocol::loose_field(item, "input"@), protocol::opt_loose(item.get("arguments"@))),
                ),
                st.pending,
            ),
            true,
        )
    } else if kind == "reasoning"@ {
        match reasoning_text(item) {
            Some(text) => stashed(st, text),
            None => st,
        }
    } else if kind == "input_text"@ || kind == "text"@ {
        turn_ended(
            said(st, chat::plain_message("user"@, Jv::Str(protocol::loose_field(item, "text"@))), false),
        )
    } else if kind == "input_image"@ || kind == "input_file"@ || kind == "image_url"@ {
        turn_ended(said(st, chat::plain_message("user"@, Jv::Arr(seq![item])), false))
    } else if kind == "additional_tools"@ {
        st
    } else {
        message_item(st, item)
    }
}

/// Thinking that waits for the messages of its turn.
struct PendingReasoning {
    text: Option<String>,
    attached: bool,
}

impl PendingReasoning {
    fn stash(&mut self, text: String)
        ensures
            forall|m: Seq<Jv>|
                #![auto]
                (InputV {
                    messages: m,
                    pending: json::opt_string(final(self).text),
                    attached: final(self).attached,
                }) == stashed(
                    InputV {
                        messages: m,
                        pending: json::opt_string(old(self).text),
                        attached: old(self).attached,
                    },
                    text@,
                ),
    {
        let joined_text = match &self.text {
            Some(old) => if self.attached {
                text
            } else {
                text::join3(old.as_str(), "\n", text.as_str())
            },
            None => text,
        };
        self.text = Some(joined_text);
        self.attached = false;
    }

    fn attach(&mut self) -> (r: Option<String>)
        ensures
            json::opt_string(r) == json::opt_string(old(self).text),
            json::opt_string(final(self).text) == json::opt_string(old(self).text),
            final(self).attached == (old(self).attached || old(self).text is Some),
    {
        match &self.text {
            Some(text) => {
                let out = text.clone();
                self.attached = true;
                Some(out)
            },
            None => None,
        }
    }

    fn end_turn(&mut self)
        ensures
            final(self).text is None,
            !final(self).attached,
    {
        self.text = None;
        self.attached = false;
    }
}

/// The state of a list of messages and the thinking that waits.
spec fn input_view(messages: Seq<Json>, pending: PendingReasoning) -> InputV {
    InputV {
        messages: json::models(messages),
        pending: json::opt_string(pending.text),
        attached: pending.attached,
    }
}

fn push_message_item(messages: &mut Vec<Json>, item: &Json, pending: &mut PendingReasoning)
    ensures
        input_view(final(messages)@, *final(pending)) == message_item(
            input_view(old(messages)@, *old(pending)),
            item@,
        ),
{
    broadcast use json::group_json;

    let raw_role = text::lower(protocol::string_field(item, "role").as_str());
    let role = if text::same(raw_role.as_str(), "developer") {
        "system".to_owned()
    } else {
        protocol::or_text(raw_role, "user")
    };
    let raw = match item.get("content") {
        Some(c) => Some(c),
        None => item.get("text"),
    };
    let content = match raw {
        Some(c) => content_to_chat(c),
        None => {
            return ;
        },
    };
    if text::same(role.as_str(), "assistant") {
        if protocol::content_text(&content).as_str().is_empty() && !content_is_structured(&content) {
            return ;
        }
        let mut message = chat::make_message(role.as_str(), content);
        let reasoning = match summary_text_of(item) {
            Some(s) => Some(s),
            None => pending.attach(),
        };
        if let Some(text) = reasoning {
            message.put("reasoning_content", Json::Str(text));
        }
        messages.push(message);
        return ;
    }
    if !text::same(role.as_str(), "tool") {
        pending.end_turn();
    }
    messages.push(chat::make_message(role.as_str(), content));
}

fn push_input_item(
    messages: &mut Vec<Json>,
    item: &Json,
    pending: &mut PendingReasoning,
    fresh: &str,
    name: &str,
)
    ensures
        input_view(final(messages)@, *final(pending)) == input_item(
            input_view(old(messages)@, *old(pending)),
            item@,
            fresh@,
            name@,
        ),
{
    broadcast use json::group_json;

    let kind = text::lower(protocol::string_field(item, "type").as_str());
    let kind = kind.as_str();
    if text::same(kind, "function_call") {
        let id = call_id_of(item, fresh);
        let arguments = protocol::or_text(protocol::opt_string_value(item.get("arguments")), "{}");
        let reasoning = pending.attach();
        messages.push(tool_call_message(id.as_str(), name, arguments.as_str(), reasoning));
    } else if text::same(kind, "function_call_output") || text::same(kind, "custom_tool_call_output") {
        let id = call_id_of(item, fresh);
        let output = tool_output_text(item.get("output"));
        messages.push(
            Json::obj().with("role", Json::str("tool")).with("tool_call_id", Json::Str(id)).with(
                "content",
                Json::Str(output),
            ),
        );
    } else if text::same(kind, "custom_tool_call") {
        let id = call_id_of(item, fresh);
        let raw = protocol::or_text(
            protocol::string_field(item, "input"),
            protocol::opt_string_value(item.get("arguments")).as_str(),
        );
        let arguments = tool_plan::wrap_freeform_input(raw.as_str());
        let reasoning = pending.attach();
        messages.push(tool_call_message(id.as_str(), name, arguments.as_str(), reasoning));
    } else if text::same(kind, "reasoning") {
        if let Some(text) = reasoning_text_of(item) {
            pending.stash(text);
            proof {
                assert(input_view(messages@, *pending) == stashed(
                    input_view(old(messages)@, *old(pending)),
                    reasoning_text(item@)->0,
                ));
            }
        }
    } else if text::same(kind, "input_text") || text::same(kind, "text") {
        messages.push(chat::make_message("user", Json::Str(protocol::string_field(item, "text"))));
        pending.end_turn();
    } else if text::same(kind, "input_image") || text::same(kind, "input_file") || text::same(kind, "image_url") {
        let mut one: Vec<Json> = Vec::new();
        one.push(item.copy());
        proof {
            assert(json::models(one@) =~= seq![item@]);
        }
        messages.push(chat::make_message("user", Json::Arr(one)));
        pending.end_turn();
    } else if text::same(kind, "additional_tools") {
    } else {
        push_message_item(messages, item, pending);
    }
}

/// Whether an item calls a tool.
pub open spec fn calls_tool(item: Jv) -> bool {
    let kind = text::lowercase(protocol::loose_field(item, "type"@));
    kind == "function_call"@ || kind == "custom_tool_call"@
}

/// Thinking stays with its turn. Each assistant message of the turn carries the thinking
/// that waits, unless it has thinking of its own, and the thinking goes on waiting for the
/// next one. A tool's message leaves it waiting too; any other message ends the turn, and
/// the thinking is dropped.
pub proof fn thinking_stays_with_its_turn(
    st: InputV,
    item: Jv,
    fresh: Seq<char>,
    name: Seq<char>,
)
    requires
        input_item(st, item, fresh, name).messages.len() > st.messages.len(),
    ensures
        ({
            let after = input_item(st, item, fresh, name);
            let message = after.messages.last();
            let role = json::opt_str(message.get("role"@));
            &&& after.messages == st.messages.push(message)
            &&& role == Some("assistant"@) ==> after.pending == st.pending
            &&& role == Some("assistant"@) && (calls_tool(item) || summary_text(item) is None)
                ==> message.get("reasoning_content"@) == str_opt(st.pending)
            &&& role == Some("assistant"@) && !calls_tool(item) && summary_text(item) is Some
                ==> message.get("reasoning_content"@) == str_opt(summary_text(item))
            &&& role == Some("tool"@) ==> after.pending == st.pending
            &&& role != Some("assistant"@) && role != Some("tool"@) ==> after.pending is None
        }),
{
    reveal_strlit("role");
    reveal_strlit("content");
    reveal_strlit("tool_calls");
    reveal_strlit("tool_call_id");
    reveal_strlit("reasoning_content");
    reveal_strlit("assistant");
    reveal_strlit("tool");
    reveal_strlit("user");
    assert("role"@.len() == 4 && "content"@.len() == 7 && "tool_calls"@.len() == 10);
    assert("reasoning_content"@.len() == 17 && "tool_call_id"@.len() == 12);
    assert("assistant"@.len() == 9 && "tool"@[0] == 't' && "user"@[0] == 'u');
    let after = input_item(st, item, fresh, name);
    assert(after.messages =~= st.messages.push(after.messages.last()));
}

/// The state after the first `n` items of a list; an item that is a text is a user
/// message.
pub open spec fn input_items(
    st: InputV,
    items: Seq<Jv>,
    fresh: Seq<Seq<char>>,
    names: Seq<Seq<char>>,
    n: nat,
) -> InputV
    decreases n,
{
    if n == 0 {
        st
    } else {
        let before = input_items(st, items, fresh, names, (n - 1) as nat);
        match items[n - 1] {
            Jv::Str(s) => turn_ended(said(before, chat::plain_message("user"@, Jv::Str(s)), false)),
            item => input_item(before, item, protocol::text_at(fresh, n - 1), protocol::text_at(names, n - 1)),
        }
    }
}

/// Whether a message is the assistant's.
pub open spec fn is_assistant(message: Jv) -> bool {
    json::opt_str(message.get("role"@)) == Some("assistant"@)
}

/// Two assistant messages as one: texts one under the other, all calls, and the
/// thinking that came first.
pub open spec fn merged(a: Jv, b: Jv) -> Jv {
    let text = protocol::joined(protocol::opt_plain_text(a.get("content"@)), "\n"@, protocol::opt_plain_text(b.get("content"@)));
    let m1 = if text.len() > 0 {
        a.put("content"@, Jv::Str(text))
    } else if a.get("content"@) is None {
        a.put("content"@, Jv::Null)
    } else {
        a
    };
    let calls = chat::calls_of(b);
    let m2 = if calls.len() == 0 {
        m1
    } else {
        match m1.get("tool_calls"@) {
            Some(Jv::Arr(old)) => m1.put("tool_calls"@, Jv::Arr(old + calls)),
            _ => m1.put("tool_calls"@, Jv::Arr(calls)),
        }
    };
    if m2.get("reasoning_content"@) is None {
        m2.put_some("reasoning_content"@, b.get("reasoning_content"@))
    } else {
        m2
    }
}

fn merge_assistant_fields(previous: Json, incoming: &Json) -> (r: Json)
    ensures
        r@ == merged(previous@, incoming@),
{
    broadcast use json::group_json;

    let mut out = previous;
    let a = protocol::opt_content_text(out.get("content"));
    let b = protocol::opt_content_text(incoming.get("content"));
    let text = protocol::join_with(a, "\n", b.as_str());
    if !text.as_str().is_empty() {
        out.put("content", Json::Str(text));
    } else if out.get("content").is_none() {
        out.put("content", Json::Null);
    }
    if let Some(Json::Arr(calls)) = incoming.get("tool_calls") {
        if calls.len() > 0 {
            let mut more = json::copy_all(calls);
            let all = match out.get("tool_calls") {
                Some(Json::Arr(old_calls)) => {
                    let mut list = json::copy_all(old_calls);
                    proof {
                        assert(json::models(list@ + more@) =~= json::models(list@) + json::models(more@));
                    }
                    list.append(&mut more);
                    list
                },
                _ => more,
            };
            out.put("tool_calls", Json::Arr(all));
        }
    }
    if out.get("reasoning_content").is_none() {
        out.put_some("reasoning_content", incoming.get("reasoning_content"));
    }
    out
}

/// The first `n` messages with neighbouring assistant messages merged.
pub open spec fn merged_messages(messages: Seq<Jv>, n: nat) -> Seq<Jv>
    decreases n,
{
    if n == 0 {
        Seq::empty()
    } else {
        let out = merged_messages(messages, (n - 1) as nat);
        let message = messages[n - 1];
        if is_assistant(message) && out.len() > 0 && is_assistant(out.last()) {
            out.drop_last().push(merged(out.last(), message))
        } else {
            out.push(message)
        }
    }
}

/// Whether no assistant message directly follows another.
pub open spec fn no_neighbours(messages: Seq<Jv>) -> bool {
    forall|i: int|
        0 <= i < messages.len() - 1 ==> !(is_assistant(#[trigger] messages[i]) && is_assistant(
            messages[i + 1],
        ))
}

/// Merging leaves no two neighbouring assistant messages.
pub proof fn merged_messages_have_no_neighbours(messages: Seq<Jv>, n: nat)
    ensures
        no_neighbours(merged_messages(messages, n)),
    decreases n,
{
    if n > 0 {
        merged_messages_have_no_neighbours(messages, (n - 1) as nat);
        let out = merged_messages(messages, (n - 1) as nat);
        let message = messages[n - 1];
        let all = merged_messages(messages, n);
        if is_assistant(message) && out.len() > 0 && is_assistant(out.last()) {
            merged_is_assistant(out.last(), message);
            assert forall|i: int| 0 <= i < all.len() - 1 implies !(is_assistant(
                #[trigger] all[i],
            ) && is_assistant(all[i + 1])) by {
                assert(all[i] == out[i]);
                assert(is_assistant(out[i + 1]) == is_assistant(all[i + 1]));
            }
        } else {
            assert forall|i: int| 0 <= i < all.len() - 1 implies !(is_assistant(
                #[trigger] all[i],
            ) && is_assistant(all[i + 1])) by {
                assert(all[i] == out[i]);
                if i + 1 < out.len() {
                    assert(all[i + 1] == out[i + 1]);
                }
            }
        }
    }
}

/// A merged message is the assistant's, as its two parts are.
pub proof fn merged_is_assistant(a: Jv, b: Jv)
    requires
        is_assistant(a),
    ensures
        is_assistant(merged(a, b)),
{
    reveal_strlit("role");
    reveal_strlit("content");
    reveal_strlit("tool_calls");
    reveal_strlit("reasoning_content");
    assert("role"@.len() == 4 && "content"@.len() == 7 && "tool_calls"@.len() == 10
        && "reasoning_content"@.len() == 17);
}

fn merge_successive_assistants(messages: Vec<Json>) -> (r: Vec<Json>)
    ensures
        json::models(r@) == merged_messages(json::models(messages@), messages@.len()),
{
    let ghost want = json::models(messages@);
    let mut out: Vec<Json> = Vec::new();
    proof {
        assert(json::models(out@) =~= Seq::empty());
    }
    let mut i: usize = 0;
    while i < messages.len()
        invariant
            i <= messages@.len(),
            want == json::models(messages@),
            json::models(out@) == merged_messages(want, i as nat),
        decreases messages@.len() - i,
    {
        let message = &messages[i];
        let here = has_assistant_role(message);
        let before = out.len() > 0 && has_assistant_role(&out[out.len() - 1]);
        proof {
            assert(want[i as int] == message@);
            if out@.len() > 0 {
                assert(json::models(out@).last() == out@.last()@);
            }
        }
        if here && before {
            let ghost list = out@;
            if let Some(previous) = out.pop() {
                let one = merge_assistant_fields(previous, message);
                proof {
                    assert(json::models(list.drop_last()) =~= json::models(list).drop_last());
                    json::models_push(out@, one);
                    assert(out@ =~= list.drop_last());
                }
                out.push(one);
            }
        } else {
            let one = message.copy();
            proof {
                json::models_push(out@, one);
            }
            out.push(one);
        }
        i = i + 1;
    }
    out
}

fn has_assistant_role(message: &Json) -> (r: bool)
    ensures
        r == is_assistant(message@),
{
    match message.get("role") {
        Some(Json::Str(s)) => text::same(s.as_str(), "assistant"),
        _ => false,
    }
}

/// The system message of a request, where its instructions are not blank.
pub open spec fn instructions_message(instructions: Option<Jv>) -> Seq<Jv> {
    match instructions {
        Some(Jv::Str(s)) => if text::blank(s) {
            Seq::empty()
        } else {
            seq![chat::plain_message("system"@, Jv::Str(s))]
        },
        _ => Seq::empty(),
    }
}

/// The chat messages of a request: its instructions and its input, which is a
/// text, an item or a list of items.
pub open spec fn messages_of(
    instructions: Option<Jv>,
    input: Option<Jv>,
    fresh: Seq<Seq<char>>,
    names: Seq<Seq<char>>,
) -> Seq<Jv> {
    let head = instructions_message(instructions);
    let st = InputV { messages: head, pending: None, attached: false };
    match input {
        Some(Jv::Str(s)) => head.push(chat::plain_message("user"@, Jv::Str(s))),
        Some(Jv::Obj(m)) => {
            let all = input_item(st, Jv::Obj(m), protocol::text_at(fresh, 0), protocol::text_at(names, 0)).messages;
            merged_messages(all, all.len())
        },
        Some(Jv::Arr(items)) => {
            let all = input_items(st, items, fresh, names, items.len()).messages;
            merged_messages(all, all.len())
        },
        _ => head,
    }
}

/// However the input of a request looks, no assistant message of the chat request
/// directly follows another.
pub proof fn messages_have_no_neighbours(
    instructions: Option<Jv>,
    input: Option<Jv>,
    fresh: Seq<Seq<char>>,
    names: Seq<Seq<char>>,
)
    ensures
        no_neighbours(messages_of(instructions, input, fresh, names)),
{
    let head = instructions_message(instructions);
    let st = InputV { messages: head, pending: None, attached: false };
    reveal_strlit("role");
    reveal_strlit("content");
    reveal_strlit("user");
    reveal_strlit("assistant");
    assert("role"@.len() == 4 && "content"@.len() == 7 && "user"@.len() == 4 && "assistant"@.len()
        == 9);
    match input {
        Some(Jv::Obj(m)) => {
            let all = input_item(st, Jv::Obj(m), protocol::text_at(fresh, 0), protocol::text_at(names, 0)).messages;
            merged_messages_have_no_neighbours(all, all.len());
        },
        Some(Jv::Arr(items)) => {
            let all = input_items(st, items, fresh, names, items.len()).messages;
            merged_messages_have_no_neighbours(all, all.len());
        },
        Some(Jv::Str(s)) => {
            assert(!is_assistant(chat::plain_message("user"@, Jv::Str(s))));
        },
        _ => {},
    }
}

fn messages_from_input(
    instructions: Option<&Json>,
    input: Option<&Json>,
    fresh: &Vec<String>,
    names: &Vec<String>,
) -> (r: Vec<Json>)
    ensures
        json::models(r@) == messages_of(
            json::opt_model(instructions),
            json::opt_model(input),
            protocol::texts(fresh@),
            protocol::texts(names@),
        ),
{
    broadcast use json::group_json;

    let ghost ids = protocol::texts(fresh@);
    let ghost flat = protocol::texts(names@);
    let mut messages: Vec<Json> = Vec::new();
    if let Some(Json::Str(text)) = instructions {
        if !text::trim(text.as_str()).as_str().is_empty() {
            messages.push(chat::make_message("system", Json::Str(text.clone())));
        }
    }
    let ghost head = instructions_message(json::opt_model(instructions));
    proof {
        assert(json::models(messages@) =~= head);
    }
    let given = match input {
        Some(v) => v,
        None => {
            return messages;
        },
    };
    let mut pending = PendingReasoning { text: None, attached: false };
    match given {
        Json::Str(text) => {
            messages.push(chat::make_message("user", Json::Str(text.clone())));
            messages
        },
        Json::Obj(_) => {
            let id = protocol::string_at(fresh, 0);
            let name = protocol::string_at(names, 0);
            push_input_item(&mut messages, given, &mut pending, id.as_str(), name.as_str());
            merge_successive_assistants(messages)
        },
        Json::Arr(items) => {
            let ghost want = json::models(items@);
            let ghost st = InputV { messages: head, pending: None, attached: false };
            let mut i: usize = 0;
            while i < items.len()
                invariant
                    i <= items@.len(),
                    want == json::models(items@),
                    ids == protocol::texts(fresh@),
                    flat == protocol::texts(names@),
                    input_view(messages@, pending) == input_items(st, want, ids, flat, i as nat),
                decreases items@.len() - i,
            {
                proof {
                    assert(want[i as int] == json::model(items@[i as int]));
                }
                if let Json::Str(text) = &items[i] {
                    let one = chat::make_message("user", Json::Str(text.clone()));
                    proof {
                        json::models_push(messages@, one);
                    }
                    messages.push(one);
                    pending.end_turn();
                } else {
                    let id = protocol::string_at(fresh, i);
                    let name = protocol::string_at(names, i);
                    push_input_item(
                        &mut messages,
                        &items[i],
                        &mut pending,
                        id.as_str(),
                        name.as_str(),
                    );
                }
                i = i + 1;
            }
            merge_successive_assistants(messages)
        },
        _ => messages,
    }
}

/// What a declared tool becomes in a chat request, if anything. A bare name is no
/// function, one in the chat form stays as it is, and one of another kind is
/// replaced by the function that stands in for it.
pub open spec fn planned_tool(d: DeclV) -> Option<Jv> {
    let kind = text::lowercase(protocol::loose_field(d.tool, "type"@));
    let direct = if d.tool is Str {
        None
    } else if d.nested {
        Some(d.tool)
    } else if kind != "function"@ && kind.len() > 0 {
        None
    } else {
        d.flat
    };
    match direct {
        Some(v) => Some(v),
        None => d.downgraded,
    }
}

fn tool_to_chat(d: &ToolDecl) -> (r: Option<Json>)
    ensures
        json::opt_owned(r) == planned_tool(d@),
{
    let direct = if let Json::Str(_) = &d.tool {
        None
    } else if d.nested {
        Some(d.tool.copy())
    } else {
        let kind = text::lower(protocol::string_field(&d.tool, "type").as_str());
        if !text::same(kind.as_str(), "function") && !kind.as_str().is_empty() {
            None
        } else {
            json::copy_opt(&d.flat)
        }
    };
    match direct {
        Some(v) => Some(v),
        None => json::copy_opt(&d.downgraded),
    }
}

/// What the first `n` declared tools become in a chat request.
pub open spec fn planned_tools(list: Seq<DeclV>, n: nat) -> Seq<Jv>
    decreases n,
{
    if n == 0 {
        Seq::empty()
    } else {
        let before = planned_tools(list, (n - 1) as nat);
        match planned_tool(list[n - 1]) {
            Some(v) => before.push(v),
            None => before,
        }
    }
}

fn tools_to_chat(plan: &ToolPlan) -> (r: Vec<Json>)
    ensures
        json::models(r@) == planned_tools(plan@.declarations, plan@.declarations.len()),
{
    let ghost want = plan@.declarations;
    let mut out: Vec<Json> = Vec::new();
    proof {
        assert(json::models(out@) =~= Seq::empty());
    }
    let mut i: usize = 0;
    while i < plan.declarations.len()
        invariant
            i <= plan.declarations@.len(),
            want == plan@.declarations,
            json::models(out@) == planned_tools(want, i as nat),
        decreases plan.declarations@.len() - i,
    {
        proof {
            assert(want[i as int] == plan.declarations@[i as int]@);
        }
        if let Some(v) = tool_to_chat(&plan.declarations[i]) {
            proof {
                json::models_push(out@, v);
            }
            out.push(v);
        }
        i = i + 1;
    }
    out
}

/// The tool choice of a chat request: a named function in its nested form.
pub open spec fn choice_to_chat(choice: Jv) -> Jv {
    match choice {
        Jv::Str(s) => Jv::Str(s),
        _ => {
            let name = protocol::or_else(
                protocol::or_else(protocol::loose_field(choice, "name"@), protocol::loose_field(choice, "function.name"@)),
                protocol::opt_loose(json::opt_get(choice.get("function"@), "name"@)),
            );
            if name.len() > 0 {
                chat::function_choice(name)
            } else {
                choice
            }
        },
    }
}

fn tool_choice_to_chat(choice: &Json) -> (r: Json)
    ensures
        r@ == choice_to_chat(choice@),
{
    if let Json::Str(s) = choice {
        return Json::Str(s.clone());
    }
    let name = protocol::or_text(
        protocol::or_text(
            protocol::string_field(choice, "name"),
            protocol::string_field(choice, "function.name").as_str(),
        ),
        protocol::opt_string_value(json::get_in(choice.get("function"), "name")).as_str(),
    );
    if !name.as_str().is_empty() {
        return chat::make_function_choice(name.as_str());
    }
    choice.copy()
}

/// The `response_format` of a chat request: a schema goes into a member of its own.
pub open spec fn format_of(format: Jv) -> Jv {
    if protocol::loose_field(format, "type"@) != "json_schema"@ {
        format
    } else {
        Jv::obj().put("type"@, Jv::Str("json_schema"@)).put(
            "json_schema"@,
            Jv::obj().put_some("name"@, json::if_truthy(format.get("name"@))).put_some(
                "description"@,
                json::if_truthy(format.get("description"@)),
            ).put_some("schema"@, json::if_truthy(format.get("schema"@))).put_some(
                "strict"@,
                json::if_truthy(format.get("strict"@)),
            ),
        )
    }
}

fn format_to_chat(format: &Json) -> (r: Json)
    ensures
        r@ == format_of(format@),
{
    if !text::same(protocol::string_field(format, "type").as_str(), "json_schema") {
        return format.copy();
    }
    let mut inner = Json::obj();
    inner.put_some("name", json::truthy_in(format.get("name")));
    inner.put_some("description", json::truthy_in(format.get("description")));
    inner.put_some("schema", json::truthy_in(format.get("schema")));
    inner.put_some("strict", json::truthy_in(format.get("strict")));
    Json::obj().with("type", Json::str("json_schema")).with("json_schema", inner)
}

/// A value whose text is not blank.
pub open spec fn if_not_blank(j: Option<Jv>) -> Option<Jv> {
    match j {
        Some(v) => if text::blank(protocol::loose(v)) {
            None
        } else {
            Some(v)
        },
        None => None,
    }
}

/// The chat request of a Responses request. `plan` holds what its tools become;
/// `fresh` and `names` hold, for each item, the identifier that stands in for a
/// missing one and the name under which the upstream knows the tool that it calls.
pub open spec fn chat_of_responses(
    body: Jv,
    plan: PlanV,
    fresh: Seq<Seq<char>>,
    names: Seq<Seq<char>>,
) -> Result<Jv, Seq<char>> {
    match stateful_field(body) {
        Some(field) => Err(stateful_refusal(field)),
        None => {
            let tools = planned_tools(plan.declarations, plan.declarations.len());
            Ok(
                Jv::obj().put("model"@, body.field("model"@)).put(
                    "messages"@,
                    Jv::Arr(
                        messages_of(body.get("instructions"@), body.get("input"@), fresh, names),
                    ),
                ).put("stream"@, Jv::Bool(chat::flag(body, "stream"@))).put_some(
                    "max_completion_tokens"@,
                    json::if_truthy(body.get("max_output_tokens"@)),
                ).put_some("temperature"@, json::if_not_null(body.get("temperature"@))).put_some(
                    "top_p"@,
                    json::if_not_null(body.get("top_p"@)),
                ).put_some("service_tier"@, json::if_not_null(body.get("service_tier"@))).put_some(
                    "parallel_tool_calls"@,
                    json::if_not_null(body.get("parallel_tool_calls"@)),
                ).put_some("user"@, json::if_not_null(body.get("user"@))).put_some(
                    "metadata"@,
                    json::if_not_null(body.get("metadata"@)),
                ).put_some(
                    "tools"@,
                    if tools.len() > 0 {
                        Some(Jv::Arr(tools))
                    } else {
                        None
                    },
                ).put_some(
                    "tool_choice"@,
                    match json::if_truthy(body.get("tool_choice"@)) {
                        Some(choice) => Some(choice_to_chat(choice)),
                        None => None,
                    },
                ).put_some(
                    "response_format"@,
                    match json::if_truthy(json::opt_get(body.get("text"@), "format"@)) {
                        Some(format) => Some(format_of(format)),
                        None => None,
                    },
                ).put_some(
                    "reasoning_effort"@,
                    if_not_blank(json::opt_get(body.get("reasoning"@), "effort"@)),
                ),
            )
        },
    }
}

/// The chat request of a Responses request, with the identifiers that stand in for
/// missing ones given.
pub fn chat_from_responses_with(
    body: &Json,
    plan: &ToolPlan,
    fresh: &Vec<String>,
    names: &Vec<String>,
) -> (r: Result<Json, String>)
    ensures
        json::outcome(r) == chat_of_responses(body@, plan@, protocol::texts(fresh@), protocol::texts(names@)),
{
    broadcast use json::group_json;

    if let Some(field) = find_stateful(body) {
        return Err(
            text::join3(
                "字段 ",
                field,
                " 需要服务端保存对话状态，本网关是无状态转发，无法支持",
            ),
        );
    }
    let mut out = Json::obj();
    out.put("model", json::copy_or_null(body.get("model")));
    let messages = messages_from_input(body.get("instructions"), body.get("input"), fresh, names);
    out.put("messages", Json::Arr(messages));
    out.put("stream", Json::Bool(chat::read_flag(body, "stream")));
    out.put_some("max_completion_tokens", json::truthy_in(body.get("max_output_tokens")));
    out.put_some("temperature", json::not_null_in(body.get("temperature")));
    out.put_some("top_p", json::not_null_in(body.get("top_p")));
    out.put_some("service_tier", json::not_null_in(body.get("service_tier")));
    out.put_some("parallel_tool_calls", json::not_null_in(body.get("parallel_tool_calls")));
    out.put_some("user", json::not_null_in(body.get("user")));
    out.put_some("metadata", json::not_null_in(body.get("metadata")));
    let tools = tools_to_chat(plan);
    if tools.len() > 0 {
        out.put("tools", Json::Arr(tools));
    }
    if let Some(choice) = json::truthy_in(body.get("tool_choice")) {
        out.put("tool_choice", tool_choice_to_chat(choice));
    }
    if let Some(format) = json::truthy_in(json::get_in(body.get("text"), "format")) {
        out.put("response_format", format_to_chat(format));
    }
    if let Some(effort) = json::get_in(body.get("reasoning"), "effort") {
        if !text::trim(protocol::string_value(effort).as_str()).as_str().is_empty() {
            out.put("reasoning_effort", effort.copy());
        }
    }
    Ok(out)
}

/// How many items the input of a request holds.
pub open spec fn item_count(body: Jv) -> nat {
    match body.get("input"@) {
        Some(Jv::Arr(items)) => items.len(),
        Some(Jv::Obj(_)) => 1,
        _ => 0,
    }
}

/// The chat request of a Responses request. `plan` holds what its tools become and
/// `names`, for each item, the name under which the upstream knows the tool that
/// it calls.
pub fn chat_from_responses(body: &Json, plan: &ToolPlan, names: &Vec<String>) -> (r: Result<
    Json,
    String,
>)
    ensures
        exists|fresh: Seq<Seq<char>>| #[trigger]
            protocol::all_ids("call"@, fresh) && fresh.len() == item_count(body@) && json::outcome(r)
                == chat_of_responses(body@, plan@, fresh, protocol::texts(names@)),
{
    broadcast use json::group_json;

    let count = match body.get("input") {
        Some(Json::Arr(items)) => items.len(),
        Some(Json::Obj(_)) => 1,
        _ => 0,
    };
    let fresh = protocol::random_ids("call", count);
    chat_from_responses_with(body, plan, &fresh, names)
}

// ------------------------------------------------- response: from a chat body

/// A member of the request that is echoed, or its default.
pub open spec fn echoed(request: Jv, key: Seq<char>, fallback: Jv) -> Jv {
    match json::if_not_null(request.get(key)) {
        Some(v) => v,
        None => fallback,
    }
}

fn echo(request: &Json, key: &str, fallback: Json) -> (r: Json)
    ensures
        r@ == echoed(request@, key@, fallback@),
{
    match json::not_null_in(request.get(key)) {
        Some(v) => v.copy(),
        None => fallback,
    }
}

/// A value, or `null` where it is missing.
pub open spec fn or_null(j: Option<Jv>) -> Jv {
    match j {
        Some(v) => v,
        None => Jv::Null,
    }
}

/// The tools of the request, or an empty list where they are no list.
pub open spec fn echoed_tools(request: Jv) -> Jv {
    match request.get("tools"@) {
        Some(Jv::Arr(tools)) => Jv::Arr(tools),
        _ => Jv::Arr(Seq::empty()),
    }
}

/// A response of the Responses protocol. `now` is the clock in seconds.
pub open spec fn envelope(
    id: Seq<char>,
    model: Seq<char>,
    status: Seq<char>,
    output: Seq<Jv>,
    usage: Jv,
    request: Jv,
    created: int,
    incomplete: Option<Seq<char>>,
    now: int,
) -> Jv {
    Jv::obj().put("id"@, Jv::Str(id)).put("object"@, Jv::Str("response"@)).put(
        "created_at"@,
        Jv::Int(created),
    ).put("status"@, Jv::Str(status)).put(
        "completed_at"@,
        if status == "completed"@ {
            Jv::Int(now)
        } else {
            Jv::Null
        },
    ).put("background"@, Jv::Bool(false)).put("error"@, Jv::Null).put(
        "incomplete_details"@,
        match incomplete {
            Some(reason) => Jv::obj().put("reason"@, Jv::Str(reason)),
            None => Jv::Null,
        },
    ).put("instructions"@, echoed(request, "instructions"@, Jv::Null)).put(
        "max_output_tokens"@,
        echoed(request, "max_output_tokens"@, Jv::Null),
    ).put("max_tool_calls"@, echoed(request, "max_tool_calls"@, Jv::Null)).put(
        "model"@,
        Jv::Str(model),
    ).put("output"@, Jv::Arr(output)).put(
        "parallel_tool_calls"@,
        echoed(request, "parallel_tool_calls"@, Jv::Bool(true)),
    ).put("previous_response_id"@, Jv::Null).put(
        "reasoning"@,
        Jv::obj().put("effort"@, or_null(json::opt_get(request.get("reasoning"@), "effort"@))).put(
            "summary"@,
            or_null(json::opt_get(request.get("reasoning"@), "summary"@)),
        ),
    ).put("store"@, Jv::Bool(false)).put("temperature"@, echoed(request, "temperature"@, Jv::Int(1))).put(
        "text"@,
        echoed(
            request,
            "text"@,
            Jv::obj().put("format"@, Jv::obj().put("type"@, Jv::Str("text"@))),
        ),
    ).put("tool_choice"@, echoed(request, "tool_choice"@, Jv::Str("auto"@))).put(
        "tools"@,
        echoed_tools(request),
    ).put("top_logprobs"@, echoed(request, "top_logprobs"@, Jv::Int(0))).put(
        "top_p"@,
        echoed(request, "top_p"@, Jv::Int(1)),
    ).put("truncation"@, echoed(request, "truncation"@, Jv::Str("disabled"@))).put(
        "usage"@,
        usage,
    ).put("user"@, echoed(request, "user"@, Jv::Null)).put(
        "metadata"@,
        echoed(request, "metadata"@, Jv::obj()),
    )
}

/// A response of the Responses protocol, at a given time in seconds.
pub fn response_envelope_at(
    id: &str,
    model: &str,
    status: &str,
    output: Vec<Json>,
    usage: Json,
    request: &Json,
    created: i64,
    incomplete_reason: Option<&str>,
    now: i64,
) -> (r: Json)
    ensures
        r@ == envelope(
            id@,
            model@,
            status@,
            json::models(output@),
            usage@,
            request@,
            created as int,
            json::opt_text(incomplete_reason),
            now as int,
        ),
{
    broadcast use json::group_json;

    let completed = if text::same(status, "completed") {
        Json::Int(now)
    } else {
        Json::Null
    };
    let details = match incomplete_reason {
        Some(reason) => Json::obj().with("reason", Json::str(reason)),
        None => Json::Null,
    };
    let effort = json::copy_or_null(json::get_in(request.get("reasoning"), "effort"));
    let summary = json::copy_or_null(json::get_in(request.get("reasoning"), "summary"));
    let tools = match request.get("tools") {
        Some(Json::Arr(tools)) => Json::Arr(json::copy_all(tools)),
        _ => Json::Arr(Vec::new()),
    };
    let format = Json::obj().with("format", Json::obj().with("type", Json::str("text")));
    Json::obj().with("id", Json::str(id)).with("object", Json::str("response")).with(
        "created_at",
        Json::Int(created),
    ).with("status", Json::str(status)).with("completed_at", completed).with(
        "background",
        Json::Bool(false),
    ).with("error", Json::Null).with("incomplete_details", details).with(
        "instructions",
        echo(request, "instructions", Json::Null),
    ).with("max_output_tokens", echo(request, "max_output_tokens", Json::Null)).with(
        "max_tool_calls",
        echo(request, "max_tool_calls", Json::Null),
    ).with("model", Json::str(model)).with("output", Json::Arr(output)).with(
        "parallel_tool_calls",
        echo(request, "parallel_tool_calls", Json::Bool(true)),
    ).with("previous_response_id", Json::Null).with(
        "reasoning",
        Json::obj().with("effort", effort).with("summary", summary),
    ).with("store", Json::Bool(false)).with(
        "temperature",
        echo(request, "temperature", Json::Int(1)),
    ).with("text", echo(request, "text", format)).with(
        "tool_choice",
        echo(request, "tool_choice", Json::str("auto")),
    ).with("tools", tools).with("top_logprobs", echo(request, "top_logprobs", Json::Int(0))).with(
        "top_p",
        echo(request, "top_p", Json::Int(1)),
    ).with("truncation", echo(request, "truncation", Json::str("disabled"))).with(
        "usage",
        usage,
    ).with("user", echo(request, "user", Json::Null)).with(
        "metadata",
        echo(request, "metadata", Json::obj()),
    )
}

/// The clock in whole seconds; as of the clock itself, nothing is said of which.
pub(crate) fn clock_s() -> (r: i64)
    ensures
        0 <= r <= u64::MAX / 1000,
{
    (protocol::clock_ms() / 1000) as i64
}

/// A response of the Responses protocol.
pub fn response_envelope(
    id: &str,
    model: &str,
    status: &str,
    output: Vec<Json>,
    usage: Json,
    request: &Json,
    created: i64,
    incomplete_reason: Option<&str>,
) -> (r: Json)
    ensures
        exists|now: int|
            r@ == #[trigger] envelope(
                id@,
                model@,
                status@,
                json::models(output@),
                usage@,
                request@,
                created as int,
                json::opt_text(incomplete_reason),
                now,
            ),
{
    let now = clock_s();
    response_envelope_at(
        id,
        model,
        status,
        output,
        usage,
        request,
        created,
        incomplete_reason,
        now,
    )
}

/// A number brought into the range of an `i64`.
pub open spec fn clamped(n: int) -> int {
    if n > i64::MAX {
        i64::MAX as int
    } else if n < i64::MIN {
        i64::MIN as int
    } else {
        n
    }
}

/// The sum of two numbers, brought into the range of an `i64`.
pub(crate) fn clamped_sum(a: i64, b: i64) -> (r: i64)
    ensures
        r == clamped(a + b),
{
    match a.checked_add(b) {
        Some(n) => n,
        None => if a > 0 {
            i64::MAX
        } else {
            i64::MIN
        },
    }
}

/// An object with one count, where the count is not zero.
pub open spec fn count_details(key: Seq<char>, n: int) -> Option<Jv> {
    if n == 0 {
        None
    } else {
        Some(Jv::obj().put(key, Jv::Int(n)))
    }
}

/// The prompt tokens of a chat usage report.
pub open spec fn usage_input(u: Jv) -> int {
    protocol::number_under(u, seq!["prompt_tokens", "input_tokens"], 0)
}

/// The completion tokens of a chat usage report.
pub open spec fn usage_output(u: Jv) -> int {
    protocol::number_under(u, seq!["completion_tokens", "output_tokens"], 0)
}

/// The tokens of a chat usage report that were read from the cache.
pub open spec fn usage_cached(u: Jv) -> int {
    let nested = json::int_or_zero(json::opt_get(u.get("prompt_tokens_details"@), "cached_tokens"@));
    if nested != 0 {
        nested
    } else {
        protocol::number_under(
            u,
            seq![
                "prompt_tokens_details.cached_tokens",
                "prompt_cache_hit_tokens",
                "cache_read_input_tokens",
            ],
            0,
        )
    }
}

/// The thinking tokens of a chat usage report.
pub open spec fn usage_reasoning(u: Jv) -> int {
    json::int_or_zero(json::opt_get(u.get("completion_tokens_details"@), "reasoning_tokens"@))
}

/// All tokens of a chat usage report: at least the sum of its parts.
pub open spec fn usage_total(u: Jv) -> int {
    let total = protocol::number_under(u, seq!["total_tokens"], 0);
    let sum = clamped(usage_input(u) + usage_output(u));
    if total > sum {
        total
    } else {
        sum
    }
}

/// The usage report of a Responses response; `null` where the upstream sent none.
pub open spec fn responses_usage(usage: Option<Jv>) -> Jv {
    match usage {
        Some(Jv::Obj(m)) => {
            let u = Jv::Obj(m);
            Jv::obj().put("input_tokens"@, Jv::Int(usage_input(u))).put_some(
                "input_tokens_details"@,
                count_details("cached_tokens"@, usage_cached(u)),
            ).put("output_tokens"@, Jv::Int(usage_output(u))).put_some(
                "output_tokens_details"@,
                count_details("reasoning_tokens"@, usage_reasoning(u)),
            ).put("total_tokens"@, Jv::Int(usage_total(u)))
        },
        _ => Jv::Null,
    }
}

/// The usage report of a Responses response.
pub fn usage_to_responses(usage: Option<&Json>) -> (r: Json)
    ensures
        r@ == responses_usage(json::opt_model(usage)),
{
    let u = match usage {
        Some(u) => if u.is_obj() {
            u
        } else {
            return Json::Null;
        },
        None => {
            return Json::Null;
        },
    };
    let input_keys = ["prompt_tokens", "input_tokens"];
    let output_keys = ["completion_tokens", "output_tokens"];
    let cached_keys = [
        "prompt_tokens_details.cached_tokens",
        "prompt_cache_hit_tokens",
        "cache_read_input_tokens",
    ];
    let total_keys = ["total_tokens"];
    proof {
        assert(input_keys@ =~= seq!["prompt_tokens", "input_tokens"]);
        assert(output_keys@ =~= seq!["completion_tokens", "output_tokens"]);
        assert(cached_keys@ =~= seq![
            "prompt_tokens_details.cached_tokens",
            "prompt_cache_hit_tokens",
            "cache_read_input_tokens",
        ]);
        assert(total_keys@ =~= seq!["total_tokens"]);
    }
    let input = protocol::json_number_of(u, input_keys.as_slice());
    let output = protocol::json_number_of(u, output_keys.as_slice());
    let nested = json::int_or(json::get_in(u.get("prompt_tokens_details"), "cached_tokens"));
    let cached = if nested != 0 {
        nested
    } else {
        protocol::json_number_of(u, cached_keys.as_slice())
    };
    let reasoning = json::int_or(json::get_in(u.get("completion_tokens_details"), "reasoning_tokens"));
    let total = protocol::json_number_of(u, total_keys.as_slice());
    let sum = clamped_sum(input, output);
    let mut out = Json::obj().with("input_tokens", Json::Int(input));
    if cached != 0 {
        out.put("input_tokens_details", Json::obj().with("cached_tokens", Json::Int(cached)));
    }
    out.put("output_tokens", Json::Int(output));
    if reasoning != 0 {
        out.put("output_tokens_details", Json::obj().with("reasoning_tokens", Json::Int(reasoning)));
    }
    out.put(
        "total_tokens",
        Json::Int(
            if total > sum {
                total
            } else {
                sum
            },
        ),
    );
    out
}

/// Identifiers for what a response may have to name.
pub struct Fresh {
    pub resp: String,
    pub rs: String,
    pub msg: String,
    pub call: Vec<String>,
    pub fc: Vec<String>,
    pub ctc: Vec<String>,
}

/// The identifiers for what a response may have to name: itself, its thinking, its
/// message, and for each tool call the call, a function item and a free-text item.
#[verifier::ext_equal]
pub struct FreshV {
    pub resp: Seq<char>,
    pub rs: Seq<char>,
    pub msg: Seq<char>,
    pub call: Seq<Seq<char>>,
    pub fc: Seq<Seq<char>>,
    pub ctc: Seq<Seq<char>>,
}

impl View for Fresh {
    type V = FreshV;

    open spec fn view(&self) -> FreshV {
        FreshV {
            resp: self.resp@,
            rs: self.rs@,
            msg: self.msg@,
            call: protocol::texts(self.call@),
            fc: protocol::texts(self.fc@),
            ctc: protocol::texts(self.ctc@),
        }
    }
}

impl FreshV {
    /// Whether these are identifiers, with those of `n` tool calls.
    pub open spec fn fits(self, n: nat) -> bool {
        &&& protocol::is_id("resp"@, self.resp)
        &&& protocol::is_id("rs"@, self.rs)
        &&& protocol::is_id("msg"@, self.msg)
        &&& self.call.len() == n
        &&& protocol::all_ids("call"@, self.call)
        &&& self.fc.len() == n
        &&& protocol::all_ids("fc"@, self.fc)
        &&& self.ctc.len() == n
        &&& protocol::all_ids("ctc"@, self.ctc)
    }
}

impl Fresh {
    /// Fresh identifiers, with those of `n` tool calls.
    pub fn draw(n: usize) -> (r: Fresh)
        ensures
            r@.fits(n as nat),
    {
        Fresh {
            resp: protocol::random_id("resp"),
            rs: protocol::random_id("rs"),
            msg: protocol::random_id("msg"),
            call: protocol::random_ids("call", n),
            fc: protocol::random_ids("fc", n),
            ctc: protocol::random_ids("ctc", n),
        }
    }

    /// No identifiers.
    pub fn none() -> (r: Fresh)
        ensures
            r@ == no_ids(),
    {
        let r = Fresh {
            resp: String::new(),
            rs: String::new(),
            msg: String::new(),
            call: Vec::new(),
            fc: Vec::new(),
            ctc: Vec::new(),
        };
        proof {
            reveal_strlit("");
            assert(r@ =~= no_ids());
        }
        r
    }
}

/// No identifiers.
pub open spec fn no_ids() -> FreshV {
    FreshV {
        resp: Seq::empty(),
        rs: Seq::empty(),
        msg: Seq::empty(),
        call: Seq::empty(),
        fc: Seq::empty(),
        ctc: Seq::empty(),
    }
}

/// The identifiers at a place, or none where the list is too short.
pub open spec fn ids_at(fresh: Seq<FreshV>, i: int) -> FreshV {
    if 0 <= i < fresh.len() {
        fresh[i]
    } else {
        no_ids()
    }
}

/// What a list of identifiers holds.
pub open spec fn fresh_view(v: Seq<Fresh>) -> Seq<FreshV> {
    Seq::new(v.len(), |i: int| v[i]@)
}

/// A thinking item.
pub open spec fn reasoning_item(id: Seq<char>, text: Seq<char>) -> Jv {
    Jv::obj().put("type"@, Jv::Str("reasoning"@)).put("id"@, Jv::Str(id)).put(
        "summary"@,
        Jv::Arr(
            seq![Jv::obj().put("type"@, Jv::Str("summary_text"@)).put("text"@, Jv::Str(text))],
        ),
    )
}

pub(crate) fn make_reasoning_item(id: &str, text: &str) -> (r: Json)
    ensures
        r@ == reasoning_item(id@, text@),
{
    broadcast use json::group_json;

    let mut summary: Vec<Json> = Vec::new();
    summary.push(
        Json::obj().with("type", Json::str("summary_text")).with("text", Json::str(text)),
    );
    proof {
        assert(json::models(summary@) =~= reasoning_item(id@, text@).get("summary"@)->0->Arr_0) by {
            reveal_strlit("summary");
        }
    }
    Json::obj().with("type", Json::str("reasoning")).with("id", Json::str(id)).with(
        "summary",
        Json::Arr(summary),
    )
}

/// A part with output text.
pub open spec fn output_part(text: Seq<char>) -> Jv {
    Jv::obj().put("type"@, Jv::Str("output_text"@)).put("text"@, Jv::Str(text)).put(
        "annotations"@,
        Jv::Arr(Seq::empty()),
    ).put("logprobs"@, Jv::Arr(Seq::empty()))
}

/// A part with output text.
pub(crate) fn make_output_part(text: &str) -> (r: Json)
    ensures
        r@ == output_part(text@),
{
    broadcast use json::group_json;

    Json::obj().with("type", Json::str("output_text")).with("text", Json::str(text)).with(
        "annotations",
        Json::Arr(Vec::new()),
    ).with("logprobs", Json::Arr(Vec::new()))
}

/// A message item that is complete.
pub open spec fn done_message(id: Seq<char>, text: Seq<char>) -> Jv {
    Jv::obj().put("type"@, Jv::Str("message"@)).put("id"@, Jv::Str(id)).put(
        "status"@,
        Jv::Str("completed"@),
    ).put("role"@, Jv::Str("assistant"@)).put("content"@, Jv::Arr(seq![output_part(text)]))
}

/// A message item that is complete.
pub(crate) fn make_done_message(id: &str, text: &str) -> (r: Json)
    ensures
        r@ == done_message(id@, text@),
{
    broadcast use json::group_json;

    let mut content: Vec<Json> = Vec::new();
    content.push(make_output_part(text));
    proof {
        assert(json::models(content@) =~= seq![output_part(text@)]);
    }
    Json::obj().with("type", Json::str("message")).with("id", Json::str(id)).with(
        "status",
        Json::str("completed"),
    ).with("role", Json::str("assistant")).with("content", Json::Arr(content))
}

/// A complete call of a tool as an item. A tool that takes free text gets its
/// text, and a name that stands for one in a namespace is restored.
pub open spec fn call_item(
    plan: PlanV,
    item_id: Seq<char>,
    name: Seq<char>,
    call_id: Seq<char>,
    arguments: Seq<char>,
) -> Jv {
    let head = Jv::obj().put(
        "type"@,
        Jv::Str(if plan.is_custom(name) {
            "custom_tool_call"@
        } else {
            "function_call"@
        }),
    ).put("id"@, Jv::Str(item_id)).put("status"@, Jv::Str("completed"@)).put(
        "call_id"@,
        Jv::Str(call_id),
    ).put("name"@, Jv::Str(name));
    plan.restored(
        if plan.is_custom(name) {
            head.put("input"@, Jv::Str(tool_plan::unwrapped_input(arguments)))
        } else {
            head.put("arguments"@, Jv::Str(arguments))
        },
        name,
    )
}

/// A complete call of a tool as an item.
pub(crate) fn tool_call_item(
    plan: &ToolPlan,
    item_id: &str,
    name: &str,
    call_id: &str,
    arguments: &str,
) -> (r: Json)
    ensures
        r@ == call_item(plan@, item_id@, name@, call_id@, arguments@),
{
    let custom = plan.is_custom(name);
    let kind = if custom {
        "custom_tool_call"
    } else {
        "function_call"
    };
    let mut item = Json::obj().with("type", Json::str(kind)).with("id", Json::str(item_id)).with(
        "status",
        Json::str("completed"),
    ).with("call_id", Json::str(call_id)).with("name", Json::str(name));
    if custom {
        item.put("input", Json::Str(tool_plan::unwrap_freeform_input(arguments)));
    } else {
        item.put("arguments", Json::str(arguments));
    }
    plan.restore_namespace(item, name)
}

/// The identifier of the item of the call at a place.
pub open spec fn item_id_at(fresh: FreshV, plan: PlanV, name: Seq<char>, i: int) -> Seq<char> {
    if plan.is_custom(name) {
        protocol::text_at(fresh.ctc, i)
    } else {
        protocol::text_at(fresh.fc, i)
    }
}

pub(crate) fn pick_item_id(fresh: &Fresh, plan: &ToolPlan, name: &str, i: usize) -> (r: String)
    ensures
        r@ == item_id_at(fresh@, plan@, name@, i as int),
{
    if plan.is_custom(name) {
        protocol::string_at(&fresh.ctc, i)
    } else {
        protocol::string_at(&fresh.fc, i)
    }
}

/// The items of the first `n` tool calls of a chat message.
pub open spec fn call_items(calls: Seq<Jv>, plan: PlanV, fresh: FreshV, n: nat) -> Seq<Jv>
    decreases n,
{
    if n == 0 {
        Seq::empty()
    } else {
        let call = calls[n - 1];
        let name = protocol::opt_loose(json::opt_get(call.get("function"@), "name"@));
        call_items(calls, plan, fresh, (n - 1) as nat).push(
            call_item(
                plan,
                item_id_at(fresh, plan, name, n - 1),
                name,
                protocol::or_else(protocol::loose_field(call, "id"@), protocol::text_at(fresh.call, n - 1)),
                match json::opt_get(call.get("function"@), "arguments"@) {
                    Some(v) => protocol::loose(v),
                    None => "{}"@,
                },
            ),
        )
    }
}

/// Why a response is not complete, by the reason that the upstream gave.
pub open spec fn incomplete_of(finish: Seq<char>) -> Option<Seq<char>> {
    if finish == "length"@ {
        Some("max_output_tokens"@)
    } else if finish == "content_filter"@ {
        Some("content_filter"@)
    } else {
        None
    }
}

/// Why a response is not complete, by the reason that the upstream gave.
pub(crate) fn read_incomplete(finish: &str) -> (r: Option<&'static str>)
    ensures
        json::opt_text(r) == incomplete_of(finish@),
{
    if text::same(finish, "length") {
        Some("max_output_tokens")
    } else if text::same(finish, "content_filter") {
        Some("content_filter")
    } else {
        None
    }
}

/// The status of a response.
pub open spec fn status_of(incomplete: Option<Seq<char>>) -> Seq<char> {
    if incomplete is Some {
        "incomplete"@
    } else {
        "completed"@
    }
}

/// The items of thinking and text. The text item is there where there is text, or
/// where `always` is set.
pub open spec fn said_items(
    reasoning: Seq<char>,
    text: Seq<char>,
    always: bool,
    fresh: FreshV,
) -> Seq<Jv> {
    let head = if reasoning.len() == 0 {
        Seq::empty()
    } else {
        seq![reasoning_item(fresh.rs, reasoning)]
    };
    if text.len() > 0 || always {
        head.push(done_message(fresh.msg, text))
    } else {
        head
    }
}

/// The items of thinking and text.
pub(crate) fn make_said_items(reasoning: &str, text: &str, always: bool, fresh: &Fresh) -> (r: Vec<
    Json,
>)
    ensures
        json::models(r@) == said_items(reasoning@, text@, always, fresh@),
{
    broadcast use json::group_json;

    let mut out: Vec<Json> = Vec::new();
    if !reasoning.is_empty() {
        out.push(make_reasoning_item(fresh.rs.as_str(), reasoning));
        proof {
            assert(json::models(out@) =~= seq![reasoning_item(fresh@.rs, reasoning@)]);
        }
    }
    if !text.is_empty() || always {
        out.push(make_done_message(fresh.msg.as_str(), text));
    }
    out
}

/// The Responses response of a chat response. Without tool calls there always is a message,
/// even an empty one. `now` is the clock in seconds.
pub open spec fn responses_of_chat(
    chat: Jv,
    model: Seq<char>,
    request: Jv,
    plan: PlanV,
    fresh: FreshV,
    now: int,
) -> Jv {
    let message = chat::message_of(chat);
    let calls = chat::calls_of(message);
    let text = protocol::opt_plain_text(message.get("content"@));
    let incomplete = incomplete_of(protocol::opt_loose(json::opt_get(chat::choice_of(chat), "finish_reason"@)));
    envelope(
        protocol::or_else(protocol::loose_field(chat, "id"@), fresh.resp),
        model,
        status_of(incomplete),
        said_items(
            chat::reasoning_of(message),
            text,
            calls.len() == 0,
            fresh,
        ) + call_items(calls, plan, fresh, calls.len()),
        responses_usage(chat.get("usage"@)),
        request,
        match chat.get("created"@) {
            Some(v) => match v.as_i64() {
                Some(n) => n,
                None => now,
            },
            None => now,
        },
        incomplete,
        now,
    ).put("output_text"@, Jv::Str(text))
}

/// The Responses response of a chat response, with the identifiers that it may
/// need and the clock given.
pub fn responses_from_chat_with(
    chat: &Json,
    model: &str,
    request: &Json,
    plan: &ToolPlan,
    fresh: &Fresh,
    now: i64,
) -> (r: Json)
    ensures
        r@ == responses_of_chat(chat@, model@, request@, plan@, fresh@, now as int),
{
    broadcast use json::group_json;

    let choice = chat::read_choice(chat);
    let message = json::copy_or_null(json::get_in(choice, "message"));
    let finish = protocol::opt_string_value(json::get_in(choice, "finish_reason"));
    let reasoning = chat::read_reasoning(&message);
    let text = protocol::opt_content_text(message.get("content"));
    let silent = match message.get("tool_calls") {
        Some(Json::Arr(calls)) => calls.len() == 0,
        _ => true,
    };
    let mut output = make_said_items(reasoning.as_str(), text.as_str(), silent, fresh);
    let ghost head = json::models(output@);
    proof {
        assert(head + Seq::<Jv>::empty() =~= head);
    }
    if let Some(Json::Arr(calls)) = message.get("tool_calls") {
        let ghost want = json::models(calls@);
        let mut i: usize = 0;
        while i < calls.len()
            invariant
                i <= calls@.len(),
                want == json::models(calls@),
                json::models(output@) == head + call_items(want, plan@, fresh@, i as nat),
            decreases calls@.len() - i,
        {
            let call = &calls[i];
            let name = protocol::opt_string_value(json::get_in(call.get("function"), "name"));
            let arguments = match json::get_in(call.get("function"), "arguments") {
                Some(v) => protocol::json_text(v),
                None => "{}".to_owned(),
            };
            let call_id = protocol::or_text(protocol::string_field(call, "id"), protocol::string_at(&fresh.call, i).as_str());
            let item_id = pick_item_id(fresh, plan, name.as_str(), i);
            let item = tool_call_item(
                plan,
                item_id.as_str(),
                name.as_str(),
                call_id.as_str(),
                arguments.as_str(),
            );
            proof {
                assert(want[i as int] == call@);
                json::models_push(output@, item);
                assert(json::models(output@.push(item)) =~= head + call_items(
                    want,
                    plan@,
                    fresh@,
                    (i + 1) as nat,
                ));
            }
            output.push(item);
            i = i + 1;
        }
    }
    let incomplete = read_incomplete(finish.as_str());
    let status = if incomplete.is_some() {
        "incomplete"
    } else {
        "completed"
    };
    let created = match chat.get("created") {
        Some(v) => match v.as_i64() {
            Some(n) => n,
            None => now,
        },
        None => now,
    };
    let id = protocol::or_text(protocol::string_field(chat, "id"), fresh.resp.as_str());
    let usage = usage_to_responses(chat.get("usage"));
    response_envelope_at(
        id.as_str(),
        model,
        status,
        output,
        usage,
        request,
        created,
        incomplete,
        now,
    ).with("output_text", Json::Str(text))
}

/// The Responses response of a chat response.
pub fn responses_from_chat(chat: &Json, model: &str, request: &Json, plan: &ToolPlan) -> (r: Json)
    ensures
        exists|fresh: FreshV, now: int|
            #![trigger responses_of_chat(chat@, model@, request@, plan@, fresh, now)]
            fresh.fits(chat::calls_of(chat::message_of(chat@)).len()) && r@ == responses_of_chat(
                chat@,
                model@,
                request@,
                plan@,
                fresh,
                now,
            ),
{
    broadcast use json::group_json;

    let count = match json::get_in(json::get_in(chat::read_choice(chat), "message"), "tool_calls") {
        Some(Json::Arr(calls)) => calls.len(),
        _ => 0,
    };
    let fresh = Fresh::draw(count);
    let now = clock_s();
    responses_from_chat_with(chat, model, request, plan, &fresh, now)
}

} // verus!
