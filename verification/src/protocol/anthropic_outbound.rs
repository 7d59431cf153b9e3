//! Chat requests as Anthropic Messages requests, and the event stream that comes
//! back as a chat stream.
//!
//! The upstream wants the turns of the user and the assistant to alternate, a
//! thinking budget below the token limit, and no sampling parameters while it
//! thinks. The translation keeps to all three.

use crate::json::{Json, Jv};
use crate::json;
use crate::model_rules::reasoning;
use crate::protocol::anthropic;
use crate::protocol::chat;
use crate::protocol::chunks::{ChunkWriter, Given, NewIds, WriterV};
use crate::protocol::chunks;
use crate::protocol::responses;
use crate::protocol::{Frame, Fv, SseLineBuffer};
use crate::protocol;
use crate::text;
use std::collections::BTreeMap;
use vstd::prelude::*;
use vstd::string::*;

verus! {

// -------------------------------------------------------------------- images

/// A block that names an image by its address.
pub open spec fn url_image(url: Seq<char>) -> Jv {
    Jv::obj().put("type"@, Jv::Str("image"@)).put(
        "source"@,
        Jv::obj().put("type"@, Jv::Str("url"@)).put("url"@, Jv::Str(url)),
    )
}

/// A block that holds the data of an image.
pub open spec fn data_image(media: Seq<char>, data: Seq<char>) -> Jv {
    Jv::obj().put("type"@, Jv::Str("image"@)).put(
        "source"@,
        Jv::obj().put("type"@, Jv::Str("base64"@)).put("media_type"@, Jv::Str(media)).put(
            "data"@,
            Jv::Str(data),
        ),
    )
}

/// The block for the part of a data address behind `data:`.
pub open spec fn image_of_data(rest: Seq<char>) -> Option<Jv> {
    let comma = text::place_of(rest, ',', 0);
    if comma >= rest.len() {
        None
    } else {
        let meta = rest.take(comma);
        let data = rest.skip(comma + 1);
        if !text::has_suffix(meta, ";base64"@) || data.len() == 0 {
            None
        } else {
            Some(data_image(protocol::or_else(meta.take(meta.len() - 7), "image/png"@), data))
        }
    }
}

/// The block for a chat image: a data address or a web address. Anything else
/// gives none.
pub open spec fn image_of(part: Jv) -> Option<Jv> {
    let url = text::trimmed(responses::image_url(part));
    if url.len() == 0 {
        None
    } else if text::has_prefix(url, "data:"@) {
        image_of_data(url.skip(5))
    } else if text::has_prefix(url, "http://"@) || text::has_prefix(url, "https://"@) {
        Some(url_image(url))
    } else {
        None
    }
}

fn read_data_image(rest: &str) -> (r: Option<Json>)
    ensures
        json::opt_owned(r) == image_of_data(rest@),
{
    let chars = text::chars_of(rest);
    let comma = text::find_char(&chars, ',');
    if comma >= chars.len() {
        return None;
    }
    let meta = text::text_between(&chars, 0, comma);
    let data = text::text_between(&chars, comma + 1, chars.len());
    proof {
        reveal_strlit(";base64");
        assert(meta@ =~= rest@.take(comma as int));
        assert(data@ =~= rest@.skip(comma + 1));
    }
    if !text::ends_with(meta.as_str(), ";base64") || data.as_str().is_empty() {
        return None;
    }
    let named = text::take_chars(meta.as_str(), comma - 7);
    let media = protocol::or_text(named, "image/png");
    let source = Json::obj().with("type", Json::str("base64")).with(
        "media_type",
        Json::Str(media),
    ).with("data", Json::Str(data));
    Some(Json::obj().with("type", Json::str("image")).with("source", source))
}

/// The block for a chat image.
fn image_to_anthropic(part: &Json) -> (r: Option<Json>)
    ensures
        json::opt_owned(r) == image_of(part@),
{
    let url = text::trim(responses::image_url_of(part).as_str());
    if url.as_str().is_empty() {
        return None;
    }
    proof {
        reveal_strlit("data:");
    }
    if text::starts_with(url.as_str(), "data:") {
        return read_data_image(text::skip_chars(url.as_str(), 5).as_str());
    }
    if text::starts_with(url.as_str(), "http://") || text::starts_with(url.as_str(), "https://") {
        let source = Json::obj().with("type", Json::str("url")).with("url", Json::Str(url));
        return Some(Json::obj().with("type", Json::str("image")).with("source", source));
    }
    None
}

// -------------------------------------------------------------------- blocks

/// A text block for a text that is not empty.
pub open spec fn text_if_any(s: Seq<char>) -> Option<Jv> {
    if s.len() == 0 {
        None
    } else {
        Some(chat::text_block(s))
    }
}

/// The block for one part of a chat message. The assistant shows no images.
pub open spec fn part_block(part: Jv, assistant: bool) -> Option<Jv> {
    match part {
        Jv::Str(s) => text_if_any(s),
        _ => {
            let kind = text::lowercase(protocol::loose_field(part, "type"@));
            if protocol::is_text_kind(kind) {
                text_if_any(protocol::loose_field(part, "text"@))
            } else if (kind == "image_url"@ || kind == "input_image"@) && !assistant {
                image_of(part)
            } else {
                None
            }
        },
    }
}

/// A list, and one more item where there is one.
pub open spec fn push_some(list: Seq<Jv>, item: Option<Jv>) -> Seq<Jv> {
    match item {
        Some(v) => list.push(v),
        None => list,
    }
}

/// The blocks of the first `n` parts.
pub open spec fn part_blocks(parts: Seq<Jv>, assistant: bool, n: nat) -> Seq<Jv>
    decreases n,
{
    if n == 0 {
        Seq::empty()
    } else {
        push_some(part_blocks(parts, assistant, (n - 1) as nat), part_block(parts[n - 1], assistant))
    }
}

/// The blocks of a message's content.
pub open spec fn content_blocks(content: Option<Jv>, assistant: bool) -> Seq<Jv> {
    match content {
        Some(Jv::Str(s)) => push_some(Seq::empty(), text_if_any(s)),
        Some(Jv::Arr(parts)) => part_blocks(parts, assistant, parts.len()),
        _ => Seq::empty(),
    }
}

/// The block that carries a tool's result.
pub open spec fn result_block(message: Jv) -> Jv {
    Jv::obj().put("type"@, Jv::Str("tool_result"@)).put(
        "tool_use_id"@,
        Jv::Str(protocol::loose_field(message, "tool_call_id"@)),
    ).put("content"@, Jv::Str(anthropic::result_text(message.field("content"@))))
}

/// The thinking of an assistant message, as a block.
pub open spec fn thinking_blocks(message: Jv) -> Seq<Jv> {
    if chat::reasoning_of(message).len() == 0 {
        Seq::empty()
    } else {
        seq![anthropic::thinking_block(chat::reasoning_of(message))]
    }
}

/// The blocks of a chat message that is no system message: the result of a tool;
/// or the thinking, the content and the tool calls, of which only the assistant
/// has the first and the last.
pub open spec fn blocks_of(message: Jv, role: Seq<char>, fresh: Seq<Seq<char>>) -> Seq<Jv> {
    if role == "tool"@ {
        seq![result_block(message)]
    } else if role == "assistant"@ {
        let calls = chat::calls_of(message);
        thinking_blocks(message) + content_blocks(message.get("content"@), true) + anthropic::call_blocks(
            calls,
            fresh,
            calls.len(),
        )
    } else {
        content_blocks(message.get("content"@), false)
    }
}

fn read_part(part: &Json, assistant: bool) -> (r: Option<Json>)
    ensures
        json::opt_owned(r) == part_block(part@, assistant),
{
    let text = match part {
        Json::Str(s) => s.clone(),
        _ => {
            let kind = text::lower(protocol::string_field(part, "type").as_str());
            if text::same(kind.as_str(), "text") || text::same(kind.as_str(), "input_text") || text::same(
                kind.as_str(),
                "output_text",
            ) {
                protocol::string_field(part, "text")
            } else if (text::same(kind.as_str(), "image_url") || text::same(kind.as_str(), "input_image"))
                && !assistant {
                return image_to_anthropic(part);
            } else {
                return None;
            }
        },
    };
    if text.as_str().is_empty() {
        None
    } else {
        Some(chat::make_text_block(text.as_str()))
    }
}

fn read_content(content: Option<&Json>, assistant: bool) -> (r: Vec<Json>)
    ensures
        json::models(r@) == content_blocks(json::opt_model(content), assistant),
{
    broadcast use json::group_json;

    let mut out: Vec<Json> = Vec::new();
    match content {
        Some(Json::Str(s)) => {
            if !s.as_str().is_empty() {
                out.push(chat::make_text_block(s.as_str()));
            }
        },
        Some(Json::Arr(parts)) => {
            let ghost want = json::models(parts@);
            proof {
                json::model_arr(*parts);
            }
            let mut i: usize = 0;
            while i < parts.len()
                invariant
                    i <= parts@.len(),
                    want == json::models(parts@),
                    json::models(out@) == part_blocks(want, assistant, i as nat),
                decreases parts@.len() - i,
            {
                if let Some(block) = read_part(&parts[i], assistant) {
                    proof {
                        json::models_push(out@, block);
                    }
                    out.push(block);
                }
                i = i + 1;
            }
        },
        _ => {},
    }
    out
}

fn read_calls(message: &Json, fresh: &Vec<String>, out: &mut Vec<Json>)
    ensures
        json::models(final(out)@) == json::models(old(out)@) + anthropic::call_blocks(
            chat::calls_of(message@),
            protocol::texts(fresh@),
            chat::calls_of(message@).len(),
        ),
{
    broadcast use json::group_json;

    let ghost head = json::models(out@);
    proof {
        assert(head + Seq::<Jv>::empty() =~= head);
    }
    if let Some(Json::Arr(calls)) = message.get("tool_calls") {
        let ghost want = json::models(calls@);
        let ghost ids = protocol::texts(fresh@);
        proof {
            json::model_arr(*calls);
        }
        let mut i: usize = 0;
        while i < calls.len()
            invariant
                i <= calls@.len(),
                want == json::models(calls@),
                ids == protocol::texts(fresh@),
                json::models(out@) == head + anthropic::call_blocks(want, ids, i as nat),
            decreases calls@.len() - i,
        {
            let call = &calls[i];
            let id = protocol::or_text(protocol::string_field(call, "id"), protocol::string_at(fresh, i).as_str());
            let name = protocol::opt_string_value(json::get_in(call.get("function"), "name"));
            let raw = json::copy_or_null(json::get_in(call.get("function"), "arguments"));
            let block = anthropic::make_tool_use_block(id.as_str(), name.as_str(), anthropic::parse_json_object(&raw));
            proof {
                json::models_push(out@, block);
                assert(json::models(out@.push(block)) =~= head + anthropic::call_blocks(want, ids, (i + 1) as nat));
            }
            out.push(block);
            i = i + 1;
        }
    }
}

/// The blocks of a chat message that is no system message.
fn anthropic_blocks_of(message: &Json, role: &str, fresh: &Vec<String>) -> (r: Vec<Json>)
    ensures
        json::models(r@) == blocks_of(message@, role@, protocol::texts(fresh@)),
{
    broadcast use json::group_json;

    if text::same(role, "tool") {
        let block = Json::obj().with("type", Json::str("tool_result")).with(
            "tool_use_id",
            Json::Str(protocol::string_field(message, "tool_call_id")),
        ).with("content", Json::Str(anthropic::tool_result_text(message.get("content"))));
        let mut out: Vec<Json> = Vec::new();
        out.push(block);
        proof {
            assert(json::models(out@) =~= seq![block@]);
        }
        return out;
    }
    if !text::same(role, "assistant") {
        return read_content(message.get("content"), false);
    }
    let mut out: Vec<Json> = Vec::new();
    let reasoning = chat::read_reasoning(message);
    if !reasoning.as_str().is_empty() {
        out.push(anthropic::make_thinking_block(reasoning.as_str()));
    }
    proof {
        assert(json::models(out@) =~= thinking_blocks(message@));
    }
    let mut content = read_content(message.get("content"), true);
    let ghost said = json::models(out@) + json::models(content@);
    proof {
        assert(json::models(out@ + content@) =~= said);
    }
    out.append(&mut content);
    read_calls(message, fresh, &mut out);
    out
}

// --------------------------------------------------------------------- turns

/// A turn of the conversation: whose it is, and its blocks.
#[verifier::ext_equal]
pub struct TurnV {
    pub assistant: bool,
    pub blocks: Seq<Jv>,
}

/// A turn of the conversation.
struct Turn {
    assistant: bool,
    blocks: Vec<Json>,
}

impl View for Turn {
    type V = TurnV;

    closed spec fn view(&self) -> TurnV {
        TurnV { assistant: self.assistant, blocks: json::models(self.blocks@) }
    }
}

spec fn turns_view(v: Seq<Turn>) -> Seq<TurnV> {
    Seq::new(v.len(), |i: int| v[i]@)
}

/// The turns with more blocks at the end: they join the last turn where it is the
/// same side's, and open a new one where it is not.
pub open spec fn add_turn(turns: Seq<TurnV>, assistant: bool, blocks: Seq<Jv>) -> Seq<TurnV> {
    if turns.len() > 0 && turns.last().assistant == assistant {
        turns.drop_last().push(TurnV { assistant, blocks: turns.last().blocks + blocks })
    } else {
        turns.push(TurnV { assistant, blocks })
    }
}

/// Whether the sides take turns, and no turn is empty.
pub open spec fn alternate(turns: Seq<TurnV>) -> bool {
    &&& forall|i: int| 0 <= i < turns.len() ==> (#[trigger] turns[i]).blocks.len() > 0
    &&& forall|i: int, j: int|
        0 <= i && j == i + 1 && j < turns.len() ==> (#[trigger] turns[i]).assistant != (
        #[trigger] turns[j]).assistant
}

/// More blocks leave the sides taking turns.
pub proof fn add_turn_alternates(turns: Seq<TurnV>, assistant: bool, blocks: Seq<Jv>)
    requires
        alternate(turns),
        blocks.len() > 0,
    ensures
        alternate(add_turn(turns, assistant, blocks)),
{
    let after = add_turn(turns, assistant, blocks);
    assert forall|i: int, j: int| 0 <= i && j == i + 1 && j < after.len() implies (
    #[trigger] after[i]).assistant != (#[trigger] after[j]).assistant by {
        if j < turns.len() - 1 || (j == turns.len() - 1 && after.len() > turns.len()) {
            assert(turns[i].assistant != turns[j].assistant);
        } else if after.len() == turns.len() {
            assert(turns[i].assistant != turns[j].assistant);
        }
    }
}

fn append_merged(turns: &mut Vec<Turn>, assistant: bool, blocks: Vec<Json>)
    ensures
        turns_view(final(turns)@) == add_turn(turns_view(old(turns)@), assistant, json::models(blocks@)),
{
    let ghost before = turns_view(turns@);
    let n = turns.len();
    if n > 0 && turns[n - 1].assistant == assistant {
        if let Some(last) = turns.pop() {
            let mut all = last.blocks;
            let mut more = blocks;
            proof {
                assert(json::models(all@ + more@) =~= json::models(all@) + json::models(more@));
                assert(turns_view(turns@) =~= before.drop_last());
            }
            all.append(&mut more);
            let whole = Turn { assistant, blocks: all };
            proof {
                assert(turns_view(turns@.push(whole)) =~= turns_view(turns@).push(whole@));
            }
            turns.push(whole);
        }
    } else {
        let whole = Turn { assistant, blocks };
        proof {
            assert(turns_view(turns@.push(whole)) =~= before.push(whole@));
        }
        turns.push(whole);
    }
}

/// The role of a chat message: the developer is the system, and a message without
/// a role is the user's.
pub open spec fn role_of(message: Jv) -> Seq<char> {
    let raw = text::lowercase(protocol::loose_field(message, "role"@));
    if raw == "developer"@ {
        "system"@
    } else {
        protocol::or_else(raw, "user"@)
    }
}

pub(crate) fn read_role(message: &Json) -> (r: String)
    ensures
        r@ == role_of(message@),
{
    let raw = text::lower(protocol::string_field(message, "role").as_str());
    if text::same(raw.as_str(), "developer") {
        "system".to_owned()
    } else {
        protocol::or_text(raw, "user")
    }
}

/// The system text of the first `n` messages: those of the system that say
/// something, with an empty line between them.
pub open spec fn system_texts(messages: Seq<Jv>, n: nat) -> Seq<char>
    decreases n,
{
    if n == 0 {
        Seq::empty()
    } else {
        let before = system_texts(messages, (n - 1) as nat);
        let message = messages[n - 1];
        let text = protocol::opt_plain_text(message.get("content"@));
        if role_of(message) == "system"@ && !text::blank(text) {
            protocol::joined(before, "\n\n"@, text)
        } else {
            before
        }
    }
}

/// The turns of the first `n` messages.
pub open spec fn turns_of(messages: Seq<Jv>, fresh: Seq<Seq<Seq<char>>>, n: nat) -> Seq<TurnV>
    decreases n,
{
    if n == 0 {
        Seq::empty()
    } else {
        let before = turns_of(messages, fresh, (n - 1) as nat);
        let message = messages[n - 1];
        let role = role_of(message);
        let blocks = blocks_of(message, role, protocol::row(fresh, n - 1));
        if role == "system"@ || blocks.len() == 0 {
            before
        } else {
            add_turn(before, role == "assistant"@, blocks)
        }
    }
}

/// Whatever the messages, the sides take turns and no turn is empty.
pub proof fn turns_alternate(messages: Seq<Jv>, fresh: Seq<Seq<Seq<char>>>, n: nat)
    ensures
        alternate(turns_of(messages, fresh, n)),
    decreases n,
{
    if n > 0 {
        turns_alternate(messages, fresh, (n - 1) as nat);
        let before = turns_of(messages, fresh, (n - 1) as nat);
        let role = role_of(messages[n - 1]);
        let blocks = blocks_of(messages[n - 1], role, protocol::row(fresh, n - 1));
        if blocks.len() > 0 {
            add_turn_alternates(before, role == "assistant"@, blocks);
        }
    }
}

/// A turn as a message.
pub open spec fn turn_message(t: TurnV) -> Jv {
    chat::plain_message(
        if t.assistant {
            "assistant"@
        } else {
            "user"@
        },
        Jv::Arr(t.blocks),
    )
}

/// Turns as messages.
pub open spec fn turn_messages(turns: Seq<TurnV>) -> Seq<Jv> {
    Seq::new(turns.len(), |i: int| turn_message(turns[i]))
}

fn write_turns(turns: Vec<Turn>) -> (r: Vec<Json>)
    ensures
        json::models(r@) == turn_messages(turns_view(turns@)),
{
    let ghost want = turns_view(turns@);
    let mut out: Vec<Json> = Vec::new();
    let mut i: usize = 0;
    proof {
        assert(json::models(out@) =~= turn_messages(want).take(0));
    }
    while i < turns.len()
        invariant
            i <= turns@.len(),
            want == turns_view(turns@),
            json::models(out@) == turn_messages(want).take(i as int),
        decreases turns@.len() - i,
    {
        let turn = &turns[i];
        let role = if turn.assistant {
            "assistant"
        } else {
            "user"
        };
        let blocks = json::copy_all(&turn.blocks);
        let ghost said = json::models(blocks@);
        proof {
            json::model_arr(blocks);
        }
        let message = chat::make_message(role, Json::Arr(blocks));
        proof {
            assert(want[i as int] == turn@);
            assert(message@ == turn_message(want[i as int]));
            json::models_push(out@, message);
            assert(json::models(out@.push(message)) =~= turn_messages(want).take(i as int + 1));
        }
        out.push(message);
        i = i + 1;
    }
    proof {
        assert(turn_messages(want).take(turns@.len() as int) =~= turn_messages(want));
    }
    out
}

// --------------------------------------------------------------------- tools

/// An object without members but for an empty list of properties.
pub open spec fn empty_schema() -> Jv {
    Jv::obj().put("type"@, Jv::Str("object"@)).put("properties"@, Jv::obj())
}

pub(crate) fn make_empty_schema() -> (r: Json)
    ensures
        r@ == empty_schema(),
{
    Json::obj().with("type", Json::str("object")).with("properties", Json::obj())
}

/// A schema as the upstream wants it: an object with properties.
pub open spec fn schema_of(schema: Jv) -> Jv {
    let kind = text::lowercase(protocol::loose_field(schema, "type"@));
    if schema !is Obj || (kind.len() > 0 && kind != "object"@) {
        empty_schema()
    } else {
        let typed = schema.put("type"@, Jv::Str("object"@));
        match typed.get("properties"@) {
            Some(_) => typed,
            None => typed.put("properties"@, Jv::obj()),
        }
    }
}

fn normalize_input_schema(schema: &Json) -> (r: Json)
    ensures
        r@ == schema_of(schema@),
{
    let kind = text::lower(protocol::string_field(schema, "type").as_str());
    if !schema.is_obj() || (!kind.as_str().is_empty() && !text::same(kind.as_str(), "object")) {
        return make_empty_schema();
    }
    let mut out = schema.copy().with("type", Json::str("object"));
    if out.get("properties").is_none() {
        out.put("properties", Json::obj());
    }
    out
}

/// A chat tool as a tool of the upstream; none where it has no name.
pub open spec fn tool_of(tool: Jv) -> Option<Jv> {
    let function = match tool.get("function"@) {
        Some(f) => f,
        None => tool,
    };
    let name = protocol::loose_field(function, "name"@);
    if name.len() == 0 {
        None
    } else {
        Some(
            Jv::obj().put("name"@, Jv::Str(name)).put_some(
                "description"@,
                json::if_truthy(function.get("description"@)),
            ).put("input_schema"@, schema_of(function.field("parameters"@))),
        )
    }
}

fn tool_to_anthropic(tool: &Json) -> (r: Option<Json>)
    ensures
        json::opt_owned(r) == tool_of(tool@),
{
    let function = match tool.get("function") {
        Some(f) => f,
        None => tool,
    };
    let name = protocol::string_field(function, "name");
    if name.as_str().is_empty() {
        return None;
    }
    let mut out = Json::obj().with("name", Json::Str(name));
    out.put_some("description", json::truthy_in(function.get("description")));
    let schema = json::copy_or_null(function.get("parameters"));
    out.put("input_schema", normalize_input_schema(&schema));
    Some(out)
}

/// The first `n` tools.
pub open spec fn tools_of(tools: Seq<Jv>, n: nat) -> Seq<Jv>
    decreases n,
{
    if n == 0 {
        Seq::empty()
    } else {
        push_some(tools_of(tools, (n - 1) as nat), tool_of(tools[n - 1]))
    }
}

/// The choice among the tools.
pub open spec fn choice_to(choice: Jv) -> Jv {
    match choice {
        Jv::Str(s) => Jv::obj().put(
            "type"@,
            Jv::Str(
                if s == "required"@ {
                    "any"@
                } else if s == "none"@ {
                    "none"@
                } else {
                    "auto"@
                },
            ),
        ),
        _ => {
            let name = chosen_name(choice);
            if name.len() == 0 {
                Jv::obj().put("type"@, Jv::Str("auto"@))
            } else {
                Jv::obj().put("type"@, Jv::Str("tool"@)).put("name"@, Jv::Str(name))
            }
        },
    }
}

/// The name of the tool that is chosen.
pub open spec fn chosen_name(choice: Jv) -> Seq<char> {
    protocol::or_else(protocol::opt_loose(json::opt_get(choice.get("function"@), "name"@)), protocol::loose_field(choice, "name"@))
}

pub(crate) fn read_chosen_name(choice: &Json) -> (r: String)
    ensures
        r@ == chosen_name(choice@),
{
    protocol::or_text(
        protocol::opt_string_value(json::get_in(choice.get("function"), "name")),
        protocol::string_field(choice, "name").as_str(),
    )
}

fn tool_choice_to_anthropic(choice: &Json) -> (r: Json)
    ensures
        r@ == choice_to(choice@),
{
    if let Json::Str(s) = choice {
        let kind = if text::same(s.as_str(), "required") {
            "any"
        } else if text::same(s.as_str(), "none") {
            "none"
        } else {
            "auto"
        };
        return Json::obj().with("type", Json::str(kind));
    }
    let name = read_chosen_name(choice);
    if name.as_str().is_empty() {
        return Json::obj().with("type", Json::str("auto"));
    }
    Json::obj().with("type", Json::str("tool")).with("name", Json::Str(name))
}

// ------------------------------------------------------------------ thinking

/// The budget that a level of effort stands for; none for an unknown level.
pub open spec fn budget_of(effort: Seq<char>) -> Option<int> {
    match reasoning::rank(effort) {
        Some(n) => Some(
            if n <= 1 {
                1024
            } else if n == 2 {
                4096
            } else if n == 3 {
                10240
            } else {
                32768int
            },
        ),
        None => None,
    }
}

fn thinking_budget(effort: &str) -> (r: Option<i64>)
    ensures
        r is Some <==> budget_of(effort@) is Some,
        r matches Some(n) ==> budget_of(effort@) == Some(n as int),
{
    match reasoning::reasoning_rank(effort) {
        Some(n) => Some(
            if n <= 1 {
                1024
            } else if n == 2 {
                4096
            } else if n == 3 {
                10240
            } else {
                32768
            },
        ),
        None => None,
    }
}

/// The level of effort that a chat request asks for, where it names one.
pub open spec fn asked_effort(chat: Jv) -> Option<Seq<char>> {
    match chat.get("reasoning_effort"@) {
        Some(Jv::Str(s)) => if text::trimmed(s).len() == 0 {
            None
        } else {
            Some(text::trimmed(s))
        },
        _ => None,
    }
}

pub(crate) fn read_asked_effort(chat: &Json) -> (r: Option<String>)
    ensures
        json::opt_string(r) == asked_effort(chat@),
{
    if let Some(Json::Str(s)) = chat.get("reasoning_effort") {
        let level = text::trim(s.as_str());
        if !level.as_str().is_empty() {
            return Some(level);
        }
    }
    None
}

/// The thinking budget that a chat request asks for.
pub open spec fn asked_budget(chat: Jv) -> Option<int> {
    match asked_effort(chat) {
        Some(level) => budget_of(level),
        None => None,
    }
}

/// A positive integer under a key.
pub open spec fn positive_under(chat: Jv, key: Seq<char>) -> Option<int> {
    match chat.get(key) {
        Some(v) => match v.as_i64() {
            Some(n) => if n > 0 {
                Some(n)
            } else {
                None
            },
            None => None,
        },
        None => None,
    }
}

pub(crate) fn read_positive(chat: &Json, key: &str) -> (r: Option<i64>)
    ensures
        r is Some <==> positive_under(chat@, key@) is Some,
        r matches Some(n) ==> positive_under(chat@, key@) == Some(n as int),
{
    if let Some(v) = chat.get(key) {
        if let Some(n) = v.as_i64() {
            if n > 0 {
                return Some(n);
            }
        }
    }
    None
}

/// The token limit that a chat request names, or the default.
pub open spec fn named_limit(chat: Jv) -> int {
    match positive_under(chat, "max_tokens"@) {
        Some(n) => n,
        None => match positive_under(chat, "max_completion_tokens"@) {
            Some(n) => n,
            None => anthropic::DEFAULT_MAX_TOKENS as int,
        },
    }
}

/// The token limit that is sent: above the thinking budget.
pub open spec fn sent_limit(chat: Jv) -> int {
    match asked_budget(chat) {
        Some(budget) => if named_limit(chat) <= budget {
            budget + 1024
        } else {
            named_limit(chat)
        },
        None => named_limit(chat),
    }
}

fn read_limit(chat: &Json, budget: Option<i64>) -> (r: i64)
    requires
        budget is Some <==> asked_budget(chat@) is Some,
        budget matches Some(n) ==> asked_budget(chat@) == Some(n as int),
    ensures
        r == sent_limit(chat@),
{
    let named = match read_positive(chat, "max_tokens") {
        Some(n) => n,
        None => match read_positive(chat, "max_completion_tokens") {
            Some(n) => n,
            None => anthropic::DEFAULT_MAX_TOKENS,
        },
    };
    match budget {
        Some(b) => if named <= b {
            b + 1024
        } else {
            named
        },
        None => named,
    }
}

// ------------------------------------------------------------------- request

/// The thinking member of a request.
pub open spec fn thinking_member(chat: Jv) -> Option<Jv> {
    match asked_budget(chat) {
        Some(budget) => Some(
            Jv::obj().put("type"@, Jv::Str("enabled"@)).put("budget_tokens"@, Jv::Int(budget)),
        ),
        None => None,
    }
}

/// A sampling parameter, which goes along only where the model does not think.
pub open spec fn sampling(chat: Jv, key: Seq<char>) -> Option<Jv> {
    match asked_budget(chat) {
        Some(_) => None,
        None => json::if_not_null(chat.get(key)),
    }
}

/// The texts at which the model stops, as a list.
pub open spec fn stops(chat: Jv) -> Option<Jv> {
    match json::if_truthy(chat.get("stop"@)) {
        Some(Jv::Arr(list)) => if list.len() == 0 {
            None
        } else {
            Some(Jv::Arr(list))
        },
        Some(one) => Some(Jv::Arr(seq![one])),
        None => None,
    }
}

/// The tools of a request, where any are left.
pub open spec fn tools_sent(chat: Jv) -> Option<Jv> {
    match chat.get("tools"@) {
        Some(Jv::Arr(tools)) => if tools_of(tools, tools.len()).len() == 0 {
            None
        } else {
            Some(Jv::Arr(tools_of(tools, tools.len())))
        },
        _ => None,
    }
}

/// The choice among the tools, where one was made.
pub open spec fn choice_sent(chat: Jv) -> Option<Jv> {
    match json::if_truthy(chat.get("tool_choice"@)) {
        Some(choice) => Some(choice_to(choice)),
        None => None,
    }
}

/// The system text of a request, where there is any.
pub open spec fn system_sent(messages: Seq<Jv>) -> Option<Jv> {
    chat::some_text(system_texts(messages, messages.len()))
}

/// The Messages request of a chat request. `fresh` holds, for each message and
/// each of its tool calls, the identifier that stands in for a missing one. A
/// request without a list of messages is refused.
pub open spec fn request_of_chat(
    chat: Jv,
    model: Seq<char>,
    fresh: Seq<Seq<Seq<char>>>,
) -> Result<Jv, Seq<char>> {
    match chat.get("messages"@) {
        Some(Jv::Arr(messages)) => Ok(
            Jv::obj().put("model"@, Jv::Str(model)).put(
                "messages"@,
                Jv::Arr(turn_messages(turns_of(messages, fresh, messages.len()))),
            ).put("stream"@, Jv::Bool(chat::flag(chat, "stream"@))).put_some(
                "system"@,
                system_sent(messages),
            ).put("max_tokens"@, Jv::Int(sent_limit(chat))).put_some(
                "thinking"@,
                thinking_member(chat),
            ).put_some("temperature"@, sampling(chat, "temperature"@)).put_some(
                "top_p"@,
                sampling(chat, "top_p"@),
            ).put_some("stop_sequences"@, stops(chat)).put_some("tools"@, tools_sent(chat)).put_some(
                "tool_choice"@,
                choice_sent(chat),
            ),
        ),
        _ => Err("缺少 messages 数组"@),
    }
}

/// What the upstream asks of a request that makes it think: the budget stays below
/// the token limit, and no sampling parameters go along.
pub proof fn thinking_rules(chat: Jv, model: Seq<char>, fresh: Seq<Seq<Seq<char>>>)
    ensures
        request_of_chat(chat, model, fresh) matches Ok(r) ==> {
            &&& r.get("max_tokens"@) == Some(Jv::Int(sent_limit(chat)))
            &&& sent_limit(chat) > 0
            &&& r.get("thinking"@) matches Some(t) ==> {
                &&& t.get("budget_tokens"@) matches Some(Jv::Int(budget))
                &&& budget < sent_limit(chat)
                &&& r.get("temperature"@) is None
                &&& r.get("top_p"@) is None
            }
        },
{
    if let Ok(r) = request_of_chat(chat, model, fresh) {
        reveal_strlit("model");
        reveal_strlit("messages");
        reveal_strlit("stream");
        reveal_strlit("system");
        reveal_strlit("max_tokens");
        reveal_strlit("thinking");
        reveal_strlit("temperature");
        reveal_strlit("top_p");
        reveal_strlit("stop_sequences");
        reveal_strlit("tools");
        reveal_strlit("tool_choice");
        reveal_strlit("type");
        reveal_strlit("budget_tokens");
        assert("model"@.len() == 5 && "top_p"@.len() == 5 && "tools"@.len() == 5);
        assert("model"@[0] == 'm' && "top_p"@[2] == 'p' && "tools"@[2] == 'o' && "top_p"@[0] == 't');
        assert("messages"@.len() == 8 && "thinking"@.len() == 8);
        assert("messages"@[0] == 'm' && "thinking"@[0] == 't');
        assert("stream"@.len() == 6 && "system"@.len() == 6);
        assert("max_tokens"@.len() == 10);
        assert("temperature"@.len() == 11 && "tool_choice"@.len() == 11);
        assert("temperature"@[1] == 'e' && "tool_choice"@[1] == 'o');
        assert("stop_sequences"@.len() == 14);
        assert("type"@.len() == 4);
    }
}

fn read_stops(chat: &Json) -> (r: Option<Json>)
    ensures
        json::opt_owned(r) == stops(chat@),
{
    broadcast use json::group_json;

    match json::truthy_in(chat.get("stop")) {
        Some(Json::Arr(list)) => {
            proof {
                json::model_arr(*list);
            }
            if list.len() == 0 {
                None
            } else {
                let all = json::copy_all(list);
                proof {
                    json::model_arr(all);
                }
                Some(Json::Arr(all))
            }
        },
        Some(one) => {
            let mut list: Vec<Json> = Vec::new();
            list.push(one.copy());
            proof {
                assert(json::models(list@) =~= seq![one@]);
                json::model_arr(list);
            }
            Some(Json::Arr(list))
        },
        None => None,
    }
}

fn read_tools(chat: &Json) -> (r: Option<Json>)
    ensures
        json::opt_owned(r) == tools_sent(chat@),
{
    broadcast use json::group_json;

    if let Some(Json::Arr(tools)) = chat.get("tools") {
        let ghost want = json::models(tools@);
        proof {
            json::model_arr(*tools);
        }
        let mut out: Vec<Json> = Vec::new();
        let mut i: usize = 0;
        while i < tools.len()
            invariant
                i <= tools@.len(),
                want == json::models(tools@),
                json::models(out@) == tools_of(want, i as nat),
            decreases tools@.len() - i,
        {
            if let Some(tool) = tool_to_anthropic(&tools[i]) {
                proof {
                    json::models_push(out@, tool);
                }
                out.push(tool);
            }
            i = i + 1;
        }
        if out.len() > 0 {
            proof {
                json::model_arr(out);
            }
            return Some(Json::Arr(out));
        }
    }
    None
}

/// The Messages request of a chat request, with the identifiers that it may need
/// given.
pub fn anthropic_request_from_chat_with(
    chat: &Json,
    model: &str,
    fresh: &Vec<Vec<String>>,
) -> (r: Result<Json, String>)
    ensures
        json::outcome(r) == request_of_chat(chat@, model@, protocol::grid(fresh@)),
{
    broadcast use json::group_json;

    let input = match chat.get("messages") {
        Some(Json::Arr(list)) => list,
        _ => {
            return Err("缺少 messages 数组".to_owned());
        },
    };
    let ghost want = json::models(input@);
    let ghost ids = protocol::grid(fresh@);
    proof {
        json::model_arr(*input);
    }
    let mut system = String::new();
    let mut turns: Vec<Turn> = Vec::new();
    let none: Vec<String> = Vec::new();
    proof {
        reveal_strlit("");
        assert(turns_view(turns@) =~= Seq::empty());
        assert(protocol::texts(none@) =~= Seq::empty());
    }
    let mut i: usize = 0;
    while i < input.len()
        invariant
            i <= input@.len(),
            want == json::models(input@),
            ids == protocol::grid(fresh@),
            protocol::texts(none@) == Seq::<Seq<char>>::empty(),
            system@ == system_texts(want, i as nat),
            turns_view(turns@) == turns_of(want, ids, i as nat),
        decreases input@.len() - i,
    {
        let message = &input[i];
        let role = read_role(message);
        if text::same(role.as_str(), "system") {
            let text = protocol::opt_content_text(message.get("content"));
            if !text::trim(text.as_str()).as_str().is_empty() {
                system = protocol::join_with(system, "\n\n", text.as_str());
            }
        } else {
            let given: &Vec<String> = if i < fresh.len() {
                &fresh[i]
            } else {
                &none
            };
            proof {
                assert(protocol::texts(given@) == protocol::row(ids, i as int));
            }
            let blocks = anthropic_blocks_of(message, role.as_str(), given);
            if blocks.len() > 0 {
                append_merged(&mut turns, text::same(role.as_str(), "assistant"), blocks);
            }
        }
        i = i + 1;
    }
    let messages = write_turns(turns);
    proof {
        json::model_arr(messages);
    }
    let budget = match read_asked_effort(chat) {
        Some(level) => thinking_budget(level.as_str()),
        None => None,
    };
    let limit = read_limit(chat, budget);
    let mut out = Json::obj().with("model", Json::str(model)).with(
        "messages",
        Json::Arr(messages),
    ).with("stream", Json::Bool(chat::read_flag(chat, "stream")));
    if !system.as_str().is_empty() {
        out.put("system", Json::Str(system));
    }
    out.put("max_tokens", Json::Int(limit));
    match budget {
        Some(b) => {
            let thinking = Json::obj().with("type", Json::str("enabled")).with(
                "budget_tokens",
                Json::Int(b),
            );
            out.put("thinking", thinking);
        },
        None => {
            out.put_some("temperature", json::not_null_in(chat.get("temperature")));
            out.put_some("top_p", json::not_null_in(chat.get("top_p")));
        },
    }
    let stop_list = read_stops(chat);
    out.put_some("stop_sequences", stop_list.as_ref());
    let tools = read_tools(chat);
    out.put_some("tools", tools.as_ref());
    if let Some(choice) = json::truthy_in(chat.get("tool_choice")) {
        out.put("tool_choice", tool_choice_to_anthropic(choice));
    }
    Ok(out)
}

/// Whether the identifiers are enough for the tool calls of every message.
pub open spec fn calls_fit(messages: Seq<Jv>, fresh: Seq<Seq<Seq<char>>>) -> bool {
    &&& fresh.len() == messages.len()
    &&& forall|i: int|
        0 <= i < messages.len() ==> (#[trigger] fresh[i]).len() == chat::calls_of(messages[i]).len()
            && protocol::all_ids("toolu"@, fresh[i])
}

/// The messages of a chat request.
pub open spec fn messages_in(chat: Jv) -> Seq<Jv> {
    match chat.get("messages"@) {
        Some(v) => v.items(),
        None => Seq::empty(),
    }
}

/// Fresh identifiers for the tool calls of every message of a chat request.
pub(crate) fn draw_calls(chat: &Json) -> (r: Vec<Vec<String>>)
    ensures
        calls_fit(messages_in(chat@), protocol::grid(r@)),
{
    broadcast use json::group_json;

    let mut fresh: Vec<Vec<String>> = Vec::new();
    if let Some(Json::Arr(list)) = chat.get("messages") {
        let ghost want = json::models(list@);
        proof {
            json::model_arr(*list);
        }
        let mut i: usize = 0;
        while i < list.len()
            invariant
                i <= list@.len(),
                want == json::models(list@),
                fresh@.len() == i,
                forall|k: int|
                    0 <= k < i ==> protocol::texts((#[trigger] fresh@[k])@).len() == chat::calls_of(want[k]).len()
                        && protocol::all_ids("toolu"@, protocol::texts(fresh@[k]@)),
            decreases list@.len() - i,
        {
            let count: usize = match list[i].get("tool_calls") {
                Some(Json::Arr(calls)) => {
                    proof {
                        json::model_arr(*calls);
                    }
                    calls.len()
                },
                _ => 0,
            };
            fresh.push(protocol::random_ids("toolu", count));
            i = i + 1;
        }
        proof {
            assert(messages_in(chat@) == want);
        }
    }
    fresh
}

/// The Messages request of a chat request.
pub fn anthropic_request_from_chat(chat: &Json, model: &str) -> (r: Result<Json, String>)
    ensures
        exists|fresh: Seq<Seq<Seq<char>>>| #[trigger]
            calls_fit(messages_in(chat@), fresh) && json::outcome(r) == request_of_chat(
                chat@,
                model@,
                fresh,
            ),
{
    let fresh = draw_calls(chat);
    anthropic_request_from_chat_with(chat, model, &fresh)
}

// -------------------------------------------------------------------- stream

/// What the translation of an upstream stream knows.
#[verifier::ext_equal]
pub struct InboundV {
    /// The line of the upstream that is not complete yet.
    pub line: Seq<u8>,
    pub writer: WriterV,
    /// The tool blocks by their number, and whether they have got any arguments.
    pub tools: Map<i64, bool>,
    pub input: int,
    pub cache_read: int,
    pub cache_creation: int,
    pub output: int,
    /// Why the upstream stopped, in the words of the chat protocol.
    pub finish: Option<Seq<char>>,
}

/// The beginning of a stream.
pub open spec fn fresh_inbound(model: Seq<char>, created: int) -> InboundV {
    InboundV {
        line: Seq::empty(),
        writer: chunks::new_writer(model, created),
        tools: Map::empty(),
        input: 0,
        cache_read: 0,
        cache_creation: 0,
        output: 0,
        finish: None,
    }
}

/// The stream begun, if it was not.
pub open spec fn opened(st: InboundV, id: Seq<char>) -> (InboundV, Seq<Fv>) {
    let (writer, ev) = chunks::start_step(st.writer, id);
    (InboundV { writer, ..st }, ev)
}

/// One piece, behind the beginning of the stream.
pub open spec fn said(st: InboundV, id: Seq<char>, delta: Jv) -> (InboundV, Seq<Fv>) {
    let (after, ev) = opened(st, id);
    (after, ev.push(chunks::delta_chunk(after.writer, delta)))
}

/// Nothing said.
pub open spec fn silent(st: InboundV) -> (InboundV, Seq<Fv>) {
    (st, Seq::empty())
}

/// The beginning of the message: its identifier and what it has cost so far.
pub open spec fn begun(st: InboundV, event: Jv) -> InboundV {
    let id = json::str_or_empty(json::opt_get(event.get("message"@), "id"@));
    let usage = json::opt_get(event.get("message"@), "usage"@);
    let known = InboundV {
        writer: if id.len() == 0 {
            st.writer
        } else {
            WriterV { id, ..st.writer }
        },
        ..st
    };
    match usage {
        Some(Jv::Obj(u)) => InboundV {
            input: json::int_or_zero(Jv::Obj(u).get("input_tokens"@)),
            cache_read: json::int_or_zero(Jv::Obj(u).get("cache_read_input_tokens"@)),
            cache_creation: json::int_or_zero(Jv::Obj(u).get("cache_creation_input_tokens"@)),
            ..known
        },
        _ => known,
    }
}

/// The number of the block that an event is about.
pub open spec fn block_number(event: Jv) -> i64 {
    json::int_or_zero(event.get("index"@)) as i64
}

/// The beginning of a block: a tool block announces a call, and its input follows
/// where it is there already.
pub open spec fn block_step(st: InboundV, event: Jv, ids: NewIds) -> (InboundV, Seq<Fv>) {
    let block = event.field("content_block"@);
    if text::lowercase(protocol::loose_field(block, "type"@)) != "tool_use"@ {
        silent(st)
    } else {
        let index = block_number(event);
        let (mid, ev) = said(
            InboundV { tools: st.tools.insert(index, false), ..st },
            ids.id,
            chunks::call_delta(
                index as int,
                protocol::or_else(protocol::loose_field(block, "id"@), ids.call),
                protocol::loose_field(block, "name"@),
            ),
        );
        match block.get("input"@) {
            Some(Jv::Obj(m)) => if m == Map::<Seq<char>, Jv>::empty() {
                (mid, ev)
            } else {
                (
                    InboundV { tools: mid.tools.insert(index, true), ..mid },
                    ev.push(
                        chunks::delta_chunk(
                            mid.writer,
                            chunks::arguments_delta(index as int, protocol::loose(Jv::Obj(m))),
                        ),
                    ),
                )
            },
            _ => (mid, ev),
        }
    }
}

/// A piece of a block: text, thinking, or arguments of a tool call.
pub open spec fn piece_step(st: InboundV, event: Jv, ids: NewIds) -> (InboundV, Seq<Fv>) {
    let delta = event.field("delta"@);
    let kind = text::lowercase(protocol::loose_field(delta, "type"@));
    if kind == "text_delta"@ {
        let text = protocol::loose_field(delta, "text"@);
        if text.len() == 0 {
            silent(st)
        } else {
            said(st, ids.id, Jv::obj().put("content"@, Jv::Str(text)))
        }
    } else if kind == "thinking_delta"@ {
        let text = protocol::loose_field(delta, "thinking"@);
        if text.len() == 0 {
            silent(st)
        } else {
            said(st, ids.id, Jv::obj().put("reasoning_content"@, Jv::Str(text)))
        }
    } else if kind == "input_json_delta"@ {
        let partial = protocol::loose_field(delta, "partial_json"@);
        if partial.len() == 0 {
            silent(st)
        } else {
            let index = block_number(event);
            said(
                InboundV { tools: st.tools.insert(index, true), ..st },
                ids.id,
                chunks::arguments_delta(index as int, partial),
            )
        }
    } else {
        silent(st)
    }
}

/// The end of a block: a tool call without arguments gets empty ones.
pub open spec fn block_end_step(st: InboundV, event: Jv) -> (InboundV, Seq<Fv>) {
    let index = block_number(event);
    if st.tools.contains_key(index) && !st.tools[index] {
        (
            InboundV { tools: st.tools.insert(index, true), ..st },
            seq![chunks::delta_chunk(st.writer, chunks::arguments_delta(index as int, "{}"@))],
        )
    } else {
        silent(st)
    }
}

/// A reason to stop in the words of the chat protocol.
pub open spec fn chat_reason(reason: Seq<char>) -> Seq<char> {
    if reason == "max_tokens"@ {
        "length"@
    } else if reason == "tool_use"@ {
        "tool_calls"@
    } else {
        "stop"@
    }
}

/// What is known near the end: why the upstream stopped, and what it has written.
pub open spec fn ending_noted(st: InboundV, event: Jv) -> InboundV {
    let reason = text::lowercase(text::trimmed(protocol::opt_loose(json::opt_get(event.get("delta"@), "stop_reason"@))));
    let known = InboundV {
        finish: if reason.len() == 0 {
            st.finish
        } else {
            Some(chat_reason(reason))
        },
        ..st
    };
    match event.get("usage"@) {
        Some(Jv::Obj(u)) => match Jv::Obj(u).get("output_tokens"@) {
            Some(v) => match v.as_i64() {
                Some(n) => InboundV { output: n, ..known },
                None => known,
            },
            None => known,
        },
        _ => known,
    }
}

/// The usage report in the words of the chat protocol: the prompt counts what was
/// read from the cache and what was put there.
pub open spec fn usage_of(st: InboundV) -> Jv {
    let prompt = responses::clamped(responses::clamped(st.input + st.cache_read) + st.cache_creation);
    Jv::obj().put("prompt_tokens"@, Jv::Int(prompt)).put(
        "completion_tokens"@,
        Jv::Int(st.output),
    ).put("total_tokens"@, Jv::Int(responses::clamped(prompt + st.output)))
}

/// Why the stream ends: what the upstream said, else by whether it called a tool.
pub open spec fn reason_of(st: InboundV) -> Seq<char> {
    match st.finish {
        Some(reason) => reason,
        None => if st.tools == Map::<i64, bool>::empty() {
            "stop"@
        } else {
            "tool_calls"@
        },
    }
}

/// The end of the stream, once: the reason, the usage report, the closing mark.
pub open spec fn complete_step(st: InboundV, id: Seq<char>) -> (InboundV, Seq<Fv>) {
    if st.writer.finished {
        silent(st)
    } else {
        let (after, ev) = opened(
            InboundV { writer: WriterV { finished: true, ..st.writer }, ..st },
            id,
        );
        (
            after,
            ev.push(chunks::finish_chunk(after.writer, reason_of(st))).push(
                chunks::usage_chunk(after.writer, usage_of(st)),
            ).push(Fv::Done),
        )
    }
}

/// An error of the upstream ends the stream.
pub open spec fn fail_step(st: InboundV, event: Jv) -> (InboundV, Seq<Fv>) {
    (
        InboundV { writer: WriterV { finished: true, ..st.writer }, ..st },
        chunks::error_frames(chunks::stream_error(json::if_truthy(event.get("error"@)), event)),
    )
}

/// One event of the upstream.
pub open spec fn event_step(st: InboundV, event: Jv, ids: NewIds) -> (InboundV, Seq<Fv>) {
    let kind = text::lowercase(protocol::loose_field(event, "type"@));
    if st.writer.finished {
        silent(st)
    } else if kind == "error"@ {
        fail_step(st, event)
    } else if kind == "message_start"@ {
        opened(begun(st, event), ids.id)
    } else if kind == "content_block_start"@ {
        block_step(st, event, ids)
    } else if kind == "content_block_delta"@ {
        piece_step(st, event, ids)
    } else if kind == "content_block_stop"@ {
        block_end_step(st, event)
    } else if kind == "message_delta"@ {
        silent(ending_noted(st, event))
    } else if kind == "message_stop"@ {
        complete_step(st, ids.id)
    } else {
        silent(st)
    }
}

/// A payload of the upstream; one that is no JSON says nothing.
pub open spec fn payload_step(st: InboundV, data: Seq<char>, ids: NewIds) -> (InboundV, Seq<Fv>) {
    match json::parsed_json(data) {
        Some(event) => event_step(st, event, ids),
        None => silent(st),
    }
}

/// The end of the upstream: what is left in the line is taken in first.
pub open spec fn finish_step(st: InboundV, given: Given) -> (InboundV, Seq<Fv>) {
    if st.writer.finished {
        silent(st)
    } else {
        let rest = InboundV { line: Seq::empty(), ..st };
        let (mid, ev) = match protocol::last_payload(st.line) {
            Some(data) => payload_step(rest, data, given.ids),
            None => silent(rest),
        };
        let (after, more) = complete_step(mid, given.end);
        (after, ev + more)
    }
}

/// The first `n` payloads; `given` holds what each of them may need.
pub open spec fn payloads_step(
    st: InboundV,
    list: Seq<Option<Seq<char>>>,
    given: Seq<Given>,
    n: nat,
) -> (InboundV, Seq<Fv>)
    decreases n,
{
    if n == 0 {
        silent(st)
    } else {
        let (before, ev) = payloads_step(st, list, given, (n - 1) as nat);
        let (after, more) = match list[n - 1] {
            Some(data) => payload_step(before, data, given[n - 1].ids),
            None => finish_step(before, given[n - 1]),
        };
        (after, ev + more)
    }
}

/// Bytes of the upstream.
pub open spec fn push_step(st: InboundV, bytes: Seq<u8>, given: Seq<Given>) -> (
    InboundV,
    Seq<Fv>,
) {
    let list = protocol::payloads(st.line, bytes);
    payloads_step(InboundV { line: protocol::line_left(st.line, bytes), ..st }, list, given, list.len())
}

proof fn payloads_step_prefix(
    st: InboundV,
    list: Seq<Option<Seq<char>>>,
    a: Seq<Given>,
    b: Seq<Given>,
    n: nat,
)
    requires
        n <= a.len() <= b.len(),
        forall|k: int| 0 <= k < a.len() ==> a[k] == #[trigger] b[k],
    ensures
        payloads_step(st, list, a, n) == payloads_step(st, list, b, n),
    decreases n,
{
    if n > 0 {
        payloads_step_prefix(st, list, a, b, (n - 1) as nat);
    }
}

/// Each event closes the stream exactly where it ends it, with the closing mark
/// behind everything else; after the end nothing comes.
pub proof fn event_step_closes(st: InboundV, event: Jv, ids: NewIds)
    ensures
        chunks::closes(st.writer.finished, event_step(st, event, ids).0.writer.finished, event_step(
            st,
            event,
            ids,
        ).1),
{
}

/// The end of the upstream closes the stream, once.
pub proof fn finish_step_closes(st: InboundV, given: Given)
    ensures
        finish_step(st, given).0.writer.finished,
        chunks::closes(st.writer.finished, true, finish_step(st, given).1),
{
    if !st.writer.finished {
        let rest = InboundV { line: Seq::empty(), ..st };
        if let Some(data) = protocol::last_payload(st.line) {
            if let Some(event) = json::parsed_json(data) {
                event_step_closes(rest, event, given.ids);
            }
        }
        let (mid, ev) = match protocol::last_payload(st.line) {
            Some(data) => payload_step(rest, data, given.ids),
            None => silent(rest),
        };
        let more = complete_step(mid, given.end).1;
        assert(chunks::closes(mid.writer.finished, true, more));
        chunks::closes_add(false, mid.writer.finished, true, ev, more);
    }
}

/// Bytes of the upstream close the stream at most once, behind everything else.
pub proof fn push_step_closes(st: InboundV, bytes: Seq<u8>, given: Seq<Given>)
    ensures
        chunks::closes(st.writer.finished, push_step(st, bytes, given).0.writer.finished, push_step(
            st,
            bytes,
            given,
        ).1),
{
    let list = protocol::payloads(st.line, bytes);
    payloads_close(InboundV { line: protocol::line_left(st.line, bytes), ..st }, list, given, list.len());
}

proof fn payloads_close(
    st: InboundV,
    list: Seq<Option<Seq<char>>>,
    given: Seq<Given>,
    n: nat,
)
    ensures
        chunks::closes(st.writer.finished, payloads_step(st, list, given, n).0.writer.finished, payloads_step(
            st,
            list,
            given,
            n,
        ).1),
    decreases n,
{
    if n > 0 {
        payloads_close(st, list, given, (n - 1) as nat);
        let (before, ev) = payloads_step(st, list, given, (n - 1) as nat);
        let (after, more) = match list[n - 1] {
            Some(data) => payload_step(before, data, given[n - 1].ids),
            None => finish_step(before, given[n - 1]),
        };
        match list[n - 1] {
            Some(data) => match json::parsed_json(data) {
                Some(event) => event_step_closes(before, event, given[n - 1].ids),
                None => {},
            },
            None => finish_step_closes(before, given[n - 1]),
        }
        chunks::closes_add(
            st.writer.finished,
            before.writer.finished,
            after.writer.finished,
            ev,
            more,
        );
    }
}

/// The tool blocks of a stream, and whether they have got any arguments.
struct ToolFlags {
    flags: BTreeMap<i64, bool>,
}

impl ToolFlags {
    spec fn map(self) -> Map<i64, bool> {
        self.flags@
    }

    fn new() -> (r: ToolFlags)
        ensures
            r.map() == Map::<i64, bool>::empty(),
    {
        ToolFlags { flags: BTreeMap::new() }
    }

    fn set(&mut self, index: i64, filled: bool)
        ensures
            final(self).map() == old(self).map().insert(index, filled),
    {
        broadcast use vstd::laws_cmp::group_laws_cmp;

        self.flags.insert(index, filled);
    }

    fn wants_arguments(&self, index: i64) -> (r: bool)
        ensures
            r == (self.map().contains_key(index) && !self.map()[index]),
    {
        broadcast use vstd::laws_cmp::group_laws_cmp;
        broadcast use vstd::std_specs::btree::group_btree_axioms;

        match self.flags.get(&index) {
            Some(filled) => !*filled,
            None => false,
        }
    }

    fn is_empty(&self) -> (r: bool)
        ensures
            r == (self.map() == Map::<i64, bool>::empty()),
    {
        proof {
            if self.map().is_empty() {
                assert(self.map() =~= Map::<i64, bool>::empty());
            }
        }
        self.flags.is_empty()
    }
}

/// Turns the event stream of an Anthropic upstream into a chat stream.
pub struct ChatFromAnthropicStream {
    buffer: SseLineBuffer,
    writer: ChunkWriter,
    tools: ToolFlags,
    input_tokens: i64,
    cache_read: i64,
    cache_creation: i64,
    output_tokens: i64,
    finish_reason: Option<String>,
}

impl View for ChatFromAnthropicStream {
    type V = InboundV;

    closed spec fn view(&self) -> InboundV {
        InboundV {
            line: self.buffer.line(),
            writer: self.writer@,
            tools: self.tools.map(),
            input: self.input_tokens as int,
            cache_read: self.cache_read as int,
            cache_creation: self.cache_creation as int,
            output: self.output_tokens as int,
            finish: json::opt_string(self.finish_reason),
        }
    }
}

impl ChatFromAnthropicStream {
    /// The beginning of a stream, with the time of its making given.
    pub fn at(model: &str, created: i64) -> (r: ChatFromAnthropicStream)
        ensures
            r@ == fresh_inbound(model@, created as int),
    {
        ChatFromAnthropicStream {
            buffer: SseLineBuffer::new(),
            writer: ChunkWriter::new(model, created),
            tools: ToolFlags::new(),
            input_tokens: 0,
            cache_read: 0,
            cache_creation: 0,
            output_tokens: 0,
            finish_reason: None,
        }
    }

    /// The beginning of a stream.
    pub fn new(model: &str) -> (r: ChatFromAnthropicStream)
        ensures
            r@ == fresh_inbound(model@, r@.writer.created),
    {
        Self::at(model, responses::clock_s())
    }

    fn say(&mut self, id: &str, delta: Json) -> (r: Vec<Frame>)
        ensures
            (final(self)@, protocol::frames(r@)) == said(old(self)@, id@, delta@),
    {
        broadcast use protocol::group_frames;

        let mut out = self.writer.start(id);
        out.push(self.writer.delta(delta));
        out
    }

    fn begin(&mut self, event: &Json)
        ensures
            final(self)@ == begun(old(self)@, event@),
    {
        let id = json::str_or(json::get_in(event.get("message"), "id"));
        if !id.as_str().is_empty() {
            self.writer.set_id(id.as_str());
        }
        if let Some(usage) = json::get_in(event.get("message"), "usage") {
            if usage.is_obj() {
                self.input_tokens = json::int_or(usage.get("input_tokens"));
                self.cache_read = json::int_or(usage.get("cache_read_input_tokens"));
                self.cache_creation = json::int_or(usage.get("cache_creation_input_tokens"));
            }
        }
    }

    fn open_block(&mut self, event: &Json, call: &str, id: &str) -> (r: Vec<Frame>)
        ensures
            (final(self)@, protocol::frames(r@)) == block_step(
                old(self)@,
                event@,
                (NewIds { call: call@, id: id@ }),
            ),
    {
        broadcast use protocol::group_frames;

        let none = Json::Null;
        let block = match event.get("content_block") {
            Some(b) => b,
            None => &none,
        };
        if !text::same(text::lower(protocol::string_field(block, "type").as_str()).as_str(), "tool_use") {
            return Vec::new();
        }
        let index: i64 = json::int_or(event.get("index"));
        self.tools.set(index, false);
        let call_id = protocol::or_text(protocol::string_field(block, "id"), call);
        let name = protocol::string_field(block, "name");
        let delta = chunks::make_call_delta(Json::Int(index), call_id.as_str(), name.as_str());
        let mut out = self.say(id, delta);
        if let Some(input) = block.get("input") {
            if input.has_members() {
                self.tools.set(index, true);
                let arguments = protocol::json_text(input);
                let more = chunks::make_arguments_delta(Json::Int(index), arguments.as_str());
                out.push(self.writer.delta(more));
            }
        }
        out
    }

    fn add_piece(&mut self, event: &Json, call: &str, id: &str) -> (r: Vec<Frame>)
        ensures
            (final(self)@, protocol::frames(r@)) == piece_step(
                old(self)@,
                event@,
                (NewIds { call: call@, id: id@ }),
            ),
    {
        broadcast use protocol::group_frames;

        let none = Json::Null;
        let delta = match event.get("delta") {
            Some(d) => d,
            None => &none,
        };
        let kind = text::lower(protocol::string_field(delta, "type").as_str());
        if text::same(kind.as_str(), "text_delta") {
            let text = protocol::string_field(delta, "text");
            if text.as_str().is_empty() {
                return Vec::new();
            }
            return self.say(id, Json::obj().with("content", Json::Str(text)));
        }
        if text::same(kind.as_str(), "thinking_delta") {
            let text = protocol::string_field(delta, "thinking");
            if text.as_str().is_empty() {
                return Vec::new();
            }
            return self.say(id, Json::obj().with("reasoning_content", Json::Str(text)));
        }
        if text::same(kind.as_str(), "input_json_delta") {
            let partial = protocol::string_field(delta, "partial_json");
            if partial.as_str().is_empty() {
                return Vec::new();
            }
            let index: i64 = json::int_or(event.get("index"));
            self.tools.set(index, true);
            return self.say(id, chunks::make_arguments_delta(Json::Int(index), partial.as_str()));
        }
        Vec::new()
    }

    fn close_block(&mut self, event: &Json) -> (r: Vec<Frame>)
        ensures
            (final(self)@, protocol::frames(r@)) == block_end_step(old(self)@, event@),
    {
        broadcast use protocol::group_frames;

        let index: i64 = json::int_or(event.get("index"));
        let mut out: Vec<Frame> = Vec::new();
        if self.tools.wants_arguments(index) {
            self.tools.set(index, true);
            out.push(self.writer.delta(chunks::make_arguments_delta(Json::Int(index), "{}")));
            proof {
                assert(protocol::frames(out@) =~= seq![
                    chunks::delta_chunk(self@.writer, chunks::arguments_delta(index as int, "{}"@)),
                ]);
            }
        }
        out
    }

    fn note_ending(&mut self, event: &Json)
        ensures
            final(self)@ == ending_noted(old(self)@, event@),
    {
        let raw = protocol::opt_string_value(json::get_in(event.get("delta"), "stop_reason"));
        let reason = text::lower(text::trim(raw.as_str()).as_str());
        if !reason.as_str().is_empty() {
            let word = if text::same(reason.as_str(), "max_tokens") {
                "length"
            } else if text::same(reason.as_str(), "tool_use") {
                "tool_calls"
            } else {
                "stop"
            };
            self.finish_reason = Some(word.to_owned());
        }
        if let Some(usage) = event.get("usage") {
            if usage.is_obj() {
                if let Some(v) = usage.get("output_tokens") {
                    if let Some(n) = v.as_i64() {
                        self.output_tokens = n;
                    }
                }
            }
        }
    }

    fn complete(&mut self, id: &str) -> (r: Vec<Frame>)
        ensures
            (final(self)@, protocol::frames(r@)) == complete_step(old(self)@, id@),
    {
        broadcast use protocol::group_frames;

        if self.writer.is_finished() {
            return Vec::new();
        }
        self.writer.close();
        let mut out = self.writer.start(id);
        let reason = match &self.finish_reason {
            Some(reason) => reason.clone(),
            None => if self.tools.is_empty() {
                "stop".to_owned()
            } else {
                "tool_calls".to_owned()
            },
        };
        out.push(self.writer.ending(reason.as_str()));
        let prompt = responses::clamped_sum(
            responses::clamped_sum(self.input_tokens, self.cache_read),
            self.cache_creation,
        );
        let usage = Json::obj().with("prompt_tokens", Json::Int(prompt)).with(
            "completion_tokens",
            Json::Int(self.output_tokens),
        ).with("total_tokens", Json::Int(responses::clamped_sum(prompt, self.output_tokens)));
        out.push(self.writer.usage(usage));
        out.push(Frame::Done);
        out
    }

    /// Takes in one event of the upstream and gives out the frames that follow;
    /// `call` and `id` stand in for missing identifiers of a tool call and of the
    /// stream.
    pub fn consume(&mut self, event: &Json, call: &str, id: &str) -> (r: Vec<Frame>)
        ensures
            (final(self)@, protocol::frames(r@)) == event_step(
                old(self)@,
                event@,
                (NewIds { call: call@, id: id@ }),
            ),
    {
        broadcast use protocol::group_frames;

        if self.writer.is_finished() {
            return Vec::new();
        }
        let kind = text::lower(protocol::string_field(event, "type").as_str());
        if text::same(kind.as_str(), "error") {
            self.writer.close();
            return chunks::make_error_frames(json::truthy_in(event.get("error")), event);
        }
        if text::same(kind.as_str(), "message_start") {
            self.begin(event);
            return self.writer.start(id);
        }
        if text::same(kind.as_str(), "content_block_start") {
            return self.open_block(event, call, id);
        }
        if text::same(kind.as_str(), "content_block_delta") {
            return self.add_piece(event, call, id);
        }
        if text::same(kind.as_str(), "content_block_stop") {
            return self.close_block(event);
        }
        if text::same(kind.as_str(), "message_delta") {
            self.note_ending(event);
            return Vec::new();
        }
        if text::same(kind.as_str(), "message_stop") {
            return self.complete(id);
        }
        Vec::new()
    }

    fn consume_payload(&mut self, data: &str) -> (r: (Vec<Frame>, Ghost<NewIds>))
        ensures
            r.1@.fits("toolu"@),
            (final(self)@, protocol::frames(r.0@)) == payload_step(old(self)@, data@, r.1@),
    {
        broadcast use protocol::group_frames;

        let call = protocol::random_id("toolu");
        let id = protocol::random_id("chatcmpl");
        let ghost ids = NewIds { call: call@, id: id@ };
        match json::parse(data) {
            Some(event) => (self.consume(&event, call.as_str(), id.as_str()), Ghost(ids)),
            None => (Vec::new(), Ghost(ids)),
        }
    }

    fn finish_list(&mut self) -> (r: (Vec<Frame>, Ghost<Given>))
        ensures
            r.1@.fits("toolu"@),
            (final(self)@, protocol::frames(r.0@)) == finish_step(old(self)@, r.1@),
    {
        broadcast use protocol::group_frames;

        let ghost before = self@;
        let end = protocol::random_id("chatcmpl");
        let ghost spare = NewIds {
            call: protocol::id_of("toolu"@, None, 0),
            id: protocol::id_of("chatcmpl"@, None, 0),
        };
        proof {
            protocol::id_of_is_id("toolu"@, None, 0);
            protocol::id_of_is_id("chatcmpl"@, None, 0);
        }
        if self.writer.is_finished() {
            return (Vec::new(), Ghost(Given { ids: spare, end: end@ }));
        }
        let rest = self.buffer.finish();
        proof {
            let p = protocol::payload_texts(rest@);
            if rest@.len() > 0 {
                assert(p[0] == json::opt_string(rest@[0]));
                protocol::one_payload(protocol::lossy_text(before.line));
            }
        }
        let mut out: Vec<Frame> = Vec::new();
        let ghost mut ids: NewIds = spare;
        if rest.len() > 0 {
            if let Some(data) = &rest[0] {
                let (list, Ghost(used)) = self.consume_payload(data.as_str());
                out = list;
                proof {
                    ids = used;
                }
            }
        }
        let mut more = self.complete(end.as_str());
        out.append(&mut more);
        (out, Ghost(Given { ids, end: end@ }))
    }

    /// Takes in bytes of the upstream and gives out the frames that follow.
    pub fn push(&mut self, chunk: &[u8]) -> (r: Vec<bytes::Bytes>)
        ensures
            exists|given: Seq<Given>|
                #![trigger push_step(old(self)@, chunk@, given)]
                chunks::all_fit(given, "toolu"@) && given.len() == protocol::payloads(
                    old(self)@.line,
                    chunk@,
                ).len() && final(self)@ == push_step(old(self)@, chunk@, given).0 && protocol::wire(
                    r@,
                    push_step(old(self)@, chunk@, given).1,
                ),
    {
        let ghost list = protocol::payloads(self@.line, chunk@);
        let ghost start = InboundV { line: protocol::line_left(self@.line, chunk@), ..self@ };
        let queue = self.buffer.push(chunk);
        proof {
            assert(protocol::payload_texts(queue@) == list);
        }
        let mut out: Vec<Frame> = Vec::new();
        let ghost mut given: Seq<Given> = Seq::empty();
        proof {
            assert(protocol::frames(out@) =~= Seq::empty());
        }
        let mut i: usize = 0;
        while i < queue.len()
            invariant
                i <= queue@.len(),
                protocol::payload_texts(queue@) == list,
                given.len() == i,
                chunks::all_fit(given, "toolu"@),
                (self@, protocol::frames(out@)) == payloads_step(start, list, given, i as nat),
            decreases queue@.len() - i,
        {
            let ghost mut one: Given = arbitrary();
            proof {
                assert(list[i as int] == json::opt_string(queue@[i as int]));
            }
            let mut more: Vec<Frame>;
            match &queue[i] {
                Some(data) => {
                    let (said_now, Ghost(used)) = self.consume_payload(data.as_str());
                    more = said_now;
                    proof {
                        one = Given { ids: used, end: used.id };
                    }
                },
                None => {
                    let (said_now, Ghost(used)) = self.finish_list();
                    more = said_now;
                    proof {
                        one = used;
                    }
                },
            }
            proof {
                let grown = given.push(one);
                assert(grown[i as int] == one);
                payloads_step_prefix(start, list, given, grown, i as nat);
                given = grown;
                protocol::frames_add(out@, more@);
            }
            out.append(&mut more);
            i = i + 1;
        }
        proof {
            assert(push_step(old(self)@, chunk@, given) == payloads_step(
                start,
                list,
                given,
                list.len(),
            ));
        }
        protocol::write_frames(&out)
    }

    /// Ends the stream and gives out the frames that follow; nothing where it has
    /// ended before.
    pub fn finish(&mut self) -> (r: Vec<bytes::Bytes>)
        ensures
            exists|given: Given|
                #![trigger finish_step(old(self)@, given)]
                given.fits("toolu"@) && final(self)@ == finish_step(old(self)@, given).0 && protocol::wire(
                    r@,
                    finish_step(old(self)@, given).1,
                ),
    {
        let (out, _given) = self.finish_list();
        protocol::write_frames(&out)
    }
}

} // verus!
