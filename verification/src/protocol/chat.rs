//! The vocabulary of chat requests and responses: blocks, messages, tool calls,
//! and the parts of a response or of a piece of a stream.

use crate::json::{Json, Jv};
use crate::json;
use crate::protocol;
use vstd::prelude::*;
use vstd::string::*;

verus! {

/// A text block.
pub open spec fn text_block(s: Seq<char>) -> Jv {
    Jv::obj().put("type"@, Jv::Str("text"@)).put("text"@, Jv::Str(s))
}

/// A text block.
pub(crate) fn make_text_block(s: &str) -> (r: Json)
    ensures
        r@ == text_block(s@),
{
    Json::obj().with("type", Json::str("text")).with("text", Json::str(s))
}

/// A message with a role and a content.
pub open spec fn plain_message(role: Seq<char>, content: Jv) -> Jv {
    Jv::obj().put("role"@, Jv::Str(role)).put("content"@, content)
}

/// A message with a role and a content.
pub(crate) fn make_message(role: &str, content: Json) -> (r: Json)
    ensures
        r@ == plain_message(role@, content@),
{
    Json::obj().with("role", Json::str(role)).with("content", content)
}

/// A block that shows an image by its address.
pub open spec fn image_block(url: Seq<char>) -> Jv {
    Jv::obj().put("type"@, Jv::Str("image_url"@)).put(
        "image_url"@,
        Jv::obj().put("url"@, Jv::Str(url)),
    )
}

/// A block that shows an image by its address.
pub(crate) fn make_image_block(url: &str) -> (r: Json)
    ensures
        r@ == image_block(url@),
{
    Json::obj().with("type", Json::str("image_url")).with(
        "image_url",
        Json::obj().with("url", Json::str(url)),
    )
}

/// A tool call of a chat message.
pub open spec fn chat_call(id: Seq<char>, name: Seq<char>, arguments: Seq<char>) -> Jv {
    Jv::obj().put("id"@, Jv::Str(id)).put("type"@, Jv::Str("function"@)).put(
        "function"@,
        Jv::obj().put("name"@, Jv::Str(name)).put("arguments"@, Jv::Str(arguments)),
    )
}

/// A tool call of a chat message.
pub(crate) fn make_chat_call(id: &str, name: &str, arguments: &str) -> (r: Json)
    ensures
        r@ == chat_call(id@, name@, arguments@),
{
    Json::obj().with("id", Json::str(id)).with("type", Json::str("function")).with(
        "function",
        Json::obj().with("name", Json::str(name)).with("arguments", Json::str(arguments)),
    )
}

/// A text, or `null` where it is empty.
pub open spec fn text_or_null(s: Seq<char>) -> Jv {
    if s.len() == 0 {
        Jv::Null
    } else {
        Jv::Str(s)
    }
}

/// A text, or `null` where it is empty.
pub(crate) fn make_text_or_null(s: String) -> (r: Json)
    ensures
        r@ == text_or_null(s@),
{
    if s.as_str().is_empty() {
        Json::Null
    } else {
        Json::Str(s)
    }
}

/// A text that is not empty.
pub open spec fn some_text(s: Seq<char>) -> Option<Jv> {
    if s.len() == 0 {
        None
    } else {
        Some(Jv::Str(s))
    }
}

/// The choice of one function by its name.
pub open spec fn function_choice(name: Seq<char>) -> Jv {
    Jv::obj().put("type"@, Jv::Str("function"@)).put(
        "function"@,
        Jv::obj().put("name"@, Jv::Str(name)),
    )
}

/// The choice of one function by its name.
pub(crate) fn make_function_choice(name: &str) -> (r: Json)
    ensures
        r@ == function_choice(name@),
{
    Json::obj().with("type", Json::str("function")).with(
        "function",
        Json::obj().with("name", Json::str(name)),
    )
}

/// A truth value of a member, or `false`.
pub open spec fn flag(body: Jv, key: Seq<char>) -> bool {
    match body.get(key) {
        Some(Jv::Bool(b)) => b,
        _ => false,
    }
}

/// A truth value of a member, or `false`.
pub(crate) fn read_flag(body: &Json, key: &str) -> (r: bool)
    ensures
        r == flag(body@, key@),
{
    match body.get(key) {
        Some(Json::Bool(b)) => *b,
        _ => false,
    }
}

/// The thinking of a chat message or of a piece of one.
pub open spec fn reasoning_of(message: Jv) -> Seq<char> {
    protocol::or_else(protocol::loose_field(message, "reasoning_content"@), protocol::loose_field(message, "reasoning"@))
}

/// The thinking of a chat message or of a piece of one.
pub(crate) fn read_reasoning(message: &Json) -> (r: String)
    ensures
        r@ == reasoning_of(message@),
{
    protocol::or_text(
        protocol::string_field(message, "reasoning_content"),
        protocol::string_field(message, "reasoning").as_str(),
    )
}

/// The first choice of a chat response or of a piece of one.
pub open spec fn choice_of(chat: Jv) -> Option<Jv> {
    match chat.get("choices"@) {
        Some(choices) => choices.first(),
        None => None,
    }
}

/// The first choice of a chat response or of a piece of one.
pub(crate) fn read_choice(chat: &Json) -> (r: Option<&Json>)
    ensures
        json::opt_model(r) == choice_of(chat@),
{
    match chat.get("choices") {
        Some(choices) => choices.first(),
        None => None,
    }
}

/// The message of the first choice, or `null`.
pub open spec fn message_of(chat: Jv) -> Jv {
    match json::opt_get(choice_of(chat), "message"@) {
        Some(v) => v,
        None => Jv::Null,
    }
}

/// The tool calls of a message, where they are a list.
pub open spec fn calls_of(message: Jv) -> Seq<Jv> {
    message.field("tool_calls"@).items()
}

} // verus!
