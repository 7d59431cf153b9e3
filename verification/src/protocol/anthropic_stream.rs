//! A chat stream as a stream of Anthropic Messages events, and as one message.
//!
//! The events come in a fixed order: `message_start`, then the content blocks one
//! after the other, each with a start, its deltas and a stop, then
//! `message_delta` and `message_stop`. An upstream error ends the stream with an
//! `error` event.

use crate::json::{Json, Jv};
use crate::json;
use crate::protocol::anthropic;
use crate::protocol::chat;
use crate::protocol::collect::{Collected, CollectedV, ToolAccum, ToolV};
use crate::protocol::collect;
use crate::protocol::{Frame, Fv, SseLineBuffer};
use crate::protocol;
use crate::text;
use vstd::prelude::*;
use vstd::string::*;

verus! {

/// What the translation of a stream knows.
#[verifier::ext_equal]
pub struct AnthropicV {
    /// The line of the upstream that is not complete yet.
    pub line: Seq<u8>,
    pub message_id: Seq<char>,
    pub model: Seq<char>,
    pub started: bool,
    pub finished: bool,
    /// Whether a block is open, its number and its kind. The number and the kind
    /// stay behind when it is closed.
    pub open: bool,
    pub index: int,
    pub kind: Seq<char>,
    /// The identifier of the last tool block.
    pub tool_id: Seq<char>,
    /// Whether the last tool block has got any arguments.
    pub saw_arguments: bool,
    pub has_tool: bool,
    pub stop: Option<Seq<char>>,
    pub usage: Option<Jv>,
    pub input_tokens: int,
}

/// An event whose data also carries its name.
pub open spec fn named(name: Seq<char>, data: Jv) -> Fv {
    Fv::Event(name, data.put("type"@, Jv::Str(name)))
}

/// An event whose data also carries its name.
fn event(name: &str, data: Json) -> (r: Frame)
    ensures
        r@ == named(name@, data@),
{
    let mut full = data;
    full.put("type", Json::str(name));
    Frame::Event(name.to_owned(), full)
}

/// The beginning of a stream.
pub open spec fn fresh_stream(model: Seq<char>, message_id: Seq<char>) -> AnthropicV {
    AnthropicV {
        line: Seq::empty(),
        message_id,
        model,
        started: false,
        finished: false,
        open: false,
        index: -1,
        kind: Seq::empty(),
        tool_id: Seq::empty(),
        saw_arguments: false,
        has_tool: false,
        stop: None,
        usage: None,
        input_tokens: 0,
    }
}

/// The message as it is announced.
pub open spec fn start_message(st: AnthropicV) -> Jv {
    Jv::obj().put("id"@, Jv::Str(st.message_id)).put("type"@, Jv::Str("message"@)).put(
        "role"@,
        Jv::Str("assistant"@),
    ).put("model"@, Jv::Str(st.model)).put("content"@, Jv::Arr(Seq::empty())).put(
        "stop_reason"@,
        Jv::Null,
    ).put("stop_sequence"@, Jv::Null).put(
        "usage"@,
        Jv::obj().put("input_tokens"@, Jv::Int(st.input_tokens)).put("output_tokens"@, Jv::Int(0)),
    )
}

/// Announces the message, once.
pub open spec fn start_step(st: AnthropicV) -> (AnthropicV, Seq<Fv>) {
    if st.started {
        (st, Seq::empty())
    } else {
        (
            AnthropicV { started: true, ..st },
            seq![named("message_start"@, Jv::obj().put("message"@, start_message(st)))],
        )
    }
}

/// A delta of the block with that number.
pub open spec fn delta_event(index: int, kind: Seq<char>, field: Seq<char>, text: Seq<char>) -> Fv {
    named(
        "content_block_delta"@,
        Jv::obj().put("index"@, Jv::Int(index)).put(
            "delta"@,
            Jv::obj().put("type"@, Jv::Str(kind)).put(field, Jv::Str(text)),
        ),
    )
}

/// The stop of the block with that number.
pub open spec fn stop_event(index: int) -> Fv {
    named("content_block_stop"@, Jv::obj().put("index"@, Jv::Int(index)))
}

/// The start of the block with that number.
pub open spec fn start_event(index: int, block: Jv) -> Fv {
    named(
        "content_block_start"@,
        Jv::obj().put("index"@, Jv::Int(index)).put("content_block"@, block),
    )
}

/// Closes the open block. A tool block that got no arguments gets an empty object.
pub open spec fn close_step(st: AnthropicV) -> (AnthropicV, Seq<Fv>) {
    if !st.open {
        (st, Seq::empty())
    } else {
        (
            AnthropicV { open: false, ..st },
            if st.kind == "tool_use"@ && !st.saw_arguments {
                seq![
                    delta_event(st.index, "input_json_delta"@, "partial_json"@, "{}"@),
                    stop_event(st.index),
                ]
            } else {
                seq![stop_event(st.index)]
            },
        )
    }
}

/// Opens a block of text or thinking, unless one of that kind is open.
pub open spec fn block_step(st: AnthropicV, kind: Seq<char>) -> (AnthropicV, Seq<Fv>) {
    if st.open && st.kind == kind {
        (st, Seq::empty())
    } else {
        let (closed, ev) = close_step(st);
        let index = protocol::next_index(st.index);
        (
            AnthropicV { open: true, index, kind, ..closed },
            ev.push(
                start_event(
                    index,
                    if kind == "thinking"@ {
                        anthropic::thinking_block(Seq::empty())
                    } else {
                        chat::text_block(Seq::empty())
                    },
                ),
            ),
        )
    }
}

/// Opens a tool block under an identifier and a name.
pub open spec fn tool_block_step(st: AnthropicV, id: Seq<char>, name: Seq<char>) -> (
    AnthropicV,
    Seq<Fv>,
) {
    let (closed, ev) = close_step(st);
    let index = protocol::next_index(st.index);
    (
        AnthropicV {
            open: true,
            index,
            kind: "tool_use"@,
            tool_id: id,
            saw_arguments: false,
            has_tool: true,
            ..closed
        },
        ev.push(start_event(index, anthropic::tool_use_block(id, name, Jv::obj()))),
    )
}

/// One piece of a tool call. A new identifier, or a name where no tool block is
/// the last one, opens a block; so do bare arguments. `fresh` stands in for a
/// missing identifier.
pub open spec fn tool_step(st: AnthropicV, call: Jv, fresh: Seq<char>) -> (AnthropicV, Seq<Fv>) {
    let name = json::str_or_empty(json::opt_get(call.get("function"@), "name"@));
    let id = json::str_or_empty(call.get("id"@));
    let arguments = json::str_or_empty(json::opt_get(call.get("function"@), "arguments"@));
    let is_new = id.len() > 0 && id != st.tool_id;
    let (mid, ev) = if is_new || st.kind != "tool_use"@ {
        tool_block_step(
            st,
            if is_new || name.len() > 0 {
                protocol::or_else(id, fresh)
            } else {
                fresh
            },
            name,
        )
    } else {
        (st, Seq::empty())
    };
    if arguments.len() > 0 {
        (
            AnthropicV { saw_arguments: true, ..mid },
            ev.push(delta_event(mid.index, "input_json_delta"@, "partial_json"@, arguments)),
        )
    } else {
        (mid, ev)
    }
}

/// The first `n` pieces of tool calls.
pub open spec fn tools_step(st: AnthropicV, calls: Seq<Jv>, fresh: Seq<Seq<char>>, n: nat) -> (
    AnthropicV,
    Seq<Fv>,
)
    decreases n,
{
    if n == 0 {
        (st, Seq::empty())
    } else {
        let (before, ev) = tools_step(st, calls, fresh, (n - 1) as nat);
        let (after, more) = tool_step(before, calls[n - 1], protocol::text_at(fresh, n - 1));
        (after, ev + more)
    }
}

/// The text of an upstream error.
pub open spec fn error_message(error: Jv) -> Seq<char> {
    protocol::or_else(protocol::loose_field(error, "message"@), protocol::loose(error))
}

/// The text of an upstream error.
pub(crate) fn read_error_message(error: &Json) -> (r: String)
    ensures
        r@ == error_message(error@),
{
    protocol::or_text(protocol::string_field(error, "message"), protocol::string_value(error).as_str())
}

/// An upstream error ends the stream.
pub open spec fn error_step(st: AnthropicV, error: Jv) -> (AnthropicV, Seq<Fv>) {
    let (started, ev) = start_step(AnthropicV { finished: true, ..st });
    (
        started,
        ev.push(
            named(
                "error"@,
                Jv::obj().put(
                    "error"@,
                    Jv::obj().put(
                        "type"@,
                        Jv::Str(protocol::or_else(protocol::loose_field(error, "type"@), "api_error"@)),
                    ).put("message"@, Jv::Str(error_message(error))),
                ),
            ),
        ),
    )
}

/// What a piece of a chat stream says of the whole: its identifier, its usage and
/// why it ends.
pub open spec fn noted(st: AnthropicV, chunk: Jv) -> AnthropicV {
    let id = json::str_or_empty(chunk.get("id"@));
    let finish = json::str_or_empty(json::opt_get(chat::choice_of(chunk), "finish_reason"@));
    AnthropicV {
        message_id: if id.len() > 0 && !st.started {
            id
        } else {
            st.message_id
        },
        input_tokens: match chunk.get("usage"@) {
            Some(Jv::Obj(u)) => json::int_or_zero(Jv::Obj(u).get("prompt_tokens"@)),
            _ => st.input_tokens,
        },
        usage: match chunk.get("usage"@) {
            Some(Jv::Obj(u)) => Some(Jv::Obj(u)),
            _ => st.usage,
        },
        stop: if finish.len() > 0 {
            Some(anthropic::stop_reason(finish, false))
        } else {
            st.stop
        },
        ..st
    }
}

/// The tool calls in a piece of a chat stream.
pub open spec fn delta_calls(chunk: Jv) -> Seq<Jv> {
    match json::opt_get(chat::choice_of(chunk), "delta"@) {
        Some(delta) => chat::calls_of(delta),
        None => Seq::empty(),
    }
}

/// A piece of thinking.
pub open spec fn thinking_step(st: AnthropicV, text: Seq<char>) -> (AnthropicV, Seq<Fv>) {
    if text.len() == 0 {
        (st, Seq::empty())
    } else {
        let (mid, ev) = block_step(st, "thinking"@);
        (mid, ev.push(delta_event(mid.index, "thinking_delta"@, "thinking"@, text)))
    }
}

/// A piece of text.
pub open spec fn text_step(st: AnthropicV, text: Seq<char>) -> (AnthropicV, Seq<Fv>) {
    if text.len() == 0 {
        (st, Seq::empty())
    } else {
        let (mid, ev) = block_step(st, "text"@);
        (mid, ev.push(delta_event(mid.index, "text_delta"@, "text"@, text)))
    }
}

/// One piece of a chat stream. `fresh` holds an identifier for each tool call.
pub open spec fn chunk_step(st: AnthropicV, chunk: Jv, fresh: Seq<Seq<char>>) -> (
    AnthropicV,
    Seq<Fv>,
) {
    if st.finished {
        (st, Seq::empty())
    } else {
        match json::if_truthy(chunk.get("error"@)) {
            Some(error) => error_step(st, error),
            None => {
                let (s1, e1) = start_step(noted(st, chunk));
                match json::opt_get(chat::choice_of(chunk), "delta"@) {
                    None => (s1, e1),
                    Some(delta) => {
                        let (s2, e2) = thinking_step(s1, chat::reasoning_of(delta));
                        let (s3, e3) = text_step(s2, json::str_or_empty(delta.get("content"@)));
                        let calls = chat::calls_of(delta);
                        let (s4, e4) = tools_step(s3, calls, fresh, calls.len());
                        (s4, e1 + e2 + e3 + e4)
                    },
                }
            },
        }
    }
}

/// The output tokens that the upstream has reported.
pub open spec fn output_tokens_of(st: AnthropicV) -> int {
    json::int_or_zero(json::opt_get(st.usage, "completion_tokens"@))
}

/// The end of the stream, after what was left in the line has been taken in.
pub open spec fn end_step(st: AnthropicV) -> (AnthropicV, Seq<Fv>) {
    if st.finished {
        (st, Seq::empty())
    } else {
        let (s1, e1) = start_step(AnthropicV { finished: true, ..st });
        let (s2, e2) = close_step(s1);
        let reason = match st.stop {
            Some(r) => r,
            None => anthropic::stop_reason(Seq::empty(), st.has_tool),
        };
        (
            s2,
            (e1 + e2).push(
                named(
                    "message_delta"@,
                    Jv::obj().put(
                        "delta"@,
                        Jv::obj().put("stop_reason"@, Jv::Str(reason)).put("stop_sequence"@, Jv::Null),
                    ).put(
                        "usage"@,
                        Jv::obj().put("output_tokens"@, Jv::Int(output_tokens_of(st))),
                    ),
                ),
            ).push(named("message_stop"@, Jv::obj())),
        )
    }
}

/// A payload of the upstream: a chat piece, or something that is no JSON.
pub open spec fn payload_step(st: AnthropicV, data: Seq<char>, fresh: Seq<Seq<char>>) -> (
    AnthropicV,
    Seq<Fv>,
) {
    match json::parsed_json(data) {
        Some(chunk) => chunk_step(st, chunk, fresh),
        None => (st, Seq::empty()),
    }
}

/// The end of the upstream: what is left in the line is taken in first.
pub open spec fn finish_step(st: AnthropicV, fresh: Seq<Seq<char>>) -> (AnthropicV, Seq<Fv>) {
    if st.finished {
        (st, Seq::empty())
    } else {
        let rest = AnthropicV { line: Seq::empty(), ..st };
        let (mid, ev) = match protocol::last_payload(st.line) {
            Some(data) => payload_step(rest, data, fresh),
            None => (rest, Seq::empty()),
        };
        let (done, more) = end_step(mid);
        (done, ev + more)
    }
}

/// The first `n` payloads; `fresh` holds a row of identifiers for each.
pub open spec fn payloads_step(
    st: AnthropicV,
    payloads: Seq<Option<Seq<char>>>,
    fresh: Seq<Seq<Seq<char>>>,
    n: nat,
) -> (AnthropicV, Seq<Fv>)
    decreases n,
{
    if n == 0 {
        (st, Seq::empty())
    } else {
        let (before, ev) = payloads_step(st, payloads, fresh, (n - 1) as nat);
        let (after, more) = match payloads[n - 1] {
            Some(data) => payload_step(before, data, protocol::row(fresh, n - 1)),
            None => finish_step(before, protocol::row(fresh, n - 1)),
        };
        (after, ev + more)
    }
}

/// Bytes of the upstream.
pub open spec fn push_step(st: AnthropicV, chunk: Seq<u8>, fresh: Seq<Seq<Seq<char>>>) -> (
    AnthropicV,
    Seq<Fv>,
) {
    let list = protocol::payloads(st.line, chunk);
    payloads_step(
        AnthropicV { line: protocol::line_left(st.line, chunk), ..st },
        list,
        fresh,
        list.len(),
    )
}

/// Translates a chat stream into Messages events, as its bytes come in.
pub struct AnthropicStream {
    buffer: SseLineBuffer,
    message_id: String,
    model: String,
    started: bool,
    finished: bool,
    block_open: bool,
    block_index: i64,
    block_type: String,
    block_tool_id: String,
    saw_arguments: bool,
    has_tool: bool,
    stop_reason: Option<String>,
    usage: Option<Json>,
    input_tokens: i64,
}

impl View for AnthropicStream {
    type V = AnthropicV;

    closed spec fn view(&self) -> AnthropicV {
        AnthropicV {
            line: self.buffer.line(),
            message_id: self.message_id@,
            model: self.model@,
            started: self.started,
            finished: self.finished,
            open: self.block_open,
            index: self.block_index as int,
            kind: self.block_type@,
            tool_id: self.block_tool_id@,
            saw_arguments: self.saw_arguments,
            has_tool: self.has_tool,
            stop: json::opt_string(self.stop_reason),
            usage: json::opt_owned(self.usage),
            input_tokens: self.input_tokens as int,
        }
    }
}

impl AnthropicStream {
    /// A stream under a given identifier.
    pub fn with_id(model: &str, message_id: &str) -> (r: AnthropicStream)
        ensures
            r@ == fresh_stream(model@, message_id@),
    {
        AnthropicStream {
            buffer: SseLineBuffer::new(),
            message_id: message_id.to_owned(),
            model: model.to_owned(),
            started: false,
            finished: false,
            block_open: false,
            block_index: -1,
            block_type: String::new(),
            block_tool_id: String::new(),
            saw_arguments: false,
            has_tool: false,
            stop_reason: None,
            usage: None,
            input_tokens: 0,
        }
    }

    /// A stream under a fresh identifier.
    pub fn new(model: &str) -> (r: AnthropicStream)
        ensures
            protocol::is_id("msg"@, r@.message_id),
            r@ == fresh_stream(model@, r@.message_id),
    {
        let id = protocol::random_id("msg");
        Self::with_id(model, id.as_str())
    }

    fn emit_start(&mut self) -> (r: Vec<Frame>)
        ensures
            (final(self)@, protocol::frames(r@)) == start_step(old(self)@),
    {
        broadcast use protocol::group_frames;
        broadcast use json::group_json;

        let mut out: Vec<Frame> = Vec::new();
        if self.started {
            return out;
        }
        let usage = Json::obj().with("input_tokens", Json::Int(self.input_tokens)).with(
            "output_tokens",
            Json::Int(0),
        );
        let message = Json::obj().with("id", Json::str(self.message_id.as_str())).with(
            "type",
            Json::str("message"),
        ).with("role", Json::str("assistant")).with("model", Json::str(self.model.as_str())).with(
            "content",
            Json::Arr(Vec::new()),
        ).with("stop_reason", Json::Null).with("stop_sequence", Json::Null).with("usage", usage);
        self.started = true;
        out.push(event("message_start", Json::obj().with("message", message)));
        proof {
            assert(protocol::frames(out@) =~= start_step(old(self)@).1);
        }
        out
    }

    fn close_block(&mut self) -> (r: Vec<Frame>)
        ensures
            (final(self)@, protocol::frames(r@)) == close_step(old(self)@),
    {
        broadcast use protocol::group_frames;

        let mut out: Vec<Frame> = Vec::new();
        if !self.block_open {
            return out;
        }
        self.block_open = false;
        if text::same(self.block_type.as_str(), "tool_use") && !self.saw_arguments {
            out.push(
                make_delta(self.block_index, "input_json_delta", "partial_json", "{}"),
            );
        }
        out.push(
            event("content_block_stop", Json::obj().with("index", Json::Int(self.block_index))),
        );
        proof {
            assert(protocol::frames(out@) =~= close_step(old(self)@).1);
        }
        out
    }

    fn step_index(&mut self)
        ensures
            final(self)@ == (AnthropicV { index: protocol::next_index(old(self)@.index), ..old(self)@ }),
    {
        if self.block_index < i64::MAX {
            self.block_index = self.block_index + 1;
        }
    }

    fn ensure_block(&mut self, kind: &str) -> (r: Vec<Frame>)
        ensures
            (final(self)@, protocol::frames(r@)) == block_step(old(self)@, kind@),
    {
        broadcast use protocol::group_frames;

        if self.block_open && text::same(self.block_type.as_str(), kind) {
            return Vec::new();
        }
        let mut out = self.close_block();
        self.block_open = true;
        self.step_index();
        self.block_type = kind.to_owned();
        proof {
            reveal_strlit("");
            assert(""@ =~= Seq::empty());
        }
        let block = if text::same(kind, "thinking") {
            anthropic::make_thinking_block("")
        } else {
            chat::make_text_block("")
        };
        out.push(
            event(
                "content_block_start",
                Json::obj().with("index", Json::Int(self.block_index)).with("content_block", block),
            ),
        );
        out
    }

    fn open_tool(&mut self, id: String, name: &str) -> (r: Vec<Frame>)
        ensures
            (final(self)@, protocol::frames(r@)) == tool_block_step(old(self)@, id@, name@),
    {
        broadcast use protocol::group_frames;

        let mut out = self.close_block();
        self.has_tool = true;
        self.block_open = true;
        self.step_index();
        self.block_type = "tool_use".to_owned();
        let block = anthropic::make_tool_use_block(id.as_str(), name, Json::obj());
        self.block_tool_id = id;
        self.saw_arguments = false;
        out.push(
            event(
                "content_block_start",
                Json::obj().with("index", Json::Int(self.block_index)).with("content_block", block),
            ),
        );
        out
    }

    fn consume_tool(&mut self, call: &Json, fresh: &str) -> (r: Vec<Frame>)
        ensures
            (final(self)@, protocol::frames(r@)) == tool_step(old(self)@, call@, fresh@),
    {
        broadcast use protocol::group_frames;

        let name = json::str_or(json::get_in(call.get("function"), "name"));
        let id = json::str_or(call.get("id"));
        let arguments = json::str_or(json::get_in(call.get("function"), "arguments"));
        let is_new = !id.as_str().is_empty() && !text::same(
            id.as_str(),
            self.block_tool_id.as_str(),
        );
        let mut out: Vec<Frame> = if is_new || !text::same(self.block_type.as_str(), "tool_use") {
            let block_id = if is_new || !name.as_str().is_empty() {
                protocol::or_text(id, fresh)
            } else {
                fresh.to_owned()
            };
            self.open_tool(block_id, name.as_str())
        } else {
            Vec::new()
        };
        if !arguments.as_str().is_empty() {
            self.saw_arguments = true;
            out.push(
                make_delta(
                    self.block_index,
                    "input_json_delta",
                    "partial_json",
                    arguments.as_str(),
                ),
            );
        }
        out
    }

    fn consume_tools(&mut self, calls: &Vec<Json>, fresh: &Vec<String>) -> (r: Vec<Frame>)
        ensures
            (final(self)@, protocol::frames(r@)) == tools_step(
                old(self)@,
                json::models(calls@),
                protocol::texts(fresh@),
                calls@.len(),
            ),
    {
        let ghost want = json::models(calls@);
        let ghost ids = protocol::texts(fresh@);
        let mut out: Vec<Frame> = Vec::new();
        proof {
            assert(protocol::frames(out@) =~= Seq::empty());
        }
        let mut i: usize = 0;
        while i < calls.len()
            invariant
                i <= calls@.len(),
                want == json::models(calls@),
                ids == protocol::texts(fresh@),
                (self@, protocol::frames(out@)) == tools_step(old(self)@, want, ids, i as nat),
            decreases calls@.len() - i,
        {
            let id = protocol::string_at(fresh, i);
            let mut more = self.consume_tool(&calls[i], id.as_str());
            proof {
                protocol::frames_add(out@, more@);
            }
            out.append(&mut more);
            i = i + 1;
        }
        out
    }

    /// Takes in one piece of the chat stream, with an identifier for each of its
    /// tool calls.
    pub fn consume(&mut self, chunk: &Json, fresh: &Vec<String>) -> (r: Vec<Frame>)
        ensures
            (final(self)@, protocol::frames(r@)) == chunk_step(old(self)@, chunk@, protocol::texts(fresh@)),
    {
        broadcast use protocol::group_frames;
        broadcast use json::group_json;

        if self.finished {
            return Vec::new();
        }
        if let Some(error) = json::truthy_in(chunk.get("error")) {
            self.finished = true;
            let mut out = self.emit_start();
            let message = read_error_message(error);
            let kind = protocol::or_text(protocol::string_field(error, "type"), "api_error");
            out.push(
                event(
                    "error",
                    Json::obj().with(
                        "error",
                        Json::obj().with("type", Json::Str(kind)).with("message", Json::Str(message)),
                    ),
                ),
            );
            return out;
        }
        let id = json::str_or(chunk.get("id"));
        if !id.as_str().is_empty() && !self.started {
            self.message_id = id;
        }
        if let Some(usage) = chunk.get("usage") {
            if usage.is_obj() {
                self.input_tokens = json::int_or(usage.get("prompt_tokens"));
                self.usage = Some(usage.copy());
            }
        }
        let choice = chat::read_choice(chunk);
        let finish = json::str_or(json::get_in(choice, "finish_reason"));
        if !finish.as_str().is_empty() {
            self.stop_reason = Some(anthropic::read_stop_reason(finish.as_str(), false).to_owned());
        }
        proof {
            assert(self@ == noted(old(self)@, chunk@));
        }
        let mut out = self.emit_start();
        let delta = match json::get_in(choice, "delta") {
            Some(d) => d,
            None => {
                return out;
            },
        };
        let ghost e1 = protocol::frames(out@);
        let reasoning = chat::read_reasoning(delta);
        if !reasoning.as_str().is_empty() {
            let mut more = self.ensure_block("thinking");
            more.push(
                make_delta(self.block_index, "thinking_delta", "thinking", reasoning.as_str()),
            );
            out.append(&mut more);
        }
        let ghost e2 = protocol::frames(out@);
        let content = json::str_or(delta.get("content"));
        if !content.as_str().is_empty() {
            let mut more = self.ensure_block("text");
            more.push(make_delta(self.block_index, "text_delta", "text", content.as_str()));
            out.append(&mut more);
        }
        let ghost e3 = protocol::frames(out@);
        proof {
            assert(e1 + Seq::<Fv>::empty() =~= e1);
            assert(e2 + Seq::<Fv>::empty() =~= e2);
            assert(e3 + Seq::<Fv>::empty() =~= e3);
        }
        if let Some(Json::Arr(calls)) = delta.get("tool_calls") {
            let mut more = self.consume_tools(calls, fresh);
            out.append(&mut more);
        }
        out
    }

    fn end(&mut self) -> (r: Vec<Frame>)
        ensures
            (final(self)@, protocol::frames(r@)) == end_step(old(self)@),
    {
        broadcast use protocol::group_frames;

        if self.finished {
            return Vec::new();
        }
        self.finished = true;
        let mut out = self.emit_start();
        let mut more = self.close_block();
        out.append(&mut more);
        proof {
            reveal_strlit("");
            assert(""@ =~= Seq::empty());
        }
        let reason = match &self.stop_reason {
            Some(r) => r.clone(),
            None => anthropic::read_stop_reason("", self.has_tool).to_owned(),
        };
        let tokens = match &self.usage {
            Some(u) => json::int_or(u.get("completion_tokens")),
            None => 0,
        };
        out.push(
            event(
                "message_delta",
                Json::obj().with(
                    "delta",
                    Json::obj().with("stop_reason", Json::Str(reason)).with(
                        "stop_sequence",
                        Json::Null,
                    ),
                ).with("usage", Json::obj().with("output_tokens", Json::Int(tokens))),
            ),
        );
        out.push(event("message_stop", Json::obj()));
        out
    }
}

/// Whether a row of identifiers holds one for each tool call of a payload.
pub open spec fn row_fits(data: Seq<char>, fresh: Seq<Seq<char>>) -> bool {
    match json::parsed_json(data) {
        Some(chunk) => fresh.len() == delta_calls(chunk).len() && protocol::all_ids("toolu"@, fresh),
        None => true,
    }
}

/// Whether a row of identifiers fits the line begun.
pub open spec fn last_fits(line: Seq<u8>, fresh: Seq<Seq<char>>) -> bool {
    match protocol::last_payload(line) {
        Some(data) => row_fits(data, fresh),
        None => true,
    }
}

/// Whether each row of a grid of identifiers fits the payload at its place; the
/// payload at the end mark is that of the line begun.
pub open spec fn rows_fit(
    payloads: Seq<Option<Seq<char>>>,
    line: Seq<u8>,
    fresh: Seq<Seq<Seq<char>>>,
) -> bool {
    &&& fresh.len() == payloads.len()
    &&& forall|i: int|
        0 <= i < payloads.len() ==> match payloads[i] {
            Some(data) => row_fits(data, #[trigger] fresh[i]),
            None => last_fits(line, fresh[i]),
        }
}

impl AnthropicStream {
    fn consume_payload(&mut self, data: &str) -> (r: Vec<Frame>)
        ensures
            exists|fresh: Seq<Seq<char>>| #[trigger]
                row_fits(data@, fresh) && (final(self)@, protocol::frames(r@)) == payload_step(
                    old(self)@,
                    data@,
                    fresh,
                ),
    {
        broadcast use protocol::group_frames;
        broadcast use json::group_json;

        match json::parse(data) {
            Some(chunk) => {
                let count = match json::get_in(json::get_in(chat::read_choice(&chunk), "delta"), "tool_calls") {
                    Some(Json::Arr(calls)) => calls.len(),
                    _ => 0,
                };
                let fresh = protocol::random_ids("toolu", count);
                proof {
                    assert(row_fits(data@, protocol::texts(fresh@)));
                }
                self.consume(&chunk, &fresh)
            },
            None => {
                proof {
                    assert(row_fits(data@, Seq::empty()));
                }
                Vec::new()
            },
        }
    }

    fn finish_list(&mut self) -> (r: Vec<Frame>)
        ensures
            exists|fresh: Seq<Seq<char>>| #[trigger]
                last_fits(old(self)@.line, fresh) && (final(self)@, protocol::frames(r@)) == finish_step(
                    old(self)@,
                    fresh,
                ),
    {
        broadcast use protocol::group_frames;

        let ghost before = self@;
        if self.finished {
            let none: Vec<Frame> = Vec::new();
            proof {
                let row = some_row(before.line);
                assert(last_fits(before.line, row));
            }
            return none;
        }
        let rest = self.buffer.finish();
        let ghost mut used: Seq<Seq<char>> = Seq::empty();
        let ghost emptied = AnthropicV { line: Seq::empty(), ..before };
        proof {
            assert(self@ == emptied);
            let p = protocol::payload_texts(rest@);
            if rest@.len() > 0 {
                assert(p[0] == json::opt_string(rest@[0]));
                protocol::one_payload(protocol::lossy_text(before.line));
            }
        }
        let mut out: Vec<Frame> = Vec::new();
        if rest.len() > 0 {
            if let Some(data) = &rest[0] {
                out = self.consume_payload(data.as_str());
                proof {
                    used = choose|fresh: Seq<Seq<char>>| #[trigger]
                        row_fits(data@, fresh) && (self@, protocol::frames(out@)) == payload_step(
                            emptied,
                            data@,
                            fresh,
                        );
                }
            }
        }
        let mut more = self.end();
        out.append(&mut more);
        proof {
            assert(last_fits(before.line, used));
        }
        out
    }
}

/// A row of identifiers for the line begun.
proof fn some_row(line: Seq<u8>) -> (r: Seq<Seq<char>>)
    ensures
        last_fits(line, r),
{
    let id = protocol::id_of("toolu"@, None, 0);
    protocol::id_of_is_id("toolu"@, None, 0);
    match protocol::last_payload(line) {
        Some(data) => match json::parsed_json(data) {
            Some(chunk) => {
                let r = Seq::new(delta_calls(chunk).len(), |i: int| id);
                assert forall|i: int| 0 <= i < r.len() implies protocol::is_id("toolu"@, #[trigger] r[i]) by {}
                r
            },
            None => Seq::empty(),
        },
        None => Seq::empty(),
    }
}

proof fn tools_step_keeps_line(st: AnthropicV, calls: Seq<Jv>, fresh: Seq<Seq<char>>, n: nat)
    ensures
        tools_step(st, calls, fresh, n).0.line == st.line,
    decreases n,
{
    if n > 0 {
        tools_step_keeps_line(st, calls, fresh, (n - 1) as nat);
    }
}

proof fn payload_step_keeps_line(st: AnthropicV, data: Seq<char>, fresh: Seq<Seq<char>>)
    ensures
        payload_step(st, data, fresh).0.line == st.line,
{
    match json::parsed_json(data) {
        Some(chunk) => match json::opt_get(chat::choice_of(chunk), "delta"@) {
            Some(delta) => {
                let (s1, e1) = start_step(noted(st, chunk));
                let (s2, e2) = thinking_step(s1, chat::reasoning_of(delta));
                let (s3, e3) = text_step(s2, json::str_or_empty(delta.get("content"@)));
                tools_step_keeps_line(s3, chat::calls_of(delta), fresh, chat::calls_of(delta).len());
            },
            None => {},
        },
        None => {},
    }
}

impl AnthropicStream {
    /// Takes in bytes of the upstream and gives out the frames that follow.
    pub fn push(&mut self, chunk: &[u8]) -> (r: Vec<bytes::Bytes>)
        ensures
            exists|fresh: Seq<Seq<Seq<char>>>| #[trigger]
                rows_fit(
                    protocol::payloads(old(self)@.line, chunk@),
                    protocol::line_left(old(self)@.line, chunk@),
                    fresh,
                ) && final(self)@ == push_step(old(self)@, chunk@, fresh).0 && protocol::wire(
                    r@,
                    push_step(old(self)@, chunk@, fresh).1,
                ),
    {
        let ghost before = self@;
        let ghost line = protocol::line_left(before.line, chunk@);
        let ghost list = protocol::payloads(before.line, chunk@);
        let ghost start = AnthropicV { line, ..before };
        let queue = self.buffer.push(chunk);
        proof {
            assert(self@ == start);
            assert(protocol::payload_texts(queue@) == list);
        }
        let mut out: Vec<Frame> = Vec::new();
        let ghost mut ids: Seq<Seq<Seq<char>>> = Seq::empty();
        proof {
            assert(protocol::frames(out@) =~= Seq::empty());
        }
        let mut i: usize = 0;
        while i < queue.len()
            invariant
                i <= queue@.len(),
                protocol::payload_texts(queue@) == list,
                ids.len() == i,
                self@.finished || self@.line == line,
                forall|k: int|
                    0 <= k < i ==> match list[k] {
                        Some(data) => row_fits(data, #[trigger] ids[k]),
                        None => last_fits(line, ids[k]),
                    },
                (self@, protocol::frames(out@)) == payloads_step(start, list, ids, i as nat),
            decreases queue@.len() - i,
        {
            let ghost mid = self@;
            let ghost mut row: Seq<Seq<char>> = Seq::empty();
            proof {
                assert(list[i as int] == json::opt_string(queue@[i as int]));
            }
            let mut more: Vec<Frame>;
            match &queue[i] {
                Some(data) => {
                    more = self.consume_payload(data.as_str());
                    proof {
                        row = choose|fresh: Seq<Seq<char>>| #[trigger]
                            row_fits(data@, fresh) && (self@, protocol::frames(more@)) == payload_step(
                                mid,
                                data@,
                                fresh,
                            );
                        payload_step_keeps_line(mid, data@, row);
                        if mid.finished {
                            assert(self@ == mid);
                        }
                    }
                },
                None => {
                    more = self.finish_list();
                    proof {
                        row = choose|fresh: Seq<Seq<char>>| #[trigger]
                            last_fits(mid.line, fresh) && (self@, protocol::frames(more@)) == finish_step(
                                mid,
                                fresh,
                            );
                        if mid.finished {
                            row = some_row(line);
                        }
                        assert((self@, protocol::frames(more@)) == finish_step(mid, row));
                    }
                },
            }
            proof {
                let grown = ids.push(row);
                assert(grown[i as int] == row);
                payloads_step_prefix(start, list, ids, grown, i as nat);
                assert forall|k: int| 0 <= k < i + 1 implies match list[k] {
                    Some(data) => row_fits(data, #[trigger] grown[k]),
                    None => last_fits(line, grown[k]),
                } by {
                    if k < i {
                        assert(grown[k] == ids[k]);
                    }
                }
                ids = grown;
                protocol::frames_add(out@, more@);
            }
            out.append(&mut more);
            i = i + 1;
        }
        proof {
            assert(rows_fit(list, line, ids));
        }
        protocol::write_frames(&out)
    }

    /// Ends the stream and gives out the frames that follow; nothing where it has
    /// ended before.
    pub fn finish(&mut self) -> (r: Vec<bytes::Bytes>)
        ensures
            exists|fresh: Seq<Seq<char>>| #[trigger]
                last_fits(old(self)@.line, fresh) && final(self)@ == finish_step(
                    old(self)@,
                    fresh,
                ).0 && protocol::wire(r@, finish_step(old(self)@, fresh).1),
    {
        let out = self.finish_list();
        protocol::write_frames(&out)
    }
}

/// Rows that are not reached yet do not matter.
proof fn payloads_step_prefix(
    st: AnthropicV,
    list: Seq<Option<Seq<char>>>,
    a: Seq<Seq<Seq<char>>>,
    b: Seq<Seq<Seq<char>>>,
    n: nat,
)
    requires
        n <= a.len(),
        a.len() <= b.len(),
        forall|k: int| 0 <= k < a.len() ==> a[k] == #[trigger] b[k],
    ensures
        payloads_step(st, list, a, n) == payloads_step(st, list, b, n),
    decreases n,
{
    if n > 0 {
        payloads_step_prefix(st, list, a, b, (n - 1) as nat);
        assert(protocol::row(a, n - 1) == protocol::row(b, n - 1));
    }
}

fn make_delta(index: i64, kind: &str, field: &str, text: &str) -> (r: Frame)
    ensures
        r@ == delta_event(index as int, kind@, field@, text@),
{
    event(
        "content_block_delta",
        Json::obj().with("index", Json::Int(index)).with(
            "delta",
            Json::obj().with("type", Json::str(kind)).with(field, Json::str(text)),
        ),
    )
}

// ------------------------------------------------------------ order of events

/// How far a stream of events has come: nothing yet, between two blocks, inside a
/// block, behind the closing delta, or at its end.
pub enum Phase {
    Before,
    Between(int),
    Inside(int),
    Closing,
    Ended,
}

/// The event that may follow, and where it leads. Blocks are numbered one after
/// the other and never overlap.
pub open spec fn advance(p: Phase, f: Fv) -> Option<Phase> {
    match f {
        Fv::Event(name, data) => match p {
            Phase::Before => if name == "message_start"@ {
                Some(Phase::Between(-1))
            } else {
                None
            },
            Phase::Between(i) => if name == "content_block_start"@ && data.get("index"@) == Some(
                Jv::Int(protocol::next_index(i)),
            ) {
                Some(Phase::Inside(protocol::next_index(i)))
            } else if name == "message_delta"@ {
                Some(Phase::Closing)
            } else if name == "error"@ {
                Some(Phase::Ended)
            } else {
                None
            },
            Phase::Inside(i) => if name == "content_block_delta"@ && data.get("index"@) == Some(
                Jv::Int(i),
            ) {
                Some(Phase::Inside(i))
            } else if name == "content_block_stop"@ && data.get("index"@) == Some(Jv::Int(i)) {
                Some(Phase::Between(i))
            } else if name == "error"@ {
                Some(Phase::Ended)
            } else {
                None
            },
            Phase::Closing => if name == "message_stop"@ {
                Some(Phase::Ended)
            } else {
                None
            },
            Phase::Ended => None,
        },
        _ => None,
    }
}

/// Where a list of events leads, where each may follow the one before.
pub open spec fn run(p: Phase, list: Seq<Fv>) -> Option<Phase>
    decreases list.len(),
{
    if list.len() == 0 {
        Some(p)
    } else {
        match run(p, list.drop_last()) {
            Some(q) => advance(q, list.last()),
            None => None,
        }
    }
}

/// How far the stream behind a state has come.
pub open spec fn phase_of(st: AnthropicV) -> Phase {
    if st.finished {
        Phase::Ended
    } else if !st.started {
        Phase::Before
    } else if st.open {
        Phase::Inside(st.index)
    } else {
        Phase::Between(st.index)
    }
}

/// What holds of every state that a stream comes to: before the message is
/// announced there is no block.
pub open spec fn sound(st: AnthropicV) -> bool {
    !st.started ==> !st.open && st.index == -1
}

proof fn run_add(p: Phase, a: Seq<Fv>, b: Seq<Fv>)
    ensures
        run(p, a + b) == (match run(p, a) {
            Some(q) => run(q, b),
            None => None,
        }),
    decreases b.len(),
{
    if b.len() == 0 {
        assert(a + b =~= a);
    } else {
        assert((a + b).drop_last() =~= a + b.drop_last());
        run_add(p, a, b.drop_last());
    }
}

proof fn run_push(p: Phase, a: Seq<Fv>, f: Fv)
    ensures
        run(p, a.push(f)) == (match run(p, a) {
            Some(q) => advance(q, f),
            None => None,
        }),
{
    assert(a.push(f).drop_last() =~= a);
}

proof fn run_one(p: Phase, f: Fv)
    ensures
        run(p, seq![f]) == advance(p, f),
{
    assert(seq![f].drop_last() =~= Seq::empty());
    reveal_with_fuel(run, 2);
}

proof fn names_differ()
    ensures
        "index"@ != "type"@,
        "index"@ != "delta"@,
        "index"@ != "content_block"@,
        "content_block_delta"@ != "content_block_stop"@,
        "content_block_start"@ != "message_delta"@,
        "content_block_start"@ != "error"@,
        "message_delta"@ != "error"@,
        "content_block_delta"@ != "error"@,
        "content_block_stop"@ != "error"@,
{
    reveal_strlit("index");
    reveal_strlit("type");
    reveal_strlit("delta");
    reveal_strlit("content_block");
    reveal_strlit("content_block_delta");
    reveal_strlit("content_block_stop");
    reveal_strlit("content_block_start");
    reveal_strlit("message_delta");
    reveal_strlit("error");
    assert("index"@[0] != "delta"@[0]);
    assert("index"@.len() == 5 && "type"@.len() == 4 && "content_block"@.len() == 13);
    assert("content_block_delta"@.len() == 19 && "content_block_start"@.len() == 19);
    assert("content_block_stop"@.len() == 18);
    assert("message_delta"@.len() == 13 && "error"@.len() == 5);
}

proof fn delta_advances(i: int, kind: Seq<char>, field: Seq<char>, text: Seq<char>)
    ensures
        advance(Phase::Inside(i), delta_event(i, kind, field, text)) == Some(Phase::Inside(i)),
{
    names_differ();
}

proof fn stop_advances(i: int)
    ensures
        advance(Phase::Inside(i), stop_event(i)) == Some(Phase::Between(i)),
{
    names_differ();
}

proof fn start_advances(i: int, block: Jv)
    ensures
        advance(Phase::Between(i), start_event(protocol::next_index(i), block)) == Some(
            Phase::Inside(protocol::next_index(i)),
        ),
{
    names_differ();
}

proof fn start_step_runs(st: AnthropicV)
    requires
        sound(st),
        !st.finished,
    ensures
        sound(start_step(st).0),
        start_step(st).0.started,
        run(phase_of(st), start_step(st).1) == Some(phase_of(start_step(st).0)),
{
    if !st.started {
        run_one(Phase::Before, start_step(st).1[0]);
    }
}

proof fn close_step_runs(st: AnthropicV)
    requires
        st.started,
        !st.finished,
    ensures
        run(phase_of(st), close_step(st).1) == Some(Phase::Between(st.index)),
{
    if st.open {
        let d = delta_event(st.index, "input_json_delta"@, "partial_json"@, "{}"@);
        let e = stop_event(st.index);
        delta_advances(st.index, "input_json_delta"@, "partial_json"@, "{}"@);
        stop_advances(st.index);
        run_one(phase_of(st), e);
        run_one(phase_of(st), d);
        run_push(phase_of(st), seq![d], e);
        assert(seq![d].push(e) =~= seq![d, e]);
    }
}

proof fn block_step_runs(st: AnthropicV, kind: Seq<char>)
    requires
        st.started,
        !st.finished,
    ensures
        run(phase_of(st), block_step(st, kind).1) == Some(phase_of(block_step(st, kind).0)),
        block_step(st, kind).0.started,
        !block_step(st, kind).0.finished,
        block_step(st, kind).0.open,
{
    if !(st.open && st.kind == kind) {
        close_step_runs(st);
        let block = if kind == "thinking"@ {
            anthropic::thinking_block(Seq::empty())
        } else {
            chat::text_block(Seq::empty())
        };
        start_advances(st.index, block);
        run_push(phase_of(st), close_step(st).1, start_event(protocol::next_index(st.index), block));
    }
}

proof fn tool_step_runs(st: AnthropicV, call: Jv, fresh: Seq<char>)
    requires
        st.started,
        !st.finished,
        st.kind == "tool_use"@ ==> st.open,
    ensures
        run(phase_of(st), tool_step(st, call, fresh).1) == Some(
            phase_of(tool_step(st, call, fresh).0),
        ),
        tool_step(st, call, fresh).0.started,
        !tool_step(st, call, fresh).0.finished,
        tool_step(st, call, fresh).0.open,
        tool_step(st, call, fresh).0.kind == "tool_use"@,
{
    let name = json::str_or_empty(json::opt_get(call.get("function"@), "name"@));
    let id = json::str_or_empty(call.get("id"@));
    let arguments = json::str_or_empty(json::opt_get(call.get("function"@), "arguments"@));
    let is_new = id.len() > 0 && id != st.tool_id;
    let block_id = if is_new || name.len() > 0 {
        protocol::or_else(id, fresh)
    } else {
        fresh
    };
    let (mid, ev) = if is_new || st.kind != "tool_use"@ {
        tool_block_step(st, block_id, name)
    } else {
        (st, Seq::empty())
    };
    if is_new || st.kind != "tool_use"@ {
        close_step_runs(st);
        start_advances(st.index, anthropic::tool_use_block(block_id, name, Jv::obj()));
        run_push(
            phase_of(st),
            close_step(st).1,
            start_event(protocol::next_index(st.index), anthropic::tool_use_block(block_id, name, Jv::obj())),
        );
    }
    assert(run(phase_of(st), ev) == Some(Phase::Inside(mid.index)));
    delta_advances(mid.index, "input_json_delta"@, "partial_json"@, arguments);
    run_push(
        phase_of(st),
        ev,
        delta_event(mid.index, "input_json_delta"@, "partial_json"@, arguments),
    );
}

proof fn tools_step_runs(st: AnthropicV, calls: Seq<Jv>, fresh: Seq<Seq<char>>, n: nat)
    requires
        st.started,
        !st.finished,
        st.kind == "tool_use"@ ==> st.open,
    ensures
        run(phase_of(st), tools_step(st, calls, fresh, n).1) == Some(
            phase_of(tools_step(st, calls, fresh, n).0),
        ),
        tools_step(st, calls, fresh, n).0.started,
        !tools_step(st, calls, fresh, n).0.finished,
        tools_step(st, calls, fresh, n).0.kind == "tool_use"@ ==> tools_step(
            st,
            calls,
            fresh,
            n,
        ).0.open,
    decreases n,
{
    if n > 0 {
        tools_step_runs(st, calls, fresh, (n - 1) as nat);
        let (before, ev) = tools_step(st, calls, fresh, (n - 1) as nat);
        tool_step_runs(before, calls[n - 1], protocol::text_at(fresh, n - 1));
        run_add(phase_of(st), ev, tool_step(before, calls[n - 1], protocol::text_at(fresh, n - 1)).1);
    }
}

/// What holds of every state that a stream comes to: it is sound, and the last
/// block is open while the stream lives.
pub open spec fn orderly(st: AnthropicV) -> bool {
    &&& sound(st)
    &&& !st.finished && st.kind == "tool_use"@ ==> st.open
}

/// A new stream is orderly and has said nothing.
pub proof fn fresh_stream_is_orderly(model: Seq<char>, message_id: Seq<char>)
    ensures
        orderly(fresh_stream(model, message_id)),
        phase_of(fresh_stream(model, message_id)) is Before,
{
    reveal_strlit("tool_use");
    assert("tool_use"@.len() == 8);
}

/// Each piece of a chat stream leads an orderly stream on in the order of events,
/// and it stays orderly.
pub proof fn chunk_step_is_orderly(st: AnthropicV, chunk: Jv, fresh: Seq<Seq<char>>)
    requires
        orderly(st),
    ensures
        orderly(chunk_step(st, chunk, fresh).0),
        run(phase_of(st), chunk_step(st, chunk, fresh).1) == Some(
            phase_of(chunk_step(st, chunk, fresh).0),
        ),
{
    if !st.finished {
        match json::if_truthy(chunk.get("error"@)) {
            Some(error) => {
                let alive = AnthropicV { finished: false, ..st };
                start_step_runs(alive);
                let ev = start_step(alive).1;
                assert(ev =~= start_step(AnthropicV { finished: true, ..st }).1);
                let last = error_step(st, error).1.last();
                names_differ();
                run_push(phase_of(st), ev, last);
                assert(error_step(st, error).1 =~= ev.push(last));
            },
            None => {
                let n = noted(st, chunk);
                start_step_runs(n);
                let (s1, e1) = start_step(n);
                match json::opt_get(chat::choice_of(chunk), "delta"@) {
                    None => {},
                    Some(delta) => {
                        let (s2, e2) = thinking_step(s1, chat::reasoning_of(delta));
                        let (s3, e3) = text_step(s2, json::str_or_empty(delta.get("content"@)));
                        reveal_strlit("tool_use");
                        reveal_strlit("thinking");
                        reveal_strlit("text");
                        assert("thinking"@ != "tool_use"@ && "text"@ != "tool_use"@) by {
                            assert("thinking"@[1] != "tool_use"@[1]);
                        }
                        said_step_runs(s1, "thinking"@, "thinking_delta"@, "thinking"@, chat::reasoning_of(delta));
                        said_step_runs(
                            s2,
                            "text"@,
                            "text_delta"@,
                            "text"@,
                            json::str_or_empty(delta.get("content"@)),
                        );
                        let calls = chat::calls_of(delta);
                        tools_step_runs(s3, calls, fresh, calls.len());
                        let e4 = tools_step(s3, calls, fresh, calls.len()).1;
                        run_add(phase_of(st), e1, e2);
                        run_add(phase_of(st), e1 + e2, e3);
                        run_add(phase_of(st), e1 + e2 + e3, e4);
                    },
                }
            },
        }
    }
}

/// A piece of text or thinking, by the kind of block it belongs to.
spec fn said_step(
    st: AnthropicV,
    kind: Seq<char>,
    delta: Seq<char>,
    field: Seq<char>,
    text: Seq<char>,
) -> (AnthropicV, Seq<Fv>) {
    if text.len() == 0 {
        (st, Seq::empty())
    } else {
        let (mid, ev) = block_step(st, kind);
        (mid, ev.push(delta_event(mid.index, delta, field, text)))
    }
}

proof fn said_step_runs(
    st: AnthropicV,
    kind: Seq<char>,
    delta: Seq<char>,
    field: Seq<char>,
    text: Seq<char>,
)
    requires
        st.started,
        !st.finished,
        st.kind == "tool_use"@ ==> st.open,
        kind != "tool_use"@,
    ensures
        run(phase_of(st), said_step(st, kind, delta, field, text).1) == Some(
            phase_of(said_step(st, kind, delta, field, text).0),
        ),
        said_step(st, kind, delta, field, text).0.started,
        !said_step(st, kind, delta, field, text).0.finished,
        said_step(st, kind, delta, field, text).0.kind == "tool_use"@ ==> said_step(
            st,
            kind,
            delta,
            field,
            text,
        ).0.open,
{
    if text.len() > 0 {
        block_step_runs(st, kind);
        let (mid, ev) = block_step(st, kind);
        delta_advances(mid.index, delta, field, text);
        run_push(phase_of(st), ev, delta_event(mid.index, delta, field, text));
    }
}

/// The end of an orderly stream leads to the end of the events: what is left open
/// is closed, and `message_delta` and `message_stop` follow.
pub proof fn end_step_is_orderly(st: AnthropicV)
    requires
        orderly(st),
    ensures
        orderly(end_step(st).0),
        end_step(st).0.finished,
        run(phase_of(st), end_step(st).1) == Some(Phase::Ended),
{
    if !st.finished {
        start_step_runs(st);
        let e1 = start_step(st).1;
        let s1 = start_step(st).0;
        close_step_runs(s1);
        let e2 = close_step(s1).1;
        assert(start_step(AnthropicV { finished: true, ..st }).1 =~= e1);
        let t1 = start_step(AnthropicV { finished: true, ..st }).0;
        assert(close_step(t1).1 =~= e2);
        run_add(phase_of(st), e1, e2);
        let all = end_step(st).1;
        let delta = all[all.len() - 2];
        let stop = all.last();
        names_differ();
        run_push(phase_of(st), e1 + e2, delta);
        run_push(phase_of(st), (e1 + e2).push(delta), stop);
        assert(all =~= (e1 + e2).push(delta).push(stop));
    }
}

/// Whatever bytes come, an orderly stream goes on in the order of events.
pub proof fn push_step_is_orderly(st: AnthropicV, chunk: Seq<u8>, fresh: Seq<Seq<Seq<char>>>)
    requires
        orderly(st),
    ensures
        orderly(push_step(st, chunk, fresh).0),
        run(phase_of(st), push_step(st, chunk, fresh).1) == Some(
            phase_of(push_step(st, chunk, fresh).0),
        ),
{
    let start = AnthropicV { line: protocol::line_left(st.line, chunk), ..st };
    let list = protocol::payloads(st.line, chunk);
    payloads_step_is_orderly(start, list, fresh, list.len());
}

/// The end of the upstream leads an orderly stream to the end of the events.
pub proof fn finish_step_is_orderly(st: AnthropicV, fresh: Seq<Seq<char>>)
    requires
        orderly(st),
    ensures
        orderly(finish_step(st, fresh).0),
        finish_step(st, fresh).0.finished,
        run(phase_of(st), finish_step(st, fresh).1) == Some(Phase::Ended),
{
    if !st.finished {
        let rest = AnthropicV { line: Seq::empty(), ..st };
        let (mid, ev) = match protocol::last_payload(st.line) {
            Some(data) => payload_step(rest, data, fresh),
            None => (rest, Seq::empty()),
        };
        match protocol::last_payload(st.line) {
            Some(data) => match json::parsed_json(data) {
                Some(chunk) => chunk_step_is_orderly(rest, chunk, fresh),
                None => {},
            },
            None => {},
        }
        end_step_is_orderly(mid);
        run_add(phase_of(st), ev, end_step(mid).1);
    }
}

proof fn payloads_step_is_orderly(
    st: AnthropicV,
    list: Seq<Option<Seq<char>>>,
    fresh: Seq<Seq<Seq<char>>>,
    n: nat,
)
    requires
        orderly(st),
    ensures
        orderly(payloads_step(st, list, fresh, n).0),
        run(phase_of(st), payloads_step(st, list, fresh, n).1) == Some(
            phase_of(payloads_step(st, list, fresh, n).0),
        ),
    decreases n,
{
    if n > 0 {
        payloads_step_is_orderly(st, list, fresh, (n - 1) as nat);
        let (before, ev) = payloads_step(st, list, fresh, (n - 1) as nat);
        match list[n - 1] {
            Some(data) => {
                match json::parsed_json(data) {
                    Some(chunk) => chunk_step_is_orderly(before, chunk, protocol::row(fresh, n - 1)),
                    None => {},
                }
                run_add(phase_of(st), ev, payload_step(before, data, protocol::row(fresh, n - 1)).1);
            },
            None => {
                finish_step_is_orderly(before, protocol::row(fresh, n - 1));
                run_add(phase_of(st), ev, finish_step(before, protocol::row(fresh, n - 1)).1);
            },
        }
    }
}

// ------------------------------------------------------------- whole streams

/// Whether an event tells of an error.
pub open spec fn tells_error(f: Fv) -> bool {
    f matches Fv::Event(name, _) && name == "error"@
}

/// Whether no event tells of an error.
pub open spec fn calm(list: Seq<Fv>) -> bool {
    forall|i: int| 0 <= i < list.len() ==> !tells_error(#[trigger] list[i])
}

/// Whether a payload of the upstream holds no error.
pub open spec fn calm_payload(payload: Option<Seq<char>>) -> bool {
    match payload {
        Some(data) => match json::parsed_json(data) {
            Some(chunk) => json::if_truthy(chunk.get("error"@)) is None,
            None => true,
        },
        None => true,
    }
}

/// Whether no payload that bytes complete holds an error, nor the line begun behind an end
/// mark.
pub open spec fn calm_bytes(line: Seq<u8>, chunk: Seq<u8>) -> bool {
    let list = protocol::payloads(line, chunk);
    &&& forall|i: int| 0 <= i < list.len() ==> calm_payload(#[trigger] list[i])
    &&& list.contains(None) ==> calm_payload(protocol::last_payload(protocol::line_left(line, chunk)))
}

/// A stream after the first `n` pieces of bytes; each comes with the identifiers that it may
/// need.
pub open spec fn fed(
    st: AnthropicV,
    pieces: Seq<(Seq<u8>, Seq<Seq<Seq<char>>>)>,
    n: nat,
) -> (AnthropicV, Seq<Fv>)
    decreases n,
{
    if n == 0 {
        (st, Seq::empty())
    } else {
        let (before, ev) = fed(st, pieces, (n - 1) as nat);
        let (after, more) = push_step(before, pieces[n - 1].0, pieces[n - 1].1);
        (after, ev + more)
    }
}

/// Whether the upstream has sent no error in the first `n` pieces.
pub open spec fn calm_pieces(
    st: AnthropicV,
    pieces: Seq<(Seq<u8>, Seq<Seq<Seq<char>>>)>,
    n: nat,
) -> bool {
    forall|k: int|
        0 <= k < n ==> calm_bytes(fed(st, pieces, k as nat).0.line, (#[trigger] pieces[k]).0)
}

/// All events of a stream: those of its pieces, and those of its end.
pub open spec fn whole_stream(
    st: AnthropicV,
    pieces: Seq<(Seq<u8>, Seq<Seq<Seq<char>>>)>,
    last: Seq<Seq<char>>,
) -> (AnthropicV, Seq<Fv>) {
    let (mid, ev) = fed(st, pieces, pieces.len());
    let (end, more) = finish_step(mid, last);
    (end, ev + more)
}

proof fn calm_add(a: Seq<Fv>, b: Seq<Fv>)
    requires
        calm(a),
        calm(b),
    ensures
        calm(a + b),
{
    assert forall|i: int| 0 <= i < (a + b).len() implies !tells_error(#[trigger] (a + b)[i]) by {
        if i < a.len() {
            assert((a + b)[i] == a[i]);
        } else {
            assert((a + b)[i] == b[i - a.len()]);
        }
    }
}

/// An error ends the events, so events that do not end tell of none.
proof fn going_on_is_calm(p: Phase, list: Seq<Fv>)
    requires
        run(p, list) matches Some(q) && q !is Ended,
    ensures
        calm(list),
    decreases list.len(),
{
    if list.len() > 0 {
        let init = list.drop_last();
        let mid = run(p, init)->0;
        names_differ();
        error_name();
        assert(mid !is Ended);
        going_on_is_calm(p, init);
        assert(!tells_error(list.last()));
        assert forall|i: int| 0 <= i < list.len() implies !tells_error(#[trigger] list[i]) by {
            if i < init.len() {
                assert(list[i] == init[i]);
            }
        }
    }
}

proof fn error_name()
    ensures
        "message_start"@ != "error"@,
        "message_stop"@ != "error"@,
{
    reveal_strlit("message_start");
    reveal_strlit("message_stop");
    reveal_strlit("error");
    assert("message_start"@.len() == 13 && "message_stop"@.len() == 12 && "error"@.len() == 5);
}

proof fn calm_chunk(st: AnthropicV, chunk: Jv, fresh: Seq<Seq<char>>)
    requires
        orderly(st),
        json::if_truthy(chunk.get("error"@)) is None,
    ensures
        calm(chunk_step(st, chunk, fresh).1),
{
    if !st.finished {
        chunk_step_is_orderly(st, chunk, fresh);
        let s1 = start_step(noted(st, chunk)).0;
        match json::opt_get(chat::choice_of(chunk), "delta"@) {
            None => {},
            Some(delta) => {
                let s2 = thinking_step(s1, chat::reasoning_of(delta)).0;
                let s3 = text_step(s2, json::str_or_empty(delta.get("content"@))).0;
                tools_step_goes_on(s3, chat::calls_of(delta), fresh, chat::calls_of(delta).len());
            },
        }
        going_on_is_calm(phase_of(st), chunk_step(st, chunk, fresh).1);
    }
}

proof fn tools_step_goes_on(st: AnthropicV, calls: Seq<Jv>, fresh: Seq<Seq<char>>, n: nat)
    ensures
        tools_step(st, calls, fresh, n).0.finished == st.finished,
    decreases n,
{
    if n > 0 {
        tools_step_goes_on(st, calls, fresh, (n - 1) as nat);
    }
}

proof fn calm_end(st: AnthropicV)
    requires
        orderly(st),
    ensures
        calm(end_step(st).1),
{
    if !st.finished {
        start_step_runs(st);
        let (s1, e1) = start_step(st);
        close_step_runs(s1);
        let e2 = close_step(s1).1;
        assert(start_step(AnthropicV { finished: true, ..st }).1 =~= e1);
        assert(close_step(start_step(AnthropicV { finished: true, ..st }).0).1 =~= e2);
        going_on_is_calm(phase_of(st), e1);
        going_on_is_calm(phase_of(s1), e2);
        calm_add(e1, e2);
        let all = end_step(st).1;
        names_differ();
        error_name();
        assert forall|i: int| 0 <= i < all.len() implies !tells_error(#[trigger] all[i]) by {
            if i < (e1 + e2).len() {
                assert(all[i] == (e1 + e2)[i]);
            }
        }
    }
}

proof fn calm_finish(st: AnthropicV, fresh: Seq<Seq<char>>)
    requires
        orderly(st),
        calm_payload(protocol::last_payload(st.line)),
    ensures
        calm(finish_step(st, fresh).1),
{
    if !st.finished {
        let rest = AnthropicV { line: Seq::empty(), ..st };
        let (mid, ev) = match protocol::last_payload(st.line) {
            Some(data) => payload_step(rest, data, fresh),
            None => (rest, Seq::empty()),
        };
        match protocol::last_payload(st.line) {
            Some(data) => match json::parsed_json(data) {
                Some(chunk) => {
                    chunk_step_is_orderly(rest, chunk, fresh);
                    calm_chunk(rest, chunk, fresh);
                },
                None => {},
            },
            None => {},
        }
        calm_end(mid);
        calm_add(ev, end_step(mid).1);
    }
}

proof fn calm_payloads(
    st: AnthropicV,
    list: Seq<Option<Seq<char>>>,
    fresh: Seq<Seq<Seq<char>>>,
    n: nat,
)
    requires
        orderly(st),
        n <= list.len(),
        forall|i: int| 0 <= i < list.len() ==> calm_payload(#[trigger] list[i]),
        list.contains(None) ==> calm_payload(protocol::last_payload(st.line)),
    ensures
        calm(payloads_step(st, list, fresh, n).1),
        payloads_step(st, list, fresh, n).0.finished || payloads_step(st, list, fresh, n).0.line
            == st.line,
    decreases n,
{
    if n > 0 {
        calm_payloads(st, list, fresh, (n - 1) as nat);
        payloads_step_is_orderly(st, list, fresh, (n - 1) as nat);
        let (before, ev) = payloads_step(st, list, fresh, (n - 1) as nat);
        let row = protocol::row(fresh, n - 1);
        assert(calm_payload(list[n - 1]));
        match list[n - 1] {
            Some(data) => {
                payload_step_keeps_line(before, data, row);
                match json::parsed_json(data) {
                    Some(chunk) => calm_chunk(before, chunk, row),
                    None => {},
                }
                calm_add(ev, payload_step(before, data, row).1);
            },
            None => {
                assert(list.contains(list[n - 1]));
                if !before.finished {
                    calm_finish(before, row);
                }
                finish_step_is_orderly(before, row);
                calm_add(ev, finish_step(before, row).1);
            },
        }
    }
}

proof fn fed_is_orderly(st: AnthropicV, pieces: Seq<(Seq<u8>, Seq<Seq<Seq<char>>>)>, n: nat)
    requires
        orderly(st),
        n <= pieces.len(),
    ensures
        orderly(fed(st, pieces, n).0),
        run(phase_of(st), fed(st, pieces, n).1) == Some(phase_of(fed(st, pieces, n).0)),
        calm_pieces(st, pieces, n) ==> calm(fed(st, pieces, n).1),
    decreases n,
{
    if n > 0 {
        fed_is_orderly(st, pieces, (n - 1) as nat);
        let (before, ev) = fed(st, pieces, (n - 1) as nat);
        let (chunk, fresh) = pieces[n - 1];
        push_step_is_orderly(before, chunk, fresh);
        run_add(phase_of(st), ev, push_step(before, chunk, fresh).1);
        if calm_pieces(st, pieces, n) {
            assert(calm_bytes(before.line, pieces[n - 1].0));
            assert(calm_pieces(st, pieces, (n - 1) as nat));
            let list = protocol::payloads(before.line, chunk);
            let start = AnthropicV { line: protocol::line_left(before.line, chunk), ..before };
            calm_payloads(start, list, fresh, list.len());
            calm_add(ev, push_step(before, chunk, fresh).1);
        }
    }
}

/// All events of a stream, whatever bytes come and however they are cut, are in the order of
/// the protocol and come to the end: `message_start`, the blocks one after the other, each
/// with its number, its start, its deltas and its stop, then `message_delta` and
/// `message_stop`, or an error in place of what is left. An error is told only where the
/// upstream has sent one.
pub proof fn whole_stream_is_orderly(
    model: Seq<char>,
    message_id: Seq<char>,
    pieces: Seq<(Seq<u8>, Seq<Seq<Seq<char>>>)>,
    last: Seq<Seq<char>>,
)
    ensures
        ({
            let st = fresh_stream(model, message_id);
            let (end, events) = whole_stream(st, pieces, last);
            let line = fed(st, pieces, pieces.len()).0.line;
            &&& run(Phase::Before, events) == Some(Phase::Ended)
            &&& end.finished
            &&& calm_pieces(st, pieces, pieces.len()) && calm_payload(protocol::last_payload(line))
                ==> calm(events)
        }),
{
    let st = fresh_stream(model, message_id);
    fresh_stream_is_orderly(model, message_id);
    fed_is_orderly(st, pieces, pieces.len());
    let (mid, ev) = fed(st, pieces, pieces.len());
    finish_step_is_orderly(mid, last);
    run_add(Phase::Before, ev, finish_step(mid, last).1);
    if calm_pieces(st, pieces, pieces.len()) && calm_payload(protocol::last_payload(mid.line)) {
        calm_finish(mid, last);
        calm_add(ev, finish_step(mid, last).1);
    }
}

proof fn payloads_stay(
    st: AnthropicV,
    list: Seq<Option<Seq<char>>>,
    fresh: Seq<Seq<Seq<char>>>,
    n: nat,
)
    requires
        st.finished,
    ensures
        payloads_step(st, list, fresh, n) == (st, Seq::<Fv>::empty()),
    decreases n,
{
    if n > 0 {
        payloads_stay(st, list, fresh, (n - 1) as nat);
        assert(Seq::<Fv>::empty() + Seq::<Fv>::empty() =~= Seq::<Fv>::empty());
    }
}

/// Bytes that come behind the end of a stream are followed by no event.
pub proof fn nothing_is_pushed_after_the_end(
    st: AnthropicV,
    chunk: Seq<u8>,
    fresh: Seq<Seq<Seq<char>>>,
)
    requires
        st.finished,
    ensures
        push_step(st, chunk, fresh).1 == Seq::<Fv>::empty(),
        push_step(st, chunk, fresh).0.finished,
{
    let list = protocol::payloads(st.line, chunk);
    payloads_stay(
        AnthropicV { line: protocol::line_left(st.line, chunk), ..st },
        list,
        fresh,
        list.len(),
    );
}

/// A stream that has ended says nothing more, whatever comes.
pub proof fn nothing_after_the_end(
    st: AnthropicV,
    data: Seq<char>,
    fresh: Seq<Seq<char>>,
)
    requires
        st.finished,
    ensures
        payload_step(st, data, fresh) == (st, Seq::<Fv>::empty()),
        finish_step(st, fresh) == (st, Seq::<Fv>::empty()),
{
}

// ------------------------------------------------------------------ collector

/// What a collector knows: the line begun and what has come.
#[verifier::ext_equal]
pub struct CollectorV {
    pub line: Seq<u8>,
    pub seen: CollectedV,
}

/// Bytes of the upstream.
pub open spec fn collect_bytes(st: CollectorV, chunk: Seq<u8>) -> CollectorV {
    let list = protocol::payloads(st.line, chunk);
    CollectorV {
        line: protocol::line_left(st.line, chunk),
        seen: collect::collect_payloads(st.seen, list, list.len()),
    }
}

/// The end of the upstream.
pub open spec fn collect_end(st: CollectorV) -> CollectorV {
    CollectorV { line: Seq::empty(), seen: collect::collect_payload(st.seen, protocol::last_payload(st.line)) }
}

/// Where the bytes of a stream are cut does not matter to what is collected.
pub proof fn collect_bytes_in_pieces(st: CollectorV, a: Seq<u8>, b: Seq<u8>)
    ensures
        collect_bytes(st, a + b) == collect_bytes(collect_bytes(st, a), b),
{
    protocol::pieces_do_not_matter(st.line, a, b);
    let p = protocol::payloads(st.line, a);
    let q = protocol::payloads(protocol::line_left(st.line, a), b);
    collect::collect_payloads_add(st.seen, p, q, q.len());
}

/// The blocks of the first `n` calls that were put together.
pub open spec fn tool_blocks(tools: Seq<(int, ToolV)>, fresh: Seq<Seq<char>>, n: nat) -> Seq<Jv>
    decreases n,
{
    if n == 0 {
        Seq::empty()
    } else {
        let t = tools[n - 1].1;
        tool_blocks(tools, fresh, (n - 1) as nat).push(
            anthropic::tool_use_block(
                protocol::or_else(t.call_id, protocol::text_at(fresh, n - 1)),
                protocol::or_else(t.name, "unknown"@),
                anthropic::object_of(Jv::Str(protocol::or_else(t.arguments, "{}"@))),
            ),
        )
    }
}

/// A text that may be missing, or nothing.
pub open spec fn text_or_empty(s: Option<Seq<char>>) -> Seq<char> {
    match s {
        Some(v) => v,
        None => Seq::empty(),
    }
}

/// The Messages response of what has come. `fresh` holds an identifier for each
/// tool call and `fresh_id` one for the message, where those are missing.
pub open spec fn collected_message(
    seen: CollectedV,
    model: Seq<char>,
    fresh: Seq<Seq<char>>,
    fresh_id: Seq<char>,
) -> Jv {
    anthropic::anthropic_message(
        protocol::or_else(seen.id, fresh_id),
        model,
        anthropic::never_empty(
            anthropic::said_blocks(seen.reasoning, seen.text) + tool_blocks(
                seen.tools,
                fresh,
                seen.tools.len(),
            ),
        ),
        anthropic::stop_reason(text_or_empty(seen.finish), seen.tools.len() > 0),
        anthropic::anthropic_usage(seen.usage),
    )
}

/// Puts a chat stream together into one Messages response.
pub struct AnthropicCollector {
    buffer: SseLineBuffer,
    seen: Collected,
}

impl View for AnthropicCollector {
    type V = CollectorV;

    closed spec fn view(&self) -> CollectorV {
        CollectorV { line: self.buffer.line(), seen: self.seen@ }
    }
}

impl AnthropicCollector {
    /// A collector to which nothing has come.
    pub fn new() -> (r: AnthropicCollector)
        ensures
            r@ == (CollectorV { line: Seq::empty(), seen: collect::nothing_collected() }),
    {
        AnthropicCollector { buffer: SseLineBuffer::new(), seen: Collected::new() }
    }

    /// Takes in bytes of the upstream.
    pub fn push(&mut self, chunk: &[u8])
        ensures
            final(self)@ == collect_bytes(old(self)@, chunk@),
    {
        let list = self.buffer.push(chunk);
        proof {
            assert(list@.len() == protocol::payload_texts(list@).len());
        }
        self.seen.consume_all(&list);
    }

    /// Takes in what is left at the end of the upstream.
    pub fn finish(&mut self)
        ensures
            final(self)@ == collect_end(old(self)@),
    {
        let ghost before = self@;
        let list = self.buffer.finish();
        self.seen.consume_all(&list);
        proof {
            let p = protocol::payload_texts(list@);
            protocol::one_payload(protocol::lossy_text(before.line));
            assert(p.len() <= 1);
            reveal_with_fuel(collect::collect_payloads, 2);
        }
    }

    /// Takes in one piece of the chat stream.
    pub fn consume(&mut self, chunk: &Json)
        ensures
            final(self)@ == (CollectorV { seen: collect::collect(old(self)@.seen, chunk@), ..old(self)@ }),
    {
        self.seen.consume(chunk);
    }

    /// The Messages response of what has come, with the identifiers that stand in
    /// for missing ones given.
    pub fn into_response_with(self, model: &str, fresh: &Vec<String>, fresh_id: &str) -> (r: Json)
        ensures
            r@ == collected_message(self@.seen, model@, protocol::texts(fresh@), fresh_id@),
    {
        broadcast use json::group_json;

        let ghost ids = protocol::texts(fresh@);
        let seen = self.seen;
        let ghost tools = collect::tools_view(seen.tools@);
        let mut content = anthropic::make_said_blocks(seen.reasoning.as_str(), seen.text.as_str());
        let ghost head = json::models(content@);
        proof {
            assert(head + Seq::<Jv>::empty() =~= head);
        }
        let mut i: usize = 0;
        while i < seen.tools.len()
            invariant
                i <= seen.tools@.len(),
                tools == collect::tools_view(seen.tools@),
                ids == protocol::texts(fresh@),
                json::models(content@) == head + tool_blocks(tools, ids, i as nat),
            decreases seen.tools@.len() - i,
        {
            let tool: &ToolAccum = &seen.tools[i].1;
            let id = protocol::or_text(tool.call_id.clone(), protocol::string_at(fresh, i).as_str());
            let name = protocol::or_text(tool.name.clone(), "unknown");
            let raw = Json::Str(protocol::or_text(tool.arguments.clone(), "{}"));
            let input = anthropic::parse_json_object(&raw);
            let block = anthropic::make_tool_use_block(id.as_str(), name.as_str(), input);
            proof {
                json::models_push(content@, block);
                assert(json::models(content@.push(block)) =~= head + tool_blocks(
                    tools,
                    ids,
                    (i + 1) as nat,
                ));
            }
            content.push(block);
            i = i + 1;
        }
        anthropic::fill_if_empty(&mut content);
        let finish = match &seen.finish {
            Some(f) => f.clone(),
            None => String::new(),
        };
        let reason = anthropic::read_stop_reason(finish.as_str(), seen.tools.len() > 0);
        let id = protocol::or_text(seen.id, fresh_id);
        let usage = anthropic::usage_to_anthropic(seen.usage.as_ref());
        anthropic::make_anthropic_message(id.as_str(), model, content, reason, usage)
    }

    /// The Messages response of what has come.
    pub fn into_response(self, model: &str) -> (r: Json)
        ensures
            exists|fresh: Seq<Seq<char>>, fresh_id: Seq<char>|
                #![trigger collected_message(self@.seen, model@, fresh, fresh_id)]
                fresh.len() == self@.seen.tools.len() && protocol::all_ids("toolu"@, fresh) && protocol::is_id(
                    "msg"@,
                    fresh_id,
                ) && r@ == collected_message(self@.seen, model@, fresh, fresh_id),
    {
        let fresh = protocol::random_ids("toolu", self.seen.tools.len());
        let fresh_id = protocol::random_id("msg");
        self.into_response_with(model, &fresh, fresh_id.as_str())
    }
}

impl Default for AnthropicCollector {
    fn default() -> (r: AnthropicCollector)
        ensures
            r@ == (CollectorV { line: Seq::empty(), seen: collect::nothing_collected() }),
    {
        Self::new()
    }
}

} // verus!
