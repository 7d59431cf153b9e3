//! A chat stream as a stream of Responses events, and as one response.
//!
//! The stream opens with `response.created` and closes with `response.completed`,
//! or with `response.failed` after an upstream error. Between them items are
//! added, filled by deltas and done, strictly one at a time: what is open is done
//! before another item is added, and thinking or text that comes later gets an item
//! of its own. All pieces of one index belong to one call, so a call is done only at the
//! end of the stream. Of several calls the first is given out as it comes; the others,
//! and the thinking and the text that come after a call has begun, wait and are given out
//! behind it. What waits is not given out after an upstream error. Every event carries the
//! next number.

use crate::json::{Json, Jv};
use crate::json;
use crate::lists;
use crate::protocol::anthropic_stream;
use crate::protocol::chat;
use crate::protocol::collect::{Collected, CollectedV, ToolAccum, ToolV};
use crate::protocol::collect;
use crate::protocol::responses::{Fresh, FreshV};
use crate::protocol::responses;
use crate::protocol::tool_plan::{PlanV, ToolPlan};
use crate::protocol::tool_plan;
use crate::protocol::{Frame, Fv, SseLineBuffer};
use crate::protocol;
use vstd::prelude::*;
use vstd::string::*;
use vstd::utf8::*;

verus! {

/// A tool call of a stream that is not done: the number and the identifier of its item,
/// the identifiers for an item of free text and for a call that brings none, what has
/// come of it, and whether the item has been added.
#[verifier::ext_equal]
pub struct StreamToolV {
    pub index: int,
    pub item_id: Seq<char>,
    pub custom_id: Seq<char>,
    pub spare_id: Seq<char>,
    pub seen: ToolV,
    pub announced: bool,
}

/// A piece of thinking or of text that waits for the calls to be done, and the identifier
/// for its item.
#[verifier::ext_equal]
pub struct HeldV {
    pub thinking: bool,
    pub text: Seq<char>,
    pub id: Seq<char>,
}

/// What the translation of a stream knows.
#[verifier::ext_equal]
pub struct ResponsesV {
    /// The line of the upstream that is not complete yet.
    pub line: Seq<u8>,
    pub response_id: Seq<char>,
    pub created: int,
    pub model: Seq<char>,
    pub request: Jv,
    pub plan: PlanV,
    /// The number of the next event.
    pub sequence: int,
    pub created_sent: bool,
    pub finished: bool,
    pub text_open: bool,
    pub text_index: int,
    pub text_id: Seq<char>,
    pub text: Seq<char>,
    pub reasoning_open: bool,
    pub reasoning_index: int,
    pub reasoning_id: Seq<char>,
    pub reasoning: Seq<char>,
    /// The tool calls that are not done, under their indexes, in the order in which they
    /// began.
    pub tools: Seq<(int, StreamToolV)>,
    /// What waits for the calls to be done.
    pub held: Seq<HeldV>,
    /// Whether a text or a tool call has begun.
    pub answered: bool,
    /// The number of the next item.
    pub next_index: int,
    pub usage: Option<Jv>,
    pub finish: Option<Seq<char>>,
    /// The items that are done, with their numbers.
    pub items: Seq<(int, Jv)>,
}

/// The beginning of a stream.
pub open spec fn fresh_responses(
    model: Seq<char>,
    request: Jv,
    plan: PlanV,
    response_id: Seq<char>,
    created: int,
) -> ResponsesV {
    ResponsesV {
        line: Seq::empty(),
        response_id,
        created,
        model,
        request,
        plan,
        sequence: 0,
        created_sent: false,
        finished: false,
        text_open: false,
        text_index: -1,
        text_id: Seq::empty(),
        text: Seq::empty(),
        reasoning_open: false,
        reasoning_index: -1,
        reasoning_id: Seq::empty(),
        reasoning: Seq::empty(),
        tools: Seq::empty(),
        held: Seq::empty(),
        answered: false,
        next_index: 0,
        usage: None,
        finish: None,
        items: Seq::empty(),
    }
}

/// An event whose data also carries its name and its number.
pub open spec fn numbered(number: int, name: Seq<char>, data: Jv) -> Fv {
    Fv::Event(
        name,
        data.put("type"@, Jv::Str(name)).put("sequence_number"@, Jv::Int(number)),
    )
}

/// One more event said.
pub open spec fn say(x: (ResponsesV, Seq<Fv>), name: Seq<char>, data: Jv) -> (
    ResponsesV,
    Seq<Fv>,
) {
    (
        ResponsesV { sequence: protocol::next_index(x.0.sequence), ..x.0 },
        x.1.push(numbered(x.0.sequence, name, data)),
    )
}

/// An event of the Responses protocol: its data also carries its name and its
/// number, and the counter goes to the next number.
pub fn response_event(sequence: &mut i64, event: &str, data: Json) -> (r: bytes::Bytes)
    ensures
        *final(sequence) == protocol::next_index(*old(sequence) as int),
        protocol::bytes_of(r) == encode_utf8(
            protocol::frame_text(numbered(*old(sequence) as int, event@, data@)),
        ),
{
    let frame = numbered_frame(sequence, event, data);
    protocol::frame_bytes(&frame)
}

fn numbered_frame(sequence: &mut i64, name: &str, data: Json) -> (r: Frame)
    ensures
        *final(sequence) == protocol::next_index(*old(sequence) as int),
        r@ == numbered(*old(sequence) as int, name@, data@),
{
    let current: i64 = *sequence;
    if current < i64::MAX {
        *sequence = current + 1;
    }
    let mut full = data;
    full.put("type", Json::str(name));
    full.put("sequence_number", Json::Int(current));
    Frame::Event(name.to_owned(), full)
}

/// The state and nothing said.
pub open spec fn quiet(st: ResponsesV) -> (ResponsesV, Seq<Fv>) {
    (st, Seq::empty())
}

/// Announces the response, once.
pub open spec fn created_step(st: ResponsesV) -> (ResponsesV, Seq<Fv>) {
    if st.created_sent {
        quiet(st)
    } else {
        say(
            quiet(ResponsesV { created_sent: true, ..st }),
            "response.created"@,
            Jv::obj().put(
                "response"@,
                responses::envelope(
                    st.response_id,
                    st.model,
                    "in_progress"@,
                    Seq::empty(),
                    Jv::Null,
                    st.request,
                    st.created,
                    None,
                    0,
                ),
            ),
        )
    }
}

/// A summary part.
pub open spec fn summary_part(text: Seq<char>) -> Jv {
    Jv::obj().put("type"@, Jv::Str("summary_text"@)).put("text"@, Jv::Str(text))
}

fn make_summary_part(text: &str) -> (r: Json)
    ensures
        r@ == summary_part(text@),
{
    Json::obj().with("type", Json::str("summary_text")).with("text", Json::str(text))
}

/// A thinking item with its status.
pub open spec fn thinking_item(id: Seq<char>, status: Seq<char>, summary: Seq<Jv>) -> Jv {
    Jv::obj().put("type"@, Jv::Str("reasoning"@)).put("id"@, Jv::Str(id)).put(
        "status"@,
        Jv::Str(status),
    ).put("summary"@, Jv::Arr(summary))
}

fn make_thinking_item(id: &str, status: &str, summary: Vec<Json>) -> (r: Json)
    ensures
        r@ == thinking_item(id@, status@, json::models(summary@)),
{
    broadcast use json::group_json;

    Json::obj().with("type", Json::str("reasoning")).with("id", Json::str(id)).with(
        "status",
        Json::str(status),
    ).with("summary", Json::Arr(summary))
}

/// The beginning of the data of an event about an item.
pub open spec fn of_item(index: int, id: Seq<char>) -> Jv {
    Jv::obj().put("output_index"@, Jv::Int(index)).put("item_id"@, Jv::Str(id))
}

fn make_of_item(index: i64, id: &str) -> (r: Json)
    ensures
        r@ == of_item(index as int, id@),
{
    Json::obj().with("output_index", Json::Int(index)).with("item_id", Json::str(id))
}

/// The data of an event that adds an item or says that it is done.
pub open spec fn whole_item(index: int, item: Jv) -> Jv {
    Jv::obj().put("output_index"@, Jv::Int(index)).put("item"@, item)
}

fn make_whole_item(index: i64, item: Json) -> (r: Json)
    ensures
        r@ == whole_item(index as int, item@),
{
    Json::obj().with("output_index", Json::Int(index)).with("item", item)
}

/// Opens a thinking item, unless one is open.
pub open spec fn open_reasoning_step(st: ResponsesV, id: Seq<char>) -> (ResponsesV, Seq<Fv>) {
    if st.reasoning_open {
        quiet(st)
    } else {
        let index = st.next_index;
        let mid = ResponsesV {
            reasoning_open: true,
            reasoning_index: index,
            next_index: protocol::next_index(index),
            reasoning_id: id,
            reasoning: Seq::empty(),
            ..st
        };
        say(
            say(
                quiet(mid),
                "response.output_item.added"@,
                whole_item(index, thinking_item(id, "in_progress"@, Seq::empty())),
            ),
            "response.reasoning_summary_part.added"@,
            of_item(index, id).put("summary_index"@, Jv::Int(0)).put(
                "part"@,
                summary_part(Seq::empty()),
            ),
        )
    }
}

/// Closes the thinking item that is open.
pub open spec fn close_reasoning_step(st: ResponsesV) -> (ResponsesV, Seq<Fv>) {
    if !st.reasoning_open {
        quiet(st)
    } else {
        let index = st.reasoning_index;
        let id = st.reasoning_id;
        let item = thinking_item(id, "completed"@, seq![summary_part(st.reasoning)]);
        let mid = ResponsesV { reasoning_open: false, items: st.items.push((index, item)), ..st };
        say(
            say(
                say(
                    quiet(mid),
                    "response.reasoning_summary_text.done"@,
                    of_item(index, id).put("summary_index"@, Jv::Int(0)).put(
                        "text"@,
                        Jv::Str(st.reasoning),
                    ),
                ),
                "response.reasoning_summary_part.done"@,
                of_item(index, id).put("summary_index"@, Jv::Int(0)).put(
                    "part"@,
                    summary_part(st.reasoning),
                ),
            ),
            "response.output_item.done"@,
            whole_item(index, item),
        )
    }
}

/// An empty part for output text.
pub open spec fn empty_part() -> Jv {
    Jv::obj().put("type"@, Jv::Str("output_text"@)).put("text"@, Jv::Str(Seq::empty())).put(
        "annotations"@,
        Jv::Arr(Seq::empty()),
    )
}

fn make_empty_part() -> (r: Json)
    ensures
        r@ == empty_part(),
{
    broadcast use json::group_json;

    Json::obj().with("type", Json::str("output_text")).with("text", Json::Str(String::new())).with(
        "annotations",
        Json::Arr(Vec::new()),
    )
}

/// A message item that is begun.
pub open spec fn begun_message(id: Seq<char>) -> Jv {
    Jv::obj().put("type"@, Jv::Str("message"@)).put("id"@, Jv::Str(id)).put(
        "status"@,
        Jv::Str("in_progress"@),
    ).put("role"@, Jv::Str("assistant"@)).put("content"@, Jv::Arr(seq![empty_part()]))
}

fn make_begun_message(id: &str) -> (r: Json)
    ensures
        r@ == begun_message(id@),
{
    broadcast use json::group_json;

    let mut content: Vec<Json> = Vec::new();
    content.push(make_empty_part());
    proof {
        assert(json::models(content@) =~= seq![empty_part()]);
    }
    Json::obj().with("type", Json::str("message")).with("id", Json::str(id)).with(
        "status",
        Json::str("in_progress"),
    ).with("role", Json::str("assistant")).with("content", Json::Arr(content))
}

/// Opens a text item, unless one is open.
pub open spec fn open_text_step(st: ResponsesV, id: Seq<char>) -> (ResponsesV, Seq<Fv>) {
    if st.text_open {
        quiet(st)
    } else {
        let index = st.next_index;
        let mid = ResponsesV {
            text_open: true,
            text_index: index,
            next_index: protocol::next_index(index),
            text_id: id,
            text: Seq::empty(),
            answered: true,
            ..st
        };
        say(
            say(
                quiet(mid),
                "response.output_item.added"@,
                whole_item(index, begun_message(id)),
            ),
            "response.content_part.added"@,
            of_item(index, id).put("content_index"@, Jv::Int(0)).put("part"@, empty_part()),
        )
    }
}

/// Closes the text item that is open.
pub open spec fn close_text_step(st: ResponsesV) -> (ResponsesV, Seq<Fv>) {
    if !st.text_open {
        quiet(st)
    } else {
        let index = st.text_index;
        let id = st.text_id;
        let item = responses::done_message(id, st.text);
        let mid = ResponsesV { text_open: false, items: st.items.push((index, item)), ..st };
        say(
            say(
                say(
                    quiet(mid),
                    "response.output_text.done"@,
                    of_item(index, id).put("content_index"@, Jv::Int(0)).put(
                        "text"@,
                        Jv::Str(st.text),
                    ),
                ),
                "response.content_part.done"@,
                of_item(index, id).put("content_index"@, Jv::Int(0)).put(
                    "part"@,
                    responses::output_part(st.text),
                ),
            ),
            "response.output_item.done"@,
            whole_item(index, item),
        )
    }
}

/// The steps of two parts, one after the other.
pub open spec fn both(a: Seq<Fv>, b: (ResponsesV, Seq<Fv>)) -> (ResponsesV, Seq<Fv>) {
    (b.0, a + b.1)
}

/// The place of the call under a key from `i` on, or the end.
pub open spec fn find_tool(tools: Seq<(int, StreamToolV)>, key: int, i: int) -> int
    decreases tools.len() - i,
{
    if i < 0 || i >= tools.len() || tools[i].0 == key {
        i
    } else {
        find_tool(tools, key, i + 1)
    }
}

/// An item that announces a call.
pub open spec fn begun_call(
    plan: PlanV,
    item_id: Seq<char>,
    name: Seq<char>,
    call_id: Seq<char>,
) -> Jv {
    let head = Jv::obj().put(
        "type"@,
        Jv::Str(if plan.is_custom(name) {
            "custom_tool_call"@
        } else {
            "function_call"@
        }),
    ).put("id"@, Jv::Str(item_id)).put("status"@, Jv::Str("in_progress"@)).put(
        "call_id"@,
        Jv::Str(call_id),
    ).put("name"@, Jv::Str(name));
    plan.restored(
        head.put(
            if plan.is_custom(name) {
                "input"@
            } else {
                "arguments"@
            },
            Jv::Str(Seq::empty()),
        ),
        name,
    )
}

fn make_begun_call(plan: &ToolPlan, item_id: &str, name: &str, call_id: &str) -> (r: Json)
    ensures
        r@ == begun_call(plan@, item_id@, name@, call_id@),
{
    let custom = plan.is_custom(name);
    let kind = if custom {
        "custom_tool_call"
    } else {
        "function_call"
    };
    let key = if custom {
        "input"
    } else {
        "arguments"
    };
    let item = Json::obj().with("type", Json::str(kind)).with("id", Json::str(item_id)).with(
        "status",
        Json::str("in_progress"),
    ).with("call_id", Json::str(call_id)).with("name", Json::str(name)).with(
        key,
        Json::Str(String::new()),
    );
    plan.restore_namespace(item, name)
}

/// More arguments of a function call; free text is not given out in pieces.
pub open spec fn arguments_step(
    x: (ResponsesV, Seq<Fv>),
    tool: StreamToolV,
    delta: Seq<char>,
) -> (ResponsesV, Seq<Fv>) {
    if delta.len() == 0 || x.0.plan.is_custom(tool.seen.name) {
        x
    } else {
        say(
            x,
            "response.function_call_arguments.delta"@,
            of_item(tool.index, tool.item_id).put("call_id"@, Jv::Str(tool.seen.call_id)).put(
                "name"@,
                Jv::Str(tool.seen.name),
            ).put("delta"@, Jv::Str(delta)),
        )
    }
}

/// The calls with one that begins, where none has the key yet.
pub open spec fn with_tool(
    st: ResponsesV,
    key: int,
    fc: Seq<char>,
    fresh_call: Seq<char>,
    ctc: Seq<char>,
) -> ResponsesV {
    if find_tool(st.tools, key, 0) < st.tools.len() {
        st
    } else {
        ResponsesV {
            tools: st.tools.push(
                (
                    key,
                    StreamToolV {
                        index: st.next_index,
                        item_id: fc,
                        custom_id: ctc,
                        spare_id: fresh_call,
                        seen: collect::no_tool(),
                        announced: false,
                    },
                ),
            ),
            next_index: protocol::next_index(st.next_index),
            answered: true,
            ..st
        }
    }
}

/// A call whose item is added: a missing identifier is filled in, and a tool that takes
/// free text gets an item identifier of its own kind.
pub open spec fn announced_tool(plan: PlanV, tool: StreamToolV) -> StreamToolV {
    StreamToolV {
        item_id: if plan.is_custom(tool.seen.name) {
            tool.custom_id
        } else {
            tool.item_id
        },
        seen: ToolV { call_id: protocol::or_else(tool.seen.call_id, tool.spare_id), ..tool.seen },
        announced: true,
        ..tool
    }
}

/// Adds the item of a call, with the arguments that have come.
pub open spec fn announce_step(x: (ResponsesV, Seq<Fv>), tool: StreamToolV) -> (
    ResponsesV,
    Seq<Fv>,
) {
    arguments_step(
        say(
            x,
            "response.output_item.added"@,
            whole_item(
                tool.index,
                begun_call(x.0.plan, tool.item_id, tool.seen.name, tool.seen.call_id),
            ),
        ),
        tool,
        tool.seen.arguments,
    )
}

/// A call after one more piece. Its item is added when its name is known, if it is the
/// first of the calls that are not done.
pub open spec fn tool_after(plan: PlanV, tool: StreamToolV, call: Jv, first: bool) -> StreamToolV {
    let grown = StreamToolV { seen: collect::tool_piece(tool.seen, call), ..tool };
    if first && !tool.announced && grown.seen.name.len() > 0 {
        announced_tool(plan, grown)
    } else {
        grown
    }
}

/// One piece of a tool call.
pub open spec fn tool_step(
    st: ResponsesV,
    call: Jv,
    fc: Seq<char>,
    fresh_call: Seq<char>,
    ctc: Seq<char>,
) -> (ResponsesV, Seq<Fv>) {
    let (s1, e1) = close_reasoning_step(st);
    let (s2, e2) = both(e1, close_text_step(s1));
    let key = json::int_or_zero(call.get("index"@));
    let s3 = with_tool(s2, key, fc, fresh_call, ctc);
    let p = find_tool(s3.tools, key, 0);
    let before = s3.tools[p].1;
    let after = tool_after(s3.plan, before, call, p == 0);
    let s4 = ResponsesV { tools: s3.tools.update(p, (key, after)), ..s3 };
    if !after.announced {
        (s4, e2)
    } else if !before.announced {
        announce_step((s4, e2), after)
    } else {
        arguments_step(
            (s4, e2),
            after,
            json::str_or_empty(json::opt_get(call.get("function"@), "arguments"@)),
        )
    }
}

/// The first `n` pieces of tool calls.
pub open spec fn tools_step(st: ResponsesV, calls: Seq<Jv>, fresh: FreshV, n: nat) -> (
    ResponsesV,
    Seq<Fv>,
)
    decreases n,
{
    if n == 0 {
        quiet(st)
    } else {
        let (before, ev) = tools_step(st, calls, fresh, (n - 1) as nat);
        both(
            ev,
            tool_step(
                before,
                calls[n - 1],
                protocol::text_at(fresh.fc, n - 1),
                protocol::text_at(fresh.call, n - 1),
                protocol::text_at(fresh.ctc, n - 1),
            ),
        )
    }
}

/// An upstream error ends the stream.
pub open spec fn error_step(st: ResponsesV, error: Jv) -> (ResponsesV, Seq<Fv>) {
    let message = anthropic_stream::error_message(error);
    let code = responses::or_null(json::if_truthy(error.get("code"@)));
    let failed = responses::envelope(
        st.response_id,
        st.model,
        "failed"@,
        Seq::empty(),
        responses::responses_usage(st.usage),
        st.request,
        st.created,
        None,
        0,
    ).put("error"@, Jv::obj().put("code"@, code).put("message"@, Jv::Str(message)));
    say(
        say(
            created_step(ResponsesV { finished: true, ..st }),
            "error"@,
            Jv::obj().put("code"@, code).put("message"@, Jv::Str(message)).put("param"@, Jv::Null),
        ),
        "response.failed"@,
        Jv::obj().put("response"@, failed),
    )
}

/// What a piece of a chat stream says of the whole: its identifier, its usage and
/// why it ends.
pub open spec fn noted(st: ResponsesV, chunk: Jv) -> ResponsesV {
    let id = json::str_or_empty(chunk.get("id"@));
    let finish = json::str_or_empty(json::opt_get(chat::choice_of(chunk), "finish_reason"@));
    ResponsesV {
        response_id: if id.len() > 0 && !st.created_sent {
            id
        } else {
            st.response_id
        },
        usage: match chunk.get("usage"@) {
            Some(Jv::Obj(u)) => Some(Jv::Obj(u)),
            _ => st.usage,
        },
        finish: if finish.len() > 0 {
            Some(finish)
        } else {
            st.finish
        },
        ..st
    }
}

/// Says that the item of a call is done: a missing name and missing arguments are filled
/// in.
pub open spec fn done_tool_step(x: (ResponsesV, Seq<Fv>), tool: StreamToolV) -> (
    ResponsesV,
    Seq<Fv>,
) {
    let st = x.0;
    let call_id = protocol::or_else(tool.seen.call_id, tool.spare_id);
    let name = protocol::or_else(tool.seen.name, "unknown"@);
    let arguments = protocol::or_else(tool.seen.arguments, "{}"@);
    let item = responses::call_item(st.plan, tool.item_id, name, call_id, arguments);
    let y = (ResponsesV { items: st.items.push((tool.index, item)), ..st }, x.1);
    let z = if !tool.announced {
        y
    } else if st.plan.is_custom(name) {
        say(
            y,
            "response.custom_tool_call_input.done"@,
            of_item(tool.index, tool.item_id).put("input"@, Jv::Str(tool_plan::unwrapped_input(arguments))),
        )
    } else {
        say(
            y,
            "response.function_call_arguments.done"@,
            of_item(tool.index, tool.item_id).put("call_id"@, Jv::Str(call_id)).put(
                "name"@,
                Jv::Str(name),
            ).put("arguments"@, Jv::Str(arguments)),
        )
    };
    say(z, "response.output_item.done"@, whole_item(tool.index, item))
}

/// Closes a call. The item of one that has waited is added first; of one that never got a
/// name it is only said that it is done.
pub open spec fn close_tool_step(x: (ResponsesV, Seq<Fv>), tool: StreamToolV) -> (
    ResponsesV,
    Seq<Fv>,
) {
    if !tool.announced && tool.seen.name.len() > 0 {
        let t = announced_tool(x.0.plan, tool);
        done_tool_step(announce_step(x, t), t)
    } else {
        done_tool_step(x, tool)
    }
}

/// Closes the first `n` calls.
pub open spec fn close_tools_step(st: ResponsesV, n: nat) -> (ResponsesV, Seq<Fv>)
    decreases n,
{
    if n == 0 {
        quiet(st)
    } else {
        close_tool_step(close_tools_step(st, (n - 1) as nat), st.tools[n - 1].1)
    }
}

/// Closes the calls that are not done.
pub open spec fn close_calls_step(st: ResponsesV) -> (ResponsesV, Seq<Fv>) {
    let (closed, ev) = close_tools_step(st, st.tools.len());
    (ResponsesV { tools: Seq::empty(), ..closed }, ev)
}

/// Something that waits.
pub open spec fn held_back(st: ResponsesV, piece: HeldV) -> ResponsesV {
    ResponsesV { held: st.held.push(piece), ..st }
}

/// A piece of thinking; it waits where a call has begun.
pub open spec fn thinking_step(st: ResponsesV, text: Seq<char>, rs: Seq<char>) -> (
    ResponsesV,
    Seq<Fv>,
) {
    if text.len() == 0 {
        quiet(st)
    } else if st.tools.len() > 0 {
        quiet(held_back(st, HeldV { thinking: true, text, id: rs }))
    } else {
        let (s1, e1) = close_text_step(st);
        let (mid, ev) = both(e1, open_reasoning_step(s1, rs));
        say(
            (ResponsesV { reasoning: mid.reasoning + text, ..mid }, ev),
            "response.reasoning_summary_text.delta"@,
            of_item(mid.reasoning_index, mid.reasoning_id).put("summary_index"@, Jv::Int(0)).put(
                "delta"@,
                Jv::Str(text),
            ),
        )
    }
}

/// A piece of text; it waits where a call has begun.
pub open spec fn text_step(st: ResponsesV, text: Seq<char>, msg: Seq<char>) -> (
    ResponsesV,
    Seq<Fv>,
) {
    if text.len() == 0 {
        quiet(st)
    } else if st.tools.len() > 0 {
        quiet(held_back(st, HeldV { thinking: false, text, id: msg }))
    } else {
        let (s1, e1) = close_reasoning_step(st);
        let (mid, ev) = both(e1, open_text_step(s1, msg));
        say(
            (ResponsesV { text: mid.text + text, ..mid }, ev),
            "response.output_text.delta"@,
            of_item(mid.text_index, mid.text_id).put("content_index"@, Jv::Int(0)).put(
                "delta"@,
                Jv::Str(text),
            ),
        )
    }
}

/// The first `n` of the pieces that wait.
pub open spec fn held_step(st: ResponsesV, n: nat) -> (ResponsesV, Seq<Fv>)
    decreases n,
{
    if n == 0 {
        quiet(st)
    } else {
        let (before, ev) = held_step(st, (n - 1) as nat);
        both(ev, held_piece_step(before, st.held[n - 1]))
    }
}

/// A piece that has waited.
pub open spec fn held_piece_step(st: ResponsesV, piece: HeldV) -> (ResponsesV, Seq<Fv>) {
    if piece.thinking {
        thinking_step(st, piece.text, piece.id)
    } else {
        text_step(st, piece.text, piece.id)
    }
}

/// Closes the calls, and then gives out what has waited for them.
pub open spec fn release_step(st: ResponsesV) -> (ResponsesV, Seq<Fv>) {
    let (s1, e1) = close_calls_step(st);
    let (s2, e2) = both(e1, held_step(s1, s1.held.len()));
    let (s3, e3) = both(e2, close_reasoning_step(ResponsesV { held: Seq::empty(), ..s2 }));
    both(e3, close_text_step(s3))
}

/// One piece of a chat stream.
pub open spec fn chunk_step(st: ResponsesV, chunk: Jv, fresh: FreshV) -> (ResponsesV, Seq<Fv>) {
    if st.finished {
        quiet(st)
    } else {
        match json::if_truthy(chunk.get("error"@)) {
            Some(error) => error_step(st, error),
            None => {
                let (s1, e1) = created_step(noted(st, chunk));
                match json::opt_get(chat::choice_of(chunk), "delta"@) {
                    None => (s1, e1),
                    Some(delta) => {
                        let (s2, e2) = both(e1, thinking_step(s1, chat::reasoning_of(delta), fresh.rs));
                        let (s3, e3) = both(
                            e2,
                            text_step(s2, json::str_or_empty(delta.get("content"@)), fresh.msg),
                        );
                        let calls = chat::calls_of(delta);
                        both(e3, tools_step(s3, calls, fresh, calls.len()))
                    },
                }
            },
        }
    }
}

/// The items with one more, behind those whose number is not larger.
pub open spec fn insert_item(sorted: Seq<(int, Jv)>, e: (int, Jv)) -> Seq<(int, Jv)>
    decreases sorted.len(),
{
    if sorted.len() == 0 || sorted.last().0 <= e.0 {
        sorted.push(e)
    } else {
        insert_item(sorted.drop_last(), e).push(sorted.last())
    }
}

/// The first `n` items in the order of their numbers.
pub open spec fn sorted_items(items: Seq<(int, Jv)>, n: nat) -> Seq<(int, Jv)>
    decreases n,
{
    if n == 0 {
        Seq::empty()
    } else {
        insert_item(sorted_items(items, (n - 1) as nat), items[n - 1])
    }
}

/// The items alone.
pub open spec fn bare_items(items: Seq<(int, Jv)>) -> Seq<Jv> {
    Seq::new(items.len(), |i: int| items[i].1)
}

/// The end of the stream, after what was left in the line has been taken in. A stream
/// without a text and without a call gets an empty text.
pub open spec fn end_step(st: ResponsesV, fresh: FreshV, now: int) -> (ResponsesV, Seq<Fv>) {
    if st.finished {
        quiet(st)
    } else {
        let (s1, e1) = created_step(ResponsesV { finished: true, ..st });
        let (s2, e2) = both(e1, close_reasoning_step(s1));
        let (s3, e3) = if !s2.answered {
            both(e2, open_text_step(s2, fresh.msg))
        } else {
            (s2, e2)
        };
        let (s4, e4) = both(e3, close_text_step(s3));
        let (s5, e5) = both(e4, release_step(s4));
        let incomplete = responses::incomplete_of(anthropic_stream::text_or_empty(s5.finish));
        say(
            (s5, e5),
            "response.completed"@,
            Jv::obj().put(
                "response"@,
                responses::envelope(
                    s5.response_id,
                    s5.model,
                    responses::status_of(incomplete),
                    bare_items(sorted_items(s5.items, s5.items.len())),
                    responses::responses_usage(s5.usage),
                    s5.request,
                    s5.created,
                    incomplete,
                    now,
                ),
            ),
        )
    }
}

/// A tool call of a stream.
struct StreamTool {
    index: i64,
    item_id: String,
    custom_id: String,
    spare_id: String,
    seen: ToolAccum,
    announced: bool,
}

impl View for StreamTool {
    type V = StreamToolV;

    closed spec fn view(&self) -> StreamToolV {
        StreamToolV {
            index: self.index as int,
            item_id: self.item_id@,
            custom_id: self.custom_id@,
            spare_id: self.spare_id@,
            seen: self.seen@,
            announced: self.announced,
        }
    }
}

impl StreamTool {
    fn announce(&mut self, plan: &ToolPlan)
        ensures
            final(self)@ == announced_tool(plan@, old(self)@),
    {
        if self.seen.call_id.as_str().is_empty() {
            self.seen.call_id = self.spare_id.clone();
        }
        if plan.is_custom(self.seen.name.as_str()) {
            self.item_id = self.custom_id.clone();
        }
        self.announced = true;
    }
}

spec fn stream_tools(s: Seq<(i64, StreamTool)>) -> Seq<(int, StreamToolV)> {
    Seq::new(s.len(), |i: int| (s[i].0 as int, s[i].1@))
}

/// A piece of thinking or of text that waits for the calls to be done.
struct Held {
    thinking: bool,
    text: String,
    id: String,
}

impl View for Held {
    type V = HeldV;

    closed spec fn view(&self) -> HeldV {
        HeldV { thinking: self.thinking, text: self.text@, id: self.id@ }
    }
}

spec fn done_items(s: Seq<(i64, Json)>) -> Seq<(int, Jv)> {
    Seq::new(s.len(), |i: int| (s[i].0 as int, s[i].1@))
}

/// Translates a chat stream into Responses events, as its bytes come in.
pub struct ResponsesStream {
    buffer: SseLineBuffer,
    response_id: String,
    created: i64,
    model: String,
    request: Json,
    plan: ToolPlan,
    sequence: i64,
    created_sent: bool,
    finished: bool,
    text_open: bool,
    text_index: i64,
    text_id: String,
    text: String,
    reasoning_open: bool,
    reasoning_index: i64,
    reasoning_id: String,
    reasoning: String,
    tools: Vec<(i64, StreamTool)>,
    held: Vec<Held>,
    answered: bool,
    next_index: i64,
    usage: Option<Json>,
    finish_reason: Option<String>,
    output_items: Vec<(i64, Json)>,
}

impl View for ResponsesStream {
    type V = ResponsesV;

    closed spec fn view(&self) -> ResponsesV {
        ResponsesV {
            line: self.buffer.line(),
            response_id: self.response_id@,
            created: self.created as int,
            model: self.model@,
            request: self.request@,
            plan: self.plan@,
            sequence: self.sequence as int,
            created_sent: self.created_sent,
            finished: self.finished,
            text_open: self.text_open,
            text_index: self.text_index as int,
            text_id: self.text_id@,
            text: self.text@,
            reasoning_open: self.reasoning_open,
            reasoning_index: self.reasoning_index as int,
            reasoning_id: self.reasoning_id@,
            reasoning: self.reasoning@,
            tools: stream_tools(self.tools@),
            held: lists::views(self.held@),
            answered: self.answered,
            next_index: self.next_index as int,
            usage: json::opt_owned(self.usage),
            finish: json::opt_string(self.finish_reason),
            items: done_items(self.output_items@),
        }
    }
}

impl ResponsesStream {
    /// A stream under a given identifier and at a given time in seconds.
    pub fn with_id(
        model: &str,
        request: &Json,
        plan: &ToolPlan,
        response_id: &str,
        created: i64,
    ) -> (r: ResponsesStream)
        ensures
            r@ == fresh_responses(model@, request@, plan@, response_id@, created as int),
    {
        let r = ResponsesStream {
            buffer: SseLineBuffer::new(),
            response_id: response_id.to_owned(),
            created,
            model: model.to_owned(),
            request: request.copy(),
            plan: plan.copy(),
            sequence: 0,
            created_sent: false,
            finished: false,
            text_open: false,
            text_index: -1,
            text_id: String::new(),
            text: String::new(),
            reasoning_open: false,
            reasoning_index: -1,
            reasoning_id: String::new(),
            reasoning: String::new(),
            tools: Vec::new(),
            held: Vec::new(),
            answered: false,
            next_index: 0,
            usage: None,
            finish_reason: None,
            output_items: Vec::new(),
        };
        proof {
            assert(stream_tools(r.tools@) =~= Seq::empty());
            assert(lists::views(r.held@) =~= Seq::empty());
            assert(done_items(r.output_items@) =~= Seq::empty());
        }
        r
    }

    /// A stream under a fresh identifier. `plan` is the plan for the tools of the
    /// request.
    pub fn new(model: &str, request: &Json, plan: &ToolPlan) -> (r: ResponsesStream)
        ensures
            protocol::is_id("resp"@, r@.response_id),
            r@ == fresh_responses(model@, request@, plan@, r@.response_id, r@.created),
    {
        let id = protocol::random_id("resp");
        let now = responses::clock_s();
        Self::with_id(model, request, plan, id.as_str(), now)
    }

    fn event(&mut self, name: &str, data: Json) -> (r: Frame)
        ensures
            final(self)@ == (ResponsesV {
                sequence: protocol::next_index(old(self)@.sequence),
                ..old(self)@
            }),
            r@ == numbered(old(self)@.sequence, name@, data@),
    {
        numbered_frame(&mut self.sequence, name, data)
    }

    fn take_index(&mut self) -> (r: i64)
        ensures
            r == old(self)@.next_index,
            final(self)@ == (ResponsesV {
                next_index: protocol::next_index(old(self)@.next_index),
                ..old(self)@
            }),
    {
        let index: i64 = self.next_index;
        if index < i64::MAX {
            self.next_index = index + 1;
        }
        index
    }

    fn emit_created(&mut self) -> (r: Vec<Frame>)
        ensures
            (final(self)@, protocol::frames(r@)) == created_step(old(self)@),
    {
        broadcast use protocol::group_frames;
        broadcast use json::group_json;

        let mut out: Vec<Frame> = Vec::new();
        if self.created_sent {
            return out;
        }
        self.created_sent = true;
        let response = responses::response_envelope_at(
            self.response_id.as_str(),
            self.model.as_str(),
            "in_progress",
            Vec::new(),
            Json::Null,
            &self.request,
            self.created,
            None,
            0,
        );
        proof {
            not_completed("in_progress"@);
        }
        out.push(self.event("response.created", Json::obj().with("response", response)));
        out
    }

    fn open_reasoning(&mut self, id: &str) -> (r: Vec<Frame>)
        ensures
            (final(self)@, protocol::frames(r@)) == open_reasoning_step(old(self)@, id@),
    {
        broadcast use protocol::group_frames;
        broadcast use json::group_json;

        let mut out: Vec<Frame> = Vec::new();
        if self.reasoning_open {
            return out;
        }
        self.reasoning_open = true;
        let index = self.take_index();
        self.reasoning_index = index;
        self.reasoning_id = id.to_owned();
        self.reasoning = String::new();
        let item = make_thinking_item(id, "in_progress", Vec::new());
        out.push(self.event("response.output_item.added", make_whole_item(index, item)));
        proof {
            reveal_strlit("");
            assert(""@ =~= Seq::empty());
        }
        let data = make_of_item(index, id).with("summary_index", Json::Int(0)).with(
            "part",
            make_summary_part(""),
        );
        out.push(self.event("response.reasoning_summary_part.added", data));
        out
    }

    fn close_reasoning(&mut self) -> (r: Vec<Frame>)
        ensures
            (final(self)@, protocol::frames(r@)) == close_reasoning_step(old(self)@),
    {
        broadcast use protocol::group_frames;
        broadcast use json::group_json;

        let mut out: Vec<Frame> = Vec::new();
        if !self.reasoning_open {
            return out;
        }
        self.reasoning_open = false;
        let index: i64 = self.reasoning_index;
        let mut summary: Vec<Json> = Vec::new();
        summary.push(make_summary_part(self.reasoning.as_str()));
        proof {
            assert(json::models(summary@) =~= seq![summary_part(self.reasoning@)]);
        }
        let item = make_thinking_item(self.reasoning_id.as_str(), "completed", summary);
        let kept = item.copy();
        proof {
            done_items_push(self.output_items@, (index, kept));
        }
        self.output_items.push((index, kept));
        let first = make_of_item(index, self.reasoning_id.as_str()).with(
            "summary_index",
            Json::Int(0),
        ).with("text", Json::str(self.reasoning.as_str()));
        let second = make_of_item(index, self.reasoning_id.as_str()).with(
            "summary_index",
            Json::Int(0),
        ).with("part", make_summary_part(self.reasoning.as_str()));
        out.push(self.event("response.reasoning_summary_text.done", first));
        out.push(self.event("response.reasoning_summary_part.done", second));
        out.push(self.event("response.output_item.done", make_whole_item(index, item)));
        out
    }

    fn open_text(&mut self, id: &str) -> (r: Vec<Frame>)
        ensures
            (final(self)@, protocol::frames(r@)) == open_text_step(old(self)@, id@),
    {
        broadcast use protocol::group_frames;

        let mut out: Vec<Frame> = Vec::new();
        if self.text_open {
            return out;
        }
        self.text_open = true;
        let index = self.take_index();
        self.text_index = index;
        self.text_id = id.to_owned();
        self.text = String::new();
        self.answered = true;
        out.push(
            self.event(
                "response.output_item.added",
                make_whole_item(index, make_begun_message(id)),
            ),
        );
        let data = make_of_item(index, id).with("content_index", Json::Int(0)).with(
            "part",
            make_empty_part(),
        );
        out.push(self.event("response.content_part.added", data));
        out
    }

    fn close_text(&mut self) -> (r: Vec<Frame>)
        ensures
            (final(self)@, protocol::frames(r@)) == close_text_step(old(self)@),
    {
        broadcast use protocol::group_frames;

        let mut out: Vec<Frame> = Vec::new();
        if !self.text_open {
            return out;
        }
        self.text_open = false;
        let index: i64 = self.text_index;
        let item = responses::make_done_message(self.text_id.as_str(), self.text.as_str());
        let kept = item.copy();
        proof {
            done_items_push(self.output_items@, (index, kept));
        }
        self.output_items.push((index, kept));
        let first = make_of_item(index, self.text_id.as_str()).with(
            "content_index",
            Json::Int(0),
        ).with("text", Json::str(self.text.as_str()));
        let second = make_of_item(index, self.text_id.as_str()).with(
            "content_index",
            Json::Int(0),
        ).with("part", responses::make_output_part(self.text.as_str()));
        out.push(self.event("response.output_text.done", first));
        out.push(self.event("response.content_part.done", second));
        out.push(self.event("response.output_item.done", make_whole_item(index, item)));
        out
    }
}

/// A list of items that are done, with one more.
proof fn done_items_push(s: Seq<(i64, Json)>, e: (i64, Json))
    ensures
        done_items(s.push(e)) == done_items(s).push((e.0 as int, e.1@)),
{
    assert(done_items(s.push(e)) =~= done_items(s).push((e.0 as int, e.1@)));
}

/// Only the status `completed` names the time.
proof fn not_completed(status: Seq<char>)
    requires
        status == "in_progress"@ || status == "failed"@,
    ensures
        status != "completed"@,
{
    reveal_strlit("in_progress");
    reveal_strlit("failed");
    reveal_strlit("completed");
    assert("in_progress"@.len() == 11 && "failed"@.len() == 6 && "completed"@.len() == 9);
}

proof fn find_tool_bound(tools: Seq<(int, StreamToolV)>, key: int, i: int)
    requires
        0 <= i <= tools.len(),
    ensures
        i <= find_tool(tools, key, i) <= tools.len(),
        find_tool(tools, key, i) < tools.len() ==> tools[find_tool(tools, key, i)].0 == key,
        find_tool(tools, key, i) == tools.len() ==> forall|k: int|
            i <= k < tools.len() ==> (#[trigger] tools[k]).0 != key,
    decreases tools.len() - i,
{
    if i < tools.len() && tools[i].0 != key {
        find_tool_bound(tools, key, i + 1);
    }
}

proof fn find_tool_pushed(tools: Seq<(int, StreamToolV)>, e: (int, StreamToolV), i: int)
    requires
        0 <= i <= tools.len(),
        forall|k: int| i <= k < tools.len() ==> (#[trigger] tools[k]).0 != e.0,
    ensures
        find_tool(tools.push(e), e.0, i) == tools.len(),
    decreases tools.len() - i,
{
    if i < tools.len() {
        find_tool_pushed(tools, e, i + 1);
    }
}

impl ResponsesStream {
    /// The place of the call under a key, which begins where there is none.
    fn tool_place(&mut self, key: i64, fc: &str, fresh_call: &str, ctc: &str) -> (r: usize)
        ensures
            final(self)@ == with_tool(old(self)@, key as int, fc@, fresh_call@, ctc@),
            r == find_tool(final(self)@.tools, key as int, 0),
            r < final(self)@.tools.len(),
    {
        let ghost tools = self@.tools;
        let mut i: usize = 0;
        proof {
            find_tool_bound(tools, key as int, 0);
        }
        while i < self.tools.len() && self.tools[i].0 != key
            invariant
                i <= self.tools@.len(),
                tools == stream_tools(self.tools@),
                find_tool(tools, key as int, 0) == find_tool(tools, key as int, i as int),
            decreases self.tools@.len() - i,
        {
            i = i + 1;
        }
        if i < self.tools.len() {
            return i;
        }
        let index = self.take_index();
        let tool = StreamTool {
            index,
            item_id: fc.to_owned(),
            custom_id: ctc.to_owned(),
            spare_id: fresh_call.to_owned(),
            seen: ToolAccum::new(),
            announced: false,
        };
        proof {
            find_tool_pushed(tools, (key as int, tool@), 0);
            assert(stream_tools(self.tools@.push((key, tool))) =~= tools.push(
                (key as int, tool@),
            ));
        }
        self.tools.push((key, tool));
        self.answered = true;
        i
    }

    fn say_arguments(&mut self, place: usize, delta: &str) -> (r: Vec<Frame>)
        requires
            place < old(self)@.tools.len(),
        ensures
            (final(self)@, protocol::frames(r@)) == arguments_step(
                quiet(old(self)@),
                old(self)@.tools[place as int].1,
                delta@,
            ),
    {
        broadcast use protocol::group_frames;

        let mut out: Vec<Frame> = Vec::new();
        proof {
            assert(self@.tools[place as int].1 == self.tools@[place as int].1@);
        }
        if delta.is_empty() || self.plan.is_custom(self.tools[place].1.seen.name.as_str()) {
            return out;
        }
        let tool = &self.tools[place].1;
        let data = make_of_item(tool.index, tool.item_id.as_str()).with(
            "call_id",
            Json::str(tool.seen.call_id.as_str()),
        ).with("name", Json::str(tool.seen.name.as_str())).with("delta", Json::str(delta));
        out.push(self.event("response.function_call_arguments.delta", data));
        out
    }

    fn announce(&mut self, place: usize) -> (r: Vec<Frame>)
        requires
            place < old(self)@.tools.len(),
        ensures
            (final(self)@, protocol::frames(r@)) == announce_step(
                quiet(old(self)@),
                old(self)@.tools[place as int].1,
            ),
    {
        broadcast use protocol::group_frames;

        let ghost tool = self@.tools[place as int].1;
        proof {
            assert(tool == self.tools@[place as int].1@);
        }
        let mut out: Vec<Frame> = Vec::new();
        let index: i64 = self.tools[place].1.index;
        let item = make_begun_call(
            &self.plan,
            self.tools[place].1.item_id.as_str(),
            self.tools[place].1.seen.name.as_str(),
            self.tools[place].1.seen.call_id.as_str(),
        );
        let arguments = self.tools[place].1.seen.arguments.clone();
        let ghost start = self@;
        out.push(self.event("response.output_item.added", make_whole_item(index, item)));
        proof {
            assert(self@.tools == start.tools);
            arguments_after((self@, protocol::frames(out@)), tool, tool.seen.arguments);
        }
        let mut pieces = self.say_arguments(place, arguments.as_str());
        out.append(&mut pieces);
        out
    }

    fn consume_tool(&mut self, call: &Json, fc: &str, fresh_call: &str, ctc: &str) -> (r: Vec<
        Frame,
    >)
        ensures
            (final(self)@, protocol::frames(r@)) == tool_step(
                old(self)@,
                call@,
                fc@,
                fresh_call@,
                ctc@,
            ),
    {
        broadcast use protocol::group_frames;

        let mut out = self.close_reasoning();
        let mut more = self.close_text();
        out.append(&mut more);
        let ghost e2 = protocol::frames(out@);
        let key = json::int_or(call.get("index"));
        let place = self.tool_place(key, fc, fresh_call, ctc);
        let ghost s3 = self@;
        let ghost before = self.tools@[place as int];
        proof {
            assert(s3.tools[place as int] == (before.0 as int, before.1@));
            find_tool_bound(s3.tools, key as int, 0);
        }
        let (index, mut tool) = self.tools.remove(place);
        tool.seen.piece(call);
        let was_announced: bool = tool.announced;
        let announced_now: bool = place == 0 && !was_announced
            && !tool.seen.name.as_str().is_empty();
        if announced_now {
            tool.announce(&self.plan);
        }
        let ghost after = tool@;
        proof {
            assert(after == tool_after(s3.plan, before.1@, call@, place == 0));
        }
        self.tools.insert(place, (index, tool));
        proof {
            assert(stream_tools(self.tools@) =~= s3.tools.update(place as int, (key as int, after)));
            assert(self@.tools[place as int].1 == after);
        }
        let ghost s4 = self@;
        if announced_now {
            let mut pieces = self.announce(place);
            proof {
                announce_after((s4, e2), after);
            }
            out.append(&mut pieces);
        } else if was_announced {
            let arguments = json::str_or(json::get_in(call.get("function"), "arguments"));
            let mut pieces = self.say_arguments(place, arguments.as_str());
            out.append(&mut pieces);
            proof {
                arguments_after((s4, e2), after, arguments@);
            }
        }
        out
    }

    fn consume_tools(&mut self, calls: &Vec<Json>, fresh: &Fresh) -> (r: Vec<Frame>)
        ensures
            (final(self)@, protocol::frames(r@)) == tools_step(
                old(self)@,
                json::models(calls@),
                fresh@,
                calls@.len(),
            ),
    {
        let ghost want = json::models(calls@);
        let mut out: Vec<Frame> = Vec::new();
        proof {
            assert(protocol::frames(out@) =~= Seq::empty());
        }
        let mut i: usize = 0;
        while i < calls.len()
            invariant
                i <= calls@.len(),
                want == json::models(calls@),
                (self@, protocol::frames(out@)) == tools_step(old(self)@, want, fresh@, i as nat),
            decreases calls@.len() - i,
        {
            let fc = protocol::string_at(&fresh.fc, i);
            let call = protocol::string_at(&fresh.call, i);
            let ctc = protocol::string_at(&fresh.ctc, i);
            let mut more = self.consume_tool(
                &calls[i],
                fc.as_str(),
                call.as_str(),
                ctc.as_str(),
            );
            proof {
                protocol::frames_add(out@, more@);
            }
            out.append(&mut more);
            i = i + 1;
        }
        out
    }

    /// Takes in one piece of the chat stream, with the identifiers that it may need.
    pub fn consume(&mut self, chunk: &Json, fresh: &Fresh) -> (r: Vec<Frame>)
        ensures
            (final(self)@, protocol::frames(r@)) == chunk_step(old(self)@, chunk@, fresh@),
    {
        broadcast use protocol::group_frames;
        broadcast use json::group_json;

        if self.finished {
            return Vec::new();
        }
        if let Some(error) = json::truthy_in(chunk.get("error")) {
            return self.fail(error);
        }
        let id = json::str_or(chunk.get("id"));
        if !id.as_str().is_empty() && !self.created_sent {
            self.response_id = id;
        }
        if let Some(usage) = chunk.get("usage") {
            if usage.is_obj() {
                self.usage = Some(usage.copy());
            }
        }
        let choice = chat::read_choice(chunk);
        let finish = json::str_or(json::get_in(choice, "finish_reason"));
        if !finish.as_str().is_empty() {
            self.finish_reason = Some(finish);
        }
        proof {
            assert(self@ == noted(old(self)@, chunk@));
        }
        let mut out = self.emit_created();
        let delta = match json::get_in(choice, "delta") {
            Some(d) => d,
            None => {
                return out;
            },
        };
        let ghost e1 = protocol::frames(out@);
        let reasoning = chat::read_reasoning(delta);
        let mut thoughts = self.think(reasoning.as_str(), fresh.rs.as_str());
        out.append(&mut thoughts);
        let ghost e2 = protocol::frames(out@);
        let content = json::str_or(delta.get("content"));
        let mut texts_out = self.write(content.as_str(), fresh.msg.as_str());
        out.append(&mut texts_out);
        let ghost e3 = protocol::frames(out@);
        proof {
            assert(e3 + Seq::<Fv>::empty() =~= e3);
        }
        if let Some(Json::Arr(calls)) = delta.get("tool_calls") {
            let mut more = self.consume_tools(calls, fresh);
            out.append(&mut more);
        }
        out
    }

    fn hold(&mut self, thinking: bool, text: &str, id: &str)
        ensures
            final(self)@ == held_back(old(self)@, HeldV { thinking, text: text@, id: id@ }),
    {
        let piece = Held { thinking, text: text.to_owned(), id: id.to_owned() };
        proof {
            lists::views_push(self.held@, piece);
        }
        self.held.push(piece);
    }

    fn think(&mut self, text: &str, rs: &str) -> (r: Vec<Frame>)
        ensures
            (final(self)@, protocol::frames(r@)) == thinking_step(old(self)@, text@, rs@),
    {
        broadcast use protocol::group_frames;

        if text.is_empty() {
            return Vec::new();
        }
        if self.tools.len() > 0 {
            self.hold(true, text, rs);
            return Vec::new();
        }
        let mut out = self.close_text();
        let mut more = self.open_reasoning(rs);
        out.append(&mut more);
        self.reasoning.append(text);
        let data = make_of_item(self.reasoning_index, self.reasoning_id.as_str()).with(
            "summary_index",
            Json::Int(0),
        ).with("delta", Json::str(text));
        out.push(self.event("response.reasoning_summary_text.delta", data));
        out
    }

    fn write(&mut self, text: &str, msg: &str) -> (r: Vec<Frame>)
        ensures
            (final(self)@, protocol::frames(r@)) == text_step(old(self)@, text@, msg@),
    {
        broadcast use protocol::group_frames;

        if text.is_empty() {
            return Vec::new();
        }
        if self.tools.len() > 0 {
            self.hold(false, text, msg);
            return Vec::new();
        }
        let mut out = self.close_reasoning();
        let mut more = self.open_text(msg);
        out.append(&mut more);
        self.text.append(text);
        let data = make_of_item(self.text_index, self.text_id.as_str()).with(
            "content_index",
            Json::Int(0),
        ).with("delta", Json::str(text));
        out.push(self.event("response.output_text.delta", data));
        out
    }

    fn fail(&mut self, error: &Json) -> (r: Vec<Frame>)
        ensures
            (final(self)@, protocol::frames(r@)) == error_step(old(self)@, error@),
    {
        broadcast use protocol::group_frames;
        broadcast use json::group_json;

        self.finished = true;
        let mut out = self.emit_created();
        let message = anthropic_stream::read_error_message(error);
        let code = json::copy_or_null(json::truthy_in(error.get("code")));
        let code_again = code.copy();
        let first = Json::obj().with("code", code).with(
            "message",
            Json::str(message.as_str()),
        ).with("param", Json::Null);
        out.push(self.event("error", first));
        let usage = responses::usage_to_responses(self.usage.as_ref());
        proof {
            not_completed("failed"@);
        }
        let failed = responses::response_envelope_at(
            self.response_id.as_str(),
            self.model.as_str(),
            "failed",
            Vec::new(),
            usage,
            &self.request,
            self.created,
            None,
            0,
        ).with(
            "error",
            Json::obj().with("code", code_again).with("message", Json::Str(message)),
        );
        out.push(self.event("response.failed", Json::obj().with("response", failed)));
        out
    }

    fn done_tool(&mut self, place: usize) -> (r: Vec<Frame>)
        requires
            place < old(self)@.tools.len(),
        ensures
            (final(self)@, protocol::frames(r@)) == done_tool_step(
                quiet(old(self)@),
                old(self)@.tools[place as int].1,
            ),
    {
        broadcast use protocol::group_frames;

        let mut out: Vec<Frame> = Vec::new();
        proof {
            assert(self@.tools[place as int].1 == self.tools@[place as int].1@);
        }
        let tool = &self.tools[place].1;
        let index: i64 = tool.index;
        let announced: bool = tool.announced;
        let item_id = tool.item_id.clone();
        let call_id = protocol::or_text(tool.seen.call_id.clone(), tool.spare_id.as_str());
        let name = protocol::or_text(tool.seen.name.clone(), "unknown");
        let arguments = protocol::or_text(tool.seen.arguments.clone(), "{}");
        let item = responses::tool_call_item(
            &self.plan,
            item_id.as_str(),
            name.as_str(),
            call_id.as_str(),
            arguments.as_str(),
        );
        let kept = item.copy();
        proof {
            done_items_push(self.output_items@, (index, kept));
        }
        self.output_items.push((index, kept));
        if announced {
            if self.plan.is_custom(name.as_str()) {
                let data = make_of_item(index, item_id.as_str()).with(
                    "input",
                    Json::Str(tool_plan::unwrap_freeform_input(arguments.as_str())),
                );
                out.push(self.event("response.custom_tool_call_input.done", data));
            } else {
                let data = make_of_item(index, item_id.as_str()).with(
                    "call_id",
                    Json::Str(call_id),
                ).with("name", Json::Str(name)).with("arguments", Json::Str(arguments));
                out.push(self.event("response.function_call_arguments.done", data));
            }
        }
        out.push(self.event("response.output_item.done", make_whole_item(index, item)));
        out
    }

    /// Closes the first of the calls that are not done, and takes it off the list.
    #[verifier::rlimit(50)]
    fn close_first(&mut self) -> (r: Vec<Frame>)
        requires
            old(self)@.tools.len() > 0,
        ensures
            ({
                let x = close_tool_step(quiet(old(self)@), old(self)@.tools[0].1);
                &&& final(self)@ == (ResponsesV { tools: old(self)@.tools.skip(1), ..x.0 })
                &&& protocol::frames(r@) == x.1
            }),
    {
        broadcast use protocol::group_frames;

        let ghost start = self@;
        let ghost tool = start.tools[0].1;
        proof {
            assert(tool == self.tools@[0].1@);
        }
        let mut out: Vec<Frame> = Vec::new();
        if !self.tools[0].1.announced && !self.tools[0].1.seen.name.as_str().is_empty() {
            let (key, mut first) = self.tools.remove(0);
            first.announce(&self.plan);
            let ghost t = first@;
            self.tools.insert(0, (key, first));
            proof {
                assert(t == announced_tool(start.plan, tool));
                assert(stream_tools(self.tools@) =~= start.tools.update(0, (start.tools[0].0, t)));
                assert(self@ == (ResponsesV {
                    tools: start.tools.update(0, (start.tools[0].0, t)),
                    ..start
                }));
                announce_list(quiet(start), t, self@.tools);
            }
            out = self.announce(0);
            proof {
                done_list(announce_step(quiet(start), t), t, self@.tools);
                done_after(
                    (self@, protocol::frames(out@)),
                    t,
                );
            }
        }
        let ghost mid = self@;
        let mut more = self.done_tool(0);
        out.append(&mut more);
        proof {
            assert(self@.tools == mid.tools);
            assert(stream_tools(self.tools@).skip(1) =~= start.tools.skip(1));
        }
        let _gone = self.tools.remove(0);
        proof {
            assert(stream_tools(self.tools@) =~= start.tools.skip(1));
        }
        out
    }

    #[verifier::rlimit(50)]
    fn close_calls(&mut self) -> (r: Vec<Frame>)
        ensures
            (final(self)@, protocol::frames(r@)) == close_calls_step(old(self)@),
    {
        let ghost start = self@;
        let mut out: Vec<Frame> = Vec::new();
        proof {
            assert(protocol::frames(out@) =~= Seq::empty());
            assert(start.tools.skip(0) =~= start.tools);
        }
        let ghost mut n: nat = 0;
        while self.tools.len() > 0
            invariant
                n <= start.tools.len(),
                self@.tools == start.tools.skip(n as int),
                self@ == (ResponsesV {
                    tools: start.tools.skip(n as int),
                    ..close_tools_step(start, n).0
                }),
                protocol::frames(out@) == close_tools_step(start, n).1,
            decreases self.tools@.len(),
        {
            let ghost mid = self@;
            let ghost x = close_tools_step(start, n);
            let mut more = self.close_first();
            proof {
                protocol::frames_add(out@, more@);
                let tool = start.tools[n as int].1;
                assert(mid.tools[0] == start.tools[n as int]);
                close_list(x, tool, mid.tools);
                close_after(x, tool);
                assert(mid.tools.skip(1) =~= start.tools.skip(n as int + 1));
                n = n + 1;
            }
            out.append(&mut more);
        }
        proof {
            assert(n == start.tools.len());
            assert(start.tools.skip(n as int) =~= Seq::empty());
        }
        out
    }

    fn say_held(&mut self) -> (r: Vec<Frame>)
        requires
            old(self)@.tools.len() == 0,
        ensures
            (final(self)@, protocol::frames(r@)) == ({
                let x = held_step(old(self)@, old(self)@.held.len());
                (ResponsesV { held: Seq::empty(), ..x.0 }, x.1)
            }),
    {
        let ghost start = self@;
        let mut out: Vec<Frame> = Vec::new();
        proof {
            assert(protocol::frames(out@) =~= Seq::empty());
        }
        let mut i: usize = 0;
        while i < self.held.len()
            invariant
                i <= self.held@.len(),
                start.tools.len() == 0,
                start.held == lists::views(self.held@),
                (self@, protocol::frames(out@)) == held_step(start, i as nat),
            decreases self.held@.len() - i,
        {
            proof {
                held_stays(start, i as nat);
                held_stays(start, i as nat + 1);
                assert(start.held[i as int] == self.held@[i as int]@);
            }
            let thinking: bool = self.held[i].thinking;
            let text = self.held[i].text.clone();
            let id = self.held[i].id.clone();
            let mut more = if thinking {
                self.think(text.as_str(), id.as_str())
            } else {
                self.write(text.as_str(), id.as_str())
            };
            proof {
                protocol::frames_add(out@, more@);
                assert(lists::views(self.held@).len() == self.held@.len());
            }
            out.append(&mut more);
            i = i + 1;
        }
        proof {
            assert(i == start.held.len());
        }
        self.held = Vec::new();
        proof {
            assert(lists::views(self.held@) =~= Seq::empty());
        }
        out
    }

    fn release(&mut self) -> (r: Vec<Frame>)
        ensures
            (final(self)@, protocol::frames(r@)) == release_step(old(self)@),
    {
        broadcast use protocol::group_frames;

        let mut out = self.close_calls();
        let mut pieces = self.say_held();
        out.append(&mut pieces);
        let mut thinking = self.close_reasoning();
        out.append(&mut thinking);
        let mut text = self.close_text();
        out.append(&mut text);
        out
    }

    fn output_list(&self) -> (r: Vec<Json>)
        ensures
            json::models(r@) == bare_items(sorted_items(self@.items, self@.items.len())),
    {
        let ghost want = self@.items;
        let mut sorted: Vec<(i64, Json)> = Vec::new();
        proof {
            assert(done_items(sorted@) =~= Seq::empty());
        }
        let mut i: usize = 0;
        while i < self.output_items.len()
            invariant
                i <= self.output_items@.len(),
                want == done_items(self.output_items@),
                done_items(sorted@) == sorted_items(want, i as nat),
            decreases self.output_items@.len() - i,
        {
            let key: i64 = self.output_items[i].0;
            let item = self.output_items[i].1.copy();
            proof {
                assert(want[i as int] == (key as int, item@));
            }
            insert_sorted(&mut sorted, key, item);
            i = i + 1;
        }
        let ghost all = sorted_items(want, want.len());
        let mut out: Vec<Json> = Vec::new();
        proof {
            assert(json::models(out@) =~= bare_items(all).take(0));
        }
        let mut j: usize = 0;
        while j < sorted.len()
            invariant
                j <= sorted@.len(),
                done_items(sorted@) == all,
                json::models(out@) == bare_items(all).take(j as int),
            decreases sorted@.len() - j,
        {
            let item = sorted[j].1.copy();
            proof {
                json::models_push(out@, item);
                assert(all[j as int] == (sorted@[j as int].0 as int, sorted@[j as int].1@));
                assert(bare_items(all).take(j as int + 1) =~= bare_items(all).take(j as int).push(
                    item@,
                ));
            }
            out.push(item);
            j = j + 1;
        }
        proof {
            assert(bare_items(all).take(all.len() as int) =~= bare_items(all));
        }
        out
    }

    fn end(&mut self, fresh: &Fresh, now: i64) -> (r: Vec<Frame>)
        ensures
            (final(self)@, protocol::frames(r@)) == end_step(old(self)@, fresh@, now as int),
    {
        broadcast use protocol::group_frames;
        broadcast use json::group_json;

        if self.finished {
            return Vec::new();
        }
        self.finished = true;
        let mut out = self.emit_created();
        let mut more = self.close_reasoning();
        out.append(&mut more);
        if !self.answered {
            let mut opened = self.open_text(fresh.msg.as_str());
            out.append(&mut opened);
        }
        let mut closed = self.close_text();
        out.append(&mut closed);
        let mut rest = self.release();
        out.append(&mut rest);
        let output = self.output_list();
        let finish = match &self.finish_reason {
            Some(f) => f.clone(),
            None => String::new(),
        };
        let incomplete = responses::read_incomplete(finish.as_str());
        let status = if incomplete.is_some() {
            "incomplete"
        } else {
            "completed"
        };
        let usage = responses::usage_to_responses(self.usage.as_ref());
        let response = responses::response_envelope_at(
            self.response_id.as_str(),
            self.model.as_str(),
            status,
            output,
            usage,
            &self.request,
            self.created,
            incomplete,
            now,
        );
        out.push(self.event("response.completed", Json::obj().with("response", response)));
        out
    }
}

fn insert_sorted(sorted: &mut Vec<(i64, Json)>, key: i64, item: Json)
    ensures
        done_items(final(sorted)@) == insert_item(done_items(old(sorted)@), (key as int, item@)),
{
    let ghost all = done_items(sorted@);
    let ghost e = (key as int, item@);
    let mut p: usize = sorted.len();
    proof {
        assert(all.take(all.len() as int) =~= all);
        assert(insert_item(all, e) + all.skip(all.len() as int) =~= insert_item(all, e));
    }
    while p > 0 && sorted[p - 1].0 > key
        invariant
            p <= sorted@.len(),
            all == done_items(sorted@),
            e.0 == key,
            insert_item(all, e) == insert_item(all.take(p as int), e) + all.skip(p as int),
        decreases p,
    {
        proof {
            let a = all.take(p as int);
            let b = all.take(p as int - 1);
            assert(a.drop_last() =~= b);
            assert(a.last() == all[p as int - 1]);
            assert(insert_item(a, e) == insert_item(b, e).push(all[p as int - 1]));
            assert(insert_item(a, e) + all.skip(p as int) =~= insert_item(b, e) + all.skip(
                p as int - 1,
            ));
        }
        p = p - 1;
    }
    proof {
        let a = all.take(p as int);
        assert(p > 0 ==> a.last() == all[p as int - 1]);
        assert(insert_item(a, e) == a.push(e));
        assert(a.push(e) + all.skip(p as int) =~= all.insert(p as int, e));
    }
    sorted.insert(p, (key, item));
    proof {
        assert(done_items(sorted@) =~= all.insert(p as int, e));
    }
}

/// What waits is given out without a change to what is left, or to the calls.
proof fn held_stays(st: ResponsesV, n: nat)
    requires
        st.tools.len() == 0,
    ensures
        held_step(st, n).0.tools.len() == 0,
        held_step(st, n).0.held == st.held,
    decreases n,
{
    if n > 0 {
        held_stays(st, (n - 1) as nat);
    }
}

/// What comes before does not matter to the arguments that are said.
proof fn arguments_after(x: (ResponsesV, Seq<Fv>), tool: StreamToolV, delta: Seq<char>)
    ensures
        arguments_step(x, tool, delta).0 == arguments_step(quiet(x.0), tool, delta).0,
        arguments_step(x, tool, delta).1 == x.1 + arguments_step(quiet(x.0), tool, delta).1,
{
    assert(arguments_step(x, tool, delta).1 =~= x.1 + arguments_step(quiet(x.0), tool, delta).1);
}

/// What comes before does not matter to how a call is announced.
proof fn announce_after(x: (ResponsesV, Seq<Fv>), tool: StreamToolV)
    ensures
        announce_step(x, tool).0 == announce_step(quiet(x.0), tool).0,
        announce_step(x, tool).1 == x.1 + announce_step(quiet(x.0), tool).1,
{
    assert(announce_step(x, tool).1 =~= x.1 + announce_step(quiet(x.0), tool).1);
}

/// What comes before does not matter to how a call is done.
proof fn done_after(x: (ResponsesV, Seq<Fv>), tool: StreamToolV)
    ensures
        done_tool_step(x, tool).0 == done_tool_step(quiet(x.0), tool).0,
        done_tool_step(x, tool).1 == x.1 + done_tool_step(quiet(x.0), tool).1,
{
    assert(done_tool_step(x, tool).1 =~= x.1 + done_tool_step(quiet(x.0), tool).1);
}

/// What comes before does not matter to how a call is closed.
proof fn close_after(x: (ResponsesV, Seq<Fv>), tool: StreamToolV)
    ensures
        close_tool_step(x, tool).0 == close_tool_step(quiet(x.0), tool).0,
        close_tool_step(x, tool).1 == x.1 + close_tool_step(quiet(x.0), tool).1,
{
    assert(close_tool_step(x, tool).1 =~= x.1 + close_tool_step(quiet(x.0), tool).1);
}

/// The state with another list of calls.
spec fn listing(st: ResponsesV, tools: Seq<(int, StreamToolV)>) -> ResponsesV {
    ResponsesV { tools, ..st }
}

/// The list of calls does not matter to how one of them is announced.
proof fn announce_list(x: (ResponsesV, Seq<Fv>), tool: StreamToolV, tools: Seq<(int, StreamToolV)>)
    ensures
        announce_step((listing(x.0, tools), x.1), tool) == (
            listing(announce_step(x, tool).0, tools),
            announce_step(x, tool).1,
        ),
{
}

/// The list of calls does not matter to how one of them is done.
proof fn done_list(x: (ResponsesV, Seq<Fv>), tool: StreamToolV, tools: Seq<(int, StreamToolV)>)
    ensures
        done_tool_step((listing(x.0, tools), x.1), tool) == (
            listing(done_tool_step(x, tool).0, tools),
            done_tool_step(x, tool).1,
        ),
{
}

/// The list of calls does not matter to how one of them is closed.
proof fn close_list(x: (ResponsesV, Seq<Fv>), tool: StreamToolV, tools: Seq<(int, StreamToolV)>)
    ensures
        close_tool_step((listing(x.0, tools), x.1), tool) == (
            listing(close_tool_step(x, tool).0, tools),
            close_tool_step(x, tool).1,
        ),
{
    let t = announced_tool(x.0.plan, tool);
    announce_list(x, t, tools);
    done_list(announce_step(x, t), t, tools);
    done_list(x, tool, tools);
}

/// A payload of the upstream: a chat piece, or something that is no JSON.
pub open spec fn payload_step(st: ResponsesV, data: Seq<char>, fresh: FreshV) -> (
    ResponsesV,
    Seq<Fv>,
) {
    match json::parsed_json(data) {
        Some(chunk) => chunk_step(st, chunk, fresh),
        None => quiet(st),
    }
}

/// The identifiers and the clock of one step.
#[verifier::ext_equal]
pub struct Given {
    pub piece: FreshV,
    pub end: FreshV,
    pub now: int,
}

/// The end of the upstream: what is left in the line is taken in first.
pub open spec fn finish_step(st: ResponsesV, given: Given) -> (ResponsesV, Seq<Fv>) {
    if st.finished {
        quiet(st)
    } else {
        let rest = ResponsesV { line: Seq::empty(), ..st };
        let (mid, ev) = match protocol::last_payload(st.line) {
            Some(data) => payload_step(rest, data, given.piece),
            None => quiet(rest),
        };
        both(ev, end_step(mid, given.end, given.now))
    }
}

/// The first `n` payloads; `given` holds what each of them may need.
pub open spec fn payloads_step(
    st: ResponsesV,
    list: Seq<Option<Seq<char>>>,
    given: Seq<Given>,
    n: nat,
) -> (ResponsesV, Seq<Fv>)
    decreases n,
{
    if n == 0 {
        quiet(st)
    } else {
        let (before, ev) = payloads_step(st, list, given, (n - 1) as nat);
        both(
            ev,
            match list[n - 1] {
                Some(data) => payload_step(before, data, given[n - 1].piece),
                None => finish_step(before, given[n - 1]),
            },
        )
    }
}

/// Bytes of the upstream.
pub open spec fn push_step(st: ResponsesV, chunk: Seq<u8>, given: Seq<Given>) -> (
    ResponsesV,
    Seq<Fv>,
) {
    let list = protocol::payloads(st.line, chunk);
    payloads_step(ResponsesV { line: protocol::line_left(st.line, chunk), ..st }, list, given, list.len())
}

/// Whether the identifiers are enough for the tool calls of a payload.
pub open spec fn fits_payload(data: Seq<char>, fresh: FreshV) -> bool {
    match json::parsed_json(data) {
        Some(chunk) => fresh.fits(anthropic_stream::delta_calls(chunk).len()),
        None => true,
    }
}

/// Whether the identifiers are enough for the payload at one place: a chat piece,
/// or at the end mark the line begun and a text that may have to be opened.
pub open spec fn fits_place(payload: Option<Seq<char>>, before: ResponsesV, given: Given) -> bool {
    match payload {
        Some(data) => fits_payload(data, given.piece),
        None => fits_end(before, given),
    }
}

/// Whether the identifiers are enough for the end of the stream.
pub open spec fn fits_end(before: ResponsesV, given: Given) -> bool {
    before.finished || {
        match protocol::last_payload(before.line) {
            Some(data) => fits_payload(data, given.piece) && given.end.fits(0),
            None => given.end.fits(0),
        }
    }
}

/// Whether the identifiers are enough for every payload of a list.
pub open spec fn fits_all(
    st: ResponsesV,
    list: Seq<Option<Seq<char>>>,
    given: Seq<Given>,
) -> bool {
    &&& given.len() == list.len()
    &&& forall|i: int|
        0 <= i < list.len() ==> fits_place(
            list[i],
            payloads_step(st, list, given, i as nat).0,
            #[trigger] given[i],
        )
}

/// Whether the identifiers are enough for the payloads that bytes complete.
pub open spec fn fits_push(st: ResponsesV, chunk: Seq<u8>, given: Seq<Given>) -> bool {
    fits_all(
        ResponsesV { line: protocol::line_left(st.line, chunk), ..st },
        protocol::payloads(st.line, chunk),
        given,
    )
}

proof fn payloads_step_prefix(
    st: ResponsesV,
    list: Seq<Option<Seq<char>>>,
    a: Seq<Given>,
    b: Seq<Given>,
    n: nat,
)
    requires
        n <= a.len() <= b.len(),
        forall|k: int| 0 <= k < a.len() ==> a[k] == #[trigger] b[k],
    ensures
        payloads_step(st, list, a, n) == payloads_step(st, list, b, n),
    decreases n,
{
    if n > 0 {
        payloads_step_prefix(st, list, a, b, (n - 1) as nat);
    }
}

impl ResponsesStream {
    fn consume_payload(&mut self, data: &str) -> (r: (Vec<Frame>, Ghost<FreshV>))
        ensures
            fits_payload(data@, r.1@),
            (final(self)@, protocol::frames(r.0@)) == payload_step(old(self)@, data@, r.1@),
    {
        broadcast use protocol::group_frames;
        broadcast use json::group_json;

        match json::parse(data) {
            Some(chunk) => {
                let count = match json::get_in(json::get_in(chat::read_choice(&chunk), "delta"), "tool_calls") {
                    Some(Json::Arr(calls)) => calls.len(),
                    _ => 0,
                };
                let fresh = Fresh::draw(count);
                let out = self.consume(&chunk, &fresh);
                (out, Ghost(fresh@))
            },
            None => (Vec::new(), Ghost(arbitrary())),
        }
    }

    #[verifier::rlimit(50)]
    fn finish_list(&mut self) -> (r: (Vec<Frame>, Ghost<Given>))
        ensures
            fits_end(old(self)@, r.1@),
            (final(self)@, protocol::frames(r.0@)) == finish_step(old(self)@, r.1@),
    {
        broadcast use protocol::group_frames;

        let ghost before = self@;
        if self.finished {
            return (Vec::new(), Ghost(arbitrary()));
        }
        let rest = self.buffer.finish();
        let ghost emptied = ResponsesV { line: Seq::empty(), ..before };
        proof {
            assert(self@ == emptied);
            let p = protocol::payload_texts(rest@);
            if rest@.len() > 0 {
                assert(p[0] == json::opt_string(rest@[0]));
                protocol::one_payload(protocol::lossy_text(before.line));
            }
        }
        let mut out: Vec<Frame> = Vec::new();
        let ghost mut piece: FreshV = arbitrary();
        if rest.len() > 0 {
            if let Some(data) = &rest[0] {
                let (list, Ghost(used)) = self.consume_payload(data.as_str());
                out = list;
                proof {
                    piece = used;
                }
            }
        }
        let fresh = Fresh::draw(0);
        let now = responses::clock_s();
        let ghost end = fresh@;
        let mut more = self.end(&fresh, now);
        out.append(&mut more);
        (out, Ghost(Given { piece, end, now: now as int }))
    }

    /// Takes in bytes of the upstream and gives out the frames that follow.
    pub fn push(&mut self, chunk: &[u8]) -> (r: Vec<bytes::Bytes>)
        ensures
            exists|given: Seq<Given>| #[trigger]
                fits_push(old(self)@, chunk@, given) && final(self)@ == push_step(
                    old(self)@,
                    chunk@,
                    given,
                ).0 && protocol::wire(r@, push_step(old(self)@, chunk@, given).1),
    {
        let ghost list = protocol::payloads(self@.line, chunk@);
        let ghost start = ResponsesV { line: protocol::line_left(self@.line, chunk@), ..self@ };
        let queue = self.buffer.push(chunk);
        proof {
            assert(self@ == start);
            assert(protocol::payload_texts(queue@) == list);
        }
        let mut out: Vec<Frame> = Vec::new();
        let ghost mut given: Seq<Given> = Seq::empty();
        proof {
            assert(protocol::frames(out@) =~= Seq::empty());
        }
        let mut i: usize = 0;
        while i < queue.len()
            invariant
                i <= queue@.len(),
                protocol::payload_texts(queue@) == list,
                given.len() == i,
                forall|k: int|
                    0 <= k < i ==> fits_place(
                        list[k],
                        payloads_step(start, list, given, k as nat).0,
                        #[trigger] given[k],
                    ),
                (self@, protocol::frames(out@)) == payloads_step(start, list, given, i as nat),
            decreases queue@.len() - i,
        {
            let ghost mid = self@;
            let ghost mut one: Given = arbitrary();
            proof {
                assert(list[i as int] == json::opt_string(queue@[i as int]));
            }
            let mut more: Vec<Frame>;
            match &queue[i] {
                Some(data) => {
                    let (list_out, Ghost(used)) = self.consume_payload(data.as_str());
                    more = list_out;
                    proof {
                        one = Given { piece: used, end: arbitrary(), now: 0 };
                    }
                },
                None => {
                    let (list_out, Ghost(used)) = self.finish_list();
                    more = list_out;
                    proof {
                        one = used;
                    }
                },
            }
            proof {
                let grown = given.push(one);
                assert(grown[i as int] == one);
                payloads_step_prefix(start, list, given, grown, i as nat);
                assert forall|k: int| 0 <= k < i + 1 implies fits_place(
                    list[k],
                    payloads_step(start, list, grown, k as nat).0,
                    #[trigger] grown[k],
                ) by {
                    payloads_step_prefix(start, list, given, grown, k as nat);
                    if k < i {
                        assert(grown[k] == given[k]);
                    }
                }
                given = grown;
                protocol::frames_add(out@, more@);
            }
            out.append(&mut more);
            i = i + 1;
        }
        proof {
            assert(fits_push(old(self)@, chunk@, given));
        }
        protocol::write_frames(&out)
    }

    /// Ends the stream and gives out the frames that follow; nothing where it has
    /// ended before.
    pub fn finish(&mut self) -> (r: Vec<bytes::Bytes>)
        ensures
            exists|given: Given| #[trigger]
                fits_end(old(self)@, given) && final(self)@ == finish_step(old(self)@, given).0
                    && protocol::wire(r@, finish_step(old(self)@, given).1),
    {
        let (out, _given) = self.finish_list();
        protocol::write_frames(&out)
    }
}

// ------------------------------------------------------------- order of items

/// The number of the item that an event is about.
pub open spec fn item_number(f: Fv) -> Option<int> {
    match f {
        Fv::Event(_, data) => match data.get("output_index"@) {
            Some(Jv::Int(n)) => Some(n),
            _ => None,
        },
        _ => None,
    }
}

/// Whether an event adds an item.
pub open spec fn adds(f: Fv) -> bool {
    f matches Fv::Event(name, _) && name == "response.output_item.added"@
}

/// Whether an event says that an item is done.
pub open spec fn ends(f: Fv) -> bool {
    f matches Fv::Event(name, _) && name == "response.output_item.done"@
}

/// The item that is being written after an event, where `open` is the one before it, and
/// no answer where the event is out of turn: an item is added only where none is being
/// written, all else is said only of the item that is being written, and no item is done
/// while another one is being written.
pub open spec fn turn(open: Option<int>, f: Fv) -> Option<Option<int>> {
    match item_number(f) {
        None => Some(open),
        Some(n) => if adds(f) {
            if open is None {
                Some(Some(n))
            } else {
                None
            }
        } else if ends(f) {
            if open is None || open == Some(n) {
                Some(None)
            } else {
                None
            }
        } else if open == Some(n) {
            Some(open)
        } else {
            None
        },
    }
}

/// The item that is being written after events, and no answer where one of them is out of
/// turn.
pub open spec fn turns(open: Option<int>, list: Seq<Fv>) -> Option<Option<int>>
    decreases list.len(),
{
    if list.len() == 0 {
        Some(open)
    } else {
        match turns(open, list.drop_last()) {
            Some(mid) => turn(mid, list.last()),
            None => None,
        }
    }
}

/// The item that is being written.
pub open spec fn in_writing(st: ResponsesV) -> Option<int> {
    if st.reasoning_open {
        Some(st.reasoning_index)
    } else if st.text_open {
        Some(st.text_index)
    } else if st.tools.len() > 0 && st.tools[0].1.announced {
        Some(st.tools[0].1.index)
    } else {
        None
    }
}

/// Whether at most one item is being written: a thinking, a text, or the first of the calls
/// that are not done; and a text or a call that is not done has been noted.
pub open spec fn one_at_a_time(st: ResponsesV) -> bool {
    &&& !(st.reasoning_open && st.text_open)
    &&& st.tools.len() > 0 ==> !st.reasoning_open && !st.text_open
    &&& st.text_open || st.tools.len() > 0 ==> st.answered
    &&& forall|i: int| 0 < i < st.tools.len() ==> !(#[trigger] st.tools[i]).1.announced
}

/// Whether a step says events in turn, and again leaves at most one item in writing.
pub open spec fn takes_turns(open: Option<int>, x: (ResponsesV, Seq<Fv>)) -> bool {
    &&& turns(open, x.1) == Some(in_writing(x.0))
    &&& one_at_a_time(x.0)
}

proof fn turns_add(open: Option<int>, a: Seq<Fv>, b: Seq<Fv>)
    ensures
        turns(open, a + b) == (match turns(open, a) {
            Some(mid) => turns(mid, b),
            None => None,
        }),
    decreases b.len(),
{
    if b.len() == 0 {
        assert(a + b =~= a);
    } else {
        turns_add(open, a, b.drop_last());
        assert((a + b).drop_last() =~= a + b.drop_last());
        assert((a + b).last() == b.last());
    }
}

/// What an event says of an item that is being written.
proof fn say_turn(open: Option<int>, x: (ResponsesV, Seq<Fv>), name: Seq<char>, data: Jv, n: int)
    requires
        data.get("output_index"@) == Some(Jv::Int(n)),
    ensures
        turns(open, say(x, name, data).1) == (match turns(open, x.1) {
            Some(mid) => if name == "response.output_item.added"@ {
                if mid is None {
                    Some(Some(n))
                } else {
                    None
                }
            } else if name == "response.output_item.done"@ {
                if mid is None || mid == Some(n) {
                    Some(None)
                } else {
                    None
                }
            } else if mid == Some(n) {
                Some(mid)
            } else {
                None
            },
            None => None,
        }),
{
    reveal_strlit("output_index");
    reveal_strlit("type");
    reveal_strlit("sequence_number");
    assert("output_index"@.len() == 12 && "type"@.len() == 4 && "sequence_number"@.len() == 15);
    let y = say(x, name, data);
    let f = numbered(x.0.sequence, name, data);
    assert(y.1.drop_last() =~= x.1);
    assert(y.1.last() == f);
    assert(item_number(f) == Some(n));
}

/// An event that is about no item.
proof fn say_aside(open: Option<int>, x: (ResponsesV, Seq<Fv>), name: Seq<char>, data: Jv)
    requires
        data.get("output_index"@) is None,
    ensures
        turns(open, say(x, name, data).1) == turns(open, x.1),
{
    reveal_strlit("output_index");
    reveal_strlit("type");
    reveal_strlit("sequence_number");
    assert("output_index"@.len() == 12 && "type"@.len() == 4 && "sequence_number"@.len() == 15);
    let y = say(x, name, data);
    let f = numbered(x.0.sequence, name, data);
    assert(y.1.drop_last() =~= x.1);
    assert(y.1.last() == f);
    assert(item_number(f) is None);
}

/// No other event about an item adds it or says that it is done.
proof fn event_names()
    ensures
        "response.output_item.added"@ != "response.output_item.done"@,
        "response.reasoning_summary_part.added"@ != "response.output_item.added"@,
        "response.reasoning_summary_part.added"@ != "response.output_item.done"@,
        "response.reasoning_summary_text.delta"@ != "response.output_item.added"@,
        "response.reasoning_summary_text.delta"@ != "response.output_item.done"@,
        "response.reasoning_summary_text.done"@ != "response.output_item.added"@,
        "response.reasoning_summary_text.done"@ != "response.output_item.done"@,
        "response.reasoning_summary_part.done"@ != "response.output_item.added"@,
        "response.reasoning_summary_part.done"@ != "response.output_item.done"@,
        "response.content_part.added"@ != "response.output_item.added"@,
        "response.content_part.added"@ != "response.output_item.done"@,
        "response.output_text.delta"@ != "response.output_item.added"@,
        "response.output_text.delta"@ != "response.output_item.done"@,
        "response.output_text.done"@ != "response.output_item.added"@,
        "response.output_text.done"@ != "response.output_item.done"@,
        "response.content_part.done"@ != "response.output_item.added"@,
        "response.content_part.done"@ != "response.output_item.done"@,
        "response.function_call_arguments.delta"@ != "response.output_item.added"@,
        "response.function_call_arguments.delta"@ != "response.output_item.done"@,
        "response.function_call_arguments.done"@ != "response.output_item.added"@,
        "response.function_call_arguments.done"@ != "response.output_item.done"@,
        "response.custom_tool_call_input.done"@ != "response.output_item.added"@,
        "response.custom_tool_call_input.done"@ != "response.output_item.done"@,
{
    reveal_strlit("response.output_item.added");
    reveal_strlit("response.output_item.done");
    reveal_strlit("response.reasoning_summary_part.added");
    reveal_strlit("response.reasoning_summary_text.delta");
    reveal_strlit("response.reasoning_summary_text.done");
    reveal_strlit("response.reasoning_summary_part.done");
    reveal_strlit("response.content_part.added");
    reveal_strlit("response.output_text.delta");
    reveal_strlit("response.output_text.done");
    reveal_strlit("response.content_part.done");
    reveal_strlit("response.function_call_arguments.delta");
    reveal_strlit("response.function_call_arguments.done");
    reveal_strlit("response.custom_tool_call_input.done");
    assert("response.output_item.added"@.len() == 26 && "response.output_item.added"@[9] == 'o'
        && "response.output_item.added"@[16] == 'i');
    assert("response.output_item.done"@.len() == 25 && "response.output_item.done"@[16] == 'i');
    assert("response.content_part.done"@[9] == 'c');
    assert("response.output_text.delta"@[16] == 't');
    assert("response.output_text.done"@[16] == 't');
}

/// The other members of an event do not say of which item it is.
proof fn item_keys()
    ensures
        "item_id"@ != "output_index"@,
        "item"@ != "output_index"@,
        "summary_index"@ != "output_index"@,
        "content_index"@ != "output_index"@,
        "part"@ != "output_index"@,
        "text"@ != "output_index"@,
        "delta"@ != "output_index"@,
        "call_id"@ != "output_index"@,
        "name"@ != "output_index"@,
        "input"@ != "output_index"@,
        "arguments"@ != "output_index"@,
        "response"@ != "output_index"@,
        "code"@ != "output_index"@,
        "message"@ != "output_index"@,
        "param"@ != "output_index"@,
{
    reveal_strlit("output_index");
    reveal_strlit("item_id");
    reveal_strlit("item");
    reveal_strlit("summary_index");
    reveal_strlit("content_index");
    reveal_strlit("part");
    reveal_strlit("text");
    reveal_strlit("delta");
    reveal_strlit("call_id");
    reveal_strlit("name");
    reveal_strlit("input");
    reveal_strlit("arguments");
    reveal_strlit("response");
    reveal_strlit("code");
    reveal_strlit("message");
    reveal_strlit("param");
    assert("output_index"@.len() == 12);
}

proof fn both_turns(open: Option<int>, a: (ResponsesV, Seq<Fv>), b: (ResponsesV, Seq<Fv>))
    requires
        takes_turns(open, a),
        takes_turns(in_writing(a.0), b),
    ensures
        takes_turns(open, both(a.1, b)),
{
    turns_add(open, a.1, b.1);
}

proof fn created_turns(st: ResponsesV)
    requires
        one_at_a_time(st),
    ensures
        takes_turns(in_writing(st), created_step(st)),
{
    if !st.created_sent {
        item_keys();
        let mid = ResponsesV { created_sent: true, ..st };
        let data = Jv::obj().put(
            "response"@,
            responses::envelope(
                st.response_id,
                st.model,
                "in_progress"@,
                Seq::empty(),
                Jv::Null,
                st.request,
                st.created,
                None,
                0,
            ),
        );
        say_aside(in_writing(st), quiet(mid), "response.created"@, data);
    }
}

proof fn open_reasoning_turns(st: ResponsesV, id: Seq<char>)
    requires
        one_at_a_time(st),
        !st.text_open,
        st.tools.len() == 0,
    ensures
        takes_turns(in_writing(st), open_reasoning_step(st, id)),
        open_reasoning_step(st, id).0.reasoning_open,
        !open_reasoning_step(st, id).0.text_open,
        open_reasoning_step(st, id).0.tools.len() == 0,
{
    if !st.reasoning_open {
        item_keys();
        event_names();
        let index = st.next_index;
        let mid = ResponsesV {
            reasoning_open: true,
            reasoning_index: index,
            next_index: protocol::next_index(index),
            reasoning_id: id,
            reasoning: Seq::empty(),
            ..st
        };
        let a = whole_item(index, thinking_item(id, "in_progress"@, Seq::empty()));
        let b = of_item(index, id).put("summary_index"@, Jv::Int(0)).put(
            "part"@,
            summary_part(Seq::empty()),
        );
        let x = say(quiet(mid), "response.output_item.added"@, a);
        say_turn(None, quiet(mid), "response.output_item.added"@, a, index);
        say_turn(None, x, "response.reasoning_summary_part.added"@, b, index);
    }
}

proof fn three_turns(st: ResponsesV, n1: Seq<char>, d1: Jv, n2: Seq<char>, d2: Jv, d3: Jv, n: int)
    requires
        d1.get("output_index"@) == Some(Jv::Int(n)),
        d2.get("output_index"@) == Some(Jv::Int(n)),
        d3.get("output_index"@) == Some(Jv::Int(n)),
        n1 != "response.output_item.added"@ && n1 != "response.output_item.done"@,
        n2 != "response.output_item.added"@ && n2 != "response.output_item.done"@,
    ensures
        turns(
            Some(n),
            say(say(say(quiet(st), n1, d1), n2, d2), "response.output_item.done"@, d3).1,
        ) == Some(None::<int>),
{
    event_names();
    let x = say(quiet(st), n1, d1);
    let y = say(x, n2, d2);
    say_turn(Some(n), quiet(st), n1, d1, n);
    say_turn(Some(n), x, n2, d2, n);
    say_turn(Some(n), y, "response.output_item.done"@, d3, n);
}

proof fn close_reasoning_turns(st: ResponsesV)
    requires
        one_at_a_time(st),
    ensures
        takes_turns(in_writing(st), close_reasoning_step(st)),
        !close_reasoning_step(st).0.reasoning_open,
        close_reasoning_step(st).0.text_open == st.text_open,
        close_reasoning_step(st).0.tools == st.tools,
{
    if st.reasoning_open {
        item_keys();
        event_names();
        let index = st.reasoning_index;
        let id = st.reasoning_id;
        let item = thinking_item(id, "completed"@, seq![summary_part(st.reasoning)]);
        let mid = ResponsesV { reasoning_open: false, items: st.items.push((index, item)), ..st };
        three_turns(
            mid,
            "response.reasoning_summary_text.done"@,
            of_item(index, id).put("summary_index"@, Jv::Int(0)).put("text"@, Jv::Str(st.reasoning)),
            "response.reasoning_summary_part.done"@,
            of_item(index, id).put("summary_index"@, Jv::Int(0)).put(
                "part"@,
                summary_part(st.reasoning),
            ),
            whole_item(index, item),
            index,
        );
    }
}

proof fn open_text_turns(st: ResponsesV, id: Seq<char>)
    requires
        one_at_a_time(st),
        !st.reasoning_open,
        st.tools.len() == 0,
    ensures
        takes_turns(in_writing(st), open_text_step(st, id)),
        open_text_step(st, id).0.text_open,
        !open_text_step(st, id).0.reasoning_open,
        open_text_step(st, id).0.tools.len() == 0,
{
    if !st.text_open {
        item_keys();
        event_names();
        let index = st.next_index;
        let mid = ResponsesV {
            text_open: true,
            text_index: index,
            next_index: protocol::next_index(index),
            text_id: id,
            text: Seq::empty(),
            answered: true,
            ..st
        };
        let a = whole_item(index, begun_message(id));
        let b = of_item(index, id).put("content_index"@, Jv::Int(0)).put("part"@, empty_part());
        let x = say(quiet(mid), "response.output_item.added"@, a);
        say_turn(None, quiet(mid), "response.output_item.added"@, a, index);
        say_turn(None, x, "response.content_part.added"@, b, index);
    }
}

proof fn close_text_turns(st: ResponsesV)
    requires
        one_at_a_time(st),
    ensures
        takes_turns(in_writing(st), close_text_step(st)),
        !close_text_step(st).0.text_open,
        close_text_step(st).0.reasoning_open == st.reasoning_open,
        close_text_step(st).0.tools == st.tools,
{
    if st.text_open {
        item_keys();
        event_names();
        let index = st.text_index;
        let id = st.text_id;
        let item = responses::done_message(id, st.text);
        let mid = ResponsesV { text_open: false, items: st.items.push((index, item)), ..st };
        three_turns(
            mid,
            "response.output_text.done"@,
            of_item(index, id).put("content_index"@, Jv::Int(0)).put("text"@, Jv::Str(st.text)),
            "response.content_part.done"@,
            of_item(index, id).put("content_index"@, Jv::Int(0)).put("part"@, responses::output_part(st.text)),
            whole_item(index, item),
            index,
        );
    }
}

/// Whether two states write the same items.
spec fn same_items(a: ResponsesV, b: ResponsesV) -> bool {
    &&& a.reasoning_open == b.reasoning_open
    &&& a.reasoning_index == b.reasoning_index
    &&& a.text_open == b.text_open
    &&& a.text_index == b.text_index
    &&& a.tools == b.tools
    &&& a.answered == b.answered
}

proof fn arguments_turns(
    open: Option<int>,
    x: (ResponsesV, Seq<Fv>),
    tool: StreamToolV,
    delta: Seq<char>,
)
    requires
        turns(open, x.1) == Some(Some(tool.index)),
    ensures
        turns(open, arguments_step(x, tool, delta).1) == Some(Some(tool.index)),
        same_items(arguments_step(x, tool, delta).0, x.0),
{
    if !(delta.len() == 0 || x.0.plan.is_custom(tool.seen.name)) {
        item_keys();
        event_names();
        let data = of_item(tool.index, tool.item_id).put("call_id"@, Jv::Str(tool.seen.call_id)).put(
            "name"@,
            Jv::Str(tool.seen.name),
        ).put("delta"@, Jv::Str(delta));
        say_turn(open, x, "response.function_call_arguments.delta"@, data, tool.index);
    }
}

proof fn announce_turns(open: Option<int>, x: (ResponsesV, Seq<Fv>), tool: StreamToolV)
    requires
        turns(open, x.1) == Some(None::<int>),
    ensures
        turns(open, announce_step(x, tool).1) == Some(Some(tool.index)),
        same_items(announce_step(x, tool).0, x.0),
{
    item_keys();
    event_names();
    let data = whole_item(
        tool.index,
        begun_call(x.0.plan, tool.item_id, tool.seen.name, tool.seen.call_id),
    );
    say_turn(open, x, "response.output_item.added"@, data, tool.index);
    arguments_turns(
        open,
        say(x, "response.output_item.added"@, data),
        tool,
        tool.seen.arguments,
    );
}

proof fn done_turns(open: Option<int>, x: (ResponsesV, Seq<Fv>), tool: StreamToolV)
    requires
        turns(open, x.1) == Some(if tool.announced {
            Some(tool.index)
        } else {
            None
        }),
    ensures
        turns(open, done_tool_step(x, tool).1) == Some(None::<int>),
        same_items(done_tool_step(x, tool).0, x.0),
{
    item_keys();
    event_names();
    let st = x.0;
    let call_id = protocol::or_else(tool.seen.call_id, tool.spare_id);
    let name = protocol::or_else(tool.seen.name, "unknown"@);
    let arguments = protocol::or_else(tool.seen.arguments, "{}"@);
    let item = responses::call_item(st.plan, tool.item_id, name, call_id, arguments);
    let y = (ResponsesV { items: st.items.push((tool.index, item)), ..st }, x.1);
    let d1 = of_item(tool.index, tool.item_id).put("input"@, Jv::Str(tool_plan::unwrapped_input(arguments)));
    let d2 = of_item(tool.index, tool.item_id).put("call_id"@, Jv::Str(call_id)).put(
        "name"@,
        Jv::Str(name),
    ).put("arguments"@, Jv::Str(arguments));
    say_turn(open, y, "response.custom_tool_call_input.done"@, d1, tool.index);
    say_turn(open, y, "response.function_call_arguments.done"@, d2, tool.index);
    let z = if !tool.announced {
        y
    } else if st.plan.is_custom(name) {
        say(y, "response.custom_tool_call_input.done"@, d1)
    } else {
        say(y, "response.function_call_arguments.done"@, d2)
    };
    say_turn(open, z, "response.output_item.done"@, whole_item(tool.index, item), tool.index);
}

proof fn close_tool_turns(open: Option<int>, x: (ResponsesV, Seq<Fv>), tool: StreamToolV)
    requires
        turns(open, x.1) == Some(if tool.announced {
            Some(tool.index)
        } else {
            None
        }),
    ensures
        turns(open, close_tool_step(x, tool).1) == Some(None::<int>),
        same_items(close_tool_step(x, tool).0, x.0),
{
    if !tool.announced && tool.seen.name.len() > 0 {
        let t = announced_tool(x.0.plan, tool);
        announce_turns(open, x, t);
        done_turns(open, announce_step(x, t), t);
    } else {
        done_turns(open, x, tool);
    }
}

proof fn close_tools_turns(st: ResponsesV, n: nat)
    requires
        one_at_a_time(st),
        n <= st.tools.len(),
    ensures
        turns(in_writing(st), close_tools_step(st, n).1) == Some(if n == 0 {
            in_writing(st)
        } else {
            None
        }),
        same_items(close_tools_step(st, n).0, st),
    decreases n,
{
    if n > 0 {
        close_tools_turns(st, (n - 1) as nat);
        assert(n > 1 ==> !st.tools[n - 1].1.announced);
        close_tool_turns(
            in_writing(st),
            close_tools_step(st, (n - 1) as nat),
            st.tools[n - 1].1,
        );
    }
}

proof fn close_calls_turns(st: ResponsesV)
    requires
        one_at_a_time(st),
    ensures
        takes_turns(in_writing(st), close_calls_step(st)),
        close_calls_step(st).0.reasoning_open == st.reasoning_open,
        close_calls_step(st).0.text_open == st.text_open,
        close_calls_step(st).0.tools.len() == 0,
{
    close_tools_turns(st, st.tools.len());
}

proof fn thinking_turns(st: ResponsesV, text: Seq<char>, rs: Seq<char>)
    requires
        one_at_a_time(st),
    ensures
        takes_turns(in_writing(st), thinking_step(st, text, rs)),
{
    if text.len() > 0 && st.tools.len() == 0 {
        item_keys();
        event_names();
        let open = in_writing(st);
        close_text_turns(st);
        let x1 = close_text_step(st);
        open_reasoning_turns(x1.0, rs);
        both_turns(open, x1, open_reasoning_step(x1.0, rs));
        let (mid, ev) = both(x1.1, open_reasoning_step(x1.0, rs));
        let x = (ResponsesV { reasoning: mid.reasoning + text, ..mid }, ev);
        let data = of_item(mid.reasoning_index, mid.reasoning_id).put("summary_index"@, Jv::Int(0)).put(
            "delta"@,
            Jv::Str(text),
        );
        say_turn(open, x, "response.reasoning_summary_text.delta"@, data, mid.reasoning_index);
    }
}

proof fn text_turns(st: ResponsesV, text: Seq<char>, msg: Seq<char>)
    requires
        one_at_a_time(st),
    ensures
        takes_turns(in_writing(st), text_step(st, text, msg)),
{
    if text.len() > 0 && st.tools.len() == 0 {
        item_keys();
        event_names();
        let open = in_writing(st);
        close_reasoning_turns(st);
        let x1 = close_reasoning_step(st);
        open_text_turns(x1.0, msg);
        both_turns(open, x1, open_text_step(x1.0, msg));
        let (mid, ev) = both(x1.1, open_text_step(x1.0, msg));
        let x = (ResponsesV { text: mid.text + text, ..mid }, ev);
        let data = of_item(mid.text_index, mid.text_id).put("content_index"@, Jv::Int(0)).put(
            "delta"@,
            Jv::Str(text),
        );
        say_turn(open, x, "response.output_text.delta"@, data, mid.text_index);
    }
}

proof fn held_turns(st: ResponsesV, n: nat)
    requires
        one_at_a_time(st),
        st.tools.len() == 0,
    ensures
        takes_turns(in_writing(st), held_step(st, n)),
        held_step(st, n).0.tools.len() == 0,
        goes_on(st, held_step(st, n).0),
    decreases n,
{
    if n > 0 {
        held_turns(st, (n - 1) as nat);
        let x = held_step(st, (n - 1) as nat);
        let piece = st.held[n - 1];
        thinking_turns(x.0, piece.text, piece.id);
        text_turns(x.0, piece.text, piece.id);
        both_turns(in_writing(st), x, held_piece_step(x.0, piece));
    }
}

/// Whether the items that are done stay as they are.
spec fn goes_on(a: ResponsesV, b: ResponsesV) -> bool {
    &&& a.items.len() <= b.items.len()
    &&& forall|k: int| 0 <= k < a.items.len() ==> (#[trigger] b.items[k]) == a.items[k]
}

proof fn release_turns(st: ResponsesV)
    requires
        one_at_a_time(st),
    ensures
        takes_turns(in_writing(st), release_step(st)),
        in_writing(release_step(st).0) is None,
        release_step(st).0.tools.len() == 0,
        release_step(st).0.held.len() == 0,
        goes_on(close_calls_step(st).0, release_step(st).0),
{
    let open = in_writing(st);
    close_calls_turns(st);
    let x1 = close_calls_step(st);
    let n = x1.0.held.len();
    held_turns(x1.0, n);
    both_turns(open, x1, held_step(x1.0, n));
    let x2 = both(x1.1, held_step(x1.0, n));
    let s2 = ResponsesV { held: Seq::empty(), ..x2.0 };
    close_reasoning_turns(s2);
    both_turns(open, (s2, x2.1), close_reasoning_step(s2));
    let x3 = both(x2.1, close_reasoning_step(s2));
    close_text_turns(x3.0);
    both_turns(open, x3, close_text_step(x3.0));
}

proof fn tool_turns(st: ResponsesV, call: Jv, fc: Seq<char>, fresh_call: Seq<char>, ctc: Seq<char>)
    requires
        one_at_a_time(st),
    ensures
        takes_turns(in_writing(st), tool_step(st, call, fc, fresh_call, ctc)),
{
    let open = in_writing(st);
    close_reasoning_turns(st);
    let x1 = close_reasoning_step(st);
    close_text_turns(x1.0);
    both_turns(open, x1, close_text_step(x1.0));
    let (s2, e2) = both(x1.1, close_text_step(x1.0));
    let key = json::int_or_zero(call.get("index"@));
    let s3 = with_tool(s2, key, fc, fresh_call, ctc);
    find_tool_bound(s2.tools, key, 0);
    if find_tool(s2.tools, key, 0) == s2.tools.len() {
        find_tool_pushed(s2.tools, s3.tools.last(), 0);
    }
    find_tool_bound(s3.tools, key, 0);
    let p = find_tool(s3.tools, key, 0);
    let before = s3.tools[p].1;
    let after = tool_after(s3.plan, before, call, p == 0);
    let s4 = ResponsesV { tools: s3.tools.update(p, (key, after)), ..s3 };
    assert(one_at_a_time(s3) && in_writing(s3) == in_writing(s2));
    assert(one_at_a_time(s4));
    assert(after.announced ==> p == 0);
    assert(in_writing(s4) == if s4.tools[0].1.announced {
        Some(s4.tools[0].1.index)
    } else {
        None
    });
    if !after.announced {
    } else if !before.announced {
        announce_turns(open, (s4, e2), after);
    } else {
        arguments_turns(
            open,
            (s4, e2),
            after,
            json::str_or_empty(json::opt_get(call.get("function"@), "arguments"@)),
        );
    }
}

proof fn tools_turns(st: ResponsesV, calls: Seq<Jv>, fresh: FreshV, n: nat)
    requires
        one_at_a_time(st),
    ensures
        takes_turns(in_writing(st), tools_step(st, calls, fresh, n)),
    decreases n,
{
    if n > 0 {
        tools_turns(st, calls, fresh, (n - 1) as nat);
        let x = tools_step(st, calls, fresh, (n - 1) as nat);
        let fc = protocol::text_at(fresh.fc, n - 1);
        let call = protocol::text_at(fresh.call, n - 1);
        let ctc = protocol::text_at(fresh.ctc, n - 1);
        tool_turns(x.0, calls[n - 1], fc, call, ctc);
        both_turns(in_writing(st), x, tool_step(x.0, calls[n - 1], fc, call, ctc));
    }
}

proof fn error_turns(st: ResponsesV, error: Jv)
    requires
        one_at_a_time(st),
    ensures
        takes_turns(in_writing(st), error_step(st, error)),
{
    item_keys();
    let open = in_writing(st);
    let done = ResponsesV { finished: true, ..st };
    created_turns(done);
    let x = created_step(done);
    let message = anthropic_stream::error_message(error);
    let code = responses::or_null(json::if_truthy(error.get("code"@)));
    let data = Jv::obj().put("code"@, code).put("message"@, Jv::Str(message)).put("param"@, Jv::Null);
    say_aside(open, x, "error"@, data);
    let failed = responses::envelope(
        st.response_id,
        st.model,
        "failed"@,
        Seq::empty(),
        responses::responses_usage(st.usage),
        st.request,
        st.created,
        None,
        0,
    ).put("error"@, Jv::obj().put("code"@, code).put("message"@, Jv::Str(message)));
    say_aside(
        open,
        say(x, "error"@, data),
        "response.failed"@,
        Jv::obj().put("response"@, failed),
    );
}

/// A new stream is writing nothing and has no call.
pub proof fn fresh_stream_takes_turns(
    model: Seq<char>,
    request: Jv,
    plan: PlanV,
    response_id: Seq<char>,
    created: int,
)
    ensures
        one_at_a_time(fresh_responses(model, request, plan, response_id, created)),
        in_writing(fresh_responses(model, request, plan, response_id, created)) is None,
        calls_apart(fresh_responses(model, request, plan, response_id, created)),
{
}

/// Whatever a piece of a chat stream brings, and in whatever order, items are written
/// strictly one at a time: an item is added only where none is being written, and every
/// other event about an item is about the one that is being written.
pub proof fn items_take_turns(st: ResponsesV, chunk: Jv, fresh: FreshV)
    requires
        one_at_a_time(st),
    ensures
        takes_turns(in_writing(st), chunk_step(st, chunk, fresh)),
{
    if !st.finished {
        match json::if_truthy(chunk.get("error"@)) {
            Some(error) => error_turns(st, error),
            None => {
                let open = in_writing(st);
                let n = noted(st, chunk);
                created_turns(n);
                let x1 = created_step(n);
                match json::opt_get(chat::choice_of(chunk), "delta"@) {
                    None => {},
                    Some(delta) => {
                        thinking_turns(x1.0, chat::reasoning_of(delta), fresh.rs);
                        let y2 = thinking_step(x1.0, chat::reasoning_of(delta), fresh.rs);
                        both_turns(open, x1, y2);
                        let x2 = both(x1.1, y2);
                        let content = json::str_or_empty(delta.get("content"@));
                        text_turns(x2.0, content, fresh.msg);
                        let y3 = text_step(x2.0, content, fresh.msg);
                        both_turns(open, x2, y3);
                        let x3 = both(x2.1, y3);
                        let calls = chat::calls_of(delta);
                        tools_turns(x3.0, calls, fresh, calls.len());
                        both_turns(open, x3, tools_step(x3.0, calls, fresh, calls.len()));
                    },
                }
            },
        }
    }
}

proof fn close_tools_step_closes(st: ResponsesV, n: nat)
    requires
        n <= st.tools.len(),
    ensures
        close_tools_step(st, n).0.items.len() == st.items.len() + n,
        forall|i: int|
            0 <= i < n ==> (#[trigger] close_tools_step(st, n).0.items[st.items.len() + i]).0
                == st.tools[i].1.index,
    decreases n,
{
    if n > 0 {
        close_tools_step_closes(st, (n - 1) as nat);
        let before = close_tools_step(st, (n - 1) as nat).0.items;
        let after = close_tools_step(st, n).0.items;
        assert forall|i: int| 0 <= i < n implies (#[trigger] after[st.items.len() + i]).0
            == st.tools[i].1.index by {
            if i < n - 1 {
                assert(after[st.items.len() + i] == before[st.items.len() + i]);
            }
        }
    }
}

/// The end of a stream says its events in turn and leaves nothing in writing: the thinking
/// and the text are done, no call is left, nothing waits, and each call that was not done
/// has its item.
pub proof fn the_end_closes_all(st: ResponsesV, fresh: FreshV, now: int)
    requires
        !st.finished,
        one_at_a_time(st),
    ensures
        takes_turns(in_writing(st), end_step(st, fresh, now)),
        in_writing(end_step(st, fresh, now).0) is None,
        end_step(st, fresh, now).0.tools.len() == 0,
        end_step(st, fresh, now).0.held.len() == 0,
        forall|i: int|
            0 <= i < st.tools.len() ==> exists|k: int|
                0 <= k < end_step(st, fresh, now).0.items.len() && (
                #[trigger] end_step(st, fresh, now).0.items[k]).0 == (
                #[trigger] st.tools[i]).1.index,
{
    item_keys();
    let open = in_writing(st);
    let done = ResponsesV { finished: true, ..st };
    created_turns(done);
    let x1 = created_step(done);
    close_reasoning_turns(x1.0);
    both_turns(open, x1, close_reasoning_step(x1.0));
    let x2 = both(x1.1, close_reasoning_step(x1.0));
    let x3 = if !x2.0.answered {
        both(x2.1, open_text_step(x2.0, fresh.msg))
    } else {
        x2
    };
    if !x2.0.answered {
        open_text_turns(x2.0, fresh.msg);
        both_turns(open, x2, open_text_step(x2.0, fresh.msg));
    }
    close_text_turns(x3.0);
    both_turns(open, x3, close_text_step(x3.0));
    let x4 = both(x3.1, close_text_step(x3.0));
    release_turns(x4.0);
    both_turns(open, x4, release_step(x4.0));
    let x5 = both(x4.1, release_step(x4.0));
    let s5 = x5.0;
    let incomplete = responses::incomplete_of(anthropic_stream::text_or_empty(s5.finish));
    let data = Jv::obj().put(
        "response"@,
        responses::envelope(
            s5.response_id,
            s5.model,
            responses::status_of(incomplete),
            bare_items(sorted_items(s5.items, s5.items.len())),
            responses::responses_usage(s5.usage),
            s5.request,
            s5.created,
            incomplete,
            now,
        ),
    );
    say_aside(open, x5, "response.completed"@, data);
    close_tools_step_closes(x4.0, x4.0.tools.len());
    let items = end_step(st, fresh, now).0.items;
    let closed = close_tools_step(x4.0, x4.0.tools.len()).0.items;
    assert(closed == close_calls_step(x4.0).0.items);
    assert forall|i: int| 0 <= i < st.tools.len() implies exists|k: int|
        0 <= k < items.len() && (#[trigger] items[k]).0 == (#[trigger] st.tools[i]).1.index by {
        assert(closed[x4.0.items.len() + i].0 == x4.0.tools[i].1.index);
        assert(items[x4.0.items.len() + i] == closed[x4.0.items.len() + i]);
    }
}

proof fn payload_turns(st: ResponsesV, data: Seq<char>, fresh: FreshV)
    requires
        one_at_a_time(st),
    ensures
        takes_turns(in_writing(st), payload_step(st, data, fresh)),
{
    match json::parsed_json(data) {
        Some(chunk) => items_take_turns(st, chunk, fresh),
        None => {},
    }
}

/// When the upstream ends, events come in turn too.
pub proof fn finish_takes_turns(st: ResponsesV, given: Given)
    requires
        one_at_a_time(st),
    ensures
        takes_turns(in_writing(st), finish_step(st, given)),
{
    if !st.finished {
        let rest = ResponsesV { line: Seq::empty(), ..st };
        let x = match protocol::last_payload(st.line) {
            Some(data) => payload_step(rest, data, given.piece),
            None => quiet(rest),
        };
        match protocol::last_payload(st.line) {
            Some(data) => payload_turns(rest, data, given.piece),
            None => {},
        }
        if !x.0.finished {
            the_end_closes_all(x.0, given.end, given.now);
        }
        both_turns(in_writing(st), x, end_step(x.0, given.end, given.now));
    }
}

proof fn payloads_turns(st: ResponsesV, list: Seq<Option<Seq<char>>>, given: Seq<Given>, n: nat)
    requires
        one_at_a_time(st),
    ensures
        takes_turns(in_writing(st), payloads_step(st, list, given, n)),
    decreases n,
{
    if n > 0 {
        payloads_turns(st, list, given, (n - 1) as nat);
        let x = payloads_step(st, list, given, (n - 1) as nat);
        let y = match list[n - 1] {
            Some(data) => payload_step(x.0, data, given[n - 1].piece),
            None => finish_step(x.0, given[n - 1]),
        };
        match list[n - 1] {
            Some(data) => payload_turns(x.0, data, given[n - 1].piece),
            None => finish_takes_turns(x.0, given[n - 1]),
        }
        both_turns(in_writing(st), x, y);
    }
}

/// Whatever bytes come, the events that follow come in turn.
pub proof fn push_takes_turns(st: ResponsesV, chunk: Seq<u8>, given: Seq<Given>)
    requires
        one_at_a_time(st),
    ensures
        takes_turns(in_writing(st), push_step(st, chunk, given)),
{
    let list = protocol::payloads(st.line, chunk);
    payloads_turns(
        ResponsesV { line: protocol::line_left(st.line, chunk), ..st },
        list,
        given,
        list.len(),
    );
}

/// A stream after the first `n` pieces of bytes; each comes with what it may need.
pub open spec fn fed(st: ResponsesV, pieces: Seq<(Seq<u8>, Seq<Given>)>, n: nat) -> (
    ResponsesV,
    Seq<Fv>,
)
    decreases n,
{
    if n == 0 {
        quiet(st)
    } else {
        let (before, ev) = fed(st, pieces, (n - 1) as nat);
        both(ev, push_step(before, pieces[n - 1].0, pieces[n - 1].1))
    }
}

proof fn fed_takes_turns(st: ResponsesV, pieces: Seq<(Seq<u8>, Seq<Given>)>, n: nat)
    requires
        one_at_a_time(st),
    ensures
        takes_turns(in_writing(st), fed(st, pieces, n)),
    decreases n,
{
    if n > 0 {
        fed_takes_turns(st, pieces, (n - 1) as nat);
        let x = fed(st, pieces, (n - 1) as nat);
        push_takes_turns(x.0, pieces[n - 1].0, pieces[n - 1].1);
        both_turns(in_writing(st), x, push_step(x.0, pieces[n - 1].0, pieces[n - 1].1));
    }
}

/// In all events of a stream, whatever bytes come and however they are cut, strictly one item
/// is written at a time, from the first event to the end of the upstream.
pub proof fn whole_stream_takes_turns(
    model: Seq<char>,
    request: Jv,
    plan: PlanV,
    response_id: Seq<char>,
    created: int,
    pieces: Seq<(Seq<u8>, Seq<Given>)>,
    last: Given,
)
    ensures
        ({
            let st = fresh_responses(model, request, plan, response_id, created);
            let (mid, ev) = fed(st, pieces, pieces.len());
            turns(None, both(ev, finish_step(mid, last)).1) is Some
        }),
{
    let st = fresh_responses(model, request, plan, response_id, created);
    fed_takes_turns(st, pieces, pieces.len());
    let x = fed(st, pieces, pieces.len());
    finish_takes_turns(x.0, last);
    both_turns(None, x, finish_step(x.0, last));
}

// -------------------------------------------------------------- pieces of calls

/// Whether no two calls have the same index.
pub open spec fn calls_apart(st: ResponsesV) -> bool {
    forall|i: int, j: int|
        0 <= i < j < st.tools.len() ==> (#[trigger] st.tools[i]).0 != (#[trigger] st.tools[j]).0
}

/// Whether every call is still there, under its index and with its item, and has lost
/// nothing of its arguments.
pub open spec fn keeps_calls(a: ResponsesV, b: ResponsesV) -> bool {
    &&& a.tools.len() <= b.tools.len()
    &&& forall|i: int|
        0 <= i < a.tools.len() ==> keeps_call(#[trigger] a.tools[i], b.tools[i])
}

/// Whether a call is another one with more of its pieces.
pub open spec fn keeps_call(a: (int, StreamToolV), b: (int, StreamToolV)) -> bool {
    &&& b.0 == a.0
    &&& b.1.index == a.1.index
    &&& a.1.seen.arguments.is_prefix_of(b.1.seen.arguments)
}

proof fn keeps_calls_on(a: ResponsesV, b: ResponsesV, c: ResponsesV)
    requires
        keeps_calls(a, b),
        keeps_calls(b, c),
    ensures
        keeps_calls(a, c),
{
    assert forall|i: int| 0 <= i < a.tools.len() implies keeps_call(
        #[trigger] a.tools[i],
        c.tools[i],
    ) by {
        assert(keeps_call(a.tools[i], b.tools[i]));
        assert(keeps_call(b.tools[i], c.tools[i]));
        let x = a.tools[i].1.seen.arguments;
        let y = b.tools[i].1.seen.arguments;
        let z = c.tools[i].1.seen.arguments;
        assert(x =~= z.subrange(0, x.len() as int)) by {
            assert forall|k: int| 0 <= k < x.len() implies x[k] == z[k] by {
                assert(x[k] == y.subrange(0, x.len() as int)[k]);
                assert(y[k] == z.subrange(0, y.len() as int)[k]);
            }
        }
    }
}

proof fn same_calls(a: ResponsesV, b: ResponsesV)
    requires
        a.tools == b.tools,
    ensures
        keeps_calls(a, b),
{
    assert forall|i: int| 0 <= i < a.tools.len() implies keeps_call(
        #[trigger] a.tools[i],
        b.tools[i],
    ) by {
        let x = a.tools[i].1.seen.arguments;
        assert(x =~= x.subrange(0, x.len() as int));
    }
}

proof fn tool_keeps(st: ResponsesV, call: Jv, fc: Seq<char>, fresh_call: Seq<char>, ctc: Seq<char>)
    requires
        calls_apart(st),
    ensures
        keeps_calls(st, tool_step(st, call, fc, fresh_call, ctc).0),
        calls_apart(tool_step(st, call, fc, fresh_call, ctc).0),
{
    let s1 = close_reasoning_step(st).0;
    let s2 = close_text_step(s1).0;
    let key = json::int_or_zero(call.get("index"@));
    let s3 = with_tool(s2, key, fc, fresh_call, ctc);
    find_tool_bound(s2.tools, key, 0);
    if find_tool(s2.tools, key, 0) == s2.tools.len() {
        find_tool_pushed(s2.tools, s3.tools.last(), 0);
    }
    find_tool_bound(s3.tools, key, 0);
    let p = find_tool(s3.tools, key, 0);
    let before = s3.tools[p].1;
    let after = tool_after(s3.plan, before, call, p == 0);
    let last = tool_step(st, call, fc, fresh_call, ctc).0;
    assert(last.tools == s3.tools.update(p, (key, after)));
    same_calls(st, st);
    let x = before.seen.arguments;
    let y = after.seen.arguments;
    assert(x.is_prefix_of(y)) by {
        assert(x =~= y.subrange(0, x.len() as int));
    }
    assert forall|i: int| 0 <= i < st.tools.len() implies keeps_call(
        #[trigger] st.tools[i],
        last.tools[i],
    ) by {
        assert(keeps_call(st.tools[i], st.tools[i]));
        assert(s3.tools[i] == st.tools[i]);
    }
}

proof fn tools_keep(st: ResponsesV, calls: Seq<Jv>, fresh: FreshV, n: nat)
    requires
        calls_apart(st),
    ensures
        keeps_calls(st, tools_step(st, calls, fresh, n).0),
        calls_apart(tools_step(st, calls, fresh, n).0),
    decreases n,
{
    if n == 0 {
        same_calls(st, st);
    } else {
        tools_keep(st, calls, fresh, (n - 1) as nat);
        let x = tools_step(st, calls, fresh, (n - 1) as nat).0;
        let fc = protocol::text_at(fresh.fc, n - 1);
        let call = protocol::text_at(fresh.call, n - 1);
        let ctc = protocol::text_at(fresh.ctc, n - 1);
        tool_keeps(x, calls[n - 1], fc, call, ctc);
        keeps_calls_on(st, x, tool_step(x, calls[n - 1], fc, call, ctc).0);
    }
}

/// All pieces of one index belong to one call, whatever comes between them: until the end of
/// the stream a call keeps its index and its item and only grows, and no other call gets its
/// index.
pub proof fn pieces_stay_with_their_call(st: ResponsesV, chunk: Jv, fresh: FreshV)
    requires
        calls_apart(st),
    ensures
        keeps_calls(st, chunk_step(st, chunk, fresh).0),
        calls_apart(chunk_step(st, chunk, fresh).0),
{
    let last = chunk_step(st, chunk, fresh).0;
    if st.finished || json::if_truthy(chunk.get("error"@)) is Some {
        same_calls(st, last);
    } else {
        let s1 = created_step(noted(st, chunk)).0;
        match json::opt_get(chat::choice_of(chunk), "delta"@) {
            None => same_calls(st, last),
            Some(delta) => {
                let s2 = thinking_step(s1, chat::reasoning_of(delta), fresh.rs).0;
                let s3 = text_step(s2, json::str_or_empty(delta.get("content"@)), fresh.msg).0;
                assert(s3.tools == st.tools);
                same_calls(st, s3);
                let calls = chat::calls_of(delta);
                tools_keep(s3, calls, fresh, calls.len());
                keeps_calls_on(st, s3, last);
            },
        }
    }
}

// ----------------------------------------------------------- order of numbers

/// Whether events carry the numbers from `first` on, one after the other.
pub open spec fn counts_from(list: Seq<Fv>, first: int) -> bool {
    forall|i: int| 0 <= i < list.len() ==> has_number(#[trigger] list[i], first + i)
}

/// Whether an event carries that number.
pub open spec fn has_number(f: Fv, number: int) -> bool {
    f matches Fv::Event(_, data) && data.get("sequence_number"@) == Some(Jv::Int(number))
}

/// Whether a step says events that carry the next numbers, and leaves the counter
/// behind them.
pub open spec fn counts(before: int, x: (ResponsesV, Seq<Fv>)) -> bool {
    before + x.1.len() <= i64::MAX ==> counts_from(x.1, before) && x.0.sequence == before + x.1.len()
}

proof fn say_counts(before: int, x: (ResponsesV, Seq<Fv>), name: Seq<char>, data: Jv)
    requires
        counts(before, x),
        data is Obj,
    ensures
        counts(before, say(x, name, data)),
{
    let y = say(x, name, data);
    if before + y.1.len() <= i64::MAX {
        assert forall|i: int| 0 <= i < y.1.len() implies has_number(#[trigger] y.1[i], before + i) by {
            if i < x.1.len() {
                assert(y.1[i] == x.1[i]);
            }
        }
    }
}

proof fn both_counts(before: int, a: (ResponsesV, Seq<Fv>), b: (ResponsesV, Seq<Fv>))
    requires
        counts(before, a),
        counts(a.0.sequence, b),
    ensures
        counts(before, both(a.1, b)),
{
    let y = both(a.1, b);
    if before + y.1.len() <= i64::MAX {
        assert forall|i: int| 0 <= i < y.1.len() implies has_number(#[trigger] y.1[i], before + i) by {
            if i < a.1.len() {
                assert(y.1[i] == a.1[i]);
            } else {
                assert(y.1[i] == b.1[i - a.1.len()]);
            }
        }
    }
}

proof fn quiet_counts(st: ResponsesV)
    ensures
        counts(st.sequence, quiet(st)),
{
}

proof fn created_counts(st: ResponsesV)
    ensures
        counts(st.sequence, created_step(st)),
{
    let mid = ResponsesV { created_sent: true, ..st };
    quiet_counts(st);
    quiet_counts(mid);
    if !st.created_sent {
        let data = Jv::obj().put(
            "response"@,
            responses::envelope(
                st.response_id,
                st.model,
                "in_progress"@,
                Seq::empty(),
                Jv::Null,
                st.request,
                st.created,
                None,
                0,
            ),
        );
        say_counts(st.sequence, quiet(mid), "response.created"@, data);
    }
}

proof fn open_reasoning_counts(st: ResponsesV, id: Seq<char>)
    ensures
        counts(st.sequence, open_reasoning_step(st, id)),
{
    quiet_counts(st);
    if !st.reasoning_open {
        let index = st.next_index;
        let mid = ResponsesV {
            reasoning_open: true,
            reasoning_index: index,
            next_index: protocol::next_index(index),
            reasoning_id: id,
            reasoning: Seq::empty(),
            ..st
        };
        quiet_counts(mid);
        let a = whole_item(index, thinking_item(id, "in_progress"@, Seq::empty()));
        let b = of_item(index, id).put("summary_index"@, Jv::Int(0)).put(
            "part"@,
            summary_part(Seq::empty()),
        );
        say_counts(st.sequence, quiet(mid), "response.output_item.added"@, a);
        say_counts(
            st.sequence,
            say(quiet(mid), "response.output_item.added"@, a),
            "response.reasoning_summary_part.added"@,
            b,
        );
    }
}

proof fn three_counts(st: ResponsesV, n1: Seq<char>, d1: Jv, n2: Seq<char>, d2: Jv, n3: Seq<char>, d3: Jv)
    requires
        d1 is Obj,
        d2 is Obj,
        d3 is Obj,
    ensures
        counts(st.sequence, say(say(say(quiet(st), n1, d1), n2, d2), n3, d3)),
{
    quiet_counts(st);
    say_counts(st.sequence, quiet(st), n1, d1);
    say_counts(st.sequence, say(quiet(st), n1, d1), n2, d2);
    say_counts(st.sequence, say(say(quiet(st), n1, d1), n2, d2), n3, d3);
}

proof fn close_reasoning_counts(st: ResponsesV)
    ensures
        counts(st.sequence, close_reasoning_step(st)),
{
    quiet_counts(st);
    if st.reasoning_open {
        let index = st.reasoning_index;
        let id = st.reasoning_id;
        let item = thinking_item(id, "completed"@, seq![summary_part(st.reasoning)]);
        let mid = ResponsesV { reasoning_open: false, items: st.items.push((index, item)), ..st };
        three_counts(
            mid,
            "response.reasoning_summary_text.done"@,
            of_item(index, id).put("summary_index"@, Jv::Int(0)).put("text"@, Jv::Str(st.reasoning)),
            "response.reasoning_summary_part.done"@,
            of_item(index, id).put("summary_index"@, Jv::Int(0)).put(
                "part"@,
                summary_part(st.reasoning),
            ),
            "response.output_item.done"@,
            whole_item(index, item),
        );
    }
}

proof fn open_text_counts(st: ResponsesV, id: Seq<char>)
    ensures
        counts(st.sequence, open_text_step(st, id)),
{
    quiet_counts(st);
    if !st.text_open {
        let index = st.next_index;
        let mid = ResponsesV {
            text_open: true,
            text_index: index,
            next_index: protocol::next_index(index),
            text_id: id,
            text: Seq::empty(),
            answered: true,
            ..st
        };
        quiet_counts(mid);
        let a = whole_item(index, begun_message(id));
        let b = of_item(index, id).put("content_index"@, Jv::Int(0)).put("part"@, empty_part());
        say_counts(st.sequence, quiet(mid), "response.output_item.added"@, a);
        say_counts(
            st.sequence,
            say(quiet(mid), "response.output_item.added"@, a),
            "response.content_part.added"@,
            b,
        );
    }
}

proof fn close_text_counts(st: ResponsesV)
    ensures
        counts(st.sequence, close_text_step(st)),
{
    quiet_counts(st);
    if st.text_open {
        let index = st.text_index;
        let id = st.text_id;
        let item = responses::done_message(id, st.text);
        let mid = ResponsesV { text_open: false, items: st.items.push((index, item)), ..st };
        three_counts(
            mid,
            "response.output_text.done"@,
            of_item(index, id).put("content_index"@, Jv::Int(0)).put("text"@, Jv::Str(st.text)),
            "response.content_part.done"@,
            of_item(index, id).put("content_index"@, Jv::Int(0)).put("part"@, responses::output_part(st.text)),
            "response.output_item.done"@,
            whole_item(index, item),
        );
    }
}

proof fn arguments_counts(
    before: int,
    x: (ResponsesV, Seq<Fv>),
    tool: StreamToolV,
    delta: Seq<char>,
)
    requires
        counts(before, x),
    ensures
        counts(before, arguments_step(x, tool, delta)),
{
    if !(delta.len() == 0 || x.0.plan.is_custom(tool.seen.name)) {
        say_counts(
            before,
            x,
            "response.function_call_arguments.delta"@,
            of_item(tool.index, tool.item_id).put("call_id"@, Jv::Str(tool.seen.call_id)).put(
                "name"@,
                Jv::Str(tool.seen.name),
            ).put("delta"@, Jv::Str(delta)),
        );
    }
}

proof fn announce_counts(before: int, x: (ResponsesV, Seq<Fv>), tool: StreamToolV)
    requires
        counts(before, x),
    ensures
        counts(before, announce_step(x, tool)),
{
    let data = whole_item(
        tool.index,
        begun_call(x.0.plan, tool.item_id, tool.seen.name, tool.seen.call_id),
    );
    say_counts(before, x, "response.output_item.added"@, data);
    arguments_counts(
        before,
        say(x, "response.output_item.added"@, data),
        tool,
        tool.seen.arguments,
    );
}

proof fn tool_counts(
    st: ResponsesV,
    call: Jv,
    fc: Seq<char>,
    fresh_call: Seq<char>,
    ctc: Seq<char>,
)
    ensures
        counts(st.sequence, tool_step(st, call, fc, fresh_call, ctc)),
{
    close_reasoning_counts(st);
    let (s1, e1) = close_reasoning_step(st);
    close_text_counts(s1);
    both_counts(st.sequence, (s1, e1), close_text_step(s1));
    let (s2, e2) = both(e1, close_text_step(s1));
    let key = json::int_or_zero(call.get("index"@));
    let s3 = with_tool(s2, key, fc, fresh_call, ctc);
    let p = find_tool(s3.tools, key, 0);
    let before = s3.tools[p].1;
    let after = tool_after(s3.plan, before, call, p == 0);
    let s4 = ResponsesV { tools: s3.tools.update(p, (key, after)), ..s3 };
    assert(counts(st.sequence, (s4, e2)));
    if !after.announced {
    } else if !before.announced {
        announce_counts(st.sequence, (s4, e2), after);
    } else {
        arguments_counts(
            st.sequence,
            (s4, e2),
            after,
            json::str_or_empty(json::opt_get(call.get("function"@), "arguments"@)),
        );
    }
}

proof fn tools_counts(st: ResponsesV, calls: Seq<Jv>, fresh: FreshV, n: nat)
    ensures
        counts(st.sequence, tools_step(st, calls, fresh, n)),
    decreases n,
{
    if n == 0 {
        quiet_counts(st);
    } else {
        tools_counts(st, calls, fresh, (n - 1) as nat);
        let x = tools_step(st, calls, fresh, (n - 1) as nat);
        let fc = protocol::text_at(fresh.fc, n - 1);
        let call = protocol::text_at(fresh.call, n - 1);
        let ctc = protocol::text_at(fresh.ctc, n - 1);
        tool_counts(x.0, calls[n - 1], fc, call, ctc);
        both_counts(st.sequence, x, tool_step(x.0, calls[n - 1], fc, call, ctc));
    }
}

/// Each piece of a chat stream gives events that carry the next numbers, one after
/// the other, as long as the numbers last.
pub proof fn chunk_step_counts(st: ResponsesV, chunk: Jv, fresh: FreshV)
    ensures
        counts(st.sequence, chunk_step(st, chunk, fresh)),
{
    quiet_counts(st);
    if !st.finished {
        match json::if_truthy(chunk.get("error"@)) {
            Some(error) => {
                let done = ResponsesV { finished: true, ..st };
                created_counts(done);
                let x = created_step(done);
                let message = anthropic_stream::error_message(error);
                let code = responses::or_null(json::if_truthy(error.get("code"@)));
                let data = Jv::obj().put("code"@, code).put("message"@, Jv::Str(message)).put(
                    "param"@,
                    Jv::Null,
                );
                say_counts(st.sequence, x, "error"@, data);
                let failed = responses::envelope(
                    st.response_id,
                    st.model,
                    "failed"@,
                    Seq::empty(),
                    responses::responses_usage(st.usage),
                    st.request,
                    st.created,
                    None,
                    0,
                ).put("error"@, Jv::obj().put("code"@, code).put("message"@, Jv::Str(message)));
                say_counts(
                    st.sequence,
                    say(x, "error"@, data),
                    "response.failed"@,
                    Jv::obj().put("response"@, failed),
                );
            },
            None => {
                let n = noted(st, chunk);
                created_counts(n);
                let x1 = created_step(n);
                match json::opt_get(chat::choice_of(chunk), "delta"@) {
                    None => {},
                    Some(delta) => {
                        thinking_counts(x1.0, chat::reasoning_of(delta), fresh.rs);
                        let y2 = thinking_step(x1.0, chat::reasoning_of(delta), fresh.rs);
                        both_counts(st.sequence, x1, y2);
                        let x2 = both(x1.1, y2);
                        let content = json::str_or_empty(delta.get("content"@));
                        text_counts(x2.0, content, fresh.msg);
                        let y3 = text_step(x2.0, content, fresh.msg);
                        both_counts(st.sequence, x2, y3);
                        let x3 = both(x2.1, y3);
                        let calls = chat::calls_of(delta);
                        tools_counts(x3.0, calls, fresh, calls.len());
                        both_counts(st.sequence, x3, tools_step(x3.0, calls, fresh, calls.len()));
                    },
                }
            },
        }
    }
}

proof fn thinking_counts(st: ResponsesV, text: Seq<char>, rs: Seq<char>)
    ensures
        counts(st.sequence, thinking_step(st, text, rs)),
{
    quiet_counts(st);
    quiet_counts(held_back(st, HeldV { thinking: true, text, id: rs }));
    if text.len() > 0 && st.tools.len() == 0 {
        close_text_counts(st);
        let x1 = close_text_step(st);
        open_reasoning_counts(x1.0, rs);
        both_counts(st.sequence, x1, open_reasoning_step(x1.0, rs));
        let (mid, ev) = both(x1.1, open_reasoning_step(x1.0, rs));
        let x = (ResponsesV { reasoning: mid.reasoning + text, ..mid }, ev);
        assert(counts(st.sequence, x));
        say_counts(
            st.sequence,
            x,
            "response.reasoning_summary_text.delta"@,
            of_item(mid.reasoning_index, mid.reasoning_id).put("summary_index"@, Jv::Int(0)).put(
                "delta"@,
                Jv::Str(text),
            ),
        );
    }
}

proof fn text_counts(st: ResponsesV, text: Seq<char>, msg: Seq<char>)
    ensures
        counts(st.sequence, text_step(st, text, msg)),
{
    quiet_counts(st);
    quiet_counts(held_back(st, HeldV { thinking: false, text, id: msg }));
    if text.len() > 0 && st.tools.len() == 0 {
        close_reasoning_counts(st);
        let x1 = close_reasoning_step(st);
        open_text_counts(x1.0, msg);
        both_counts(st.sequence, x1, open_text_step(x1.0, msg));
        let (mid, ev) = both(x1.1, open_text_step(x1.0, msg));
        let x = (ResponsesV { text: mid.text + text, ..mid }, ev);
        assert(counts(st.sequence, x));
        say_counts(
            st.sequence,
            x,
            "response.output_text.delta"@,
            of_item(mid.text_index, mid.text_id).put("content_index"@, Jv::Int(0)).put(
                "delta"@,
                Jv::Str(text),
            ),
        );
    }
}

proof fn done_counts(before: int, x: (ResponsesV, Seq<Fv>), tool: StreamToolV)
    requires
        counts(before, x),
    ensures
        counts(before, done_tool_step(x, tool)),
{
    let st = x.0;
    let call_id = protocol::or_else(tool.seen.call_id, tool.spare_id);
    let name = protocol::or_else(tool.seen.name, "unknown"@);
    let arguments = protocol::or_else(tool.seen.arguments, "{}"@);
    let item = responses::call_item(st.plan, tool.item_id, name, call_id, arguments);
    let y = (ResponsesV { items: st.items.push((tool.index, item)), ..st }, x.1);
    assert(counts(before, y));
    let d1 = of_item(tool.index, tool.item_id).put("input"@, Jv::Str(tool_plan::unwrapped_input(arguments)));
    let d2 = of_item(tool.index, tool.item_id).put("call_id"@, Jv::Str(call_id)).put(
        "name"@,
        Jv::Str(name),
    ).put("arguments"@, Jv::Str(arguments));
    say_counts(before, y, "response.custom_tool_call_input.done"@, d1);
    say_counts(before, y, "response.function_call_arguments.done"@, d2);
    let z = if !tool.announced {
        y
    } else if st.plan.is_custom(name) {
        say(y, "response.custom_tool_call_input.done"@, d1)
    } else {
        say(y, "response.function_call_arguments.done"@, d2)
    };
    say_counts(before, z, "response.output_item.done"@, whole_item(tool.index, item));
}

proof fn close_tool_counts(before: int, x: (ResponsesV, Seq<Fv>), tool: StreamToolV)
    requires
        counts(before, x),
    ensures
        counts(before, close_tool_step(x, tool)),
{
    if !tool.announced && tool.seen.name.len() > 0 {
        let t = announced_tool(x.0.plan, tool);
        announce_counts(before, x, t);
        done_counts(before, announce_step(x, t), t);
    } else {
        done_counts(before, x, tool);
    }
}

proof fn close_tools_counts(st: ResponsesV, n: nat)
    ensures
        counts(st.sequence, close_tools_step(st, n)),
    decreases n,
{
    if n == 0 {
        quiet_counts(st);
    } else {
        close_tools_counts(st, (n - 1) as nat);
        close_tool_counts(
            st.sequence,
            close_tools_step(st, (n - 1) as nat),
            st.tools[n - 1].1,
        );
    }
}

proof fn close_calls_counts(st: ResponsesV)
    ensures
        counts(st.sequence, close_calls_step(st)),
{
    close_tools_counts(st, st.tools.len());
}

proof fn held_counts(st: ResponsesV, n: nat)
    ensures
        counts(st.sequence, held_step(st, n)),
    decreases n,
{
    if n == 0 {
        quiet_counts(st);
    } else {
        held_counts(st, (n - 1) as nat);
        let x = held_step(st, (n - 1) as nat);
        let piece = st.held[n - 1];
        thinking_counts(x.0, piece.text, piece.id);
        text_counts(x.0, piece.text, piece.id);
        both_counts(st.sequence, x, held_piece_step(x.0, piece));
    }
}

proof fn release_counts(st: ResponsesV)
    ensures
        counts(st.sequence, release_step(st)),
{
    close_calls_counts(st);
    let x1 = close_calls_step(st);
    let n = x1.0.held.len();
    held_counts(x1.0, n);
    both_counts(st.sequence, x1, held_step(x1.0, n));
    let x2 = both(x1.1, held_step(x1.0, n));
    let s2 = ResponsesV { held: Seq::empty(), ..x2.0 };
    assert(counts(st.sequence, (s2, x2.1)));
    close_reasoning_counts(s2);
    both_counts(st.sequence, (s2, x2.1), close_reasoning_step(s2));
    let x3 = both(x2.1, close_reasoning_step(s2));
    close_text_counts(x3.0);
    both_counts(st.sequence, x3, close_text_step(x3.0));
}

/// The end of the stream gives events that carry the next numbers, one after the
/// other, as long as the numbers last.
pub proof fn end_step_counts(st: ResponsesV, fresh: FreshV, now: int)
    ensures
        counts(st.sequence, end_step(st, fresh, now)),
{
    quiet_counts(st);
    if !st.finished {
        let done = ResponsesV { finished: true, ..st };
        created_counts(done);
        let x1 = created_step(done);
        close_reasoning_counts(x1.0);
        both_counts(st.sequence, x1, close_reasoning_step(x1.0));
        let x2 = both(x1.1, close_reasoning_step(x1.0));
        open_text_counts(x2.0, fresh.msg);
        both_counts(st.sequence, x2, open_text_step(x2.0, fresh.msg));
        let x3 = if !x2.0.answered {
            both(x2.1, open_text_step(x2.0, fresh.msg))
        } else {
            x2
        };
        close_text_counts(x3.0);
        both_counts(st.sequence, x3, close_text_step(x3.0));
        let x4 = both(x3.1, close_text_step(x3.0));
        release_counts(x4.0);
        let y5 = release_step(x4.0);
        both_counts(st.sequence, x4, y5);
        let x5 = both(x4.1, y5);
        let s5 = x5.0;
        let incomplete = responses::incomplete_of(anthropic_stream::text_or_empty(s5.finish));
        let data = Jv::obj().put(
            "response"@,
            responses::envelope(
                s5.response_id,
                s5.model,
                responses::status_of(incomplete),
                bare_items(sorted_items(s5.items, s5.items.len())),
                responses::responses_usage(s5.usage),
                s5.request,
                s5.created,
                incomplete,
                now,
            ),
        );
        say_counts(st.sequence, x5, "response.completed"@, data);
    }
}

/// Whatever bytes come, the events that follow carry the next numbers.
pub proof fn push_step_counts(st: ResponsesV, chunk: Seq<u8>, given: Seq<Given>)
    ensures
        counts(st.sequence, push_step(st, chunk, given)),
{
    let list = protocol::payloads(st.line, chunk);
    payloads_counts(
        ResponsesV { line: protocol::line_left(st.line, chunk), ..st },
        list,
        given,
        list.len(),
    );
}

proof fn finish_counts(st: ResponsesV, given: Given)
    ensures
        counts(st.sequence, finish_step(st, given)),
{
    quiet_counts(st);
    if !st.finished {
        let rest = ResponsesV { line: Seq::empty(), ..st };
        quiet_counts(rest);
        let x = match protocol::last_payload(st.line) {
            Some(data) => payload_step(rest, data, given.piece),
            None => quiet(rest),
        };
        match protocol::last_payload(st.line) {
            Some(data) => match json::parsed_json(data) {
                Some(chunk) => chunk_step_counts(rest, chunk, given.piece),
                None => {},
            },
            None => {},
        }
        end_step_counts(x.0, given.end, given.now);
        both_counts(st.sequence, x, end_step(x.0, given.end, given.now));
    }
}

proof fn payloads_counts(
    st: ResponsesV,
    list: Seq<Option<Seq<char>>>,
    given: Seq<Given>,
    n: nat,
)
    ensures
        counts(st.sequence, payloads_step(st, list, given, n)),
    decreases n,
{
    if n == 0 {
        quiet_counts(st);
    } else {
        payloads_counts(st, list, given, (n - 1) as nat);
        let x = payloads_step(st, list, given, (n - 1) as nat);
        quiet_counts(x.0);
        let y = match list[n - 1] {
            Some(data) => payload_step(x.0, data, given[n - 1].piece),
            None => finish_step(x.0, given[n - 1]),
        };
        match list[n - 1] {
            Some(data) => match json::parsed_json(data) {
                Some(chunk) => chunk_step_counts(x.0, chunk, given[n - 1].piece),
                None => {},
            },
            None => finish_counts(x.0, given[n - 1]),
        }
        both_counts(st.sequence, x, y);
    }
}

/// A stream that has ended says nothing more, whatever comes.
pub proof fn nothing_after_the_end(st: ResponsesV, data: Seq<char>, fresh: FreshV, given: Given)
    requires
        st.finished,
    ensures
        payload_step(st, data, fresh) == quiet(st),
        finish_step(st, given) == quiet(st),
{
}

// ------------------------------------------------------------------ collector

/// What a collector knows: the line begun, what has come, and when the response
/// was created.
#[verifier::ext_equal]
pub struct CollectorV {
    pub line: Seq<u8>,
    pub seen: CollectedV,
    pub created: int,
}

/// One piece of a chat stream.
pub open spec fn collect_chunk(st: CollectorV, chunk: Jv) -> CollectorV {
    CollectorV {
        seen: collect::collect(st.seen, chunk),
        created: match chunk.get("created"@) {
            Some(v) => match v.as_i64() {
                Some(n) => n,
                None => st.created,
            },
            None => st.created,
        },
        ..st
    }
}

/// A payload of the stream; one that is no JSON, and the end mark, change nothing.
pub open spec fn collect_one(st: CollectorV, payload: Option<Seq<char>>) -> CollectorV {
    match payload {
        Some(data) => match json::parsed_json(data) {
            Some(chunk) => collect_chunk(st, chunk),
            None => st,
        },
        None => st,
    }
}

/// The first `n` payloads of a list.
pub open spec fn collect_list(st: CollectorV, list: Seq<Option<Seq<char>>>, n: nat) -> CollectorV
    decreases n,
{
    if n == 0 {
        st
    } else {
        collect_one(collect_list(st, list, (n - 1) as nat), list[n - 1])
    }
}

/// Bytes of the upstream.
pub open spec fn collect_bytes(st: CollectorV, chunk: Seq<u8>) -> CollectorV {
    let list = protocol::payloads(st.line, chunk);
    collect_list(CollectorV { line: protocol::line_left(st.line, chunk), ..st }, list, list.len())
}

/// The end of the upstream.
pub open spec fn collect_end(st: CollectorV) -> CollectorV {
    collect_one(CollectorV { line: Seq::empty(), ..st }, protocol::last_payload(st.line))
}

proof fn collect_list_line(st: CollectorV, list: Seq<Option<Seq<char>>>, line: Seq<u8>, n: nat)
    ensures
        collect_list(CollectorV { line, ..st }, list, n) == (CollectorV {
            line,
            ..collect_list(st, list, n)
        }),
    decreases n,
{
    if n > 0 {
        collect_list_line(st, list, line, (n - 1) as nat);
    }
}

proof fn collect_list_add(
    st: CollectorV,
    a: Seq<Option<Seq<char>>>,
    b: Seq<Option<Seq<char>>>,
    n: nat,
)
    requires
        n <= a.len() + b.len(),
    ensures
        n <= a.len() ==> collect_list(st, a + b, n) == collect_list(st, a, n),
        n >= a.len() ==> collect_list(st, a + b, n) == collect_list(
            collect_list(st, a, a.len()),
            b,
            (n - a.len()) as nat,
        ),
    decreases n,
{
    if n > 0 {
        collect_list_add(st, a, b, (n - 1) as nat);
        if n <= a.len() {
            assert((a + b)[n - 1] == a[n - 1]);
        } else {
            assert((a + b)[n - 1] == b[n - 1 - a.len()]);
        }
    }
}

/// Where the bytes of a stream are cut does not matter to what is collected.
pub proof fn collect_bytes_in_pieces(st: CollectorV, a: Seq<u8>, b: Seq<u8>)
    ensures
        collect_bytes(st, a + b) == collect_bytes(collect_bytes(st, a), b),
{
    protocol::pieces_do_not_matter(st.line, a, b);
    let p = protocol::payloads(st.line, a);
    let mid = protocol::line_left(st.line, a);
    let q = protocol::payloads(mid, b);
    let end = protocol::line_left(mid, b);
    collect_list_add(st, p, q, p.len() + q.len());
    collect_list_line(st, p + q, end, p.len() + q.len());
    collect_list_line(st, p, mid, p.len());
    let half = collect_list(st, p, p.len());
    collect_list_line(half, q, end, q.len());
}

/// The items of the first `n` calls that were put together.
pub open spec fn tool_items(tools: Seq<(int, ToolV)>, plan: PlanV, fresh: FreshV, n: nat) -> Seq<Jv>
    decreases n,
{
    if n == 0 {
        Seq::empty()
    } else {
        let t = tools[n - 1].1;
        let name = protocol::or_else(t.name, "unknown"@);
        tool_items(tools, plan, fresh, (n - 1) as nat).push(
            responses::call_item(
                plan,
                responses::item_id_at(fresh, plan, name, n - 1),
                name,
                protocol::or_else(t.call_id, protocol::text_at(fresh.call, n - 1)),
                protocol::or_else(t.arguments, "{}"@),
            ),
        )
    }
}

/// The Responses response of what has come. `now` is the clock in seconds.
pub open spec fn collected_response(
    st: CollectorV,
    model: Seq<char>,
    request: Jv,
    plan: PlanV,
    fresh: FreshV,
    now: int,
) -> Jv {
    let incomplete = responses::incomplete_of(anthropic_stream::text_or_empty(st.seen.finish));
    responses::envelope(
        protocol::or_else(st.seen.id, fresh.resp),
        model,
        responses::status_of(incomplete),
        responses::said_items(st.seen.reasoning, st.seen.text, st.seen.tools.len() == 0, fresh) + tool_items(
            st.seen.tools,
            plan,
            fresh,
            st.seen.tools.len(),
        ),
        responses::responses_usage(st.seen.usage),
        request,
        st.created,
        incomplete,
        now,
    ).put("output_text"@, Jv::Str(st.seen.text))
}

/// Puts a chat stream together into one Responses response.
pub struct ResponsesCollector {
    buffer: SseLineBuffer,
    seen: Collected,
    created: i64,
}

impl View for ResponsesCollector {
    type V = CollectorV;

    closed spec fn view(&self) -> CollectorV {
        CollectorV { line: self.buffer.line(), seen: self.seen@, created: self.created as int }
    }
}

impl ResponsesCollector {
    /// A collector to which nothing has come, at a given time in seconds.
    pub fn at(created: i64) -> (r: ResponsesCollector)
        ensures
            r@ == (CollectorV {
                line: Seq::empty(),
                seen: collect::nothing_collected(),
                created: created as int,
            }),
    {
        ResponsesCollector { buffer: SseLineBuffer::new(), seen: Collected::new(), created }
    }

    /// A collector to which nothing has come.
    pub fn new() -> (r: ResponsesCollector)
        ensures
            r@ == (CollectorV {
                line: Seq::empty(),
                seen: collect::nothing_collected(),
                created: r@.created,
            }),
    {
        Self::at(responses::clock_s())
    }

    /// Takes in one piece of the chat stream.
    pub fn consume(&mut self, chunk: &Json)
        ensures
            final(self)@ == collect_chunk(old(self)@, chunk@),
    {
        if let Some(v) = chunk.get("created") {
            if let Some(n) = v.as_i64() {
                self.created = n;
            }
        }
        self.seen.consume(chunk);
    }

    fn consume_all(&mut self, list: &Vec<Option<String>>)
        ensures
            final(self)@ == collect_list(
                old(self)@,
                protocol::payload_texts(list@),
                list@.len(),
            ),
    {
        let ghost want = protocol::payload_texts(list@);
        let mut i: usize = 0;
        while i < list.len()
            invariant
                i <= list@.len(),
                want == protocol::payload_texts(list@),
                self@ == collect_list(old(self)@, want, i as nat),
            decreases list@.len() - i,
        {
            proof {
                assert(want[i as int] == json::opt_string(list@[i as int]));
            }
            if let Some(data) = &list[i] {
                if let Some(chunk) = json::parse(data.as_str()) {
                    self.consume(&chunk);
                }
            }
            i = i + 1;
        }
    }

    /// Takes in bytes of the upstream.
    pub fn push(&mut self, chunk: &[u8])
        ensures
            final(self)@ == collect_bytes(old(self)@, chunk@),
    {
        let list = self.buffer.push(chunk);
        proof {
            assert(list@.len() == protocol::payload_texts(list@).len());
        }
        self.consume_all(&list);
    }

    /// Takes in what is left at the end of the upstream.
    pub fn finish(&mut self)
        ensures
            final(self)@ == collect_end(old(self)@),
    {
        let ghost before = self@;
        let list = self.buffer.finish();
        self.consume_all(&list);
        proof {
            let p = protocol::payload_texts(list@);
            protocol::one_payload(protocol::lossy_text(before.line));
            assert(p.len() <= 1);
            reveal_with_fuel(collect_list, 2);
        }
    }

    /// The Responses response of what has come, with the identifiers that it may
    /// need and the clock given.
    pub fn into_response_with(
        self,
        model: &str,
        request: &Json,
        plan: &ToolPlan,
        fresh: &Fresh,
        now: i64,
    ) -> (r: Json)
        ensures
            r@ == collected_response(self@, model@, request@, plan@, fresh@, now as int),
    {
        broadcast use json::group_json;

        let created: i64 = self.created;
        let seen = self.seen;
        let ghost tools = collect::tools_view(seen.tools@);
        let mut output = responses::make_said_items(
            seen.reasoning.as_str(),
            seen.text.as_str(),
            seen.tools.len() == 0,
            fresh,
        );
        let ghost head = json::models(output@);
        proof {
            assert(head + Seq::<Jv>::empty() =~= head);
        }
        let mut i: usize = 0;
        while i < seen.tools.len()
            invariant
                i <= seen.tools@.len(),
                tools == collect::tools_view(seen.tools@),
                json::models(output@) == head + tool_items(tools, plan@, fresh@, i as nat),
            decreases seen.tools@.len() - i,
        {
            let tool: &ToolAccum = &seen.tools[i].1;
            let name = protocol::or_text(tool.name.clone(), "unknown");
            let call_id = protocol::or_text(tool.call_id.clone(), protocol::string_at(&fresh.call, i).as_str());
            let arguments = protocol::or_text(tool.arguments.clone(), "{}");
            let item_id = responses::pick_item_id(fresh, plan, name.as_str(), i);
            let item = responses::tool_call_item(
                plan,
                item_id.as_str(),
                name.as_str(),
                call_id.as_str(),
                arguments.as_str(),
            );
            proof {
                json::models_push(output@, item);
                assert(json::models(output@.push(item)) =~= head + tool_items(
                    tools,
                    plan@,
                    fresh@,
                    (i + 1) as nat,
                ));
            }
            output.push(item);
            i = i + 1;
        }
        let finish = match &seen.finish {
            Some(f) => f.clone(),
            None => String::new(),
        };
        let incomplete = responses::read_incomplete(finish.as_str());
        let status = if incomplete.is_some() {
            "incomplete"
        } else {
            "completed"
        };
        let id = protocol::or_text(seen.id, fresh.resp.as_str());
        let usage = responses::usage_to_responses(seen.usage.as_ref());
        responses::response_envelope_at(
            id.as_str(),
            model,
            status,
            output,
            usage,
            request,
            created,
            incomplete,
            now,
        ).with("output_text", Json::Str(seen.text))
    }

    /// The Responses response of what has come.
    pub fn into_response(self, model: &str, request: &Json, plan: &ToolPlan) -> (r: Json)
        ensures
            exists|fresh: FreshV, now: int|
                #![trigger collected_response(self@, model@, request@, plan@, fresh, now)]
                fresh.fits(self@.seen.tools.len()) && r@ == collected_response(
                    self@,
                    model@,
                    request@,
                    plan@,
                    fresh,
                    now,
                ),
    {
        let fresh = Fresh::draw(self.seen.tools.len());
        let now = responses::clock_s();
        self.into_response_with(model, request, plan, &fresh, now)
    }
}

impl Default for ResponsesCollector {
    fn default() -> (r: ResponsesCollector)
        ensures
            r@ == (CollectorV {
                line: Seq::empty(),
                seen: collect::nothing_collected(),
                created: r@.created,
            }),
    {
        Self::new()
    }
}

} // verus!
