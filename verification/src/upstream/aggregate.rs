//! A chat stream put together into one chat response.
//!
//! The upstream only streams. Where the client wants one answer, the pieces are
//! put together here: texts are joined, tool calls merged by their number, and the
//! last usage report and reason of the end count. An error in the stream is the
//! error of the whole.

use crate::errors::{ErrorV, GatewayError};
use crate::errors;
use crate::json::{Json, Jv};
use crate::json;
use crate::protocol::chat;
use crate::protocol::collect;
use crate::protocol;
use crate::text;
use crate::upstream::usage::{RequestTelemetry, TelemetryV};
use crate::upstream::usage;
use vstd::prelude::*;
use vstd::string::*;

verus! {

/// The longest line, in bytes.
pub const MAX_LINE_BYTES: usize = 8388608;

/// A tool call as far as its pieces have come.
#[verifier::ext_equal]
pub struct CallV {
    pub id: Seq<char>,
    pub kind: Seq<char>,
    pub name: Seq<char>,
    pub arguments: Seq<char>,
}

/// A tool call of which nothing has come yet.
pub open spec fn no_call() -> CallV {
    CallV {
        id: Seq::empty(),
        kind: "function"@,
        name: Seq::empty(),
        arguments: Seq::empty(),
    }
}

/// One more piece: an identifier and a kind replace what was there, the name and
/// the arguments grow at the end.
pub open spec fn merged_call(c: CallV, call: Jv) -> CallV {
    let function = call.get("function"@);
    CallV {
        id: protocol::or_else(json::str_or_empty(call.get("id"@)), c.id),
        kind: protocol::or_else(json::str_or_empty(call.get("type"@)), c.kind),
        name: c.name + json::str_or_empty(json::opt_get(function, "name"@)),
        arguments: c.arguments + json::str_or_empty(json::opt_get(function, "arguments"@)),
    }
}

/// The calls after one more piece.
pub open spec fn merge_piece(s: Seq<(int, CallV)>, call: Jv) -> Seq<(int, CallV)> {
    let key = json::int_or_zero(call.get("index"@));
    collect::put_key(
        s,
        key,
        merged_call(
            match collect::get_key(s, key) {
                Some(c) => c,
                None => no_call(),
            },
            call,
        ),
    )
}

/// The calls after the first `n` pieces.
pub open spec fn merge_pieces(s: Seq<(int, CallV)>, calls: Seq<Jv>, n: nat) -> Seq<(int, CallV)>
    decreases n,
{
    if n == 0 {
        s
    } else {
        merge_piece(merge_pieces(s, calls, (n - 1) as nat), calls[n - 1])
    }
}

/// However the pieces come, the calls stand in the order of their numbers.
pub proof fn merged_calls_in_order(s: Seq<(int, CallV)>, calls: Seq<Jv>, n: nat)
    requires
        collect::in_order(s),
    ensures
        collect::in_order(merge_pieces(s, calls, n)),
    decreases n,
{
    if n > 0 {
        merged_calls_in_order(s, calls, (n - 1) as nat);
        let before = merge_pieces(s, calls, (n - 1) as nat);
        let call = calls[n - 1];
        let key = json::int_or_zero(call.get("index"@));
        collect::put_key_keeps_order(
            before,
            key,
            merged_call(
                match collect::get_key(before, key) {
                    Some(c) => c,
                    None => no_call(),
                },
                call,
            ),
        );
    }
}

/// What has come of a stream.
#[verifier::ext_equal]
pub struct AccV {
    pub id: Seq<char>,
    pub model: Seq<char>,
    pub created: int,
    pub role: Seq<char>,
    pub content: Seq<char>,
    pub reasoning: Seq<char>,
    pub finish: Seq<char>,
    pub usage: Option<Jv>,
    pub chunks: nat,
    pub calls: Seq<(int, CallV)>,
    /// The name under which the model is to appear, where it is not the upstream's.
    pub rewrite: Option<Seq<char>>,
}

/// Nothing has come yet.
pub open spec fn nothing(rewrite: Option<Seq<char>>) -> AccV {
    AccV {
        id: Seq::empty(),
        model: Seq::empty(),
        created: 0,
        role: Seq::empty(),
        content: Seq::empty(),
        reasoning: Seq::empty(),
        finish: Seq::empty(),
        usage: None,
        chunks: 0,
        calls: Seq::empty(),
        rewrite,
    }
}

/// What a piece says of the whole.
pub open spec fn whole_noted(st: AccV, chunk: Jv) -> AccV {
    AccV {
        chunks: if st.chunks < usize::MAX {
            st.chunks + 1
        } else {
            st.chunks
        },
        id: protocol::or_else(json::str_or_empty(chunk.get("id"@)), st.id),
        model: match chunk.get("model"@) {
            Some(Jv::Str(s)) => s,
            _ => st.model,
        },
        created: match json::if_truthy(chunk.get("created"@)) {
            Some(v) => match protocol::rough_i64(v) {
                Some(n) => n,
                None => 0,
            },
            None => st.created,
        },
        usage: match chunk.get("usage"@) {
            Some(Jv::Obj(u)) => Some(Jv::Obj(u)),
            _ => st.usage,
        },
        ..st
    }
}

/// What the choice of a piece adds.
pub open spec fn choice_noted(st: AccV, choice: Jv) -> AccV {
    let delta = choice.get("delta"@);
    let calls = match json::opt_get(delta, "tool_calls"@) {
        Some(v) => v.items(),
        None => Seq::empty(),
    };
    AccV {
        role: protocol::or_else(json::str_or_empty(json::opt_get(delta, "role"@)), st.role),
        content: st.content + json::str_or_empty(json::opt_get(delta, "content"@)),
        reasoning: st.reasoning + json::str_or_empty(json::opt_get(delta, "reasoning_content"@)),
        finish: protocol::or_else(json::str_or_empty(choice.get("finish_reason"@)), st.finish),
        calls: merge_pieces(st.calls, calls, calls.len()),
        ..st
    }
}

/// The text of an error in the stream.
pub open spec fn stream_fault(error: Jv) -> Seq<char> {
    protocol::or_else(json::str_or_empty(error.get("message"@)), "上游流式返回错误"@)
}

/// The usage that a piece reports.
pub open spec fn piece_usage(t: TelemetryV, chunk: Jv) -> TelemetryV {
    match chunk.get("usage"@) {
        Some(u) => usage::usage_reported(t, u),
        None => t,
    }
}

/// The error in a piece, where there is one.
pub open spec fn piece_error(chunk: Jv) -> Option<ErrorV> {
    match chunk.get("error"@) {
        Some(e) => Some(errors::plain_error(502, stream_fault(e))),
        None => None,
    }
}

/// One more piece that holds no error.
pub open spec fn piece_taken(st: AccV, chunk: Jv) -> AccV {
    match chunk.get("choices"@) {
        Some(Jv::Arr(list)) => if list.len() > 0 {
            choice_noted(whole_noted(st, chunk), list[0])
        } else {
            whole_noted(st, chunk)
        },
        _ => whole_noted(st, chunk),
    }
}

/// One more piece; anything but an object says nothing.
pub open spec fn chunk_step(st: AccV, t: TelemetryV, chunk: Jv) -> (
    AccV,
    TelemetryV,
    Option<ErrorV>,
) {
    if chunk !is Obj {
        (st, t, None)
    } else {
        match piece_error(chunk) {
            Some(e) => (st, piece_usage(t, chunk), Some(e)),
            None => (piece_taken(st, chunk), piece_usage(t, chunk), None),
        }
    }
}

/// One line: the data of an event that is JSON, or nothing.
pub open spec fn line_step(st: AccV, t: TelemetryV, line: Seq<char>) -> (
    AccV,
    TelemetryV,
    Option<ErrorV>,
) {
    if !text::has_prefix(line, "data:"@) {
        (st, t, None)
    } else {
        let data = text::trimmed(line.skip(5));
        if data.len() == 0 || data == "[DONE]"@ {
            (st, t, None)
        } else {
            match json::parsed_json(data) {
                Some(chunk) => chunk_step(st, t, chunk),
                None => (st, t, None),
            }
        }
    }
}

/// What is left of a text after its complete lines were taken in from place `i`
/// on: where the rest begins, and what has come. An error ends it.
pub open spec fn lines_step(all: Seq<char>, i: int, st: AccV, t: TelemetryV) -> (
    int,
    AccV,
    TelemetryV,
    Option<ErrorV>,
)
    decreases all.len() - i,
    when 0 <= i <= all.len()
{
    let p = text::place_of(all, '\n', i);
    if p < i || p >= all.len() {
        (i, st, t, None)
    } else {
        let line = text::trimmed(all.subrange(i, p));
        let (s, u, e) = if line.len() == 0 {
            (st, t, None)
        } else {
            line_step(st, t, line)
        };
        match e {
            Some(_) => (p + 1, s, u, e),
            None => lines_step(all, p + 1, s, u),
        }
    }
}

/// The length of a text in bytes.
pub open spec fn byte_len(s: Seq<char>) -> usize {
    vstd::utf8::encode_utf8(s).len() as usize
}

/// What the putting together knows: the line begun, whether anything has come, and
/// what has come.
#[verifier::ext_equal]
pub struct AggregateV {
    pub line: Seq<char>,
    pub seen: bool,
    pub acc: AccV,
}

/// Bytes of the upstream: the complete lines are taken in; a line that grows too
/// long is an error.
pub open spec fn push_step(a: AggregateV, t: TelemetryV, bytes: Seq<u8>, now: i64) -> (
    AggregateV,
    TelemetryV,
    Option<ErrorV>,
) {
    let all = a.line + protocol::lossy_text(bytes);
    let seen = if a.seen {
        t
    } else {
        usage::shown(usage::first_frame(t, now)).0
    };
    let (i, acc, u, e) = lines_step(all, 0, a.acc, seen);
    let after = AggregateV { line: all.skip(i), seen: true, acc };
    match e {
        Some(_) => (after, u, e),
        None => if byte_len(all.skip(i)) > MAX_LINE_BYTES {
            (after, u, Some(errors::plain_error(502, "上游返回的单行数据过大，已中断"@)))
        } else {
            (after, u, None)
        },
    }
}

/// The end of the upstream: the last line may have no end of its own.
pub open spec fn finish_step(a: AggregateV, t: TelemetryV) -> (
    AggregateV,
    TelemetryV,
    Option<ErrorV>,
) {
    let tail = text::trimmed(a.line);
    let (acc, u, e) = if tail.len() == 0 {
        (a.acc, t, None)
    } else {
        line_step(a.acc, t, tail)
    };
    (AggregateV { line: Seq::empty(), acc, ..a }, u, e)
}

/// A tool call of a chat response.
pub open spec fn call_json(c: CallV) -> Jv {
    Jv::obj().put("id"@, Jv::Str(c.id)).put("type"@, Jv::Str(c.kind)).put(
        "function"@,
        Jv::obj().put("name"@, Jv::Str(c.name)).put("arguments"@, Jv::Str(c.arguments)),
    )
}

/// The tool calls of a chat response.
pub open spec fn calls_json(s: Seq<(int, CallV)>) -> Seq<Jv> {
    Seq::new(s.len(), |i: int| call_json(s[i].1))
}

/// The message of a chat response.
pub open spec fn message_json(st: AccV) -> Jv {
    Jv::obj().put("role"@, Jv::Str(protocol::or_else(st.role, "assistant"@))).put(
        "content"@,
        Jv::Str(st.content),
    ).put_some("reasoning_content"@, chat::some_text(st.reasoning)).put_some(
        "tool_calls"@,
        if st.calls.len() == 0 {
            None
        } else {
            Some(Jv::Arr(calls_json(st.calls)))
        },
    )
}

/// The chat response of what has come. `now` is the clock in milliseconds, which
/// stands in for a missing identifier and time.
pub open spec fn completion(st: AccV, now: int) -> Jv {
    Jv::obj().put("id"@, Jv::Str(protocol::or_else(st.id, "wb-agg-"@ + text::decimal_int(now)))).put(
        "object"@,
        Jv::Str("chat.completion"@),
    ).put(
        "created"@,
        Jv::Int(
            if st.created != 0 {
                st.created
            } else {
                now / 1000
            },
        ),
    ).put(
        "model"@,
        Jv::Str(
            match st.rewrite {
                Some(name) => name,
                None => st.model,
            },
        ),
    ).put(
        "choices"@,
        Jv::Arr(
            seq![
                Jv::obj().put("index"@, Jv::Int(0)).put("message"@, message_json(st)).put(
                    "finish_reason"@,
                    Jv::Str(protocol::or_else(st.finish, "stop"@)),
                ),
            ],
        ),
    ).put(
        "usage"@,
        match st.usage {
            Some(u) => u,
            None => Jv::Null,
        },
    )
}

/// A chat response that was put together, and of how many pieces.
pub struct AggregatedCompletion {
    pub body: Json,
    pub chunk_count: usize,
}

struct Call {
    id: String,
    kind: String,
    name: String,
    arguments: String,
}

impl View for Call {
    type V = CallV;

    closed spec fn view(&self) -> CallV {
        CallV { id: self.id@, kind: self.kind@, name: self.name@, arguments: self.arguments@ }
    }
}

impl Call {
    fn new() -> (r: Call)
        ensures
            r@ == no_call(),
    {
        proof {
            reveal_strlit("");
            assert(""@ =~= Seq::empty());
        }
        Call {
            id: String::new(),
            kind: "function".to_owned(),
            name: String::new(),
            arguments: String::new(),
        }
    }

    fn merge(&mut self, call: &Json)
        ensures
            final(self)@ == merged_call(old(self)@, call@),
    {
        let id = json::str_or(call.get("id"));
        if !id.as_str().is_empty() {
            self.id = id;
        }
        let kind = json::str_or(call.get("type"));
        if !kind.as_str().is_empty() {
            self.kind = kind;
        }
        let function = call.get("function");
        self.name.append(json::str_or(json::get_in(function, "name")).as_str());
        self.arguments.append(json::str_or(json::get_in(function, "arguments")).as_str());
    }
}

spec fn call_list(s: Seq<(i64, Call)>) -> Seq<(int, CallV)> {
    Seq::new(s.len(), |i: int| (s[i].0 as int, s[i].1@))
}

fn merge_tool_call(list: &mut Vec<(i64, Call)>, call: &Json)
    ensures
        call_list(final(list)@) == merge_piece(call_list(old(list)@), call@),
{
    let key = json::int_or(call.get("index"));
    let ghost before = call_list(list@);
    let mut p: usize = 0;
    while p < list.len() && list[p].0 < key
        invariant
            p <= list@.len(),
            before == call_list(list@),
            collect::place_from(before, key as int, 0) == collect::place_from(before, key as int, p as int),
        decreases list@.len() - p,
    {
        p = p + 1;
    }
    if p < list.len() && list[p].0 == key {
        let (index, mut one) = list.remove(p);
        one.merge(call);
        list.insert(p, (index, one));
    } else {
        let mut one = Call::new();
        one.merge(call);
        list.insert(p, (key, one));
    }
    proof {
        assert(call_list(list@) =~= merge_piece(before, call@));
    }
}

/// Puts the pieces of a chat stream together.
pub struct CompletionAccumulator {
    id: String,
    model: String,
    created: i64,
    role: String,
    content: String,
    reasoning: String,
    finish: String,
    usage: Option<Json>,
    chunk_count: usize,
    tool_calls: Vec<(i64, Call)>,
    rewrite: Option<String>,
}

impl View for CompletionAccumulator {
    type V = AccV;

    closed spec fn view(&self) -> AccV {
        AccV {
            id: self.id@,
            model: self.model@,
            created: self.created as int,
            role: self.role@,
            content: self.content@,
            reasoning: self.reasoning@,
            finish: self.finish@,
            usage: json::opt_owned(self.usage),
            chunks: self.chunk_count as nat,
            calls: call_list(self.tool_calls@),
            rewrite: json::opt_string(self.rewrite),
        }
    }
}

/// What came of taking something in: nothing, or an error.
pub open spec fn fault(r: Result<(), GatewayError>) -> Option<ErrorV> {
    match r {
        Ok(_) => None,
        Err(e) => Some(e@),
    }
}

impl CompletionAccumulator {
    /// Nothing has come yet.
    pub fn new(rewrite: Option<String>) -> (r: CompletionAccumulator)
        ensures
            r@ == nothing(json::opt_string(rewrite)),
    {
        let r = CompletionAccumulator {
            id: String::new(),
            model: String::new(),
            created: 0,
            role: String::new(),
            content: String::new(),
            reasoning: String::new(),
            finish: String::new(),
            usage: None,
            chunk_count: 0,
            tool_calls: Vec::new(),
            rewrite,
        };
        proof {
            reveal_strlit("");
            assert(r@ =~= nothing(json::opt_string(rewrite)));
        }
        r
    }

    fn note_whole(&mut self, chunk: &Json)
        ensures
            final(self)@ == whole_noted(old(self)@, chunk@),
    {
        if self.chunk_count < usize::MAX {
            self.chunk_count = self.chunk_count + 1;
        }
        let id = json::str_or(chunk.get("id"));
        if !id.as_str().is_empty() {
            self.id = id;
        }
        if let Some(Json::Str(model)) = chunk.get("model") {
            self.model = model.clone();
        }
        if let Some(created) = json::truthy_in(chunk.get("created")) {
            self.created = match protocol::rough(created) {
                Some(n) => n,
                None => 0,
            };
        }
        if let Some(usage) = chunk.get("usage") {
            if usage.is_obj() {
                self.usage = Some(usage.copy());
            }
        }
    }

    fn note_choice(&mut self, choice: &Json)
        ensures
            final(self)@ == choice_noted(old(self)@, choice@),
    {
        let delta = choice.get("delta");
        let role = json::str_or(json::get_in(delta, "role"));
        if !role.as_str().is_empty() {
            self.role = role;
        }
        self.content.append(json::str_or(json::get_in(delta, "content")).as_str());
        self.reasoning.append(json::str_or(json::get_in(delta, "reasoning_content")).as_str());
        let finish = json::str_or(choice.get("finish_reason"));
        if !finish.as_str().is_empty() {
            self.finish = finish;
        }
        if let Some(Json::Arr(calls)) = json::get_in(delta, "tool_calls") {
            let ghost want = json::models(calls@);
            let ghost before = self@;
            proof {
                json::model_arr(*calls);
            }
            let mut i: usize = 0;
            while i < calls.len()
                invariant
                    i <= calls@.len(),
                    want == json::models(calls@),
                    self@ == (AccV { calls: merge_pieces(before.calls, want, i as nat), ..before }),
                decreases calls@.len() - i,
            {
                merge_tool_call(&mut self.tool_calls, &calls[i]);
                i = i + 1;
            }
        }
    }

    /// Takes in one piece.
    pub fn consume_chunk(&mut self, chunk: &Json, telemetry: &mut RequestTelemetry) -> (r: Result<
        (),
        GatewayError,
    >)
        ensures
            (final(self)@, final(telemetry)@, fault(r)) == chunk_step(
                old(self)@,
                old(telemetry)@,
                chunk@,
            ),
    {
        if !chunk.is_obj() {
            return Ok(());
        }
        if let Some(usage) = chunk.get("usage") {
            telemetry.report_usage(usage);
        }
        if let Some(error) = chunk.get("error") {
            let message = protocol::or_text(json::str_or(error.get("message")), "上游流式返回错误");
            return Err(GatewayError::with_status(502, message));
        }
        self.note_whole(chunk);
        if let Some(Json::Arr(list)) = chunk.get("choices") {
            proof {
                json::model_arr(*list);
            }
            if list.len() > 0 {
                self.note_choice(&list[0]);
            }
        }
        Ok(())
    }

    /// Takes in one line.
    pub fn consume_line(&mut self, line: &str, telemetry: &mut RequestTelemetry) -> (r: Result<
        (),
        GatewayError,
    >)
        ensures
            (final(self)@, final(telemetry)@, fault(r)) == line_step(
                old(self)@,
                old(telemetry)@,
                line@,
            ),
    {
        proof {
            reveal_strlit("data:");
        }
        if !text::starts_with(line, "data:") {
            return Ok(());
        }
        let data = text::trim(text::skip_chars(line, 5).as_str());
        if data.as_str().is_empty() || text::same(data.as_str(), "[DONE]") {
            return Ok(());
        }
        match json::parse(data.as_str()) {
            Some(chunk) => self.consume_chunk(&chunk, telemetry),
            None => Ok(()),
        }
    }

    fn make_calls(&self) -> (r: Vec<Json>)
        ensures
            json::models(r@) == calls_json(self@.calls),
    {
        let ghost want = calls_json(self@.calls);
        let mut out: Vec<Json> = Vec::new();
        let mut i: usize = 0;
        proof {
            assert(json::models(out@) =~= want.take(0));
        }
        while i < self.tool_calls.len()
            invariant
                i <= self.tool_calls@.len(),
                want == calls_json(self@.calls),
                want.len() == self.tool_calls@.len(),
                json::models(out@) == want.take(i as int),
            decreases self.tool_calls@.len() - i,
        {
            let c = &self.tool_calls[i].1;
            let function = Json::obj().with("name", Json::Str(c.name.clone())).with(
                "arguments",
                Json::Str(c.arguments.clone()),
            );
            let one = Json::obj().with("id", Json::Str(c.id.clone())).with(
                "type",
                Json::Str(c.kind.clone()),
            ).with("function", function);
            proof {
                assert(one@ == want[i as int]);
                json::models_push(out@, one);
                assert(want.take(i as int).push(want[i as int]) =~= want.take(i as int + 1));
            }
            out.push(one);
            i = i + 1;
        }
        proof {
            assert(want.take(want.len() as int) =~= want);
        }
        out
    }

    fn make_message(&self) -> (r: Json)
        ensures
            r@ == message_json(self@),
    {
        let role = protocol::or_text(self.role.clone(), "assistant");
        let mut message = Json::obj().with("role", Json::Str(role)).with(
            "content",
            Json::Str(self.content.clone()),
        );
        if !self.reasoning.as_str().is_empty() {
            message.put("reasoning_content", Json::Str(self.reasoning.clone()));
        }
        if self.tool_calls.len() > 0 {
            let calls = self.make_calls();
            proof {
                json::model_arr(calls);
            }
            message.put("tool_calls", Json::Arr(calls));
        }
        message
    }

    /// The chat response of what has come, at a given time in milliseconds.
    pub fn into_completion_at(self, now: i64) -> (r: AggregatedCompletion)
        requires
            now >= 0,
        ensures
            r.body@ == completion(self@, now as int),
            r.chunk_count == self@.chunks,
    {
        let message = self.make_message();
        let choice = Json::obj().with("index", Json::Int(0)).with("message", message).with(
            "finish_reason",
            Json::Str(protocol::or_text(self.finish.clone(), "stop")),
        );
        let mut choices: Vec<Json> = Vec::new();
        choices.push(choice);
        proof {
            assert(json::models(choices@) =~= seq![choice@]);
            json::model_arr(choices);
        }
        let stand_in = text::join2("wb-agg-", text::decimal_i64(now).as_str());
        let id = protocol::or_text(self.id.clone(), stand_in.as_str());
        let created: i64 = if self.created != 0 {
            self.created
        } else {
            now / 1000
        };
        let model = match &self.rewrite {
            Some(name) => name.clone(),
            None => self.model.clone(),
        };
        let usage = match &self.usage {
            Some(u) => u.copy(),
            None => Json::Null,
        };
        let body = Json::obj().with("id", Json::Str(id)).with(
            "object",
            Json::str("chat.completion"),
        ).with("created", Json::Int(created)).with("model", Json::Str(model)).with(
            "choices",
            Json::Arr(choices),
        ).with("usage", usage);
        AggregatedCompletion { body, chunk_count: self.chunk_count }
    }

    /// The chat response of what has come.
    pub fn into_completion(self) -> (r: AggregatedCompletion)
        ensures
            exists|now: int| now >= 0 && r.body@ == #[trigger] completion(self@, now),
            r.chunk_count == self@.chunks,
    {
        let now = usage::clock_i64();
        self.into_completion_at(now)
    }
}

/// Reads a chat stream and puts it together.
pub struct Aggregator {
    buffer: String,
    seen: bool,
    acc: CompletionAccumulator,
}

impl View for Aggregator {
    type V = AggregateV;

    closed spec fn view(&self) -> AggregateV {
        AggregateV { line: self.buffer@, seen: self.seen, acc: self.acc@ }
    }
}

impl Aggregator {
    /// Nothing has come yet.
    pub fn new(rewrite: Option<String>) -> (r: Aggregator)
        ensures
            r@ == (AggregateV {
                line: Seq::empty(),
                seen: false,
                acc: nothing(json::opt_string(rewrite)),
            }),
    {
        proof {
            reveal_strlit("");
            assert(""@ =~= Seq::empty());
        }
        Aggregator {
            buffer: String::new(),
            seen: false,
            acc: CompletionAccumulator::new(rewrite),
        }
    }

    /// Takes in bytes of the upstream, at a given time in milliseconds. The second part of
    /// the result says whether the record is to be shown, which the first bytes may bring.
    pub fn push(&mut self, chunk: &[u8], now: i64, telemetry: &mut RequestTelemetry) -> (r: (
        Result<(), GatewayError>,
        bool,
    ))
        ensures
            (final(self)@, final(telemetry)@, fault(r.0)) == push_step(
                old(self)@,
                old(telemetry)@,
                chunk@,
                now,
            ),
            r.1 == (!old(self)@.seen && usage::shown(usage::first_frame(old(telemetry)@, now)).1),
    {
        let ghost begin = old(self)@;
        let mut show = false;
        if !self.seen {
            show = telemetry.note_first_frame_at(now);
            self.seen = true;
        }
        let ghost t0 = telemetry@;
        let more = protocol::lossy(chunk);
        let whole = text::join2(self.buffer.as_str(), more.as_str());
        let all = text::chars_of(whole.as_str());
        let ghost want = lines_step(all@, 0, begin.acc, t0);
        let mut i: usize = 0;
        let mut p: usize = text::find_char_from(&all, '\n', i);
        while p < all.len()
            invariant
                i <= p <= all@.len(),
                p == text::place_of(all@, '\n', i as int),
                self.seen,
                self.buffer@ == begin.line,
                all@ == begin.line + protocol::lossy_text(chunk@),
                want == lines_step(all@, 0, begin.acc, t0),
                want == lines_step(all@, i as int, self.acc@, telemetry@),
                t0 == (if begin.seen {
                    old(telemetry)@
                } else {
                    usage::shown(usage::first_frame(old(telemetry)@, now)).0
                }),
                begin == old(self)@,
                show == (!begin.seen && usage::shown(
                    usage::first_frame(old(telemetry)@, now),
                ).1),
            decreases all@.len() - i,
        {
            let raw = text::text_between(&all, i, p);
            let line = text::trim(raw.as_str());
            if !line.as_str().is_empty() {
                let taken = self.acc.consume_line(line.as_str(), telemetry);
                if let Err(e) = taken {
                    self.buffer = text::text_between(&all, p + 1, all.len());
                    proof {
                        assert(self.buffer@ =~= all@.skip(p + 1));
                    }
                    return (Err(e), show);
                }
            }
            i = p + 1;
            p = text::find_char_from(&all, '\n', i);
        }
        self.buffer = text::text_between(&all, i, all.len());
        proof {
            assert(self.buffer@ =~= all@.skip(i as int));
        }
        if self.buffer.as_str().len() > MAX_LINE_BYTES {
            return (
                Err(GatewayError::with_status(502, "上游返回的单行数据过大，已中断".to_owned())),
                show,
            );
        }
        (Ok(()), show)
    }

    /// Takes in what is left at the end of the upstream.
    pub fn finish(&mut self, telemetry: &mut RequestTelemetry) -> (r: Result<(), GatewayError>)
        ensures
            (final(self)@, final(telemetry)@, fault(r)) == finish_step(
                old(self)@,
                old(telemetry)@,
            ),
    {
        let tail = text::trim(self.buffer.as_str());
        proof {
            reveal_strlit("");
            assert(""@ =~= Seq::empty());
        }
        self.buffer = String::new();
        if tail.as_str().is_empty() {
            return Ok(());
        }
        self.acc.consume_line(tail.as_str(), telemetry)
    }

    /// The chat response of what has come, at a given time in milliseconds.
    pub fn into_completion_at(self, now: i64) -> (r: AggregatedCompletion)
        requires
            now >= 0,
        ensures
            r.body@ == completion(self@.acc, now as int),
            r.chunk_count == self@.acc.chunks,
    {
        self.acc.into_completion_at(now)
    }
}

} // verus!
