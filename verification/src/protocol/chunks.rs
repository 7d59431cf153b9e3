//! The pieces of a chat stream as this side writes them.
//!
//! A stream begins with a piece that names the assistant, goes on with pieces of
//! text, thinking and tool calls, and ends with a piece that says why it ends, the
//! usage report and the closing mark.

use crate::json::{Json, Jv};
use crate::json;
use crate::protocol::anthropic_stream;
use crate::protocol::{Frame, Fv};
use crate::protocol;
use crate::text;
use vstd::prelude::*;
use vstd::string::*;

verus! {

/// What every piece of a chat stream carries, and how far the stream is.
#[verifier::ext_equal]
pub struct WriterV {
    pub id: Seq<char>,
    pub created: int,
    pub model: Seq<char>,
    pub started: bool,
    pub finished: bool,
}

/// A stream of which nothing has been written.
pub open spec fn new_writer(model: Seq<char>, created: int) -> WriterV {
    WriterV { id: Seq::empty(), created, model, started: false, finished: false }
}

/// A piece of a chat stream.
pub open spec fn chunk(w: WriterV, choices: Seq<Jv>) -> Jv {
    Jv::obj().put("id"@, Jv::Str(w.id)).put("object"@, Jv::Str("chat.completion.chunk"@)).put(
        "created"@,
        Jv::Int(w.created),
    ).put("model"@, Jv::Str(w.model)).put("choices"@, Jv::Arr(choices))
}

/// The one choice of a piece.
pub open spec fn choice(delta: Jv, finish: Jv) -> Jv {
    Jv::obj().put("index"@, Jv::Int(0)).put("delta"@, delta).put("finish_reason"@, finish)
}

/// A piece that adds something.
pub open spec fn delta_chunk(w: WriterV, delta: Jv) -> Fv {
    Fv::Data(chunk(w, seq![choice(delta, Jv::Null)]))
}

/// The piece that says why the stream ends.
pub open spec fn finish_chunk(w: WriterV, reason: Seq<char>) -> Fv {
    Fv::Data(chunk(w, seq![choice(Jv::obj(), Jv::Str(reason))]))
}

/// The piece that carries the usage report.
pub open spec fn usage_chunk(w: WriterV, usage: Jv) -> Fv {
    Fv::Data(chunk(w, Seq::empty()).put("usage"@, usage))
}

/// The piece that names the assistant.
pub open spec fn role_delta() -> Jv {
    Jv::obj().put("role"@, Jv::Str("assistant"@)).put("content"@, Jv::Str(""@))
}

/// Begins the stream, once. `fresh` stands in for a missing identifier.
pub open spec fn start_step(w: WriterV, fresh: Seq<char>) -> (WriterV, Seq<Fv>) {
    if w.started {
        (w, Seq::empty())
    } else {
        let after = WriterV {
            started: true,
            id: if w.id.len() == 0 {
                fresh
            } else {
                w.id
            },
            ..w
        };
        (after, seq![delta_chunk(after, role_delta())])
    }
}

/// The identifiers that one event may need: of a tool call and of the stream.
#[verifier::ext_equal]
pub struct NewIds {
    pub call: Seq<char>,
    pub id: Seq<char>,
}

impl NewIds {
    /// Whether they are identifiers of their kinds.
    pub open spec fn fits(self, call: Seq<char>) -> bool {
        protocol::is_id(call, self.call) && protocol::is_id("chatcmpl"@, self.id)
    }
}

/// The identifiers that one payload may need: for an event, and for the end.
#[verifier::ext_equal]
pub struct Given {
    pub ids: NewIds,
    pub end: Seq<char>,
}

impl Given {
    /// Whether they are identifiers of their kinds.
    pub open spec fn fits(self, call: Seq<char>) -> bool {
        self.ids.fits(call) && protocol::is_id("chatcmpl"@, self.end)
    }
}

/// Whether every one of them fits.
pub open spec fn all_fit(given: Seq<Given>, call: Seq<char>) -> bool {
    forall|i: int| 0 <= i < given.len() ==> (#[trigger] given[i]).fits(call)
}

/// A delta that announces a tool call.
pub open spec fn call_delta(index: int, id: Seq<char>, name: Seq<char>) -> Jv {
    Jv::obj().put(
        "tool_calls"@,
        Jv::Arr(
            seq![
                Jv::obj().put("index"@, Jv::Int(index)).put("id"@, Jv::Str(id)).put(
                    "type"@,
                    Jv::Str("function"@),
                ).put(
                    "function"@,
                    Jv::obj().put("name"@, Jv::Str(name)).put("arguments"@, Jv::Str(""@)),
                ),
            ],
        ),
    )
}

/// A delta with arguments of a tool call.
pub open spec fn arguments_delta(index: int, arguments: Seq<char>) -> Jv {
    Jv::obj().put(
        "tool_calls"@,
        Jv::Arr(
            seq![
                Jv::obj().put("index"@, Jv::Int(index)).put(
                    "function"@,
                    Jv::obj().put("arguments"@, Jv::Str(arguments)),
                ),
            ],
        ),
    )
}

/// The frames that end a stream with an error of the upstream.
pub open spec fn error_frames(message: Seq<char>) -> Seq<Fv> {
    seq![
        Fv::Data(
            Jv::obj().put(
                "error"@,
                Jv::obj().put("message"@, Jv::Str(message)).put(
                    "type"@,
                    Jv::Str("upstream_error"@),
                ),
            ),
        ),
        Fv::Done,
    ]
}

/// The text of an error event: what the error says, else the whole event, else a
/// fixed text.
pub open spec fn stream_error(error: Option<Jv>, event: Jv) -> Seq<char> {
    let message = match error {
        Some(e) => anthropic_stream::error_message(e),
        None => protocol::loose(event),
    };
    if text::blank(message) {
        "上游流式返回错误"@
    } else {
        message
    }
}

/// Whether frames close the stream exactly where its state says so: the closing
/// mark stands behind everything else when the stream ends, and nowhere before.
pub open spec fn closes(before: bool, after: bool, out: Seq<Fv>) -> bool {
    &&& before ==> after && out.len() == 0
    &&& !before && after ==> out.len() > 0 && out.last() == Fv::Done && no_mark(out.drop_last())
    &&& !after ==> no_mark(out)
}

/// Whether the closing mark is not among the frames.
pub open spec fn no_mark(out: Seq<Fv>) -> bool {
    forall|i: int| 0 <= i < out.len() ==> #[trigger] out[i] is Data
}

/// Two lots of frames, one after the other, close the stream where they should if
/// each of them does.
pub proof fn closes_add(before: bool, mid: bool, after: bool, a: Seq<Fv>, b: Seq<Fv>)
    requires
        closes(before, mid, a),
        closes(mid, after, b),
    ensures
        closes(before, after, a + b),
{
    let all = a + b;
    if mid {
        assert(all =~= a);
    } else {
        assert forall|i: int| 0 <= i < all.len() && (i < all.len() - 1 || !after) implies (
        #[trigger] all[i]) is Data by {
            if i < a.len() {
                assert(all[i] == a[i]);
            } else {
                assert(all[i] == b[i - a.len()]);
                if after {
                    assert(b.drop_last()[i - a.len()] == b[i - a.len()]);
                }
            }
        }
        if !before && after {
            assert(all.last() == b.last());
        }
    }
}

/// The writer of a chat stream.
pub(crate) struct ChunkWriter {
    pub(crate) id: String,
    pub(crate) created: i64,
    pub(crate) model: String,
    pub(crate) started: bool,
    pub(crate) finished: bool,
}

impl View for ChunkWriter {
    type V = WriterV;

    closed spec fn view(&self) -> WriterV {
        WriterV {
            id: self.id@,
            created: self.created as int,
            model: self.model@,
            started: self.started,
            finished: self.finished,
        }
    }
}

impl ChunkWriter {
    pub(crate) fn new(model: &str, created: i64) -> (r: ChunkWriter)
        ensures
            r@ == new_writer(model@, created as int),
    {
        ChunkWriter {
            id: String::new(),
            created,
            model: model.to_owned(),
            started: false,
            finished: false,
        }
    }

    pub(crate) fn is_finished(&self) -> (r: bool)
        ensures
            r == self@.finished,
    {
        self.finished
    }

    pub(crate) fn close(&mut self)
        ensures
            final(self)@ == (WriterV { finished: true, ..old(self)@ }),
    {
        self.finished = true;
    }

    pub(crate) fn set_id(&mut self, id: &str)
        ensures
            final(self)@ == (WriterV { id: id@, ..old(self)@ }),
    {
        self.id = id.to_owned();
    }

    fn chunk(&self, choices: Vec<Json>) -> (r: Json)
        ensures
            r@ == chunk(self@, json::models(choices@)),
    {
        broadcast use json::group_json;

        Json::obj().with("id", Json::Str(self.id.clone())).with(
            "object",
            Json::str("chat.completion.chunk"),
        ).with("created", Json::Int(self.created)).with(
            "model",
            Json::Str(self.model.clone()),
        ).with("choices", Json::Arr(choices))
    }

    fn one_choice(&self, delta: Json, finish: Json) -> (r: Frame)
        ensures
            r@ == Fv::Data(chunk(self@, seq![choice(delta@, finish@)])),
    {
        broadcast use json::group_json;

        let one = Json::obj().with("index", Json::Int(0)).with("delta", delta).with(
            "finish_reason",
            finish,
        );
        let mut list: Vec<Json> = Vec::new();
        list.push(one);
        proof {
            assert(json::models(list@) =~= seq![one@]);
        }
        Frame::Data(self.chunk(list))
    }

    pub(crate) fn delta(&self, delta: Json) -> (r: Frame)
        ensures
            r@ == delta_chunk(self@, delta@),
    {
        self.one_choice(delta, Json::Null)
    }

    pub(crate) fn ending(&self, reason: &str) -> (r: Frame)
        ensures
            r@ == finish_chunk(self@, reason@),
    {
        self.one_choice(Json::obj(), Json::str(reason))
    }

    pub(crate) fn usage(&self, usage: Json) -> (r: Frame)
        ensures
            r@ == usage_chunk(self@, usage@),
    {
        broadcast use json::group_json;

        let list: Vec<Json> = Vec::new();
        Frame::Data(self.chunk(list).with("usage", usage))
    }

    pub(crate) fn start(&mut self, fresh: &str) -> (r: Vec<Frame>)
        ensures
            (final(self)@, protocol::frames(r@)) == start_step(old(self)@, fresh@),
    {
        broadcast use protocol::group_frames;

        let mut out: Vec<Frame> = Vec::new();
        if self.started {
            return out;
        }
        self.started = true;
        if self.id.as_str().is_empty() {
            self.id = fresh.to_owned();
        }
        let delta = Json::obj().with("role", Json::str("assistant")).with("content", Json::str(""));
        out.push(self.delta(delta));
        proof {
            assert(protocol::frames(out@) =~= seq![delta_chunk(self@, role_delta())]);
        }
        out
    }
}

/// A delta that announces a tool call.
pub(crate) fn make_call_delta(index: Json, id: &str, name: &str) -> (r: Json)
    requires
        index@ is Int,
    ensures
        r@ == call_delta(index@->Int_0, id@, name@),
{
    broadcast use json::group_json;

    let function = Json::obj().with("name", Json::str(name)).with("arguments", Json::str(""));
    let call = Json::obj().with("index", index).with("id", Json::str(id)).with(
        "type",
        Json::str("function"),
    ).with("function", function);
    let mut list: Vec<Json> = Vec::new();
    list.push(call);
    proof {
        assert(json::models(list@) =~= seq![call@]);
    }
    Json::obj().with("tool_calls", Json::Arr(list))
}

/// A delta with arguments of a tool call.
pub(crate) fn make_arguments_delta(index: Json, arguments: &str) -> (r: Json)
    requires
        index@ is Int,
    ensures
        r@ == arguments_delta(index@->Int_0, arguments@),
{
    broadcast use json::group_json;

    let function = Json::obj().with("arguments", Json::str(arguments));
    let call = Json::obj().with("index", index).with("function", function);
    let mut list: Vec<Json> = Vec::new();
    list.push(call);
    proof {
        assert(json::models(list@) =~= seq![call@]);
    }
    Json::obj().with("tool_calls", Json::Arr(list))
}

/// The frames that end a stream with an error of the upstream.
pub(crate) fn make_error_frames(error: Option<&Json>, event: &Json) -> (r: Vec<Frame>)
    ensures
        protocol::frames(r@) == error_frames(stream_error(json::opt_model(error), event@)),
{
    let message = match error {
        Some(e) => anthropic_stream::read_error_message(e),
        None => protocol::string_value(event),
    };
    let message = if text::trim(message.as_str()).as_str().is_empty() {
        "上游流式返回错误".to_owned()
    } else {
        message
    };
    let inner = Json::obj().with("message", Json::Str(message)).with(
        "type",
        Json::str("upstream_error"),
    );
    let mut out: Vec<Frame> = Vec::new();
    out.push(Frame::Data(Json::obj().with("error", inner)));
    out.push(Frame::Done);
    proof {
        assert(protocol::frames(out@) =~= error_frames(message@));
    }
    out
}

} // verus!
