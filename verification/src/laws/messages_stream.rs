//! A chat stream as a stream of Messages events.

use crate::json::Jv;
use crate::json;
use crate::laws::words;
use crate::laws::{holds, within};
use crate::protocol::Fv;
use crate::protocol::anthropic_stream::AnthropicV;
use crate::protocol::anthropic_stream;
use crate::protocol;
use vstd::prelude::*;
use vstd::string::*;

verus! {

// ------------------------------------------------------------- pieces of events

/// The data of an event of that name.
pub open spec fn data_of(f: Fv, name: Seq<char>) -> Option<Jv> {
    match f {
        Fv::Event(n, d) => if n == name {
            Some(d)
        } else {
            None
        },
        _ => None,
    }
}

/// What an event adds to a block: the text under `field` of a delta of that kind.
pub open spec fn piece(f: Fv, kind: Seq<char>, field: Seq<char>) -> Seq<char> {
    match data_of(f, "content_block_delta"@) {
        Some(d) => if within(d, "delta"@, "type"@) == Some(Jv::Str(kind)) {
            match within(d, "delta"@, field) {
                Some(Jv::Str(s)) => s,
                _ => Seq::empty(),
            }
        } else {
            Seq::empty()
        },
        None => Seq::empty(),
    }
}

/// What events add to blocks, one after the other.
pub open spec fn said(list: Seq<Fv>, kind: Seq<char>, field: Seq<char>) -> Seq<char>
    decreases list.len(),
{
    if list.len() == 0 {
        Seq::empty()
    } else {
        said(list.drop_last(), kind, field) + piece(list.last(), kind, field)
    }
}

proof fn said_push(list: Seq<Fv>, f: Fv, kind: Seq<char>, field: Seq<char>)
    ensures
        said(list.push(f), kind, field) == said(list, kind, field) + piece(f, kind, field),
{
    assert(list.push(f).drop_last() =~= list);
}

proof fn said_add(a: Seq<Fv>, b: Seq<Fv>, kind: Seq<char>, field: Seq<char>)
    ensures
        said(a + b, kind, field) == said(a, kind, field) + said(b, kind, field),
    decreases b.len(),
{
    if b.len() == 0 {
        assert(a + b =~= a);
        assert(said(a, kind, field) + said(b, kind, field) =~= said(a, kind, field));
    } else {
        said_add(a, b.drop_last(), kind, field);
        assert((a + b).drop_last() =~= a + b.drop_last());
        assert((a + b).last() == b.last());
        assert(said(a + b, kind, field) =~= said(a, kind, field) + said(b, kind, field));
    }
}

proof fn said_none(kind: Seq<char>, field: Seq<char>)
    ensures
        said(Seq::empty(), kind, field) == Seq::<char>::empty(),
{
}

proof fn said_one(f: Fv, kind: Seq<char>, field: Seq<char>)
    ensures
        said(seq![f], kind, field) == piece(f, kind, field),
{
    said_none(kind, field);
    assert(seq![f].drop_last() =~= Seq::empty());
    assert(said(seq![f], kind, field) == said(seq![f].drop_last(), kind, field) + piece(f, kind, field));
    assert(Seq::<char>::empty() + piece(f, kind, field) =~= piece(f, kind, field));
}

/// One of the kinds of text that is said in pieces.
spec fn spoken(kind: Seq<char>, field: Seq<char>) -> bool {
    ||| kind == "text_delta"@ && field == "text"@
    ||| kind == "thinking_delta"@ && field == "thinking"@
}

proof fn close_says_nothing(st: AnthropicV, kind: Seq<char>, field: Seq<char>)
    requires
        spoken(kind, field),
    ensures
        said(anthropic_stream::close_step(st).1, kind, field) == Seq::<char>::empty(),
{
    words::event_words();
    words::delta_words();
    words::event_members();
    said_none(kind, field);
    if st.open {
        let e = anthropic_stream::stop_event(st.index);
        let d = anthropic_stream::delta_event(st.index, "input_json_delta"@, "partial_json"@, "{}"@);
        said_one(e, kind, field);
        if st.kind == "tool_use"@ && !st.saw_arguments {
            assert(seq![d, e] =~= seq![d].push(e));
            said_one(d, kind, field);
            said_push(seq![d], e, kind, field);
            assert(said(seq![d, e], kind, field) =~= Seq::empty());
        }
    }
}

proof fn start_says_nothing(st: AnthropicV, kind: Seq<char>, field: Seq<char>)
    ensures
        said(anthropic_stream::start_step(st).1, kind, field) == Seq::<char>::empty(),
{
    words::event_words();
    said_none(kind, field);
    if !st.started {
        said_one(
            anthropic_stream::named(
                "message_start"@,
                Jv::obj().put("message"@, anthropic_stream::start_message(st)),
            ),
            kind,
            field,
        );
    }
}

proof fn tool_says_nothing(st: AnthropicV, call: Jv, fresh: Seq<char>, kind: Seq<char>, field: Seq<char>)
    requires
        spoken(kind, field),
    ensures
        said(anthropic_stream::tool_step(st, call, fresh).1, kind, field) == Seq::<char>::empty(),
{
    words::event_words();
    words::delta_words();
    words::event_members();
    close_says_nothing(st, kind, field);
    said_none(kind, field);
    let name = json::str_or_empty(json::opt_get(call.get("function"@), "name"@));
    let id = json::str_or_empty(call.get("id"@));
    let arguments = json::str_or_empty(json::opt_get(call.get("function"@), "arguments"@));
    let is_new = id.len() > 0 && id != st.tool_id;
    let used = if is_new || name.len() > 0 {
        protocol::or_else(id, fresh)
    } else {
        fresh
    };
    let opened = anthropic_stream::tool_block_step(st, used, name);
    let (closed, ev) = anthropic_stream::close_step(st);
    said_push(ev, opened.1.last(), kind, field);
    assert(opened.1 == ev.push(opened.1.last()));
    let (mid, before) = if is_new || st.kind != "tool_use"@ {
        opened
    } else {
        (st, Seq::empty())
    };
    assert(said(before, kind, field) =~= Seq::empty());
    let d = anthropic_stream::delta_event(mid.index, "input_json_delta"@, "partial_json"@, arguments);
    said_push(before, d, kind, field);
    assert(said(before, kind, field) + piece(d, kind, field) =~= Seq::empty());
}

proof fn tools_say_nothing(
    st: AnthropicV,
    calls: Seq<Jv>,
    fresh: Seq<Seq<char>>,
    n: nat,
    kind: Seq<char>,
    field: Seq<char>,
)
    requires
        spoken(kind, field),
    ensures
        said(anthropic_stream::tools_step(st, calls, fresh, n).1, kind, field) == Seq::<char>::empty(),
    decreases n,
{
    if n > 0 {
        tools_say_nothing(st, calls, fresh, (n - 1) as nat, kind, field);
        let (before, ev) = anthropic_stream::tools_step(st, calls, fresh, (n - 1) as nat);
        let id = protocol::text_at(fresh, n - 1);
        tool_says_nothing(before, calls[n - 1], id, kind, field);
        said_add(ev, anthropic_stream::tool_step(before, calls[n - 1], id).1, kind, field);
        assert(said(anthropic_stream::tools_step(st, calls, fresh, n).1, kind, field) =~= Seq::empty());
    }
}

proof fn text_says(st: AnthropicV, text: Seq<char>, thinking: bool)
    ensures
        ({
            let ev = if thinking {
                anthropic_stream::thinking_step(st, text).1
            } else {
                anthropic_stream::text_step(st, text).1
            };
            &&& said(ev, "text_delta"@, "text"@) == if thinking {
                Seq::empty()
            } else {
                text
            }
            &&& said(ev, "thinking_delta"@, "thinking"@) == if thinking {
                text
            } else {
                Seq::empty()
            }
        }),
{
    words::event_words();
    words::delta_words();
    words::event_members();
    words::kind_words();
    said_none("text_delta"@, "text"@);
    said_none("thinking_delta"@, "thinking"@);
    if text.len() == 0 {
        assert(text =~= Seq::empty());
    } else {
        let kind = if thinking {
            "thinking"@
        } else {
            "text"@
        };
        close_says_nothing(st, "text_delta"@, "text"@);
        close_says_nothing(st, "thinking_delta"@, "thinking"@);
        let (closed, ev) = anthropic_stream::close_step(st);
        let (mid, before) = anthropic_stream::block_step(st, kind);
        if !(st.open && st.kind == kind) {
            said_push(ev, before.last(), "text_delta"@, "text"@);
            said_push(ev, before.last(), "thinking_delta"@, "thinking"@);
            assert(before == ev.push(before.last()));
        }
        assert(said(before, "text_delta"@, "text"@) =~= Seq::empty());
        assert(said(before, "thinking_delta"@, "thinking"@) =~= Seq::empty());
        let d = if thinking {
            anthropic_stream::delta_event(mid.index, "thinking_delta"@, "thinking"@, text)
        } else {
            anthropic_stream::delta_event(mid.index, "text_delta"@, "text"@, text)
        };
        said_push(before, d, "text_delta"@, "text"@);
        said_push(before, d, "thinking_delta"@, "thinking"@);
        assert(Seq::<char>::empty() + text =~= text);
        assert(Seq::<char>::empty() + Seq::<char>::empty() =~= Seq::<char>::empty());
        assert(piece(d, "text_delta"@, "text"@) == if thinking {
            Seq::empty()
        } else {
            text
        });
        assert(piece(d, "thinking_delta"@, "thinking"@) == if thinking {
            text
        } else {
            Seq::empty()
        });
    }
}

// ------------------------------------------------------------------- the stream

/// The first choice of a piece of a chat stream.
pub open spec fn choice(chunk: Jv) -> Jv {
    match chunk.get("choices"@) {
        Some(Jv::Arr(s)) => if s.len() > 0 {
            s[0]
        } else {
            Jv::Null
        },
        _ => Jv::Null,
    }
}

/// The text under a member of the delta of a piece.
pub open spec fn delta_text(chunk: Jv, key: Seq<char>) -> Seq<char> {
    match within(choice(chunk), "delta"@, key) {
        Some(Jv::Str(s)) => s,
        _ => Seq::empty(),
    }
}

/// Whether a piece is one of a stream that goes well: it has choices in a list, tells of no
/// error, and its thinking, where there is any, is a text under `reasoning_content`.
pub open spec fn well(chunk: Jv) -> bool {
    &&& chunk.get("choices"@) matches Some(Jv::Arr(_))
    &&& chunk.get("error"@) is None
    &&& within(choice(chunk), "delta"@, "reasoning"@) is None
    &&& within(choice(chunk), "delta"@, "reasoning_content"@) is None || within(
        choice(chunk),
        "delta"@,
        "reasoning_content"@,
    )->0 is Str
}

/// A stream after the first `n` pieces.
pub open spec fn ran(st: AnthropicV, chunks: Seq<Jv>, fresh: Seq<Seq<Seq<char>>>, n: nat) -> (
    AnthropicV,
    Seq<Fv>,
)
    decreases n,
{
    if n == 0 {
        (st, Seq::empty())
    } else {
        let (before, ev) = ran(st, chunks, fresh, (n - 1) as nat);
        let (after, more) = anthropic_stream::chunk_step(before, chunks[n - 1], protocol::row(fresh, n - 1));
        (after, ev + more)
    }
}

/// The texts under a member of the deltas of the first `n` pieces, one after the other.
pub open spec fn delta_texts(chunks: Seq<Jv>, key: Seq<char>, n: nat) -> Seq<char>
    decreases n,
{
    if n == 0 {
        Seq::empty()
    } else {
        delta_texts(chunks, key, (n - 1) as nat) + delta_text(chunks[n - 1], key)
    }
}

/// Each piece of a chat stream says its text and its thinking, as they are.
pub proof fn each_piece_is_said(st: AnthropicV, chunk: Jv, fresh: Seq<Seq<char>>)
    requires
        !st.finished,
        well(chunk),
    ensures
        !anthropic_stream::chunk_step(st, chunk, fresh).0.finished,
        said(anthropic_stream::chunk_step(st, chunk, fresh).1, "text_delta"@, "text"@) == delta_text(
            chunk,
            "content"@,
        ),
        said(anthropic_stream::chunk_step(st, chunk, fresh).1, "thinking_delta"@, "thinking"@)
            == delta_text(chunk, "reasoning_content"@),
{
    let noted = anthropic_stream::noted(st, chunk);
    let (s1, e1) = anthropic_stream::start_step(noted);
    start_says_nothing(noted, "text_delta"@, "text"@);
    start_says_nothing(noted, "thinking_delta"@, "thinking"@);
    if let Some(delta) = choice(chunk).get("delta"@) {
        let thought = delta_text(chunk, "reasoning_content"@);
        let text = delta_text(chunk, "content"@);
        let (s2, e2) = anthropic_stream::thinking_step(s1, thought);
        let (s3, e3) = anthropic_stream::text_step(s2, text);
        let calls = crate::protocol::chat::calls_of(delta);
        let (s4, e4) = anthropic_stream::tools_step(s3, calls, fresh, calls.len());
        assert(anthropic_stream::chunk_step(st, chunk, fresh).1 == e1 + e2 + e3 + e4);
        text_says(s1, thought, true);
        text_says(s2, text, false);
        tools_say_nothing(s3, calls, fresh, calls.len(), "text_delta"@, "text"@);
        tools_say_nothing(s3, calls, fresh, calls.len(), "thinking_delta"@, "thinking"@);
        said_add(e1, e2, "text_delta"@, "text"@);
        said_add(e1 + e2, e3, "text_delta"@, "text"@);
        said_add(e1 + e2 + e3, e4, "text_delta"@, "text"@);
        said_add(e1, e2, "thinking_delta"@, "thinking"@);
        said_add(e1 + e2, e3, "thinking_delta"@, "thinking"@);
        said_add(e1 + e2 + e3, e4, "thinking_delta"@, "thinking"@);
        assert(said(e1 + e2 + e3 + e4, "text_delta"@, "text"@) =~= text);
        assert(said(e1 + e2 + e3 + e4, "thinking_delta"@, "thinking"@) =~= thought);
        tools_stay_open(s3, calls, fresh, calls.len());
    }
}

proof fn tools_stay_open(st: AnthropicV, calls: Seq<Jv>, fresh: Seq<Seq<char>>, n: nat)
    ensures
        anthropic_stream::tools_step(st, calls, fresh, n).0.finished == st.finished,
        anthropic_stream::tools_step(st, calls, fresh, n).0.stop == st.stop,
        anthropic_stream::tools_step(st, calls, fresh, n).0.usage == st.usage,
        st.has_tool ==> anthropic_stream::tools_step(st, calls, fresh, n).0.has_tool,
        st.kind == "tool_use"@ ==> anthropic_stream::tools_step(st, calls, fresh, n).0.kind
            == "tool_use"@,
        n > 0 && (st.kind == "tool_use"@ ==> st.has_tool) ==> anthropic_stream::tools_step(
            st,
            calls,
            fresh,
            n,
        ).0.has_tool,
        n == 0 ==> anthropic_stream::tools_step(st, calls, fresh, n).0 == st,
        (st.kind == "tool_use"@ ==> st.has_tool) ==> (anthropic_stream::tools_step(
            st,
            calls,
            fresh,
            n,
        ).0.kind == "tool_use"@ ==> anthropic_stream::tools_step(st, calls, fresh, n).0.has_tool),
    decreases n,
{
    if n > 0 {
        tools_stay_open(st, calls, fresh, (n - 1) as nat);
    }
}

/// What a stream says is what the upstream says: the texts of all pieces, one after the other,
/// are the texts of the events, and so is the thinking.
pub proof fn all_text_is_said(st: AnthropicV, chunks: Seq<Jv>, fresh: Seq<Seq<Seq<char>>>, n: nat)
    requires
        !st.finished,
        n <= chunks.len(),
        forall|i: int| 0 <= i < chunks.len() ==> well(#[trigger] chunks[i]),
    ensures
        !ran(st, chunks, fresh, n).0.finished,
        said(ran(st, chunks, fresh, n).1, "text_delta"@, "text"@) == delta_texts(
            chunks,
            "content"@,
            n,
        ),
        said(ran(st, chunks, fresh, n).1, "thinking_delta"@, "thinking"@) == delta_texts(
            chunks,
            "reasoning_content"@,
            n,
        ),
    decreases n,
{
    if n > 0 {
        all_text_is_said(st, chunks, fresh, (n - 1) as nat);
        let (before, ev) = ran(st, chunks, fresh, (n - 1) as nat);
        let ids = protocol::row(fresh, n - 1);
        each_piece_is_said(before, chunks[n - 1], ids);
        let more = anthropic_stream::chunk_step(before, chunks[n - 1], ids).1;
        said_add(ev, more, "text_delta"@, "text"@);
        said_add(ev, more, "thinking_delta"@, "thinking"@);
    }
}

/// The last reason that pieces give for the end of the stream, or nothing.
pub open spec fn last_reason(chunks: Seq<Jv>, n: nat) -> Seq<char>
    decreases n,
{
    if n == 0 {
        Seq::empty()
    } else {
        match choice(chunks[n - 1]).get("finish_reason"@) {
            Some(Jv::Str(s)) => if s.len() > 0 {
                s
            } else {
                last_reason(chunks, (n - 1) as nat)
            },
            _ => last_reason(chunks, (n - 1) as nat),
        }
    }
}

/// Whether a piece brings a piece of a tool call.
pub open spec fn calls_a_tool(chunk: Jv) -> bool {
    within(choice(chunk), "delta"@, "tool_calls"@) matches Some(Jv::Arr(s)) && s.len() > 0
}

/// Whether one of the first `n` pieces brings a piece of a tool call.
pub open spec fn any_call(chunks: Seq<Jv>, n: nat) -> bool {
    exists|i: int| 0 <= i < n && calls_a_tool(#[trigger] chunks[i])
}

proof fn spoken_steps_keep(st: AnthropicV, text: Seq<char>)
    ensures
        ({
            let a = anthropic_stream::thinking_step(st, text).0;
            let b = anthropic_stream::text_step(st, text).0;
            &&& a.stop == st.stop && b.stop == st.stop
            &&& a.has_tool == st.has_tool && b.has_tool == st.has_tool
            &&& a.usage == st.usage && b.usage == st.usage
            &&& a.kind == st.kind || a.kind == "thinking"@
            &&& b.kind == st.kind || b.kind == "text"@
        }),
{
}

proof fn one_piece_noted(st: AnthropicV, chunk: Jv, fresh: Seq<Seq<char>>)
    requires
        !st.finished,
        well(chunk),
        st.kind == "tool_use"@ ==> st.has_tool,
    ensures
        ({
            let after = anthropic_stream::chunk_step(st, chunk, fresh).0;
            &&& after.stop == (match choice(chunk).get("finish_reason"@) {
                Some(Jv::Str(s)) => if s.len() > 0 {
                    Some(
                        if s == "length"@ {
                            "max_tokens"@
                        } else if s == "tool_calls"@ {
                            "tool_use"@
                        } else {
                            "end_turn"@
                        },
                    )
                } else {
                    st.stop
                },
                _ => st.stop,
            })
            &&& after.has_tool == (st.has_tool || calls_a_tool(chunk))
            &&& after.kind == "tool_use"@ ==> after.has_tool
            &&& after.usage == (match chunk.get("usage"@) {
                Some(Jv::Obj(u)) => Some(Jv::Obj(u)),
                _ => st.usage,
            })
        }),
{
    words::kind_words();
    words::reason_words();
    let noted = anthropic_stream::noted(st, chunk);
    let (s1, e1) = anthropic_stream::start_step(noted);
    if let Some(delta) = choice(chunk).get("delta"@) {
        let thought = delta_text(chunk, "reasoning_content"@);
        let text = delta_text(chunk, "content"@);
        let s2 = anthropic_stream::thinking_step(s1, thought).0;
        let s3 = anthropic_stream::text_step(s2, text).0;
        spoken_steps_keep(s1, thought);
        spoken_steps_keep(s2, text);
        let calls = crate::protocol::chat::calls_of(delta);
        tools_stay_open(s3, calls, fresh, calls.len());
    }
}

proof fn run_noted(st: AnthropicV, chunks: Seq<Jv>, fresh: Seq<Seq<Seq<char>>>, n: nat)
    requires
        !st.finished,
        st.stop is None,
        !st.has_tool,
        st.kind != "tool_use"@,
        n <= chunks.len(),
        forall|i: int| 0 <= i < chunks.len() ==> well(#[trigger] chunks[i]),
    ensures
        ({
            let after = ran(st, chunks, fresh, n).0;
            let reason = last_reason(chunks, n);
            &&& !after.finished
            &&& after.stop == if reason.len() == 0 {
                None
            } else if reason == "length"@ {
                Some("max_tokens"@)
            } else if reason == "tool_calls"@ {
                Some("tool_use"@)
            } else {
                Some("end_turn"@)
            }
            &&& after.has_tool == any_call(chunks, n)
            &&& after.kind == "tool_use"@ ==> after.has_tool
        }),
    decreases n,
{
    if n > 0 {
        run_noted(st, chunks, fresh, (n - 1) as nat);
        all_text_is_said(st, chunks, fresh, (n - 1) as nat);
        let before = ran(st, chunks, fresh, (n - 1) as nat).0;
        let ids = protocol::row(fresh, n - 1);
        one_piece_noted(before, chunks[n - 1], ids);
        each_piece_is_said(before, chunks[n - 1], ids);
        if any_call(chunks, (n - 1) as nat) {
            let i = choose|i: int| 0 <= i < n - 1 && calls_a_tool(#[trigger] chunks[i]);
            assert(calls_a_tool(chunks[i]));
        }
        if any_call(chunks, n) {
            let i = choose|i: int| 0 <= i < n && calls_a_tool(#[trigger] chunks[i]);
            assert(i < n - 1 ==> any_call(chunks, (n - 1) as nat));
        }
        if calls_a_tool(chunks[n - 1]) {
            assert(any_call(chunks, n));
        }
    }
}

/// The last but one event of a stream gives the reason of its end: the token limit where the
/// upstream says `length`, a tool call where it says `tool_calls` or where it says nothing and
/// has called a tool, and else the end of the turn. The last reason of the upstream counts.
pub proof fn reason_is_told(
    model: Seq<char>,
    id: Seq<char>,
    chunks: Seq<Jv>,
    fresh: Seq<Seq<Seq<char>>>,
)
    requires
        forall|i: int| 0 <= i < chunks.len() ==> well(#[trigger] chunks[i]),
    ensures
        ({
            let st = ran(anthropic_stream::fresh_stream(model, id), chunks, fresh, chunks.len()).0;
            let ev = anthropic_stream::end_step(st).1;
            let reason = last_reason(chunks, chunks.len());
            &&& ev.len() >= 2
            &&& data_of(ev.last(), "message_stop"@) is Some
            &&& data_of(ev[ev.len() - 2], "message_delta"@) matches Some(d) && within(
                d,
                "delta"@,
                "stop_reason"@,
            ) == Some(
                Jv::Str(
                    if reason == "length"@ {
                        "max_tokens"@
                    } else if reason == "tool_calls"@ {
                        "tool_use"@
                    } else if reason.len() > 0 {
                        "end_turn"@
                    } else if any_call(chunks, chunks.len()) {
                        "tool_use"@
                    } else {
                        "end_turn"@
                    },
                ),
            )
        }),
{
    words::reason_words();
    words::event_members();
    words::event_words();
    words::kind_words();
    let start = anthropic_stream::fresh_stream(model, id);
    assert("tool_use"@.len() == 8) by {
        reveal_strlit("tool_use");
    }
    run_noted(start, chunks, fresh, chunks.len());
    assert("length"@.len() == 6 && "tool_calls"@.len() == 10) by {
        reveal_strlit("length");
        reveal_strlit("tool_calls");
    }
    let st = ran(start, chunks, fresh, chunks.len()).0;
    let ev = anthropic_stream::end_step(st).1;
    let reason = last_reason(chunks, chunks.len());
    assert(reason.len() == 0 ==> reason != "length"@ && reason != "tool_calls"@);
    assert(Seq::<char>::empty() != "length"@ && Seq::<char>::empty() != "tool_calls"@);
}

/// The end of a stream tells of the tokens that the upstream has counted last.
pub proof fn tokens_are_told(st: AnthropicV, u: Map<Seq<char>, Jv>, n: int)
    requires
        !st.finished,
        st.usage == Some(Jv::Obj(u)),
        Jv::Obj(u).get("completion_tokens"@) == Some(Jv::Int(n)),
        i64::MIN <= n <= i64::MAX,
    ensures
        ({
            let ev = anthropic_stream::end_step(st).1;
            data_of(ev[ev.len() - 2], "message_delta"@) matches Some(d) && within(
                d,
                "usage"@,
                "output_tokens"@,
            ) == Some(Jv::Int(n))
        }),
{
    words::event_members();
    words::event_words();
}

/// The first event of a stream announces an assistant's message under the identifier of the
/// upstream and under the model that was asked for, with the input tokens counted so far.
pub proof fn first_event_announces(
    model: Seq<char>,
    id: Seq<char>,
    chunk: Jv,
    fresh: Seq<Seq<char>>,
)
    requires
        well(chunk),
    ensures
        ({
            let ev = anthropic_stream::chunk_step(
                anthropic_stream::fresh_stream(model, id),
                chunk,
                fresh,
            ).1;
            &&& ev.len() > 0
            &&& data_of(ev[0], "message_start"@) matches Some(d) && {
                let m = d.get("message"@)->0;
                &&& d.get("message"@) is Some
                &&& holds(m, "type"@, "message"@)
                &&& holds(m, "role"@, "assistant"@)
                &&& holds(m, "model"@, model)
                &&& chunk.get("id"@) matches Some(Jv::Str(own)) ==> own.len() > 0 ==> holds(
                    m,
                    "id"@,
                    own,
                )
                &&& chunk.get("id"@) is None ==> holds(m, "id"@, id)
                &&& m.get("content"@) == Some(Jv::Arr(Seq::empty()))
                &&& m.get("stop_reason"@) == Some(Jv::Null)
                &&& within(chunk, "usage"@, "prompt_tokens"@) matches Some(Jv::Int(n)) ==> i64::MIN
                    <= n <= i64::MAX ==> within(m, "usage"@, "input_tokens"@) == Some(Jv::Int(n))
                &&& chunk.get("usage"@) is None ==> within(m, "usage"@, "input_tokens"@) == Some(
                    Jv::Int(0),
                )
            }
        }),
{
    words::event_members();
    words::event_words();
    let st = anthropic_stream::fresh_stream(model, id);
    let noted = anthropic_stream::noted(st, chunk);
    let e1 = anthropic_stream::start_step(noted).1;
    let ev = anthropic_stream::chunk_step(st, chunk, fresh).1;
    assert(e1.len() == 1);
    assert(ev[0] == e1[0]);
}

/// A new tool call opens a block under its identifier and its name, and its arguments are said
/// as they are.
pub proof fn calls_are_said(
    st: AnthropicV,
    call: Jv,
    fresh: Seq<char>,
    id: Seq<char>,
    name: Seq<char>,
)
    requires
        call.get("id"@) == Some(Jv::Str(id)),
        id.len() > 0,
        id != st.tool_id,
        within(call, "function"@, "name"@) == Some(Jv::Str(name)),
    ensures
        ({
            let (after, ev) = anthropic_stream::tool_step(st, call, fresh);
            let arguments = within(call, "function"@, "arguments"@);
            let at = if arguments is Some && arguments->0 is Str && arguments->0->Str_0.len() > 0 {
                ev.len() - 2
            } else {
                ev.len() - 1
            };
            &&& at >= 0
            &&& data_of(ev[at], "content_block_start"@) matches Some(d) && {
                let b = d.get("content_block"@)->0;
                &&& d.get("content_block"@) is Some
                &&& d.get("index"@) == Some(Jv::Int(after.index))
                &&& holds(b, "type"@, "tool_use"@)
                &&& holds(b, "id"@, id)
                &&& holds(b, "name"@, name)
                &&& b.get("input"@) == Some(Jv::Obj(Map::empty()))
            }
            &&& arguments matches Some(Jv::Str(s)) ==> s.len() > 0 ==> piece(
                ev.last(),
                "input_json_delta"@,
                "partial_json"@,
            ) == s && (data_of(ev.last(), "content_block_delta"@) matches Some(d) && d.get("index"@)
                == Some(Jv::Int(after.index)))
        }),
{
    words::event_members();
    words::event_words();
    words::delta_words();
}

/// More arguments of the call that is open are said in its block, as they are.
pub proof fn arguments_are_said(st: AnthropicV, call: Jv, fresh: Seq<char>, s: Seq<char>)
    requires
        st.kind == "tool_use"@,
        call.get("id"@) is None,
        within(call, "function"@, "arguments"@) == Some(Jv::Str(s)),
        s.len() > 0,
    ensures
        ({
            let ev = anthropic_stream::tool_step(st, call, fresh).1;
            &&& ev.len() == 1
            &&& piece(ev[0], "input_json_delta"@, "partial_json"@) == s
            &&& data_of(ev[0], "content_block_delta"@) matches Some(d) && d.get("index"@) == Some(
                Jv::Int(st.index),
            )
        }),
{
    words::event_members();
    words::event_words();
    words::delta_words();
}

/// An error of the upstream ends the stream with an event that tells its kind and its words.
pub proof fn errors_are_told(st: AnthropicV, chunk: Jv, fresh: Seq<Seq<char>>, error: Jv, s: Seq<char>)
    requires
        !st.finished,
        chunk.get("error"@) == Some(error),
        error.get("message"@) == Some(Jv::Str(s)),
        s.len() > 0,
    ensures
        ({
            let (after, ev) = anthropic_stream::chunk_step(st, chunk, fresh);
            &&& after.finished
            &&& ev.len() > 0
            &&& data_of(ev.last(), "error"@) matches Some(d) && {
                &&& within(d, "error"@, "message"@) == Some(Jv::Str(s))
                &&& error.get("type"@) matches Some(Jv::Str(t)) ==> t.len() > 0 ==> within(
                    d,
                    "error"@,
                    "type"@,
                ) == Some(Jv::Str(t))
                &&& error.get("type"@) is None ==> within(d, "error"@, "type"@) == Some(
                    Jv::Str("api_error"@),
                )
            }
        }),
{
    words::event_members();
    words::event_words();
}

/// A block that is done is closed; a call that has got no arguments gets an empty object first.
pub proof fn blocks_are_closed(st: AnthropicV)
    requires
        st.open,
    ensures
        ({
            let (after, ev) = anthropic_stream::close_step(st);
            &&& !after.open
            &&& ev.len() >= 1
            &&& data_of(ev.last(), "content_block_stop"@) matches Some(d) && d.get("index"@) == Some(
                Jv::Int(st.index),
            )
            &&& st.kind == "tool_use"@ && !st.saw_arguments ==> ev.len() == 2 && piece(
                ev[0],
                "input_json_delta"@,
                "partial_json"@,
            ) == "{}"@
            &&& st.kind != "tool_use"@ || st.saw_arguments ==> ev.len() == 1
        }),
{
    words::event_members();
    words::event_words();
    words::delta_words();
}

} // verus!
