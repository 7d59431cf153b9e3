//! The stream of an upstream that speaks Messages or Responses, as a chat stream.

use crate::json::Jv;
use crate::json;
use crate::laws::words;
use crate::laws::{holds, is_kind, list_in, within};
use crate::protocol::Fv;
use crate::protocol::anthropic_outbound::InboundV;
use crate::protocol::anthropic_outbound;
use crate::protocol::chunks::NewIds;
use crate::protocol::chunks;
use crate::protocol::responses;
use crate::protocol::responses_outbound::OutboundV;
use crate::protocol::responses_outbound;
use crate::protocol;
use crate::text;
use vstd::prelude::*;
use vstd::string::*;

verus! {

// -------------------------------------------------------------- pieces of chunks

/// The first choice of a chunk.
pub open spec fn choice(f: Fv) -> Jv {
    match f {
        Fv::Data(d) => if list_in(d, "choices"@).len() > 0 {
            list_in(d, "choices"@)[0]
        } else {
            Jv::Null
        },
        _ => Jv::Null,
    }
}

/// The text under a member of the delta of a chunk.
pub open spec fn delta_text(f: Fv, key: Seq<char>) -> Seq<char> {
    match within(choice(f), "delta"@, key) {
        Some(Jv::Str(s)) => s,
        _ => Seq::empty(),
    }
}

/// The call in the delta of a chunk.
pub open spec fn call_in(f: Fv) -> Jv {
    match choice(f).get("delta"@) {
        Some(d) => if list_in(d, "tool_calls"@).len() > 0 {
            list_in(d, "tool_calls"@)[0]
        } else {
            Jv::Null
        },
        None => Jv::Null,
    }
}

/// The arguments that a chunk adds to the call with that number.
pub open spec fn arguments_in(f: Fv, k: int) -> Seq<char> {
    if call_in(f).get("index"@) == Some(Jv::Int(k)) {
        match within(call_in(f), "function"@, "arguments"@) {
            Some(Jv::Str(s)) => s,
            _ => Seq::empty(),
        }
    } else {
        Seq::empty()
    }
}

/// What chunks say under a member of their deltas, one after the other.
pub open spec fn said(list: Seq<Fv>, key: Seq<char>) -> Seq<char>
    decreases list.len(),
{
    if list.len() == 0 {
        Seq::empty()
    } else {
        said(list.drop_last(), key) + delta_text(list.last(), key)
    }
}

/// The arguments that chunks add to the call with that number, one after the other.
pub open spec fn called(list: Seq<Fv>, k: int) -> Seq<char>
    decreases list.len(),
{
    if list.len() == 0 {
        Seq::empty()
    } else {
        called(list.drop_last(), k) + arguments_in(list.last(), k)
    }
}

proof fn said_push(list: Seq<Fv>, f: Fv, key: Seq<char>, k: int)
    ensures
        said(list.push(f), key) == said(list, key) + delta_text(f, key),
        called(list.push(f), k) == called(list, k) + arguments_in(f, k),
{
    assert(list.push(f).drop_last() =~= list);
}

proof fn said_add(a: Seq<Fv>, b: Seq<Fv>, key: Seq<char>, k: int)
    ensures
        said(a + b, key) == said(a, key) + said(b, key),
        called(a + b, k) == called(a, k) + called(b, k),
    decreases b.len(),
{
    if b.len() == 0 {
        assert(a + b =~= a);
        assert(said(a, key) + said(b, key) =~= said(a, key));
        assert(called(a, k) + called(b, k) =~= called(a, k));
    } else {
        said_add(a, b.drop_last(), key, k);
        assert((a + b).drop_last() =~= a + b.drop_last());
        assert((a + b).last() == b.last());
        assert(said(a + b, key) =~= said(a, key) + said(b, key));
        assert(called(a + b, k) =~= called(a, k) + called(b, k));
    }
}

proof fn said_one(f: Fv, key: Seq<char>, k: int)
    ensures
        said(seq![f], key) == delta_text(f, key),
        called(seq![f], k) == arguments_in(f, k),
{
    let none = Seq::<Fv>::empty();
    said_push(none, f, key, k);
    assert(none.push(f) =~= seq![f]);
    assert(said(none, key) + delta_text(f, key) =~= delta_text(f, key));
    assert(called(none, k) + arguments_in(f, k) =~= arguments_in(f, k));
}

proof fn start_says_nothing(w: chunks::WriterV, id: Seq<char>, key: Seq<char>, k: int)
    requires
        key == "content"@ || key == "reasoning_content"@,
    ensures
        said(chunks::start_step(w, id).1, key) == Seq::<char>::empty(),
        called(chunks::start_step(w, id).1, k) == Seq::<char>::empty(),
{
    words::chunk_words();
    reveal_strlit("");
    if !w.started {
        let ev = chunks::start_step(w, id).1;
        said_one(ev[0], key, k);
        assert(ev =~= seq![ev[0]]);
        assert(delta_text(ev[0], key) =~= Seq::empty());
    }
}

/// The first chunk of a stream says that the assistant speaks, under the model that was asked
/// for; every chunk carries the identifier of the stream, its time and its model.
pub proof fn chunks_are_stamped(w: chunks::WriterV, fresh: Seq<char>, delta: Jv, usage: Jv)
    ensures
        ({
            let (after, ev) = chunks::start_step(w, fresh);
            &&& after.started
            &&& after.model == w.model && after.created == w.created
            &&& w.id.len() > 0 ==> after.id == w.id
            &&& !w.started && w.id.len() == 0 ==> after.id == fresh
            &&& !w.started ==> ev.len() == 1 && within(choice(ev[0]), "delta"@, "role"@) == Some(
                Jv::Str("assistant"@),
            ) && (ev[0] matches Fv::Data(d) && holds(d, "id"@, after.id) && holds(
                d,
                "model"@,
                w.model,
            ))
            &&& w.started ==> ev.len() == 0
        }),
        chunks::delta_chunk(w, delta) matches Fv::Data(d) && {
            &&& holds(d, "id"@, w.id)
            &&& holds(d, "object"@, "chat.completion.chunk"@)
            &&& holds(d, "model"@, w.model)
            &&& d.get("created"@) == Some(Jv::Int(w.created))
        },
        choice(chunks::delta_chunk(w, delta)).get("delta"@) == Some(delta),
        choice(chunks::delta_chunk(w, delta)).get("index"@) == Some(Jv::Int(0)),
        choice(chunks::delta_chunk(w, delta)).get("finish_reason"@) == Some(Jv::Null),
        chunks::usage_chunk(w, usage) matches Fv::Data(d) && {
            &&& d.get("usage"@) == Some(usage)
            &&& d.get("choices"@) == Some(Jv::Arr(Seq::empty()))
            &&& holds(d, "id"@, w.id)
            &&& holds(d, "model"@, w.model)
        },
{
    words::chunk_words();
}

// --------------------------------------------------------------- from Messages

/// The number of the block that an event is about.
pub open spec fn number(event: Jv) -> int {
    match event.get("index"@) {
        Some(Jv::Int(n)) => if i64::MIN <= n <= i64::MAX {
            n
        } else {
            0
        },
        _ => 0,
    }
}

/// Whether an event adds to a block.
pub open spec fn adds(event: Jv, kind: Seq<char>) -> bool {
    is_kind(event, "content_block_delta"@) && (event.get("delta"@) matches Some(d) && is_kind(d, kind))
}

/// The text that an event adds to a block.
pub open spec fn added(event: Jv, kind: Seq<char>, field: Seq<char>) -> Seq<char> {
    if adds(event, kind) {
        match within(event, "delta"@, field) {
            Some(Jv::Str(s)) => s,
            _ => Seq::empty(),
        }
    } else {
        Seq::empty()
    }
}

/// Whether an event is as the Messages protocol has it: it has a kind, and what it adds is a
/// text.
pub open spec fn proper(event: Jv) -> bool {
    &&& event.get("type"@) matches Some(Jv::Str(_))
    &&& is_kind(event, "content_block_delta"@) ==> (within(event, "delta"@, "type"@) matches Some(
        Jv::Str(_),
    ))
    &&& event.get("delta"@) matches Some(d) ==> {
        &&& d.get("text"@) matches Some(t) ==> t is Str
        &&& d.get("thinking"@) matches Some(t) ==> t is Str
        &&& d.get("partial_json"@) matches Some(t) ==> t is Str
    }
}

proof fn said_of(st: InboundV, id: Seq<char>, delta: Jv, key: Seq<char>, k: int)
    requires
        key == "content"@ || key == "reasoning_content"@,
    ensures
        ({
            let (after, ev) = anthropic_outbound::said(st, id, delta);
            let f = chunks::delta_chunk(after.writer, delta);
            &&& said(ev, key) == delta_text(f, key)
            &&& called(ev, k) == arguments_in(f, k)
            &&& choice(f).get("delta"@) == Some(delta)
        }),
{
    words::chunk_words();
    let (after, ev) = anthropic_outbound::opened(st, id);
    let f = chunks::delta_chunk(after.writer, delta);
    start_says_nothing(st.writer, id, key, k);
    said_push(ev, f, key, k);
    assert(said(ev, key) + delta_text(f, key) =~= delta_text(f, key));
    assert(called(ev, k) + arguments_in(f, k) =~= arguments_in(f, k));
}

/// Each event of a Messages stream says its text as content and its thinking as thinking, as
/// they are, and no other event says any.
pub proof fn each_event_is_said(st: InboundV, event: Jv, ids: NewIds)
    requires
        !st.writer.finished,
    ensures
        proper(event) && !is_kind(event, "error"@) ==> {
            let ev = anthropic_outbound::event_step(st, event, ids).1;
            &&& said(ev, "content"@) == added(event, "text_delta"@, "text"@)
            &&& said(ev, "reasoning_content"@) == added(event, "thinking_delta"@, "thinking"@)
        },
{
    words::chunk_words();
    words::event_words();
    words::delta_words();
    let t = event.get("type"@)->0->Str_0;
    let kind = text::lowercase(t);
    assert(proper(event) ==> text::lowercase(protocol::loose_field(event, "type"@)) == kind);
    start_says_nothing(st.writer, ids.id, "content"@, 0);
    start_says_nothing(st.writer, ids.id, "reasoning_content"@, 0);
    if kind == "content_block_delta"@ {
        let delta = event.field("delta"@);
        let text = protocol::loose_field(delta, "text"@);
        let thought = protocol::loose_field(delta, "thinking"@);
        let partial = protocol::loose_field(delta, "partial_json"@);
        let a = Jv::obj().put("content"@, Jv::Str(text));
        let b = Jv::obj().put("reasoning_content"@, Jv::Str(thought));
        let index = anthropic_outbound::block_number(event);
        let c = chunks::arguments_delta(index as int, partial);
        let grown = InboundV { tools: st.tools.insert(index, true), ..st };
        said_of(st, ids.id, a, "content"@, 0);
        said_of(st, ids.id, a, "reasoning_content"@, 0);
        said_of(st, ids.id, b, "content"@, 0);
        said_of(st, ids.id, b, "reasoning_content"@, 0);
        said_of(grown, ids.id, c, "content"@, 0);
        said_of(grown, ids.id, c, "reasoning_content"@, 0);
        assert(text.len() == 0 ==> text =~= Seq::empty());
        assert(thought.len() == 0 ==> thought =~= Seq::empty());
    } else if kind == "content_block_start"@ {
        block_says_no_text(st, event, ids);
    } else if kind == "content_block_stop"@ {
        let index = anthropic_outbound::block_number(event);
        let f = chunks::delta_chunk(st.writer, chunks::arguments_delta(index as int, "{}"@));
        said_one(f, "content"@, 0);
        said_one(f, "reasoning_content"@, 0);
    } else if kind == "message_start"@ {
        start_says_nothing(anthropic_outbound::begun(st, event).writer, ids.id, "content"@, 0);
        start_says_nothing(anthropic_outbound::begun(st, event).writer, ids.id, "reasoning_content"@, 0);
    } else if kind == "message_stop"@ {
        complete_says_nothing(st, ids.id);
    }
}

proof fn block_says_no_text(st: InboundV, event: Jv, ids: NewIds)
    ensures
        said(anthropic_outbound::block_step(st, event, ids).1, "content"@) == Seq::<char>::empty(),
        said(anthropic_outbound::block_step(st, event, ids).1, "reasoning_content"@) == Seq::<char>::empty(),
{
    words::chunk_words();
    let block = event.field("content_block"@);
    let index = anthropic_outbound::block_number(event);
    let known = InboundV { tools: st.tools.insert(index, false), ..st };
    let d = chunks::call_delta(
        index as int,
        protocol::or_else(protocol::loose_field(block, "id"@), ids.call),
        protocol::loose_field(block, "name"@),
    );
    said_of(known, ids.id, d, "content"@, 0);
    said_of(known, ids.id, d, "reasoning_content"@, 0);
    let (mid, ev) = anthropic_outbound::said(known, ids.id, d);
    if let Some(Jv::Obj(m)) = block.get("input"@) {
        let f = chunks::delta_chunk(
            mid.writer,
            chunks::arguments_delta(index as int, protocol::loose(Jv::Obj(m))),
        );
        said_push(ev, f, "content"@, 0);
        said_push(ev, f, "reasoning_content"@, 0);
        assert(said(ev, "content"@) + delta_text(f, "content"@) =~= Seq::empty());
        assert(said(ev, "reasoning_content"@) + delta_text(f, "reasoning_content"@) =~= Seq::empty());
    }
}

proof fn complete_says_nothing(st: InboundV, id: Seq<char>)
    ensures
        said(anthropic_outbound::complete_step(st, id).1, "content"@) == Seq::<char>::empty(),
        said(anthropic_outbound::complete_step(st, id).1, "reasoning_content"@) == Seq::<char>::empty(),
{
    words::chunk_words();
    if !st.writer.finished {
        let ended = InboundV {
            writer: chunks::WriterV { finished: true, ..st.writer },
            ..st
        };
        start_says_nothing(ended.writer, id, "content"@, 0);
        start_says_nothing(ended.writer, id, "reasoning_content"@, 0);
        let (after, ev) = anthropic_outbound::opened(ended, id);
        let f = chunks::finish_chunk(after.writer, anthropic_outbound::reason_of(st));
        let u = chunks::usage_chunk(after.writer, anthropic_outbound::usage_of(st));
        said_push(ev, f, "content"@, 0);
        said_push(ev.push(f), u, "content"@, 0);
        said_push(ev.push(f).push(u), Fv::Done, "content"@, 0);
        said_push(ev, f, "reasoning_content"@, 0);
        said_push(ev.push(f), u, "reasoning_content"@, 0);
        said_push(ev.push(f).push(u), Fv::Done, "reasoning_content"@, 0);
        assert(said(ev.push(f).push(u).push(Fv::Done), "content"@) =~= Seq::empty());
        assert(said(ev.push(f).push(u).push(Fv::Done), "reasoning_content"@) =~= Seq::empty());
    }
}

/// A stream after the first `n` events.
pub open spec fn heard(st: InboundV, events: Seq<Jv>, ids: Seq<NewIds>, n: nat) -> (InboundV, Seq<Fv>)
    decreases n,
{
    if n == 0 {
        (st, Seq::empty())
    } else {
        let (before, ev) = heard(st, events, ids, (n - 1) as nat);
        let (after, more) = anthropic_outbound::event_step(before, events[n - 1], ids[n - 1]);
        (after, ev + more)
    }
}

/// Whether an event neither ends the stream nor tells of an error.
pub open spec fn goes_on(event: Jv) -> bool {
    proper(event) && !is_kind(event, "error"@) && !is_kind(event, "message_stop"@)
}

/// The texts that the first `n` events add to blocks, one after the other.
pub open spec fn all_added(events: Seq<Jv>, kind: Seq<char>, field: Seq<char>, n: nat) -> Seq<char>
    decreases n,
{
    if n == 0 {
        Seq::empty()
    } else {
        all_added(events, kind, field, (n - 1) as nat) + added(events[n - 1], kind, field)
    }
}

/// What the chat stream says is what the Messages stream says: the texts of all its events, one
/// after the other, are the texts of the chunks, and so is the thinking.
pub proof fn all_text_comes_through(st: InboundV, events: Seq<Jv>, ids: Seq<NewIds>, n: nat)
    requires
        !st.writer.finished,
        n <= events.len(),
        events.len() == ids.len(),
    ensures
        (forall|i: int| 0 <= i < events.len() ==> goes_on(#[trigger] events[i])) ==> {
            &&& !heard(st, events, ids, n).0.writer.finished
            &&& said(heard(st, events, ids, n).1, "content"@) == all_added(
                events,
                "text_delta"@,
                "text"@,
                n,
            )
            &&& said(heard(st, events, ids, n).1, "reasoning_content"@) == all_added(
                events,
                "thinking_delta"@,
                "thinking"@,
                n,
            )
        },
    decreases n,
{
    if n > 0 && (forall|i: int| 0 <= i < events.len() ==> goes_on(#[trigger] events[i])) {
        all_text_comes_through(st, events, ids, (n - 1) as nat);
        let (before, ev) = heard(st, events, ids, (n - 1) as nat);
        assert(goes_on(events[n - 1]));
        each_event_is_said(before, events[n - 1], ids[n - 1]);
        let more = anthropic_outbound::event_step(before, events[n - 1], ids[n - 1]).1;
        said_add(ev, more, "content"@, 0);
        said_add(ev, more, "reasoning_content"@, 0);
    }
}

/// A tool block is announced as a call under its number, with its identifier and its name.
pub proof fn tool_blocks_are_announced(st: InboundV, event: Jv, ids: NewIds, block: Jv)
    requires
        !st.writer.finished,
        event.get("content_block"@) == Some(block),
    ensures
        is_kind(event, "content_block_start"@) && is_kind(block, "tool_use"@) ==> ({
            let (after, ev) = anthropic_outbound::event_step(st, event, ids);
            let filled = block.get("input"@) matches Some(Jv::Obj(m)) && m != Map::<Seq<char>, Jv>::empty();
            let at = if filled {
                ev.len() - 2
            } else {
                ev.len() - 1
            };
            &&& at >= 0
            &&& call_in(ev[at]).get("index"@) == Some(Jv::Int(number(event)))
            &&& holds(call_in(ev[at]), "type"@, "function"@)
            &&& block.get("id"@) matches Some(Jv::Str(id)) ==> id.len() > 0 ==> holds(
                call_in(ev[at]),
                "id"@,
                id,
            )
            &&& block.get("name"@) matches Some(Jv::Str(name)) ==> within(
                call_in(ev[at]),
                "function"@,
                "name"@,
            ) == Some(Jv::Str(name))
            &&& filled ==> arguments_in(ev.last(), number(event)) == json::json_text_of(
                block.get("input"@)->0,
            )
            &&& after.tools.contains_key(number(event) as i64)
            &&& after.tools[number(event) as i64] == filled
        }),
{
    words::chunk_words();
    words::event_words();
}

/// Each event of a Messages stream that goes on gives the call with that number the arguments
/// that it brings for its block, and no other.
proof fn arguments_of_event(st: InboundV, event: Jv, ids: NewIds, k: int)
    requires
        !st.writer.finished,
        proper(event),
        i64::MIN <= k <= i64::MAX,
        !is_kind(event, "error"@),
        !is_kind(event, "message_stop"@),
        !(is_kind(event, "content_block_start"@) && number(event) == k),
        !(is_kind(event, "content_block_stop"@) && number(event) == k),
    ensures
        ({
            let (after, ev) = anthropic_outbound::event_step(st, event, ids);
            let brings = if number(event) == k {
                added(event, "input_json_delta"@, "partial_json"@)
            } else {
                Seq::empty()
            };
            &&& !after.writer.finished
            &&& called(ev, k) == brings
            &&& st.tools.contains_key(k as i64) ==> after.tools.contains_key(k as i64)
                && after.tools[k as i64] == (st.tools[k as i64] || brings.len() > 0)
        }),
{
    words::chunk_words();
    words::event_words();
    words::delta_words();
    let kind = text::lowercase(event.get("type"@)->0->Str_0);
    start_says_nothing(st.writer, ids.id, "content"@, k);
    let index = anthropic_outbound::block_number(event);
    assert(index as int == number(event));
    if kind == "content_block_delta"@ {
        let delta = event.field("delta"@);
        let text = protocol::loose_field(delta, "text"@);
        let thought = protocol::loose_field(delta, "thinking"@);
        let partial = protocol::loose_field(delta, "partial_json"@);
        let c = chunks::arguments_delta(index as int, partial);
        let grown = InboundV { tools: st.tools.insert(index, true), ..st };
        said_of(st, ids.id, Jv::obj().put("content"@, Jv::Str(text)), "content"@, k);
        said_of(st, ids.id, Jv::obj().put("reasoning_content"@, Jv::Str(thought)), "content"@, k);
        said_of(grown, ids.id, c, "content"@, k);
        assert(partial.len() == 0 ==> partial =~= Seq::empty());
    } else if kind == "content_block_start"@ {
        let block = event.field("content_block"@);
        let known = InboundV { tools: st.tools.insert(index, false), ..st };
        let d = chunks::call_delta(
            index as int,
            protocol::or_else(protocol::loose_field(block, "id"@), ids.call),
            protocol::loose_field(block, "name"@),
        );
        said_of(known, ids.id, d, "content"@, k);
        let (mid, ev) = anthropic_outbound::said(known, ids.id, d);
        if let Some(Jv::Obj(m)) = block.get("input"@) {
            let f = chunks::delta_chunk(
                mid.writer,
                chunks::arguments_delta(index as int, protocol::loose(Jv::Obj(m))),
            );
            said_push(ev, f, "content"@, k);
            assert(called(ev, k) + arguments_in(f, k) =~= Seq::empty());
        }
    } else if kind == "content_block_stop"@ {
        let f = chunks::delta_chunk(st.writer, chunks::arguments_delta(index as int, "{}"@));
        said_one(f, "content"@, k);
    } else if kind == "message_start"@ {
        start_says_nothing(anthropic_outbound::begun(st, event).writer, ids.id, "content"@, k);
    }
}

/// The arguments that the first `n` events bring for the block with that number.
pub open spec fn all_arguments(events: Seq<Jv>, k: int, n: nat) -> Seq<char>
    decreases n,
{
    if n == 0 {
        Seq::empty()
    } else {
        all_arguments(events, k, (n - 1) as nat) + (if number(events[n - 1]) == k {
            added(events[n - 1], "input_json_delta"@, "partial_json"@)
        } else {
            Seq::empty()
        })
    }
}

/// Whether an event goes on and neither starts nor stops the block with that number.
pub open spec fn inside(event: Jv, k: int) -> bool {
    &&& goes_on(event)
    &&& !(is_kind(event, "content_block_start"@) && number(event) == k)
    &&& !(is_kind(event, "content_block_stop"@) && number(event) == k)
}

/// Between the start and the stop of a tool block, the arguments that the chunks give its call,
/// one after the other, are those that the events bring, one after the other.
pub proof fn arguments_come_through(st: InboundV, events: Seq<Jv>, ids: Seq<NewIds>, k: int, n: nat)
    requires
        !st.writer.finished,
        i64::MIN <= k <= i64::MAX,
        st.tools.contains_key(k as i64),
        !st.tools[k as i64],
        n <= events.len(),
        events.len() == ids.len(),
    ensures
        (forall|i: int| 0 <= i < events.len() ==> inside(#[trigger] events[i], k)) ==> {
            let (after, ev) = heard(st, events, ids, n);
            &&& !after.writer.finished
            &&& called(ev, k) == all_arguments(events, k, n)
            &&& after.tools.contains_key(k as i64)
            &&& after.tools[k as i64] == (all_arguments(events, k, n).len() > 0)
        },
    decreases n,
{
    if n > 0 && (forall|i: int| 0 <= i < events.len() ==> inside(#[trigger] events[i], k)) {
        arguments_come_through(st, events, ids, k, (n - 1) as nat);
        let (before, ev) = heard(st, events, ids, (n - 1) as nat);
        assert(inside(events[n - 1], k));
        arguments_of_event(before, events[n - 1], ids[n - 1], k);
        let more = anthropic_outbound::event_step(before, events[n - 1], ids[n - 1]).1;
        said_add(ev, more, "content"@, k);
    }
}

/// The stop of a tool block whose call has got arguments says nothing more; one that has got
/// none gets an empty object.
pub proof fn stop_fills_in(st: InboundV, event: Jv, ids: NewIds)
    requires
        !st.writer.finished,
        st.tools.contains_key(number(event) as i64),
    ensures
        is_kind(event, "content_block_stop"@) ==> {
            let ev = anthropic_outbound::event_step(st, event, ids).1;
            called(ev, number(event)) == if st.tools[number(event) as i64] {
                Seq::empty()
            } else {
                "{}"@
            }
        },
{
    words::chunk_words();
    words::event_words();
    let f = chunks::delta_chunk(
        st.writer,
        chunks::arguments_delta(anthropic_outbound::block_number(event) as int, "{}"@),
    );
    said_one(f, "content"@, number(event));
}

/// The reason that an event gives for the end, in its own words.
pub open spec fn stop_word(event: Jv) -> Seq<char> {
    if is_kind(event, "message_delta"@) {
        match within(event, "delta"@, "stop_reason"@) {
            Some(Jv::Str(s)) => text::lowercase(text::trimmed(s)),
            _ => Seq::empty(),
        }
    } else {
        Seq::empty()
    }
}

/// The chunk that ends a chat stream names the reason in its own words: `length` for the token
/// limit, `tool_calls` for a tool, and `stop` for all else; where the upstream gives no reason,
/// it is a tool where one was called.
pub proof fn reason_comes_through(st: InboundV, event: Jv, ids: NewIds, id: Seq<char>)
    requires
        !st.writer.finished,
        within(event, "delta"@, "stop_reason"@) matches Some(Jv::Str(_)),
    ensures
        is_kind(event, "message_delta"@) && stop_word(event).len() > 0 ==> {
            let after = anthropic_outbound::event_step(st, event, ids).0;
            let ev = anthropic_outbound::complete_step(after, id).1;
            &&& ev.len() >= 3
            &&& choice(ev[ev.len() - 3]).get("finish_reason"@) == Some(
                Jv::Str(
                    if stop_word(event) == "max_tokens"@ {
                        "length"@
                    } else if stop_word(event) == "tool_use"@ {
                        "tool_calls"@
                    } else {
                        "stop"@
                    },
                ),
            )
        },
        st.finish is None ==> {
            let ev = anthropic_outbound::complete_step(st, id).1;
            &&& ev.len() >= 3
            &&& choice(ev[ev.len() - 3]).get("finish_reason"@) == Some(
                Jv::Str(
                    if st.tools == Map::<i64, bool>::empty() {
                        "stop"@
                    } else {
                        "tool_calls"@
                    },
                ),
            )
            &&& ev.last() == Fv::Done
        },
{
    words::chunk_words();
    words::event_words();
    words::reason_words();
}

/// Only an event with a reason changes the reason of the end.
pub proof fn reason_stays(st: InboundV, event: Jv, ids: NewIds)
    ensures
        proper(event) && !is_kind(event, "message_delta"@) ==> anthropic_outbound::event_step(st, event, ids).0.finish
            == st.finish,
{
    words::event_words();
}

/// Counts that fit into a machine word.
pub open spec fn counted(j: Jv, key: Seq<char>) -> int {
    match j.get(key) {
        Some(Jv::Int(n)) => if i64::MIN <= n <= i64::MAX {
            n
        } else {
            0
        },
        _ => 0,
    }
}

/// The tokens of the whole stream are told before its end: the input with what came from and
/// went into the cache, the output, and their sum.
pub proof fn tokens_come_through(
    st: InboundV,
    start: Jv,
    end: Jv,
    ids: NewIds,
    id: Seq<char>,
    u: Map<Seq<char>, Jv>,
    o: int,
)
    requires
        !st.writer.finished,
        within(start, "message"@, "usage"@) == Some(Jv::Obj(u)),
        within(end, "usage"@, "output_tokens"@) == Some(Jv::Int(o)),
        0 <= o <= 0x1000_0000_0000,
        0 <= counted(Jv::Obj(u), "input_tokens"@) <= 0x1000_0000_0000,
        0 <= counted(Jv::Obj(u), "cache_read_input_tokens"@) <= 0x1000_0000_0000,
        0 <= counted(Jv::Obj(u), "cache_creation_input_tokens"@) <= 0x1000_0000_0000,
    ensures
        is_kind(start, "message_start"@) && is_kind(end, "message_delta"@) ==> {
            let mid = anthropic_outbound::event_step(st, start, ids).0;
            let last = anthropic_outbound::event_step(mid, end, ids).0;
            let ev = anthropic_outbound::complete_step(last, id).1;
            let prompt = counted(Jv::Obj(u), "input_tokens"@) + counted(
                Jv::Obj(u),
                "cache_read_input_tokens"@,
            ) + counted(Jv::Obj(u), "cache_creation_input_tokens"@);
            &&& ev.len() >= 3
            &&& ev[ev.len() - 2] matches Fv::Data(d) && {
                &&& within(d, "usage"@, "prompt_tokens"@) == Some(Jv::Int(prompt))
                &&& within(d, "usage"@, "completion_tokens"@) == Some(Jv::Int(o))
                &&& within(d, "usage"@, "total_tokens"@) == Some(Jv::Int(prompt + o))
            }
        },
{
    words::chunk_words();
    words::event_words();
    words::count_words();
}

/// An error of the upstream ends the stream with its words.
pub proof fn errors_come_through(st: InboundV, event: Jv, ids: NewIds, s: Seq<char>)
    requires
        !st.writer.finished,
        within(event, "error"@, "message"@) == Some(Jv::Str(s)),
        text::trimmed(s).len() > 0,
    ensures
        is_kind(event, "error"@) ==> {
            let (after, ev) = anthropic_outbound::event_step(st, event, ids);
            &&& after.writer.finished
            &&& ev.len() == 2
            &&& ev[0] matches Fv::Data(d) && within(d, "error"@, "message"@) == Some(Jv::Str(s))
            &&& ev[1] == Fv::Done
        },
{
    words::chunk_words();
    words::event_words();
    assert(s.len() > 0) by {
        if s.len() == 0 {
            assert(text::trimmed(s).len() == 0);
        }
    }
    assert(event.get("error"@)->0.truthy());
}

/// The chunks carry the identifier of the upstream's message.
pub proof fn identifier_comes_through(st: InboundV, event: Jv, ids: NewIds, id: Seq<char>)
    requires
        !st.writer.finished,
        within(event, "message"@, "id"@) == Some(Jv::Str(id)),
        id.len() > 0,
    ensures
        is_kind(event, "message_start"@) ==> anthropic_outbound::event_step(st, event, ids).0.writer.id
            == id,
{
    words::event_words();
}

// -------------------------------------------------------------- from Responses

/// Whether an event says something to be read.
pub open spec fn speaks(event: Jv) -> bool {
    is_kind(event, "response.output_text.delta"@) || is_kind(event, "response.refusal.delta"@)
}

/// Whether an event thinks aloud.
pub open spec fn muses(event: Jv) -> bool {
    is_kind(event, "response.reasoning_summary_text.delta"@) || is_kind(
        event,
        "response.reasoning_text.delta"@,
    )
}

/// The text that an event brings.
pub open spec fn brought(event: Jv) -> Seq<char> {
    match event.get("delta"@) {
        Some(Jv::Str(s)) => s,
        _ => Seq::empty(),
    }
}

proof fn outbound_said(st: OutboundV, id: Seq<char>, delta: Jv, key: Seq<char>, k: int)
    requires
        key == "content"@ || key == "reasoning_content"@,
    ensures
        ({
            let (after, ev) = responses_outbound::said(st, id, delta);
            let f = chunks::delta_chunk(after.writer, delta);
            &&& said(ev, key) == delta_text(f, key)
            &&& called(ev, k) == arguments_in(f, k)
            &&& choice(f).get("delta"@) == Some(delta)
        }),
{
    words::chunk_words();
    let (after, ev) = responses_outbound::opened(st, id);
    let f = chunks::delta_chunk(after.writer, delta);
    start_says_nothing(st.writer, id, key, k);
    said_push(ev, f, key, k);
    assert(said(ev, key) + delta_text(f, key) =~= delta_text(f, key));
    assert(called(ev, k) + arguments_in(f, k) =~= arguments_in(f, k));
}

proof fn ensure_says_no_text(
    x: (OutboundV, Seq<Fv>),
    key: Seq<char>,
    item: Jv,
    fresh: Seq<char>,
    name: Seq<char>,
    k: int,
)
    requires
        name == "content"@ || name == "reasoning_content"@,
    ensures
        said(responses_outbound::ensure_step(x, key, item, fresh).1, name) == said(x.1, name),
        called(responses_outbound::ensure_step(x, key, item, fresh).1, k) == called(x.1, k),
{
    words::chunk_words();
    reveal_strlit("");
    let f = chunks::delta_chunk(
        x.0.writer,
        chunks::call_delta(
            x.0.tools.len() as int,
            responses::call_id(item, fresh),
            protocol::loose_field(item, "name"@),
        ),
    );
    said_push(x.1, f, name, k);
    assert(delta_text(f, name) =~= Seq::empty());
    assert(arguments_in(f, k) =~= Seq::empty());
    assert(said(x.1, name) + delta_text(f, name) =~= said(x.1, name));
    assert(called(x.1, k) + arguments_in(f, k) =~= called(x.1, k));
}

proof fn arguments_say_no_text(
    x: (OutboundV, Seq<Fv>),
    key: Seq<char>,
    arguments: Seq<char>,
    name: Seq<char>,
    k: int,
)
    requires
        name == "content"@ || name == "reasoning_content"@,
    ensures
        said(responses_outbound::arguments_step(x, key, arguments).1, name) == said(x.1, name),
        called(responses_outbound::arguments_step(x, key, arguments).1, k) == called(x.1, k) + (
        if responses_outbound::place(x.0.tools, key, 0) == k && k < x.0.tools.len() {
            arguments
        } else {
            Seq::empty()
        }),
{
    words::chunk_words();
    let p = responses_outbound::place(x.0.tools, key, 0);
    let f = chunks::delta_chunk(x.0.writer, chunks::arguments_delta(p, arguments));
    said_push(x.1, f, name, k);
    assert(delta_text(f, name) =~= Seq::empty());
    assert(said(x.1, name) + delta_text(f, name) =~= said(x.1, name));
    assert(called(x.1, k) + Seq::<char>::empty() =~= called(x.1, k));
}

proof fn call_says_no_text(
    st: OutboundV,
    key: Seq<char>,
    item: Jv,
    arguments: Seq<char>,
    ids: NewIds,
    name: Seq<char>,
)
    requires
        name == "content"@ || name == "reasoning_content"@,
    ensures
        said(responses_outbound::call_step(st, key, item, arguments, ids).1, name) == Seq::<char>::empty(),
        said(responses_outbound::fill_step(st, key, item, arguments, ids).1, name) == Seq::<char>::empty(),
        said(
            responses_outbound::ensure_step(
                responses_outbound::opened(st, ids.id),
                key,
                item,
                ids.call,
            ).1,
            name,
        ) == Seq::<char>::empty(),
{
    let x = responses_outbound::opened(st, ids.id);
    start_says_nothing(st.writer, ids.id, name, 0);
    ensure_says_no_text(x, key, item, ids.call, name, 0);
    let y = responses_outbound::ensure_step(x, key, item, ids.call);
    arguments_say_no_text(y, key, arguments, name, 0);
}

proof fn outbound_end_says_nothing(st: OutboundV, reason: Option<Seq<char>>, id: Seq<char>, name: Seq<char>)
    requires
        name == "content"@ || name == "reasoning_content"@,
    ensures
        said(responses_outbound::complete_step(st, reason, id).1, name) == Seq::<char>::empty(),
{
    words::chunk_words();
    if !st.writer.finished {
        let ended = OutboundV { writer: chunks::WriterV { finished: true, ..st.writer }, ..st };
        start_says_nothing(ended.writer, id, name, 0);
        let (after, ev) = responses_outbound::opened(ended, id);
        let why = match reason {
            Some(r) => r,
            None => if st.tools.len() == 0 {
                "stop"@
            } else {
                "tool_calls"@
            },
        };
        let f = chunks::finish_chunk(after.writer, why);
        said_push(ev, f, name, 0);
        let one = ev.push(f);
        assert(said(one, name) =~= Seq::empty());
        if let Some(u) = st.usage {
            let g = chunks::usage_chunk(after.writer, responses_outbound::chat_usage(u));
            said_push(one, g, name, 0);
            said_push(one.push(g), Fv::Done, name, 0);
            assert(said(one.push(g).push(Fv::Done), name) =~= Seq::empty());
        } else {
            said_push(one, Fv::Done, name, 0);
            assert(said(one.push(Fv::Done), name) =~= Seq::empty());
        }
    }
}

/// Each event of a Responses stream says its text as content and its thinking as thinking, as
/// they are, and no other event says any.
pub proof fn each_response_event_is_said(st: OutboundV, event: Jv, ids: NewIds)
    requires
        !st.writer.finished,
        event.get("type"@) matches Some(Jv::Str(_)),
    ensures
        !is_kind(event, "error"@) && !is_kind(event, "response.failed"@) ==> {
            let ev = responses_outbound::event_step(st, event, ids).1;
            &&& said(ev, "content"@) == if speaks(event) {
                brought(event)
            } else {
                Seq::empty()
            }
            &&& said(ev, "reasoning_content"@) == if muses(event) {
                brought(event)
            } else {
                Seq::empty()
            }
        },
{
    words::chunk_words();
    words::response_events();
    let now = responses_outbound::usage_noted(st, event);
    let kind = text::lowercase(protocol::loose_field(event, "type"@));
    let text = brought(event);
    assert(text.len() == 0 ==> text =~= Seq::empty());
    let a = Jv::obj().put("content"@, Jv::Str(text));
    let b = Jv::obj().put("reasoning_content"@, Jv::Str(text));
    outbound_said(now, ids.id, a, "content"@, 0);
    outbound_said(now, ids.id, a, "reasoning_content"@, 0);
    outbound_said(now, ids.id, b, "content"@, 0);
    outbound_said(now, ids.id, b, "reasoning_content"@, 0);
    let named = responses_outbound::announced(now, event);
    start_says_nothing(named.writer, ids.id, "content"@, 0);
    start_says_nothing(named.writer, ids.id, "reasoning_content"@, 0);
    if !is_kind(event, "error"@) && !is_kind(event, "response.failed"@) && !is_kind(
        event,
        "response.created"@,
    ) && !speaks(event) && !muses(event) {
        other_events_say_nothing(now, event, ids, "content"@);
        other_events_say_nothing(now, event, ids, "reasoning_content"@);
    }
}

proof fn other_events_say_nothing(st: OutboundV, event: Jv, ids: NewIds, name: Seq<char>)
    requires
        name == "content"@ || name == "reasoning_content"@,
        event.get("type"@) matches Some(Jv::Str(_)),
        !is_kind(event, "error"@) && !is_kind(event, "response.failed"@) && !is_kind(
            event,
            "response.created"@,
        ) && !speaks(event) && !muses(event),
    ensures
        said(responses_outbound::kind_step(st, event, ids).1, name) == Seq::<char>::empty(),
{
    words::response_events();
    let key = responses_outbound::tool_key(event, event);
    let item = event.field("item"@);
    let own = responses_outbound::tool_key(event, item);
    let kind = text::lowercase(protocol::loose_field(event, "type"@));
    call_says_no_text(st, own, item, Seq::empty(), ids, name);
    if let Some(arguments) = responses_outbound::item_arguments(item) {
        call_says_no_text(st, own, item, arguments, ids, name);
    }
    call_says_no_text(st, key, event, protocol::loose_field(event, "delta"@), ids, name);
    call_says_no_text(st, key, event, responses_outbound::free_text(event), ids, name);
    call_says_no_text(
        st,
        key,
        event,
        protocol::or_else(protocol::opt_loose(event.get("arguments"@)), "{}"@),
        ids,
        name,
    );
    call_says_no_text(
        st,
        key,
        event,
        crate::protocol::tool_plan::wrapped_input(protocol::opt_loose(event.get("input"@))),
        ids,
        name,
    );
    outbound_end_says_nothing(st, None, ids.id, name);
    outbound_end_says_nothing(st, Some(responses_outbound::why_incomplete(event)), ids.id, name);
}

/// A call that the upstream adds is announced under the next number, with its identifier and
/// its name.
pub proof fn response_calls_are_announced(
    st: OutboundV,
    event: Jv,
    ids: NewIds,
    item: Jv,
    id: Seq<char>,
    name: Seq<char>,
)
    requires
        !st.writer.finished,
        event.get("item"@) == Some(item),
        item.get("call_id"@) == Some(Jv::Str(id)),
        item.get("name"@) == Some(Jv::Str(name)),
        id.len() > 0,
        responses_outbound::place(st.tools, id, 0) >= st.tools.len(),
    ensures
        is_kind(event, "response.output_item.added"@) && (is_kind(item, "function_call"@) || is_kind(
            item,
            "custom_tool_call"@,
        )) ==> {
            let (after, ev) = responses_outbound::event_step(st, event, ids);
            &&& ev.len() > 0
            &&& call_in(ev.last()).get("index"@) == Some(Jv::Int(st.tools.len() as int))
            &&& holds(call_in(ev.last()), "id"@, id)
            &&& holds(call_in(ev.last()), "type"@, "function"@)
            &&& within(call_in(ev.last()), "function"@, "name"@) == Some(Jv::Str(name))
            &&& after.tools == st.tools.push((id, false))
        },
{
    words::chunk_words();
    words::response_events();
    words::item_kinds();
}

/// More arguments of a call go to the call with its number, as they are.
pub proof fn response_arguments_come_through(
    st: OutboundV,
    event: Jv,
    ids: NewIds,
    id: Seq<char>,
    s: Seq<char>,
)
    requires
        !st.writer.finished,
        event.get("call_id"@) == Some(Jv::Str(id)),
        id.len() > 0,
        event.get("delta"@) == Some(Jv::Str(s)),
        s.len() > 0,
        0 <= responses_outbound::place(st.tools, id, 0) < st.tools.len(),
    ensures
        is_kind(event, "response.function_call_arguments.delta"@) ==> {
            let (after, ev) = responses_outbound::event_step(st, event, ids);
            let p = responses_outbound::place(st.tools, id, 0);
            &&& called(ev, p) == s
            &&& after.tools == st.tools.update(p, (id, true))
        },
{
    words::chunk_words();
    words::response_events();
    let now = responses_outbound::usage_noted(st, event);
    let p = responses_outbound::place(st.tools, id, 0);
    let x = responses_outbound::opened(now, ids.id);
    start_says_nothing(now.writer, ids.id, "content"@, p);
    ensure_says_no_text(x, id, event, ids.call, "content"@, p);
    let y = responses_outbound::ensure_step(x, id, event, ids.call);
    arguments_say_no_text(y, id, s, "content"@, p);
    assert(Seq::<char>::empty() + s =~= s);
}

/// When a call is done, its arguments are given out where none have come before, an empty object
/// where there are none at all; where some have come, nothing more is said.
pub proof fn response_calls_are_filled(
    st: OutboundV,
    event: Jv,
    ids: NewIds,
    item: Jv,
    id: Seq<char>,
)
    requires
        !st.writer.finished,
        event.get("item"@) == Some(item),
        item.get("call_id"@) == Some(Jv::Str(id)),
        id.len() > 0,
        0 <= responses_outbound::place(st.tools, id, 0) < st.tools.len(),
    ensures
        is_kind(event, "response.output_item.done"@) && is_kind(item, "function_call"@) ==> {
            let ev = responses_outbound::event_step(st, event, ids).1;
            let p = responses_outbound::place(st.tools, id, 0);
            &&& st.tools[p].1 ==> ev.len() == 0
            &&& !st.tools[p].1 ==> (item.get("arguments"@) matches Some(Jv::Str(s)) ==> called(ev, p)
                == if s.len() > 0 {
                s
            } else {
                "{}"@
            })
            &&& !st.tools[p].1 && item.get("arguments"@) is None ==> called(ev, p) == "{}"@
        },
{
    words::chunk_words();
    words::response_events();
    words::item_kinds();
    let now = responses_outbound::usage_noted(st, event);
    let p = responses_outbound::place(st.tools, id, 0);
    let x = responses_outbound::opened(now, ids.id);
    start_says_nothing(now.writer, ids.id, "content"@, p);
    ensure_says_no_text(x, id, item, ids.call, "content"@, p);
    let y = responses_outbound::ensure_step(x, id, item, ids.call);
    let arguments = protocol::or_else(protocol::opt_loose(item.get("arguments"@)), "{}"@);
    arguments_say_no_text(y, id, arguments, "content"@, p);
    assert(Seq::<char>::empty() + arguments =~= arguments);
}

/// The end of a Responses stream: `stop`, or `tool_calls` where a tool was called; where the
/// response is incomplete, the reason that is given, and the length where none is.
pub proof fn response_reason_comes_through(st: OutboundV, event: Jv, ids: NewIds)
    requires
        !st.writer.finished,
    ensures
        is_kind(event, "response.completed"@) || is_kind(event, "response.done"@) ==> {
            let (after, ev) = responses_outbound::event_step(st, event, ids);
            let at = if responses_outbound::usage_noted(st, event).usage is Some {
                ev.len() - 3
            } else {
                ev.len() - 2
            };
            &&& after.writer.finished
            &&& at >= 0
            &&& choice(ev[at]).get("finish_reason"@) == Some(
                Jv::Str(
                    if st.tools.len() == 0 {
                        "stop"@
                    } else {
                        "tool_calls"@
                    },
                ),
            )
            &&& ev.last() == Fv::Done
        },
        is_kind(event, "response.incomplete"@) ==> {
            let (after, ev) = responses_outbound::event_step(st, event, ids);
            let at = if responses_outbound::usage_noted(st, event).usage is Some {
                ev.len() - 3
            } else {
                ev.len() - 2
            };
            let details = within(event, "response"@, "incomplete_details"@);
            &&& after.writer.finished
            &&& at >= 0
            &&& details is None ==> choice(ev[at]).get("finish_reason"@) == Some(
                Jv::Str("length"@),
            )
            &&& details matches Some(d) ==> (d.get("reason"@) matches Some(Jv::Str(r)) ==> r.len() > 0
                ==> choice(ev[at]).get("finish_reason"@) == Some(Jv::Str(r)))
            &&& ev.last() == Fv::Done
        },
{
    words::chunk_words();
    words::response_events();
}

/// The last usage of the upstream is told before the end, in the words of the chat protocol.
pub proof fn response_tokens_come_through(
    st: OutboundV,
    event: Jv,
    ids: NewIds,
    u: Map<Seq<char>, Jv>,
    i: int,
    o: int,
)
    requires
        !st.writer.finished,
        event.get("usage"@) is None,
        within(event, "response"@, "usage"@) == Some(Jv::Obj(u)),
        0 <= i <= i64::MAX,
        0 <= o <= i64::MAX - i,
        Jv::Obj(u).get("input_tokens"@) == Some(Jv::Int(i)),
        Jv::Obj(u).get("output_tokens"@) == Some(Jv::Int(o)),
        Jv::Obj(u).get("total_tokens"@) is None,
    ensures
        is_kind(event, "response.completed"@) ==> {
            let ev = responses_outbound::event_step(st, event, ids).1;
            &&& ev.len() >= 2
            &&& ev[ev.len() - 2] matches Fv::Data(d) && {
                &&& within(d, "usage"@, "prompt_tokens"@) == Some(Jv::Int(i))
                &&& within(d, "usage"@, "completion_tokens"@) == Some(Jv::Int(o))
                &&& within(d, "usage"@, "total_tokens"@) == Some(Jv::Int(i + o))
                &&& within(Jv::Obj(u), "input_tokens_details"@, "cached_tokens"@) matches Some(
                    Jv::Int(c),
                ) ==> 0 < c <= i64::MAX ==> within(
                    d.get("usage"@)->0,
                    "prompt_tokens_details"@,
                    "cached_tokens"@,
                ) == Some(Jv::Int(c))
                &&& within(Jv::Obj(u), "output_tokens_details"@, "reasoning_tokens"@) matches Some(
                    Jv::Int(c),
                ) ==> 0 < c <= i64::MAX ==> within(
                    d.get("usage"@)->0,
                    "completion_tokens_details"@,
                    "reasoning_tokens"@,
                ) == Some(Jv::Int(c))
            }
        },
{
    words::chunk_words();
    words::response_events();
    words::count_words();
    let j = Jv::Obj(u);
    reveal_with_fuel(protocol::number_under, 3);
    assert(responses_outbound::told_input(j) == i) by {
        assert(seq!["input_tokens", "prompt_tokens"][0] == "input_tokens");
    }
    assert(responses_outbound::told_output(j) == o) by {
        assert(seq!["output_tokens", "completion_tokens"][0] == "output_tokens");
    }
    assert(responses_outbound::told_total(j) == i + o) by {
        assert(seq!["total_tokens"][0] == "total_tokens");
    }
    let (_, ev) = responses_outbound::event_step(st, event, ids);
    assert(responses_outbound::usage_noted(st, event).usage == Some(j));
    if is_kind(event, "response.completed"@) {
        assert(ev[ev.len() - 2] matches Fv::Data(d) && d.get("usage"@) == Some(
            responses_outbound::chat_usage(j),
        ));
    }
}

/// An error of the upstream ends the stream with its words.
pub proof fn response_errors_come_through(st: OutboundV, event: Jv, ids: NewIds, s: Seq<char>)
    requires
        !st.writer.finished,
        event.get("error"@) is None,
        event.get("response"@) matches Some(r) && within(r, "error"@, "message"@) == Some(Jv::Str(s)),
        text::trimmed(s).len() > 0,
    ensures
        is_kind(event, "response.failed"@) ==> {
            let (after, ev) = responses_outbound::event_step(st, event, ids);
            &&& after.writer.finished
            &&& ev.len() == 2
            &&& ev[0] matches Fv::Data(d) && within(d, "error"@, "message"@) == Some(Jv::Str(s))
            &&& ev[1] == Fv::Done
        },
{
    words::chunk_words();
    words::response_events();
    assert(s.len() > 0) by {
        if s.len() == 0 {
            assert(text::trimmed(s).len() == 0);
        }
    }
    let e = within(event, "response"@, "error"@)->0;
    assert(e.truthy());
}

/// The chunks carry the identifier of the upstream's response.
pub proof fn response_identifier_comes_through(st: OutboundV, event: Jv, ids: NewIds, id: Seq<char>)
    requires
        !st.writer.finished,
        within(event, "response"@, "id"@) == Some(Jv::Str(id)),
        id.len() > 0,
    ensures
        is_kind(event, "response.created"@) ==> responses_outbound::event_step(st, event, ids).0.writer.id
            == id,
{
    words::response_events();
}

/// A call is known by its own identifier, by that of its item, or by the place of the item, the
/// first of them that is told.
pub proof fn calls_are_known_by_their_key(event: Jv, item: Jv, s: Seq<char>)
    requires
        s.len() > 0,
    ensures
        holds(item, "call_id"@, s) ==> responses_outbound::tool_key(event, item) == s,
        item.get("call_id"@) is None && holds(item, "id"@, s) ==> responses_outbound::tool_key(event, item)
            == s,
        item.get("call_id"@) is None && item.get("id"@) is None && holds(event, "item_id"@, s)
            ==> responses_outbound::tool_key(event, item) == s,
        item.get("call_id"@) is None && item.get("id"@) is None && event.get("item_id"@) is None && holds(
            event,
            "output_index"@,
            s,
        ) ==> responses_outbound::tool_key(event, item) == s,
{
}

proof fn pieces_go_to(
    st: OutboundV,
    key: Seq<char>,
    item: Jv,
    arguments: Seq<char>,
    ids: NewIds,
    p: int,
)
    requires
        p == responses_outbound::place(st.tools, key, 0),
        0 <= p < st.tools.len(),
    ensures
        called(responses_outbound::call_step(st, key, item, arguments, ids).1, p) == arguments,
        responses_outbound::call_step(st, key, item, arguments, ids).0.tools == st.tools.update(
            p,
            (key, true),
        ),
{
    let x = responses_outbound::opened(st, ids.id);
    start_says_nothing(st.writer, ids.id, "content"@, p);
    ensure_says_no_text(x, key, item, ids.call, "content"@, p);
    let y = responses_outbound::ensure_step(x, key, item, ids.call);
    arguments_say_no_text(y, key, arguments, "content"@, p);
    assert(Seq::<char>::empty() + arguments =~= arguments);
}

/// Free text that is brought piece by piece goes to its call as it is; told as a whole where none
/// has come, it goes as the input of the function that stands in for the tool.
pub proof fn response_free_text_comes_through(
    st: OutboundV,
    event: Jv,
    ids: NewIds,
    id: Seq<char>,
    s: Seq<char>,
)
    requires
        !st.writer.finished,
        event.get("call_id"@) == Some(Jv::Str(id)),
        id.len() > 0,
        s.len() > 0,
        0 <= responses_outbound::place(st.tools, id, 0) < st.tools.len(),
    ensures
        is_kind(event, "response.custom_tool_call_input.delta"@) && holds(event, "delta"@, s) ==> called(
            responses_outbound::event_step(st, event, ids).1,
            responses_outbound::place(st.tools, id, 0),
        ) == s,
        is_kind(event, "response.custom_tool_call_input.done"@) && holds(event, "input"@, s) ==> {
            let p = responses_outbound::place(st.tools, id, 0);
            let ev = responses_outbound::event_step(st, event, ids).1;
            &&& st.tools[p].1 ==> ev.len() == 0
            &&& !st.tools[p].1 ==> called(ev, p) == json::json_text_of(
                Jv::obj().put("input"@, Jv::Str(s)),
            )
        },
        is_kind(event, "response.function_call_arguments.done"@) && holds(event, "arguments"@, s) ==> {
            let p = responses_outbound::place(st.tools, id, 0);
            let ev = responses_outbound::event_step(st, event, ids).1;
            &&& st.tools[p].1 ==> ev.len() == 0
            &&& !st.tools[p].1 ==> called(ev, p) == s
        },
{
    words::response_events();
    let now = responses_outbound::usage_noted(st, event);
    let p = responses_outbound::place(st.tools, id, 0);
    pieces_go_to(now, id, event, s, ids, p);
    pieces_go_to(
        now,
        id,
        event,
        crate::protocol::tool_plan::wrapped_input(s),
        ids,
        p,
    );
}

/// A call with free text that is done is filled where nothing of it has come.
pub proof fn response_free_calls_are_filled(
    st: OutboundV,
    event: Jv,
    ids: NewIds,
    item: Jv,
    id: Seq<char>,
    s: Seq<char>,
)
    requires
        !st.writer.finished,
        event.get("item"@) == Some(item),
        item.get("call_id"@) == Some(Jv::Str(id)),
        id.len() > 0,
        holds(item, "input"@, s),
        0 <= responses_outbound::place(st.tools, id, 0) < st.tools.len(),
    ensures
        is_kind(event, "response.output_item.done"@) && is_kind(item, "custom_tool_call"@) ==> {
            let p = responses_outbound::place(st.tools, id, 0);
            let ev = responses_outbound::event_step(st, event, ids).1;
            &&& st.tools[p].1 ==> ev.len() == 0
            &&& !st.tools[p].1 ==> called(ev, p) == json::json_text_of(
                Jv::obj().put("input"@, Jv::Str(s)),
            )
        },
{
    words::response_events();
    words::item_kinds();
    let now = responses_outbound::usage_noted(st, event);
    let p = responses_outbound::place(st.tools, id, 0);
    pieces_go_to(
        now,
        id,
        item,
        crate::protocol::tool_plan::wrapped_input(s),
        ids,
        p,
    );
}

/// A stream begins with nothing said and nothing counted, under the name and the time that it is
/// given; its first chunk gives the role.
pub proof fn streams_begin_empty(model: Seq<char>, created: int, id: Seq<char>)
    ensures
        ({
            let st = anthropic_outbound::fresh_inbound(model, created);
            &&& !st.writer.finished && !st.writer.started
            &&& st.writer.model == model && st.writer.created == created
            &&& st.tools == Map::<i64, bool>::empty()
            &&& st.input == 0 && st.output == 0 && st.cache_read == 0 && st.cache_creation == 0
            &&& st.finish is None
            &&& st.line.len() == 0
        }),
        ({
            let st = responses_outbound::fresh_outbound(model, created);
            &&& !st.writer.finished && !st.writer.started
            &&& st.writer.model == model && st.writer.created == created
            &&& st.tools.len() == 0
            &&& st.usage is None
            &&& st.line.len() == 0
        }),
        ({
            let (w, ev) = chunks::start_step(chunks::new_writer(model, created), id);
            &&& w.started && w.id == id
            &&& ev.len() == 1
            &&& within(choice(ev[0]), "delta"@, "role"@) == Some(Jv::Str("assistant"@))
            &&& delta_text(ev[0], "content"@).len() == 0
        }),
{
    words::chunk_words();
    reveal_strlit("");
}

} // verus!
