//! A chat stream, as a Responses stream.

use crate::json::Jv;
use crate::json;
use crate::laws::completion::{number_of, pieces_joined, text_at};
use crate::laws::words;
use crate::laws::{holds, list_in, within};
use crate::protocol::Fv;
use crate::protocol::chat;
use crate::protocol::collect;
use crate::protocol::responses::FreshV;
use crate::protocol::responses;
use crate::protocol::responses_stream::{HeldV, ResponsesV, StreamToolV};
use crate::protocol::responses_stream;
use crate::protocol::tool_plan::PlanV;
use crate::protocol;
use vstd::prelude::*;
use vstd::string::*;

verus! {

// -------------------------------------------------------------- what is said

/// The text that an event adds under an event name.
pub open spec fn delta_in(f: Fv, name: Seq<char>) -> Seq<char> {
    match f {
        Fv::Event(n, d) => if n == name {
            text_at(Some(d), "delta"@)
        } else {
            Seq::empty()
        },
        _ => Seq::empty(),
    }
}

/// The texts that some events add under an event name, one after the other.
pub open spec fn said(ev: Seq<Fv>, name: Seq<char>) -> Seq<char>
    decreases ev.len(),
{
    if ev.len() == 0 {
        Seq::empty()
    } else {
        said(ev.drop_last(), name) + delta_in(ev.last(), name)
    }
}

/// The event under which text or thinking is said.
pub open spec fn saying(thinking: bool) -> Seq<char> {
    if thinking {
        "response.reasoning_summary_text.delta"@
    } else {
        "response.output_text.delta"@
    }
}

proof fn said_push(ev: Seq<Fv>, f: Fv, name: Seq<char>)
    ensures
        said(ev.push(f), name) == said(ev, name) + delta_in(f, name),
{
    assert(ev.push(f).drop_last() =~= ev);
}

proof fn said_add(a: Seq<Fv>, b: Seq<Fv>, name: Seq<char>)
    ensures
        said(a + b, name) == said(a, name) + said(b, name),
    decreases b.len(),
{
    if b.len() == 0 {
        assert(a + b =~= a);
        assert(said(a, name) + Seq::<char>::empty() =~= said(a, name));
    } else {
        said_add(a, b.drop_last(), name);
        assert((a + b).drop_last() =~= a + b.drop_last());
        assert(said(a, name) + (said(b.drop_last(), name) + delta_in(b.last(), name)) =~= said(a, name)
            + said(b.drop_last(), name) + delta_in(b.last(), name));
    }
}

proof fn says(x: (ResponsesV, Seq<Fv>), name: Seq<char>, data: Jv, thinking: bool)
    requires
        data is Obj,
    ensures
        said(responses_stream::say(x, name, data).1, saying(thinking)) == said(x.1, saying(thinking)) + (
        if name == saying(thinking) {
            text_at(Some(data), "delta"@)
        } else {
            Seq::empty()
        }),
        name != saying(thinking) ==> said(responses_stream::say(x, name, data).1, saying(thinking))
            == said(x.1, saying(thinking)),
{
    words::stream_members();
    said_push(x.1, responses_stream::numbered(x.0.sequence, name, data), saying(thinking));
    assert(said(x.1, saying(thinking)) + Seq::<char>::empty() =~= said(x.1, saying(thinking)));
}

proof fn others_are_silent(st: ResponsesV, id: Seq<char>, thinking: bool)
    ensures
        said(responses_stream::close_reasoning_step(st).1, saying(thinking)) == Seq::<char>::empty(),
        said(responses_stream::close_text_step(st).1, saying(thinking)) == Seq::<char>::empty(),
        said(responses_stream::open_reasoning_step(st, id).1, saying(thinking)) == Seq::<char>::empty(),
        said(responses_stream::open_text_step(st, id).1, saying(thinking)) == Seq::<char>::empty(),
        said(responses_stream::created_step(st).1, saying(thinking)) == Seq::<char>::empty(),
{
    words::stream_events();
    closing_thinking_is_silent(st, thinking);
    closing_text_is_silent(st, thinking);
    opening_is_silent(st, id, thinking);
}

proof fn closing_thinking_is_silent(st: ResponsesV, thinking: bool)
    ensures
        said(responses_stream::close_reasoning_step(st).1, saying(thinking)) == Seq::<char>::empty(),
{
    words::stream_events();
    if st.reasoning_open {
        let index = st.reasoning_index;
        let id = st.reasoning_id;
        let item = responses_stream::thinking_item(
            id,
            "completed"@,
            seq![responses_stream::summary_part(st.reasoning)],
        );
        let mid = ResponsesV { reasoning_open: false, items: st.items.push((index, item)), ..st };
        let d1 = responses_stream::of_item(index, id).put("summary_index"@, Jv::Int(0)).put(
            "text"@,
            Jv::Str(st.reasoning),
        );
        let d2 = responses_stream::of_item(index, id).put("summary_index"@, Jv::Int(0)).put(
            "part"@,
            responses_stream::summary_part(st.reasoning),
        );
        let x0 = responses_stream::quiet(mid);
        let x1 = responses_stream::say(x0, "response.reasoning_summary_text.done"@, d1);
        let x2 = responses_stream::say(x1, "response.reasoning_summary_part.done"@, d2);
        says(x0, "response.reasoning_summary_text.done"@, d1, thinking);
        says(x1, "response.reasoning_summary_part.done"@, d2, thinking);
        says(
            x2,
            "response.output_item.done"@,
            responses_stream::whole_item(index, item),
            thinking,
        );
    }
}

proof fn closing_text_is_silent(st: ResponsesV, thinking: bool)
    ensures
        said(responses_stream::close_text_step(st).1, saying(thinking)) == Seq::<char>::empty(),
{
    words::stream_events();
    if st.text_open {
        let index = st.text_index;
        let id = st.text_id;
        let item = responses::done_message(id, st.text);
        let mid = ResponsesV { text_open: false, items: st.items.push((index, item)), ..st };
        let d1 = responses_stream::of_item(index, id).put("content_index"@, Jv::Int(0)).put(
            "text"@,
            Jv::Str(st.text),
        );
        let d2 = responses_stream::of_item(index, id).put("content_index"@, Jv::Int(0)).put(
            "part"@,
            responses::output_part(st.text),
        );
        let x0 = responses_stream::quiet(mid);
        let x1 = responses_stream::say(x0, "response.output_text.done"@, d1);
        let x2 = responses_stream::say(x1, "response.content_part.done"@, d2);
        says(x0, "response.output_text.done"@, d1, thinking);
        says(x1, "response.content_part.done"@, d2, thinking);
        says(
            x2,
            "response.output_item.done"@,
            responses_stream::whole_item(index, item),
            thinking,
        );
    }
}

proof fn opening_is_silent(st: ResponsesV, id: Seq<char>, thinking: bool)
    ensures
        said(responses_stream::open_reasoning_step(st, id).1, saying(thinking)) == Seq::<char>::empty(),
        said(responses_stream::open_text_step(st, id).1, saying(thinking)) == Seq::<char>::empty(),
        said(responses_stream::created_step(st).1, saying(thinking)) == Seq::<char>::empty(),
{
    words::stream_events();
    let index = st.next_index;
    if !st.reasoning_open {
        let mid = ResponsesV {
            reasoning_open: true,
            reasoning_index: index,
            next_index: protocol::next_index(index),
            reasoning_id: id,
            reasoning: Seq::empty(),
            ..st
        };
        let x0 = responses_stream::quiet(mid);
        let d1 = responses_stream::whole_item(
            index,
            responses_stream::thinking_item(id, "in_progress"@, Seq::empty()),
        );
        let d2 = responses_stream::of_item(index, id).put("summary_index"@, Jv::Int(0)).put(
            "part"@,
            responses_stream::summary_part(Seq::empty()),
        );
        let x1 = responses_stream::say(x0, "response.output_item.added"@, d1);
        says(x0, "response.output_item.added"@, d1, thinking);
        says(x1, "response.reasoning_summary_part.added"@, d2, thinking);
    }
    if !st.text_open {
        let mid = ResponsesV {
            text_open: true,
            text_index: index,
            next_index: protocol::next_index(index),
            text_id: id,
            text: Seq::empty(),
            answered: true,
            ..st
        };
        let x0 = responses_stream::quiet(mid);
        let d1 = responses_stream::whole_item(index, responses_stream::begun_message(id));
        let d2 = responses_stream::of_item(index, id).put("content_index"@, Jv::Int(0)).put(
            "part"@,
            responses_stream::empty_part(),
        );
        let x1 = responses_stream::say(x0, "response.output_item.added"@, d1);
        says(x0, "response.output_item.added"@, d1, thinking);
        says(x1, "response.content_part.added"@, d2, thinking);
    }
    if !st.created_sent {
        let x0 = responses_stream::quiet(ResponsesV { created_sent: true, ..st });
        let d = Jv::obj().put(
            "response"@,
            responses::envelope(
                st.response_id,
                st.model,
                "in_progress"@,
                Seq::empty(),
                Jv::Null,
                st.request,
                st.created,
                None,
                0,
            ),
        );
        says(x0, "response.created"@, d, thinking);
    }
}

/// What waits, the text or the thinking of it, one piece after the other.
pub open spec fn waiting(held: Seq<HeldV>, thinking: bool) -> Seq<char>
    decreases held.len(),
{
    if held.len() == 0 {
        Seq::empty()
    } else if held.last().thinking == thinking {
        waiting(held.drop_last(), thinking) + held.last().text
    } else {
        waiting(held.drop_last(), thinking)
    }
}

proof fn waiting_push(held: Seq<HeldV>, piece: HeldV, thinking: bool)
    ensures
        waiting(held.push(piece), thinking) == if piece.thinking == thinking {
            waiting(held, thinking) + piece.text
        } else {
            waiting(held, thinking)
        },
{
    assert(held.push(piece).drop_last() =~= held);
}

proof fn thinking_is_said(st: ResponsesV, text: Seq<char>, id: Seq<char>, thinking: bool)
    ensures
        ({
            let (after, ev) = responses_stream::thinking_step(st, text, id);
            &&& after.tools == st.tools
            &&& st.tools.len() == 0 ==> after.held == st.held && said(ev, saying(thinking)) == if thinking {
                text
            } else {
                Seq::empty()
            }
            &&& st.tools.len() > 0 ==> said(ev, saying(thinking)) == Seq::<char>::empty() && waiting(
                after.held,
                thinking,
            ) == waiting(st.held, thinking) + if thinking {
                text
            } else {
                Seq::empty()
            }
        }),
{
    words::stream_events();
    words::stream_members();
    let nothing = Seq::<char>::empty();
    assert(waiting(st.held, thinking) + nothing =~= waiting(st.held, thinking));
    if text.len() == 0 {
        assert(text =~= nothing);
    } else if st.tools.len() > 0 {
        waiting_push(st.held, HeldV { thinking: true, text, id }, thinking);
    } else {
        let (s1, e1) = responses_stream::close_text_step(st);
        others_are_silent(st, id, thinking);
        others_are_silent(s1, id, thinking);
        let (mid, ev) = responses_stream::both(e1, responses_stream::open_reasoning_step(s1, id));
        said_add(e1, responses_stream::open_reasoning_step(s1, id).1, saying(thinking));
        assert(said(ev, saying(thinking)) =~= nothing);
        let data = responses_stream::of_item(mid.reasoning_index, mid.reasoning_id).put(
            "summary_index"@,
            Jv::Int(0),
        ).put("delta"@, Jv::Str(text));
        says(
            (ResponsesV { reasoning: mid.reasoning + text, ..mid }, ev),
            "response.reasoning_summary_text.delta"@,
            data,
            thinking,
        );
        assert(nothing + text =~= text);
    }
}

proof fn text_is_said(st: ResponsesV, text: Seq<char>, id: Seq<char>, thinking: bool)
    ensures
        ({
            let (after, ev) = responses_stream::text_step(st, text, id);
            &&& after.tools == st.tools
            &&& st.tools.len() == 0 ==> after.held == st.held && said(ev, saying(thinking)) == if thinking {
                Seq::empty()
            } else {
                text
            }
            &&& st.tools.len() > 0 ==> said(ev, saying(thinking)) == Seq::<char>::empty() && waiting(
                after.held,
                thinking,
            ) == waiting(st.held, thinking) + if thinking {
                Seq::empty()
            } else {
                text
            }
        }),
{
    words::stream_events();
    words::stream_members();
    let nothing = Seq::<char>::empty();
    assert(waiting(st.held, thinking) + nothing =~= waiting(st.held, thinking));
    if text.len() == 0 {
        assert(text =~= nothing);
    } else if st.tools.len() > 0 {
        waiting_push(st.held, HeldV { thinking: false, text, id }, thinking);
    } else {
        let (s1, e1) = responses_stream::close_reasoning_step(st);
        others_are_silent(st, id, thinking);
        others_are_silent(s1, id, thinking);
        let (mid, ev) = responses_stream::both(e1, responses_stream::open_text_step(s1, id));
        said_add(e1, responses_stream::open_text_step(s1, id).1, saying(thinking));
        assert(said(ev, saying(thinking)) =~= nothing);
        let data = responses_stream::of_item(mid.text_index, mid.text_id).put(
            "content_index"@,
            Jv::Int(0),
        ).put("delta"@, Jv::Str(text));
        says(
            (ResponsesV { text: mid.text + text, ..mid }, ev),
            "response.output_text.delta"@,
            data,
            thinking,
        );
        assert(nothing + text =~= text);
    }
}

proof fn arguments_are_silent(
    x: (ResponsesV, Seq<Fv>),
    tool: StreamToolV,
    delta: Seq<char>,
    thinking: bool,
)
    ensures
        said(responses_stream::arguments_step(x, tool, delta).1, saying(thinking)) == said(
            x.1,
            saying(thinking),
        ),
        said(responses_stream::announce_step(x, tool).1, saying(thinking)) == said(
            x.1,
            saying(thinking),
        ),
{
    words::stream_events();
    let head = responses_stream::of_item(tool.index, tool.item_id).put(
        "call_id"@,
        Jv::Str(tool.seen.call_id),
    ).put("name"@, Jv::Str(tool.seen.name));
    says(
        x,
        "response.function_call_arguments.delta"@,
        head.put("delta"@, Jv::Str(delta)),
        thinking,
    );
    let item = responses_stream::whole_item(
        tool.index,
        responses_stream::begun_call(
            x.0.plan,
            tool.item_id,
            tool.seen.name,
            tool.seen.call_id,
        ),
    );
    says(x, "response.output_item.added"@, item, thinking);
    let y = responses_stream::say(x, "response.output_item.added"@, item);
    says(
        y,
        "response.function_call_arguments.delta"@,
        head.put("delta"@, Jv::Str(tool.seen.arguments)),
        thinking,
    );
}

proof fn call_piece_is_silent(
    st: ResponsesV,
    call: Jv,
    fc: Seq<char>,
    fresh: Seq<char>,
    ctc: Seq<char>,
    thinking: bool,
)
    ensures
        said(responses_stream::tool_step(st, call, fc, fresh, ctc).1, saying(thinking)) == Seq::<
            char,
        >::empty(),
        responses_stream::tool_step(st, call, fc, fresh, ctc).0.held == st.held,
        responses_stream::tool_step(st, call, fc, fresh, ctc).0.tools.len() > 0,
{
    let nothing = Seq::<char>::empty();
    let (s1, e1) = responses_stream::close_reasoning_step(st);
    let (s2, e2) = responses_stream::both(e1, responses_stream::close_text_step(s1));
    others_are_silent(st, fc, thinking);
    others_are_silent(s1, fc, thinking);
    said_add(e1, responses_stream::close_text_step(s1).1, saying(thinking));
    assert(said(e2, saying(thinking)) =~= nothing);
    let key = json::int_or_zero(call.get("index"@));
    let s3 = responses_stream::with_tool(s2, key, fc, fresh, ctc);
    let p = responses_stream::find_tool(s3.tools, key, 0);
    let before = s3.tools[p].1;
    let after = responses_stream::tool_after(s3.plan, before, call, p == 0);
    let s4 = ResponsesV { tools: s3.tools.update(p, (key, after)), ..s3 };
    place_holds(s2.tools, key, 0);
    if responses_stream::find_tool(s2.tools, key, 0) >= s2.tools.len() {
        assert forall|j: int| 0 <= j < s2.tools.len() implies (#[trigger] s3.tools[j]).0 != key by {
            assert(s2.tools[j].0 != key);
        }
        place_is_found(s3.tools, key, 0, s2.tools.len() as int);
    }
    assert(0 <= p < s3.tools.len());
    arguments_are_silent((s4, e2), after, text_at(call.get("function"@), "arguments"@), thinking);
}

proof fn place_holds(tools: Seq<(int, StreamToolV)>, key: int, i: int)
    requires
        0 <= i <= tools.len(),
    ensures
        i <= responses_stream::find_tool(tools, key, i) <= tools.len(),
        responses_stream::find_tool(tools, key, i) < tools.len() ==> tools[responses_stream::find_tool(
            tools,
            key,
            i,
        )].0 == key,
        forall|j: int| i <= j < responses_stream::find_tool(tools, key, i) ==> (#[trigger] tools[j]).0 != key,
    decreases tools.len() - i,
{
    if i < tools.len() && tools[i].0 != key {
        place_holds(tools, key, i + 1);
    }
}

proof fn call_pieces_are_silent(
    st: ResponsesV,
    calls: Seq<Jv>,
    fresh: FreshV,
    n: nat,
    thinking: bool,
)
    ensures
        ({
            let (after, ev) = responses_stream::tools_step(st, calls, fresh, n);
            &&& said(ev, saying(thinking)) == Seq::<char>::empty()
            &&& after.held == st.held
            &&& st.tools.len() > 0 || n > 0 ==> after.tools.len() > 0
            &&& n == 0 ==> after.tools == st.tools
        }),
    decreases n,
{
    if n > 0 {
        call_pieces_are_silent(st, calls, fresh, (n - 1) as nat, thinking);
        let (before, ev) = responses_stream::tools_step(st, calls, fresh, (n - 1) as nat);
        let fc = protocol::text_at(fresh.fc, n - 1);
        let fresh_call = protocol::text_at(fresh.call, n - 1);
        let ctc = protocol::text_at(fresh.ctc, n - 1);
        call_piece_is_silent(before, calls[n - 1], fc, fresh_call, ctc, thinking);
        let more = responses_stream::tool_step(before, calls[n - 1], fc, fresh_call, ctc).1;
        said_add(ev, more, saying(thinking));
        assert(said(ev + more, saying(thinking)) =~= Seq::empty());
    }
}

/// Whether a chunk of a chat stream is in order: no error, its choices a list, and what it brings
/// text.
pub open spec fn proper(chunk: Jv) -> bool {
    &&& chunk.get("error"@) is None
    &&& chunk.get("choices"@) matches Some(Jv::Arr(list)) && list.len() > 0
    &&& brings_text(delta_of(chunk), "content"@)
    &&& brings_text(delta_of(chunk), "reasoning_content"@)
    &&& delta_of(chunk).get("reasoning"@) is None
}

/// Whether a member is text where it is there.
pub open spec fn brings_text(delta: Jv, key: Seq<char>) -> bool {
    delta.get(key) matches Some(v) ==> v is Str
}

/// The delta of a chunk.
pub open spec fn delta_of(chunk: Jv) -> Jv {
    match chunk.get("choices"@) {
        Some(Jv::Arr(list)) => if list.len() > 0 {
            match list[0].get("delta"@) {
                Some(d) => d,
                None => Jv::Null,
            }
        } else {
            Jv::Null
        },
        _ => Jv::Null,
    }
}

/// What a chunk brings: text or thinking.
pub open spec fn brought(chunk: Jv, thinking: bool) -> Seq<char> {
    text_at(
        Some(delta_of(chunk)),
        if thinking {
            "reasoning_content"@
        } else {
            "content"@
        },
    )
}

/// Each chunk says its text and its thinking, or lets them wait while a call is under way.
pub proof fn each_chunk_is_said(st: ResponsesV, chunk: Jv, fresh: FreshV, thinking: bool)
    requires
        !st.finished,
        proper(chunk),
        st.tools.len() == 0 ==> st.held.len() == 0,
    ensures
        ({
            let (after, ev) = responses_stream::chunk_step(st, chunk, fresh);
            &&& said(ev, saying(thinking)) + waiting(after.held, thinking) == waiting(st.held, thinking)
                + brought(chunk, thinking)
            &&& after.tools.len() == 0 ==> after.held.len() == 0
            &&& !after.finished
        }),
{
    words::chunk_words();
    let nothing = Seq::<char>::empty();
    let key = saying(thinking);
    let (s1, e1) = responses_stream::created_step(responses_stream::noted(st, chunk));
    others_are_silent(responses_stream::noted(st, chunk), fresh.msg, thinking);
    assert(s1.held == st.held && s1.tools == st.tools);
    let delta = delta_of(chunk);
    let list = list_in(chunk, "choices"@);
    assert(chat::choice_of(chunk) == Some(list[0]));
    match list[0].get("delta"@) {
        None => {
            assert(brought(chunk, thinking) =~= nothing);
            assert(nothing + waiting(st.held, thinking) =~= waiting(st.held, thinking) + nothing);
        },
        Some(d) => {
            let thought = chat::reasoning_of(d);
            assert(thought =~= brought(chunk, true));
            let text = json::str_or_empty(d.get("content"@));
            assert(text =~= brought(chunk, false));
            let t2 = responses_stream::thinking_step(s1, thought, fresh.rs);
            thinking_is_said(s1, thought, fresh.rs, thinking);
            let (s2, e2) = responses_stream::both(e1, t2);
            said_add(e1, t2.1, key);
            let t3 = responses_stream::text_step(s2, text, fresh.msg);
            text_is_said(s2, text, fresh.msg, thinking);
            let (s3, e3) = responses_stream::both(e2, t3);
            said_add(e2, t3.1, key);
            let calls = chat::calls_of(d);
            let t4 = responses_stream::tools_step(s3, calls, fresh, calls.len());
            call_pieces_are_silent(s3, calls, fresh, calls.len(), thinking);
            said_add(e3, t4.1, key);
            let all = e3 + t4.1;
            if st.tools.len() == 0 {
                assert(waiting(st.held, thinking) =~= nothing);
                assert(said(all, key) =~= brought(chunk, thinking));
                assert(brought(chunk, thinking) + nothing =~= nothing + brought(chunk, thinking));
            } else {
                assert(said(all, key) =~= nothing);
                assert(nothing + waiting(s3.held, thinking) =~= waiting(st.held, thinking) + brought(
                    chunk,
                    thinking,
                ));
            }
            never_finishes(s1, thought, text, calls, fresh);
        },
    }
}

proof fn never_finishes(
    st: ResponsesV,
    thought: Seq<char>,
    text: Seq<char>,
    calls: Seq<Jv>,
    fresh: FreshV,
)
    ensures
        ({
            let s2 = responses_stream::thinking_step(st, thought, fresh.rs).0;
            let s3 = responses_stream::text_step(s2, text, fresh.msg).0;
            responses_stream::tools_step(s3, calls, fresh, calls.len()).0.finished == st.finished
        }),
{
    let s2 = responses_stream::thinking_step(st, thought, fresh.rs).0;
    let s3 = responses_stream::text_step(s2, text, fresh.msg).0;
    calls_never_finish(s3, calls, fresh, calls.len());
}

proof fn calls_never_finish(st: ResponsesV, calls: Seq<Jv>, fresh: FreshV, n: nat)
    ensures
        responses_stream::tools_step(st, calls, fresh, n).0.finished == st.finished,
    decreases n,
{
    if n > 0 {
        calls_never_finish(st, calls, fresh, (n - 1) as nat);
    }
}

/// What a stream has come to after its first chunks, and the events until then.
pub open spec fn ran(st: ResponsesV, chunks: Seq<Jv>, fresh: Seq<FreshV>, n: nat) -> (
    ResponsesV,
    Seq<Fv>,
)
    decreases n,
{
    if n == 0 {
        (st, Seq::empty())
    } else {
        let (before, ev) = ran(st, chunks, fresh, (n - 1) as nat);
        let (after, more) = responses_stream::chunk_step(before, chunks[n - 1], fresh[n - 1]);
        (after, ev + more)
    }
}

/// What the first chunks bring, one after the other.
pub open spec fn all_brought(chunks: Seq<Jv>, thinking: bool, n: nat) -> Seq<char>
    decreases n,
{
    if n == 0 {
        Seq::empty()
    } else {
        all_brought(chunks, thinking, (n - 1) as nat) + brought(chunks[n - 1], thinking)
    }
}

proof fn chunks_are_said(
    st: ResponsesV,
    chunks: Seq<Jv>,
    fresh: Seq<FreshV>,
    thinking: bool,
    n: nat,
)
    requires
        n <= chunks.len(),
        fresh.len() == chunks.len(),
        !st.finished,
        st.held.len() == 0,
        forall|i: int| 0 <= i < chunks.len() ==> proper(#[trigger] chunks[i]),
    ensures
        ({
            let (after, ev) = ran(st, chunks, fresh, n);
            &&& said(ev, saying(thinking)) + waiting(after.held, thinking) == all_brought(
                chunks,
                thinking,
                n,
            )
            &&& after.tools.len() == 0 ==> after.held.len() == 0
            &&& !after.finished
        }),
    decreases n,
{
    if n > 0 {
        chunks_are_said(st, chunks, fresh, thinking, (n - 1) as nat);
        let (before, ev) = ran(st, chunks, fresh, (n - 1) as nat);
        let chunk = chunks[n - 1];
        assert(proper(chunk));
        each_chunk_is_said(before, chunk, fresh[n - 1], thinking);
        let (after, more) = responses_stream::chunk_step(before, chunk, fresh[n - 1]);
        said_add(ev, more, saying(thinking));
        let key = saying(thinking);
        assert(said(ev, key) + said(more, key) + waiting(after.held, thinking) =~= said(ev, key) + (said(
            more,
            key,
        ) + waiting(after.held, thinking)));
        assert(said(ev, key) + (waiting(before.held, thinking) + brought(chunk, thinking)) =~= said(
            ev,
            key,
        ) + waiting(before.held, thinking) + brought(chunk, thinking));
    } else {
        assert(said(Seq::empty(), saying(thinking)) + waiting(st.held, thinking) =~= Seq::empty());
    }
}

proof fn done_call_is_silent(x: (ResponsesV, Seq<Fv>), tool: StreamToolV, thinking: bool)
    ensures
        said(responses_stream::close_tool_step(x, tool).1, saying(thinking)) == said(
            x.1,
            saying(thinking),
        ),
        responses_stream::close_tool_step(x, tool).0.held == x.0.held,
{
    let t = responses_stream::announced_tool(x.0.plan, tool);
    arguments_are_silent(x, t, Seq::empty(), thinking);
    done_tool_is_silent(x, tool, thinking);
    done_tool_is_silent(responses_stream::announce_step(x, t), t, thinking);
}

proof fn done_tool_is_silent(x: (ResponsesV, Seq<Fv>), tool: StreamToolV, thinking: bool)
    ensures
        said(responses_stream::done_tool_step(x, tool).1, saying(thinking)) == said(
            x.1,
            saying(thinking),
        ),
        responses_stream::done_tool_step(x, tool).0.held == x.0.held,
{
    words::stream_events();
    let st = x.0;
    let call_id = protocol::or_else(tool.seen.call_id, tool.spare_id);
    let name = protocol::or_else(tool.seen.name, "unknown"@);
    let arguments = protocol::or_else(tool.seen.arguments, "{}"@);
    let item = responses::call_item(st.plan, tool.item_id, name, call_id, arguments);
    let y = (ResponsesV { items: st.items.push((tool.index, item)), ..st }, x.1);
    let head = responses_stream::of_item(tool.index, tool.item_id);
    let d1 = head.put(
        "input"@,
        Jv::Str(crate::protocol::tool_plan::unwrapped_input(arguments)),
    );
    let d2 = head.put("call_id"@, Jv::Str(call_id)).put("name"@, Jv::Str(name)).put(
        "arguments"@,
        Jv::Str(arguments),
    );
    says(y, "response.custom_tool_call_input.done"@, d1, thinking);
    says(y, "response.function_call_arguments.done"@, d2, thinking);
    let whole = responses_stream::whole_item(tool.index, item);
    says(y, "response.output_item.done"@, whole, thinking);
    says(
        responses_stream::say(y, "response.custom_tool_call_input.done"@, d1),
        "response.output_item.done"@,
        whole,
        thinking,
    );
    says(
        responses_stream::say(y, "response.function_call_arguments.done"@, d2),
        "response.output_item.done"@,
        whole,
        thinking,
    );
}

proof fn done_calls_are_silent(st: ResponsesV, n: nat, thinking: bool)
    ensures
        said(responses_stream::close_tools_step(st, n).1, saying(thinking)) == Seq::<char>::empty(),
        responses_stream::close_tools_step(st, n).0.held == st.held,
    decreases n,
{
    if n > 0 {
        done_calls_are_silent(st, (n - 1) as nat, thinking);
        done_call_is_silent(
            responses_stream::close_tools_step(st, (n - 1) as nat),
            st.tools[n - 1].1,
            thinking,
        );
    }
}

proof fn held_is_said(st: ResponsesV, n: nat, thinking: bool)
    requires
        n <= st.held.len(),
        st.tools.len() == 0,
    ensures
        ({
            let (after, ev) = responses_stream::held_step(st, n);
            &&& said(ev, saying(thinking)) == waiting(st.held.take(n as int), thinking)
            &&& after.tools.len() == 0
        }),
    decreases n,
{
    if n > 0 {
        held_is_said(st, (n - 1) as nat, thinking);
        let (before, ev) = responses_stream::held_step(st, (n - 1) as nat);
        let piece = st.held[n - 1];
        thinking_is_said(before, piece.text, piece.id, thinking);
        text_is_said(before, piece.text, piece.id, thinking);
        let more = responses_stream::held_piece_step(before, piece).1;
        said_add(ev, more, saying(thinking));
        assert(st.held.take(n as int) =~= st.held.take(n - 1).push(piece));
        waiting_push(st.held.take(n - 1), piece, thinking);
        assert(said(ev, saying(thinking)) + Seq::<char>::empty() =~= said(ev, saying(thinking)));
    } else {
        assert(st.held.take(0) =~= Seq::empty());
    }
}

proof fn release_says_what_waits(st: ResponsesV, id: Seq<char>, thinking: bool)
    ensures
        said(responses_stream::release_step(st).1, saying(thinking)) == waiting(st.held, thinking),
{
    let key = saying(thinking);
    let (r1, f1) = responses_stream::close_calls_step(st);
    done_calls_are_silent(st, st.tools.len(), thinking);
    held_is_said(r1, r1.held.len(), thinking);
    assert(r1.held.take(r1.held.len() as int) =~= r1.held);
    let h = responses_stream::held_step(r1, r1.held.len());
    let (r2, f2) = responses_stream::both(f1, h);
    said_add(f1, h.1, key);
    let cleared = ResponsesV { held: Seq::empty(), ..r2 };
    others_are_silent(cleared, id, thinking);
    let t5 = responses_stream::close_reasoning_step(cleared);
    let (r3, f3) = responses_stream::both(f2, t5);
    said_add(f2, t5.1, key);
    others_are_silent(r3, id, thinking);
    let t6 = responses_stream::close_text_step(r3);
    said_add(f3, t6.1, key);
    let released = responses_stream::release_step(st);
    assert(released.1 == f3 + t6.1);
    assert(said(released.1, key) =~= waiting(st.held, thinking));
}

proof fn beginning_of_the_end_is_silent(st: ResponsesV, id: Seq<char>, thinking: bool)
    ensures
        ({
            let (s1, e1) = responses_stream::created_step(st);
            let (s2, e2) = responses_stream::both(e1, responses_stream::close_reasoning_step(s1));
            let (s3, e3) = if !s2.answered {
                responses_stream::both(e2, responses_stream::open_text_step(s2, id))
            } else {
                (s2, e2)
            };
            let (s4, e4) = responses_stream::both(e3, responses_stream::close_text_step(s3));
            &&& said(e4, saying(thinking)) == Seq::<char>::empty()
            &&& s4.held == st.held
        }),
{
    let key = saying(thinking);
    let nothing = Seq::<char>::empty();
    let (s1, e1) = responses_stream::created_step(st);
    others_are_silent(st, id, thinking);
    others_are_silent(s1, id, thinking);
    let t2 = responses_stream::close_reasoning_step(s1);
    let (s2, e2) = responses_stream::both(e1, t2);
    said_add(e1, t2.1, key);
    others_are_silent(s2, id, thinking);
    let t3 = responses_stream::open_text_step(s2, id);
    said_add(e2, t3.1, key);
    let (s3, e3) = if !s2.answered {
        responses_stream::both(e2, t3)
    } else {
        (s2, e2)
    };
    others_are_silent(s3, id, thinking);
    let t4 = responses_stream::close_text_step(s3);
    let (s4, e4) = responses_stream::both(e3, t4);
    said_add(e3, t4.1, key);
    assert(said(e4, key) =~= nothing);
}

/// The end says what has waited, and no more.
pub proof fn the_end_says_what_waits(st: ResponsesV, fresh: FreshV, now: int, thinking: bool)
    requires
        !st.finished,
    ensures
        said(responses_stream::end_step(st, fresh, now).1, saying(thinking)) == waiting(
            st.held,
            thinking,
        ),
{
    words::stream_events();
    let key = saying(thinking);
    let begun = ResponsesV { finished: true, ..st };
    beginning_of_the_end_is_silent(begun, fresh.msg, thinking);
    let (s1, e1) = responses_stream::created_step(begun);
    let (s2, e2) = responses_stream::both(e1, responses_stream::close_reasoning_step(s1));
    let (s3, e3) = if !s2.answered {
        responses_stream::both(e2, responses_stream::open_text_step(s2, fresh.msg))
    } else {
        (s2, e2)
    };
    let (s4, e4) = responses_stream::both(e3, responses_stream::close_text_step(s3));
    release_says_what_waits(s4, fresh.msg, thinking);
    let released = responses_stream::release_step(s4);
    let (s5, e5) = responses_stream::both(e4, released);
    said_add(e4, released.1, key);
    assert(said(e5, key) =~= waiting(st.held, thinking));
    let incomplete = responses::incomplete_of(
        crate::protocol::anthropic_stream::text_or_empty(s5.finish),
    );
    let data = Jv::obj().put(
        "response"@,
        responses::envelope(
            s5.response_id,
            s5.model,
            responses::status_of(incomplete),
            responses_stream::bare_items(
                responses_stream::sorted_items(s5.items, s5.items.len()),
            ),
            responses::responses_usage(s5.usage),
            s5.request,
            s5.created,
            incomplete,
            now,
        ),
    );
    says((s5, e5), "response.completed"@, data, thinking);
}

/// All the text of a chat stream, and all its thinking, come out of the Responses stream as they
/// went in, in their order.
pub proof fn all_text_is_said(
    model: Seq<char>,
    request: Jv,
    plan: PlanV,
    id: Seq<char>,
    created: int,
    chunks: Seq<Jv>,
    fresh: Seq<FreshV>,
    last: FreshV,
    now: int,
    thinking: bool,
)
    requires
        fresh.len() == chunks.len(),
        forall|i: int| 0 <= i < chunks.len() ==> proper(#[trigger] chunks[i]),
    ensures
        ({
            let st = responses_stream::fresh_responses(model, request, plan, id, created);
            let (mid, ev) = ran(st, chunks, fresh, chunks.len());
            let more = responses_stream::end_step(mid, last, now).1;
            said(ev + more, saying(thinking)) == all_brought(chunks, thinking, chunks.len())
        }),
{
    let st = responses_stream::fresh_responses(model, request, plan, id, created);
    chunks_are_said(st, chunks, fresh, thinking, chunks.len());
    let (mid, ev) = ran(st, chunks, fresh, chunks.len());
    the_end_says_what_waits(mid, last, now, thinking);
    said_add(ev, responses_stream::end_step(mid, last, now).1, saying(thinking));
}

// -------------------------------------------------------------- items

/// A text that is done is told as a whole, and stands among the items as the assistant's message.
pub proof fn text_is_told_whole(st: ResponsesV)
    requires
        st.text_open,
    ensures
        ({
            let (after, ev) = responses_stream::close_text_step(st);
            let item = after.items.last().1;
            &&& !after.text_open
            &&& after.items.len() == st.items.len() + 1
            &&& after.items.last().0 == st.text_index
            &&& holds(item, "type"@, "message"@)
            &&& holds(item, "role"@, "assistant"@)
            &&& list_in(item, "content"@).len() == 1
            &&& holds(list_in(item, "content"@)[0], "text"@, st.text)
            &&& ev.len() == 3
            &&& ev[0] matches Fv::Event(n, d) && n == "response.output_text.done"@ && holds(
                d,
                "text"@,
                st.text,
            )
            &&& ev[2] matches Fv::Event(n, d) && n == "response.output_item.done"@ && d.get("item"@)
                == Some(item) && d.get("output_index"@) == Some(Jv::Int(st.text_index))
        }),
{
    words::stream_members();
    words::item_words();
}

/// A thinking that is done is told as a whole, and stands among the items with its summary.
pub proof fn thinking_is_told_whole(st: ResponsesV)
    requires
        st.reasoning_open,
    ensures
        ({
            let (after, ev) = responses_stream::close_reasoning_step(st);
            let item = after.items.last().1;
            &&& !after.reasoning_open
            &&& after.items.len() == st.items.len() + 1
            &&& after.items.last().0 == st.reasoning_index
            &&& holds(item, "type"@, "reasoning"@)
            &&& list_in(item, "summary"@).len() == 1
            &&& holds(list_in(item, "summary"@)[0], "text"@, st.reasoning)
            &&& ev.len() == 3
            &&& ev[0] matches Fv::Event(n, d) && n == "response.reasoning_summary_text.done"@ && holds(
                d,
                "text"@,
                st.reasoning,
            )
            &&& ev[2] matches Fv::Event(n, d) && n == "response.output_item.done"@ && d.get("item"@)
                == Some(item) && d.get("output_index"@) == Some(Jv::Int(st.reasoning_index))
        }),
{
    words::stream_members();
    words::item_words();
}

/// Text is added to the text that is open, and begins a new one otherwise.
pub proof fn text_grows(st: ResponsesV, text: Seq<char>, id: Seq<char>)
    requires
        st.tools.len() == 0,
        text.len() > 0,
    ensures
        ({
            let after = responses_stream::text_step(st, text, id).0;
            &&& after.text_open
            &&& st.text_open ==> after.text == st.text + text && after.text_index == st.text_index
            &&& !st.text_open ==> after.text == text
        }),
        ({
            let after = responses_stream::thinking_step(st, text, id).0;
            &&& after.reasoning_open
            &&& st.reasoning_open ==> after.reasoning == st.reasoning + text && after.reasoning_index
                == st.reasoning_index
            &&& !st.reasoning_open ==> after.reasoning == text
        }),
{
    assert(Seq::<char>::empty() + text =~= text);
}

/// A call that is done stands among the items with its identifier, its name and all its
/// arguments, an empty object where there are none, and is told so.
pub proof fn call_is_told_whole(x: (ResponsesV, Seq<Fv>), tool: StreamToolV)
    requires
        tool.seen.name.len() > 0,
        tool.seen.call_id.len() > 0,
        !x.0.plan.is_custom(tool.seen.name),
        x.0.plan.spaces.len() == 0,
    ensures
        ({
            let (after, ev) = responses_stream::close_tool_step(x, tool);
            let item = after.items.last().1;
            let arguments = if tool.seen.arguments.len() > 0 {
                tool.seen.arguments
            } else {
                "{}"@
            };
            &&& after.items.drop_last() == x.0.items
            &&& after.items.len() == x.0.items.len() + 1
            &&& after.items.last().0 == tool.index
            &&& holds(item, "type"@, "function_call"@)
            &&& holds(item, "call_id"@, tool.seen.call_id)
            &&& holds(item, "name"@, tool.seen.name)
            &&& holds(item, "arguments"@, arguments)
            &&& holds(item, "status"@, "completed"@)
            &&& ev.len() >= 2
            &&& ev.last() matches Fv::Event(n, d) && n == "response.output_item.done"@ && d.get("item"@)
                == Some(item) && d.get("output_index"@) == Some(Jv::Int(tool.index))
            &&& ev[ev.len() - 2] matches Fv::Event(n, d) && n == "response.function_call_arguments.done"@
                && holds(d, "arguments"@, arguments) && holds(d, "call_id"@, tool.seen.call_id)
        }),
{
    words::stream_members();
    words::item_words();
    let after = responses_stream::close_tool_step(x, tool).0;
    assert(after.items.drop_last() =~= x.0.items);
}

/// What is known of a call after some pieces: its arguments are theirs, one after the other.
pub open spec fn call_known(tools: Seq<(int, StreamToolV)>, calls: Seq<Jv>, k: int, n: nat) -> bool {
    let p = responses_stream::find_tool(tools, k, 0);
    if p < tools.len() {
        tools[p].1.seen.arguments == pieces_joined(calls, k, "arguments"@, n)
    } else {
        forall|i: int| 0 <= i < n ==> number_of(#[trigger] calls[i]) != k
    }
}

proof fn place_is_found(tools: Seq<(int, StreamToolV)>, key: int, i: int, p: int)
    requires
        0 <= i <= p <= tools.len(),
        forall|j: int| i <= j < p ==> (#[trigger] tools[j]).0 != key,
        p < tools.len() ==> tools[p].0 == key,
    ensures
        responses_stream::find_tool(tools, key, i) == p,
    decreases p - i,
{
    if i < p {
        assert(tools[i].0 != key);
        place_is_found(tools, key, i + 1, p);
    }
}

proof fn no_pieces(calls: Seq<Jv>, k: int, n: nat)
    requires
        n <= calls.len(),
        forall|i: int| 0 <= i < n ==> number_of(#[trigger] calls[i]) != k,
    ensures
        pieces_joined(calls, k, "arguments"@, n) == Seq::<char>::empty(),
    decreases n,
{
    if n > 0 {
        assert(number_of(calls[n - 1]) != k);
        no_pieces(calls, k, (n - 1) as nat);
    }
}

/// A piece of a call adds its arguments to those of that call, and to those of no other.
pub proof fn pieces_go_to_their_call(
    st: ResponsesV,
    calls: Seq<Jv>,
    n: nat,
    k: int,
    fc: Seq<char>,
    fresh: Seq<char>,
    ctc: Seq<char>,
)
    requires
        n < calls.len(),
        call_known(st.tools, calls, k, n),
    ensures
        call_known(
            responses_stream::tool_step(st, calls[n as int], fc, fresh, ctc).0.tools,
            calls,
            k,
            (n + 1) as nat,
        ),
{
    words::message_words();
    let call = calls[n as int];
    let key = number_of(call);
    assert(json::int_or_zero(call.get("index"@)) == key);
    let s1 = responses_stream::close_reasoning_step(st).0;
    let s2 = responses_stream::close_text_step(s1).0;
    assert(s2.tools == st.tools);
    let s3 = responses_stream::with_tool(s2, key, fc, fresh, ctc);
    place_holds(s2.tools, key, 0);
    place_holds(s2.tools, k, 0);
    place_holds(s3.tools, key, 0);
    let p = responses_stream::find_tool(s3.tools, key, 0);
    let q = responses_stream::find_tool(s2.tools, key, 0);
    if q < s2.tools.len() {
        assert(s3 == s2);
    } else {
        assert(s3.tools.len() == s2.tools.len() + 1);
        assert forall|j: int| 0 <= j < s2.tools.len() implies s3.tools[j] == s2.tools[j] by {}
        assert forall|j: int| 0 <= j < s2.tools.len() implies (#[trigger] s3.tools[j]).0 != key by {
            assert(s2.tools[j].0 != key);
        }
        place_is_found(s3.tools, key, 0, s2.tools.len() as int);
    }
    let before = s3.tools[p].1;
    let after = responses_stream::tool_after(s3.plan, before, call, p == 0);
    let tools = s3.tools.update(p, (key, after));
    let out = responses_stream::tool_step(st, call, fc, fresh, ctc).0.tools;
    assert(out == tools);
    assert(after.seen.arguments == before.seen.arguments + text_at(
        call.get("function"@),
        "arguments"@,
    ));
    let r = responses_stream::find_tool(s2.tools, k, 0);
    if k == key {
        place_is_found(tools, k, 0, p);
        if q >= s2.tools.len() {
            no_pieces(calls, k, n);
            assert(before.seen.arguments =~= Seq::<char>::empty());
        }
    } else if r < s2.tools.len() {
        assert forall|j: int| 0 <= j < r implies (#[trigger] tools[j]).0 != k by {
            if j != p {
                assert(tools[j] == s2.tools[j]);
            }
        }
        assert(r != p);
        assert(tools[r] == s2.tools[r]);
        place_is_found(tools, k, 0, r);
    } else {
        assert forall|j: int| 0 <= j < tools.len() implies (#[trigger] tools[j]).0 != k by {
            if j != p {
                assert(tools[j] == s2.tools[j]);
            }
        }
        place_is_found(tools, k, 0, tools.len() as int);
    }
}

/// A call takes the last identifier and the last name that its pieces give.
pub proof fn pieces_name_their_call(t: collect::ToolV, call: Jv)
    ensures
        ({
            let after = collect::tool_piece(t, call);
            let id = text_at(Some(call), "id"@);
            let name = text_at(call.get("function"@), "name"@);
            &&& after.call_id == if id.len() > 0 {
                id
            } else {
                t.call_id
            }
            &&& after.name == if name.len() > 0 {
                name
            } else {
                t.name
            }
            &&& after.arguments == t.arguments + text_at(call.get("function"@), "arguments"@)
        }),
{
}

/// A call is announced with its number, its identifier and its name, and more of its arguments
/// is said under the same number.
pub proof fn call_is_announced(x: (ResponsesV, Seq<Fv>), tool: StreamToolV, delta: Seq<char>)
    requires
        !x.0.plan.is_custom(tool.seen.name),
        x.0.plan.spaces.len() == 0,
        delta.len() > 0,
    ensures
        ({
            let ev = responses_stream::announce_step(x, tool).1;
            let k = x.1.len() as int;
            &&& ev.len() > k
            &&& ev[k] matches Fv::Event(n, d) && n == "response.output_item.added"@ && d.get(
                "output_index"@,
            ) == Some(Jv::Int(tool.index)) && within(d, "item"@, "type"@) == Some(
                Jv::Str("function_call"@),
            ) && within(d, "item"@, "call_id"@) == Some(Jv::Str(tool.seen.call_id)) && within(
                d,
                "item"@,
                "name"@,
            ) == Some(Jv::Str(tool.seen.name)) && within(d, "item"@, "arguments"@) == Some(
                Jv::Str(Seq::empty()),
            )
        }),
        ({
            let ev = responses_stream::arguments_step(x, tool, delta).1;
            &&& ev.len() == x.1.len() + 1
            &&& ev.last() matches Fv::Event(n, d) && n == "response.function_call_arguments.delta"@
                && d.get("output_index"@) == Some(Jv::Int(tool.index)) && holds(
                d,
                "item_id"@,
                tool.item_id,
            ) && holds(d, "delta"@, delta)
        }),
{
    words::stream_members();
    words::item_words();
}

// -------------------------------------------------------------- the end

proof fn put_in_keeps(sorted: Seq<(int, Jv)>, e: (int, Jv), x: (int, Jv))
    ensures
        responses_stream::insert_item(sorted, e).contains(x) <==> sorted.contains(x) || x == e,
        responses_stream::insert_item(sorted, e).len() == sorted.len() + 1,
    decreases sorted.len(),
{
    let out = responses_stream::insert_item(sorted, e);
    if sorted.len() == 0 || sorted.last().0 <= e.0 {
        assert(out == sorted.push(e));
        assert(out[sorted.len() as int] == e);
        if sorted.contains(x) {
            let i = choose|i: int| 0 <= i < sorted.len() && sorted[i] == x;
            assert(out[i] == x);
        }
    } else {
        let rest = sorted.drop_last();
        put_in_keeps(rest, e, x);
        let inner = responses_stream::insert_item(rest, e);
        assert(out == inner.push(sorted.last()));
        assert(out[inner.len() as int] == sorted.last());
        if inner.contains(x) {
            let i = choose|i: int| 0 <= i < inner.len() && inner[i] == x;
            assert(out[i] == x);
        }
        if sorted.contains(x) {
            let i = choose|i: int| 0 <= i < sorted.len() && sorted[i] == x;
            if i < rest.len() {
                assert(rest[i] == x);
            }
        }
        if rest.contains(x) {
            let i = choose|i: int| 0 <= i < rest.len() && rest[i] == x;
            assert(sorted[i] == x);
        }
        if out.contains(x) {
            let i = choose|i: int| 0 <= i < out.len() && out[i] == x;
            if i < inner.len() {
                assert(inner[i] == x);
            } else {
                assert(sorted[sorted.len() - 1] == x);
            }
        }
    }
}

proof fn put_in_keeps_order(sorted: Seq<(int, Jv)>, e: (int, Jv))
    requires
        forall|i: int, j: int|
            0 <= i < j < sorted.len() ==> (#[trigger] sorted[i]).0 <= (#[trigger] sorted[j]).0,
    ensures
        forall|i: int, j: int|
            #![trigger responses_stream::insert_item(sorted, e)[i], responses_stream::insert_item(
                sorted,
                e,
            )[j]]
            0 <= i < j < responses_stream::insert_item(sorted, e).len()
                ==> responses_stream::insert_item(sorted, e)[i].0 <= responses_stream::insert_item(
                sorted,
                e,
            )[j].0,
    decreases sorted.len(),
{
    let out = responses_stream::insert_item(sorted, e);
    if sorted.len() == 0 || sorted.last().0 <= e.0 {
        assert forall|i: int, j: int| 0 <= i < j < out.len() implies (#[trigger] out[i]).0 <= (
        #[trigger] out[j]).0 by {
            assert(out[i] == sorted[i]);
            assert(sorted[i].0 <= sorted[sorted.len() - 1].0);
            if j < sorted.len() {
                assert(out[j] == sorted[j]);
            }
        }
    } else {
        let rest = sorted.drop_last();
        put_in_keeps_order(rest, e);
        let inner = responses_stream::insert_item(rest, e);
        assert forall|i: int, j: int| 0 <= i < j < out.len() implies (#[trigger] out[i]).0 <= (
        #[trigger] out[j]).0 by {
            assert(out[i] == inner[i]);
            if j < inner.len() {
                assert(out[j] == inner[j]);
            } else {
                put_in_keeps(rest, e, inner[i]);
                assert(inner.contains(inner[i]));
                if inner[i] != e {
                    let k = choose|k: int| 0 <= k < rest.len() && rest[k] == inner[i];
                    assert(sorted[k] == inner[i]);
                    assert(sorted[k].0 <= sorted[sorted.len() - 1].0);
                }
            }
        }
    }
}

/// The items of a response are those that are done, each of them, in the order of their numbers.
pub proof fn items_stand_in_order(items: Seq<(int, Jv)>, n: nat, x: (int, Jv))
    requires
        n <= items.len(),
    ensures
        ({
            let out = responses_stream::sorted_items(items, n);
            &&& out.len() == n
            &&& out.contains(x) <==> items.take(n as int).contains(x)
            &&& forall|i: int, j: int|
                0 <= i < j < out.len() ==> (#[trigger] out[i]).0 <= (#[trigger] out[j]).0
        }),
    decreases n,
{
    if n > 0 {
        items_stand_in_order(items, (n - 1) as nat, x);
        let before = responses_stream::sorted_items(items, (n - 1) as nat);
        put_in_keeps(before, items[n - 1], x);
        put_in_keeps_order(before, items[n - 1]);
        let a = items.take(n - 1);
        let b = items.take(n as int);
        assert(b =~= a.push(items[n - 1]));
        if a.contains(x) {
            let i = choose|i: int| 0 <= i < a.len() && a[i] == x;
            assert(b[i] == x);
        }
        assert(b[n - 1] == items[n - 1]);
        if b.contains(x) {
            let i = choose|i: int| 0 <= i < b.len() && b[i] == x;
            if i < n - 1 {
                assert(a[i] == x);
            }
        }
    }
}

/// The reason that has been told so far.
pub proof fn last_reason_counts(st: ResponsesV, chunk: Jv)
    requires
        chunk.get("choices"@) matches Some(Jv::Arr(list)) && list.len() > 0,
    ensures
        ({
            let reason = text_at(Some(list_in(chunk, "choices"@)[0]), "finish_reason"@);
            let after = responses_stream::noted(st, chunk);
            &&& reason.len() > 0 ==> after.finish == Some(reason)
            &&& reason.len() == 0 ==> after.finish == st.finish
            &&& (chunk.get("usage"@) matches Some(Jv::Obj(u)) ==> after.usage == Some(Jv::Obj(u)))
            &&& chunk.get("usage"@) is None ==> after.usage == st.usage
            &&& (chunk.get("id"@) matches Some(Jv::Str(id)) ==> id.len() > 0 && !st.created_sent
                ==> after.response_id == id)
            &&& st.created_sent ==> after.response_id == st.response_id
        }),
{
}

/// The end of a stream tells whether the response is complete, and why not; it carries the
/// identifier, the model and the usage, in the words of the Responses protocol.
pub proof fn the_end_tells_the_reason(st: ResponsesV, fresh: FreshV, now: int)
    requires
        !st.finished,
    ensures
        ({
            let (after, ev) = responses_stream::end_step(st, fresh, now);
            &&& after.finished
            &&& ev.len() > 0
            &&& ev.last() matches Fv::Event(n, d) && {
                &&& n == "response.completed"@
                &&& d.get("response"@) matches Some(r) && {
                    &&& holds(r, "id"@, st.response_id)
                    &&& holds(r, "model"@, st.model)
                    &&& r.get("created_at"@) == Some(Jv::Int(st.created))
                    &&& st.finish == Some("length"@) ==> holds(r, "status"@, "incomplete"@) && within(
                        r,
                        "incomplete_details"@,
                        "reason"@,
                    ) == Some(Jv::Str("max_output_tokens"@))
                    &&& st.finish == Some("content_filter"@) ==> holds(r, "status"@, "incomplete"@)
                        && within(r, "incomplete_details"@, "reason"@) == Some(
                        Jv::Str("content_filter"@),
                    )
                    &&& st.finish is None || st.finish == Some("stop"@) || st.finish == Some(
                        "tool_calls"@,
                    ) ==> holds(r, "status"@, "completed"@) && r.get("incomplete_details"@) == Some(
                        Jv::Null,
                    )
                }
            }
        }),
{
    let (s1, e1) = responses_stream::created_step(ResponsesV { finished: true, ..st });
    let (s2, e2) = responses_stream::both(e1, responses_stream::close_reasoning_step(s1));
    let (s3, e3) = if !s2.answered {
        responses_stream::both(e2, responses_stream::open_text_step(s2, fresh.msg))
    } else {
        (s2, e2)
    };
    let (s4, e4) = responses_stream::both(e3, responses_stream::close_text_step(s3));
    assert(same_heads(s4, ResponsesV { finished: true, ..st }));
    release_keeps_heads(s4);
    let (s5, e5) = responses_stream::both(e4, responses_stream::release_step(s4));
    last_event_tells(s5, e5, now);
    assert(responses_stream::end_step(st, fresh, now) == responses_stream::say(
        (s5, e5),
        "response.completed"@,
        Jv::obj().put("response"@, told_at_the_end(s5, now)),
    ));
}

spec fn told_at_the_end(st: ResponsesV, now: int) -> Jv {
    let incomplete = responses::incomplete_of(
        crate::protocol::anthropic_stream::text_or_empty(st.finish),
    );
    responses::envelope(
        st.response_id,
        st.model,
        responses::status_of(incomplete),
        responses_stream::bare_items(responses_stream::sorted_items(st.items, st.items.len())),
        responses::responses_usage(st.usage),
        st.request,
        st.created,
        incomplete,
        now,
    )
}

proof fn last_event_tells(st: ResponsesV, ev: Seq<Fv>, now: int)
    ensures
        ({
            let (after, all) = responses_stream::say(
                (st, ev),
                "response.completed"@,
                Jv::obj().put("response"@, told_at_the_end(st, now)),
            );
            &&& after.finished == st.finished
            &&& all.len() > 0
            &&& all.last() matches Fv::Event(n, d) && {
                &&& n == "response.completed"@
                &&& d.get("response"@) == Some(told_at_the_end(st, now))
            }
        }),
        ({
            let r = told_at_the_end(st, now);
            &&& holds(r, "id"@, st.response_id)
            &&& holds(r, "model"@, st.model)
            &&& r.get("created_at"@) == Some(Jv::Int(st.created))
            &&& st.finish == Some("length"@) ==> holds(r, "status"@, "incomplete"@) && within(
                r,
                "incomplete_details"@,
                "reason"@,
            ) == Some(Jv::Str("max_output_tokens"@))
            &&& st.finish == Some("content_filter"@) ==> holds(r, "status"@, "incomplete"@) && within(
                r,
                "incomplete_details"@,
                "reason"@,
            ) == Some(Jv::Str("content_filter"@))
            &&& st.finish is None || st.finish == Some("stop"@) || st.finish == Some("tool_calls"@)
                ==> holds(r, "status"@, "completed"@) && r.get("incomplete_details"@) == Some(Jv::Null)
            &&& r.get("output"@) == Some(
                Jv::Arr(
                    responses_stream::bare_items(
                        responses_stream::sorted_items(st.items, st.items.len()),
                    ),
                ),
            )
        }),
{
    words::stream_members();
    words::envelope_words();
    words::reason_words();
    reveal_strlit("length");
    reveal_strlit("content_filter");
    assert("length"@.len() == 6);
    assert("content_filter"@.len() == 14);
}

proof fn release_keeps_heads(st: ResponsesV)
    ensures
        same_heads(responses_stream::release_step(st).0, st),
{
    closed_calls_keep_heads(st, st.tools.len());
    let s1 = responses_stream::close_calls_step(st).0;
    held_keeps_heads(s1, s1.held.len());
}

spec fn same_heads(a: ResponsesV, b: ResponsesV) -> bool {
    &&& a.response_id == b.response_id
    &&& a.model == b.model
    &&& a.created == b.created
    &&& a.finish == b.finish
    &&& a.usage == b.usage
    &&& a.request == b.request
    &&& a.finished == b.finished
}

proof fn closed_calls_keep_heads(st: ResponsesV, n: nat)
    ensures
        same_heads(responses_stream::close_tools_step(st, n).0, st),
    decreases n,
{
    if n > 0 {
        closed_calls_keep_heads(st, (n - 1) as nat);
    }
}

proof fn held_keeps_heads(st: ResponsesV, n: nat)
    ensures
        same_heads(responses_stream::held_step(st, n).0, st),
    decreases n,
{
    if n > 0 {
        held_keeps_heads(st, (n - 1) as nat);
    }
}

/// An error of the upstream ends the stream: it is told with its words, and the response has
/// failed.
pub proof fn errors_are_told(st: ResponsesV, chunk: Jv, s: Seq<char>, fresh: FreshV)
    requires
        !st.finished,
        st.created_sent,
        within(chunk, "error"@, "message"@) == Some(Jv::Str(s)),
        s.len() > 0,
    ensures
        ({
            let (after, ev) = responses_stream::chunk_step(st, chunk, fresh);
            &&& after.finished
            &&& ev.len() == 2
            &&& ev[0] matches Fv::Event(n, d) && n == "error"@ && holds(d, "message"@, s)
            &&& ev[1] matches Fv::Event(n, d) && n == "response.failed"@ && (d.get("response"@) matches Some(
                r,
            ) && holds(r, "status"@, "failed"@) && within(r, "error"@, "message"@) == Some(Jv::Str(s)))
        }),
{
    words::stream_members();
    words::envelope_words();
}

/// A stream begins by announcing the response as under way.
pub proof fn the_beginning_is_announced(st: ResponsesV)
    requires
        !st.created_sent,
    ensures
        ({
            let (after, ev) = responses_stream::created_step(st);
            &&& after.created_sent
            &&& ev.len() == 1
            &&& ev[0] matches Fv::Event(n, d) && n == "response.created"@ && (d.get("response"@) matches Some(
                r,
            ) && holds(r, "status"@, "in_progress"@) && holds(r, "id"@, st.response_id) && holds(
                r,
                "model"@,
                st.model,
            ) && r.get("output"@) == Some(Jv::Arr(Seq::empty())))
        }),
{
    words::stream_members();
    words::envelope_words();
}

/// The code of an upstream error is told with it, in both events; nothing stands where it has
/// none. What failed is still told by its identifier and its model, without any output.
pub proof fn error_codes_are_told(st: ResponsesV, chunk: Jv, s: Seq<char>, fresh: FreshV)
    requires
        !st.finished,
        st.created_sent,
        within(chunk, "error"@, "message"@) == Some(Jv::Str(s)),
        s.len() > 0,
    ensures
        ({
            let (_, ev) = responses_stream::chunk_step(st, chunk, fresh);
            let code = within(chunk, "error"@, "code"@);
            let told = match code {
                Some(Jv::Str(c)) if c.len() > 0 => Jv::Str(c),
                Some(Jv::Int(n)) if n != 0 => Jv::Int(n),
                _ => Jv::Null,
            };
            (code is None || code->0 is Str || code->0 is Int) ==> {
                &&& ev.len() == 2
                &&& ev[0] matches Fv::Event(_, d) && d.get("code"@) == Some(told) && d.get("param"@)
                    == Some(Jv::Null)
                &&& ev[1] matches Fv::Event(_, d) && (d.get("response"@) matches Some(r) && within(
                    r,
                    "error"@,
                    "code"@,
                ) == Some(told) && holds(r, "id"@, st.response_id) && holds(r, "model"@, st.model)
                    && r.get("output"@) == Some(Jv::Arr(Seq::empty())))
            }
        }),
{
    words::stream_members();
    words::envelope_words();
    reveal_strlit("code");
    reveal_strlit("param");
    reveal_strlit("message");
    reveal_strlit("type");
    reveal_strlit("sequence_number");
    reveal_strlit("error");
    reveal_strlit("response");
    assert("code"@.len() == 4 && "code"@[0] == 'c');
    assert("type"@.len() == 4 && "type"@[0] == 't');
    assert("param"@.len() == 5 && "param"@[0] == 'p');
    assert("error"@.len() == 5 && "error"@[0] == 'e');
    assert("message"@.len() == 7);
    assert("response"@.len() == 8);
    assert("sequence_number"@.len() == 15);
}

/// A text that is begun is announced at the next place, as a message of the assistant that is
/// under way, with a part that is still empty.
pub proof fn a_text_is_begun(st: ResponsesV, id: Seq<char>)
    ensures
        st.text_open ==> responses_stream::open_text_step(st, id) == (st, Seq::<Fv>::empty()),
        !st.text_open ==> ({
            let (after, ev) = responses_stream::open_text_step(st, id);
            &&& after.text_open && after.text_id == id && after.text.len() == 0 && after.answered
            &&& after.text_index == st.next_index
            &&& ev.len() == 2
            &&& ev[0] matches Fv::Event(n, d) && n == "response.output_item.added"@ && d.get(
                "output_index"@,
            ) == Some(Jv::Int(st.next_index)) && (d.get("item"@) matches Some(item) && holds(
                item,
                "type"@,
                "message"@,
            ) && holds(item, "id"@, id) && holds(item, "status"@, "in_progress"@) && holds(
                item,
                "role"@,
                "assistant"@,
            ) && (item.get("content"@) matches Some(Jv::Arr(parts)) && parts.len() == 1 && holds(
                parts[0],
                "type"@,
                "output_text"@,
            ) && holds(parts[0], "text"@, Seq::empty())))
            &&& ev[1] matches Fv::Event(n, d) && n == "response.content_part.added"@ && d.get(
                "output_index"@,
            ) == Some(Jv::Int(st.next_index)) && holds(d, "item_id"@, id) && d.get("content_index"@)
                == Some(Jv::Int(0)) && (d.get("part"@) matches Some(part) && holds(
                part,
                "type"@,
                "output_text"@,
            ) && holds(part, "text"@, Seq::empty()))
        }),
{
    words::stream_members();
    words::envelope_words();
    words::item_words();
}

} // verus!
