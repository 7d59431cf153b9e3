//! What comes over the wire, piece by piece, as the events that it holds.

use crate::json::Jv;
use crate::json;
use crate::protocol::Fv;
use crate::protocol::anthropic_outbound::InboundV;
use crate::protocol::anthropic_outbound;
use crate::protocol::anthropic_stream::AnthropicV;
use crate::protocol::anthropic_stream;
use crate::protocol::chunks;
use crate::protocol::collect;
use crate::protocol::responses_outbound::OutboundV;
use crate::protocol::responses_outbound;
use crate::protocol::responses_stream::ResponsesV;
use crate::protocol::responses_stream;
use crate::protocol;
use crate::text;
use vstd::prelude::*;
use vstd::string::*;

verus! {

/// Whether bytes bring exactly one payload, and that holds this value.
pub open spec fn brings(line: Seq<u8>, bytes: Seq<u8>, data: Seq<char>, value: Jv) -> bool {
    &&& protocol::payloads(line, bytes) == seq![Some(data)]
    &&& json::parsed_json(data) == Some(value)
}

/// Whether bytes bring exactly one payload, and that cannot be read.
pub open spec fn brings_noise(line: Seq<u8>, bytes: Seq<u8>, data: Seq<char>) -> bool {
    &&& protocol::payloads(line, bytes) == seq![Some(data)]
    &&& json::parsed_json(data) is None
}

/// A chunk that comes over the wire is taken into the Messages stream; noise and parts of a line
/// say nothing, and the closing mark ends the stream.
pub proof fn messages_stream_takes_chunks(
    st: AnthropicV,
    bytes: Seq<u8>,
    fresh: Seq<Seq<Seq<char>>>,
    data: Seq<char>,
    chunk: Jv,
)
    requires
        fresh.len() > 0,
    ensures
        ({
            let out = anthropic_stream::push_step(st, bytes, fresh);
            let now = AnthropicV { line: protocol::line_left(st.line, bytes), ..st };
            &&& brings(st.line, bytes, data, chunk) ==> out == anthropic_stream::chunk_step(
                now,
                chunk,
                fresh[0],
            )
            &&& brings_noise(st.line, bytes, data) || protocol::payloads(st.line, bytes).len() == 0
                ==> out == (now, Seq::<Fv>::empty())
            &&& protocol::payloads(st.line, bytes) == seq![None::<Seq<char>>] && now.line.len() == 0
                ==> out == anthropic_stream::end_step(now)
        }),
{
    reveal_with_fuel(anthropic_stream::payloads_step, 2);
    let list = protocol::payloads(st.line, bytes);
    let now = AnthropicV { line: protocol::line_left(st.line, bytes), ..st };
    let nothing = Seq::<Fv>::empty();
    let a = anthropic_stream::chunk_step(now, chunk, fresh[0]).1;
    assert(nothing + a =~= a);
    assert(nothing + nothing =~= nothing);
    let e = anthropic_stream::end_step(now).1;
    assert(nothing + e =~= e);
    assert(now.line.len() == 0 ==> now.line =~= Seq::<u8>::empty());
}

/// So is one that comes to the Responses stream.
pub proof fn responses_stream_takes_chunks(
    st: ResponsesV,
    bytes: Seq<u8>,
    given: Seq<responses_stream::Given>,
    data: Seq<char>,
    chunk: Jv,
)
    requires
        given.len() > 0,
    ensures
        ({
            let out = responses_stream::push_step(st, bytes, given);
            let now = ResponsesV { line: protocol::line_left(st.line, bytes), ..st };
            &&& brings(st.line, bytes, data, chunk) ==> out == responses_stream::chunk_step(
                now,
                chunk,
                given[0].piece,
            )
            &&& brings_noise(st.line, bytes, data) || protocol::payloads(st.line, bytes).len() == 0
                ==> out == (now, Seq::<Fv>::empty())
            &&& protocol::payloads(st.line, bytes) == seq![None::<Seq<char>>] && now.line.len() == 0
                ==> out == responses_stream::end_step(now, given[0].end, given[0].now)
        }),
{
    reveal_with_fuel(responses_stream::payloads_step, 2);
    let now = ResponsesV { line: protocol::line_left(st.line, bytes), ..st };
    let nothing = Seq::<Fv>::empty();
    let a = responses_stream::chunk_step(now, chunk, given[0].piece).1;
    assert(nothing + a =~= a);
    assert(nothing + nothing =~= nothing);
    let e = responses_stream::end_step(now, given[0].end, given[0].now).1;
    assert(nothing + e =~= e);
    assert(now.line.len() == 0 ==> now.line =~= Seq::<u8>::empty());
}

/// An event of a Messages upstream is taken into the chat stream; the closing mark ends it.
pub proof fn chat_stream_takes_message_events(
    st: InboundV,
    bytes: Seq<u8>,
    given: Seq<chunks::Given>,
    data: Seq<char>,
    event: Jv,
)
    requires
        given.len() > 0,
    ensures
        ({
            let out = anthropic_outbound::push_step(st, bytes, given);
            let now = InboundV { line: protocol::line_left(st.line, bytes), ..st };
            &&& brings(st.line, bytes, data, event) ==> out == anthropic_outbound::event_step(
                now,
                event,
                given[0].ids,
            )
            &&& brings_noise(st.line, bytes, data) || protocol::payloads(st.line, bytes).len() == 0
                ==> out == (now, Seq::<Fv>::empty())
            &&& protocol::payloads(st.line, bytes) == seq![None::<Seq<char>>] && now.line.len() == 0
                ==> out == anthropic_outbound::complete_step(now, given[0].end)
        }),
{
    reveal_with_fuel(anthropic_outbound::payloads_step, 2);
    let now = InboundV { line: protocol::line_left(st.line, bytes), ..st };
    let nothing = Seq::<Fv>::empty();
    let a = anthropic_outbound::event_step(now, event, given[0].ids).1;
    assert(nothing + a =~= a);
    assert(nothing + nothing =~= nothing);
    let e = anthropic_outbound::complete_step(now, given[0].end).1;
    assert(nothing + e =~= e);
    assert(now.line.len() == 0 ==> now.line =~= Seq::<u8>::empty());
}

/// So is one of a Responses upstream.
pub proof fn chat_stream_takes_response_events(
    st: OutboundV,
    bytes: Seq<u8>,
    given: Seq<chunks::Given>,
    data: Seq<char>,
    event: Jv,
)
    requires
        given.len() > 0,
    ensures
        ({
            let out = responses_outbound::push_step(st, bytes, given);
            let now = OutboundV { line: protocol::line_left(st.line, bytes), ..st };
            &&& brings(st.line, bytes, data, event) ==> out == responses_outbound::event_step(
                now,
                event,
                given[0].ids,
            )
            &&& brings_noise(st.line, bytes, data) || protocol::payloads(st.line, bytes).len() == 0
                ==> out == (now, Seq::<Fv>::empty())
            &&& protocol::payloads(st.line, bytes) == seq![None::<Seq<char>>] && now.line.len() == 0
                ==> out == responses_outbound::complete_step(now, None, given[0].end)
        }),
{
    reveal_with_fuel(responses_outbound::payloads_step, 2);
    let now = OutboundV { line: protocol::line_left(st.line, bytes), ..st };
    let nothing = Seq::<Fv>::empty();
    let a = responses_outbound::event_step(now, event, given[0].ids).1;
    assert(nothing + a =~= a);
    assert(nothing + nothing =~= nothing);
    let e = responses_outbound::complete_step(now, None, given[0].end).1;
    assert(nothing + e =~= e);
    assert(now.line.len() == 0 ==> now.line =~= Seq::<u8>::empty());
}

/// A chunk is gathered by those that gather a stream; all else leaves what was gathered as it is.
pub proof fn gatherers_take_chunks(
    a: anthropic_stream::CollectorV,
    r: responses_stream::CollectorV,
    bytes: Seq<u8>,
    data: Seq<char>,
    chunk: Jv,
)
    ensures
        brings(a.line, bytes, data, chunk) ==> anthropic_stream::collect_bytes(a, bytes).seen
            == collect::collect(a.seen, chunk),
        brings_noise(a.line, bytes, data) || protocol::payloads(a.line, bytes).len() == 0
            ==> anthropic_stream::collect_bytes(a, bytes).seen == a.seen,
        brings(r.line, bytes, data, chunk) ==> responses_stream::collect_bytes(r, bytes).seen
            == collect::collect(r.seen, chunk),
        brings_noise(r.line, bytes, data) || protocol::payloads(r.line, bytes).len() == 0
            ==> responses_stream::collect_bytes(r, bytes).seen == r.seen,
{
    reveal_with_fuel(collect::collect_payloads, 2);
    reveal_with_fuel(responses_stream::collect_list, 2);
}

/// The identifiers that are given are of their kinds: those of a call as asked for, those of an
/// answer as of a chat answer.
pub proof fn identifiers_are_of_their_kinds(given: chunks::Given, call: Seq<char>)
    requires
        given.fits(call),
    ensures
        protocol::is_id(call, given.ids.call),
        protocol::is_id("chatcmpl"@, given.ids.id),
        protocol::is_id("chatcmpl"@, given.end),
        text::has_prefix(given.end, "chatcmpl_"@),
        text::has_prefix(given.ids.call, call + "_"@),
{
    reveal_strlit("chatcmpl");
    reveal_strlit("chatcmpl_");
    reveal_strlit("_");
    assert("chatcmpl"@ + "_"@ =~= "chatcmpl_"@);
    let a = choose|tail: Seq<char>| #[trigger]
        protocol::is_hex(tail) && tail.len() > 0 && given.end == "chatcmpl"@ + "_"@ + tail;
    assert(given.end.take(9) =~= "chatcmpl_"@);
    let b = choose|tail: Seq<char>| #[trigger]
        protocol::is_hex(tail) && tail.len() > 0 && given.ids.call == call + "_"@ + tail;
    assert(given.ids.call.take((call + "_"@).len() as int) =~= call + "_"@);
}

} // verus!
