//! A Messages request of a client as a chat request.

use crate::json::Jv;
use crate::laws::words;
use crate::laws::{holds, is_kind, list_in, within};
use crate::protocol::anthropic;
use crate::protocol::chat;
use crate::protocol;
use crate::text;
use vstd::prelude::*;
use vstd::string::*;

verus! {

/// A request is refused exactly where it has no list of messages.
pub proof fn messages_are_needed(body: Jv, fresh: Seq<Seq<Seq<char>>>)
    ensures
        anthropic::chat_of_anthropic(body, fresh) is Err <==> !(body.get("messages"@) matches Some(
            Jv::Arr(_),
        )),
        anthropic::chat_of_anthropic(body, fresh) matches Err(e) ==> e == "缺少 messages 数组"@,
{
}

/// The model, the sampling and the metadata of a request go on as they are; what is `null`
/// or missing does not go on.
pub proof fn plain_members_go_on(body: Jv, fresh: Seq<Seq<Seq<char>>>, chat: Jv)
    requires
        anthropic::chat_of_anthropic(body, fresh) == Ok::<Jv, Seq<char>>(chat),
    ensures
        body.get("model"@) matches Some(m) ==> chat.get("model"@) == Some(m),
        chat.get("stream"@) == Some(Jv::Bool(body.get("stream"@) == Some(Jv::Bool(true)))),
        body.get("max_tokens"@) matches Some(Jv::Int(n)) ==> (0 < n <= i64::MAX ==> chat.get(
            "max_tokens"@,
        ) == Some(Jv::Int(n))),
        body.get("max_tokens"@) is None ==> chat.get("max_tokens"@) == Some(Jv::Int(8192)),
        body.get("max_tokens"@) matches Some(Jv::Int(n)) ==> (n <= 0 ==> chat.get("max_tokens"@)
            == Some(Jv::Int(8192))),
        body.get("temperature"@) matches Some(v) ==> v !is Null ==> chat.get("temperature"@)
            == Some(v),
        body.get("temperature"@) is None || body.get("temperature"@) == Some(Jv::Null)
            ==> chat.get("temperature"@) is None,
        body.get("top_p"@) matches Some(v) ==> v !is Null ==> chat.get("top_p"@) == Some(v),
        body.get("top_p"@) is None || body.get("top_p"@) == Some(Jv::Null) ==> chat.get("top_p"@)
            is None,
        body.get("metadata"@) matches Some(v) ==> v !is Null ==> chat.get("metadata"@) == Some(v),
        body.get("metadata"@) is None || body.get("metadata"@) == Some(Jv::Null) ==> chat.get(
            "metadata"@,
        ) is None,
        body.get("stop_sequences"@) matches Some(Jv::Arr(s)) ==> chat.get("stop"@) == Some(
            Jv::Arr(s),
        ),
        body.get("stop_sequences"@) is None || body.get("stop_sequences"@) == Some(Jv::Null)
            ==> chat.get("stop"@) is None,
        body.get("tools"@) is None ==> chat.get("tools"@) is None,
        body.get("tool_choice"@) is None ==> chat.get("tool_choice"@) is None,
{
    words::request_words();
}

/// A system prompt that is a text stands first, as it is; a blank one does not stand there.
pub proof fn system_prompt_stands_first(body: Jv, fresh: Seq<Seq<Seq<char>>>, chat: Jv, s: Seq<char>)
    requires
        anthropic::chat_of_anthropic(body, fresh) == Ok::<Jv, Seq<char>>(chat),
        body.get("system"@) == Some(Jv::Str(s)),
        text::trimmed(s).len() > 0,
    ensures
        list_in(chat, "messages"@).len() > 0,
        holds(list_in(chat, "messages"@)[0], "role"@, "system"@),
        holds(list_in(chat, "messages"@)[0], "content"@, s),
{
    words::request_words();
    words::message_words();
}

/// The texts of a list, those that are not empty, with an empty line between them.
pub open spec fn paragraphs(parts: Seq<Jv>, n: nat) -> Seq<char>
    decreases n,
{
    if n == 0 {
        Seq::empty()
    } else {
        let before = paragraphs(parts, (n - 1) as nat);
        match parts[n - 1].get("text"@) {
            Some(Jv::Str(s)) => if s.len() == 0 {
                before
            } else if before.len() == 0 {
                s
            } else {
                before + "\n\n"@ + s
            },
            _ => before,
        }
    }
}

proof fn paragraphs_are_joined(parts: Seq<Jv>, n: nat)
    requires
        n <= parts.len(),
        forall|i: int| 0 <= i < parts.len() ==> (#[trigger] parts[i]).get("text"@) matches Some(Jv::Str(_)),
    ensures
        anthropic::system_join(parts, n) == paragraphs(parts, n),
    decreases n,
{
    if n > 0 {
        paragraphs_are_joined(parts, (n - 1) as nat);
        assert(parts[n - 1].get("text"@) matches Some(Jv::Str(_)));
    }
}

/// A system prompt in several texts stands first, with an empty line between them.
pub proof fn system_prompt_is_joined(
    body: Jv,
    fresh: Seq<Seq<Seq<char>>>,
    chat: Jv,
    parts: Seq<Jv>,
)
    requires
        anthropic::chat_of_anthropic(body, fresh) == Ok::<Jv, Seq<char>>(chat),
        body.get("system"@) == Some(Jv::Arr(parts)),
        forall|i: int| 0 <= i < parts.len() ==> (#[trigger] parts[i]).get("text"@) matches Some(Jv::Str(_)),
        text::trimmed(paragraphs(parts, parts.len())).len() > 0,
    ensures
        list_in(chat, "messages"@).len() > 0,
        holds(list_in(chat, "messages"@)[0], "role"@, "system"@),
        holds(list_in(chat, "messages"@)[0], "content"@, paragraphs(parts, parts.len())),
{
    words::request_words();
    words::message_words();
    paragraphs_are_joined(parts, parts.len());
}

proof fn plain_messages(input: Seq<Jv>, fresh: Seq<Seq<Seq<char>>>, n: nat)
    requires
        n <= input.len(),
        forall|i: int|
            0 <= i < input.len() ==> (#[trigger] input[i]).get("content"@) matches Some(Jv::Str(_)),
    ensures
        anthropic::all_chat_messages(input, fresh, n).len() == n,
        forall|i: int|
            0 <= i < n ==> (#[trigger] anthropic::all_chat_messages(input, fresh, n)[i])
                == chat::plain_message(anthropic::chat_role(input[i]), input[i].field("content"@)),
    decreases n,
{
    if n > 0 {
        plain_messages(input, fresh, (n - 1) as nat);
        assert(input[n - 1].get("content"@) matches Some(Jv::Str(_)));
    }
}

/// A conversation in plain texts goes on message by message, in its order, behind the system
/// prompt: each text as it is, the assistant's under its role and all else under the user's.
pub proof fn plain_conversation_goes_on(
    body: Jv,
    fresh: Seq<Seq<Seq<char>>>,
    chat: Jv,
    input: Seq<Jv>,
)
    requires
        anthropic::chat_of_anthropic(body, fresh) == Ok::<Jv, Seq<char>>(chat),
        body.get("messages"@) == Some(Jv::Arr(input)),
        body.get("system"@) is None,
        forall|i: int|
            0 <= i < input.len() ==> (#[trigger] input[i]).get("content"@) matches Some(Jv::Str(_)),
    ensures
        list_in(chat, "messages"@).len() == input.len(),
        forall|i: int|
            0 <= i < input.len() ==> (#[trigger] list_in(chat, "messages"@)[i]).get("content"@)
                == input[i].get("content"@),
        forall|i: int|
            0 <= i < input.len() ==> (input[i].get("role"@) matches Some(Jv::Str(r)) ==> holds(
                #[trigger] list_in(chat, "messages"@)[i],
                "role"@,
                if text::lowercase(r) == "assistant"@ {
                    "assistant"@
                } else {
                    "user"@
                },
            )),
{
    words::request_words();
    words::message_words();
    plain_messages(input, fresh, input.len());
    let all = anthropic::all_chat_messages(input, fresh, input.len());
    assert(Seq::<Jv>::empty() + all =~= all);
}

proof fn sorted_keeps(parts: Seq<Jv>, fresh: Seq<Seq<char>>, n: nat, i: int)
    requires
        0 <= i < n <= parts.len(),
        parts[i] !is Str,
    ensures
        ({
            let st = anthropic::sort_blocks(parts, fresh, n);
            let kind = text::lowercase(protocol::loose_field(parts[i], "type"@));
            &&& kind == "tool_result"@ ==> exists|j: int|
                0 <= j < st.results.len() && #[trigger] st.results[j] == anthropic::tool_message(
                    parts[i],
                    protocol::text_at(fresh, i),
                )
            &&& kind == "tool_use"@ ==> exists|j: int|
                0 <= j < st.calls.len() && #[trigger] st.calls[j] == chat::chat_call(
                    protocol::or_else(protocol::loose_field(parts[i], "id"@), protocol::text_at(fresh, i)),
                    protocol::loose_field(parts[i], "name"@),
                    protocol::or_else(protocol::loose(parts[i].field("input"@)), "{}"@),
                )
            &&& kind == "image"@ && anthropic::chat_image(parts[i]) is Some ==> exists|j: int|
                0 <= j < st.normal.len() && #[trigger] st.normal[j] == anthropic::chat_image(parts[i])->0
        }),
    decreases n,
{
    words::kind_words();
    let st = anthropic::sort_blocks(parts, fresh, n);
    let before = anthropic::sort_blocks(parts, fresh, (n - 1) as nat);
    let kind = text::lowercase(protocol::loose_field(parts[i], "type"@));
    if i < n - 1 {
        sorted_keeps(parts, fresh, (n - 1) as nat, i);
        if kind == "tool_result"@ {
            let want = anthropic::tool_message(parts[i], protocol::text_at(fresh, i));
            let j = choose|j: int| 0 <= j < before.results.len() && #[trigger] before.results[j] == want;
            assert(st.results[j] == want);
        }
        if kind == "tool_use"@ {
            let want = chat::chat_call(
                protocol::or_else(protocol::loose_field(parts[i], "id"@), protocol::text_at(fresh, i)),
                protocol::loose_field(parts[i], "name"@),
                protocol::or_else(protocol::loose(parts[i].field("input"@)), "{}"@),
            );
            let j = choose|j: int| 0 <= j < before.calls.len() && #[trigger] before.calls[j] == want;
            assert(st.calls[j] == want);
        }
        if kind == "image"@ && anthropic::chat_image(parts[i]) is Some {
            let want = anthropic::chat_image(parts[i])->0;
            let j = choose|j: int| 0 <= j < before.normal.len() && #[trigger] before.normal[j] == want;
            assert(st.normal[j] == want);
        }
    } else {
        if kind == "tool_result"@ {
            assert(st.results[before.results.len() as int] == st.results.last());
        }
        if kind == "tool_use"@ {
            assert(st.calls[before.calls.len() as int] == st.calls.last());
        }
        if kind == "image"@ && anthropic::chat_image(parts[i]) is Some {
            assert(st.normal[before.normal.len() as int] == st.normal.last());
        }
    }
}

/// Whether a message answers a tool call with a text.
pub open spec fn answers(m: Jv, id: Seq<char>) -> bool {
    holds(m, "role"@, "tool"@) && holds(m, "tool_call_id"@, id)
}

/// Every tool result of a message gets a message of its own, under the identifier of its call
/// and with its text; where the result is empty this is said.
pub proof fn every_result_gets_its_message(
    message: Jv,
    fresh: Seq<Seq<char>>,
    blocks: Seq<Jv>,
    i: int,
    id: Seq<char>,
)
    requires
        message.get("content"@) == Some(Jv::Arr(blocks)),
        0 <= i < blocks.len(),
        blocks[i].get("tool_use_id"@) == Some(Jv::Str(id)),
        id.len() > 0,
    ensures
        is_kind(blocks[i], "tool_result"@) ==> exists|j: int|
            0 <= j < anthropic::chat_messages(message, fresh).len() && answers(
                #[trigger] anthropic::chat_messages(message, fresh)[j],
                id,
            ) && (blocks[i].get("content"@) matches Some(Jv::Str(s)) ==> holds(
                anthropic::chat_messages(message, fresh)[j],
                "content"@,
                if s.len() > 0 {
                    s
                } else {
                    "(empty)"@
                },
            )) && (blocks[i].get("content"@) is None ==> holds(
                anthropic::chat_messages(message, fresh)[j],
                "content"@,
                "(empty)"@,
            )),
{
    words::message_words();
    if is_kind(blocks[i], "tool_result"@) {
        sorted_keeps(blocks, fresh, blocks.len(), i);
        let st = anthropic::sort_blocks(blocks, fresh, blocks.len());
        let want = anthropic::tool_message(blocks[i], protocol::text_at(fresh, i));
        let k = choose|k: int| 0 <= k < st.results.len() && #[trigger] st.results[k] == want;
        let all = anthropic::chat_messages(message, fresh);
        let main = anthropic::main_message(st, anthropic::chat_role(message));
        if anthropic::chat_role(message) == "assistant"@ || st.calls.len() > 0 {
            assert(all == main + st.results);
            assert(all[main.len() + k] == want);
        } else {
            assert(all == st.results + main);
            assert(all[k] == want);
        }
    }
}

/// Whether a message makes a call.
pub open spec fn makes_call(m: Jv, id: Seq<char>, name: Seq<char>, arguments: Seq<char>) -> bool {
    &&& holds(m, "role"@, "assistant"@)
    &&& exists|k: int|
        0 <= k < list_in(m, "tool_calls"@).len() && is_call(
            #[trigger] list_in(m, "tool_calls"@)[k],
            id,
            name,
            arguments,
        )
}

/// Whether a tool call of the chat protocol is that one.
pub open spec fn is_call(c: Jv, id: Seq<char>, name: Seq<char>, arguments: Seq<char>) -> bool {
    &&& holds(c, "id"@, id)
    &&& holds(c, "type"@, "function"@)
    &&& within(c, "function"@, "name"@) == Some(Jv::Str(name))
    &&& within(c, "function"@, "arguments"@) == Some(Jv::Str(arguments))
}

/// Every tool call of a message is made by an assistant's message, under its identifier and
/// its name, with its input as a text; a call without an input gets an empty object.
pub proof fn every_call_is_made(
    message: Jv,
    fresh: Seq<Seq<char>>,
    blocks: Seq<Jv>,
    i: int,
    id: Seq<char>,
    name: Seq<char>,
)
    requires
        message.get("content"@) == Some(Jv::Arr(blocks)),
        0 <= i < blocks.len(),
        blocks[i].get("id"@) == Some(Jv::Str(id)),
        id.len() > 0,
        blocks[i].get("name"@) == Some(Jv::Str(name)),
    ensures
        is_kind(blocks[i], "tool_use"@) ==> exists|j: int|
            0 <= j < anthropic::chat_messages(message, fresh).len() && (blocks[i].get("input"@)
                is None ==> makes_call(
                #[trigger] anthropic::chat_messages(message, fresh)[j],
                id,
                name,
                "{}"@,
            )) && (blocks[i].get("input"@) matches Some(Jv::Obj(o)) ==> crate::json::json_text_of(
                Jv::Obj(o),
            ).len() > 0 ==> makes_call(
                anthropic::chat_messages(message, fresh)[j],
                id,
                name,
                crate::json::json_text_of(Jv::Obj(o)),
            )),
{
    words::message_words();
    if is_kind(blocks[i], "tool_use"@) {
        sorted_keeps(blocks, fresh, blocks.len(), i);
        let st = anthropic::sort_blocks(blocks, fresh, blocks.len());
        let want = chat::chat_call(
            id,
            name,
            protocol::or_else(protocol::loose(blocks[i].field("input"@)), "{}"@),
        );
        let k = choose|k: int| 0 <= k < st.calls.len() && #[trigger] st.calls[k] == want;
        let all = anthropic::chat_messages(message, fresh);
        let main = anthropic::main_message(st, anthropic::chat_role(message));
        assert(all == main + st.results);
        assert(main.len() == 1);
        assert(all[0] == main[0]);
        assert(list_in(all[0], "tool_calls"@) == st.calls);
        assert(list_in(all[0], "tool_calls"@)[k] == want);
    }
}

/// The texts of a list of blocks, one after the other.
pub open spec fn all_text(blocks: Seq<Jv>, n: nat) -> Seq<char>
    decreases n,
{
    if n == 0 {
        Seq::empty()
    } else {
        all_text(blocks, (n - 1) as nat) + (match blocks[n - 1].get("text"@) {
            Some(Jv::Str(s)) => s,
            _ => Seq::empty(),
        })
    }
}

proof fn texts_are_sorted(blocks: Seq<Jv>, fresh: Seq<Seq<char>>, n: nat)
    requires
        n <= blocks.len(),
        forall|i: int|
            0 <= i < blocks.len() ==> is_kind(#[trigger] blocks[i], "text"@) && blocks[i].get("text"@)
                matches Some(Jv::Str(_)),
        text::lowercase("text"@) == "text"@,
    ensures
        ({
            let st = anthropic::sort_blocks(blocks, fresh, n);
            &&& st.results.len() == 0
            &&& st.calls.len() == 0
            &&& st.reasoning.len() == 0
            &&& st.normal.len() == n
            &&& anthropic::only_text(st.normal)
            &&& anthropic::text_fields(st.normal, n) == all_text(blocks, n)
        }),
    decreases n,
{
    words::kind_words();
    words::message_words();
    if n > 0 {
        texts_are_sorted(blocks, fresh, (n - 1) as nat);
        assert(is_kind(blocks[n - 1], "text"@));
        let before = anthropic::sort_blocks(blocks, fresh, (n - 1) as nat).normal;
        let after = anthropic::sort_blocks(blocks, fresh, n).normal;
        assert(blocks[n - 1].get("text"@) matches Some(Jv::Str(_)));
        let s = blocks[n - 1].get("text"@)->0->Str_0;
        assert(after == before.push(chat::text_block(s)));
        fields_of_prefix(before, chat::text_block(s), (n - 1) as nat);
        assert forall|i: int| 0 <= i < after.len() implies {
            let kind = text::lowercase(protocol::loose_field(#[trigger] after[i], "type"@));
            kind.len() == 0 || kind == "text"@
        } by {
            if i < before.len() {
                assert(after[i] == before[i]);
            } else {
                assert(after[i] == chat::text_block(s));
            }
        }
    }
}

proof fn fields_of_prefix(list: Seq<Jv>, more: Jv, n: nat)
    requires
        n <= list.len(),
    ensures
        anthropic::text_fields(list.push(more), n) == anthropic::text_fields(list, n),
    decreases n,
{
    if n > 0 {
        fields_of_prefix(list, more, (n - 1) as nat);
        assert(list.push(more)[n - 1] == list[n - 1]);
    }
}

/// A message in text blocks becomes one message with all their text, under its role.
pub proof fn text_blocks_become_one_text(message: Jv, fresh: Seq<Seq<char>>, blocks: Seq<Jv>)
    requires
        message.get("content"@) == Some(Jv::Arr(blocks)),
        blocks.len() > 0,
    ensures
        text::lowercase("text"@) == "text"@ && (forall|i: int|
            0 <= i < blocks.len() ==> is_kind(#[trigger] blocks[i], "text"@) && blocks[i].get("text"@)
                matches Some(Jv::Str(_))) ==> {
            &&& anthropic::chat_messages(message, fresh).len() == 1
            &&& holds(
                anthropic::chat_messages(message, fresh)[0],
                "content"@,
                all_text(blocks, blocks.len()),
            )
            &&& message.get("role"@) matches Some(Jv::Str(r)) ==> holds(
                anthropic::chat_messages(message, fresh)[0],
                "role"@,
                if text::lowercase(r) == "assistant"@ {
                    "assistant"@
                } else {
                    "user"@
                },
            )
        },
{
    words::message_words();
    if text::lowercase("text"@) == "text"@ && (forall|i: int|
        0 <= i < blocks.len() ==> is_kind(#[trigger] blocks[i], "text"@) && blocks[i].get("text"@)
            matches Some(Jv::Str(_))) {
        texts_are_sorted(blocks, fresh, blocks.len());
    }
}

/// An image in a message goes on under its address: one that comes as data becomes a data
/// address with its kind, which is a PNG where none is named.
pub proof fn images_go_on(part: Jv, source: Jv)
    requires
        part.get("source"@) == Some(source),
    ensures
        is_kind(source, "base64"@) ==> (source.get("data"@) matches Some(Jv::Str(d)) ==> d.len() > 0
            ==> anthropic::chat_image(part) is Some && holds(
            anthropic::chat_image(part)->0,
            "type"@,
            "image_url"@,
        ) && within(anthropic::chat_image(part)->0, "image_url"@, "url"@) == Some(
            Jv::Str(
                "data:"@ + (match source.get("media_type"@) {
                    Some(Jv::Str(m)) => if m.len() > 0 {
                        m
                    } else {
                        "image/png"@
                    },
                    Some(Jv::Null) => "image/png"@,
                    None => "image/png"@,
                    Some(other) => protocol::or_else(protocol::loose(other), "image/png"@),
                }) + ";base64,"@ + d,
            ),
        )),
        is_kind(source, "url"@) ==> (source.get("url"@) matches Some(Jv::Str(u)) ==> u.len() > 0
            ==> anthropic::chat_image(part) is Some && within(
            anthropic::chat_image(part)->0,
            "image_url"@,
            "url"@,
        ) == Some(Jv::Str(u))),
{
    words::kind_words();
    words::message_words();
}

/// Every image of a message that makes no call stands among the parts of its content.
pub proof fn every_image_goes_on(message: Jv, fresh: Seq<Seq<char>>, blocks: Seq<Jv>, i: int)
    requires
        message.get("content"@) == Some(Jv::Arr(blocks)),
        0 <= i < blocks.len(),
        anthropic::chat_image(blocks[i]) is Some,
    ensures
        is_kind(blocks[i], "image"@) && anthropic::sort_blocks(blocks, fresh, blocks.len()).calls.len() == 0
            && text::lowercase("image_url"@) == "image_url"@ ==> exists|j: int, k: int|
            0 <= j < anthropic::chat_messages(message, fresh).len() && 0 <= k < list_in(
                anthropic::chat_messages(message, fresh)[j],
                "content"@,
            ).len() && #[trigger] list_in(
                anthropic::chat_messages(message, fresh)[j],
                "content"@,
            )[k] == anthropic::chat_image(blocks[i])->0,
{
    words::message_words();
    words::kind_words();
    let st = anthropic::sort_blocks(blocks, fresh, blocks.len());
    if is_kind(blocks[i], "image"@) && st.calls.len() == 0 && text::lowercase("image_url"@)
        == "image_url"@ {
        sorted_keeps(blocks, fresh, blocks.len(), i);
        let want = anthropic::chat_image(blocks[i])->0;
        let k = choose|k: int| 0 <= k < st.normal.len() && #[trigger] st.normal[k] == want;
        assert(text::lowercase(protocol::loose_field(st.normal[k], "type"@)) == "image_url"@);
        assert("image_url"@.len() == 9) by {
            reveal_strlit("image_url");
        }
        assert(!anthropic::only_text(st.normal));
        let all = anthropic::chat_messages(message, fresh);
        let main = anthropic::main_message(st, anthropic::chat_role(message));
        assert(main.len() == 1 && list_in(main[0], "content"@) == st.normal);
        if anthropic::chat_role(message) == "assistant"@ {
            assert(all == main + st.results);
            assert(list_in(all[0], "content"@)[k] == want);
        } else {
            assert(all == st.results + main);
            let j = st.results.len() as int;
            assert(all[j] == main[0]);
            assert(list_in(all[j], "content"@)[k] == want);
        }
    }
}

/// The thinking of an assistant goes on with what the assistant says.
pub proof fn thinking_goes_on(message: Jv, fresh: Seq<Seq<char>>, block: Jv, s: Seq<char>)
    requires
        message.get("content"@) == Some(Jv::Arr(seq![block])),
        block.get("thinking"@) == Some(Jv::Str(s)),
        s.len() > 0,
    ensures
        is_kind(block, "thinking"@) && (message.get("role"@) matches Some(Jv::Str(r))
            && text::lowercase(r) == "assistant"@) ==> {
            &&& anthropic::chat_messages(message, fresh).len() == 1
            &&& holds(anthropic::chat_messages(message, fresh)[0], "role"@, "assistant"@)
            &&& holds(anthropic::chat_messages(message, fresh)[0], "reasoning_content"@, s)
        },
{
    words::message_words();
    words::kind_words();
    let parts = seq![block];
    reveal_with_fuel(anthropic::sort_blocks, 2);
    assert(parts.len() == 1 && parts[0] == block);
    let st = anthropic::sort_blocks(parts, fresh, 1);
    if is_kind(block, "thinking"@) {
        assert(st.reasoning == s);
    }
}

proof fn tools_keep(tools: Seq<Jv>, n: nat, i: int)
    requires
        0 <= i < n <= tools.len(),
        anthropic::chat_tool(tools[i]) is Some,
    ensures
        exists|k: int|
            0 <= k < anthropic::chat_tools(tools, n).len() && #[trigger] anthropic::chat_tools(tools, n)[k]
                == anthropic::chat_tool(tools[i])->0,
    decreases n,
{
    let after = anthropic::chat_tools(tools, n);
    let before = anthropic::chat_tools(tools, (n - 1) as nat);
    let want = anthropic::chat_tool(tools[i])->0;
    if i < n - 1 {
        tools_keep(tools, (n - 1) as nat, i);
        let k = choose|k: int| 0 <= k < before.len() && #[trigger] before[k] == want;
        assert(after[k] == want);
    } else {
        assert(after[before.len() as int] == want);
    }
}

/// Whether a tool of the chat protocol is that one.
pub open spec fn is_tool(t: Jv, name: Seq<char>, parameters: Jv) -> bool {
    &&& holds(t, "type"@, "function"@)
    &&& within(t, "function"@, "name"@) == Some(Jv::Str(name))
    &&& within(t, "function"@, "parameters"@) == Some(parameters)
}

/// Every tool that has a name is offered as a function, with its description and its schema;
/// a tool without a schema takes an object without members.
pub proof fn every_tool_is_offered(
    body: Jv,
    fresh: Seq<Seq<Seq<char>>>,
    chat: Jv,
    tools: Seq<Jv>,
    i: int,
    name: Seq<char>,
)
    requires
        anthropic::chat_of_anthropic(body, fresh) == Ok::<Jv, Seq<char>>(chat),
        body.get("tools"@) == Some(Jv::Arr(tools)),
        0 <= i < tools.len(),
        tools[i].get("name"@) == Some(Jv::Str(name)),
        name.len() > 0,
    ensures
        exists|k: int|
            0 <= k < list_in(chat, "tools"@).len() && is_tool(
                #[trigger] list_in(chat, "tools"@)[k],
                name,
                match tools[i].get("input_schema"@) {
                    Some(Jv::Obj(o)) => Jv::Obj(o),
                    Some(v) => if v.truthy() {
                        v
                    } else {
                        Jv::Obj(map!["type"@ => Jv::Str("object"@), "properties"@ => Jv::Obj(Map::empty())])
                    },
                    None => Jv::Obj(
                        map!["type"@ => Jv::Str("object"@), "properties"@ => Jv::Obj(Map::empty())],
                    ),
                },
            ) && (tools[i].get("description"@) matches Some(Jv::Str(d)) ==> d.len() > 0 ==> within(
                list_in(chat, "tools"@)[k],
                "function"@,
                "description"@,
            ) == Some(Jv::Str(d))),
{
    words::request_words();
    words::message_words();
    tools_keep(tools, tools.len(), i);
    let all = anthropic::chat_tools(tools, tools.len());
    let want = anthropic::chat_tool(tools[i])->0;
    let k = choose|k: int| 0 <= k < all.len() && #[trigger] all[k] == want;
    assert(list_in(chat, "tools"@) == all);
    assert(list_in(chat, "tools"@)[k] == want);
    assert(Jv::obj().put("type"@, Jv::Str("object"@)).put("properties"@, Jv::obj())->Obj_0
        =~= map!["type"@ => Jv::Str("object"@), "properties"@ => Jv::Obj(Map::empty())]);
}

/// How a tool may be chosen goes on in the words of the chat protocol: any of them is one that
/// is required, none is none, a named one is that function, and all else is left open.
pub proof fn choices_go_on(body: Jv, fresh: Seq<Seq<Seq<char>>>, chat: Jv, choice: Jv)
    requires
        anthropic::chat_of_anthropic(body, fresh) == Ok::<Jv, Seq<char>>(chat),
        body.get("tool_choice"@) == Some(choice),
        choice is Obj,
    ensures
        is_kind(choice, "any"@) ==> holds(chat, "tool_choice"@, "required"@),
        is_kind(choice, "none"@) ==> holds(chat, "tool_choice"@, "none"@),
        is_kind(choice, "auto"@) ==> holds(chat, "tool_choice"@, "auto"@),
        is_kind(choice, "tool"@) ==> (choice.get("name"@) matches Some(Jv::Str(n)) ==> n.len() > 0
            ==> (chat.get("tool_choice"@) matches Some(c) && holds(c, "type"@, "function"@) && within(
            c,
            "function"@,
            "name"@,
        ) == Some(Jv::Str(n)))),
{
    words::request_words();
    words::message_words();
    words::choice_words();
}

/// Whether thinking is asked for in that way.
pub open spec fn thinks(body: Jv, way: Seq<char>) -> bool {
    within(body, "thinking"@, "type"@) matches Some(Jv::Str(t)) && text::lowercase(text::trimmed(t))
        == way
}

/// The level of thinking that a request names itself.
pub open spec fn named_level(body: Jv) -> Seq<char> {
    text::lowercase(
        text::trimmed(
            match within(body, "output_config"@, "effort"@) {
                Some(Jv::Str(s)) => s,
                Some(Jv::Null) => Seq::empty(),
                Some(v) => crate::json::json_text_of(v),
                None => Seq::empty(),
            },
        ),
    )
}

/// Thinking that is switched off is not asked for. A level that is named is asked for, the
/// highest one as `xhigh`. Else the budget tells the level: up to 1024 tokens are `low`, up to
/// 4096 `medium`, up to 10240 `high`, more are `xhigh`, and without a budget it is `medium`.
pub proof fn thinking_is_asked_for(body: Jv, fresh: Seq<Seq<Seq<char>>>, chat: Jv)
    requires
        anthropic::chat_of_anthropic(body, fresh) == Ok::<Jv, Seq<char>>(chat),
    ensures
        thinks(body, "disabled"@) || thinks(body, "none"@) || thinks(body, "off"@) ==> chat.get(
            "reasoning_effort"@,
        ) is None,
        (thinks(body, "enabled"@) || thinks(body, "adaptive"@)) && named_level(body).len() > 0 ==> holds(
            chat,
            "reasoning_effort"@,
            if named_level(body) == "max"@ {
                "xhigh"@
            } else {
                named_level(body)
            },
        ),
        (thinks(body, "enabled"@) || thinks(body, "adaptive"@)) && named_level(body).len() == 0 ==> (
        within(body, "thinking"@, "budget_tokens"@) matches Some(Jv::Int(b)) ==> i64::MIN <= b
            <= i64::MAX ==> holds(
            chat,
            "reasoning_effort"@,
            if b <= 0 {
                "medium"@
            } else if b <= 1024 {
                "low"@
            } else if b <= 4096 {
                "medium"@
            } else if b <= 10240 {
                "high"@
            } else {
                "xhigh"@
            },
        )),
        (thinks(body, "enabled"@) || thinks(body, "adaptive"@)) && named_level(body).len() == 0
            && within(body, "thinking"@, "budget_tokens"@) is None ==> holds(
            chat,
            "reasoning_effort"@,
            "medium"@,
        ),
{
    words::request_words();
    words::level_words();
}

/// The thoughts of some blocks, each on lines of its own.
pub open spec fn thoughts(parts: Seq<Jv>, n: nat) -> Seq<char>
    decreases n,
{
    if n == 0 {
        Seq::empty()
    } else {
        match parts[n - 1].get("thinking"@) {
            Some(Jv::Str(s)) => if n == 1 {
                s
            } else {
                thoughts(parts, (n - 1) as nat) + "\n"@ + s
            },
            _ => thoughts(parts, (n - 1) as nat),
        }
    }
}

/// Whether a block holds a thought.
pub open spec fn holds_a_thought(block: Jv) -> bool {
    block.get("thinking"@) matches Some(Jv::Str(s)) && s.len() > 0
}

proof fn thoughts_are_joined(parts: Seq<Jv>, fresh: Seq<Seq<char>>, n: nat)
    requires
        n <= parts.len(),
        forall|i: int|
            0 <= i < parts.len() ==> holds_a_thought(#[trigger] parts[i]) && is_kind(parts[i], "thinking"@),
    ensures
        ({
            let st = anthropic::sort_blocks(parts, fresh, n);
            &&& st.reasoning == thoughts(parts, n)
            &&& n > 0 ==> st.reasoning.len() > 0
            &&& st.calls.len() == 0 && st.results.len() == 0 && st.normal.len() == 0
        }),
    decreases n,
{
    words::kind_words();
    words::message_words();
    if n > 0 {
        thoughts_are_joined(parts, fresh, (n - 1) as nat);
        assert(holds_a_thought(parts[n - 1]) && is_kind(parts[n - 1], "thinking"@));
    }
}

/// All the thoughts of a message of the assistant go on, in their order.
pub proof fn all_thoughts_go_on(message: Jv, fresh: Seq<Seq<char>>, parts: Seq<Jv>)
    requires
        message.get("content"@) == Some(Jv::Arr(parts)),
        parts.len() > 0,
        forall|i: int| 0 <= i < parts.len() ==> holds_a_thought(#[trigger] parts[i]),
    ensures
        (forall|i: int| 0 <= i < parts.len() ==> is_kind(#[trigger] parts[i], "thinking"@)) && (
        message.get("role"@) matches Some(Jv::Str(r)) && text::lowercase(r) == "assistant"@) ==> {
            &&& anthropic::chat_messages(message, fresh).len() == 1
            &&& holds(
                anthropic::chat_messages(message, fresh)[0],
                "reasoning_content"@,
                thoughts(parts, parts.len()),
            )
        },
{
    words::message_words();
    if (forall|i: int| 0 <= i < parts.len() ==> is_kind(#[trigger] parts[i], "thinking"@)) {
        thoughts_are_joined(parts, fresh, parts.len());
    }
}

/// New identifiers are at hand for the blocks of the messages of the request, and for nothing
/// else.
pub proof fn identifiers_are_at_hand(body: Jv, fresh: Seq<Seq<Seq<char>>>, i: int)
    requires
        anthropic::grid_fits(anthropic::input_of(body), fresh, "call"@),
        0 <= i < list_in(body, "messages"@).len(),
    ensures
        fresh.len() == list_in(body, "messages"@).len(),
        fresh[i].len() == list_in(list_in(body, "messages"@)[i], "content"@).len(),
{
}

} // verus!
