//! A chat stream put together again: text, thinking, tool calls, usage.
//!
//! Tool calls come in pieces. The pieces of one call carry one index; the calls
//! are kept in the order of their indexes.

use crate::json::{Json, Jv};
use crate::json;
use crate::protocol::chat;
use crate::protocol;
use vstd::prelude::*;
use vstd::string::*;

verus! {

/// A tool call as far as its pieces have come.
#[verifier::ext_equal]
pub struct ToolV {
    pub call_id: Seq<char>,
    pub name: Seq<char>,
    pub arguments: Seq<char>,
}

/// A tool call of which nothing has come yet.
pub open spec fn no_tool() -> ToolV {
    ToolV { call_id: Seq::empty(), name: Seq::empty(), arguments: Seq::empty() }
}

/// One more piece: an identifier and a name replace what was there, arguments are
/// added at the end.
pub open spec fn tool_piece(t: ToolV, call: Jv) -> ToolV {
    ToolV {
        call_id: protocol::or_else(json::str_or_empty(call.get("id"@)), t.call_id),
        name: protocol::or_else(json::str_or_empty(json::opt_get(call.get("function"@), "name"@)), t.name),
        arguments: t.arguments + json::str_or_empty(json::opt_get(call.get("function"@), "arguments"@)),
    }
}

/// The place of the first entry whose key is not below the given one, from `i` on.
pub open spec fn place_from<T>(s: Seq<(int, T)>, key: int, i: int) -> int
    decreases s.len() - i,
{
    if i < 0 || i >= s.len() || s[i].0 >= key {
        i
    } else {
        place_from(s, key, i + 1)
    }
}

/// What stands under a key.
pub open spec fn get_key<T>(s: Seq<(int, T)>, key: int) -> Option<T> {
    let p = place_from(s, key, 0);
    if p < s.len() && s[p].0 == key {
        Some(s[p].1)
    } else {
        None
    }
}

/// The entries with another value under a key.
pub open spec fn put_key<T>(s: Seq<(int, T)>, key: int, value: T) -> Seq<(int, T)> {
    let p = place_from(s, key, 0);
    if p < s.len() && s[p].0 == key {
        s.update(p, (key, value))
    } else {
        s.insert(p, (key, value))
    }
}

/// The calls after one more piece.
pub open spec fn add_piece(s: Seq<(int, ToolV)>, call: Jv) -> Seq<(int, ToolV)> {
    let key = json::int_or_zero(call.get("index"@));
    put_key(
        s,
        key,
        tool_piece(
            match get_key(s, key) {
                Some(t) => t,
                None => no_tool(),
            },
            call,
        ),
    )
}

/// The calls after the first `n` pieces of a list.
pub open spec fn add_pieces(s: Seq<(int, ToolV)>, calls: Seq<Jv>, n: nat) -> Seq<(int, ToolV)>
    decreases n,
{
    if n == 0 {
        s
    } else {
        add_piece(add_pieces(s, calls, (n - 1) as nat), calls[n - 1])
    }
}

/// Whether the entries stand in the order of their keys, each key once.
pub open spec fn in_order<T>(s: Seq<(int, T)>) -> bool {
    forall|i: int, j: int| 0 <= i < j < s.len() ==> (#[trigger] s[i]).0 < (#[trigger] s[j]).0
}

proof fn place_splits<T>(s: Seq<(int, T)>, key: int, i: int)
    requires
        in_order(s),
        0 <= i <= s.len(),
        forall|k: int| 0 <= k < i ==> (#[trigger] s[k]).0 < key,
    ensures
        i <= place_from(s, key, i) <= s.len(),
        forall|k: int| 0 <= k < place_from(s, key, i) ==> (#[trigger] s[k]).0 < key,
        forall|k: int| place_from(s, key, i) <= k < s.len() ==> (#[trigger] s[k]).0 >= key,
    decreases s.len() - i,
{
    if i < s.len() && s[i].0 < key {
        place_splits(s, key, i + 1);
    }
}

/// Entries that stand in the order of their keys do so after another one.
pub proof fn put_key_keeps_order<T>(s: Seq<(int, T)>, key: int, value: T)
    requires
        in_order(s),
    ensures
        in_order(put_key(s, key, value)),
{
    place_splits(s, key, 0);
    let p = place_from(s, key, 0);
    let t = put_key(s, key, value);
    assert forall|i: int, j: int| 0 <= i < j < t.len() implies (#[trigger] t[i]).0 < (
    #[trigger] t[j]).0 by {
        if p < s.len() && s[p].0 == key {
            assert(s[i].0 < s[j].0);
        } else {
            if j < p {
                assert(t[i] == s[i] && t[j] == s[j]);
            } else if j == p {
                assert(t[i] == s[i]);
            } else if i < p {
                assert(t[i] == s[i] && t[j] == s[j - 1]);
            } else if i == p {
                assert(t[j] == s[j - 1]);
                assert(p < s.len());
                assert(s[j - 1].0 >= key);
                if s[j - 1].0 == key && j - 1 > p {
                    assert(s[p].0 < s[j - 1].0);
                }
            } else {
                assert(t[i] == s[i - 1] && t[j] == s[j - 1]);
            }
        }
    }
}

/// Calls that stand in the order of their indexes do so after one more piece.
pub proof fn add_piece_keeps_order(s: Seq<(int, ToolV)>, call: Jv)
    requires
        in_order(s),
    ensures
        in_order(add_piece(s, call)),
{
    let key = json::int_or_zero(call.get("index"@));
    put_key_keeps_order(
        s,
        key,
        tool_piece(
            match get_key(s, key) {
                Some(t) => t,
                None => no_tool(),
            },
            call,
        ),
    );
}

/// What has come of a chat stream.
#[verifier::ext_equal]
pub struct CollectedV {
    pub text: Seq<char>,
    pub reasoning: Seq<char>,
    pub tools: Seq<(int, ToolV)>,
    pub usage: Option<Jv>,
    pub finish: Option<Seq<char>>,
    pub id: Seq<char>,
}

/// Nothing has come yet.
pub open spec fn nothing_collected() -> CollectedV {
    CollectedV {
        text: Seq::empty(),
        reasoning: Seq::empty(),
        tools: Seq::empty(),
        usage: None,
        finish: None,
        id: Seq::empty(),
    }
}

/// One more piece of a chat stream. The first identifier counts, and the last
/// usage and reason of the end.
pub open spec fn collect(st: CollectedV, chunk: Jv) -> CollectedV {
    let finish = json::str_or_empty(json::opt_get(chat::choice_of(chunk), "finish_reason"@));
    let noted = CollectedV {
        id: protocol::or_else(st.id, json::str_or_empty(chunk.get("id"@))),
        usage: match chunk.get("usage"@) {
            Some(Jv::Obj(u)) => Some(Jv::Obj(u)),
            _ => st.usage,
        },
        finish: if finish.len() > 0 {
            Some(finish)
        } else {
            st.finish
        },
        ..st
    };
    match json::opt_get(chat::choice_of(chunk), "delta"@) {
        None => noted,
        Some(delta) => CollectedV {
            reasoning: noted.reasoning + chat::reasoning_of(delta),
            text: noted.text + json::str_or_empty(delta.get("content"@)),
            tools: add_pieces(noted.tools, chat::calls_of(delta), chat::calls_of(delta).len()),
            ..noted
        },
    }
}

/// A payload of the stream; one that is no JSON, and the end mark, change nothing.
pub open spec fn collect_payload(st: CollectedV, payload: Option<Seq<char>>) -> CollectedV {
    match payload {
        Some(data) => match json::parsed_json(data) {
            Some(chunk) => collect(st, chunk),
            None => st,
        },
        None => st,
    }
}

/// The first `n` payloads of a list.
pub open spec fn collect_payloads(
    st: CollectedV,
    list: Seq<Option<Seq<char>>>,
    n: nat,
) -> CollectedV
    decreases n,
{
    if n == 0 {
        st
    } else {
        collect_payload(collect_payloads(st, list, (n - 1) as nat), list[n - 1])
    }
}

/// However a stream is collected, its calls stand in the order of their indexes.
pub proof fn collect_keeps_order(st: CollectedV, chunk: Jv)
    requires
        in_order(st.tools),
    ensures
        in_order(collect(st, chunk).tools),
{
    match json::opt_get(chat::choice_of(chunk), "delta"@) {
        Some(delta) => add_pieces_keep_order(st.tools, chat::calls_of(delta), chat::calls_of(delta).len()),
        None => {},
    }
}

proof fn add_pieces_keep_order(s: Seq<(int, ToolV)>, calls: Seq<Jv>, n: nat)
    requires
        in_order(s),
    ensures
        in_order(add_pieces(s, calls, n)),
    decreases n,
{
    if n > 0 {
        add_pieces_keep_order(s, calls, (n - 1) as nat);
        add_piece_keeps_order(add_pieces(s, calls, (n - 1) as nat), calls[n - 1]);
    }
}

/// Payloads in two lists are payloads in one.
pub proof fn collect_payloads_add(
    st: CollectedV,
    a: Seq<Option<Seq<char>>>,
    b: Seq<Option<Seq<char>>>,
    n: nat,
)
    requires
        n <= b.len(),
    ensures
        collect_payloads(st, a + b, a.len() + n) == collect_payloads(
            collect_payloads(st, a, a.len()),
            b,
            n,
        ),
    decreases n,
{
    if n == 0 {
        collect_payloads_prefix(st, a + b, a, a.len());
    } else {
        collect_payloads_add(st, a, b, (n - 1) as nat);
        assert((a + b)[a.len() + n - 1] == b[n - 1]);
    }
}

proof fn collect_payloads_prefix(
    st: CollectedV,
    a: Seq<Option<Seq<char>>>,
    b: Seq<Option<Seq<char>>>,
    n: nat,
)
    requires
        n <= a.len(),
        n <= b.len(),
        forall|k: int| 0 <= k < n ==> a[k] == #[trigger] b[k],
    ensures
        collect_payloads(st, a, n) == collect_payloads(st, b, n),
    decreases n,
{
    if n > 0 {
        collect_payloads_prefix(st, a, b, (n - 1) as nat);
    }
}

/// A tool call as far as its pieces have come.
pub struct ToolAccum {
    pub call_id: String,
    pub name: String,
    pub arguments: String,
}

impl View for ToolAccum {
    type V = ToolV;

    open spec fn view(&self) -> ToolV {
        ToolV { call_id: self.call_id@, name: self.name@, arguments: self.arguments@ }
    }
}

impl ToolAccum {
    /// A tool call of which nothing has come yet.
    pub fn new() -> (r: ToolAccum)
        ensures
            r@ == no_tool(),
    {
        ToolAccum { call_id: String::new(), name: String::new(), arguments: String::new() }
    }

    /// Takes in one more piece.
    pub fn piece(&mut self, call: &Json)
        ensures
            final(self)@ == tool_piece(old(self)@, call@),
    {
        let id = json::str_or(call.get("id"));
        if !id.as_str().is_empty() {
            self.call_id = id;
        }
        let name = json::str_or(json::get_in(call.get("function"), "name"));
        if !name.as_str().is_empty() {
            self.name = name;
        }
        let arguments = json::str_or(json::get_in(call.get("function"), "arguments"));
        self.arguments.append(arguments.as_str());
    }
}

/// The meaning of a list of calls.
pub open spec fn tools_view(s: Seq<(i64, ToolAccum)>) -> Seq<(int, ToolV)> {
    Seq::new(s.len(), |i: int| (s[i].0 as int, s[i].1@))
}

/// Takes a piece of a call into a list of calls.
pub fn take_piece(list: &mut Vec<(i64, ToolAccum)>, call: &Json)
    ensures
        tools_view(final(list)@) == add_piece(tools_view(old(list)@), call@),
{
    let key = json::int_or(call.get("index"));
    let ghost before = tools_view(list@);
    let mut p: usize = 0;
    while p < list.len() && list[p].0 < key
        invariant
            p <= list@.len(),
            before == tools_view(list@),
            place_from(before, key as int, 0) == place_from(before, key as int, p as int),
        decreases list@.len() - p,
    {
        p = p + 1;
    }
    if p < list.len() && list[p].0 == key {
        let (index, mut tool) = list.remove(p);
        tool.piece(call);
        list.insert(p, (index, tool));
    } else {
        let mut tool = ToolAccum::new();
        tool.piece(call);
        list.insert(p, (key, tool));
    }
    proof {
        assert(tools_view(list@) =~= add_piece(before, call@));
    }
}

/// What has come of a chat stream.
pub struct Collected {
    pub text: String,
    pub reasoning: String,
    pub tools: Vec<(i64, ToolAccum)>,
    pub usage: Option<Json>,
    pub finish: Option<String>,
    pub id: String,
}

impl View for Collected {
    type V = CollectedV;

    open spec fn view(&self) -> CollectedV {
        CollectedV {
            text: self.text@,
            reasoning: self.reasoning@,
            tools: tools_view(self.tools@),
            usage: json::opt_owned(self.usage),
            finish: json::opt_string(self.finish),
            id: self.id@,
        }
    }
}

impl Collected {
    /// Nothing has come yet.
    pub fn new() -> (r: Collected)
        ensures
            r@ == nothing_collected(),
    {
        let r = Collected {
            text: String::new(),
            reasoning: String::new(),
            tools: Vec::new(),
            usage: None,
            finish: None,
            id: String::new(),
        };
        proof {
            assert(tools_view(r.tools@) =~= Seq::empty());
        }
        r
    }

    fn pieces(&mut self, calls: &Vec<Json>)
        ensures
            final(self)@ == (CollectedV {
                tools: add_pieces(old(self)@.tools, json::models(calls@), calls@.len()),
                ..old(self)@
            }),
    {
        let ghost before = self@;
        let mut i: usize = 0;
        while i < calls.len()
            invariant
                i <= calls@.len(),
                self@ == (CollectedV {
                    tools: add_pieces(before.tools, json::models(calls@), i as nat),
                    ..before
                }),
            decreases calls@.len() - i,
        {
            take_piece(&mut self.tools, &calls[i]);
            i = i + 1;
        }
    }

    /// Takes in one more piece of a chat stream.
    pub fn consume(&mut self, chunk: &Json)
        ensures
            final(self)@ == collect(old(self)@, chunk@),
    {
        broadcast use json::group_json;

        let id = json::str_or(chunk.get("id"));
        if self.id.as_str().is_empty() {
            self.id = id;
        }
        if let Some(usage) = chunk.get("usage") {
            if usage.is_obj() {
                self.usage = Some(usage.copy());
            }
        }
        let choice = chat::read_choice(chunk);
        let finish = json::str_or(json::get_in(choice, "finish_reason"));
        if !finish.as_str().is_empty() {
            self.finish = Some(finish);
        }
        let delta = match json::get_in(choice, "delta") {
            Some(d) => d,
            None => {
                return ;
            },
        };
        let reasoning = chat::read_reasoning(delta);
        self.reasoning.append(reasoning.as_str());
        let content = json::str_or(delta.get("content"));
        self.text.append(content.as_str());
        if let Some(Json::Arr(calls)) = delta.get("tool_calls") {
            self.pieces(calls);
        }
    }

    /// Takes in payloads of the stream.
    pub fn consume_all(&mut self, list: &Vec<Option<String>>)
        ensures
            final(self)@ == collect_payloads(
                old(self)@,
                protocol::payload_texts(list@),
                list@.len(),
            ),
    {
        let ghost want = protocol::payload_texts(list@);
        let mut i: usize = 0;
        while i < list.len()
            invariant
                i <= list@.len(),
                want == protocol::payload_texts(list@),
                self@ == collect_payloads(old(self)@, want, i as nat),
            decreases list@.len() - i,
        {
            proof {
                assert(want[i as int] == json::opt_string(list@[i as int]));
            }
            if let Some(data) = &list[i] {
                if let Some(chunk) = json::parse(data.as_str()) {
                    self.consume(&chunk);
                }
            }
            i = i + 1;
        }
    }
}

} // verus!
