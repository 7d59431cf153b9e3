//! Protocol conversion.
//!
//! Chat completions are the hub: a Responses or an Anthropic Messages request is
//! written as a chat request, and what comes back is written in the caller's own
//! protocol; the outbound modules do the same for an upstream that speaks one of
//! the other two. This file holds what they share: reading loosely typed values,
//! identifiers, frames of server-sent events, and the line buffer.

pub mod anthropic;
pub mod anthropic_outbound;
pub mod anthropic_stream;
pub mod chat;
pub mod chunks;
pub mod collect;
pub mod responses;
pub mod responses_outbound;
pub mod responses_stream;
pub mod tool_plan;

use crate::json::{Json, Jv};
use crate::json;
use crate::text;
use vstd::prelude::*;
use vstd::string::*;
use vstd::utf8::*;

verus! {

/// A run of bytes that is shared and never changes.
#[verifier::external_type_specification]
#[verifier::external_body]
pub struct ExBytes(bytes::Bytes);

/// The bytes in a `bytes::Bytes`.
pub uninterp spec fn bytes_of(b: bytes::Bytes) -> Seq<u8>;

/// `Bytes::from(String)`: the UTF-8 bytes of the text.
#[verifier::external_body]
pub(crate) fn bytes_from(text: String) -> (r: bytes::Bytes)
    ensures
        bytes_of(r) == encode_utf8(text@),
{
    bytes::Bytes::from(text)
}

// ------------------------------------------------------------- loose values

/// A value as a text: a text as it is, nothing of `null`, and anything else in
/// its JSON form.
pub open spec fn loose(j: Jv) -> Seq<char> {
    match j {
        Jv::Str(s) => s,
        Jv::Null => Seq::empty(),
        _ => json::json_text_of(j),
    }
}

/// A value that may be missing as a text.
pub open spec fn opt_loose(j: Option<Jv>) -> Seq<char> {
    match j {
        Some(v) => loose(v),
        None => Seq::empty(),
    }
}

/// A member as a text; nothing where it is missing.
pub open spec fn loose_field(j: Jv, key: Seq<char>) -> Seq<char> {
    opt_loose(j.get(key))
}

/// A value as a text.
pub fn string_value(value: &Json) -> (r: String)
    ensures
        r@ == loose(value@),
{
    match value {
        Json::Str(s) => s.clone(),
        _ => if value.is_null() {
            String::new()
        } else {
            json::text_of(value)
        },
    }
}

/// A value that may be missing as a text.
pub fn opt_string_value(value: Option<&Json>) -> (r: String)
    ensures
        r@ == opt_loose(json::opt_model(value)),
{
    match value {
        Some(v) => string_value(v),
        None => String::new(),
    }
}

/// A member as a text; nothing where it is missing.
pub fn string_field(value: &Json, key: &str) -> (r: String)
    ensures
        r@ == loose_field(value@, key@),
{
    opt_string_value(value.get(key))
}

/// A value to be put into a text field: a text as it is, anything else in its
/// JSON form, nothing of `null`.
pub fn json_text(value: &Json) -> (r: String)
    ensures
        r@ == loose(value@),
{
    string_value(value)
}

/// Whether a value counts as true.
pub fn is_truthy(value: &Json) -> (r: bool)
    ensures
        r == value@.truthy(),
{
    value.truthy()
}

/// The first of two texts that is not empty.
pub open spec fn or_else(a: Seq<char>, b: Seq<char>) -> Seq<char> {
    if a.len() == 0 {
        b
    } else {
        a
    }
}

/// The first of two texts that is not empty.
pub fn or_text(a: String, b: &str) -> (r: String)
    ensures
        r@ == or_else(a@, b@),
{
    if a.as_str().is_empty() {
        b.to_owned()
    } else {
        a
    }
}

// -------------------------------------------------------------- identifiers

/// `getrandom::getrandom` on sixteen bytes: `None` where the source fails. The
/// bytes are random, so nothing is said of them.
#[verifier::external_body]
pub(crate) fn random_bytes() -> (r: Option<[u8; 16]>) {
    let mut bytes = [0u8; 16];
    getrandom::getrandom(&mut bytes).ok().map(|_done| bytes)
}

/// `SystemTime::elapsed` of the Unix epoch, in milliseconds; nothing is said of
/// the clock.
#[verifier::external_body]
pub(crate) fn clock_ms() -> (r: u64) {
    std::time::UNIX_EPOCH.elapsed().map_or(0, |d| d.as_millis() as u64)
}

/// A hexadecimal digit.
pub open spec fn hex_digit(d: int) -> char {
    if d < 10 {
        text::digit(d)
    } else if d == 10 {
        'a'
    } else if d == 11 {
        'b'
    } else if d == 12 {
        'c'
    } else if d == 13 {
        'd'
    } else if d == 14 {
        'e'
    } else {
        'f'
    }
}

fn hex_char(d: u64) -> (r: char)
    requires
        d < 16,
    ensures
        r == hex_digit(d as int),
{
    if d == 0 {
        '0'
    } else if d == 1 {
        '1'
    } else if d == 2 {
        '2'
    } else if d == 3 {
        '3'
    } else if d == 4 {
        '4'
    } else if d == 5 {
        '5'
    } else if d == 6 {
        '6'
    } else if d == 7 {
        '7'
    } else if d == 8 {
        '8'
    } else if d == 9 {
        '9'
    } else if d == 10 {
        'a'
    } else if d == 11 {
        'b'
    } else if d == 12 {
        'c'
    } else if d == 13 {
        'd'
    } else if d == 14 {
        'e'
    } else {
        'f'
    }
}

/// Bytes in hexadecimal, two digits each.
pub open spec fn hex_bytes(b: Seq<u8>) -> Seq<char>
    decreases b.len(),
{
    if b.len() == 0 {
        Seq::empty()
    } else {
        hex_bytes(b.drop_last()).push(hex_digit(b.last() as int / 16)).push(
            hex_digit(b.last() as int % 16),
        )
    }
}

/// Bytes in hexadecimal, two digits each.
pub fn hex_text(bytes: &[u8]) -> (r: String)
    ensures
        r@ == hex_bytes(bytes@),
{
    let mut out = String::new();
    let mut i: usize = 0;
    proof {
        assert(bytes@.take(0) =~= Seq::empty());
    }
    while i < bytes.len()
        invariant
            i <= bytes@.len(),
            out@ == hex_bytes(bytes@.take(i as int)),
        decreases bytes@.len() - i,
    {
        let byte: u8 = bytes[i];
        out.push(hex_char((byte / 16) as u64));
        out.push(hex_char((byte % 16) as u64));
        proof {
            assert(bytes@.take(i as int + 1).drop_last() =~= bytes@.take(i as int));
        }
        i = i + 1;
    }
    proof {
        assert(bytes@.take(bytes@.len() as int) =~= bytes@);
    }
    out
}

/// A number in hexadecimal, with no zero in front.
pub open spec fn hex_number(n: nat) -> Seq<char>
    decreases n,
{
    if n < 16 {
        seq![hex_digit(n as int)]
    } else {
        hex_number(n / 16).push(hex_digit((n % 16) as int))
    }
}

/// A number in hexadecimal.
fn hex_u64(n: u64) -> (r: String)
    ensures
        r@ == hex_number(n as nat),
    decreases n,
{
    if n < 16 {
        let mut out = String::new();
        out.push(hex_char(n));
        proof {
            assert(Seq::<char>::empty().push(hex_digit(n as int)) =~= seq![hex_digit(n as int)]);
        }
        out
    } else {
        let mut out = hex_u64(n / 16);
        out.push(hex_char(n % 16));
        out
    }
}

/// The identifier made of random bytes, or of the clock where there are none.
pub open spec fn id_of(prefix: Seq<char>, drawn: Option<Seq<u8>>, now: nat) -> Seq<char> {
    prefix + "_"@ + (match drawn {
        Some(b) => hex_bytes(b),
        None => hex_number(now),
    })
}

/// Whether a text is an identifier with that prefix: the prefix, an underscore
/// and at least one hexadecimal digit.
pub open spec fn is_id(prefix: Seq<char>, id: Seq<char>) -> bool {
    exists|tail: Seq<char>| #[trigger]
        is_hex(tail) && tail.len() > 0 && id == prefix + "_"@ + tail
}

/// Whether all characters are hexadecimal digits.
pub open spec fn is_hex(s: Seq<char>) -> bool {
    forall|i: int| 0 <= i < s.len() ==> ('0' <= #[trigger] s[i] <= '9' || 'a' <= s[i] <= 'f')
}

/// Bytes in hexadecimal are twice as many hexadecimal digits.
pub proof fn hex_bytes_is_hex(b: Seq<u8>)
    ensures
        is_hex(hex_bytes(b)),
        hex_bytes(b).len() == 2 * b.len(),
    decreases b.len(),
{
    if b.len() > 0 {
        hex_bytes_is_hex(b.drop_last());
    }
}

proof fn hex_number_is_hex(n: nat)
    ensures
        is_hex(hex_number(n)),
        hex_number(n).len() > 0,
    decreases n,
{
    if n >= 16 {
        hex_number_is_hex(n / 16);
    }
}

/// What `id_of` makes is an identifier with its prefix.
pub proof fn id_of_is_id(prefix: Seq<char>, drawn: Option<Seq<u8>>, now: nat)
    requires
        drawn matches Some(b) ==> b.len() > 0,
    ensures
        is_id(prefix, id_of(prefix, drawn, now)),
{
    match drawn {
        Some(b) => {
            hex_bytes_is_hex(b);
            assert(is_hex(hex_bytes(b)));
        },
        None => {
            hex_number_is_hex(now);
            assert(is_hex(hex_number(now)));
        },
    }
}

/// Two identifiers of one prefix that were made of different random bytes differ.
pub proof fn id_of_keeps_apart(prefix: Seq<char>, a: Seq<u8>, b: Seq<u8>, now: nat)
    requires
        a.len() == b.len(),
        a != b,
    ensures
        id_of(prefix, Some(a), now) != id_of(prefix, Some(b), now),
{
    if id_of(prefix, Some(a), now) == id_of(prefix, Some(b), now) {
        let head = prefix + "_"@;
        assert((head + hex_bytes(a)).skip(head.len() as int) =~= hex_bytes(a));
        assert((head + hex_bytes(b)).skip(head.len() as int) =~= hex_bytes(b));
        hex_bytes_injective(a, b);
    }
}

proof fn hex_bytes_injective(a: Seq<u8>, b: Seq<u8>)
    requires
        a.len() == b.len(),
        hex_bytes(a) == hex_bytes(b),
    ensures
        a == b,
    decreases a.len(),
{
    if a.len() > 0 {
        let x = hex_bytes(a);
        let y = hex_bytes(b);
        let xs = hex_bytes(a.drop_last());
        let ys = hex_bytes(b.drop_last());
        assert(x.drop_last().drop_last() =~= xs);
        assert(y.drop_last().drop_last() =~= ys);
        hex_bytes_injective(a.drop_last(), b.drop_last());
        assert(x.last() == y.last());
        assert(x[x.len() - 2] == y[y.len() - 2]);
        assert(a.last() == b.last());
        assert(a =~= a.drop_last().push(a.last()));
        assert(b =~= b.drop_last().push(b.last()));
    } else {
        assert(a =~= b);
    }
}

/// The identifier made of sixteen random bytes, or of the clock where the random
/// source has failed.
pub fn id_from(prefix: &str, drawn: Option<[u8; 16]>, now: u64) -> (r: String)
    ensures
        r@ == id_of(
            prefix@,
            match drawn {
                Some(b) => Some(b@),
                None => None,
            },
            now as nat,
        ),
{
    let mut out = text::join2(prefix, "_");
    match drawn {
        Some(bytes) => {
            out.append(hex_text(&bytes).as_str());
        },
        None => {
            let digits = hex_u64(now);
            out.append(digits.as_str());
        },
    }
    out
}

/// A fresh identifier with that prefix.
pub fn random_id(prefix: &str) -> (r: String)
    ensures
        is_id(prefix@, r@),
{
    let drawn = random_bytes();
    let now = match drawn {
        Some(_) => 0,
        None => clock_ms(),
    };
    proof {
        id_of_is_id(
            prefix@,
            match drawn {
                Some(b) => Some(b@),
                None => None,
            },
            now as nat,
        );
    }
    id_from(prefix, drawn, now)
}

/// The texts of a list of owned strings.
pub open spec fn texts(v: Seq<String>) -> Seq<Seq<char>> {
    Seq::new(v.len(), |i: int| v[i]@)
}

/// A longer list of owned strings.
pub broadcast proof fn texts_push(v: Seq<String>, s: String)
    ensures
        #[trigger] texts(v.push(s)) == texts(v).push(s@),
{
    assert(texts(v.push(s)) =~= texts(v).push(s@));
}

/// The text at a place of a list, or nothing where the list is too short.
pub open spec fn text_at(v: Seq<Seq<char>>, i: int) -> Seq<char> {
    if 0 <= i < v.len() {
        v[i]
    } else {
        Seq::empty()
    }
}

/// The text at a place of a list, or nothing where the list is too short.
pub fn string_at(v: &Vec<String>, i: usize) -> (r: String)
    ensures
        r@ == text_at(texts(v@), i as int),
{
    if i < v.len() {
        v[i].clone()
    } else {
        String::new()
    }
}

/// Whether all texts of a list are identifiers with that prefix.
pub open spec fn all_ids(prefix: Seq<char>, v: Seq<Seq<char>>) -> bool {
    forall|i: int| 0 <= i < v.len() ==> is_id(prefix, #[trigger] v[i])
}

/// Fresh identifiers with that prefix.
pub fn random_ids(prefix: &str, n: usize) -> (r: Vec<String>)
    ensures
        r@.len() == n,
        all_ids(prefix@, texts(r@)),
{
    broadcast use texts_push;

    let mut out: Vec<String> = Vec::new();
    let mut i: usize = 0;
    while i < n
        invariant
            i <= n,
            out@.len() == i,
            all_ids(prefix@, texts(out@)),
        decreases n - i,
    {
        let id = random_id(prefix);
        proof {
            let before = texts(out@);
            let after = texts(out@.push(id));
            assert(after == before.push(id@));
            assert forall|k: int| 0 <= k < after.len() implies is_id(
                prefix@,
                #[trigger] after[k],
            ) by {
                if k < before.len() {
                    assert(after[k] == before[k]);
                }
            }
        }
        out.push(id);
        i = i + 1;
    }
    out
}

// ------------------------------------------------------------------ contents

/// Whether a kind of content block carries text.
pub open spec fn is_text_kind(kind: Seq<char>) -> bool {
    kind == "text"@ || kind == "input_text"@ || kind == "output_text"@
}

/// The text that one block of a content list adds.
pub open spec fn block_text(part: Jv) -> Seq<char> {
    match part {
        Jv::Str(s) => s,
        _ => if is_text_kind(text::lowercase(loose_field(part, "type"@))) {
            loose_field(part, "text"@)
        } else {
            Seq::empty()
        },
    }
}

/// The text of the first `n` blocks.
pub open spec fn blocks_text(parts: Seq<Jv>, n: nat) -> Seq<char>
    decreases n,
{
    if n == 0 {
        Seq::empty()
    } else {
        blocks_text(parts, (n - 1) as nat) + block_text(parts[n - 1])
    }
}

/// The text of a content: a text as it is, of a list the text blocks one after
/// the other, and nothing of anything else.
pub open spec fn plain_text(content: Jv) -> Seq<char> {
    match content {
        Jv::Str(s) => s,
        Jv::Arr(parts) => blocks_text(parts, parts.len()),
        _ => Seq::empty(),
    }
}

/// The text of a content that may be missing.
pub open spec fn opt_plain_text(content: Option<Jv>) -> Seq<char> {
    match content {
        Some(v) => plain_text(v),
        None => Seq::empty(),
    }
}

fn one_block_text(part: &Json) -> (r: String)
    ensures
        r@ == block_text(part@),
{
    if let Json::Str(s) = part {
        return s.clone();
    }
    let kind = text::lower(string_field(part, "type").as_str());
    if text::same(kind.as_str(), "text") || text::same(kind.as_str(), "input_text") || text::same(
        kind.as_str(),
        "output_text",
    ) {
        string_field(part, "text")
    } else {
        String::new()
    }
}

/// The text of the blocks of a content.
pub fn content_text(content: &Json) -> (r: String)
    ensures
        r@ == plain_text(content@),
{
    if let Json::Str(s) = content {
        return s.clone();
    }
    match content.as_arr() {
        Some(parts) => {
            let mut out = String::new();
            let mut i: usize = 0;
            while i < parts.len()
                invariant
                    i <= parts@.len(),
                    out@ == blocks_text(json::models(parts@), i as nat),
                decreases parts@.len() - i,
            {
                let piece = one_block_text(&parts[i]);
                out.append(piece.as_str());
                i = i + 1;
            }
            out
        },
        None => String::new(),
    }
}

/// The text of a content that may be missing.
pub fn opt_content_text(content: Option<&Json>) -> (r: String)
    ensures
        r@ == opt_plain_text(json::opt_model(content)),
{
    match content {
        Some(v) => content_text(v),
        None => String::new(),
    }
}

/// The blocks of a content list; none of anything else.
pub fn content_parts(content: &Json) -> (r: &[Json])
    ensures
        json::models(r@) == content@.items(),
{
    broadcast use json::group_json;

    match content.as_arr() {
        Some(parts) => parts.as_slice(),
        None => {
            let none: &[Json; 0] = &[];
            proof {
                assert(json::models(none@) =~= Seq::<Jv>::empty());
            }
            none.as_slice()
        },
    }
}

// -------------------------------------------------------------------- frames

/// One frame of a stream of server-sent events: an event with a name, a bare
/// data line, or the mark that closes a chat stream.
pub enum Frame {
    Event(String, Json),
    Data(Json),
    Done,
}

/// What a frame says.
#[verifier::ext_equal]
pub enum Fv {
    Event(Seq<char>, Jv),
    Data(Jv),
    Done,
}

impl View for Frame {
    type V = Fv;

    open spec fn view(&self) -> Fv {
        match self {
            Frame::Event(name, data) => Fv::Event(name@, data@),
            Frame::Data(data) => Fv::Data(data@),
            Frame::Done => Fv::Done,
        }
    }
}

/// What a list of frames says.
pub open spec fn frames(s: Seq<Frame>) -> Seq<Fv> {
    Seq::new(s.len(), |i: int| s[i]@)
}

/// A longer list of frames.
pub broadcast proof fn frames_push(s: Seq<Frame>, f: Frame)
    ensures
        #[trigger] frames(s.push(f)) == frames(s).push(f@),
{
    assert(frames(s.push(f)) =~= frames(s).push(f@));
}

/// Two lists of frames, one after the other.
pub broadcast proof fn frames_add(s: Seq<Frame>, t: Seq<Frame>)
    ensures
        #[trigger] frames(s + t) == frames(s) + frames(t),
{
    assert(frames(s + t) =~= frames(s) + frames(t));
}

/// No frames.
pub broadcast proof fn frames_empty()
    ensures
        #[trigger] frames(Seq::empty()) == Seq::<Fv>::empty(),
{
    assert(frames(Seq::empty()) =~= Seq::<Fv>::empty());
}

/// The facts about lists of frames that hold without further ado.
pub broadcast group group_frames {
    frames_push,
    frames_add,
    frames_empty,
}

/// The text of an event frame.
pub open spec fn event_text(name: Seq<char>, data: Jv) -> Seq<char> {
    "event: "@ + name + "\ndata: "@ + json::json_text_of(data) + "\n\n"@
}

/// The text of a bare data frame.
pub open spec fn data_text(data: Jv) -> Seq<char> {
    "data: "@ + json::json_text_of(data) + "\n\n"@
}

/// The text of a frame.
pub open spec fn frame_text(f: Fv) -> Seq<char> {
    match f {
        Fv::Event(name, data) => event_text(name, data),
        Fv::Data(data) => data_text(data),
        Fv::Done => "data: [DONE]\n\n"@,
    }
}

/// A frame of a stream whose frames have names.
pub fn event_frame(event: &str, value: &Json) -> (r: bytes::Bytes)
    ensures
        bytes_of(r) == encode_utf8(event_text(event@, value@)),
{
    let body = json::text_of(value);
    let mut out = text::join3("event: ", event, "\ndata: ");
    out.append(body.as_str());
    out.append("\n\n");
    bytes_from(out)
}

/// A frame of a chat stream.
pub fn chat_frame(value: &Json) -> (r: bytes::Bytes)
    ensures
        bytes_of(r) == encode_utf8(data_text(value@)),
{
    let body = json::text_of(value);
    bytes_from(text::join3("data: ", body.as_str(), "\n\n"))
}

/// The bytes of a frame.
pub fn frame_bytes(f: &Frame) -> (r: bytes::Bytes)
    ensures
        bytes_of(r) == encode_utf8(frame_text(f@)),
{
    match f {
        Frame::Event(name, data) => event_frame(name.as_str(), data),
        Frame::Data(data) => chat_frame(data),
        Frame::Done => bytes_from("data: [DONE]\n\n".to_owned()),
    }
}

/// Whether a list of byte runs is a list of frames written out.
pub open spec fn wire(out: Seq<bytes::Bytes>, f: Seq<Fv>) -> bool {
    &&& out.len() == f.len()
    &&& forall|i: int|
        0 <= i < out.len() ==> bytes_of(#[trigger] out[i]) == encode_utf8(frame_text(f[i]))
}

/// Writes a list of frames out.
pub fn write_frames(list: &Vec<Frame>) -> (r: Vec<bytes::Bytes>)
    ensures
        wire(r@, frames(list@)),
{
    let mut out: Vec<bytes::Bytes> = Vec::new();
    let mut i: usize = 0;
    while i < list.len()
        invariant
            i <= list@.len(),
            out@.len() == i,
            forall|k: int|
                0 <= k < i ==> bytes_of(#[trigger] out@[k]) == encode_utf8(
                    frame_text(frames(list@)[k]),
                ),
        decreases list@.len() - i,
    {
        out.push(frame_bytes(&list[i]));
        i = i + 1;
    }
    out
}

// ------------------------------------------------------------------- numbers

/// A number as an `i64`: an integer of that range as it is, any other number
/// brought into it.
pub open spec fn rough_i64(j: Jv) -> Option<int> {
    match j {
        Jv::Int(n) => if n < i64::MIN {
            Some(i64::MIN as int)
        } else if n > i64::MAX {
            Some(i64::MAX as int)
        } else {
            Some(n)
        },
        Jv::Float(bits) => Some(json::float_trunc(bits)),
        _ => None,
    }
}

/// The number under the first of the names from place `i` on that leads to one,
/// or zero.
pub open spec fn number_under(j: Jv, keys: Seq<&str>, i: int) -> int
    decreases keys.len() - i,
{
    if i < 0 || i >= keys.len() {
        0
    } else {
        match j.get(keys[i]@) {
            Some(v) => match rough_i64(v) {
                Some(n) => n,
                None => number_under(j, keys, i + 1),
            },
            None => number_under(j, keys, i + 1),
        }
    }
}

pub(crate) fn rough(value: &Json) -> (r: Option<i64>)
    ensures
        match r {
            Some(n) => rough_i64(value@) == Some(n as int),
            None => rough_i64(value@) is None,
        },
{
    match value {
        Json::Int(n) => Some(*n),
        Json::Big(n) => if *n <= i64::MAX as u64 {
            Some(*n as i64)
        } else {
            Some(i64::MAX)
        },
        Json::Float(bits) => if json::is_finite(*bits) {
            Some(json::trunc_bits(*bits))
        } else {
            None
        },
        _ => None,
    }
}

/// The number under the first of several names that leads to one, or zero.
pub fn json_number_of(value: &Json, keys: &[&str]) -> (r: i64)
    ensures
        r == number_under(value@, keys@, 0),
{
    let mut i: usize = 0;
    while i < keys.len()
        invariant
            i <= keys@.len(),
            number_under(value@, keys@, 0) == number_under(value@, keys@, i as int),
        decreases keys@.len() - i,
    {
        if let Some(field) = value.get(keys[i]) {
            if let Some(n) = rough(field) {
                return n;
            }
        }
        i = i + 1;
    }
    0
}

// --------------------------------------------------------------- line buffer

/// The text that `String::from_utf8_lossy` makes of bytes.
pub uninterp spec fn lossy_text(bytes: Seq<u8>) -> Seq<char>;

/// `String::from_utf8_lossy`: the text of bytes that are UTF-8; in other bytes
/// each faulty run is replaced by U+FFFD.
#[verifier::external_body]
pub(crate) fn lossy(bytes: &[u8]) -> (r: String)
    ensures
        r@ == lossy_text(bytes@),
        valid_utf8(bytes@) ==> r@ == decode_utf8(bytes@),
{
    String::from_utf8_lossy(bytes).to_string()
}

/// The payloads of a line: none, or one of a `data:` line; `None` stands for the
/// mark `[DONE]`.
pub open spec fn line_payload(line: Seq<char>) -> Seq<Option<Seq<char>>> {
    let bare = if line.len() > 0 && line.last() == '\r' {
        line.drop_last()
    } else {
        line
    };
    if !text::has_prefix(bare, "data:"@) {
        Seq::empty()
    } else {
        let data = text::trimmed(bare.skip("data:"@.len() as int));
        if data.len() == 0 {
            Seq::empty()
        } else if data == "[DONE]"@ {
            seq![None]
        } else {
            seq![Some(data)]
        }
    }
}

/// What is known while bytes come in: the payloads so far and the line begun.
#[verifier::ext_equal]
pub struct Feed {
    pub out: Seq<Option<Seq<char>>>,
    pub line: Seq<u8>,
}

/// One more byte: a line feed ends the line, any other byte belongs to it.
pub open spec fn feed(st: Feed, b: u8) -> Feed {
    if b == 10 {
        Feed { out: st.out + line_payload(lossy_text(st.line)), line: Seq::empty() }
    } else {
        Feed { out: st.out, line: st.line.push(b) }
    }
}

/// Many more bytes.
pub open spec fn feed_all(st: Feed, bytes: Seq<u8>) -> Feed
    decreases bytes.len(),
{
    if bytes.len() == 0 {
        st
    } else {
        feed(feed_all(st, bytes.drop_last()), bytes.last())
    }
}

/// The payloads that bytes complete where the line begun is `line`.
pub open spec fn payloads(line: Seq<u8>, bytes: Seq<u8>) -> Seq<Option<Seq<char>>> {
    feed_all(Feed { out: Seq::empty(), line }, bytes).out
}

/// The line begun after bytes that followed the line begun `line`.
pub open spec fn line_left(line: Seq<u8>, bytes: Seq<u8>) -> Seq<u8> {
    feed_all(Feed { out: Seq::empty(), line }, bytes).line
}

/// The payloads of owned strings.
pub open spec fn payload_texts(v: Seq<Option<String>>) -> Seq<Option<Seq<char>>> {
    Seq::new(v.len(), |i: int| json::opt_string(v[i]))
}

proof fn feed_all_out(st: Feed, bytes: Seq<u8>)
    ensures
        feed_all(st, bytes).out == st.out + payloads(st.line, bytes),
        feed_all(st, bytes).line == line_left(st.line, bytes),
    decreases bytes.len(),
{
    let start = Feed { out: Seq::empty(), line: st.line };
    if bytes.len() == 0 {
        assert(st.out + Seq::<Option<Seq<char>>>::empty() =~= st.out);
    } else {
        feed_all_out(st, bytes.drop_last());
        feed_all_out(start, bytes.drop_last());
        let a = feed_all(st, bytes.drop_last());
        let b = feed_all(start, bytes.drop_last());
        assert(b.out =~= payloads(st.line, bytes.drop_last()));
        assert(feed(a, bytes.last()).out =~= st.out + feed(b, bytes.last()).out);
    }
}

proof fn feed_all_add(st: Feed, a: Seq<u8>, b: Seq<u8>)
    ensures
        feed_all(st, a + b) == feed_all(feed_all(st, a), b),
    decreases b.len(),
{
    if b.len() == 0 {
        assert(a + b =~= a);
    } else {
        assert((a + b).drop_last() =~= a + b.drop_last());
        feed_all_add(st, a, b.drop_last());
    }
}

/// Where the bytes of a stream are cut does not matter: two pieces give the
/// payloads of the whole, and leave the same line begun.
pub proof fn pieces_do_not_matter(line: Seq<u8>, a: Seq<u8>, b: Seq<u8>)
    ensures
        payloads(line, a + b) == payloads(line, a) + payloads(line_left(line, a), b),
        line_left(line, a + b) == line_left(line_left(line, a), b),
{
    let start = Feed { out: Seq::empty(), line };
    feed_all_add(start, a, b);
    feed_all_out(feed_all(start, a), b);
}

/// A line begun never holds a line feed.
pub proof fn line_left_is_one_line(line: Seq<u8>, bytes: Seq<u8>)
    requires
        !line.contains(10u8),
    ensures
        !line_left(line, bytes).contains(10u8),
    decreases bytes.len(),
{
    if bytes.len() > 0 {
        line_left_is_one_line(line, bytes.drop_last());
        let before = line_left(line, bytes.drop_last());
        let after = line_left(line, bytes);
        assert forall|i: int| 0 <= i < after.len() implies after[i] != 10u8 by {
            if bytes.last() != 10 {
                assert(after == before.push(bytes.last()));
                if i < before.len() {
                    assert(before.contains(before[i]));
                }
            }
        }
    }
}

/// Collects the bytes of a stream of server-sent events and gives out the
/// payloads of the lines that are complete.
pub struct SseLineBuffer {
    tail: Vec<u8>,
}

impl SseLineBuffer {
    /// The line begun.
    pub closed spec fn line(self) -> Seq<u8> {
        self.tail@
    }

    /// A buffer with no line begun.
    pub fn new() -> (r: SseLineBuffer)
        ensures
            r.line() == Seq::<u8>::empty(),
    {
        SseLineBuffer { tail: Vec::new() }
    }

    /// Takes bytes in and gives out the payloads that they complete; `None`
    /// stands for the mark `[DONE]`.
    pub fn push(&mut self, chunk: &[u8]) -> (r: Vec<Option<String>>)
        ensures
            payload_texts(r@) == payloads(old(self).line(), chunk@),
            final(self).line() == line_left(old(self).line(), chunk@),
    {
        let mut out: Vec<Option<String>> = Vec::new();
        let ghost start = Feed { out: Seq::empty(), line: self.tail@ };
        let mut i: usize = 0;
        proof {
            assert(payload_texts(out@) =~= Seq::empty());
        }
        while i < chunk.len()
            invariant
                i <= chunk@.len(),
                payload_texts(out@) == feed_all(start, chunk@.take(i as int)).out,
                self.tail@ == feed_all(start, chunk@.take(i as int)).line,
            decreases chunk@.len() - i,
        {
            let byte: u8 = chunk[i];
            proof {
                assert(chunk@.take(i as int + 1).drop_last() =~= chunk@.take(i as int));
            }
            if byte == 10 {
                let line = lossy(self.tail.as_slice());
                Self::take_line(line.as_str(), &mut out);
                self.tail = Vec::new();
            } else {
                self.tail.push(byte);
            }
            i = i + 1;
        }
        proof {
            assert(chunk@.take(chunk@.len() as int) =~= chunk@);
        }
        out
    }

    /// Gives out the payload of the line begun, at the end of the stream.
    pub fn finish(&mut self) -> (r: Vec<Option<String>>)
        ensures
            payload_texts(r@) == (if old(self).line().len() == 0 {
                Seq::empty()
            } else {
                line_payload(lossy_text(old(self).line()))
            }),
            final(self).line() == Seq::<u8>::empty(),
    {
        let mut out: Vec<Option<String>> = Vec::new();
        proof {
            assert(payload_texts(out@) =~= Seq::empty());
        }
        if self.tail.len() == 0 {
            proof {
                assert(self.tail@ =~= Seq::empty());
            }
            return out;
        }
        let line = lossy(self.tail.as_slice());
        self.tail = Vec::new();
        Self::take_line(line.as_str(), &mut out);
        proof {
            let p = line_payload(lossy_text(old(self).line()));
            assert(Seq::empty() + p =~= p);
        }
        out
    }

    /// Adds the payload of a line, where it has one.
    fn take_line(line: &str, out: &mut Vec<Option<String>>)
        ensures
            payload_texts(final(out)@) == payload_texts(old(out)@) + line_payload(line@),
    {
        let ghost before = payload_texts(out@);
        let chars = text::chars_of(line);
        let end: usize = if chars.len() > 0 && chars[chars.len() - 1] == '\r' {
            chars.len() - 1
        } else {
            chars.len()
        };
        let bare = text::text_between(&chars, 0, end);
        proof {
            reveal_strlit("data:");
            assert(before + Seq::<Option<Seq<char>>>::empty() =~= before);
            assert(chars@.subrange(0, chars@.len() as int) =~= chars@);
            assert(chars@.len() > 0 ==> chars@.subrange(0, chars@.len() - 1) =~= chars@.drop_last());
        }
        if !text::starts_with(bare.as_str(), "data:") {
            return;
        }
        let rest = text::skip_chars(bare.as_str(), 5);
        let data = text::trim(rest.as_str());
        if data.as_str().is_empty() {
            return;
        }
        if text::same(data.as_str(), "[DONE]") {
            out.push(None);
            proof {
                assert(payload_texts(out@) =~= before + seq![None::<Seq<char>>]);
            }
            return;
        }
        proof {
            assert(payload_texts(out@.push(Some(data))) =~= before + seq![Some(data@)]);
        }
        out.push(Some(data));
    }
}

/// Two texts with a separator between them, if neither is empty.
pub open spec fn joined(a: Seq<char>, sep: Seq<char>, b: Seq<char>) -> Seq<char> {
    if b.len() == 0 {
        a
    } else if a.len() == 0 {
        b
    } else {
        a + sep + b
    }
}

/// Two texts with a separator between them, if neither is empty.
pub(crate) fn join_with(a: String, sep: &str, b: &str) -> (r: String)
    ensures
        r@ == joined(a@, sep@, b@),
{
    if b.is_empty() {
        a
    } else if a.as_str().is_empty() {
        b.to_owned()
    } else {
        text::join3(a.as_str(), sep, b)
    }
}

/// The identifiers of a grid of owned strings.
pub open spec fn grid(v: Seq<Vec<String>>) -> Seq<Seq<Seq<char>>> {
    Seq::new(v.len(), |i: int| texts(v[i]@))
}

/// The row at a place of a grid, or an empty one where the grid is too short.
pub open spec fn row(v: Seq<Seq<Seq<char>>>, i: int) -> Seq<Seq<char>> {
    if 0 <= i < v.len() {
        v[i]
    } else {
        Seq::empty()
    }
}

/// The payload of the line begun, where it has one.
pub open spec fn last_payload(line: Seq<u8>) -> Option<Seq<char>> {
    if line.len() == 0 {
        None
    } else {
        let p = line_payload(lossy_text(line));
        if p.len() == 0 {
            None
        } else {
            p[0]
        }
    }
}

/// A line has at most one payload.
pub proof fn one_payload(line: Seq<char>)
    ensures
        line_payload(line).len() <= 1,
{
}

/// The number after a block number, which stays at the largest one.
pub open spec fn next_index(i: int) -> int {
    if i < i64::MAX {
        i + 1
    } else {
        i
    }
}

} // verus!
