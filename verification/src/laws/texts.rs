//! Texts, lines and the events in them.

use crate::protocol;
use crate::text;
use crate::time;
use vstd::prelude::*;
use vstd::string::*;

verus! {

/// Whether two characters are the same but for the case of an ASCII letter.
pub open spec fn same_letter(a: char, b: char) -> bool {
    a == b || ('A' <= a && a <= 'Z' && b as int == a as int + 32) || ('A' <= b && b <= 'Z' && a as int
        == b as int + 32)
}

proof fn lower_says(a: char, b: char)
    ensures
        text::ascii_lower(a) == text::ascii_lower(b) <==> same_letter(a, b),
{
}

/// Two texts are the same without regard to case where they are so letter by letter.
pub proof fn fold_is_letter_by_letter(a: Seq<char>, b: Seq<char>)
    ensures
        text::same_fold(a, b) <==> a.len() == b.len() && forall|i: int|
            0 <= i < a.len() ==> same_letter(#[trigger] a[i], b[i]),
{
    let x = text::ascii_lower_all(a);
    let y = text::ascii_lower_all(b);
    if text::same_fold(a, b) {
        assert(x.len() == y.len());
        assert forall|i: int| 0 <= i < a.len() implies same_letter(#[trigger] a[i], b[i]) by {
            assert(x[i] == y[i]);
            lower_says(a[i], b[i]);
        }
    }
    if a.len() == b.len() && forall|i: int| 0 <= i < a.len() ==> same_letter(#[trigger] a[i], b[i]) {
        assert forall|i: int| 0 <= i < a.len() implies x[i] == y[i] by {
            assert(same_letter(a[i], b[i]));
            lower_says(a[i], b[i]);
        }
        assert(x =~= y);
    }
}

proof fn first_solid_says(s: Seq<char>, i: int)
    requires
        0 <= i <= s.len(),
    ensures
        i <= text::first_solid(s, i) <= s.len(),
        forall|k: int| i <= k < text::first_solid(s, i) ==> text::white_space(#[trigger] s[k]),
        text::first_solid(s, i) < s.len() ==> !text::white_space(s[text::first_solid(s, i)]),
    decreases s.len() - i,
{
    if i < s.len() && text::white_space(s[i]) {
        first_solid_says(s, i + 1);
    }
}

proof fn last_solid_says(s: Seq<char>, i: int, j: int)
    requires
        0 <= i <= j <= s.len(),
    ensures
        i <= text::last_solid(s, i, j) <= j,
        forall|k: int| text::last_solid(s, i, j) <= k < j ==> text::white_space(#[trigger] s[k]),
        text::last_solid(s, i, j) > i ==> !text::white_space(s[text::last_solid(s, i, j) - 1]),
    decreases j - i,
{
    if j > i && text::white_space(s[j - 1]) {
        last_solid_says(s, i, j - 1);
    }
}

/// A text is trimmed by taking the white space from both of its ends, and nothing else.
pub proof fn trimming_takes_white_space(s: Seq<char>)
    ensures
        ({
            let t = text::trimmed(s);
            &&& t.len() > 0 ==> !text::white_space(t[0]) && !text::white_space(t.last())
            &&& exists|a: int, b: int|
                #![trigger s.subrange(a, b)]
                0 <= a <= b <= s.len() && t == s.subrange(a, b) && (forall|k: int|
                    0 <= k < a || b <= k < s.len() ==> text::white_space(#[trigger] s[k]))
        }),
{
    let a = text::first_solid(s, 0);
    first_solid_says(s, 0);
    let b = text::last_solid(s, a, s.len() as int);
    last_solid_says(s, a, s.len() as int);
    assert(text::trimmed(s) == s.subrange(a, b));
}

proof fn digits_go_back(n: nat)
    ensures
        text::digits_value(text::decimal(n), text::decimal(n).len()) == Some(n as int),
        text::decimal(n).len() > 0,
        forall|i: int|
            0 <= i < text::decimal(n).len() ==> '0' <= #[trigger] text::decimal(n)[i] && text::decimal(n)[i]
                <= '9',
        n > 0 ==> text::decimal(n)[0] != '0',
    decreases n,
{
    reveal_with_fuel(text::digits_value, 2);
    if n < 10 {
        let s = text::decimal(n);
        assert(s[0] == text::digit(n as int));
    } else {
        digits_go_back(n / 10);
        let head = text::decimal(n / 10);
        let s = text::decimal(n);
        assert(s == head.push(text::digit((n % 10) as int)));
        digits_of_prefix(head, s, head.len());
        assert(s.len() == head.len() + 1);
        assert(s[s.len() - 1] == text::digit((n % 10) as int));
        assert(10 * (n / 10) + n % 10 == n);
        assert forall|i: int| 0 <= i < s.len() implies '0' <= #[trigger] s[i] && s[i] <= '9' by {
            if i < head.len() {
                assert(s[i] == head[i]);
            }
        }
        assert(s[0] == head[0]);
    }
}

proof fn digits_of_prefix(a: Seq<char>, b: Seq<char>, n: nat)
    requires
        n <= a.len(),
        n <= b.len(),
        forall|i: int| 0 <= i < n ==> a[i] == b[i],
    ensures
        text::digits_value(a, n) == text::digits_value(b, n),
    decreases n,
{
    if n > 0 {
        digits_of_prefix(a, b, (n - 1) as nat);
    }
}

/// A number that is written is read again as itself.
pub proof fn numbers_are_read_again(n: int)
    requires
        i64::MIN <= n <= i64::MAX,
    ensures
        text::parsed_int(text::decimal_int(n)) == Some(n),
{
    if n < 0 {
        digits_go_back((-n) as nat);
        let digits = text::decimal((-n) as nat);
        let s = text::decimal_int(n);
        assert(s == seq!['-'] + digits);
        assert(s[0] == '-');
        assert(s.skip(1) =~= digits);
    } else {
        digits_go_back(n as nat);
        let s = text::decimal_int(n);
        assert(s == text::decimal(n as nat));
        assert('0' <= s[0]);
    }
}

/// A number is written with digits alone, and without a zero in front.
pub proof fn numbers_are_written_plainly(n: nat)
    ensures
        text::decimal(n).len() > 0,
        forall|i: int|
            0 <= i < text::decimal(n).len() ==> '0' <= #[trigger] text::decimal(n)[i] && text::decimal(n)[i]
                <= '9',
        n > 0 ==> text::decimal(n)[0] != '0',
{
    digits_go_back(n);
}

// -------------------------------------------------------------- events

/// A line with data is a payload, without the white space at its ends; the closing mark is none,
/// and a line that is empty or is no data is nothing.
pub proof fn lines_are_payloads(data: Seq<char>, other: Seq<char>)
    requires
        other.len() < 5 || other.take(5) != "data:"@,
        other.len() == 0 || other.last() != '\r',
        data.len() == 0 || data.last() != '\r',
    ensures
        text::trimmed(data).len() > 0 && text::trimmed(data) != "[DONE]"@ ==> protocol::line_payload(
            "data:"@ + data,
        ) == seq![Some(text::trimmed(data))],
        text::trimmed(data) == "[DONE]"@ ==> protocol::line_payload("data:"@ + data) == seq![
            None::<Seq<char>>,
        ],
        text::trimmed(data).len() == 0 ==> protocol::line_payload("data:"@ + data).len() == 0,
        protocol::line_payload(other).len() == 0,
        protocol::line_payload(other.push('\r')) == protocol::line_payload(other),
        protocol::line_payload(("data:"@ + data).push('\r')) == protocol::line_payload("data:"@ + data),
{
    reveal_strlit("data:");
    reveal_strlit("[DONE]");
    assert("data:"@.len() == 5);
    assert("[DONE]"@.len() == 6);
    let line = "data:"@ + data;
    assert(line.take(5) =~= "data:"@);
    assert(line.skip(5) =~= data);
    assert(line.last() != '\r') by {
        if data.len() == 0 {
            assert(line =~= "data:"@);
            assert(line[4] == ':');
        } else {
            assert(line.last() == data.last());
        }
    }
    assert(line.push('\r').drop_last() =~= line);
    assert(other.push('\r').drop_last() =~= other);
}

/// A line that ends is read as a whole, and what comes after it waits for its own end.
pub proof fn a_line_ends_with_its_mark(line: Seq<u8>)
    ensures
        protocol::payloads(line, seq![10u8]) == protocol::line_payload(protocol::lossy_text(line)),
        protocol::line_left(line, seq![10u8]).len() == 0,
        forall|b: u8| b != 10 ==> #[trigger] protocol::payloads(line, seq![b]).len() == 0,
        forall|b: u8| b != 10 ==> #[trigger] protocol::line_left(line, seq![b]) == line.push(b),
{
    reveal_with_fuel(protocol::feed_all, 2);
    let st = protocol::Feed { out: Seq::empty(), line };
    assert forall|b: u8| #[trigger] protocol::feed_all(st, seq![b]) == protocol::feed(st, b) by {
        assert(seq![b].drop_last() =~= Seq::<u8>::empty());
        assert(seq![b].last() == b);
    }
    let end = protocol::feed_all(st, seq![10u8]);
    assert(Seq::<Option<Seq<char>>>::empty() + protocol::line_payload(protocol::lossy_text(line))
        =~= protocol::line_payload(protocol::lossy_text(line)));
    assert forall|b: u8| b != 10 implies #[trigger] protocol::payloads(line, seq![b]).len() == 0 by {
        assert(protocol::feed_all(st, seq![b]) == protocol::feed(st, b));
    }
    assert forall|b: u8| b != 10 implies #[trigger] protocol::line_left(line, seq![b]) == line.push(b) by {
        assert(protocol::feed_all(st, seq![b]) == protocol::feed(st, b));
    }
}

// -------------------------------------------------------------- limits and logins

/// A limit that is told in seconds ends that many seconds from now, in the zone of the service;
/// none that is not ahead is told.
pub proof fn limits_end_after_their_seconds(n: int, now: int)
    requires
        0 <= n <= 0x7fff_ffff,
        0 <= now <= 0x7fff_ffff_ffff,
    ensures
        n == 0 ==> time::retry_after_text(text::decimal_int(n), now) is None,
        n > 0 ==> time::retry_after_text(text::decimal_int(n), now) == Some(
            match time::rendered_time(now + n * 1000, 28800int, "%Y-%m-%d %H:%M:%S UTC+8"@) {
                Some(s) => s,
                None => Seq::empty(),
            },
        ),
{
    numbers_are_read_again(n);
    digits_go_back(n as nat);
    let s = text::decimal(n as nat);
    first_solid_says(s, 0);
    assert(!text::white_space(s[0]));
    let a = text::first_solid(s, 0);
    if a > 0 {
        assert(text::white_space(s[0]));
    }
    last_solid_says(s, 0, s.len() as int);
    let b = text::last_solid(s, 0, s.len() as int);
    if b < s.len() {
        assert(text::white_space(s[s.len() - 1]));
    }
    assert(text::trimmed(s) =~= s);
}

/// When a limit ends is said in brackets, and nothing where it is not known.
pub proof fn ends_are_said_in_brackets(s: Seq<char>)
    ensures
        s.len() == 0 ==> time::hint_of(s).len() == 0,
        s.len() > 0 ==> time::hint_of(s) == "（"@ + s + " 恢复）"@,
{
}

/// What goes over the wire: an event with its name and its data, data alone, and the closing
/// mark, each with an empty line behind it.
pub proof fn frames_are_written(name: Seq<char>, data: crate::json::Jv)
    ensures
        protocol::frame_text(protocol::Fv::Event(name, data)) == "event: "@ + name + "\ndata: "@
            + crate::json::json_text_of(data) + "\n\n"@,
        protocol::frame_text(protocol::Fv::Data(data)) == "data: "@ + crate::json::json_text_of(data)
            + "\n\n"@,
        protocol::frame_text(protocol::Fv::Done) == "data: [DONE]\n\n"@,
{
}

} // verus!
