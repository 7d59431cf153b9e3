//! Text: the operations on strings that the rest of the crate is written in.
//!
//! A string is seen as its sequence of characters.

use crate::lists;
use vstd::prelude::*;
use vstd::string::*;
use vstd::utf8::*;

verus! {

/// The characters with the Unicode property `White_Space`: those that are cut off where
/// white space around a text does not count.
pub open spec fn white_space(c: char) -> bool {
    ||| ('\u{9}' <= c && c <= '\u{d}')
    ||| c == '\u{20}'
    ||| c == '\u{85}'
    ||| c == '\u{a0}'
    ||| c == '\u{1680}'
    ||| ('\u{2000}' <= c && c <= '\u{200a}')
    ||| c == '\u{2028}'
    ||| c == '\u{2029}'
    ||| c == '\u{202f}'
    ||| c == '\u{205f}'
    ||| c == '\u{3000}'
}

/// Whether a character is white space.
pub(crate) fn is_white(c: char) -> (r: bool)
    ensures
        r == white_space(c),
{
    ('\u{9}' <= c && c <= '\u{d}') || c == '\u{20}' || c == '\u{85}' || c == '\u{a0}' || c
        == '\u{1680}' || ('\u{2000}' <= c && c <= '\u{200a}') || c == '\u{2028}' || c == '\u{2029}'
        || c == '\u{202f}' || c == '\u{205f}' || c == '\u{3000}'
}

/// `String::push`: the character is added at the end.
pub assume_specification [String::push] (s: &mut String, c: char)
    ensures
        final(s)@ == old(s)@.push(c),
;

/// The result of `str::to_lowercase`.
pub uninterp spec fn lowercase(s: Seq<char>) -> Seq<char>;

/// A letter from `A` to `Z` in its small form; any other character unchanged.
pub open spec fn ascii_lower(c: char) -> char {
    if 'A' <= c && c <= 'Z' {
        ((c as u32) + 32) as char
    } else {
        c
    }
}

/// Every character in its ASCII small form.
pub open spec fn ascii_lower_all(s: Seq<char>) -> Seq<char> {
    Seq::new(s.len(), |i: int| ascii_lower(s[i]))
}

/// `str::to_lowercase`: lower case by the Unicode tables. A text of ASCII
/// characters alone only has its letters from `A` to `Z` changed.
#[verifier::external_body]
pub(crate) fn lower(s: &str) -> (r: String)
    ensures
        r@ == lowercase(s@),
        is_ascii_chars(s@) ==> r@ == ascii_lower_all(s@),
{
    s.to_lowercase()
}

/// The characters of a text, one by one.
pub fn chars_of(s: &str) -> (r: Vec<char>)
    ensures
        r@ == s@,
{
    let mut out: Vec<char> = Vec::new();
    for c in it: s.chars()
        invariant
            it.seq() == s@,
            out@ == s@.take(it.index() as int),
    {
        proof {
            assert(s@.take(it.index() as int + 1) =~= s@.take(it.index() as int).push(c));
        }
        out.push(c);
    }
    proof {
        assert(s@.take(s@.len() as int) =~= s@);
    }
    out
}

/// The text of the characters from `from` up to `to`.
pub fn text_between(chars: &Vec<char>, from: usize, to: usize) -> (r: String)
    requires
        from <= to <= chars@.len(),
    ensures
        r@ == chars@.subrange(from as int, to as int),
{
    let mut out = String::new();
    let mut i: usize = from;
    while i < to
        invariant
            from <= i <= to <= chars@.len(),
            out@ == chars@.subrange(from as int, i as int),
        decreases to - i,
    {
        out.push(chars[i]);
        proof {
            assert(chars@.subrange(from as int, i as int + 1) =~= chars@.subrange(
                from as int,
                i as int,
            ).push(chars@[i as int]));
        }
        i = i + 1;
    }
    out
}

/// Whether two texts are the same.
pub fn same(a: &str, b: &str) -> (r: bool)
    ensures
        r == (a@ == b@),
{
    a.to_owned() == b.to_owned()
}

/// One text after the other.
pub fn join2(a: &str, b: &str) -> (r: String)
    ensures
        r@ == a@ + b@,
{
    let mut out = a.to_owned();
    out.append(b);
    out
}

/// Three texts, one after the other.
pub fn join3(a: &str, b: &str, c: &str) -> (r: String)
    ensures
        r@ == a@ + b@ + c@,
{
    let mut out = a.to_owned();
    out.append(b);
    out.append(c);
    out
}

/// A character in its ASCII small form.
pub fn lower_char(c: char) -> (r: char)
    ensures
        r == ascii_lower(c),
{
    if 'A' <= c && c <= 'Z' {
        ((c as u8) + 32) as char
    } else {
        c
    }
}

/// Whether two texts are the same when the letters `A` to `Z` count as `a` to `z`.
pub open spec fn same_fold(a: Seq<char>, b: Seq<char>) -> bool {
    ascii_lower_all(a) == ascii_lower_all(b)
}

/// Compares two texts without regard to ASCII case.
pub fn eq_fold(a: &str, b: &str) -> (r: bool)
    ensures
        r == same_fold(a@, b@),
{
    let x = chars_of(a);
    let y = chars_of(b);
    if x.len() != y.len() {
        proof {
            assert(ascii_lower_all(a@).len() != ascii_lower_all(b@).len());
        }
        return false;
    }
    let mut i: usize = 0;
    while i < x.len()
        invariant
            x@ == a@,
            y@ == b@,
            x@.len() == y@.len(),
            i <= x@.len(),
            forall|j: int| 0 <= j < i ==> ascii_lower(#[trigger] a@[j]) == ascii_lower(b@[j]),
        decreases x@.len() - i,
    {
        if lower_char(x[i]) != lower_char(y[i]) {
            proof {
                assert(ascii_lower_all(a@)[i as int] != ascii_lower_all(b@)[i as int]);
            }
            return false;
        }
        i = i + 1;
    }
    proof {
        assert(ascii_lower_all(a@) =~= ascii_lower_all(b@));
    }
    true
}

/// The place of the first character from `i` on that is no white space.
pub open spec fn first_solid(s: Seq<char>, i: int) -> int
    decreases s.len() - i,
{
    if i < 0 || i >= s.len() || !white_space(s[i]) {
        i
    } else {
        first_solid(s, i + 1)
    }
}

/// One past the last character before `j` that is no white space, but not below `i`.
pub open spec fn last_solid(s: Seq<char>, i: int, j: int) -> int
    decreases j - i,
{
    if j <= i || j > s.len() || !white_space(s[j - 1]) {
        j
    } else {
        last_solid(s, i, j - 1)
    }
}

/// A text without the white space at both ends.
pub open spec fn trimmed(s: Seq<char>) -> Seq<char> {
    let i = first_solid(s, 0);
    s.subrange(i, last_solid(s, i, s.len() as int))
}

proof fn first_solid_says(s: Seq<char>, i: int)
    requires
        0 <= i <= s.len(),
    ensures
        i <= first_solid(s, i) <= s.len(),
        first_solid(s, i) < s.len() ==> !white_space(s[first_solid(s, i)]),
    decreases s.len() - i,
{
    if i < s.len() && white_space(s[i]) {
        first_solid_says(s, i + 1);
    }
}

proof fn last_solid_says(s: Seq<char>, i: int, j: int)
    requires
        0 <= i <= j <= s.len(),
    ensures
        i <= last_solid(s, i, j) <= j,
        last_solid(s, i, j) > i ==> !white_space(s[last_solid(s, i, j) - 1]),
    decreases j - i,
{
    if j > i && white_space(s[j - 1]) {
        last_solid_says(s, i, j - 1);
    }
}

/// Trimming a second time changes nothing.
pub proof fn trimmed_twice(s: Seq<char>)
    ensures
        trimmed(trimmed(s)) == trimmed(s),
{
    let i = first_solid(s, 0);
    first_solid_says(s, 0);
    last_solid_says(s, i, s.len() as int);
    let t = trimmed(s);
    if t.len() == 0 {
        assert(trimmed(t) =~= t);
    } else {
        assert(t[0] == s[i]);
        assert(t[t.len() - 1] == s[last_solid(s, i, s.len() as int) - 1]);
        assert(i < s.len());
        assert(trimmed(t) =~= t);
    }
}

/// A text without the white space at both ends.
pub fn trim(s: &str) -> (r: String)
    ensures
        r@ == trimmed(s@),
{
    let chars = chars_of(s);
    let mut i: usize = 0;
    while i < chars.len() && is_white(chars[i])
        invariant
            chars@ == s@,
            i <= chars@.len(),
            first_solid(s@, 0) == first_solid(s@, i as int),
        decreases chars@.len() - i,
    {
        i = i + 1;
    }
    let mut j: usize = chars.len();
    while j > i && is_white(chars[j - 1])
        invariant
            chars@ == s@,
            i <= j <= chars@.len(),
            last_solid(s@, i as int, s@.len() as int) == last_solid(s@, i as int, j as int),
        decreases j,
    {
        j = j - 1;
    }
    text_between(&chars, i, j)
}

/// Whether nothing but white space is in a text.
pub open spec fn blank(s: Seq<char>) -> bool {
    trimmed(s).len() == 0
}

/// Whether `p` stands at the beginning of `s`.
pub open spec fn has_prefix(s: Seq<char>, p: Seq<char>) -> bool {
    p.len() <= s.len() && s.take(p.len() as int) == p
}

/// Whether `p` stands at the end of `s`.
pub open spec fn has_suffix(s: Seq<char>, p: Seq<char>) -> bool {
    p.len() <= s.len() && s.skip(s.len() - p.len()) == p
}

/// Whether `p` stands at the beginning of `s`.
pub fn starts_with(s: &str, p: &str) -> (r: bool)
    ensures
        r == has_prefix(s@, p@),
{
    let x = chars_of(s);
    let y = chars_of(p);
    if y.len() > x.len() {
        return false;
    }
    let mut i: usize = 0;
    while i < y.len()
        invariant
            x@ == s@,
            y@ == p@,
            i <= y@.len() <= x@.len(),
            forall|j: int| 0 <= j < i ==> #[trigger] x@[j] == y@[j],
        decreases y@.len() - i,
    {
        if x[i] != y[i] {
            proof {
                assert(s@.take(p@.len() as int)[i as int] != p@[i as int]);
            }
            return false;
        }
        i = i + 1;
    }
    proof {
        assert(s@.take(p@.len() as int) =~= p@);
    }
    true
}

/// Whether `p` stands at the end of `s`.
pub fn ends_with(s: &str, p: &str) -> (r: bool)
    ensures
        r == has_suffix(s@, p@),
{
    let x = chars_of(s);
    let y = chars_of(p);
    if y.len() > x.len() {
        return false;
    }
    let base: usize = x.len() - y.len();
    let mut i: usize = 0;
    while i < y.len()
        invariant
            x@ == s@,
            y@ == p@,
            base + y@.len() == x.len(),
            i <= y@.len() <= x@.len(),
            forall|j: int| 0 <= j < i ==> x@[base + j] == #[trigger] y@[j],
        decreases y@.len() - i,
    {
        if x[base + i] != y[i] {
            proof {
                assert(s@.skip(s@.len() - p@.len())[i as int] != p@[i as int]);
            }
            return false;
        }
        i = i + 1;
    }
    proof {
        assert(s@.skip(s@.len() - p@.len()) =~= p@);
    }
    true
}

/// The text behind the first `n` characters.
pub fn skip_chars(s: &str, n: usize) -> (r: String)
    requires
        n <= s@.len(),
    ensures
        r@ == s@.skip(n as int),
{
    let x = chars_of(s);
    let r = text_between(&x, n, x.len());
    proof {
        assert(s@.subrange(n as int, s@.len() as int) =~= s@.skip(n as int));
    }
    r
}

/// The first `n` characters of a text.
pub fn take_chars(s: &str, n: usize) -> (r: String)
    requires
        n <= s@.len(),
    ensures
        r@ == s@.take(n as int),
{
    let x = chars_of(s);
    let r = text_between(&x, 0, n);
    proof {
        assert(s@.subrange(0, n as int) =~= s@.take(n as int));
    }
    r
}

/// A decimal digit.
pub open spec fn digit(d: int) -> char {
    if d == 0 {
        '0'
    } else if d == 1 {
        '1'
    } else if d == 2 {
        '2'
    } else if d == 3 {
        '3'
    } else if d == 4 {
        '4'
    } else if d == 5 {
        '5'
    } else if d == 6 {
        '6'
    } else if d == 7 {
        '7'
    } else if d == 8 {
        '8'
    } else {
        '9'
    }
}

/// A number written in decimal digits, with no zero in front.
pub open spec fn decimal(n: nat) -> Seq<char>
    decreases n,
{
    if n < 10 {
        seq![digit(n as int)]
    } else {
        decimal(n / 10).push(digit((n % 10) as int))
    }
}

/// An integer written in decimal digits, with a minus sign below zero.
pub open spec fn decimal_int(n: int) -> Seq<char> {
    if n < 0 {
        seq!['-'] + decimal((-n) as nat)
    } else {
        decimal(n as nat)
    }
}

fn digit_char(d: u64) -> (r: char)
    requires
        d < 10,
    ensures
        r == digit(d as int),
{
    if d == 0 {
        '0'
    } else if d == 1 {
        '1'
    } else if d == 2 {
        '2'
    } else if d == 3 {
        '3'
    } else if d == 4 {
        '4'
    } else if d == 5 {
        '5'
    } else if d == 6 {
        '6'
    } else if d == 7 {
        '7'
    } else if d == 8 {
        '8'
    } else {
        '9'
    }
}

/// A number in decimal digits.
pub fn decimal_u64(n: u64) -> (r: String)
    ensures
        r@ == decimal(n as nat),
    decreases n,
{
    if n < 10 {
        let mut out = String::new();
        out.push(digit_char(n));
        proof {
            assert(Seq::<char>::empty().push(digit(n as int)) =~= seq![digit(n as int)]);
        }
        out
    } else {
        let mut out = decimal_u64(n / 10);
        out.push(digit_char(n % 10));
        out
    }
}

/// An integer in decimal digits.
pub fn decimal_i64(n: i64) -> (r: String)
    ensures
        r@ == decimal_int(n as int),
{
    if n < 0 {
        let magnitude: u64 = (-(n + 1)) as u64 + 1;
        let digits = decimal_u64(magnitude);
        let mut out = String::new();
        out.push('-');
        out.append(digits.as_str());
        proof {
            assert(Seq::<char>::empty().push('-') =~= seq!['-']);
        }
        out
    } else {
        decimal_u64(n as u64)
    }
}

/// The first place of a character from `i` on, or the length where there is none.
pub open spec fn place_of(s: Seq<char>, c: char, i: int) -> int
    decreases s.len() - i,
{
    if i < 0 || i >= s.len() {
        s.len() as int
    } else if s[i] == c {
        i
    } else {
        place_of(s, c, i + 1)
    }
}

/// The first place of a character, or the length where there is none.
pub fn find_char(s: &Vec<char>, c: char) -> (r: usize)
    ensures
        r == place_of(s@, c, 0),
        r <= s@.len(),
{
    find_char_from(s, c, 0)
}

/// The first place of a character from `from` on, or the length where there is
/// none.
pub fn find_char_from(s: &Vec<char>, c: char, from: usize) -> (r: usize)
    requires
        from <= s@.len(),
    ensures
        r == place_of(s@, c, from as int),
        from <= r <= s@.len(),
{
    let mut i: usize = from;
    while i < s.len() && s[i] != c
        invariant
            from <= i <= s@.len(),
            place_of(s@, c, from as int) == place_of(s@, c, i as int),
        decreases s@.len() - i,
    {
        i = i + 1;
    }
    i
}

// --------------------------------------------------------------------- order

/// Whether `a` stands before `b` in the order of their characters, from place `i`
/// on.
pub open spec fn before_from(a: Seq<char>, b: Seq<char>, i: int) -> bool
    decreases b.len() - i,
{
    if i < 0 || i >= b.len() {
        false
    } else if i >= a.len() {
        true
    } else if a[i] != b[i] {
        a[i] < b[i]
    } else {
        before_from(a, b, i + 1)
    }
}

/// Whether `a` stands before `b` in the order of their characters.
pub open spec fn is_before(a: Seq<char>, b: Seq<char>) -> bool {
    before_from(a, b, 0)
}

proof fn before_from_transitive(a: Seq<char>, b: Seq<char>, c: Seq<char>, i: int)
    requires
        0 <= i,
        before_from(a, b, i),
        before_from(b, c, i),
    ensures
        before_from(a, c, i),
    decreases c.len() - i,
{
    if i < a.len() && a[i] == b[i] && i < c.len() && b[i] == c[i] {
        before_from_transitive(a, b, c, i + 1);
    }
}

proof fn before_from_total(a: Seq<char>, b: Seq<char>, i: int)
    requires
        0 <= i <= a.len(),
        i <= b.len(),
        forall|k: int| 0 <= k < i ==> a[k] == b[k],
    ensures
        before_from(a, b, i) || before_from(b, a, i) || a == b,
        !(before_from(a, b, i) && before_from(b, a, i)),
    decreases b.len() - i,
{
    if i < a.len() && i < b.len() && a[i] == b[i] {
        before_from_total(a, b, i + 1);
    } else if i >= a.len() && i >= b.len() {
        assert(a =~= b);
    }
}

proof fn before_from_irreflexive(a: Seq<char>, i: int)
    requires
        0 <= i,
    ensures
        !before_from(a, a, i),
    decreases a.len() - i,
{
    if i < a.len() {
        before_from_irreflexive(a, i + 1);
    }
}

/// The order of texts is transitive.
pub proof fn before_transitive(a: Seq<char>, b: Seq<char>, c: Seq<char>)
    requires
        is_before(a, b),
        is_before(b, c),
    ensures
        is_before(a, c),
{
    before_from_transitive(a, b, c, 0);
}

/// Of two different texts exactly one stands before the other, and none before
/// itself.
pub proof fn before_total(a: Seq<char>, b: Seq<char>)
    ensures
        a != b ==> (is_before(a, b) <==> !is_before(b, a)),
        a == b ==> !is_before(a, b),
{
    before_from_total(a, b, 0);
    before_from_irreflexive(a, 0);
}

/// Whether `a` stands before `b` in the order of their characters.
pub fn stands_before(a: &str, b: &str) -> (r: bool)
    ensures
        r == is_before(a@, b@),
{
    let x = chars_of(a);
    let y = chars_of(b);
    let mut i: usize = 0;
    while i < x.len() && i < y.len() && x[i] == y[i]
        invariant
            i <= x@.len(),
            i <= y@.len(),
            x@ == a@,
            y@ == b@,
            is_before(a@, b@) == before_from(a@, b@, i as int),
        decreases x@.len() - i,
    {
        i = i + 1;
    }
    if i >= y.len() {
        false
    } else if i >= x.len() {
        true
    } else {
        x[i] < y[i]
    }
}

// ------------------------------------------------------------------- numbers

/// What a digit stands for.
pub open spec fn digit_value(c: char) -> Option<int> {
    if '0' <= c && c <= '9' {
        Some(c as int - '0' as int)
    } else {
        None
    }
}

/// The number that the first `n` digits stand for; none where one is no digit.
pub open spec fn digits_value(s: Seq<char>, n: nat) -> Option<int>
    decreases n,
{
    if n == 0 {
        Some(0)
    } else {
        match (digits_value(s, (n - 1) as nat), digit_value(s[n - 1])) {
            (Some(head), Some(d)) => Some(10 * head + d),
            _ => None,
        }
    }
}

/// The number of the range of an `i64` that a text stands for: digits, with a sign
/// before them or none.
pub open spec fn parsed_int(s: Seq<char>) -> Option<int> {
    let signed = s.len() > 0 && (s[0] == '-' || s[0] == '+');
    let digits = if signed {
        s.skip(1)
    } else {
        s
    };
    if digits.len() == 0 {
        None
    } else {
        match digits_value(digits, digits.len()) {
            Some(n) => {
                let value = if signed && s[0] == '-' {
                    -n
                } else {
                    n
                };
                if i64::MIN <= value && value <= i64::MAX {
                    Some(value)
                } else {
                    None
                }
            },
            None => None,
        }
    }
}

proof fn digits_value_grows(s: Seq<char>, m: nat, n: nat)
    requires
        m <= n,
    ensures
        digits_value(s, n) is Some ==> digits_value(s, m) is Some,
        digits_value(s, m) matches Some(a) ==> 0 <= a && (digits_value(s, n) matches Some(b) ==> a
            <= b),
    decreases n,
{
    if m < n {
        digits_value_grows(s, m, (n - 1) as nat);
    } else if n > 0 {
        digits_value_grows(s, (n - 1) as nat, (n - 1) as nat);
    }
}

/// The number of the range of an `i64` that a text stands for.
pub fn parse_int(s: &str) -> (r: Option<i64>)
    ensures
        r is Some <==> parsed_int(s@) is Some,
        r matches Some(n) ==> parsed_int(s@) == Some(n as int),
{
    let chars = chars_of(s);
    let signed = chars.len() > 0 && (chars[0] == '-' || chars[0] == '+');
    let from: usize = if signed {
        1
    } else {
        0
    };
    let ghost digits = if signed {
        s@.skip(1)
    } else {
        s@
    };
    proof {
        assert(s@.skip(0) =~= s@);
    }
    if chars.len() == from {
        return None;
    }
    let mut value: u64 = 0;
    let mut i: usize = from;
    while i < chars.len()
        invariant
            from <= i <= chars@.len(),
            chars@ == s@,
            from <= 1,
            digits == s@.skip(from as int),
            s@.skip(0) == s@,
            digits.len() > 0,
            signed == (s@.len() > 0 && (s@[0] == '-' || s@[0] == '+')),
            signed == (from == 1),
            digits_value(digits, (i - from) as nat) == Some(value as int),
            value <= 9223372036854775808,
        decreases chars@.len() - i,
    {
        let c = chars[i];
        proof {
            assert(digits[i - from] == c);
        }
        if c < '0' || c > '9' {
            proof {
                assert(digits_value(digits, (i - from + 1) as nat) is None);
                digits_value_grows(digits, (i - from + 1) as nat, digits.len());
            }
            return None;
        }
        let d: u64 = (c as u64) - ('0' as u64);
        let next: u128 = 10 * (value as u128) + d as u128;
        proof {
            assert(digits_value(digits, (i - from + 1) as nat) == Some(next as int));
            digits_value_grows(digits, (i - from + 1) as nat, digits.len());
        }
        if next > 9223372036854775808 {
            return None;
        }
        value = next as u64;
        i = i + 1;
    }
    if signed && chars[0] == '-' {
        if value == 9223372036854775808 {
            Some(i64::MIN)
        } else {
            Some(-(value as i64))
        }
    } else if value < 9223372036854775808 {
        Some(value as i64)
    } else {
        None
    }
}

/// A text without the characters of one kind at its end.
pub open spec fn trimmed_end(s: Seq<char>, c: char) -> Seq<char>
    decreases s.len(),
{
    if s.len() > 0 && s.last() == c {
        trimmed_end(s.drop_last(), c)
    } else {
        s
    }
}

/// A text without the characters of one kind at its end.
pub fn trim_end_char(s: &str, c: char) -> (r: String)
    ensures
        r@ == trimmed_end(s@, c),
{
    let chars = chars_of(s);
    let mut n: usize = chars.len();
    proof {
        assert(s@.take(n as int) =~= s@);
    }
    while n > 0 && chars[n - 1] == c
        invariant
            n <= chars@.len(),
            chars@ == s@,
            trimmed_end(s@, c) == trimmed_end(s@.take(n as int), c),
        decreases n,
    {
        proof {
            assert(s@.take(n as int).drop_last() =~= s@.take(n - 1));
        }
        n = n - 1;
    }
    let r = text_between(&chars, 0, n);
    proof {
        assert(r@ =~= s@.take(n as int));
    }
    r
}

/// The texts of a list with a separator between each two of them.
pub open spec fn separated(parts: Seq<Seq<char>>, sep: Seq<char>) -> Seq<char>
    decreases parts.len(),
{
    if parts.len() == 0 {
        Seq::empty()
    } else if parts.len() == 1 {
        parts[0]
    } else {
        separated(parts.drop_last(), sep) + sep + parts.last()
    }
}

/// The texts of a list with a separator between each two of them.
pub fn join_all(parts: &Vec<String>, sep: &str) -> (r: String)
    ensures
        r@ == separated(lists::views(parts@), sep@),
{
    let ghost all = lists::views(parts@);
    let mut out = String::new();
    let mut i: usize = 0;
    while i < parts.len()
        invariant
            i <= parts@.len(),
            all == lists::views(parts@),
            out@ == separated(all.take(i as int), sep@),
        decreases parts@.len() - i,
    {
        proof {
            assert(all.take(i as int + 1).drop_last() =~= all.take(i as int));
            assert(all.take(i as int + 1).last() == parts@[i as int]@);
        }
        if i > 0 {
            out.append(sep);
            out.append(parts[i].as_str());
        } else {
            out = parts[i].clone();
        }
        i = i + 1;
    }
    proof {
        assert(all.take(all.len() as int) =~= all);
    }
    out
}

} // verus!
