//! Numbers as IEEE 754 doubles, held as their bits.

use crate::json;
use crate::text;
use vstd::prelude::*;
use vstd::string::*;

verus! {

/// The place of a finite double in the order of all of them: its bits without the
/// sign, counted from zero in the direction of the sign.
pub open spec fn order(bits: u64) -> int {
    if bits < 0x8000_0000_0000_0000 {
        bits as int
    } else {
        0x8000_0000_0000_0000 - bits
    }
}

/// Whether the one finite double is greater than the other.
pub fn is_above(a: u64, b: u64) -> (r: bool)
    ensures
        r == (order(a) > order(b)),
{
    let negative_a = a >= 0x8000_0000_0000_0000;
    let negative_b = b >= 0x8000_0000_0000_0000;
    if negative_a {
        negative_b && a < b
    } else if negative_b {
        a > 0 || b > 0x8000_0000_0000_0000
    } else {
        a > b
    }
}

/// A size cut down to 53 bits, with the power of two that was taken out. `half` is the
/// last bit that fell away and `rest` says whether one before it was set; a tie goes to
/// the even size.
pub open spec fn cut(m: nat, e: int, half: bool, rest: bool) -> (nat, int)
    decreases m,
{
    if m < 0x20_0000_0000_0000 {
        let near = if half && (rest || m % 2 == 1) {
            m + 1
        } else {
            m
        };
        if near == 0x20_0000_0000_0000 {
            (0x10_0000_0000_0000, e + 1)
        } else {
            (near, e)
        }
    } else {
        cut(m / 2, e + 1, m % 2 == 1, rest || half)
    }
}

/// A size brought up to 53 bits, with the power of two that was put in taken off.
pub open spec fn brought_up(m: nat, e: int) -> (nat, int)
    decreases 0x20_0000_0000_0000 - m,
{
    if m == 0 || m >= 0x10_0000_0000_0000 {
        (m, e)
    } else {
        brought_up(2 * m, e - 1)
    }
}

/// The bits of a size of 53 bits times a power of two.
pub open spec fn joined_bits(p: (nat, int)) -> int {
    (p.1 + 1075) * 0x10_0000_0000_0000 + p.0 - 0x10_0000_0000_0000
}

/// The bits of the double nearest to a size.
pub open spec fn nearest_size(m: nat) -> int {
    if m == 0 {
        0
    } else {
        let p = cut(m, 0, false, false);
        joined_bits(brought_up(p.0, p.1))
    }
}

/// The bits of the double nearest to an integer.
pub open spec fn nearest(n: int) -> u64 {
    if n < 0 {
        (0x8000_0000_0000_0000 + nearest_size((-n) as nat)) as u64
    } else {
        nearest_size(n as nat) as u64
    }
}

proof fn cut_says(m: nat, e: int, half: bool, rest: bool, k: nat)
    requires
        1 <= m,
        0 <= e,
        e + k <= 12,
        m < widest(k),
    ensures
        1 <= cut(m, e, half, rest).0 < 0x20_0000_0000_0000,
        e <= cut(m, e, half, rest).1 <= 13,
    decreases m,
{
    if m >= 0x20_0000_0000_0000 {
        assert(k > 0);
        cut_says(m / 2, e + 1, m % 2 == 1, rest || half, (k - 1) as nat);
    }
}

spec fn widest(k: nat) -> nat
    decreases k,
{
    if k == 0 {
        0x20_0000_0000_0000
    } else {
        2 * widest((k - 1) as nat)
    }
}

proof fn brought_up_says(m: nat, e: int, k: nat)
    requires
        1 <= m < 0x20_0000_0000_0000,
        lifted(m, k) >= 0x10_0000_0000_0000,
        k <= 52,
    ensures
        0x10_0000_0000_0000 <= brought_up(m, e).0 < 0x20_0000_0000_0000,
        e - k <= brought_up(m, e).1 <= e,
    decreases 0x20_0000_0000_0000 - m,
{
    if m < 0x10_0000_0000_0000 {
        assert(k > 0);
        brought_up_says(2 * m, e - 1, (k - 1) as nat);
    }
}

spec fn lifted(m: nat, k: nat) -> nat
    decreases k,
{
    if k == 0 {
        m
    } else {
        lifted(2 * m, (k - 1) as nat)
    }
}

proof fn lifted_grows(a: nat, b: nat, k: nat)
    requires
        a <= b,
    ensures
        lifted(a, k) <= lifted(b, k),
    decreases k,
{
    if k > 0 {
        lifted_grows(2 * a, 2 * b, (k - 1) as nat);
    }
}

proof fn lifted_is_enough(m: nat)
    requires
        1 <= m,
    ensures
        lifted(m, 52) >= 0x10_0000_0000_0000,
{
    lifted_grows(1, m, 52);
    reveal_with_fuel(lifted, 53);
}

proof fn widest_is_enough()
    ensures
        widest(11) == 0x1_0000_0000_0000_0000,
{
    reveal_with_fuel(widest, 12);
}

proof fn nearest_size_range(m: nat)
    requires
        m <= u64::MAX,
    ensures
        0 <= nearest_size(m) < 0x4410_0000_0000_0000,
        m > 0 ==> ({
            let p = cut(m, 0, false, false);
            &&& 1 <= p.0 < 0x20_0000_0000_0000
            &&& 0 <= p.1 <= 13
            &&& 0x10_0000_0000_0000 <= brought_up(p.0, p.1).0 < 0x20_0000_0000_0000
            &&& -52 <= brought_up(p.0, p.1).1 <= 13
        }),
{
    if m > 0 {
        widest_is_enough();
        cut_says(m, 0, false, false, 11);
        let p = cut(m, 0, false, false);
        lifted_is_enough(p.0);
        brought_up_says(p.0, p.1, 52);
    }
}

/// The bits of the double nearest to a size.
fn near_size(m: u64) -> (r: u64)
    ensures
        r == nearest_size(m as nat),
{
    if m == 0 {
        return 0;
    }
    proof {
        nearest_size_range(m as nat);
    }
    let mut size: u64 = m;
    let mut power: i64 = 0;
    let mut half = false;
    let mut rest = false;
    proof {
        widest_is_enough();
    }
    let ghost mut left: nat = 11;
    while size >= 0x20_0000_0000_0000
        invariant
            size < widest(left),
            left + power <= 11,
            0 <= power,
            cut(m as nat, 0, false, false) == cut(size as nat, power as int, half, rest),
        decreases size,
    {
        assert(left > 0);
        rest = rest || half;
        half = size % 2 == 1;
        size = size / 2;
        power = power + 1;
        proof {
            left = (left - 1) as nat;
        }
    }
    if half && (rest || size % 2 == 1) {
        size = size + 1;
    }
    if size == 0x20_0000_0000_0000 {
        size = 0x10_0000_0000_0000;
        power = power + 1;
    }
    let ghost p = cut(m as nat, 0, false, false);
    let ghost mut still: nat = 52;
    proof {
        assert(p == (size as nat, power as int));
        lifted_is_enough(size as nat);
    }
    while size < 0x10_0000_0000_0000
        invariant
            1 <= size < 0x20_0000_0000_0000,
            still <= 52,
            lifted(size as nat, still) >= 0x10_0000_0000_0000,
            -52 + still <= power <= 13,
            brought_up(p.0, p.1) == brought_up(size as nat, power as int),
        decreases 0x20_0000_0000_0000 - size,
    {
        assert(still > 0);
        size = 2 * size;
        power = power - 1;
        proof {
            still = (still - 1) as nat;
        }
    }
    proof {
        assert(brought_up(p.0, p.1) == (size as nat, power as int));
        assert(0 <= (power + 1075) * 0x10_0000_0000_0000 <= 0x4400_0000_0000_0000) by (nonlinear_arith)
            requires
                -52 <= power <= 13,
        ;
    }
    ((power + 1075) as u64) * 0x10_0000_0000_0000 + (size - 0x10_0000_0000_0000)
}

/// The bits of the double nearest to an integer.
pub fn near_i64(n: i64) -> (r: u64)
    ensures
        r == nearest(n as int),
{
    if n < 0 {
        let size: u64 = (-(n as i128)) as u64;
        proof {
            nearest_size_range(size as nat);
        }
        0x8000_0000_0000_0000 + near_size(size)
    } else {
        proof {
            nearest_size_range(n as nat);
        }
        near_size(n as u64)
    }
}

/// The bits of the double nearest to an integer.
pub fn near_u64(n: u64) -> (r: u64)
    ensures
        r == nearest(n as int),
{
    proof {
        nearest_size_range(n as nat);
    }
    near_size(n)
}

// -------------------------------------------------------------------- reading

/// The result of reading a text as a double, where it is a finite one.
pub uninterp spec fn parsed_double(text: Seq<char>) -> Option<u64>;

/// `str::parse` into a double, and `serde_json::Number::from_f64`, which keeps a finite
/// one. An integer in decimal digits is read as the double nearest to it; zero may have
/// a sign.
#[verifier::external_body]
pub(crate) fn parse_double(s: &str) -> (r: Option<u64>)
    ensures
        r == parsed_double(s@),
        text::parsed_int(s@) matches Some(n) ==> n != 0 ==> r == Some(nearest(n)),
{
    s.parse().ok().and_then(serde_json::Number::from_f64).and_then(|n| n.as_f64()).map(
        |x| x.to_bits(),
    )
}

// ----------------------------------------------------------------------- laws

proof fn brought_up_keeps(m: nat, e: int)
    requires
        1 <= m < 0x20_0000_0000_0000,
        e <= 0,
    ensures
        json::scaled(brought_up(m, e).0 as int, brought_up(m, e).1) == json::scaled(m as int, e),
    decreases 0x20_0000_0000_0000 - m,
{
    if m < 0x10_0000_0000_0000 {
        brought_up_keeps(2 * m, e - 1);
        assert((2 * m) / 2 == m);
    }
}

/// An integer of up to 53 bits is itself as a double.
pub proof fn small_integer_is_exact(n: int)
    requires
        -0x20_0000_0000_0000 < n < 0x20_0000_0000_0000,
    ensures
        json::float_trunc(nearest(n)) == n,
        json::finite_bits(nearest(n)),
{
    let m = if n < 0 {
        (-n) as nat
    } else {
        n as nat
    };
    nearest_size_range(m);
    if m > 0 {
        assert(cut(m, 0, false, false) == (m, 0int));
        let p = brought_up(m, 0);
        brought_up_keeps(m, 0);
        brought_up_bound(m, 0);
        let bits = nearest(n);
        assert((bits as int / 0x10_0000_0000_0000) % 2048 == p.1 + 1075);
        assert(bits as int % 0x10_0000_0000_0000 == p.0 - 0x10_0000_0000_0000);
        assert(json::scaled(m as int, 0) == m);
        assert(json::scaled(p.0 as int, p.1) == m);
        assert(n < 0 <==> bits as int >= 0x8000_0000_0000_0000);
        let size = json::scaled(
            0x10_0000_0000_0000 + bits as int % 0x10_0000_0000_0000,
            (bits as int / 0x10_0000_0000_0000) % 2048 - 1075,
        );
        assert(size == m);
    }
}

proof fn brought_up_bound(m: nat, e: int)
    requires
        1 <= m < 0x20_0000_0000_0000,
    ensures
        0x10_0000_0000_0000 <= brought_up(m, e).0 < 0x20_0000_0000_0000,
        brought_up(m, e).1 <= e,
    decreases 0x20_0000_0000_0000 - m,
{
    if m < 0x10_0000_0000_0000 {
        brought_up_bound(2 * m, e - 1);
    }
}

proof fn brought_up_in_order(a: nat, b: nat, e: int)
    requires
        1 <= a < b < 0x20_0000_0000_0000,
    ensures
        joined_bits(brought_up(a, e)) < joined_bits(brought_up(b, e)),
    decreases 0x20_0000_0000_0000 - a,
{
    if b < 0x10_0000_0000_0000 {
        brought_up_in_order(2 * a, 2 * b, e - 1);
    } else if a < 0x10_0000_0000_0000 {
        brought_up_bound(2 * a, e - 1);
    }
}

/// Integers of up to 53 bits have the order of their doubles.
pub proof fn small_integers_in_order(a: int, b: int)
    requires
        -0x20_0000_0000_0000 < a < b < 0x20_0000_0000_0000,
    ensures
        order(nearest(a)) < order(nearest(b)),
{
    let x = if a < 0 {
        (-a) as nat
    } else {
        a as nat
    };
    let y = if b < 0 {
        (-b) as nat
    } else {
        b as nat
    };
    nearest_size_range(x);
    nearest_size_range(y);
    if x > 0 {
        assert(cut(x, 0, false, false) == (x, 0int));
        positive_size(x);
    }
    if y > 0 {
        assert(cut(y, 0, false, false) == (y, 0int));
        positive_size(y);
    }
    if 1 <= x < y {
        brought_up_in_order(x, y, 0);
    } else if 1 <= y < x {
        brought_up_in_order(y, x, 0);
    }
}

proof fn positive_size(m: nat)
    requires
        1 <= m < 0x20_0000_0000_0000,
    ensures
        nearest_size(m) > 0,
{
    nearest_size_range(m);
}

} // verus!
