//! Lists seen through the views of their items, and the searches on them.

use crate::text;
use vstd::prelude::*;
use vstd::string::*;

verus! {

/// The views of the items of a list.
pub open spec fn views<T: View>(s: Seq<T>) -> Seq<T::V> {
    Seq::new(s.len(), |i: int| s[i]@)
}

/// The views of a longer list.
pub proof fn views_push<T: View>(s: Seq<T>, x: T)
    ensures
        views(s.push(x)) == views(s).push(x@),
{
    assert(views(s.push(x)) =~= views(s).push(x@));
}

/// Each item of a list, changed the same way.
pub open spec fn mapped<A, B>(s: Seq<A>, change: spec_fn(A) -> B) -> Seq<B> {
    Seq::new(s.len(), |i: int| change(s[i]))
}

/// Whether an item of a list is of some kind.
pub open spec fn any<A>(s: Seq<A>, pred: spec_fn(A) -> bool) -> bool {
    exists|i: int| 0 <= i < s.len() && pred(#[trigger] s[i])
}

/// The place of the first item from `i` on that is of some kind, else the length.
pub open spec fn first_where<A>(s: Seq<A>, pred: spec_fn(A) -> bool, i: int) -> int
    decreases s.len() - i,
{
    if i < 0 || i >= s.len() {
        s.len() as int
    } else if pred(s[i]) {
        i
    } else {
        first_where(s, pred, i + 1)
    }
}

/// The first item that is of some kind.
pub open spec fn found<A>(s: Seq<A>, pred: spec_fn(A) -> bool) -> Option<A> {
    let i = first_where(s, pred, 0);
    if i < s.len() {
        Some(s[i])
    } else {
        None
    }
}

/// What the place of the first item of some kind says.
pub proof fn first_where_says<A>(s: Seq<A>, pred: spec_fn(A) -> bool, i: int)
    requires
        0 <= i <= s.len(),
    ensures
        i <= first_where(s, pred, i) <= s.len(),
        first_where(s, pred, i) < s.len() ==> pred(s[first_where(s, pred, i)]),
        forall|j: int| i <= j < first_where(s, pred, i) ==> !pred(#[trigger] s[j]),
    decreases s.len() - i,
{
    if i < s.len() && !pred(s[i]) {
        first_where_says(s, pred, i + 1);
    }
}

/// A list has an item of some kind exactly where the search for it finds one.
pub proof fn found_says<A>(s: Seq<A>, pred: spec_fn(A) -> bool)
    ensures
        found(s, pred) is Some <==> any(s, pred),
        found(s, pred) matches Some(x) ==> pred(x),
{
    first_where_says(s, pred, 0);
}

/// The items of some kind among one item more.
pub proof fn kept_step<A>(s: Seq<A>, pred: spec_fn(A) -> bool, i: int)
    requires
        0 <= i < s.len(),
    ensures
        s.take(i + 1).filter(pred) == (if pred(s[i]) {
            s.take(i).filter(pred).push(s[i])
        } else {
            s.take(i).filter(pred)
        }),
{
    reveal(Seq::filter);
    assert(s.take(i + 1).drop_last() =~= s.take(i));
}

/// The items of some kind among all items.
pub proof fn kept_all<A>(s: Seq<A>, pred: spec_fn(A) -> bool)
    ensures
        s.take(s.len() as int).filter(pred) == s.filter(pred),
        s.take(0).filter(pred) == Seq::<A>::empty(),
{
    reveal(Seq::filter);
    assert(s.take(s.len() as int) =~= s);
    assert(s.take(0) =~= Seq::<A>::empty());
}

/// Which items stand in a list after the others are taken out.
pub proof fn kept_says<A>(s: Seq<A>, pred: spec_fn(A) -> bool)
    ensures
        forall|i: int|
            0 <= i < s.filter(pred).len() ==> pred(#[trigger] s.filter(pred)[i]) && s.contains(
                s.filter(pred)[i],
            ),
        forall|i: int|
            0 <= i < s.len() && pred(#[trigger] s[i]) ==> s.filter(pred).contains(s[i]),
    decreases s.len(),
{
    reveal(Seq::filter);
    if s.len() > 0 {
        let t = s.drop_last();
        kept_says(t, pred);
        let out = s.filter(pred);
        assert forall|i: int| 0 <= i < out.len() implies pred(#[trigger] out[i]) && s.contains(
            out[i],
        ) by {
            if i < t.filter(pred).len() {
                assert(out[i] == t.filter(pred)[i]);
                let j = choose|j: int| 0 <= j < t.len() && t[j] == t.filter(pred)[i];
                assert(s[j] == out[i]);
            } else {
                assert(s[s.len() - 1] == out[i]);
            }
        }
        assert forall|i: int| 0 <= i < s.len() && pred(#[trigger] s[i]) implies out.contains(
            s[i],
        ) by {
            if i < t.len() {
                assert(t[i] == s[i]);
                let j = choose|j: int|
                    0 <= j < t.filter(pred).len() && t.filter(pred)[j] == t[i];
                assert(out[j] == s[i]);
            } else {
                assert(out[out.len() - 1] == s[i]);
            }
        }
    }
}

/// A list of which every item is of some kind loses nothing.
pub proof fn kept_whole<A>(s: Seq<A>, pred: spec_fn(A) -> bool)
    requires
        forall|i: int| 0 <= i < s.len() ==> pred(#[trigger] s[i]),
    ensures
        s.filter(pred) == s,
    decreases s.len(),
{
    reveal(Seq::filter);
    if s.len() > 0 {
        assert(pred(s[s.len() - 1]));
        kept_whole(s.drop_last(), pred);
        assert(s.drop_last().push(s.last()) =~= s);
    }
}

/// Taking items out a second time changes nothing.
pub proof fn kept_twice<A>(s: Seq<A>, pred: spec_fn(A) -> bool)
    ensures
        s.filter(pred).filter(pred) == s.filter(pred),
{
    kept_says(s, pred);
    kept_whole(s.filter(pred), pred);
}

/// What a reading makes of the items of a list; those of which it makes nothing are
/// left out.
pub open spec fn chosen<A, B>(s: Seq<A>, read: spec_fn(A) -> Option<B>) -> Seq<B>
    decreases s.len(),
{
    if s.len() == 0 {
        Seq::empty()
    } else {
        let before = chosen(s.drop_last(), read);
        match read(s.last()) {
            Some(b) => before.push(b),
            None => before,
        }
    }
}

/// What a reading makes of one item more.
pub proof fn chosen_step<A, B>(s: Seq<A>, read: spec_fn(A) -> Option<B>, i: int)
    requires
        0 <= i < s.len(),
    ensures
        chosen(s.take(i + 1), read) == (match read(s[i]) {
            Some(b) => chosen(s.take(i), read).push(b),
            None => chosen(s.take(i), read),
        }),
{
    assert(s.take(i + 1).drop_last() =~= s.take(i));
}

/// What a reading makes of all items.
pub proof fn chosen_all<A, B>(s: Seq<A>, read: spec_fn(A) -> Option<B>)
    ensures
        chosen(s.take(s.len() as int), read) == chosen(s, read),
        chosen(s.take(0), read) == Seq::<B>::empty(),
{
    assert(s.take(s.len() as int) =~= s);
}

/// Every item that a reading yields comes from an item of the list.
pub proof fn chosen_says<A, B>(s: Seq<A>, read: spec_fn(A) -> Option<B>)
    ensures
        forall|i: int|
            0 <= i < chosen(s, read).len() ==> exists|j: int|
                0 <= j < s.len() && read(#[trigger] s[j]) == Some(#[trigger] chosen(s, read)[i]),
    decreases s.len(),
{
    if s.len() > 0 {
        let t = s.drop_last();
        chosen_says(t, read);
        let out = chosen(s, read);
        assert forall|i: int| 0 <= i < out.len() implies exists|j: int|
            0 <= j < s.len() && read(#[trigger] s[j]) == Some(#[trigger] out[i]) by {
            if i < chosen(t, read).len() {
                assert(out[i] == chosen(t, read)[i]);
                let j = choose|j: int|
                    0 <= j < t.len() && read(#[trigger] t[j]) == Some(chosen(t, read)[i]);
                assert(s[j] == t[j]);
            } else {
                assert(read(s[s.len() - 1]) == Some(out[i]));
            }
        }
    }
}

/// A reading that yields something of every item yields one item for each.
pub proof fn chosen_whole<A, B>(s: Seq<A>, read: spec_fn(A) -> Option<B>, want: Seq<B>)
    requires
        s.len() == want.len(),
        forall|i: int| 0 <= i < s.len() ==> read(#[trigger] s[i]) == Some(want[i]),
    ensures
        chosen(s, read) == want,
    decreases s.len(),
{
    if s.len() > 0 {
        chosen_whole(s.drop_last(), read, want.drop_last());
        assert(want.drop_last().push(want.last()) =~= want);
        assert(read(s[s.len() - 1]) == Some(want[s.len() - 1]));
    } else {
        assert(want =~= Seq::empty());
    }
}

/// Two readings that agree on every item of a list yield the same.
pub proof fn chosen_same<A, B>(
    s: Seq<A>,
    first: spec_fn(A) -> Option<B>,
    second: spec_fn(A) -> Option<B>,
)
    requires
        forall|i: int| 0 <= i < s.len() ==> first(#[trigger] s[i]) == second(s[i]),
    ensures
        chosen(s, first) == chosen(s, second),
    decreases s.len(),
{
    if s.len() > 0 {
        assert(first(s[s.len() - 1]) == second(s[s.len() - 1]));
        chosen_same(s.drop_last(), first, second);
    }
}

/// Whether a text stands in a list.
pub(crate) fn contains_text(list: &Vec<String>, one: &str) -> (r: bool)
    ensures
        r == views(list@).contains(one@),
{
    let ghost all = views(list@);
    let mut i: usize = 0;
    while i < list.len()
        invariant
            i <= list@.len(),
            all == views(list@),
            forall|j: int| 0 <= j < i ==> #[trigger] all[j] != one@,
        decreases list@.len() - i,
    {
        if text::same(list[i].as_str(), one) {
            proof {
                assert(all[i as int] == one@);
            }
            return true;
        }
        i = i + 1;
    }
    false
}

} // verus!
