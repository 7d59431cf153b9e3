//! A small table keyed by texts.

use crate::text;
use vstd::prelude::*;
use vstd::string::*;

verus! {

/// A table with at most one entry for each name.
pub struct TextMap<V> {
    entries: Vec<(String, V)>,
}

spec fn entries_map<V>(s: Seq<(String, V)>) -> Map<Seq<char>, V>
    decreases s.len(),
{
    if s.len() == 0 {
        Map::empty()
    } else {
        entries_map(s.drop_last()).insert(s.last().0@, s.last().1)
    }
}

spec fn names_once<V>(s: Seq<(String, V)>) -> bool {
    forall|i: int, j: int| 0 <= i < j < s.len() ==> (#[trigger] s[i]).0@ != (#[trigger] s[j]).0@
}

proof fn entries_in_map<V>(s: Seq<(String, V)>)
    requires
        names_once(s),
    ensures
        forall|i: int|
            0 <= i < s.len() ==> entries_map(s).contains_key((#[trigger] s[i]).0@) && entries_map(
                s,
            )[s[i].0@] == s[i].1,
        forall|k: Seq<char>| #[trigger]
            entries_map(s).contains_key(k) ==> exists|i: int|
                0 <= i < s.len() && (#[trigger] s[i]).0@ == k,
    decreases s.len(),
{
    if s.len() > 0 {
        let t = s.drop_last();
        assert forall|i: int, j: int| 0 <= i < j < t.len() implies (#[trigger] t[i]).0@ != (
        #[trigger] t[j]).0@ by {
            assert(s[i].0@ != s[j].0@);
        }
        entries_in_map(t);
        assert forall|i: int| 0 <= i < s.len() implies entries_map(s).contains_key(
            (#[trigger] s[i]).0@,
        ) && entries_map(s)[s[i].0@] == s[i].1 by {
            if i < t.len() {
                assert(t[i] == s[i]);
                assert(s[i].0@ != s[s.len() - 1].0@);
            }
        }
        assert forall|k: Seq<char>| #[trigger] entries_map(s).contains_key(k) implies exists|i: int|
            0 <= i < s.len() && (#[trigger] s[i]).0@ == k by {
            if k != s.last().0@ {
                assert(entries_map(t).contains_key(k));
                let i = choose|i: int| 0 <= i < t.len() && (#[trigger] t[i]).0@ == k;
                assert(s[i].0@ == k);
            } else {
                assert(s[s.len() - 1].0@ == k);
            }
        }
    }
}

proof fn map_is<V>(s: Seq<(String, V)>, m: Map<Seq<char>, V>)
    requires
        names_once(s),
        forall|i: int|
            0 <= i < s.len() ==> m.contains_key((#[trigger] s[i]).0@) && m[s[i].0@] == s[i].1,
        forall|k: Seq<char>| #[trigger]
            m.contains_key(k) ==> exists|i: int| 0 <= i < s.len() && (#[trigger] s[i]).0@ == k,
    ensures
        entries_map(s) == m,
{
    entries_in_map(s);
    let c = entries_map(s);
    assert forall|k: Seq<char>| #[trigger] c.contains_key(k) <==> m.contains_key(k) by {
        if c.contains_key(k) {
            let i = choose|i: int| 0 <= i < s.len() && (#[trigger] s[i]).0@ == k;
            assert(m.contains_key(s[i].0@));
        }
        if m.contains_key(k) {
            let i = choose|i: int| 0 <= i < s.len() && (#[trigger] s[i]).0@ == k;
            assert(c.contains_key(s[i].0@));
        }
    }
    assert forall|k: Seq<char>| #[trigger] c.contains_key(k) implies c[k] == m[k] by {
        let i = choose|i: int| 0 <= i < s.len() && (#[trigger] s[i]).0@ == k;
        assert(m[s[i].0@] == s[i].1);
    }
    assert(c =~= m);
}

impl<V> View for TextMap<V> {
    type V = Map<Seq<char>, V>;

    closed spec fn view(&self) -> Map<Seq<char>, V> {
        entries_map(self.entries@)
    }
}

impl<V> TextMap<V> {
    #[verifier::type_invariant]
    spec fn inv(self) -> bool {
        names_once(self.entries@)
    }

    /// An empty table.
    pub fn new() -> (r: TextMap<V>)
        ensures
            r@ == Map::<Seq<char>, V>::empty(),
    {
        TextMap { entries: Vec::new() }
    }

    fn find(&self, key: &str) -> (r: usize)
        ensures
            r <= self.entries@.len(),
            r < self.entries@.len() ==> self.entries@[r as int].0@ == key@,
            r == self.entries@.len() ==> forall|i: int|
                0 <= i < self.entries@.len() ==> (#[trigger] self.entries@[i]).0@ != key@,
    {
        let mut i: usize = 0;
        while i < self.entries.len() && !text::same(self.entries[i].0.as_str(), key)
            invariant
                i <= self.entries@.len(),
                forall|k: int| 0 <= k < i ==> (#[trigger] self.entries@[k]).0@ != key@,
            decreases self.entries@.len() - i,
        {
            i = i + 1;
        }
        i
    }

    /// What stands under a name.
    pub fn get(&self, key: &str) -> (r: Option<&V>)
        ensures
            r is Some <==> self@.contains_key(key@),
            r matches Some(v) ==> *v == self@[key@],
    {
        proof {
            use_type_invariant(self);
            entries_in_map(self.entries@);
        }
        let p = self.find(key);
        if p < self.entries.len() {
            Some(&self.entries[p].1)
        } else {
            None
        }
    }

    /// Removes what stands under a name.
    pub fn remove(&mut self, key: &str)
        ensures
            final(self)@ == old(self)@.remove(key@),
    {
        proof {
            use_type_invariant(&*self);
        }
        let p = self.find(key);
        let ghost before = self.entries@;
        let ghost m = self@.remove(key@);
        proof {
            entries_in_map(before);
        }
        if p >= self.entries.len() {
            proof {
                assert(m =~= self@);
            }
            return;
        }
        let mut entries: Vec<(String, V)> = Vec::new();
        std::mem::swap(&mut entries, &mut self.entries);
        entries.remove(p);
        proof {
            let after = entries@;
            assert(after == before.remove(p as int));
            assert forall|i: int, j: int| 0 <= i < j < after.len() implies (#[trigger] after[i]).0@
                != (#[trigger] after[j]).0@ by {
                let x = if i < p {
                    i
                } else {
                    i + 1
                };
                let y = if j < p {
                    j
                } else {
                    j + 1
                };
                assert(after[i] == before[x] && after[j] == before[y]);
            }
            assert forall|i: int| 0 <= i < after.len() implies m.contains_key(
                (#[trigger] after[i]).0@,
            ) && m[after[i].0@] == after[i].1 by {
                if i < p {
                    assert(after[i] == before[i]);
                    assert(before[i].0@ != before[p as int].0@);
                } else {
                    assert(after[i] == before[i + 1]);
                    assert(before[p as int].0@ != before[i + 1].0@);
                }
            }
            assert forall|k: Seq<char>| #[trigger] m.contains_key(k) implies exists|i: int|
                0 <= i < after.len() && (#[trigger] after[i]).0@ == k by {
                let i = choose|i: int| 0 <= i < before.len() && (#[trigger] before[i]).0@ == k;
                if i < p {
                    assert(after[i].0@ == k);
                } else {
                    assert(after[i - 1].0@ == k);
                }
            }
            map_is(after, m);
        }
        self.entries = entries;
    }

    /// Puts something under a name, in place of what stood there.
    pub fn insert(&mut self, key: &str, value: V)
        ensures
            final(self)@ == old(self)@.insert(key@, value),
    {
        let ghost whole = self@;
        self.remove(key);
        proof {
            use_type_invariant(&*self);
        }
        let ghost before = self.entries@;
        let ghost m = whole.insert(key@, value);
        let mut entries: Vec<(String, V)> = Vec::new();
        std::mem::swap(&mut entries, &mut self.entries);
        entries.push((key.to_owned(), value));
        proof {
            entries_in_map(before);
            let after = entries@;
            assert(!entries_map(before).contains_key(key@));
            assert forall|i: int, j: int| 0 <= i < j < after.len() implies (#[trigger] after[i]).0@
                != (#[trigger] after[j]).0@ by {
                assert(after[i] == before[i]);
                assert(entries_map(before).contains_key(before[i].0@));
                if j < before.len() {
                    assert(before[i].0@ != before[j].0@);
                }
            }
            assert forall|i: int| 0 <= i < after.len() implies m.contains_key(
                (#[trigger] after[i]).0@,
            ) && m[after[i].0@] == after[i].1 by {
                if i < before.len() {
                    assert(after[i] == before[i]);
                    assert(entries_map(before).contains_key(before[i].0@));
                }
            }
            assert forall|k: Seq<char>| #[trigger] m.contains_key(k) implies exists|i: int|
                0 <= i < after.len() && (#[trigger] after[i]).0@ == k by {
                if k == key@ {
                    assert(after[before.len() as int].0@ == k);
                } else {
                    assert(entries_map(before).contains_key(k));
                    let i = choose|i: int| 0 <= i < before.len() && (#[trigger] before[i]).0@ == k;
                    assert(after[i].0@ == k);
                }
            }
            map_is(after, m);
        }
        self.entries = entries;
    }
}

} // verus!
