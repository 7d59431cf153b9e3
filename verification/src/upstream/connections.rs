//! How many requests each account carries at this moment.
//!
//! A request holds a guard. The guard counts for at most one account at a time: it
//! moves along when the request is given to another account, and is handed on to
//! the stream that answers it.

use crate::json;
use crate::text;
use vstd::prelude::*;
use vstd::string::*;

verus! {

/// The counts: the accounts that carry something, and how many requests.
pub type Counts = Map<Seq<char>, nat>;

/// The count of an account.
pub open spec fn count_of(m: Counts, id: Seq<char>) -> nat {
    if m.contains_key(id) {
        m[id]
    } else {
        0
    }
}

/// One request more for an account, as far as the count goes; a request without an
/// account is not counted.
pub open spec fn one_more(m: Counts, id: Seq<char>) -> Counts {
    if id.len() == 0 {
        m
    } else if count_of(m, id) < usize::MAX {
        m.insert(id, count_of(m, id) + 1)
    } else {
        m
    }
}

/// One request less for an account; at zero the account leaves the table.
pub open spec fn one_less(m: Counts, id: Seq<char>) -> Counts {
    if count_of(m, id) > 1 {
        m.insert(id, (count_of(m, id) - 1) as nat)
    } else {
        m.remove(id)
    }
}

/// The requests that each account carries.
pub struct Connections {
    table: Vec<(String, usize)>,
}

spec fn table_counts(t: Seq<(String, usize)>) -> Counts
    decreases t.len(),
{
    if t.len() == 0 {
        Map::empty()
    } else {
        table_counts(t.drop_last()).insert(t.last().0@, t.last().1 as nat)
    }
}

/// Whether a table stands in the order of its names, each once, with no empty name
/// and no count of zero.
pub open spec fn tidy(t: Seq<(String, usize)>) -> bool {
    &&& forall|i: int, j: int|
        0 <= i < j < t.len() ==> text::is_before((#[trigger] t[i]).0@, (#[trigger] t[j]).0@)
    &&& forall|i: int| 0 <= i < t.len() ==> (#[trigger] t[i]).1 > 0 && t[i].0@.len() > 0
}

proof fn counts_of_table(t: Seq<(String, usize)>)
    requires
        tidy(t),
    ensures
        forall|i: int|
            0 <= i < t.len() ==> table_counts(t).contains_key((#[trigger] t[i]).0@) && table_counts(
                t,
            )[t[i].0@] == t[i].1,
        forall|k: Seq<char>| #[trigger]
            table_counts(t).contains_key(k) ==> exists|i: int|
                0 <= i < t.len() && (#[trigger] t[i]).0@ == k,
    decreases t.len(),
{
    if t.len() > 0 {
        let s = t.drop_last();
        assert(tidy(s)) by {
            assert forall|i: int, j: int| 0 <= i < j < s.len() implies text::is_before(
                (#[trigger] s[i]).0@,
                (#[trigger] s[j]).0@,
            ) by {
                assert(s[i] == t[i] && s[j] == t[j]);
            }
            assert forall|i: int| 0 <= i < s.len() implies (#[trigger] s[i]).1 > 0
                && s[i].0@.len() > 0 by {
                assert(s[i] == t[i]);
            }
        }
        counts_of_table(s);
        assert forall|i: int| 0 <= i < t.len() implies table_counts(t).contains_key(
            (#[trigger] t[i]).0@,
        ) && table_counts(t)[t[i].0@] == t[i].1 by {
            if i < s.len() {
                assert(s[i] == t[i]);
                assert(text::is_before(t[i].0@, t[t.len() - 1].0@));
                text::before_total(t[i].0@, t[t.len() - 1].0@);
            }
        }
        assert forall|k: Seq<char>| #[trigger] table_counts(t).contains_key(k) implies exists|i: int|
            0 <= i < t.len() && (#[trigger] t[i]).0@ == k by {
            if k != t.last().0@ {
                assert(table_counts(s).contains_key(k));
                let i = choose|i: int| 0 <= i < s.len() && (#[trigger] s[i]).0@ == k;
                assert(t[i].0@ == k);
            } else {
                assert(t[t.len() - 1].0@ == k);
            }
        }
    }
}

proof fn counts_are(t: Seq<(String, usize)>, m: Counts)
    requires
        tidy(t),
        forall|i: int|
            0 <= i < t.len() ==> m.contains_key((#[trigger] t[i]).0@) && m[t[i].0@] == t[i].1,
        forall|k: Seq<char>| #[trigger]
            m.contains_key(k) ==> exists|i: int| 0 <= i < t.len() && (#[trigger] t[i]).0@ == k,
    ensures
        table_counts(t) == m,
{
    counts_of_table(t);
    let c = table_counts(t);
    assert forall|k: Seq<char>| #[trigger] c.contains_key(k) <==> m.contains_key(k) by {
        if c.contains_key(k) {
            let i = choose|i: int| 0 <= i < t.len() && (#[trigger] t[i]).0@ == k;
            assert(m.contains_key(t[i].0@));
        }
        if m.contains_key(k) {
            let i = choose|i: int| 0 <= i < t.len() && (#[trigger] t[i]).0@ == k;
            assert(c.contains_key(t[i].0@));
        }
    }
    assert forall|k: Seq<char>| #[trigger] c.contains_key(k) implies c[k] == m[k] by {
        let i = choose|i: int| 0 <= i < t.len() && (#[trigger] t[i]).0@ == k;
        assert(m[t[i].0@] == t[i].1);
    }
    assert(c =~= m);
}

impl View for Connections {
    type V = Counts;

    closed spec fn view(&self) -> Counts {
        table_counts(self.table@)
    }
}

impl Connections {
    #[verifier::type_invariant]
    spec fn inv(self) -> bool {
        tidy(self.table@)
    }

    /// No requests.
    pub fn new() -> (r: Connections)
        ensures
            r@ == Map::<Seq<char>, nat>::empty(),
    {
        Connections { table: Vec::new() }
    }

    /// The accounts that carry something and how many requests, in the order of
    /// their names.
    pub fn snapshot(&self) -> (r: Vec<(String, usize)>)
        ensures
            tidy(r@),
            forall|i: int|
                0 <= i < r@.len() ==> self@.contains_key((#[trigger] r@[i]).0@) && self@[r@[i].0@]
                    == r@[i].1,
            forall|k: Seq<char>| #[trigger]
                self@.contains_key(k) ==> exists|i: int|
                    0 <= i < r@.len() && (#[trigger] r@[i]).0@ == k,
    {
        proof {
            use_type_invariant(self);
        }
        let mut out: Vec<(String, usize)> = Vec::new();
        let mut i: usize = 0;
        while i < self.table.len()
            invariant
                i <= self.table@.len(),
                out@.len() == i,
                forall|k: int|
                    0 <= k < i ==> (#[trigger] out@[k]).0@ == self.table@[k].0@ && out@[k].1
                        == self.table@[k].1,
            decreases self.table@.len() - i,
        {
            out.push((self.table[i].0.clone(), self.table[i].1));
            i = i + 1;
        }
        proof {
            counts_of_table(self.table@);
            assert forall|a: int, b: int| 0 <= a < b < out@.len() implies text::is_before(
                (#[trigger] out@[a]).0@,
                (#[trigger] out@[b]).0@,
            ) by {
                assert(text::is_before(self.table@[a].0@, self.table@[b].0@));
            }
            assert forall|k: int| 0 <= k < out@.len() implies (#[trigger] out@[k]).1 > 0
                && out@[k].0@.len() > 0 by {
                assert(self.table@[k].1 > 0);
            }
            assert forall|k: int| 0 <= k < out@.len() implies self@.contains_key(
                (#[trigger] out@[k]).0@,
            ) && self@[out@[k].0@] == out@[k].1 by {
                assert(self.table@[k].1 > 0);
            }
            assert forall|k: Seq<char>| #[trigger] self@.contains_key(k) implies exists|i: int|
                0 <= i < out@.len() && (#[trigger] out@[i]).0@ == k by {
                let i = choose|i: int|
                    0 <= i < self.table@.len() && (#[trigger] self.table@[i]).0@ == k;
                assert(out@[i].0@ == k);
            }
        }
        out
    }

    /// The first place whose name does not stand before the given one.
    fn find(&self, id: &str) -> (r: usize)
        ensures
            r <= self.table@.len(),
            forall|k: int|
                0 <= k < r ==> text::is_before((#[trigger] self.table@[k]).0@, id@),
            forall|k: int|
                r <= k < self.table@.len() ==> !text::is_before(
                    (#[trigger] self.table@[k]).0@,
                    id@,
                ),
    {
        proof {
            use_type_invariant(self);
        }
        let mut p: usize = 0;
        while p < self.table.len() && text::stands_before(self.table[p].0.as_str(), id)
            invariant
                p <= self.table@.len(),
                forall|k: int|
                    0 <= k < p ==> text::is_before((#[trigger] self.table@[k]).0@, id@),
            decreases self.table@.len() - p,
        {
            p = p + 1;
        }
        proof {
            assert forall|k: int| p <= k < self.table@.len() implies !text::is_before(
                (#[trigger] self.table@[k]).0@,
                id@,
            ) by {
                if k > p && text::is_before(self.table@[k].0@, id@) {
                    assert(text::is_before(self.table@[p as int].0@, self.table@[k].0@));
                    text::before_transitive(self.table@[p as int].0@, self.table@[k].0@, id@);
                }
            }
        }
        p
    }

    /// Counts one request more for an account.
    pub(crate) fn add_one(&mut self, id: &str)
        ensures
            final(self)@ == one_more(old(self)@, id@),
    {
        if id.is_empty() {
            return;
        }
        proof {
            use_type_invariant(&*self);
        }
        let p = self.find(id);
        let ghost before = self.table@;
        let ghost m = one_more(self@, id@);
        proof {
            counts_of_table(before);
        }
        let mut table: Vec<(String, usize)> = Vec::new();
        std::mem::swap(&mut table, &mut self.table);
        if p < table.len() && text::same(table[p].0.as_str(), id) {
            let n = table[p].1;
            if n < usize::MAX {
                table.set(p, (id.to_owned(), n + 1));
            }
            proof {
                assert(before[p as int].0@ == id@);
                keeps_tidy_on_update(before, table@, p as int);
                assert forall|i: int| 0 <= i < table@.len() implies m.contains_key(
                    (#[trigger] table@[i]).0@,
                ) && m[table@[i].0@] == table@[i].1 by {
                    assert(table@[i].0@ == before[i].0@);
                    if i != p {
                        names_apart(before, i, p as int);
                    }
                }
                assert forall|k: Seq<char>| #[trigger] m.contains_key(k) implies exists|i: int|
                    0 <= i < table@.len() && (#[trigger] table@[i]).0@ == k by {
                    let i = choose|i: int| 0 <= i < before.len() && (#[trigger] before[i]).0@ == k;
                    assert(table@[i].0@ == k);
                }
                counts_are(table@, m);
            }
        } else {
            proof {
                assert(!table_counts(before).contains_key(id@)) by {
                    if table_counts(before).contains_key(id@) {
                        let i = choose|i: int|
                            0 <= i < before.len() && (#[trigger] before[i]).0@ == id@;
                        text::before_total(before[i].0@, id@);
                        assert(i >= p);
                        if i > p {
                            assert(text::is_before(before[p as int].0@, before[i].0@));
                            assert(!text::is_before(before[p as int].0@, id@));
                        }
                    }
                }
            }
            table.insert(p, (id.to_owned(), 1));
            proof {
                keeps_tidy_on_insert(before, table@, p as int, id@);
                assert forall|i: int| 0 <= i < table@.len() implies m.contains_key(
                    (#[trigger] table@[i]).0@,
                ) && m[table@[i].0@] == table@[i].1 by {
                    if i < p {
                        assert(table@[i] == before[i]);
                    } else if i > p {
                        assert(table@[i] == before[i - 1]);
                    }
                }
                assert forall|k: Seq<char>| #[trigger] m.contains_key(k) implies exists|i: int|
                    0 <= i < table@.len() && (#[trigger] table@[i]).0@ == k by {
                    if k == id@ {
                        assert(table@[p as int].0@ == k);
                    } else {
                        assert(table_counts(before).contains_key(k));
                        let i = choose|i: int|
                            0 <= i < before.len() && (#[trigger] before[i]).0@ == k;
                        if i < p {
                            assert(table@[i].0@ == k);
                        } else {
                            assert(table@[i + 1].0@ == k);
                        }
                    }
                }
                counts_are(table@, m);
            }
        }
        self.table = table;
    }

    /// Counts one request less for an account.
    pub(crate) fn sub_one(&mut self, id: &str)
        ensures
            final(self)@ == one_less(old(self)@, id@),
    {
        proof {
            use_type_invariant(&*self);
        }
        let p = self.find(id);
        let ghost before = self.table@;
        let ghost m = one_less(self@, id@);
        proof {
            counts_of_table(before);
        }
        if p >= self.table.len() || !text::same(self.table[p].0.as_str(), id) {
            proof {
                assert(!table_counts(before).contains_key(id@)) by {
                    if table_counts(before).contains_key(id@) {
                        let i = choose|i: int|
                            0 <= i < before.len() && (#[trigger] before[i]).0@ == id@;
                        text::before_total(before[i].0@, id@);
                        assert(i >= p);
                        if i > p {
                            assert(text::is_before(before[p as int].0@, before[i].0@));
                            assert(!text::is_before(before[p as int].0@, id@));
                        }
                    }
                }
                assert(m =~= self@);
            }
            return;
        }
        let mut table: Vec<(String, usize)> = Vec::new();
        std::mem::swap(&mut table, &mut self.table);
        let n = table[p].1;
        if n > 1 {
            table.set(p, (id.to_owned(), n - 1));
            proof {
                keeps_tidy_on_update(before, table@, p as int);
                assert forall|i: int| 0 <= i < table@.len() implies m.contains_key(
                    (#[trigger] table@[i]).0@,
                ) && m[table@[i].0@] == table@[i].1 by {
                    assert(table@[i].0@ == before[i].0@);
                    if i != p {
                        names_apart(before, i, p as int);
                    }
                }
                assert forall|k: Seq<char>| #[trigger] m.contains_key(k) implies exists|i: int|
                    0 <= i < table@.len() && (#[trigger] table@[i]).0@ == k by {
                    let i = choose|i: int| 0 <= i < before.len() && (#[trigger] before[i]).0@ == k;
                    assert(table@[i].0@ == k);
                }
                counts_are(table@, m);
            }
        } else {
            table.remove(p);
            proof {
                keeps_tidy_on_remove(before, table@, p as int);
                assert forall|i: int| 0 <= i < table@.len() implies m.contains_key(
                    (#[trigger] table@[i]).0@,
                ) && m[table@[i].0@] == table@[i].1 by {
                    if i < p {
                        assert(table@[i] == before[i]);
                        names_apart(before, i, p as int);
                    } else {
                        assert(table@[i] == before[i + 1]);
                        names_apart(before, i + 1, p as int);
                    }
                }
                assert forall|k: Seq<char>| #[trigger] m.contains_key(k) implies exists|i: int|
                    0 <= i < table@.len() && (#[trigger] table@[i]).0@ == k by {
                    let i = choose|i: int| 0 <= i < before.len() && (#[trigger] before[i]).0@ == k;
                    if i < p {
                        assert(table@[i].0@ == k);
                    } else {
                        assert(table@[i - 1].0@ == k);
                    }
                }
                counts_are(table@, m);
            }
        }
        self.table = table;
    }
}

proof fn names_apart(t: Seq<(String, usize)>, i: int, j: int)
    requires
        tidy(t),
        0 <= i < t.len(),
        0 <= j < t.len(),
        i != j,
    ensures
        t[i].0@ != t[j].0@,
{
    text::before_total(t[i].0@, t[j].0@);
    text::before_total(t[j].0@, t[i].0@);
}

proof fn keeps_tidy_on_update(a: Seq<(String, usize)>, b: Seq<(String, usize)>, p: int)
    requires
        tidy(a),
        a.len() == b.len(),
        0 <= p < a.len(),
        forall|i: int| 0 <= i < a.len() ==> (#[trigger] b[i]).0@ == a[i].0@,
        forall|i: int| 0 <= i < a.len() && i != p ==> (#[trigger] b[i]).1 == a[i].1,
        b[p].1 > 0,
    ensures
        tidy(b),
{
    assert forall|i: int, j: int| 0 <= i < j < b.len() implies text::is_before(
        (#[trigger] b[i]).0@,
        (#[trigger] b[j]).0@,
    ) by {
        assert(text::is_before(a[i].0@, a[j].0@));
    }
    assert forall|i: int| 0 <= i < b.len() implies (#[trigger] b[i]).1 > 0 && b[i].0@.len() > 0 by {
        assert(a[i].1 > 0);
    }
}

proof fn keeps_tidy_on_insert(
    a: Seq<(String, usize)>,
    b: Seq<(String, usize)>,
    p: int,
    id: Seq<char>,
)
    requires
        tidy(a),
        0 <= p <= a.len(),
        b.len() == a.len() + 1,
        b == a.insert(p, b[p]),
        b[p].0@ == id,
        b[p].1 > 0,
        id.len() > 0,
        forall|k: int| 0 <= k < p ==> text::is_before((#[trigger] a[k]).0@, id),
        forall|k: int| p <= k < a.len() ==> !text::is_before((#[trigger] a[k]).0@, id),
        forall|k: int| 0 <= k < a.len() ==> (#[trigger] a[k]).0@ != id,
    ensures
        tidy(b),
{
    assert forall|i: int, j: int| 0 <= i < j < b.len() implies text::is_before(
        (#[trigger] b[i]).0@,
        (#[trigger] b[j]).0@,
    ) by {
        let x = if i < p {
            i
        } else {
            i - 1
        };
        let y = if j < p {
            j
        } else {
            j - 1
        };
        if i == p {
            assert(b[j] == a[y]);
            text::before_total(a[y].0@, id);
        } else if j == p {
            assert(b[i] == a[x]);
        } else {
            assert(b[i] == a[x] && b[j] == a[y]);
        }
    }
    assert forall|i: int| 0 <= i < b.len() implies (#[trigger] b[i]).1 > 0 && b[i].0@.len() > 0 by {
        if i < p {
            assert(b[i] == a[i]);
        } else if i > p {
            assert(b[i] == a[i - 1]);
        }
    }
}

proof fn keeps_tidy_on_remove(a: Seq<(String, usize)>, b: Seq<(String, usize)>, p: int)
    requires
        tidy(a),
        0 <= p < a.len(),
        b == a.remove(p),
    ensures
        tidy(b),
{
    assert forall|i: int, j: int| 0 <= i < j < b.len() implies text::is_before(
        (#[trigger] b[i]).0@,
        (#[trigger] b[j]).0@,
    ) by {
        let x = if i < p {
            i
        } else {
            i + 1
        };
        let y = if j < p {
            j
        } else {
            j + 1
        };
        assert(b[i] == a[x] && b[j] == a[y]);
    }
    assert forall|i: int| 0 <= i < b.len() implies (#[trigger] b[i]).1 > 0 && b[i].0@.len() > 0 by {
        if i < p {
            assert(b[i] == a[i]);
        } else {
            assert(b[i] == a[i + 1]);
        }
    }
}

impl Default for Connections {
    fn default() -> (r: Connections)
        ensures
            r@ == Map::<Seq<char>, nat>::empty(),
    {
        Self::new()
    }
}

// -------------------------------------------------------------------- guards

/// The account that a request is given to; an empty name is none.
pub open spec fn named(id: Option<Seq<char>>) -> Option<Seq<char>> {
    match id {
        Some(s) => if s.len() == 0 {
            None
        } else {
            Some(s)
        },
        None => None,
    }
}

/// The counts without what a guard counts for.
pub open spec fn without(m: Counts, held: Option<Seq<char>>) -> Counts {
    match held {
        Some(id) => one_less(m, id),
        None => m,
    }
}

/// The counts with what a guard counts for.
pub open spec fn with(m: Counts, held: Option<Seq<char>>) -> Counts {
    match held {
        Some(id) => one_more(m, id),
        None => m,
    }
}

/// The counts after a guard has moved to another account.
pub open spec fn moved(m: Counts, held: Option<Seq<char>>, next: Option<Seq<char>>) -> Counts {
    if held == next {
        m
    } else {
        with(without(m, held), next)
    }
}

/// What a request on its way counts for: one account, or none.
pub struct ConnectionGuard {
    account_id: Option<String>,
}

impl View for ConnectionGuard {
    type V = Option<Seq<char>>;

    closed spec fn view(&self) -> Option<Seq<char>> {
        json::opt_string(self.account_id)
    }
}

impl ConnectionGuard {
    #[verifier::type_invariant]
    spec fn inv(self) -> bool {
        self.account_id matches Some(s) ==> s@.len() > 0
    }

    /// A guard that counts for no account.
    pub fn new() -> (r: ConnectionGuard)
        ensures
            r@ is None,
    {
        ConnectionGuard { account_id: None }
    }

    /// Moves the guard to another account, or to none.
    pub fn rebind(&mut self, connections: &mut Connections, account_id: Option<String>)
        ensures
            final(self)@ == named(json::opt_string(account_id)),
            final(connections)@ == moved(
                old(connections)@,
                old(self)@,
                named(json::opt_string(account_id)),
            ),
    {
        let next: Option<String> = match account_id {
            Some(id) => if id.as_str().is_empty() {
                None
            } else {
                Some(id)
            },
            None => None,
        };
        let unchanged = match (&self.account_id, &next) {
            (Some(a), Some(b)) => text::same(a.as_str(), b.as_str()),
            (None, None) => true,
            _ => false,
        };
        if unchanged {
            return;
        }
        if let Some(previous) = &self.account_id {
            connections.sub_one(previous.as_str());
        }
        if let Some(current) = &next {
            connections.add_one(current.as_str());
        }
        self.account_id = next;
    }

    /// Hands what the guard counts for on to another guard.
    pub fn handoff(&mut self) -> (r: ConnectionGuard)
        ensures
            r@ == old(self)@,
            final(self)@ is None,
    {
        proof {
            use_type_invariant(&*self);
        }
        let mut held: Option<String> = None;
        std::mem::swap(&mut held, &mut self.account_id);
        ConnectionGuard { account_id: held }
    }

    /// Ends what the guard counts for.
    pub fn release(self, connections: &mut Connections)
        ensures
            final(connections)@ == without(old(connections)@, self@),
    {
        if let Some(id) = &self.account_id {
            connections.sub_one(id.as_str());
        }
    }
}

/// How many of the guards count for an account.
pub open spec fn holders(guards: Seq<Option<Seq<char>>>, id: Seq<char>) -> nat
    decreases guards.len(),
{
    if guards.len() == 0 {
        0
    } else {
        holders(guards.drop_last(), id) + if guards.last() == Some(id) {
            1nat
        } else {
            0
        }
    }
}

/// Whether the counts are those of the guards: for each account as many as count
/// for it, none for an empty name, and no count of zero in the table.
pub open spec fn balanced(m: Counts, guards: Seq<Option<Seq<char>>>) -> bool {
    &&& forall|id: Seq<char>| #[trigger] count_of(m, id) == holders(guards, id)
    &&& forall|id: Seq<char>| #[trigger] m.contains_key(id) ==> m[id] > 0
    &&& forall|i: int| 0 <= i < guards.len() ==> named(#[trigger] guards[i]) == guards[i]
}

/// Whether a machine word can count the guards of each account.
pub open spec fn countable(guards: Seq<Option<Seq<char>>>) -> bool {
    forall|id: Seq<char>| #[trigger] holders(guards, id) <= usize::MAX
}

proof fn holders_of_update(
    guards: Seq<Option<Seq<char>>>,
    i: int,
    g: Option<Seq<char>>,
    id: Seq<char>,
)
    requires
        0 <= i < guards.len(),
    ensures
        holders(guards.update(i, g), id) + (if guards[i] == Some(id) {
            1int
        } else {
            0
        }) == holders(guards, id) + (if g == Some(id) {
            1int
        } else {
            0
        }),
    decreases guards.len(),
{
    let after = guards.update(i, g);
    if i == guards.len() - 1 {
        assert(after.drop_last() =~= guards.drop_last());
    } else {
        assert(after.drop_last() =~= guards.drop_last().update(i, g));
        holders_of_update(guards.drop_last(), i, g, id);
    }
}

/// A guard that moves keeps the counts those of the guards: the request counts for
/// one account at a time, and for none other. A machine word must be able to count the
/// guards of the account that it moves to.
pub proof fn moving_balances(
    m: Counts,
    guards: Seq<Option<Seq<char>>>,
    i: int,
    next: Option<Seq<char>>,
)
    requires
        balanced(m, guards),
        0 <= i < guards.len(),
        named(next) == next,
        next matches Some(id) ==> holders(guards.update(i, next), id) <= usize::MAX,
    ensures
        balanced(moved(m, guards[i], next), guards.update(i, next)),
{
    let held = guards[i];
    let after = moved(m, held, next);
    let others = guards.update(i, next);
    assert(named(held) == held);
    if held != next {
        let mid = without(m, held);
        let gone = guards.update(i, None);
        assert forall|id: Seq<char>| #[trigger] count_of(mid, id) == holders(gone, id) by {
            holders_of_update(guards, i, None, id);
            assert(count_of(m, id) == holders(guards, id));
        }
        assert forall|id: Seq<char>| #[trigger] mid.contains_key(id) implies mid[id] > 0 by {
            assert(m.contains_key(id));
        }
        assert forall|id: Seq<char>| #[trigger] count_of(after, id) == holders(others, id) by {
            holders_of_update(gone, i, next, id);
            assert(gone.update(i, next) =~= others);
            assert(count_of(mid, id) == holders(gone, id));
            if let Some(n) = next {
                assert(count_of(mid, n) == holders(gone, n));
                holders_of_update(gone, i, next, n);
            }
        }
        assert forall|id: Seq<char>| #[trigger] after.contains_key(id) implies after[id] > 0 by {
            if let Some(n) = next {
                if id != n {
                    assert(mid.contains_key(id));
                }
            } else {
                assert(mid.contains_key(id));
            }
        }
    } else {
        assert(others =~= guards);
    }
}

proof fn holders_of_push(guards: Seq<Option<Seq<char>>>, g: Option<Seq<char>>, id: Seq<char>)
    ensures
        holders(guards.push(g), id) == holders(guards, id) + if g == Some(id) {
            1nat
        } else {
            0
        },
{
    assert(guards.push(g).drop_last() =~= guards);
}

/// A new guard, and a guard that is handed on, keep the counts those of the guards.
pub proof fn handing_on_balances(m: Counts, guards: Seq<Option<Seq<char>>>, i: int)
    requires
        balanced(m, guards),
        0 <= i < guards.len(),
    ensures
        balanced(m, guards.push(None)),
        balanced(m, guards.update(i, None).push(guards[i])),
{
    let fresh = guards.push(None);
    assert forall|id: Seq<char>| #[trigger] count_of(m, id) == holders(fresh, id) by {
        holders_of_push(guards, None, id);
        assert(count_of(m, id) == holders(guards, id));
    }
    let handed = guards.update(i, None).push(guards[i]);
    assert forall|id: Seq<char>| #[trigger] count_of(m, id) == holders(handed, id) by {
        holders_of_push(guards.update(i, None), guards[i], id);
        holders_of_update(guards, i, None, id);
        assert(count_of(m, id) == holders(guards, id));
    }
    assert(named(guards[i]) == guards[i]);
}

/// What happens to the guards of requests.
pub enum GuardStep {
    /// A guard is made.
    Begin,
    /// The guard at a place moves to an account, or to none.
    Rebind(int, Option<Seq<char>>),
    /// What the guard at a place counts for is handed on to a new guard.
    Handoff(int),
    /// The guard at a place ends.
    End(int),
}

/// The counts and the guards after a step; a guard that is not there does nothing.
pub open spec fn guards_after(
    x: (Counts, Seq<Option<Seq<char>>>),
    step: GuardStep,
) -> (Counts, Seq<Option<Seq<char>>>) {
    let (m, guards) = x;
    match step {
        GuardStep::Begin => (m, guards.push(None)),
        GuardStep::Rebind(i, id) => if 0 <= i < guards.len() {
            (moved(m, guards[i], named(id)), guards.update(i, named(id)))
        } else {
            x
        },
        GuardStep::Handoff(i) => if 0 <= i < guards.len() {
            (m, guards.update(i, None).push(guards[i]))
        } else {
            x
        },
        GuardStep::End(i) => if 0 <= i < guards.len() {
            (without(m, guards[i]), guards.remove(i))
        } else {
            x
        },
    }
}

/// The counts and the guards after the first `n` steps, from no requests on.
pub open spec fn guards_run(steps: Seq<GuardStep>, n: nat) -> (Counts, Seq<Option<Seq<char>>>)
    decreases n,
{
    if n == 0 {
        (Map::empty(), Seq::empty())
    } else {
        guards_after(guards_run(steps, (n - 1) as nat), steps[n - 1])
    }
}

proof fn holders_of_remove(guards: Seq<Option<Seq<char>>>, i: int, id: Seq<char>)
    requires
        0 <= i < guards.len(),
    ensures
        holders(guards.remove(i), id) + (if guards[i] == Some(id) {
            1int
        } else {
            0
        }) == holders(guards, id),
    decreases guards.len(),
{
    if i == guards.len() - 1 {
        assert(guards.remove(i) =~= guards.drop_last());
    } else {
        assert(guards.remove(i).drop_last() =~= guards.drop_last().remove(i));
        assert(guards.remove(i).last() == guards.last());
        holders_of_remove(guards.drop_last(), i, id);
    }
}

/// A guard that ends keeps the counts those of the guards that are left.
pub proof fn ending_balances(m: Counts, guards: Seq<Option<Seq<char>>>, i: int)
    requires
        balanced(m, guards),
        0 <= i < guards.len(),
    ensures
        balanced(without(m, guards[i]), guards.remove(i)),
{
    let left = guards.remove(i);
    let after = without(m, guards[i]);
    assert(named(guards[i]) == guards[i]);
    assert forall|id: Seq<char>| #[trigger] count_of(after, id) == holders(left, id) by {
        holders_of_remove(guards, i, id);
        assert(count_of(m, id) == holders(guards, id));
    }
    assert forall|id: Seq<char>| #[trigger] after.contains_key(id) implies after[id] > 0 by {
        assert(m.contains_key(id));
    }
    assert forall|k: int| 0 <= k < left.len() implies named(#[trigger] left[k]) == left[k] by {
        if k < i {
            assert(left[k] == guards[k]);
        } else {
            assert(left[k] == guards[k + 1]);
        }
    }
}

proof fn run_balances(steps: Seq<GuardStep>, n: nat)
    requires
        forall|k: nat| k <= n ==> countable(#[trigger] guards_run(steps, k).1),
    ensures
        balanced(guards_run(steps, n).0, guards_run(steps, n).1),
    decreases n,
{
    if n > 0 {
        run_balances(steps, (n - 1) as nat);
        let (m, guards) = guards_run(steps, (n - 1) as nat);
        match steps[n - 1] {
            GuardStep::Begin => {
                let fresh = guards.push(None);
                assert forall|id: Seq<char>| #[trigger] count_of(m, id) == holders(fresh, id) by {
                    holders_of_push(guards, None, id);
                    assert(count_of(m, id) == holders(guards, id));
                }
            },
            GuardStep::Rebind(i, id) => {
                if 0 <= i < guards.len() {
                    assert(countable(guards_run(steps, n).1));
                    moving_balances(m, guards, i, named(id));
                }
            },
            GuardStep::Handoff(i) => {
                if 0 <= i < guards.len() {
                    handing_on_balances(m, guards, i);
                }
            },
            GuardStep::End(i) => {
                if 0 <= i < guards.len() {
                    ending_balances(m, guards, i);
                }
            },
        }
    }
}

/// Whatever guards are made, moved, handed on and ended, how many times and in whatever
/// order: the accounts in the table are those that a guard counts for, each with as many
/// requests as guards count for it, and none has an empty name. This holds as long as the
/// guards of each account that are there at one time can be counted by a machine word.
pub proof fn counts_are_the_live_guards(steps: Seq<GuardStep>)
    requires
        forall|k: nat| k <= steps.len() ==> countable(#[trigger] guards_run(steps, k).1),
    ensures
        ({
            let (m, guards) = guards_run(steps, steps.len());
            &&& forall|id: Seq<char>| #[trigger] m.contains_key(id) <==> holders(guards, id) > 0
            &&& forall|id: Seq<char>| #[trigger] m.contains_key(id) ==> m[id] == holders(guards, id)
            &&& !m.contains_key(Seq::empty())
        }),
{
    run_balances(steps, steps.len());
    let (m, guards) = guards_run(steps, steps.len());
    assert forall|id: Seq<char>| #[trigger] m.contains_key(id) <==> holders(guards, id) > 0 by {
        assert(count_of(m, id) == holders(guards, id));
    }
    assert forall|id: Seq<char>| #[trigger] m.contains_key(id) implies m[id] == holders(
        guards,
        id,
    ) by {
        assert(count_of(m, id) == holders(guards, id));
    }
    no_holder_without_a_name(guards);
    assert(count_of(m, Seq::empty()) == holders(guards, Seq::empty()));
}

proof fn no_holder_without_a_name(guards: Seq<Option<Seq<char>>>)
    requires
        forall|i: int| 0 <= i < guards.len() ==> named(#[trigger] guards[i]) == guards[i],
    ensures
        holders(guards, Seq::empty()) == 0,
    decreases guards.len(),
{
    if guards.len() > 0 {
        let s = guards.drop_last();
        assert forall|i: int| 0 <= i < s.len() implies named(#[trigger] s[i]) == s[i] by {
            assert(s[i] == guards[i]);
        }
        no_holder_without_a_name(s);
        assert(named(guards[guards.len() - 1]) == guards[guards.len() - 1]);
    }
}

} // verus!
