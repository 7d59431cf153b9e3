//! Requests that are on their way, so that the same request is not sent twice at
//! once.
//!
//! Each request that begins takes the slot of its key. A later one with the same
//! key waits for the one before it, for a while, and then takes the slot over. A
//! slot is given back only by the request that holds it.

use crate::upstream::text_map::TextMap;
use vstd::prelude::*;
use vstd::string::*;

verus! {

/// How long a request waits for the same one before it, in milliseconds.
pub const INFLIGHT_WAIT_MS: u64 = 45000;

/// The slots: who holds which key.
pub struct InFlightTable {
    slots: TextMap<u64>,
}

impl View for InFlightTable {
    type V = Map<Seq<char>, u64>;

    closed spec fn view(&self) -> Map<Seq<char>, u64> {
        self.slots@
    }
}

/// The slots after a request has given its own back; one that was taken over stays.
pub open spec fn given_back(m: Map<Seq<char>, u64>, key: Seq<char>, holder: u64) -> Map<
    Seq<char>,
    u64,
> {
    if m.contains_key(key) && m[key] == holder {
        m.remove(key)
    } else {
        m
    }
}

impl InFlightTable {
    /// No requests.
    pub fn new() -> (r: InFlightTable)
        ensures
            r@ == Map::<Seq<char>, u64>::empty(),
    {
        InFlightTable { slots: TextMap::new() }
    }

    /// The request that a new one with this key waits for; an empty key waits for
    /// none.
    pub fn waits_for(&self, key: &str) -> (r: Option<u64>)
        ensures
            r == (if key@.len() > 0 && self@.contains_key(key@) {
                Some(self@[key@])
            } else {
                None
            }),
    {
        if key.is_empty() {
            return None;
        }
        match self.slots.get(key) {
            Some(holder) => Some(*holder),
            None => None,
        }
    }

    /// Takes the slot of a key; an empty key has none. The result says whether a
    /// slot was taken.
    pub fn begin_slot(&mut self, key: &str, holder: u64) -> (r: bool)
        ensures
            r == (key@.len() > 0),
            final(self)@ == (if r {
                old(self)@.insert(key@, holder)
            } else {
                old(self)@
            }),
    {
        if key.is_empty() {
            return false;
        }
        self.slots.insert(key, holder);
        true
    }

    /// Gives the slot of a key back.
    pub fn end_slot(&mut self, key: &str, holder: u64)
        ensures
            final(self)@ == given_back(old(self)@, key@, holder),
    {
        let mine = match self.slots.get(key) {
            Some(current) => *current == holder,
            None => false,
        };
        if mine {
            self.slots.remove(key);
        }
    }
}

/// A request that gives back a slot that another one has taken over changes
/// nothing, and the other still holds it.
pub proof fn later_holder_stays(m: Map<Seq<char>, u64>, key: Seq<char>, first: u64, second: u64)
    requires
        first != second,
    ensures
        given_back(m.insert(key, first).insert(key, second), key, first) == m.insert(
            key,
            first,
        ).insert(key, second),
{
}

/// A slot that is taken and given back leaves the other slots as they were.
pub proof fn own_slot_goes(m: Map<Seq<char>, u64>, key: Seq<char>, holder: u64)
    requires
        !m.contains_key(key),
    ensures
        given_back(m.insert(key, holder), key, holder) == m,
{
    assert(m.insert(key, holder).remove(key) =~= m);
}

} // verus!
