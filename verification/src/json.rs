//! JSON values.
//!
//! A [`Json`] is a tree that the rules of this crate can read. Its meaning is a
//! [`Jv`]: texts are sequences of characters and an object is a map from names
//! to values, so neither the order of the members nor a member that a later one
//! of the same name has replaced counts.

use bytes::Buf;
use crate::text;
use vstd::prelude::*;
use vstd::string::*;

verus! {

/// A JSON tree as `serde_json` holds it.
#[verifier::external_type_specification]
#[verifier::external_body]
pub struct ExValue(serde_json::Value);

/// A JSON value. An integer is an `Int`, or a `Big` where it is above the range
/// of an `i64`; any other number is a `Float`, held as the bits of its IEEE 754
/// double.
pub enum Json {
    Null,
    Bool(bool),
    Int(i64),
    Big(u64),
    Float(u64),
    Str(String),
    Arr(Vec<Json>),
    Obj(Vec<(String, Json)>),
}

/// What a JSON value means.
#[verifier::ext_equal]
pub enum Jv {
    Null,
    Bool(bool),
    Int(int),
    Float(u64),
    Str(Seq<char>),
    Arr(Seq<Jv>),
    Obj(Map<Seq<char>, Jv>),
}

impl View for Json {
    type V = Jv;

    open spec fn view(&self) -> Jv {
        model(*self)
    }
}

/// The meaning of a value. The bits of an infinity or of no number mean `null`.
pub open spec fn model(j: Json) -> Jv
    decreases j,
{
    match j {
        Json::Null => Jv::Null,
        Json::Bool(b) => Jv::Bool(b),
        Json::Int(n) => Jv::Int(n as int),
        Json::Big(n) => Jv::Int(n as int),
        Json::Float(bits) => float_model(bits),
        Json::Str(s) => Jv::Str(s@),
        Json::Arr(v) => Jv::Arr(
            Seq::new(
                v@.len(),
                |i: int|
                    if 0 <= i < v@.len() {
                        model(v@[i])
                    } else {
                        Jv::Null
                    },
            ),
        ),
        Json::Obj(v) => Jv::Obj(members(v@)),
    }
}

/// The meaning of a list of members: the last one of a name counts.
pub open spec fn members(s: Seq<(String, Json)>) -> Map<Seq<char>, Jv>
    decreases s,
{
    if s.len() == 0 {
        Map::empty()
    } else {
        members(s.drop_last()).insert(s.last().0@, model(s.last().1))
    }
}

/// The meanings of a list of values.
pub open spec fn models(s: Seq<Json>) -> Seq<Jv> {
    Seq::new(s.len(), |i: int| model(s[i]))
}

/// The meaning of a value that may be missing.
pub open spec fn opt_model(j: Option<&Json>) -> Option<Jv> {
    match j {
        Some(v) => Some(v@),
        None => None,
    }
}

/// The characters of a text that may be missing.
pub open spec fn opt_text(s: Option<&str>) -> Option<Seq<char>> {
    match s {
        Some(v) => Some(v@),
        None => None,
    }
}

/// The characters of an owned text that may be missing.
pub open spec fn opt_string(s: Option<String>) -> Option<Seq<char>> {
    match s {
        Some(v) => Some(v@),
        None => None,
    }
}

/// Whether the bits stand for a finite double: the eleven bits of the exponent
/// are not all set.
pub open spec fn finite_bits(bits: u64) -> bool {
    (bits as int / 0x10_0000_0000_0000) % 2048 != 2047
}

/// The meaning of the bits of a double.
pub open spec fn float_model(bits: u64) -> Jv {
    if finite_bits(bits) {
        Jv::Float(bits)
    } else {
        Jv::Null
    }
}

/// `m` times two to the power `shift`, rounded towards zero.
pub open spec fn scaled(m: int, shift: int) -> int
    decreases (if shift < 0 { -shift } else { shift }),
{
    if shift == 0 {
        m
    } else if shift > 0 {
        scaled(2 * m, shift - 1)
    } else {
        scaled(m / 2, shift + 1)
    }
}

/// The double behind the bits as an `i64`: the fraction is cut off, and what is
/// outside the range goes to its nearer end.
pub open spec fn float_trunc(bits: u64) -> int {
    let negative = bits as int >= 0x8000_0000_0000_0000;
    let exponent = (bits as int / 0x10_0000_0000_0000) % 2048;
    let fraction = bits as int % 0x10_0000_0000_0000;
    if exponent <= 1022 {
        0
    } else if exponent >= 1086 {
        if negative {
            i64::MIN as int
        } else {
            i64::MAX as int
        }
    } else {
        let size = scaled(0x10_0000_0000_0000 + fraction, exponent - 1075);
        if negative {
            -size
        } else {
            size
        }
    }
}

/// Whether the double behind the bits is zero (of either sign).
pub open spec fn float_zero(bits: u64) -> bool {
    bits == 0 || bits == 0x8000_0000_0000_0000
}

impl Jv {
    /// An object without members.
    pub open spec fn obj() -> Jv {
        Jv::Obj(Map::empty())
    }

    /// The member of that name of an object.
    pub open spec fn get(self, key: Seq<char>) -> Option<Jv> {
        match self {
            Jv::Obj(m) => if m.dom().contains(key) {
                Some(m[key])
            } else {
                None
            },
            _ => None,
        }
    }

    /// The member of that name, or `null` where there is none.
    pub open spec fn field(self, key: Seq<char>) -> Jv {
        match self.get(key) {
            Some(v) => v,
            None => Jv::Null,
        }
    }

    /// An object with the member set; anything else as it is.
    pub open spec fn put(self, key: Seq<char>, value: Jv) -> Jv {
        match self {
            Jv::Obj(m) => Jv::Obj(m.insert(key, value)),
            _ => self,
        }
    }

    /// An object with the member set where there is a value for it.
    pub open spec fn put_some(self, key: Seq<char>, value: Option<Jv>) -> Jv {
        match value {
            Some(v) => self.put(key, v),
            None => self,
        }
    }

    /// The item at that place of an array.
    pub open spec fn at(self, i: int) -> Option<Jv> {
        match self {
            Jv::Arr(s) => if 0 <= i < s.len() {
                Some(s[i])
            } else {
                None
            },
            _ => None,
        }
    }

    /// What the pointer segment `0` leads to: the first item of an array, or
    /// the member `0` of an object.
    pub open spec fn first(self) -> Option<Jv> {
        match self {
            Jv::Arr(s) => if s.len() > 0 {
                Some(s[0])
            } else {
                None
            },
            _ => self.get("0"@),
        }
    }

    /// The text, of a text.
    pub open spec fn as_str(self) -> Option<Seq<char>> {
        match self {
            Jv::Str(s) => Some(s),
            _ => None,
        }
    }

    /// The truth value, of a truth value.
    pub open spec fn as_bool(self) -> Option<bool> {
        match self {
            Jv::Bool(b) => Some(b),
            _ => None,
        }
    }

    /// The integer, of an integer in the range of an `i64`.
    pub open spec fn as_i64(self) -> Option<int> {
        match self {
            Jv::Int(n) => if i64::MIN <= n <= i64::MAX {
                Some(n)
            } else {
                None
            },
            _ => None,
        }
    }

    /// The items, of an array.
    pub open spec fn as_arr(self) -> Option<Seq<Jv>> {
        match self {
            Jv::Arr(s) => Some(s),
            _ => None,
        }
    }

    /// The items of an array; nothing of anything else.
    pub open spec fn items(self) -> Seq<Jv> {
        match self {
            Jv::Arr(s) => s,
            _ => Seq::empty(),
        }
    }

    /// Whether the value counts as true where a language like JavaScript asks.
    pub open spec fn truthy(self) -> bool {
        match self {
            Jv::Null => false,
            Jv::Bool(b) => b,
            Jv::Int(n) => n != 0,
            Jv::Float(bits) => !float_zero(bits),
            Jv::Str(s) => s.len() > 0,
            Jv::Arr(_) => true,
            Jv::Obj(_) => true,
        }
    }
}

/// A member looked up in a value that may itself be missing.
pub open spec fn opt_get(j: Option<Jv>, key: Seq<char>) -> Option<Jv> {
    match j {
        Some(v) => v.get(key),
        None => None,
    }
}

/// The text of a value that may be missing.
pub open spec fn opt_str(j: Option<Jv>) -> Option<Seq<char>> {
    match j {
        Some(v) => v.as_str(),
        None => None,
    }
}

/// The text of a value that may be missing, or nothing.
pub open spec fn str_or_empty(j: Option<Jv>) -> Seq<char> {
    match j {
        Some(Jv::Str(s)) => s,
        _ => Seq::empty(),
    }
}

/// The integer of a value that may be missing, or zero.
pub open spec fn int_or_zero(j: Option<Jv>) -> int {
    match j {
        Some(v) => match v.as_i64() {
            Some(n) => n,
            None => 0,
        },
        None => 0,
    }
}

/// A value that may be missing, kept where it is not `null`.
pub open spec fn if_not_null(j: Option<Jv>) -> Option<Jv> {
    match j {
        Some(v) => if v is Null {
            None
        } else {
            Some(v)
        },
        None => None,
    }
}

/// The meaning of a value or an error text.
pub open spec fn outcome(r: Result<Json, String>) -> Result<Jv, Seq<char>> {
    match r {
        Ok(j) => Ok(j@),
        Err(e) => Err(e@),
    }
}

/// A value that may be missing, kept where it counts as true.
pub open spec fn if_truthy(j: Option<Jv>) -> Option<Jv> {
    match j {
        Some(v) => if v.truthy() {
            Some(v)
        } else {
            None
        },
        None => None,
    }
}

/// The meanings of a longer list.
pub broadcast proof fn models_push(s: Seq<Json>, j: Json)
    ensures
        #[trigger] models(s.push(j)) == models(s).push(model(j)),
{
    assert(models(s.push(j)) =~= models(s).push(model(j)));
}

/// The meaning of an array is the array of the meanings.
pub broadcast proof fn model_arr(v: Vec<Json>)
    ensures
        #[trigger] model(Json::Arr(v)) == Jv::Arr(models(v@)),
{
    assert(model(Json::Arr(v))->Arr_0 =~= models(v@));
}

/// Nothing means nothing.
pub broadcast proof fn models_empty()
    ensures
        #[trigger] models(Seq::empty()) == Seq::<Jv>::empty(),
{
    assert(models(Seq::empty()) =~= Seq::<Jv>::empty());
}

/// The facts about lists of values that hold without further ado.
pub broadcast group group_json {
    models_push,
    model_arr,
    models_empty,
}

/// A member list after one more member.
pub proof fn members_push(s: Seq<(String, Json)>, e: (String, Json))
    ensures
        members(s.push(e)) == members(s).insert(e.0@, model(e.1)),
{
    assert(s.push(e).drop_last() =~= s);
}

/// A member that is about to be set anyway can be taken out first.
proof fn members_remove(s: Seq<(String, Json)>, i: int, v: Jv)
    requires
        0 <= i < s.len(),
    ensures
        members(s.remove(i)).insert(s[i].0@, v) == members(s).insert(s[i].0@, v),
    decreases s.len(),
{
    let k = s[i].0@;
    if i == s.len() - 1 {
        assert(s.remove(i) =~= s.drop_last());
        assert(members(s.drop_last()).insert(k, v) =~= members(s).insert(k, v));
    } else {
        members_remove(s.drop_last(), i, v);
        assert(s.remove(i).drop_last() =~= s.drop_last().remove(i));
        assert(s.remove(i).last() == s.last());
        let l = s.last();
        let a = members(s.drop_last().remove(i));
        let b = members(s.drop_last());
        assert(a.insert(k, v) == b.insert(k, v));
        if l.0@ == k {
            assert(a.insert(k, model(l.1)).insert(k, v) =~= a.insert(k, v));
            assert(b.insert(k, model(l.1)).insert(k, v) =~= b.insert(k, v));
        } else {
            assert(a.insert(l.0@, model(l.1)).insert(k, v) =~= a.insert(k, v).insert(
                l.0@,
                model(l.1),
            ));
            assert(b.insert(l.0@, model(l.1)).insert(k, v) =~= b.insert(k, v).insert(
                l.0@,
                model(l.1),
            ));
        }
    }
}

/// Finds the member that counts among those in front of place `n`.
spec fn last_place(s: Seq<(String, Json)>, key: Seq<char>, n: int) -> int
    decreases n,
{
    if n <= 0 {
        -1
    } else if s[n - 1].0@ == key {
        n - 1
    } else {
        last_place(s, key, n - 1)
    }
}

proof fn last_place_counts(s: Seq<(String, Json)>, key: Seq<char>)
    ensures
        -1 <= last_place(s, key, s.len() as int) < s.len(),
        last_place(s, key, s.len() as int) >= 0 ==> members(s).dom().contains(key)
            && members(s)[key] == model(s[last_place(s, key, s.len() as int)].1),
        last_place(s, key, s.len() as int) < 0 ==> !members(s).dom().contains(key),
    decreases s.len(),
{
    if s.len() > 0 {
        let t = s.drop_last();
        last_place_counts(t, key);
        last_place_prefix(s, key, s.len() - 1);
    }
}

proof fn last_place_prefix(s: Seq<(String, Json)>, key: Seq<char>, n: int)
    requires
        0 <= n < s.len(),
    ensures
        last_place(s, key, n) == last_place(s.drop_last(), key, n),
    decreases n,
{
    if n > 0 {
        last_place_prefix(s, key, n - 1);
    }
}

impl Json {
    /// An object without members.
    pub fn obj() -> (r: Json)
        ensures
            r@ == Jv::obj(),
    {
        let none: Vec<(String, Json)> = Vec::new();
        proof {
            assert(members(none@) =~= Map::empty());
        }
        Json::Obj(none)
    }

    /// A text.
    pub fn str(s: &str) -> (r: Json)
        ensures
            r@ == Jv::Str(s@),
    {
        Json::Str(s.to_owned())
    }

    /// The member of that name of an object.
    pub fn get(&self, key: &str) -> (r: Option<&Json>)
        ensures
            opt_model(r) == self@.get(key@),
    {
        match self {
            Json::Obj(v) => {
                let mut i: usize = v.len();
                proof {
                    last_place_counts(v@, key@);
                }
                while i > 0
                    invariant
                        i <= v@.len(),
                        *self == Json::Obj(*v),
                        last_place(v@, key@, v@.len() as int) == last_place(v@, key@, i as int),
                        -1 <= last_place(v@, key@, v@.len() as int) < v@.len(),
                        last_place(v@, key@, v@.len() as int) >= 0 ==> members(v@).dom().contains(
                            key@,
                        ) && members(v@)[key@] == model(
                            v@[last_place(v@, key@, v@.len() as int)].1,
                        ),
                    decreases i,
                {
                    if text::same(v[i - 1].0.as_str(), key) {
                        return Some(&v[i - 1].1);
                    }
                    i = i - 1;
                }
                None
            },
            _ => None,
        }
    }

    /// Sets a member of an object; anything else stays as it is.
    pub fn put(&mut self, key: &str, value: Json)
        ensures
            final(self)@ == old(self)@.put(key@, value@),
    {
        match self {
            Json::Obj(v) => {
                let ghost before = v@;
                let mut i: usize = 0;
                while i < v.len() && !text::same(v[i].0.as_str(), key)
                    invariant
                        i <= v@.len(),
                        v@ == before,
                    decreases v@.len() - i,
                {
                    i = i + 1;
                }
                if i < v.len() {
                    proof {
                        members_remove(before, i as int, value@);
                    }
                    let _ = v.remove(i);
                }
                let name = key.to_owned();
                proof {
                    members_push(v@, (name, value));
                }
                v.push((name, value));
            },
            _ => {},
        }
    }

    /// The object with one more member set.
    pub fn with(self, key: &str, value: Json) -> (r: Json)
        ensures
            r@ == self@.put(key@, value@),
    {
        let mut out = self;
        out.put(key, value);
        out
    }

    /// Sets a member to a copy of a value, where there is one.
    pub fn put_some(&mut self, key: &str, value: Option<&Json>)
        ensures
            final(self)@ == old(self)@.put_some(key@, opt_model(value)),
    {
        match value {
            Some(v) => self.put(key, v.copy()),
            None => {},
        }
    }

    /// The item at that place of an array.
    pub fn at(&self, i: usize) -> (r: Option<&Json>)
        ensures
            opt_model(r) == self@.at(i as int),
    {
        match self {
            Json::Arr(v) => if i < v.len() {
                Some(&v[i])
            } else {
                None
            },
            _ => None,
        }
    }

    /// What the pointer segment `0` leads to.
    pub fn first(&self) -> (r: Option<&Json>)
        ensures
            opt_model(r) == self@.first(),
    {
        match self {
            Json::Arr(v) => if v.len() > 0 {
                Some(&v[0])
            } else {
                None
            },
            _ => self.get("0"),
        }
    }

    /// The text, of a text.
    pub fn as_str(&self) -> (r: Option<&str>)
        ensures
            opt_text(r) == self@.as_str(),
    {
        match self {
            Json::Str(s) => Some(s.as_str()),
            _ => None,
        }
    }

    /// The truth value, of a truth value.
    pub fn as_bool(&self) -> (r: Option<bool>)
        ensures
            r == self@.as_bool(),
    {
        match self {
            Json::Bool(b) => Some(*b),
            _ => None,
        }
    }

    /// The integer, of an integer in the range of an `i64`.
    pub fn as_i64(&self) -> (r: Option<i64>)
        ensures
            match r {
                Some(n) => self@.as_i64() == Some(n as int),
                None => self@.as_i64() is None,
            },
    {
        match self {
            Json::Int(n) => Some(*n),
            Json::Big(n) => if *n <= i64::MAX as u64 {
                Some(*n as i64)
            } else {
                None
            },
            _ => None,
        }
    }

    /// The items, of an array.
    pub fn as_arr(&self) -> (r: Option<&Vec<Json>>)
        ensures
            match r {
                Some(v) => self@ == Jv::Arr(models(v@)),
                None => self@ !is Arr,
            },
    {
        broadcast use group_json;

        match self {
            Json::Arr(v) => Some(v),
            _ => None,
        }
    }

    /// Whether it is an object.
    pub fn is_obj(&self) -> (r: bool)
        ensures
            r == (self@ is Obj),
    {
        match self {
            Json::Obj(_) => true,
            _ => false,
        }
    }

    /// Whether the value is an object with members.
    pub fn has_members(&self) -> (r: bool)
        ensures
            r == (self@ matches Jv::Obj(m) && m != Map::<Seq<char>, Jv>::empty()),
    {
        match self {
            Json::Obj(v) => {
                proof {
                    assert(self@ == Jv::Obj(members(v@)));
                    if v@.len() > 0 {
                        assert(members(v@).dom().contains(v@.last().0@));
                    }
                }
                v.len() > 0
            },
            _ => false,
        }
    }

    /// Whether it is `null`.
    pub fn is_null(&self) -> (r: bool)
        ensures
            r == (self@ is Null),
    {
        match self {
            Json::Null => true,
            Json::Float(bits) => !is_finite(*bits),
            _ => false,
        }
    }

    /// Whether the value counts as true.
    pub fn truthy(&self) -> (r: bool)
        ensures
            r == self@.truthy(),
    {
        match self {
            Json::Null => false,
            Json::Bool(b) => *b,
            Json::Int(n) => *n != 0,
            Json::Big(n) => *n != 0,
            Json::Float(bits) => is_finite(*bits) && *bits != 0 && *bits != 0x8000_0000_0000_0000,
            Json::Str(s) => !s.as_str().is_empty(),
            Json::Arr(_) => true,
            Json::Obj(_) => true,
        }
    }

    /// The same value once more.
    pub fn copy(&self) -> (r: Json)
        ensures
            r@ == self@,
        decreases self,
    {
        broadcast use group_json;

        match self {
            Json::Null => Json::Null,
            Json::Bool(b) => Json::Bool(*b),
            Json::Int(n) => Json::Int(*n),
            Json::Big(n) => Json::Big(*n),
            Json::Float(bits) => Json::Float(*bits),
            Json::Str(s) => Json::Str(s.clone()),
            Json::Arr(v) => {
                let mut out: Vec<Json> = Vec::new();
                let mut i: usize = 0;
                while i < v.len()
                    invariant
                        i <= v@.len(),
                        *self == Json::Arr(*v),
                        models(out@) == models(v@).take(i as int),
                    decreases v@.len() - i,
                {
                    proof {
                        assert(decreases_to!(self => self->Arr_0));
                        assert(decreases_to!(v => v@[i as int]));
                    }
                    let item = v[i].copy();
                    out.push(item);
                    proof {
                        assert(models(v@).take(i as int + 1) =~= models(v@).take(i as int).push(
                            model(v@[i as int]),
                        ));
                    }
                    i = i + 1;
                }
                proof {
                    assert(models(v@).take(v@.len() as int) =~= models(v@));
                }
                Json::Arr(out)
            },
            Json::Obj(v) => {
                let mut out: Vec<(String, Json)> = Vec::new();
                let mut i: usize = 0;
                while i < v.len()
                    invariant
                        i <= v@.len(),
                        *self == Json::Obj(*v),
                        members(out@) == members(v@.take(i as int)),
                    decreases v@.len() - i,
                {
                    proof {
                        assert(decreases_to!(self => self->Obj_0));
                        assert(decreases_to!(v => v@[i as int]));
                    }
                    let item = v[i].1.copy();
                    let name = v[i].0.clone();
                    proof {
                        members_push(out@, (name, item));
                        assert(v@.take(i as int + 1).drop_last() =~= v@.take(i as int));
                    }
                    out.push((name, item));
                    i = i + 1;
                }
                proof {
                    assert(v@.take(v@.len() as int) =~= v@);
                }
                Json::Obj(out)
            },
        }
    }
}

/// Whether the bits stand for a finite double.
pub fn is_finite(bits: u64) -> (r: bool)
    ensures
        r == finite_bits(bits),
{
    (bits / 0x10_0000_0000_0000) % 2048 != 2047
}

spec fn cap(k: int) -> int
    decreases k,
{
    if k <= 0 {
        0x8000_0000_0000_0000
    } else {
        cap(k - 1) / 2
    }
}

proof fn scaled_range(m: int, shift: int)
    requires
        0 <= m < cap(shift),
    ensures
        0 <= scaled(m, shift) < 0x8000_0000_0000_0000,
    decreases (if shift < 0 { -shift } else { shift }),
{
    if shift > 0 {
        scaled_range(2 * m, shift - 1);
    } else if shift < 0 {
        scaled_range(m / 2, shift + 1);
    }
}

/// What a double comes to as an `i64` is in the range of one.
pub proof fn float_trunc_range(bits: u64)
    ensures
        i64::MIN <= float_trunc(bits) <= i64::MAX,
{
    let exponent = (bits as int / 0x10_0000_0000_0000) % 2048;
    let fraction = bits as int % 0x10_0000_0000_0000;
    if 1022 < exponent < 1086 {
        let shift = exponent - 1075;
        assert(cap(shift) >= 0x20_0000_0000_0000) by {
            reveal_with_fuel(cap, 11);
            assert(shift <= 0 || shift == 1 || shift == 2 || shift == 3 || shift == 4 || shift == 5
                || shift == 6 || shift == 7 || shift == 8 || shift == 9 || shift == 10);
        }
        scaled_range(0x10_0000_0000_0000 + fraction, shift);
    }
}

/// The double behind the bits as an `i64`.
pub fn trunc_bits(bits: u64) -> (r: i64)
    ensures
        r == float_trunc(bits),
{
    let negative: bool = bits >= 0x8000_0000_0000_0000;
    let exponent: u64 = (bits / 0x10_0000_0000_0000) % 2048;
    let fraction: u64 = bits % 0x10_0000_0000_0000;
    if exponent <= 1022 {
        return 0;
    }
    if exponent >= 1086 {
        return if negative {
            i64::MIN
        } else {
            i64::MAX
        };
    }
    let mut size: u64 = 0x10_0000_0000_0000 + fraction;
    let mut shift: u64 = exponent;
    let ghost whole = 0x10_0000_0000_0000 + fraction as int;
    if shift > 1075 {
        let ghost mut bound: int = 0x20_0000_0000_0000;
        proof {
            reveal_with_fuel(scaled, 2);
        }
        while shift > 1075
            invariant
                1075 <= shift <= 1085,
                size < bound,
                shift <= 1085 && bound == doubled(0x20_0000_0000_0000, exponent - shift),
                1075 < exponent <= 1085,
                shift <= exponent,
                scaled(whole, exponent - 1075) == scaled(size as int, shift - 1075),
            decreases shift,
        {
            proof {
                doubled_bound(exponent - shift);
                doubled_bound(exponent - shift + 1);
                bound = 2 * bound;
            }
            size = 2 * size;
            shift = shift - 1;
        }
        proof {
            doubled_bound(exponent - 1075);
        }
    } else {
        while shift < 1075
            invariant
                1022 < exponent <= shift <= 1075,
                size < 0x20_0000_0000_0000,
                scaled(whole, exponent - 1075) == scaled(size as int, shift - 1075),
            decreases 1075 - shift,
        {
            size = size / 2;
            shift = shift + 1;
        }
    }
    if negative {
        -(size as i64)
    } else {
        size as i64
    }
}

spec fn doubled(m: int, k: int) -> int
    decreases k,
{
    if k <= 0 {
        m
    } else {
        2 * doubled(m, k - 1)
    }
}

proof fn doubled_bound(k: int)
    requires
        0 <= k <= 10,
    ensures
        doubled(0x20_0000_0000_0000, k) <= 0x8000_0000_0000_0000,
{
    reveal_with_fuel(doubled, 11);
}

/// The text of a value that may be missing, or nothing.
pub fn str_or(j: Option<&Json>) -> (r: String)
    ensures
        r@ == str_or_empty(opt_model(j)),
{
    match j {
        Some(Json::Str(s)) => s.clone(),
        _ => String::new(),
    }
}

/// The integer of a value that may be missing, or zero.
pub fn int_or(j: Option<&Json>) -> (r: i64)
    ensures
        r == int_or_zero(opt_model(j)),
{
    match j {
        Some(v) => match v.as_i64() {
            Some(n) => n,
            None => 0,
        },
        None => 0,
    }
}

/// A member looked up in a value that may itself be missing.
pub fn get_in<'a>(j: Option<&'a Json>, key: &str) -> (r: Option<&'a Json>)
    ensures
        opt_model(r) == opt_get(opt_model(j), key@),
{
    match j {
        Some(v) => v.get(key),
        None => None,
    }
}

/// A value that may be missing, kept where it counts as true.
pub fn truthy_in<'a>(j: Option<&'a Json>) -> (r: Option<&'a Json>)
    ensures
        opt_model(r) == if_truthy(opt_model(j)),
{
    match j {
        Some(v) => if v.truthy() {
            Some(v)
        } else {
            None
        },
        None => None,
    }
}

/// A value that may be missing, kept where it is not `null`.
pub fn not_null_in<'a>(j: Option<&'a Json>) -> (r: Option<&'a Json>)
    ensures
        opt_model(r) == if_not_null(opt_model(j)),
{
    match j {
        Some(v) => if v.is_null() {
            None
        } else {
            Some(v)
        },
        None => None,
    }
}

/// A copy of a value, or `null` where there is none.
pub fn copy_or_null(j: Option<&Json>) -> (r: Json)
    ensures
        r@ == (match opt_model(j) {
            Some(v) => v,
            None => Jv::Null,
        }),
{
    match j {
        Some(v) => v.copy(),
        None => Json::Null,
    }
}

/// Copies of a list of values.
pub fn copy_all(v: &Vec<Json>) -> (r: Vec<Json>)
    ensures
        models(r@) == models(v@),
{
    broadcast use group_json;

    let mut out: Vec<Json> = Vec::new();
    let mut i: usize = 0;
    while i < v.len()
        invariant
            i <= v@.len(),
            models(out@) == models(v@).take(i as int),
        decreases v@.len() - i,
    {
        out.push(v[i].copy());
        proof {
            assert(models(v@).take(i as int + 1) =~= models(v@).take(i as int).push(
                model(v@[i as int]),
            ));
        }
        i = i + 1;
    }
    proof {
        assert(models(v@).take(v@.len() as int) =~= models(v@));
    }
    out
}

// ---------------------------------------------------------------- serde_json

/// What a `serde_json::Value` holds.
pub uninterp spec fn value_model(v: serde_json::Value) -> Jv;

/// The text that `serde_json` writes for a value.
pub uninterp spec fn json_text_of(v: Jv) -> Seq<char>;

/// The value that `serde_json` reads from a text, where it reads one.
pub uninterp spec fn parsed_json(text: Seq<char>) -> Option<Jv>;

/// One level of a `serde_json::Value`.
pub(crate) enum Node {
    Null,
    Bool(bool),
    Int(i64),
    Big(u64),
    Float(u64),
    Str(String),
    Arr(Vec<serde_json::Value>),
    Obj(Vec<(String, serde_json::Value)>),
}

/// What a list of members holds; the last one of a name counts.
pub(crate) open spec fn value_members(s: Seq<(String, serde_json::Value)>) -> Map<Seq<char>, Jv>
    decreases s.len(),
{
    if s.len() == 0 {
        Map::empty()
    } else {
        value_members(s.drop_last()).insert(s.last().0@, value_model(s.last().1))
    }
}

/// Whether no two members have the same name.
pub(crate) open spec fn names_differ(s: Seq<(String, serde_json::Value)>) -> bool {
    forall|i: int, j: int| 0 <= i < j < s.len() ==> (#[trigger] s[i]).0@ != (#[trigger] s[j]).0@
}

/// What one level of a value holds.
pub(crate) open spec fn node_model(n: Node) -> Jv {
    match n {
        Node::Null => Jv::Null,
        Node::Bool(b) => Jv::Bool(b),
        Node::Int(n) => Jv::Int(n as int),
        Node::Big(n) => Jv::Int(n as int),
        Node::Float(bits) => float_model(bits),
        Node::Str(s) => Jv::Str(s@),
        Node::Arr(v) => Jv::Arr(Seq::new(v@.len(), |i: int| value_model(v@[i]))),
        Node::Obj(v) => Jv::Obj(value_members(v@)),
    }
}

/// Takes a `serde_json::Value` apart by one level. `Number` holds an integer of
/// an `i64`, one of a `u64`, or a finite double, and `as_i64`, `as_u64` and
/// `as_f64` tell which; a `Map` holds each name once.
#[verifier::external_body]
pub(crate) fn open_value(v: serde_json::Value) -> (r: Node)
    ensures
        node_model(r) == value_model(v),
        r matches Node::Obj(e) ==> names_differ(e@),
{
    match v {
        serde_json::Value::Null => Node::Null,
        serde_json::Value::Bool(b) => Node::Bool(b),
        serde_json::Value::Number(n) => match (n.as_i64(), n.as_u64(), n.as_f64()) {
            (Some(i), _, _) => Node::Int(i),
            (_, Some(u), _) => Node::Big(u),
            (_, _, x) => Node::Float(x.unwrap_or_default().to_bits()),
        },
        serde_json::Value::String(s) => Node::Str(s),
        serde_json::Value::Array(items) => Node::Arr(items),
        serde_json::Value::Object(map) => Node::Obj(map.into_iter().collect()),
    }
}

/// Puts a `serde_json::Value` together from one level. A double goes in by
/// `Value::from`, which turns an infinity or no number into `null`; the members of an
/// object are collected into a `Map`, which holds all of them since their names differ.
#[verifier::external_body]
pub(crate) fn make_value(n: Node) -> (r: serde_json::Value)
    requires
        n matches Node::Obj(e) ==> names_differ(e@),
    ensures
        value_model(r) == node_model(n),
{
    match n {
        Node::Null => serde_json::Value::Null,
        Node::Bool(b) => serde_json::Value::Bool(b),
        Node::Int(i) => serde_json::Value::from(i),
        Node::Big(u) => serde_json::Value::from(u),
        Node::Float(bits) => serde_json::Value::from((&bits.to_be_bytes()[..]).get_f64()),
        Node::Str(s) => serde_json::Value::String(s),
        Node::Arr(items) => serde_json::Value::Array(items),
        Node::Obj(entries) => serde_json::Value::Object(entries.into_iter().collect()),
    }
}

/// Whether a value is an object with nothing but texts in it.
pub open spec fn texts_only(v: Jv) -> bool {
    v matches Jv::Obj(m) && forall|k: Seq<char>| #[trigger] m.contains_key(k) ==> m[k] is Str
}

/// `serde_json::to_string` on a value. Writing a `Value` cannot fail: its names
/// are texts and the text goes into memory. The text of an object with nothing but
/// texts in it is read back as that object by `serde_json::from_str`.
#[verifier::external_body]
pub(crate) fn value_text(v: &serde_json::Value) -> (r: String)
    ensures
        r@ == json_text_of(value_model(*v)),
        texts_only(value_model(*v)) ==> parsed_json(r@) == Some(value_model(*v)),
{
    serde_json::to_string(v).unwrap_or_default()
}

/// `serde_json::from_str` into a `Value`; the error is dropped.
#[verifier::external_body]
pub(crate) fn parse_value(text: &str) -> (r: Option<serde_json::Value>)
    ensures
        parsed_json(text@) == (match r {
            Some(v) => Some(value_model(v)),
            None => None,
        }),
{
    serde_json::from_str(text).ok()
}

proof fn value_members_distinct(s: Seq<(String, serde_json::Value)>, i: int)
    requires
        0 <= i < s.len(),
        names_differ(s),
    ensures
        value_members(s).dom().finite(),
        value_members(s).dom().contains(s[i].0@),
        value_members(s)[s[i].0@] == value_model(s[i].1),
    decreases s.len(),
{
    let t = s.drop_last();
    if i < s.len() - 1 {
        value_members_distinct(t, i);
        assert(s[i] == t[i]);
        assert(s[i].0@ != s.last().0@);
    } else if t.len() > 0 {
        value_members_distinct(t, 0);
    }
}

/// The tree that a `serde_json::Value` holds.
pub fn from_value(v: serde_json::Value) -> (r: Json)
    ensures
        r@ == value_model(v),
    decreases value_model(v),
{
    broadcast use group_json;

    let ghost whole = value_model(v);
    match open_value(v) {
        Node::Null => Json::Null,
        Node::Bool(b) => Json::Bool(b),
        Node::Int(n) => Json::Int(n),
        Node::Big(n) => Json::Big(n),
        Node::Float(bits) => Json::Float(bits),
        Node::Str(s) => Json::Str(s),
        Node::Arr(items) => {
            let ghost all = items@;
            let ghost want = Seq::new(all.len(), |i: int| value_model(all[i]));
            let mut out: Vec<Json> = Vec::new();
            for item in it: items
                invariant
                    it.seq() == all,
                    whole == value_model(v),
                    want == Seq::new(all.len(), |i: int| value_model(all[i])),
                    whole == Jv::Arr(want),
                    models(out@) == want.take(it.index() as int),
            {
                proof {
                    let i = it.index() as int;
                    assert(item == all[i]);
                    assert(want[i] == value_model(item));
                    assert(decreases_to!(whole => whole->Arr_0));
                    assert(decreases_to!(want => want[i]));
                    assert(want.take(i + 1) =~= want.take(i).push(want[i]));
                }
                out.push(from_value(item));
            }
            proof {
                assert(want.take(want.len() as int) =~= want);
            }
            Json::Arr(out)
        },
        Node::Obj(entries) => {
            let ghost all = entries@;
            let mut out: Vec<(String, Json)> = Vec::new();
            for entry in it: entries
                invariant
                    it.seq() == all,
                    whole == value_model(v),
                    whole == Jv::Obj(value_members(all)),
                    names_differ(all),
                    members(out@) == value_members(all.take(it.index() as int)),
            {
                proof {
                    let i = it.index() as int;
                    assert(entry == all[i]);
                    value_members_distinct(all, i);
                    let m = value_members(all);
                    assert(decreases_to!(whole => whole->Obj_0));
                    assert(decreases_to!(m => m[entry.0@]));
                    assert(all.take(i + 1).drop_last() =~= all.take(i));
                }
                let (name, value) = entry;
                let item = from_value(value);
                proof {
                    members_push(out@, (name, item));
                }
                out.push((name, item));
            }
            proof {
                assert(all.take(all.len() as int) =~= all);
            }
            Json::Obj(out)
        },
    }
}

/// The members after the one at a place got another value.
proof fn value_members_update(s: Seq<(String, serde_json::Value)>, k: int, e: (String, serde_json::Value))
    requires
        0 <= k < s.len(),
        names_differ(s),
        s[k].0@ == e.0@,
    ensures
        value_members(s.update(k, e)) == value_members(s).insert(e.0@, value_model(e.1)),
    decreases s.len(),
{
    let t = s.update(k, e);
    if k == s.len() - 1 {
        assert(t.drop_last() =~= s.drop_last());
        assert(value_members(t) =~= value_members(s).insert(e.0@, value_model(e.1)));
    } else {
        assert(t.drop_last() =~= s.drop_last().update(k, e));
        assert(t.last() == s.last());
        assert(s.drop_last()[k] == s[k]);
        value_members_update(s.drop_last(), k, e);
        assert(s[k].0@ != s.last().0@);
        assert(value_members(t) =~= value_members(s).insert(e.0@, value_model(e.1)));
    }
}

/// Adds a member, in place of the one of the same name where there is one.
fn put_member(out: &mut Vec<(String, serde_json::Value)>, name: String, item: serde_json::Value)
    requires
        names_differ(old(out)@),
    ensures
        names_differ(final(out)@),
        value_members(final(out)@) == value_members(old(out)@).insert(name@, value_model(item)),
{
    let ghost before = out@;
    let ghost e = (name, item);
    let mut k: usize = 0;
    while k < out.len()
        invariant
            k <= out@.len(),
            out@ == before,
            before == old(out)@,
            e == (name, item),
            names_differ(before),
            forall|i: int| 0 <= i < k ==> (#[trigger] before[i]).0@ != name@,
        decreases out@.len() - k,
    {
        if text::same(out[k].0.as_str(), name.as_str()) {
            out[k] = (name, item);
            proof {
                assert(out@ =~= before.update(k as int, e));
                value_members_update(before, k as int, e);
                assert forall|i: int, j: int| 0 <= i < j < out@.len() implies (
                #[trigger] out@[i]).0@ != (#[trigger] out@[j]).0@ by {
                    assert(before[i].0@ != before[j].0@);
                }
            }
            return;
        }
        k = k + 1;
    }
    out.push((name, item));
    proof {
        assert(out@.drop_last() =~= before);
        assert forall|i: int, j: int| 0 <= i < j < out@.len() implies (#[trigger] out@[i]).0@ != (
        #[trigger] out@[j]).0@ by {
            assert(out@[i] == before[i]);
            if j < before.len() {
                assert(out@[j] == before[j]);
            }
        }
    }
}

/// The `serde_json::Value` of a tree. Of several members with one name the last one stays.
pub fn to_value(j: &Json) -> (r: serde_json::Value)
    ensures
        value_model(r) == j@,
    decreases j,
{
    broadcast use group_json;

    match j {
        Json::Null => make_value(Node::Null),
        Json::Bool(b) => make_value(Node::Bool(*b)),
        Json::Int(n) => make_value(Node::Int(*n)),
        Json::Big(n) => make_value(Node::Big(*n)),
        Json::Float(bits) => make_value(Node::Float(*bits)),
        Json::Str(s) => make_value(Node::Str(s.clone())),
        Json::Arr(v) => {
            let mut out: Vec<serde_json::Value> = Vec::new();
            let mut i: usize = 0;
            while i < v.len()
                invariant
                    i <= v@.len(),
                    *j == Json::Arr(*v),
                    out@.len() == i,
                    forall|k: int| 0 <= k < i ==> value_model(#[trigger] out@[k]) == model(v@[k]),
                decreases v@.len() - i,
            {
                proof {
                    assert(decreases_to!(j => j->Arr_0));
                    assert(decreases_to!(v => v@[i as int]));
                }
                out.push(to_value(&v[i]));
                i = i + 1;
            }
            proof {
                assert(node_model(Node::Arr(out))->Arr_0 =~= models(v@));
            }
            make_value(Node::Arr(out))
        },
        Json::Obj(v) => {
            let mut out: Vec<(String, serde_json::Value)> = Vec::new();
            let mut i: usize = 0;
            while i < v.len()
                invariant
                    i <= v@.len(),
                    *j == Json::Obj(*v),
                    names_differ(out@),
                    value_members(out@) == members(v@.take(i as int)),
                decreases v@.len() - i,
            {
                proof {
                    assert(decreases_to!(j => j->Obj_0));
                    assert(decreases_to!(v => v@[i as int]));
                }
                let item = to_value(&v[i].1);
                let name = v[i].0.clone();
                proof {
                    assert(v@.take(i as int + 1).drop_last() =~= v@.take(i as int));
                }
                put_member(&mut out, name, item);
                i = i + 1;
            }
            proof {
                assert(v@.take(v@.len() as int) =~= v@);
            }
            make_value(Node::Obj(out))
        },
    }
}

/// The value that a text spells, where it spells one.
pub fn parse(text: &str) -> (r: Option<Json>)
    ensures
        parsed_json(text@) == (match r {
            Some(j) => Some(j@),
            None => None,
        }),
{
    match parse_value(text) {
        Some(v) => Some(from_value(v)),
        None => None,
    }
}

/// The text of a value.
pub fn text_of(j: &Json) -> (r: String)
    ensures
        r@ == json_text_of(j@),
        texts_only(j@) ==> parsed_json(r@) == Some(j@),
{
    let v = to_value(j);
    value_text(&v)
}

/// The meaning of an owned value that may be missing.
pub open spec fn opt_owned(j: Option<Json>) -> Option<Jv> {
    match j {
        Some(v) => Some(v@),
        None => None,
    }
}

/// A copy of a value that may be missing.
pub(crate) fn copy_opt(j: &Option<Json>) -> (r: Option<Json>)
    ensures
        opt_owned(r) == opt_owned(*j),
{
    match j {
        Some(v) => Some(v.copy()),
        None => None,
    }
}

/// A count as a number.
pub(crate) fn count(n: usize) -> (r: Json)
    ensures
        r@ == Jv::Int(n as int),
{
    if n <= i64::MAX as usize {
        Json::Int(n as i64)
    } else {
        Json::Big(n as u64)
    }
}

} // verus!
