//! Which account carries a request.
//!
//! The accounts of all providers form one queue by their priority. A request goes to
//! the first one that is switched on, is not waiting for a limit on the model to end,
//! has not been tried for this request, and is not as busy as it may be.
//!
//! A limit is kept under the name that the provider of the account knows the model by,
//! not under the name that the request asks for.

use crate::double;
use crate::json::{Json, Jv};
use crate::json;
use crate::lists;
use crate::model_rules::store;
use crate::model_rules::{ModelRules, RulesV};
use crate::protocol;
use crate::providers::catalog::routing;
use crate::providers::catalog::view;
use crate::providers::catalog::{Listing, ListingV};
use crate::providers::custom::forward;
use crate::providers;
use crate::text;
use crate::upstream::labels;
use vstd::prelude::*;
use vstd::string::*;

verus! {

// ------------------------------------------------------------ names of limits

/// The name that a request asks for, with what is needed to find the name that a
/// provider knows the model by: the models of the built-in providers, the rules, and
/// the names at the providers that a user has added.
pub struct CooldownKeys<'a> {
    pub requested: &'a str,
    pub listings: &'a Vec<Listing>,
    pub rules: &'a ModelRules,
    pub custom_names: &'a Vec<(String, String)>,
}

/// What the names of limits follow from.
#[verifier::ext_equal]
pub struct KeysV {
    pub requested: Seq<char>,
    pub listings: Seq<ListingV>,
    pub rules: RulesV,
    pub custom_names: Seq<(Seq<char>, Seq<char>)>,
}

impl<'a> View for CooldownKeys<'a> {
    type V = KeysV;

    open spec fn view(&self) -> KeysV {
        KeysV {
            requested: self.requested@,
            listings: lists::views(self.listings@),
            rules: self.rules@,
            custom_names: lists::views(self.custom_names@),
        }
    }
}

/// The name at an added provider; the name that was asked for, without white space around
/// it, where none is given.
pub open spec fn custom_name(keys: KeysV, provider: Seq<char>) -> Seq<char> {
    match view::given_name(keys.custom_names, provider) {
        Some(name) => name,
        None => text::trimmed(keys.requested),
    }
}

/// The name under which a limit is kept for a provider.
pub open spec fn key_for(keys: KeysV, provider: Seq<char>) -> Seq<char> {
    if keys.requested.len() == 0 || provider.len() == 0 {
        keys.requested
    } else if providers::is_custom(provider) {
        forward::limit_name(keys.requested, custom_name(keys, provider))
    } else {
        routing::wire_target(keys.listings, keys.rules, keys.requested, provider).model
    }
}

impl<'a> CooldownKeys<'a> {
    /// The names of limits for a request.
    pub fn new(
        requested: &'a str,
        listings: &'a Vec<Listing>,
        rules: &'a ModelRules,
        custom_names: &'a Vec<(String, String)>,
    ) -> (r: CooldownKeys<'a>)
        ensures
            r@ == (KeysV {
                requested: requested@,
                listings: lists::views(listings@),
                rules: rules@,
                custom_names: lists::views(custom_names@),
            }),
    {
        CooldownKeys { requested, listings, rules, custom_names }
    }

    /// The name under which a limit is kept for a provider.
    pub fn for_provider(&self, provider_id: &str) -> (r: String)
        ensures
            r@ == key_for(self@, provider_id@),
    {
        if self.requested.is_empty() || provider_id.is_empty() {
            return self.requested.to_owned();
        }
        if providers::is_custom_provider_id(provider_id) {
            let name = match view::find_label(self.custom_names, provider_id) {
                Some(name) => name.to_owned(),
                None => text::trim(self.requested),
            };
            return forward::cooldown_model(self.requested, name.as_str());
        }
        routing::wire_target_for_provider(self.listings, self.rules, self.requested, provider_id).model
    }

    /// The name under which a limit is kept for an account.
    pub fn for_account(&self, account: &Json) -> (r: String)
        ensures
            r@ == key_for(self@, owner_of(account@)),
    {
        self.for_provider(provider_of(account).as_str())
    }
}

/// The provider of an account.
pub open spec fn owner_of(account: Jv) -> Seq<char> {
    match json::opt_str(account.get("provider"@)) {
        Some(p) => p,
        None => providers::DEFAULT_PROVIDER_ID@,
    }
}

/// The provider of an account.
pub fn provider_of(account: &Json) -> (r: String)
    ensures
        r@ == owner_of(account@),
{
    match account.get("provider") {
        Some(v) => match v.as_str() {
            Some(p) => p.to_owned(),
            None => providers::DEFAULT_PROVIDER_ID.to_owned(),
        },
        None => providers::DEFAULT_PROVIDER_ID.to_owned(),
    }
}

// --------------------------------------------------------------------- limits

/// A value as a number, as JavaScript's `Number` has it: the bits of a double. A text
/// that is no number, an array and an object are none.
pub open spec fn js_number(j: Jv) -> Option<u64> {
    match j {
        Jv::Int(n) => Some(double::nearest(n)),
        Jv::Float(bits) => Some(bits),
        Jv::Str(s) => if text::blank(s) {
            Some(0)
        } else {
            double::parsed_double(text::trimmed(s))
        },
        Jv::Bool(b) => Some(
            if b {
                double::nearest(1)
            } else {
                0
            },
        ),
        Jv::Null => Some(0),
        _ => None,
    }
}

/// A value that may be missing as a number, else zero.
pub open spec fn number_or_zero(j: Option<Jv>) -> u64 {
    match j {
        Some(v) => match js_number(v) {
            Some(bits) => bits,
            None => 0,
        },
        None => 0,
    }
}

/// A value as a number.
fn read_number(j: &Json) -> (r: Option<u64>)
    ensures
        r == js_number(j@),
{
    match j {
        Json::Int(n) => Some(double::near_i64(*n)),
        Json::Big(n) => Some(double::near_u64(*n)),
        Json::Float(bits) => if json::is_finite(*bits) {
            Some(*bits)
        } else {
            Some(0)
        },
        Json::Str(s) => {
            let t = text::trim(s.as_str());
            if t.as_str().is_empty() {
                Some(0)
            } else {
                double::parse_double(t.as_str())
            }
        },
        Json::Bool(b) => if *b {
            Some(double::near_i64(1))
        } else {
            Some(0)
        },
        Json::Null => Some(0),
        _ => None,
    }
}

/// A value that may be missing as a number, else zero.
fn read_or_zero(j: Option<&Json>) -> (r: u64)
    ensures
        r == number_or_zero(json::opt_model(j)),
{
    match j {
        Some(v) => match read_number(v) {
            Some(bits) => bits,
            None => 0,
        },
        None => 0,
    }
}

/// The limit that an account has under a name.
pub open spec fn limit_under(account: Jv, key: Seq<char>) -> Option<Jv> {
    json::opt_get(account.get("rateLimits"@), key)
}

/// When a limit ends: zero where there is none or it has ended.
pub open spec fn limit_end(limit: Option<Jv>, now: int) -> int {
    match limit {
        None => 0,
        Some(v) => {
            let end = number_or_zero(v.get("resetAt"@));
            if double::order(end) > double::order(double::nearest(now)) {
                json::float_trunc(end)
            } else {
                0
            }
        },
    }
}

/// When the limit of an account on the model ends: zero where there is none or it has
/// ended.
pub fn rate_limit_reset_at(account: &Json, keys: &CooldownKeys, now: i64) -> (r: i64)
    ensures
        r == limit_end(limit_under(account@, key_for(keys@, owner_of(account@))), now as int),
{
    let key = keys.for_account(account);
    let limit = match json::get_in(account.get("rateLimits"), key.as_str()) {
        Some(v) => v,
        None => {
            return 0;
        },
    };
    let end = read_or_zero(limit.get("resetAt"));
    if double::is_above(end, double::near_i64(now)) {
        json::trunc_bits(end)
    } else {
        0
    }
}

/// Whether an account waits for a limit on the model to end.
pub open spec fn limited(account: Jv, keys: KeysV, now: int) -> bool {
    limit_end(limit_under(account, key_for(keys, owner_of(account))), now) > 0
}

/// Whether an account waits for a limit on the model to end.
pub fn is_rate_limited(account: &Json, keys: &CooldownKeys, now: i64) -> (r: bool)
    ensures
        r == limited(account@, keys@, now as int),
{
    rate_limit_reset_at(account, keys, now) > 0
}

/// A limit whose end is a whole number of milliseconds holds until then.
pub proof fn limit_holds_until_its_end(limit: Jv, end: int, now: int)
    requires
        limit.get("resetAt"@) == Some(Jv::Int(end)),
        0 <= now < 0x20_0000_0000_0000,
        0 <= end < 0x20_0000_0000_0000,
    ensures
        limit_end(Some(limit), now) == (if end > now {
            end
        } else {
            0
        }),
{
    double::small_integer_is_exact(end);
    if end > now {
        double::small_integers_in_order(now, end);
    } else if end < now {
        double::small_integers_in_order(end, now);
    }
}

// ------------------------------------------------------------------ usability

/// Whether an account can be used, and if not, why.
#[derive(Clone, Copy, Debug)]
pub struct AccountUsability {
    pub usable: bool,
    pub reason: Option<&'static str>,
}

/// Whether an account is switched on; only `false` switches it off.
pub open spec fn switched_on(account: Jv) -> bool {
    account.get("enabled"@) != Some(Jv::Bool(false))
}

/// Why an account cannot be used; nothing where it can.
pub open spec fn obstacle(account: Jv, keys: KeysV, now: int) -> Option<Seq<char>> {
    if !switched_on(account) {
        Some("disabled"@)
    } else if limited(account, keys, now) {
        Some("rate-limited"@)
    } else {
        None
    }
}

/// Whether an account is switched on.
fn is_switched_on(account: &Json) -> (r: bool)
    ensures
        r == switched_on(account@),
{
    match account.get("enabled") {
        Some(v) => match v.as_bool() {
            Some(b) => b,
            None => true,
        },
        None => true,
    }
}

/// Whether an account can be used, and if not, why.
pub fn account_usability(account: &Json, keys: &CooldownKeys, now: i64) -> (r: AccountUsability)
    ensures
        r.usable == (obstacle(account@, keys@, now as int) is None),
        json::opt_text(r.reason) == obstacle(account@, keys@, now as int),
{
    if !is_switched_on(account) {
        return AccountUsability { usable: false, reason: Some("disabled") };
    }
    if is_rate_limited(account, keys, now) {
        return AccountUsability { usable: false, reason: Some("rate-limited") };
    }
    AccountUsability { usable: true, reason: None }
}

/// How many requests an account may carry at once; zero is without a bound.
pub open spec fn most_at_once(account: Jv) -> int {
    match account.get("maxConcurrent"@) {
        Some(Jv::Int(n)) => if 0 <= n <= u64::MAX {
            n
        } else {
            0
        },
        _ => 0,
    }
}

/// How many requests an account may carry at once; zero is without a bound.
pub fn max_concurrent_of(account: &Json) -> (r: u64)
    ensures
        r == most_at_once(account@),
{
    match account.get("maxConcurrent") {
        Some(Json::Int(n)) => if *n >= 0 {
            *n as u64
        } else {
            0
        },
        Some(Json::Big(n)) => *n,
        _ => 0,
    }
}

/// How many requests an account carries now.
pub open spec fn carried_now(counts: Seq<(Seq<char>, usize)>, id: Seq<char>) -> int {
    match lists::found(counts, |c: (Seq<char>, usize)| c.0 == id) {
        Some(c) => c.1 as int,
        None => 0,
    }
}

/// Whether an account is as busy as it may be.
pub open spec fn busy(account: Jv, id: Seq<char>, counts: Seq<(Seq<char>, usize)>) -> bool {
    most_at_once(account) > 0 && carried_now(counts, id) >= most_at_once(account)
}

/// The counts of a list.
pub open spec fn counts_view(counts: Seq<(String, usize)>) -> Seq<(Seq<char>, usize)> {
    Seq::new(counts.len(), |i: int| (counts[i].0@, counts[i].1))
}

/// Whether an account is as busy as it may be.
fn at_concurrency_limit(account: &Json, id: &str, counts: &Vec<(String, usize)>) -> (r: bool)
    ensures
        r == busy(account@, id@, counts_view(counts@)),
{
    let most = max_concurrent_of(account);
    if most == 0 {
        return false;
    }
    let ghost all = counts_view(counts@);
    let ghost pred = |c: (Seq<char>, usize)| c.0 == id@;
    let mut i: usize = 0;
    while i < counts.len()
        invariant
            i <= counts@.len(),
            all == counts_view(counts@),
            pred == (|c: (Seq<char>, usize)| c.0 == id@),
            most == most_at_once(account@),
            most > 0,
            lists::first_where(all, pred, 0) == lists::first_where(all, pred, i as int),
        decreases counts@.len() - i,
    {
        assert(all[i as int] == (counts@[i as int].0@, counts@[i as int].1));
        if text::same(counts[i].0.as_str(), id) {
            return counts[i].1 as u64 >= most;
        }
        i = i + 1;
    }
    false
}

// --------------------------------------------------------------------- choice

/// The identifier of an account; one that is empty is none.
pub open spec fn id_in(account: Jv) -> Option<Seq<char>> {
    match json::opt_str(account.get("id"@)) {
        Some(id) => if id.len() > 0 {
            Some(id)
        } else {
            None
        },
        None => None,
    }
}

/// The identifier of an account.
pub fn account_id(account: &Json) -> (r: Option<&str>)
    ensures
        json::opt_text(r) == id_in(account@),
{
    match account.get("id") {
        Some(v) => match v.as_str() {
            Some(id) => if id.is_empty() {
                None
            } else {
                Some(id)
            },
            None => None,
        },
        None => None,
    }
}

/// What decides which account is chosen: the names of limits, how many requests each
/// account carries, which were tried, and the time.
#[verifier::ext_equal]
pub struct ChoiceV {
    pub keys: KeysV,
    pub counts: Seq<(Seq<char>, usize)>,
    pub tried: Seq<Seq<char>>,
    pub now: int,
}

/// Accounts that can carry the request.
pub open spec fn can_carry(c: ChoiceV) -> spec_fn(Jv) -> bool {
    |account: Jv|
        match id_in(account) {
            Some(id) => !c.tried.contains(id) && obstacle(account, c.keys, c.now) is None && !busy(
                account,
                id,
                c.counts,
            ),
            None => false,
        }
}

/// The priority of an account: the smaller number goes first. One without a priority has
/// the one that is given.
pub open spec fn priority_or(account: Jv, fallback: int) -> int {
    match labels::priority_in(account) {
        Some(n) => n,
        None => fallback,
    }
}

/// Whether the one account goes before the other: by priority, then by the time at which
/// it was added.
pub open spec fn goes_before(a: Jv, b: Jv, fallback: int) -> bool {
    let p = priority_or(a, fallback);
    let q = priority_or(b, fallback);
    p < q || (p == q && added_at(a) < added_at(b))
}

/// When an account was added.
pub open spec fn added_at(account: Jv) -> int {
    json::float_trunc(number_or_zero(account.get("addedAt"@)))
}

/// The place of the account that goes first among those of the first `n` that can carry
/// the request; the earlier one where two are equal.
pub open spec fn best(accounts: Seq<Jv>, c: ChoiceV, fallback: int, n: nat) -> Option<int>
    decreases n,
{
    if n == 0 {
        None
    } else {
        let before = best(accounts, c, fallback, (n - 1) as nat);
        let one = accounts[n - 1];
        if can_carry(c)(one) && (before is None || goes_before(one, accounts[before->0], fallback)) {
            Some(n - 1)
        } else {
            before
        }
    }
}

/// The account that carries the request.
pub open spec fn picked(accounts: Seq<Jv>, c: ChoiceV, fallback: int) -> Option<Jv> {
    match best(accounts, c, fallback, accounts.len()) {
        Some(i) => Some(accounts[i]),
        None => None,
    }
}

/// The priority of an account.
fn priority_given(account: &Json, fallback: i64) -> (r: i64)
    ensures
        r == priority_or(account@, fallback as int),
{
    match labels::priority_of(account) {
        Some(n) => n,
        None => fallback,
    }
}

/// Whether the one account goes before the other.
fn does_go_before(a: &Json, b: &Json, fallback: i64) -> (r: bool)
    ensures
        r == goes_before(a@, b@, fallback as int),
{
    let p = priority_given(a, fallback);
    let q = priority_given(b, fallback);
    p < q || (p == q && json::trunc_bits(read_or_zero(a.get("addedAt"))) < json::trunc_bits(
        read_or_zero(b.get("addedAt")),
    ))
}

/// Whether an account can carry the request.
fn does_fit(
    account: &Json,
    keys: &CooldownKeys,
    counts: &Vec<(String, usize)>,
    exclude_ids: &Vec<String>,
    now: i64,
) -> (r: bool)
    ensures
        r == can_carry(
            (ChoiceV {
                keys: keys@,
                counts: counts_view(counts@),
                tried: lists::views(exclude_ids@),
                now: now as int,
            }),
        )(account@),
{
    match account_id(account) {
        Some(id) => !lists::contains_text(exclude_ids, id) && account_usability(account, keys, now).usable
            && !at_concurrency_limit(account, id, counts),
        None => false,
    }
}

/// The account that carries the request: of those that can, the one that goes first.
pub fn pick_account_by_priority<'a>(
    accounts: &'a Vec<Json>,
    keys: &CooldownKeys,
    counts: &Vec<(String, usize)>,
    exclude_ids: &Vec<String>,
    now: i64,
    fallback: i64,
) -> (r: Option<&'a Json>)
    ensures
        json::opt_model(r) == picked(
            json::models(accounts@),
            (ChoiceV {
                keys: keys@,
                counts: counts_view(counts@),
                tried: lists::views(exclude_ids@),
                now: now as int,
            }),
            fallback as int,
        ),
{
    let ghost all = json::models(accounts@);
    let ghost c = ChoiceV {
        keys: keys@,
        counts: counts_view(counts@),
        tried: lists::views(exclude_ids@),
        now: now as int,
    };
    let mut found: Option<usize> = None;
    let mut i: usize = 0;
    while i < accounts.len()
        invariant
            i <= accounts@.len(),
            all == json::models(accounts@),
            c == (ChoiceV {
                keys: keys@,
                counts: counts_view(counts@),
                tried: lists::views(exclude_ids@),
                now: now as int,
            }),
            best(all, c, fallback as int, i as nat) == (match found {
                Some(k) => Some(k as int),
                None => None,
            }),
            found matches Some(k) ==> k < i,
        decreases accounts@.len() - i,
    {
        let one = &accounts[i];
        assert(all[i as int] == one@);
        if does_fit(one, keys, counts, exclude_ids, now) {
            let better = match found {
                Some(k) => does_go_before(one, &accounts[k], fallback),
                None => true,
            };
            if better {
                found = Some(i);
            }
        }
        i = i + 1;
    }
    match found {
        Some(k) => Some(&accounts[k]),
        None => None,
    }
}

proof fn best_says(accounts: Seq<Jv>, c: ChoiceV, fallback: int, n: nat)
    requires
        n <= accounts.len(),
    ensures
        best(accounts, c, fallback, n) matches Some(i) ==> 0 <= i < n && can_carry(c)(accounts[i])
            && (forall|j: int|
            0 <= j < n && can_carry(c)(#[trigger] accounts[j]) ==> !goes_before(
                accounts[j],
                accounts[i],
                fallback,
            )) && (forall|j: int|
            0 <= j < i && can_carry(c)(#[trigger] accounts[j]) ==> goes_before(
                accounts[i],
                accounts[j],
                fallback,
            )),
        best(accounts, c, fallback, n) is None ==> forall|j: int|
            0 <= j < n ==> !can_carry(c)(#[trigger] accounts[j]),
    decreases n,
{
    if n > 0 {
        best_says(accounts, c, fallback, (n - 1) as nat);
    }
}

/// An account is chosen where one can carry the request. It can carry it, no other that
/// can goes before it, and where one is equal to it the chosen one stands earlier.
pub proof fn first_fitting_account_is_picked(accounts: Seq<Jv>, c: ChoiceV, fallback: int)
    ensures
        picked(accounts, c, fallback) is Some <==> lists::any(accounts, can_carry(c)),
        best(accounts, c, fallback, accounts.len()) matches Some(i) ==> 0 <= i < accounts.len()
            && picked(accounts, c, fallback) == Some(accounts[i]) && can_carry(c)(accounts[i])
            && (forall|j: int|
            0 <= j < accounts.len() && can_carry(c)(#[trigger] accounts[j]) ==> !goes_before(
                accounts[j],
                accounts[i],
                fallback,
            )) && (forall|j: int|
            0 <= j < i && can_carry(c)(#[trigger] accounts[j]) ==> goes_before(
                accounts[i],
                accounts[j],
                fallback,
            )),
{
    best_says(accounts, c, fallback, accounts.len());
}

/// An account that was tried for a request is not chosen for it again.
pub proof fn tried_account_is_not_picked(accounts: Seq<Jv>, c: ChoiceV, fallback: int)
    ensures
        picked(accounts, c, fallback) matches Some(a) ==> (id_in(a) matches Some(id)
            && !c.tried.contains(id)),
{
    best_says(accounts, c, fallback, accounts.len());
}

// ------------------------------------------------------------------ for a model

/// Accounts of the providers that have the model, with credentials. Where no provider is
/// named, all providers count.
pub open spec fn may_serve(providers: Seq<Seq<char>>) -> spec_fn(Jv) -> bool {
    |account: Jv|
        (providers.len() == 0 || providers.contains(owner_of(account))) && account.get(
            "hasCredentials"@,
        ) != Some(Jv::Bool(false))
}

/// The account that the next request for a model will go to.
pub fn pick_for_model(
    accounts: &Vec<Json>,
    keys: &CooldownKeys,
    providers: &Vec<String>,
    counts: &Vec<(String, usize)>,
    now: i64,
    fallback: i64,
) -> (r: Option<Json>)
    ensures
        json::opt_owned(r) == picked(
            json::models(accounts@).filter(may_serve(lists::views(providers@))),
            (ChoiceV {
                keys: keys@,
                counts: counts_view(counts@),
                tried: Seq::empty(),
                now: now as int,
            }),
            fallback as int,
        ),
{
    let ghost all = json::models(accounts@);
    let ghost pred = may_serve(lists::views(providers@));
    let mut kept: Vec<Json> = Vec::new();
    let mut i: usize = 0;
    proof {
        lists::kept_all(all, pred);
        assert(json::models(kept@) =~= Seq::empty());
    }
    while i < accounts.len()
        invariant
            i <= accounts@.len(),
            all == json::models(accounts@),
            pred == may_serve(lists::views(providers@)),
            json::models(kept@) == all.take(i as int).filter(pred),
        decreases accounts@.len() - i,
    {
        let one = &accounts[i];
        proof {
            lists::kept_step(all, pred, i as int);
            assert(all[i as int] == one@);
        }
        let owner = provider_of(one);
        let has = match one.get("hasCredentials") {
            Some(v) => match v.as_bool() {
                Some(b) => b,
                None => true,
            },
            None => true,
        };
        if (providers.len() == 0 || lists::contains_text(providers, owner.as_str())) && has {
            let copy = one.copy();
            proof {
                json::models_push(kept@, copy);
            }
            kept.push(copy);
        }
        i = i + 1;
    }
    let none: Vec<String> = Vec::new();
    proof {
        assert(lists::views(none@) =~= Seq::empty());
    }
    match pick_account_by_priority(&kept, keys, counts, &none, now, fallback) {
        Some(a) => Some(a.copy()),
        None => None,
    }
}

// ----------------------------------------------------------------- description

/// What an account is called where a choice is told of: its name, else its identifier.
pub open spec fn name_of(account: Jv, id: Seq<char>) -> Seq<char> {
    match account.get("name"@) {
        Some(v) => if v.truthy() {
            protocol::loose(v)
        } else {
            id
        },
        None => id,
    }
}

/// What an account is called where a choice is told of.
pub fn account_name(account: &Json, id: &str) -> (r: String)
    ensures
        r@ == name_of(account@, id@),
{
    match account.get("name") {
        Some(v) => if v.truthy() {
            protocol::string_value(v)
        } else {
            id.to_owned()
        },
        None => id.to_owned(),
    }
}

/// Why an account is not among those that can be chosen.
pub open spec fn blocked_for(account: Jv, id: Seq<char>, c: ChoiceV) -> Option<Seq<char>> {
    if c.tried.contains(id) {
        Some("tried"@)
    } else {
        obstacle(account, c.keys, c.now)
    }
}

/// The reading of the accounts that cannot be chosen.
pub open spec fn blocked_reader(c: ChoiceV) -> spec_fn(Jv) -> Option<Jv> {
    |account: Jv|
        match id_in(account) {
            Some(id) => match blocked_for(account, id, c) {
                Some(reason) => Some(
                    Jv::obj().put("id"@, Jv::Str(id)).put(
                        "name"@,
                        Jv::Str(name_of(account, id)),
                    ).put("reason"@, Jv::Str(reason)),
                ),
                None => None,
            },
            None => None,
        }
}

/// Accounts that can be chosen.
pub open spec fn unblocked(c: ChoiceV) -> spec_fn(Jv) -> bool {
    |account: Jv|
        match id_in(account) {
            Some(id) => blocked_for(account, id, c) is None,
            None => false,
        }
}

/// How a choice came about. How busy an account is does not count here.
pub open spec fn decision(accounts: Seq<Jv>, c: ChoiceV, fallback: int) -> Jv {
    let one = picked(accounts, c, fallback);
    Jv::obj().put(
        "picked"@,
        match one {
            Some(a) => a,
            None => Jv::Null,
        },
    ).put(
        "priority"@,
        match one {
            Some(a) => Jv::Int(priority_or(a, fallback)),
            None => Jv::Null,
        },
    ).put("candidateCount"@, Jv::Int(accounts.filter(unblocked(c)).len() as int)).put(
        "blocked"@,
        Jv::Arr(lists::chosen(accounts, blocked_reader(c))),
    ).put("total"@, Jv::Int(accounts.len() as int))
}

/// How a choice came about.
pub fn describe_route_decision(
    accounts: &Vec<Json>,
    keys: &CooldownKeys,
    exclude_ids: &Vec<String>,
    now: i64,
    fallback: i64,
) -> (r: Json)
    ensures
        r@ == decision(
            json::models(accounts@),
            (ChoiceV {
                keys: keys@,
                counts: Seq::empty(),
                tried: lists::views(exclude_ids@),
                now: now as int,
            }),
            fallback as int,
        ),
{
    let none: Vec<(String, usize)> = Vec::new();
    proof {
        assert(counts_view(none@) =~= Seq::empty());
    }
    let ghost all = json::models(accounts@);
    let ghost c = ChoiceV {
        keys: keys@,
        counts: Seq::empty(),
        tried: lists::views(exclude_ids@),
        now: now as int,
    };
    let ghost read = blocked_reader(c);
    let ghost open = unblocked(c);
    let mut blocked: Vec<Json> = Vec::new();
    let mut free: usize = 0;
    let mut i: usize = 0;
    proof {
        lists::chosen_all(all, read);
        lists::kept_all(all, open);
        assert(json::models(blocked@) =~= Seq::empty());
    }
    while i < accounts.len()
        invariant
            i <= accounts@.len(),
            all == json::models(accounts@),
            c == (ChoiceV {
                keys: keys@,
                counts: Seq::empty(),
                tried: lists::views(exclude_ids@),
                now: now as int,
            }),
            read == blocked_reader(c),
            open == unblocked(c),
            json::models(blocked@) == lists::chosen(all.take(i as int), read),
            free == all.take(i as int).filter(open).len(),
            free <= i,
        decreases accounts@.len() - i,
    {
        let one = &accounts[i];
        proof {
            lists::chosen_step(all, read, i as int);
            lists::kept_step(all, open, i as int);
            assert(all[i as int] == one@);
        }
        if let Some(id) = account_id(one) {
            let reason = if lists::contains_text(exclude_ids, id) {
                Some("tried")
            } else {
                account_usability(one, keys, now).reason
            };
            match reason {
                Some(why) => {
                    let row = Json::obj().with("id", Json::str(id)).with(
                        "name",
                        Json::Str(account_name(one, id)),
                    ).with("reason", Json::str(why));
                    proof {
                        json::models_push(blocked@, row);
                    }
                    blocked.push(row);
                },
                None => {
                    free = free + 1;
                },
            }
        }
        i = i + 1;
    }
    proof {
        assert(all.take(all.len() as int) =~= all);
        json::model_arr(blocked);
    }
    let one = pick_account_by_priority(accounts, keys, &none, exclude_ids, now, fallback);
    let priority = match one {
        Some(a) => Json::Int(priority_given(a, fallback)),
        None => Json::Null,
    };
    Json::obj().with("picked", json::copy_or_null(one)).with("priority", priority).with(
        "candidateCount",
        json::count(free),
    ).with("blocked", Json::Arr(blocked)).with("total", json::count(accounts.len()))
}

/// The accounts of what a store shows; none where it shows no list.
pub fn accounts_of(snapshot: &Json) -> (r: Vec<Json>)
    ensures
        json::models(r@) == store::items_in(snapshot@.get("accounts"@)),
{
    let none: Vec<Json> = Vec::new();
    proof {
        assert(json::models(none@) =~= Seq::empty());
    }
    match snapshot.get("accounts") {
        Some(v) => match v.as_arr() {
            Some(list) => json::copy_all(list),
            None => none,
        },
        None => none,
    }
}

} // verus!
