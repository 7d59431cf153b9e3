//! Which model of a provider a name stands for, and which providers carry a name.
//!
//! The providers that a request can go to and the name that is sent to them follow
//! from one and the same reading.

use crate::json::{Json, Jv};
use crate::json;
use crate::lists;
use crate::model_rules::store;
use crate::model_rules::{Mapping, MappingV, ModelRules, RulesV};
use crate::model_rules;
use crate::protocol;
use crate::providers::ProviderKind;
use crate::providers::catalog::{Listing, ListingV};
use crate::providers::catalog;
use crate::providers::cline::Pool;
use crate::providers::cline;
use crate::providers;
use crate::text;
use vstd::prelude::*;
use vstd::string::*;

verus! {

/// The model that is asked for at a provider, and how hard it is to think.
#[derive(Clone, Debug, PartialEq, Eq)]
pub struct WireTarget {
    pub model: String,
    pub reasoning: Option<String>,
}

/// The model that is asked for at a provider, and how hard it is to think.
#[verifier::ext_equal]
pub struct TargetV {
    pub model: Seq<char>,
    pub reasoning: Option<Seq<char>>,
}

impl View for WireTarget {
    type V = TargetV;

    open spec fn view(&self) -> TargetV {
        TargetV { model: self.model@, reasoning: json::opt_string(self.reasoning) }
    }
}

impl Default for WireTarget {
    /// Nothing.
    fn default() -> (r: WireTarget)
        ensures
            r@ == (TargetV { model: Seq::empty(), reasoning: None }),
    {
        let r = WireTarget { model: String::new(), reasoning: None };
        proof {
            assert(r@.model =~= Seq::empty());
        }
        r
    }
}

// -------------------------------------------------------------------- entries

/// Entries that are shown under that name.
pub open spec fn by_name(name: Seq<char>) -> spec_fn(Jv) -> bool {
    |e: Jv|
        match e.get("name"@) {
            Some(v) => text::same_fold(protocol::loose(v), name),
            None => false,
        }
}

/// The identifier of the model that a name stands for in a list: one with that
/// identifier goes before one that is shown under the name. It is written as in the
/// list.
pub open spec fn entry_named(list: Seq<Jv>, requested: Seq<char>) -> Option<Seq<char>> {
    let name = text::trimmed(requested);
    if name.len() == 0 {
        None
    } else {
        match lists::found(list, catalog::by_id(name)) {
            Some(e) => Some(catalog::entry_id(e)),
            None => match lists::found(list, by_name(name)) {
                Some(e) => Some(catalog::entry_id(e)),
                None => None,
            },
        }
    }
}

/// The identifier of the model that a name stands for in a list.
pub fn entry_id_in_manifest(list: &Vec<Json>, requested: &str) -> (r: Option<String>)
    ensures
        json::opt_string(r) == entry_named(json::models(list@), requested@),
{
    let name = text::trim(requested);
    if name.as_str().is_empty() {
        return None;
    }
    let ghost all = json::models(list@);
    let ghost want = catalog::by_id(name@);
    let ghost shown = by_name(name@);
    let mut i: usize = 0;
    while i < list.len()
        invariant
            i <= list@.len(),
            all == json::models(list@),
            want == catalog::by_id(name@),
            name@ == text::trimmed(requested@),
            name@.len() > 0,
            lists::first_where(all, want, 0) == lists::first_where(all, want, i as int),
        decreases list@.len() - i,
    {
        let id = catalog::model_id(&list[i]);
        assert(all[i as int] == list@[i as int]@);
        if text::eq_fold(id.as_str(), name.as_str()) {
            return Some(id);
        }
        i = i + 1;
    }
    let mut j: usize = 0;
    while j < list.len()
        invariant
            j <= list@.len(),
            all == json::models(list@),
            want == catalog::by_id(name@),
            shown == by_name(name@),
            name@ == text::trimmed(requested@),
            name@.len() > 0,
            lists::first_where(all, want, 0) == all.len(),
            lists::first_where(all, shown, 0) == lists::first_where(all, shown, j as int),
        decreases list@.len() - j,
    {
        assert(all[j as int] == list@[j as int]@);
        let fits = match list[j].get("name") {
            Some(v) => text::eq_fold(protocol::string_value(v).as_str(), name.as_str()),
            None => false,
        };
        if fits {
            return Some(catalog::model_id(&list[j]));
        }
        j = j + 1;
    }
    None
}

// -------------------------------------------------------------------- targets

/// The level of a mapping that may be missing.
pub open spec fn level_of(m: Option<MappingV>) -> Option<Seq<char>> {
    match m {
        Some(m) => m.reasoning,
        None => None,
    }
}

/// Whether a mapping that may be missing counts.
pub open spec fn counts(m: Option<MappingV>) -> bool {
    match m {
        Some(m) => m.enabled,
        None => false,
    }
}

/// Whether a mapping leads on from a name at a provider: it names another model, is
/// this provider's or no one's, and the one that holds there counts.
pub open spec fn leads_on(
    rules: RulesV,
    provider: Seq<char>,
    requested: Seq<char>,
    m: MappingV,
) -> bool {
    text::same_fold(m.alias, requested) && !text::same_fold(m.alias, m.target) && model_rules::open_to(
        m.provider,
        provider,
    ) && counts(rules.binding(provider, m.alias, m.target))
}

/// The reading of the mappings that lead from a name to a model in a list.
pub open spec fn lead_reader(
    rules: RulesV,
    provider: Seq<char>,
    list: Seq<Jv>,
    requested: Seq<char>,
) -> spec_fn(MappingV) -> Option<(MappingV, Seq<char>)> {
    |m: MappingV|
        if leads_on(rules, provider, requested, m) {
            match entry_named(list, m.target) {
                Some(target) => Some((m, target)),
                None => None,
            }
        } else {
            None
        }
}

/// The mappings that lead from a name to a model in a list.
pub open spec fn leads_of(
    rules: RulesV,
    provider: Seq<char>,
    list: Seq<Jv>,
    requested: Seq<char>,
) -> Seq<(MappingV, Seq<char>)> {
    lists::chosen(rules.mappings, lead_reader(rules, provider, list, requested))
}

/// Mappings of the provider itself to a model of its pool.
pub open spec fn own_pool(provider: Seq<char>) -> spec_fn((MappingV, Seq<char>)) -> bool {
    |c: (MappingV, Seq<char>)|
        c.0.provider is Some && (match cline::pool_named(provider) {
            Some(pool) => text::has_prefix(c.1, pool.channel()),
            None => false,
        })
}

/// Mappings of the provider itself.
pub open spec fn own_lead() -> spec_fn((MappingV, Seq<char>)) -> bool {
    |c: (MappingV, Seq<char>)| c.0.provider is Some
}

/// The mapping that is taken: one of the provider itself to a model of its pool, else
/// one of the provider itself, else the first.
pub open spec fn lead_taken(provider: Seq<char>, all: Seq<(MappingV, Seq<char>)>) -> Option<
    (MappingV, Seq<char>),
> {
    match lists::found(all, own_pool(provider)) {
        Some(c) => Some(c),
        None => match lists::found(all, own_lead()) {
            Some(c) => Some(c),
            None => if all.len() > 0 {
                Some(all[0])
            } else {
                None
            },
        },
    }
}

/// The model of a built-in provider that a name stands for: the one of that name
/// where the provider offers it, else one that a mapping leads to.
pub open spec fn target_of(
    rules: RulesV,
    kind: ProviderKind,
    list: Seq<Jv>,
    requested: Seq<char>,
) -> Option<TargetV> {
    let provider = providers::kind_name(kind);
    let own = entry_named(list, requested);
    if own is Some && rules.default_enabled(provider, own->0) {
        Some(
            TargetV {
                model: own->0,
                reasoning: level_of(rules.binding(provider, own->0, own->0)),
            },
        )
    } else {
        match lead_taken(provider, leads_of(rules, provider, list, requested)) {
            Some((m, target)) => Some(
                TargetV {
                    model: target,
                    reasoning: level_of(rules.binding(provider, m.alias, m.target)),
                },
            ),
            None => None,
        }
    }
}

/// The level of the mapping that holds at a provider.
fn level_at(rules: &ModelRules, provider: &str, alias: &str, target: &str) -> (r: Option<String>)
    ensures
        json::opt_string(r) == level_of(rules@.binding(provider@, alias@, target@)),
{
    match rules.binding(provider, alias, target) {
        Some(m) => model_rules::copy_text(&m.reasoning),
        None => None,
    }
}

/// Whether a mapping leads on from a name at a provider.
fn does_lead(rules: &ModelRules, provider: &str, requested: &str, m: &Mapping) -> (r: bool)
    ensures
        r == leads_on(rules@, provider@, requested@, m@),
{
    if !text::eq_fold(m.alias.as_str(), requested) || text::eq_fold(m.alias.as_str(), m.target.as_str()) {
        return false;
    }
    if !model_rules::is_open_to(&m.provider, provider) {
        return false;
    }
    match rules.binding(provider, m.alias.as_str(), m.target.as_str()) {
        Some(held) => held.enabled,
        None => false,
    }
}

/// The mappings that lead from a name to a model in a list.
fn find_leads(
    rules: &ModelRules,
    provider: &str,
    list: &Vec<Json>,
    requested: &str,
) -> (r: Vec<(Mapping, String)>)
    ensures
        lists::views(r@) == leads_of(rules@, provider@, json::models(list@), requested@),
{
    let ghost read = lead_reader(rules@, provider@, json::models(list@), requested@);
    let mut out: Vec<(Mapping, String)> = Vec::new();
    let mut i: usize = 0;
    proof {
        lists::chosen_all(rules@.mappings, read);
        assert(lists::views(out@) =~= Seq::empty());
    }
    while i < rules.mappings.len()
        invariant
            i <= rules.mappings@.len(),
            read == lead_reader(rules@, provider@, json::models(list@), requested@),
            lists::views(out@) == lists::chosen(rules@.mappings.take(i as int), read),
        decreases rules.mappings@.len() - i,
    {
        let m = &rules.mappings[i];
        proof {
            lists::chosen_step(rules@.mappings, read, i as int);
            assert(rules@.mappings[i as int] == m@);
        }
        if does_lead(rules, provider, requested, m) {
            if let Some(target) = entry_id_in_manifest(list, m.target.as_str()) {
                let one = (m.copy(), target);
                proof {
                    lists::views_push(out@, one);
                }
                out.push(one);
            }
        }
        i = i + 1;
    }
    out
}

/// The place of the mapping that is taken, else the length.
fn take_lead(provider: &str, all: &Vec<(Mapping, String)>) -> (r: usize)
    ensures
        match lead_taken(provider@, lists::views(all@)) {
            Some(c) => r < all@.len() && lists::views(all@)[r as int] == c,
            None => r == all@.len(),
        },
{
    let ghost list = lists::views(all@);
    let pool = Pool::from_provider_id(provider);
    if let Some(pool) = pool {
        let prefix = pool.target_prefix();
        let ghost pred = own_pool(provider@);
        let mut i: usize = 0;
        while i < all.len()
            invariant
                i <= all@.len(),
                list == lists::views(all@),
                pred == own_pool(provider@),
                cline::pool_named(provider@) == Some(pool),
                prefix@ == pool.channel(),
                lists::first_where(list, pred, 0) == lists::first_where(list, pred, i as int),
            decreases all@.len() - i,
        {
            assert(list[i as int] == all@[i as int]@);
            if all[i].0.provider.is_some() && text::starts_with(all[i].1.as_str(), prefix) {
                return i;
            }
            i = i + 1;
        }
    }
    proof {
        if pool is None {
            lists::found_says(list, own_pool(provider@));
        }
    }
    let ghost pred = own_lead();
    let mut j: usize = 0;
    while j < all.len()
        invariant
            j <= all@.len(),
            list == lists::views(all@),
            pred == own_lead(),
            lists::found(list, own_pool(provider@)) is None,
            lists::first_where(list, pred, 0) == lists::first_where(list, pred, j as int),
        decreases all@.len() - j,
    {
        assert(list[j as int] == all@[j as int]@);
        if all[j].0.provider.is_some() {
            return j;
        }
        j = j + 1;
    }
    0
}

/// The model of a built-in provider that a name stands for.
pub fn builtin_target(
    rules: &ModelRules,
    kind: ProviderKind,
    list: &Vec<Json>,
    requested: &str,
) -> (r: Option<WireTarget>)
    ensures
        r is Some <==> target_of(rules@, kind, json::models(list@), requested@) is Some,
        r matches Some(t) ==> target_of(rules@, kind, json::models(list@), requested@) == Some(t@),
{
    let provider = providers::kind_id(kind);
    if let Some(id) = entry_id_in_manifest(list, requested) {
        if rules.default_enabled(provider, id.as_str()) {
            let reasoning = level_at(rules, provider, id.as_str(), id.as_str());
            return Some(WireTarget { model: id, reasoning });
        }
    }
    let all = find_leads(rules, provider, list, requested);
    let place = take_lead(provider, &all);
    if place < all.len() {
        let (m, target) = &all[place];
        assert(lists::views(all@)[place as int] == (m@, target@));
        let reasoning = level_at(rules, provider, m.alias.as_str(), m.target.as_str());
        Some(WireTarget { model: target.clone(), reasoning })
    } else {
        None
    }
}

// ------------------------------------------------------------------- carriers

/// The reading of the providers that have a model. Where one has it by its
/// identifier, only those count that do.
pub open spec fn carrier_reader(rules: RulesV, name: Seq<char>, exact: bool) -> spec_fn(
    ListingV,
) -> Option<Seq<char>> {
    |l: ListingV|
        {
            let list = catalog::manifest(l.entries, rules, l.kind);
            let has = if exact {
                lists::any(list, catalog::by_id(name))
            } else {
                entry_named(list, name) is Some
            };
            if has {
                Some(providers::kind_name(l.kind))
            } else {
                None
            }
        }
}

/// Listings that have a model by its identifier.
pub open spec fn lists_id(rules: RulesV, name: Seq<char>) -> spec_fn(ListingV) -> bool {
    |l: ListingV| lists::any(catalog::manifest(l.entries, rules, l.kind), catalog::by_id(name))
}

/// The reading of the added providers that have a model.
pub open spec fn custom_carrier(name: Seq<char>) -> spec_fn(Jv) -> Option<Seq<char>> {
    |p: Jv|
        if lists::any(store::items_in(p.get("models"@)), catalog::by_id(name)) {
            Some(json::str_or_empty(p.get("id"@)))
        } else {
            None
        }
}

/// The providers that have a model, whether they offer it or not.
pub open spec fn carriers(
    listings: Seq<ListingV>,
    rules: RulesV,
    customs: Seq<Jv>,
    model: Seq<char>,
) -> Seq<Seq<char>> {
    let name = text::trimmed(model);
    if name.len() == 0 {
        Seq::empty()
    } else {
        let exact = lists::any(listings, lists_id(rules, name));
        lists::chosen(listings, carrier_reader(rules, name, exact)) + lists::chosen(
            customs,
            custom_carrier(name),
        )
    }
}

/// Whether an added provider has a model.
fn custom_carries(record: &Json, name: &str) -> (r: bool)
    ensures
        r == lists::any(store::items_in(record@.get("models"@)), catalog::by_id(name@)),
{
    match record.get("models") {
        Some(v) => match v.as_arr() {
            Some(entries) => catalog::has_id(entries, name),
            None => {
                assert(!lists::any(Seq::<Jv>::empty(), catalog::by_id(name@)));
                false
            },
        },
        None => false,
    }
}

/// The providers that have a model, whether they offer it or not; `customs` are the
/// records of the providers that a user has added.
pub fn providers_for_model(
    listings: &Vec<Listing>,
    rules: &ModelRules,
    customs: &Vec<Json>,
    model: &str,
) -> (r: Vec<String>)
    ensures
        lists::views(r@) == carriers(lists::views(listings@), rules@, json::models(customs@), model@),
{
    let name = text::trim(model);
    let mut out: Vec<String> = Vec::new();
    proof {
        assert(lists::views(out@) =~= Seq::empty());
    }
    if name.as_str().is_empty() {
        return out;
    }
    let ghost all = lists::views(listings@);
    let ghost pred = lists_id(rules@, name@);
    let mut exact = false;
    let mut i: usize = 0;
    while i < listings.len()
        invariant
            i <= listings@.len(),
            all == lists::views(listings@),
            pred == lists_id(rules@, name@),
            exact ==> lists::any(all, pred),
            !exact ==> forall|j: int| 0 <= j < i ==> !pred(#[trigger] all[j]),
        decreases listings@.len() - i,
    {
        let list = catalog::manifest_for(&listings[i].entries, rules, listings[i].kind);
        assert(all[i as int] == listings@[i as int]@);
        if catalog::has_id(&list, name.as_str()) {
            proof {
                assert(pred(all[i as int]));
            }
            exact = true;
        }
        i = i + 1;
    }
    let ghost read = carrier_reader(rules@, name@, exact);
    proof {
        lists::chosen_all(all, read);
    }
    let mut j: usize = 0;
    while j < listings.len()
        invariant
            j <= listings@.len(),
            all == lists::views(listings@),
            read == carrier_reader(rules@, name@, exact),
            lists::views(out@) == lists::chosen(all.take(j as int), read),
        decreases listings@.len() - j,
    {
        let kind = listings[j].kind;
        let list = catalog::manifest_for(&listings[j].entries, rules, kind);
        proof {
            lists::chosen_step(all, read, j as int);
            assert(all[j as int] == listings@[j as int]@);
        }
        let has = if exact {
            catalog::has_id(&list, name.as_str())
        } else {
            entry_id_in_manifest(&list, name.as_str()).is_some()
        };
        if has {
            let one = providers::kind_id(kind).to_owned();
            proof {
                lists::views_push(out@, one);
            }
            out.push(one);
        }
        j = j + 1;
    }
    let ghost first = lists::views(out@);
    let ghost records = json::models(customs@);
    let ghost read_custom = custom_carrier(name@);
    proof {
        lists::chosen_all(records, read_custom);
        assert(first + Seq::<Seq<char>>::empty() =~= first);
    }
    let mut k: usize = 0;
    while k < customs.len()
        invariant
            k <= customs@.len(),
            records == json::models(customs@),
            read_custom == custom_carrier(name@),
            lists::views(out@) == first + lists::chosen(records.take(k as int), read_custom),
        decreases customs@.len() - k,
    {
        proof {
            lists::chosen_step(records, read_custom, k as int);
            assert(records[k as int] == customs@[k as int]@);
        }
        if custom_carries(&customs[k], name.as_str()) {
            let one = json::str_or(customs[k].get("id"));
            proof {
                lists::views_push(out@, one);
                let so_far = lists::chosen(records.take(k as int), read_custom);
                assert((first + so_far).push(one@) =~= first + so_far.push(one@));
            }
            out.push(one);
        }
        k = k + 1;
    }
    out
}

/// The reading of the providers that offer a model under a name.
pub open spec fn forward_reader(rules: RulesV, model: Seq<char>) -> spec_fn(ListingV) -> Option<
    Seq<char>,
> {
    |l: ListingV|
        if target_of(rules, l.kind, catalog::manifest(l.entries, rules, l.kind), model) is Some {
            Some(providers::kind_name(l.kind))
        } else {
            None
        }
}

/// The providers that a request for a model can go to: the built-in ones that offer
/// it, then the added ones.
pub open spec fn forwarding(
    listings: Seq<ListingV>,
    rules: RulesV,
    custom_carriers: Seq<Seq<char>>,
    model: Seq<char>,
) -> Seq<Seq<char>> {
    lists::chosen(listings, forward_reader(rules, model)) + custom_carriers
}

/// The providers that a request for a model can go to; `custom_carriers` are the added
/// ones that offer it.
pub fn forwarding_providers(
    listings: &Vec<Listing>,
    rules: &ModelRules,
    custom_carriers: &Vec<String>,
    model: &str,
) -> (r: Vec<String>)
    ensures
        lists::views(r@) == forwarding(lists::views(listings@), rules@, lists::views(custom_carriers@), model@),
{
    let ghost all = lists::views(listings@);
    let ghost read = forward_reader(rules@, model@);
    let mut out: Vec<String> = Vec::new();
    proof {
        lists::chosen_all(all, read);
        assert(lists::views(out@) =~= Seq::empty());
    }
    let mut i: usize = 0;
    while i < listings.len()
        invariant
            i <= listings@.len(),
            all == lists::views(listings@),
            read == forward_reader(rules@, model@),
            lists::views(out@) == lists::chosen(all.take(i as int), read),
        decreases listings@.len() - i,
    {
        let kind = listings[i].kind;
        let list = catalog::manifest_for(&listings[i].entries, rules, kind);
        proof {
            lists::chosen_step(all, read, i as int);
            assert(all[i as int] == listings@[i as int]@);
        }
        if builtin_target(rules, kind, &list, model).is_some() {
            let one = providers::kind_id(kind).to_owned();
            proof {
                lists::views_push(out@, one);
            }
            out.push(one);
        }
        i = i + 1;
    }
    let ghost first = lists::views(out@);
    let ghost rest = lists::views(custom_carriers@);
    proof {
        assert(first + rest.take(0) =~= first);
    }
    let mut j: usize = 0;
    while j < custom_carriers.len()
        invariant
            j <= custom_carriers@.len(),
            rest == lists::views(custom_carriers@),
            lists::views(out@) == first + rest.take(j as int),
        decreases custom_carriers@.len() - j,
    {
        let one = custom_carriers[j].clone();
        proof {
            lists::views_push(out@, one);
            assert((first + rest.take(j as int)).push(rest[j as int]) =~= first + rest.take(
                j as int + 1,
            ));
        }
        out.push(one);
        j = j + 1;
    }
    proof {
        assert(rest.take(rest.len() as int) =~= rest);
    }
    out
}

/// Records of added providers that map from that name.
pub open spec fn custom_names(model: Seq<char>) -> spec_fn(Jv) -> bool {
    |p: Jv| lists::any(store::items_in(p.get("mappings"@)), alias_named(model))
}

/// Mappings of an added provider from that name.
pub open spec fn alias_named(model: Seq<char>) -> spec_fn(Jv) -> bool {
    |m: Jv|
        match json::opt_str(m.get("alias"@)) {
            Some(alias) => text::same_fold(alias, model),
            None => false,
        }
}

/// Whether a model is known but no provider offers it.
pub open spec fn blocked_everywhere(
    listings: Seq<ListingV>,
    rules: RulesV,
    customs: Seq<Jv>,
    custom_carriers: Seq<Seq<char>>,
    model: Seq<char>,
) -> bool {
    forwarding(listings, rules, custom_carriers, model).len() == 0 && (carriers(
        listings,
        rules,
        customs,
        model,
    ).len() > 0 || rules.has_alias(model) || lists::any(customs, custom_names(model)))
}

/// Whether an added provider maps from a name.
fn maps_from(record: &Json, model: &str) -> (r: bool)
    ensures
        r == custom_names(model@)(record@),
{
    let items = match record.get("mappings") {
        Some(v) => match v.as_arr() {
            Some(items) => items,
            None => {
                return false;
            },
        },
        None => {
            return false;
        },
    };
    let ghost all = json::models(items@);
    let ghost pred = alias_named(model@);
    let mut i: usize = 0;
    while i < items.len()
        invariant
            i <= items@.len(),
            all == json::models(items@),
            pred == alias_named(model@),
            store::items_in(record@.get("mappings"@)) == all,
            forall|j: int| 0 <= j < i ==> !pred(#[trigger] all[j]),
        decreases items@.len() - i,
    {
        assert(all[i as int] == items@[i as int]@);
        let fits = match items[i].get("alias") {
            Some(v) => match v.as_str() {
                Some(alias) => text::eq_fold(alias, model),
                None => false,
            },
            None => false,
        };
        if fits {
            proof {
                assert(pred(all[i as int]));
            }
            return true;
        }
        i = i + 1;
    }
    false
}

/// Whether a model is known but no provider offers it.
pub fn model_blocked_everywhere(
    listings: &Vec<Listing>,
    rules: &ModelRules,
    customs: &Vec<Json>,
    custom_carriers: &Vec<String>,
    model: &str,
) -> (r: bool)
    ensures
        r == blocked_everywhere(
            lists::views(listings@),
            rules@,
            json::models(customs@),
            lists::views(custom_carriers@),
            model@,
        ),
{
    if forwarding_providers(listings, rules, custom_carriers, model).len() > 0 {
        return false;
    }
    if providers_for_model(listings, rules, customs, model).len() > 0 || rules.has_alias(model) {
        return true;
    }
    let ghost all = json::models(customs@);
    let ghost pred = custom_names(model@);
    let mut i: usize = 0;
    while i < customs.len()
        invariant
            i <= customs@.len(),
            all == json::models(customs@),
            pred == custom_names(model@),
            forwarding(
                lists::views(listings@),
                rules@,
                lists::views(custom_carriers@),
                model@,
            ).len() == 0,
            forall|j: int| 0 <= j < i ==> !pred(#[trigger] all[j]),
        decreases customs@.len() - i,
    {
        if maps_from(&customs[i], model) {
            proof {
                assert(pred(all[i as int]));
            }
            return true;
        }
        i = i + 1;
    }
    false
}

/// The model that is asked for at a provider: the one that the name stands for there,
/// else the name itself.
pub open spec fn wire_target(
    listings: Seq<ListingV>,
    rules: RulesV,
    model: Seq<char>,
    provider: Seq<char>,
) -> TargetV {
    let name = text::trimmed(model);
    let target = match providers::kind_of(provider) {
        Some(kind) => target_of(rules, kind, catalog::manifest_among(listings, rules, kind), name),
        None => None,
    };
    match target {
        Some(t) => t,
        None => TargetV { model: name, reasoning: None },
    }
}

/// The model that is asked for at a provider.
pub fn wire_target_for_provider(
    listings: &Vec<Listing>,
    rules: &ModelRules,
    model: &str,
    provider_id: &str,
) -> (r: WireTarget)
    ensures
        r@ == wire_target(lists::views(listings@), rules@, model@, provider_id@),
{
    let name = text::trim(model);
    if let Some(kind) = providers::kind_from_id(provider_id) {
        let list = catalog::manifest_in(listings, rules, kind);
        if let Some(target) = builtin_target(rules, kind, &list, name.as_str()) {
            return target;
        }
    }
    WireTarget { model: name, reasoning: None }
}

// -------------------------------------------------------------- default model

/// The models of a list that a provider offers under their own names and that are
/// not among those found before; the first `n` are looked at.
pub open spec fn offered_of(
    before: Seq<Jv>,
    rules: RulesV,
    provider: Seq<char>,
    list: Seq<Jv>,
    n: nat,
) -> Seq<Jv>
    decreases n,
{
    if n == 0 {
        before
    } else {
        let so_far = offered_of(before, rules, provider, list, (n - 1) as nat);
        let id = catalog::entry_id(list[n - 1]);
        if id.len() > 0 && rules.default_enabled(provider, id) && !lists::any(so_far, catalog::by_id(id)) {
            so_far.push(list[n - 1])
        } else {
            so_far
        }
    }
}

/// The models that the default model may be one of, of the first `n` listings.
pub open spec fn default_models(listings: Seq<ListingV>, rules: RulesV, n: nat) -> Seq<Jv>
    decreases n,
{
    if n == 0 {
        Seq::empty()
    } else {
        let before = default_models(listings, rules, (n - 1) as nat);
        let l = listings[n - 1];
        if l.default_models {
            let list = catalog::manifest(l.entries, rules, l.kind);
            offered_of(before, rules, providers::kind_name(l.kind), list, list.len())
        } else {
            before
        }
    }
}

/// The models that the default model may be one of.
pub fn default_model_catalog(listings: &Vec<Listing>, rules: &ModelRules) -> (r: Vec<Json>)
    ensures
        json::models(r@) == default_models(lists::views(listings@), rules@, listings@.len()),
{
    let ghost all = lists::views(listings@);
    let mut out: Vec<Json> = Vec::new();
    proof {
        assert(json::models(out@) =~= Seq::empty());
    }
    let mut i: usize = 0;
    while i < listings.len()
        invariant
            i <= listings@.len(),
            all == lists::views(listings@),
            json::models(out@) == default_models(all, rules@, i as nat),
        decreases listings@.len() - i,
    {
        assert(all[i as int] == listings@[i as int]@);
        if listings[i].default_models {
            let kind = listings[i].kind;
            let provider = providers::kind_id(kind);
            let list = catalog::manifest_for(&listings[i].entries, rules, kind);
            let ghost before = json::models(out@);
            let ghost entries = json::models(list@);
            let mut j: usize = 0;
            while j < list.len()
                invariant
                    j <= list@.len(),
                    entries == json::models(list@),
                    provider@ == providers::kind_name(kind),
                    json::models(out@) == offered_of(before, rules@, provider@, entries, j as nat),
                decreases list@.len() - j,
            {
                let id = catalog::model_id(&list[j]);
                assert(entries[j as int] == list@[j as int]@);
                if !id.as_str().is_empty() && rules.default_enabled(provider, id.as_str())
                    && !catalog::has_id(&out, id.as_str()) {
                    let one = list[j].copy();
                    proof {
                        json::models_push(out@, one);
                    }
                    out.push(one);
                }
                j = j + 1;
            }
        }
        i = i + 1;
    }
    out
}

/// Whether a model may be the default model.
pub fn default_model_usable(listings: &Vec<Listing>, rules: &ModelRules, model: &str) -> (r: bool)
    ensures
        r == (entry_named(default_models(lists::views(listings@), rules@, listings@.len()), model@)
            is Some),
{
    entry_id_in_manifest(&default_model_catalog(listings, rules), model).is_some()
}

// ---------------------------------------------------------------------- laws

/// A name that stands for a model in a list stands for one that is there, and it is
/// written as there.
pub proof fn named_entry_is_listed(list: Seq<Jv>, requested: Seq<char>)
    ensures
        entry_named(list, requested) matches Some(id) ==> exists|i: int|
            0 <= i < list.len() && catalog::entry_id(#[trigger] list[i]) == id,
{
    let name = text::trimmed(requested);
    lists::first_where_says(list, catalog::by_id(name), 0);
    lists::first_where_says(list, by_name(name), 0);
}

/// What is asked for at a provider is a model that the provider has.
pub proof fn target_is_listed(
    rules: RulesV,
    kind: ProviderKind,
    list: Seq<Jv>,
    requested: Seq<char>,
)
    ensures
        target_of(rules, kind, list, requested) matches Some(t) ==> exists|i: int|
            0 <= i < list.len() && catalog::entry_id(#[trigger] list[i]) == t.model,
{
    let provider = providers::kind_name(kind);
    let read = lead_reader(rules, provider, list, requested);
    let all = leads_of(rules, provider, list, requested);
    named_entry_is_listed(list, requested);
    lists::chosen_says(rules.mappings, read);
    lead_is_one(provider, all);
    if let Some(c) = lead_taken(provider, all) {
        let k = choose|k: int| 0 <= k < all.len() && all[k] == c;
        let j = choose|j: int|
            0 <= j < rules.mappings.len() && read(#[trigger] rules.mappings[j]) == Some(all[k]);
        named_entry_is_listed(list, rules.mappings[j].target);
    }
}

proof fn lead_is_one(provider: Seq<char>, all: Seq<(MappingV, Seq<char>)>)
    ensures
        lead_taken(provider, all) matches Some(c) ==> all.contains(c),
{
    lists::first_where_says(all, own_pool(provider), 0);
    lists::first_where_says(all, own_lead(), 0);
}

/// A name stands for a model of a provider only through a binding that is open: the
/// model's own name, or a mapping that counts.
pub proof fn target_is_open(
    rules: RulesV,
    kind: ProviderKind,
    list: Seq<Jv>,
    requested: Seq<char>,
)
    ensures
        target_of(rules, kind, list, requested) matches Some(t) ==> (rules.default_enabled(
            providers::kind_name(kind),
            t.model,
        ) && entry_named(list, requested) == Some(t.model)) || exists|i: int|
            0 <= i < rules.mappings.len() && leads_on(
                rules,
                providers::kind_name(kind),
                requested,
                #[trigger] rules.mappings[i],
            ),
{
    let provider = providers::kind_name(kind);
    let read = lead_reader(rules, provider, list, requested);
    let all = leads_of(rules, provider, list, requested);
    lists::chosen_says(rules.mappings, read);
    lead_is_one(provider, all);
    if let Some(c) = lead_taken(provider, all) {
        let k = choose|k: int| 0 <= k < all.len() && all[k] == c;
        let j = choose|j: int|
            0 <= j < rules.mappings.len() && read(#[trigger] rules.mappings[j]) == Some(all[k]);
        assert(leads_on(rules, provider, requested, rules.mappings[j]));
    }
}

/// Closing or opening the names of models changes nothing about the mappings that
/// lead to them.
pub proof fn mappings_outlast_closing(
    rules: RulesV,
    other: RulesV,
    provider: Seq<char>,
    list: Seq<Jv>,
    requested: Seq<char>,
)
    requires
        rules.mappings == other.mappings,
    ensures
        leads_of(rules, provider, list, requested) == leads_of(other, provider, list, requested),
{
    lists::chosen_same(
        rules.mappings,
        lead_reader(rules, provider, list, requested),
        lead_reader(other, provider, list, requested),
    );
}

/// A provider that a request can go to is asked for the model because of which the
/// request can go there.
pub proof fn routed_is_sent(
    listings: Seq<ListingV>,
    rules: RulesV,
    model: Seq<char>,
    kind: ProviderKind,
    t: TargetV,
)
    requires
        text::trimmed(model) == model,
        target_of(rules, kind, catalog::manifest_among(listings, rules, kind), model) == Some(t),
    ensures
        wire_target(listings, rules, model, providers::kind_name(kind)) == t,
{
    providers::kind_found_again(kind);
}

} // verus!
