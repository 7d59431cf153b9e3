//! What the user sees of the models: the names by provider, and every model with all
//! its bindings, open or closed.

use crate::json::{Json, Jv};
use crate::json;
use crate::lists;
use crate::model_rules::reasoning;
use crate::model_rules::store;
use crate::model_rules::{Mapping, MappingV, ModelRules, RulesV};
use crate::model_rules;
use crate::providers::catalog::routing;
use crate::providers::catalog::view::PublicV;
use crate::providers::catalog::view;
use crate::providers::catalog::{Listing, ListingV, Offer, OfferV};
use crate::providers::catalog;
use crate::providers::custom::{CustomOffer, CustomOfferV};
use crate::providers::custom;
use crate::providers;
use crate::text;
use vstd::prelude::*;
use vstd::string::*;

verus! {

// --------------------------------------------------------------------- order

/// Names that come after a name, without regard to case.
pub open spec fn after_name(name: Seq<char>) -> spec_fn(Seq<char>) -> bool {
    |other: Seq<char>| text::is_before(text::lowercase(name), text::lowercase(other))
}

/// An ordered list of names with one more, which comes after those that are equal to
/// it.
pub open spec fn placed(list: Seq<Seq<char>>, name: Seq<char>) -> Seq<Seq<char>> {
    list.insert(lists::first_where(list, after_name(name), 0), name)
}

/// The first `n` names in order.
pub open spec fn ordered(names: Seq<Seq<char>>, n: nat) -> Seq<Seq<char>>
    decreases n,
{
    if n == 0 {
        Seq::empty()
    } else {
        placed(ordered(names, (n - 1) as nat), names[n - 1])
    }
}

/// Whether a list of names is in order.
pub open spec fn in_name_order(list: Seq<Seq<char>>) -> bool {
    forall|i: int, j: int|
        0 <= i < j < list.len() ==> !text::is_before(
            text::lowercase(#[trigger] list[j]),
            text::lowercase(#[trigger] list[i]),
        )
}

/// The names in order.
fn order_names(names: &Vec<String>) -> (r: Vec<String>)
    ensures
        lists::views(r@) == ordered(lists::views(names@), names@.len()),
{
    let ghost all = lists::views(names@);
    let mut out: Vec<String> = Vec::new();
    let mut i: usize = 0;
    proof {
        assert(lists::views(out@) =~= Seq::empty());
    }
    while i < names.len()
        invariant
            i <= names@.len(),
            all == lists::views(names@),
            lists::views(out@) == ordered(all, i as nat),
        decreases names@.len() - i,
    {
        let key = text::lower(names[i].as_str());
        let ghost list = lists::views(out@);
        let ghost pred = after_name(all[i as int]);
        let mut j: usize = 0;
        let mut going = true;
        while going && j < out.len()
            invariant
                j <= out@.len(),
                list == lists::views(out@),
                pred == after_name(all[i as int]),
                key@ == text::lowercase(all[i as int]),
                going ==> lists::first_where(list, pred, 0) == lists::first_where(list, pred, j as int),
                !going ==> lists::first_where(list, pred, 0) == j,
            decreases out@.len() - j + (if going { 1int } else { 0int }),
        {
            let other = text::lower(out[j].as_str());
            assert(list[j as int] == out@[j as int]@);
            if text::stands_before(key.as_str(), other.as_str()) {
                going = false;
            } else {
                j = j + 1;
            }
        }
        let one = names[i].clone();
        proof {
            assert(j == lists::first_where(list, pred, 0));
            assert(lists::views(out@.insert(j as int, one)) =~= list.insert(j as int, one@));
        }
        out.insert(j, one);
        i = i + 1;
    }
    out
}

proof fn placed_is_ordered(list: Seq<Seq<char>>, name: Seq<char>)
    requires
        in_name_order(list),
    ensures
        in_name_order(placed(list, name)),
{
    let p = lists::first_where(list, after_name(name), 0);
    lists::first_where_says(list, after_name(name), 0);
    let r = placed(list, name);
    assert forall|i: int, j: int| 0 <= i < j < r.len() implies !text::is_before(
        text::lowercase(#[trigger] r[j]),
        text::lowercase(#[trigger] r[i]),
    ) by {
        let a = text::lowercase(r[i]);
        let b = text::lowercase(r[j]);
        if i == p {
            assert(r[i] == name);
            assert(r[j] == list[j - 1]);
            assert(after_name(name)(list[p]));
            let first = text::lowercase(list[p]);
            if text::is_before(b, a) {
                text::before_transitive(b, a, first);
                if j - 1 > p {
                    assert(!text::is_before(text::lowercase(list[j - 1]), text::lowercase(list[p])));
                } else {
                    text::before_total(first, first);
                }
            }
        } else if j == p {
            assert(r[i] == list[i]);
            assert(!after_name(name)(list[i]));
        } else {
            let x = if i < p {
                i
            } else {
                i - 1
            };
            let y = if j < p {
                j
            } else {
                j - 1
            };
            assert(r[i] == list[x]);
            assert(r[j] == list[y]);
        }
    }
}

/// The names are in order, and they are the names that were given.
pub proof fn ordered_says(names: Seq<Seq<char>>, n: nat)
    requires
        n <= names.len(),
    ensures
        in_name_order(ordered(names, n)),
        ordered(names, n).to_multiset() == names.take(n as int).to_multiset(),
    decreases n,
{
    broadcast use vstd::seq_lib::group_to_multiset_ensures;

    if n == 0 {
        assert(names.take(0) =~= Seq::empty());
    } else {
        ordered_says(names, (n - 1) as nat);
        let before = ordered(names, (n - 1) as nat);
        let one = names[n - 1];
        placed_is_ordered(before, one);
        let p = lists::first_where(before, after_name(one), 0);
        lists::first_where_says(before, after_name(one), 0);
        vstd::seq_lib::to_multiset_insert(before, p, one);
        assert(names.take(n as int) =~= names.take(n - 1).push(one));
    }
}

// ---------------------------------------------------------- names by provider

/// The names of models.
pub open spec fn names_of(list: Seq<PublicV>) -> Seq<Seq<char>> {
    Seq::new(list.len(), |i: int| list[i].name)
}

/// A list of texts as a value.
pub open spec fn text_list(list: Seq<Seq<char>>) -> Jv {
    Jv::Arr(Seq::new(list.len(), |i: int| Jv::Str(list[i])))
}

/// The names of the first `n` offers.
pub open spec fn builtin_names(active: Seq<OfferV>, rules: RulesV, n: nat) -> Jv
    decreases n,
{
    if n == 0 {
        Jv::obj()
    } else {
        let o = active[n - 1];
        let names = names_of(view::public_models(seq![o], rules));
        builtin_names(active, rules, (n - 1) as nat).put(
            providers::kind_name(o.kind),
            text_list(ordered(names, names.len())),
        )
    }
}

/// With the names of the first `n` offers of added providers.
pub open spec fn custom_names_of(start: Jv, active: Seq<CustomOfferV>, n: nat) -> Jv
    decreases n,
{
    if n == 0 {
        start
    } else {
        let names = view::ids_of(active[n - 1].entries);
        custom_names_of(start, active, (n - 1) as nat).put(
            active[n - 1].id,
            text_list(ordered(names, names.len())),
        )
    }
}

/// The names that clients can ask for at each provider, in order.
pub open spec fn names_by_provider(
    active: Seq<OfferV>,
    customs: Seq<CustomOfferV>,
    rules: RulesV,
) -> Jv {
    custom_names_of(builtin_names(active, rules, active.len()), customs, customs.len())
}

/// A list of texts as a value.
fn texts_value(list: &Vec<String>) -> (r: Json)
    ensures
        r@ == text_list(lists::views(list@)),
{
    let ghost want = Seq::new(list@.len(), |i: int| Jv::Str(lists::views(list@)[i]));
    let mut out: Vec<Json> = Vec::new();
    let mut i: usize = 0;
    while i < list.len()
        invariant
            i <= list@.len(),
            want == Seq::new(list@.len(), |i: int| Jv::Str(lists::views(list@)[i])),
            json::models(out@) == want.take(i as int),
        decreases list@.len() - i,
    {
        let one = Json::Str(list[i].clone());
        proof {
            json::models_push(out@, one);
            assert(want.take(i as int).push(want[i as int]) =~= want.take(i as int + 1));
        }
        out.push(one);
        i = i + 1;
    }
    proof {
        assert(want.take(want.len() as int) =~= want);
        json::model_arr(out);
        assert(want =~= text_list(lists::views(list@))->Arr_0);
    }
    Json::Arr(out)
}

/// The names that clients can ask for at each provider, in order.
pub fn models_by_provider(
    offers: &Vec<Offer>,
    customs: &Vec<CustomOffer>,
    rules: &ModelRules,
) -> (r: Json)
    ensures
        r@ == names_by_provider(
            lists::views(offers@).filter(catalog::active_offer()),
            lists::views(customs@).filter(custom::active_custom()),
            rules@,
        ),
{
    let active = catalog::active_manifests(offers);
    let ghost all = lists::views(active@);
    let mut out = Json::obj();
    let mut i: usize = 0;
    while i < active.len()
        invariant
            i <= active@.len(),
            all == lists::views(active@),
            out@ == builtin_names(all, rules@, i as nat),
        decreases active@.len() - i,
    {
        let one = active[i];
        let mut alone: Vec<&Offer> = Vec::new();
        alone.push(one);
        proof {
            assert(all[i as int] == one@);
            assert(lists::views(alone@) =~= seq![one@]);
        }
        let shown = view::public_builtin_items(&alone, rules);
        let ghost names_want = names_of(lists::views(shown@));
        let mut names: Vec<String> = Vec::new();
        let mut j: usize = 0;
        while j < shown.len()
            invariant
                j <= shown@.len(),
                names_want == names_of(lists::views(shown@)),
                lists::views(names@) == names_want.take(j as int),
            decreases shown@.len() - j,
        {
            let name = shown[j].name.clone();
            proof {
                lists::views_push(names@, name);
                assert(name@ == names_want[j as int]);
                assert(names_want.take(j as int).push(names_want[j as int]) =~= names_want.take(
                    j as int + 1,
                ));
            }
            names.push(name);
            j = j + 1;
        }
        proof {
            assert(names_want.take(names_want.len() as int) =~= names_want);
        }
        out.put(providers::kind_id(one.kind), texts_value(&order_names(&names)));
        i = i + 1;
    }
    let ghost start = out@;
    let added = custom::catalog_providers(customs);
    let ghost more = lists::views(added@);
    let mut k: usize = 0;
    while k < added.len()
        invariant
            k <= added@.len(),
            more == lists::views(added@),
            out@ == custom_names_of(start, more, k as nat),
        decreases added@.len() - k,
    {
        let one = added[k];
        assert(more[k as int] == one@);
        let names = view::advertised_model_ids(&one.entries);
        out.put(one.id.as_str(), texts_value(&order_names(&names)));
        k = k + 1;
    }
    out
}

// ----------------------------------------------------------------- management

/// A binding as the user sees it.
pub open spec fn binding_row(
    alias: Seq<char>,
    target: Seq<char>,
    provider: Option<Seq<char>>,
    enabled: bool,
    reasoning: Option<Seq<char>>,
    is_default: bool,
    dangling: bool,
    carried: bool,
) -> Jv {
    Jv::obj().put("alias"@, Jv::Str(alias)).put("target"@, Jv::Str(target)).put(
        "provider"@,
        store::text_or_null(provider),
    ).put("enabled"@, Jv::Bool(enabled)).put("reasoning"@, store::text_or_null(reasoning)).put(
        "isDefault"@,
        Jv::Bool(is_default),
    ).put("dangling"@, Jv::Bool(dangling)).put("carried"@, Jv::Bool(carried))
}

/// A binding as the user sees it.
fn make_row(
    alias: &str,
    target: &str,
    provider: &Option<String>,
    enabled: bool,
    reasoning: &Option<String>,
    is_default: bool,
    dangling: bool,
    carried: bool,
) -> (r: Json)
    ensures
        r@ == binding_row(
            alias@,
            target@,
            json::opt_string(*provider),
            enabled,
            json::opt_string(*reasoning),
            is_default,
            dangling,
            carried,
        ),
{
    Json::obj().with("alias", Json::str(alias)).with("target", Json::str(target)).with(
        "provider",
        store::or_null(provider),
    ).with("enabled", Json::Bool(enabled)).with("reasoning", store::or_null(reasoning)).with(
        "isDefault",
        Json::Bool(is_default),
    ).with("dangling", Json::Bool(dangling)).with("carried", Json::Bool(carried))
}

/// Whether a mapping leads to a model of a provider.
pub open spec fn touches(m: MappingV, provider: Seq<char>, id: Seq<char>) -> bool {
    text::same_fold(m.target, id) && model_rules::open_to(m.provider, provider)
}

/// Whether a mapping leads to a model of a provider.
fn does_touch(m: &Mapping, provider: &str, id: &str) -> (r: bool)
    ensures
        r == touches(m@, provider@, id@),
{
    model_rules::is_open_to(&m.provider, provider) && text::eq_fold(m.target.as_str(), id)
}

/// The further names of a model and their bindings.
#[verifier::ext_equal]
pub struct AliasRows {
    pub names: Seq<Seq<char>>,
    pub rows: Seq<Jv>,
}

/// The further names after the first `n` mappings were looked at. The model's own name
/// is none of them.
pub open spec fn alias_rows(rules: RulesV, provider: Seq<char>, id: Seq<char>, n: nat) -> AliasRows
    decreases n,
{
    if n == 0 {
        AliasRows { names: Seq::empty(), rows: Seq::empty() }
    } else {
        let before = alias_rows(rules, provider, id, (n - 1) as nat);
        let m = rules.mappings[n - 1];
        let held = rules.binding(provider, m.alias, id);
        if !touches(m, provider, id) || text::same_fold(m.alias, id) || model_rules::listed(before.names, m.alias)
            || held is None {
            before
        } else {
            AliasRows {
                names: before.names.push(m.alias),
                rows: before.rows.push(
                    binding_row(
                        held->0.alias,
                        id,
                        Some(provider),
                        held->0.enabled,
                        held->0.reasoning,
                        false,
                        false,
                        true,
                    ),
                ),
            }
        }
    }
}

/// The further names of a model and their bindings.
fn find_aliases(rules: &ModelRules, provider: &str, id: &str) -> (r: (Vec<String>, Vec<Json>))
    ensures
        (AliasRows { names: lists::views(r.0@), rows: json::models(r.1@) }) == alias_rows(
            rules@,
            provider@,
            id@,
            rules@.mappings.len(),
        ),
{
    let owner = Some(provider.to_owned());
    let mut names: Vec<String> = Vec::new();
    let mut rows: Vec<Json> = Vec::new();
    let mut i: usize = 0;
    proof {
        assert(lists::views(names@) =~= Seq::empty());
        assert(json::models(rows@) =~= Seq::empty());
    }
    while i < rules.mappings.len()
        invariant
            i <= rules.mappings@.len(),
            json::opt_string(owner) == Some(provider@),
            (AliasRows { names: lists::views(names@), rows: json::models(rows@) }) == alias_rows(
                rules@,
                provider@,
                id@,
                i as nat,
            ),
        decreases rules.mappings@.len() - i,
    {
        let m = &rules.mappings[i];
        assert(rules@.mappings[i as int] == m@);
        if does_touch(m, provider, id) && !text::eq_fold(m.alias.as_str(), id) && !model_rules::is_listed(
            names.as_slice(),
            m.alias.as_str(),
        ) {
            if let Some(held) = rules.binding(provider, m.alias.as_str(), id) {
                let one = m.alias.clone();
                let row = make_row(
                    held.alias.as_str(),
                    id,
                    &owner,
                    held.enabled,
                    &held.reasoning,
                    false,
                    false,
                    true,
                );
                proof {
                    lists::views_push(names@, one);
                    json::models_push(rows@, row);
                }
                names.push(one);
                rows.push(row);
            }
        }
        i = i + 1;
    }
    (names, rows)
}

/// Where a model comes from.
pub open spec fn origin(rules: RulesV, o: OfferV, id: Seq<char>) -> Seq<char> {
    if rules.has_custom(providers::kind_name(o.kind), id) {
        "manual"@
    } else if o.remote {
        "remote"@
    } else {
        "builtin"@
    }
}

/// A value that may be missing, else `null`.
pub open spec fn or_nothing(j: Option<Jv>) -> Jv {
    match j {
        Some(v) => v,
        None => Jv::Null,
    }
}

/// A model as the user sees it.
pub open spec fn model_row(rules: RulesV, o: OfferV, entry: Jv) -> Jv {
    let id = catalog::entry_id(entry);
    let provider = providers::kind_name(o.kind);
    let names = alias_rows(rules, provider, id, rules.mappings.len()).names;
    Jv::obj().put("id"@, Jv::Str(id)).put("name"@, or_nothing(entry.get("name"@))).put(
        "credits"@,
        or_nothing(entry.get("credits"@)),
    ).put("isDefault"@, Jv::Bool(entry.get("isDefault"@) == Some(Jv::Bool(true)))).put(
        "provider"@,
        Jv::Str(provider),
    ).put("providerLabel"@, Jv::Str(providers::shown_name(provider, None))).put(
        "source"@,
        Jv::Str(origin(rules, o, id)),
    ).put("enabled"@, Jv::Bool(rules.default_enabled(provider, id))).put(
        "aliases"@,
        text_list(names),
    )
}

/// The bindings of a model: its own name, then its further names.
pub open spec fn entry_rows(rules: RulesV, o: OfferV, entry: Jv) -> Seq<Jv> {
    let id = catalog::entry_id(entry);
    let provider = providers::kind_name(o.kind);
    seq![
        binding_row(
            id,
            id,
            Some(provider),
            rules.default_enabled(provider, id),
            routing::level_of(rules.binding(provider, id, id)),
            true,
            false,
            true,
        ),
    ] + alias_rows(rules, provider, id, rules.mappings.len()).rows
}

/// The models and bindings shown so far.
#[verifier::ext_equal]
pub struct ManageState {
    pub models: Seq<Jv>,
    pub rows: Seq<Jv>,
}

/// Models that a provider offers under their own names.
pub open spec fn shown_open(rules: RulesV, provider: Seq<char>) -> spec_fn(Jv) -> bool {
    |e: Jv| rules.default_enabled(provider, catalog::entry_id(e))
}

/// Models that a provider does not offer under their own names.
pub open spec fn shown_closed(rules: RulesV, provider: Seq<char>) -> spec_fn(Jv) -> bool {
    |e: Jv| !rules.default_enabled(provider, catalog::entry_id(e))
}

/// The models of a provider, those that it offers first.
pub open spec fn arranged(rules: RulesV, o: OfferV) -> Seq<Jv> {
    o.entries.filter(shown_open(rules, providers::kind_name(o.kind))) + o.entries.filter(
        shown_closed(rules, providers::kind_name(o.kind)),
    )
}

/// With the first `n` models of a list; one without an identifier is left out.
pub open spec fn rows_after(
    st: ManageState,
    rules: RulesV,
    o: OfferV,
    list: Seq<Jv>,
    n: nat,
) -> ManageState
    decreases n,
{
    if n == 0 {
        st
    } else {
        let before = rows_after(st, rules, o, list, (n - 1) as nat);
        let entry = list[n - 1];
        if catalog::entry_id(entry).len() == 0 {
            before
        } else {
            ManageState {
                models: before.models.push(model_row(rules, o, entry)),
                rows: before.rows + entry_rows(rules, o, entry),
            }
        }
    }
}

/// The models and bindings of the first `n` offers.
pub open spec fn offers_shown(rules: RulesV, active: Seq<OfferV>, n: nat) -> ManageState
    decreases n,
{
    if n == 0 {
        ManageState { models: Seq::empty(), rows: Seq::empty() }
    } else {
        let list = arranged(rules, active[n - 1]);
        rows_after(
            offers_shown(rules, active, (n - 1) as nat),
            rules,
            active[n - 1],
            list,
            list.len(),
        )
    }
}

/// Models that a mapping leads to.
pub open spec fn touched_by(m: MappingV, provider: Seq<char>) -> spec_fn(Jv) -> bool {
    |e: Jv| catalog::entry_id(e).len() > 0 && touches(m, provider, catalog::entry_id(e))
}

/// Offers that have a model which a mapping leads to.
pub open spec fn holds_target(m: MappingV) -> spec_fn(OfferV) -> bool {
    |o: OfferV| lists::any(o.entries, touched_by(m, providers::kind_name(o.kind)))
}

/// Whether a provider has the model that a mapping leads to, though it does not show it
/// now.
pub open spec fn carried(
    listings: Seq<ListingV>,
    rules: RulesV,
    customs: Seq<Jv>,
    m: MappingV,
) -> bool {
    match m.provider {
        Some(provider) => match providers::kind_of(provider) {
            Some(kind) => routing::entry_named(catalog::manifest_among(listings, rules, kind), m.target) is Some,
            None => false,
        },
        None => routing::carriers(listings, rules, customs, m.target).len() > 0,
    }
}

/// The reading of the mappings that lead to no model that is shown.
pub open spec fn dangling_reader(
    listings: Seq<ListingV>,
    rules: RulesV,
    customs: Seq<Jv>,
    active: Seq<OfferV>,
) -> spec_fn(MappingV) -> Option<Jv> {
    |m: MappingV|
        if lists::any(active, holds_target(m)) {
            None
        } else {
            Some(
                binding_row(
                    m.alias,
                    m.target,
                    m.provider,
                    m.enabled,
                    m.reasoning,
                    text::same_fold(m.alias, m.target),
                    true,
                    carried(listings, rules, customs, m),
                ),
            )
        }
}

/// Everything that the user sees of the models.
pub open spec fn managed(
    listings: Seq<ListingV>,
    rules: RulesV,
    customs: Seq<Jv>,
    active: Seq<OfferV>,
) -> Jv {
    let st = offers_shown(rules, active, active.len());
    let dangling = lists::chosen(
        rules.mappings,
        dangling_reader(listings, rules, customs, active),
    );
    Jv::obj().put("models"@, Jv::Arr(st.models)).put("mappings"@, Jv::Arr(st.rows + dangling)).put(
        "reasoningLevels"@,
        text_list(reasoning::levels()),
    )
}

/// The models of a provider, those that it offers first.
fn arrange<'a>(rules: &ModelRules, offer: &'a Offer) -> (r: Vec<&'a Json>)
    ensures
        lists::views(r@) == arranged(rules@, offer@),
{
    let provider = providers::kind_id(offer.kind);
    let ghost all = offer@.entries;
    let ghost open = shown_open(rules@, provider@);
    let ghost closed = shown_closed(rules@, provider@);
    let mut out: Vec<&'a Json> = Vec::new();
    let mut i: usize = 0;
    proof {
        lists::kept_all(all, open);
        lists::kept_all(all, closed);
        assert(lists::views(out@) =~= Seq::empty());
    }
    while i < offer.entries.len()
        invariant
            i <= offer.entries@.len(),
            all == offer@.entries,
            open == shown_open(rules@, provider@),
            lists::views(out@) == all.take(i as int).filter(open),
        decreases offer.entries@.len() - i,
    {
        let one = &offer.entries[i];
        proof {
            lists::kept_step(all, open, i as int);
            lists::views_push(out@, one);
            assert(all[i as int] == one@);
        }
        if rules.default_enabled(provider, catalog::model_id(one).as_str()) {
            out.push(one);
        }
        i = i + 1;
    }
    let ghost first = lists::views(out@);
    proof {
        assert(first + Seq::<Jv>::empty() =~= first);
    }
    let mut j: usize = 0;
    while j < offer.entries.len()
        invariant
            j <= offer.entries@.len(),
            all == offer@.entries,
            closed == shown_closed(rules@, provider@),
            lists::views(out@) == first + all.take(j as int).filter(closed),
        decreases offer.entries@.len() - j,
    {
        let one = &offer.entries[j];
        proof {
            lists::kept_step(all, closed, j as int);
            lists::views_push(out@, one);
            assert(all[j as int] == one@);
            let so_far = all.take(j as int).filter(closed);
            assert((first + so_far).push(one@) =~= first + so_far.push(one@));
        }
        if !rules.default_enabled(provider, catalog::model_id(one).as_str()) {
            out.push(one);
        }
        j = j + 1;
    }
    out
}

/// Adds a model and its bindings to what is shown.
fn show_entry(
    rules: &ModelRules,
    offer: &Offer,
    entry: &Json,
    shown: &mut Vec<Json>,
    rows: &mut Vec<Json>,
)
    requires
        catalog::entry_id(entry@).len() > 0,
    ensures
        json::models(final(shown)@) == json::models(old(shown)@).push(model_row(rules@, offer@, entry@)),
        json::models(final(rows)@) == json::models(old(rows)@) + entry_rows(rules@, offer@, entry@),
{
    let id = catalog::model_id(entry);
    let provider = providers::kind_id(offer.kind);
    let enabled = rules.default_enabled(provider, id.as_str());
    let level = match rules.binding(provider, id.as_str(), id.as_str()) {
        Some(m) => model_rules::copy_text(&m.reasoning),
        None => None,
    };
    let owner = Some(provider.to_owned());
    let first = make_row(
        id.as_str(),
        id.as_str(),
        &owner,
        enabled,
        &level,
        true,
        false,
        true,
    );
    let (names, more) = find_aliases(rules, provider, id.as_str());
    let ghost before = json::models(rows@);
    let ghost further = json::models(more@);
    proof {
        json::models_push(rows@, first);
    }
    rows.push(first);
    let ghost begun = json::models(rows@);
    proof {
        assert(begun + further.take(0) =~= begun);
    }
    let mut i: usize = 0;
    while i < more.len()
        invariant
            i <= more@.len(),
            further == json::models(more@),
            json::models(rows@) == begun + further.take(i as int),
        decreases more@.len() - i,
    {
        let one = more[i].copy();
        proof {
            json::models_push(rows@, one);
            assert((begun + further.take(i as int)).push(further[i as int]) =~= begun
                + further.take(i as int + 1));
        }
        rows.push(one);
        i = i + 1;
    }
    proof {
        assert(further.take(further.len() as int) =~= further);
        assert(json::models(rows@) =~= before + entry_rows(rules@, offer@, entry@));
    }
    let source = if rules.has_custom(provider, id.as_str()) {
        "manual"
    } else if offer.remote {
        "remote"
    } else {
        "builtin"
    };
    let is_default = match entry.get("isDefault") {
        Some(v) => match v.as_bool() {
            Some(b) => b,
            None => false,
        },
        None => false,
    };
    let row = Json::obj().with("id", Json::Str(id)).with(
        "name",
        json::copy_or_null(entry.get("name")),
    ).with("credits", json::copy_or_null(entry.get("credits"))).with(
        "isDefault",
        Json::Bool(is_default),
    ).with("provider", Json::str(provider)).with(
        "providerLabel",
        Json::Str(providers::label_of(provider, None)),
    ).with("source", Json::str(source)).with("enabled", Json::Bool(enabled)).with(
        "aliases",
        texts_value(&names),
    );
    proof {
        json::models_push(shown@, row);
    }
    shown.push(row);
}

/// Whether an active offer has the model that a mapping leads to.
fn is_attached(active: &Vec<&Offer>, m: &Mapping) -> (r: bool)
    ensures
        r == lists::any(lists::views(active@), holds_target(m@)),
{
    let ghost all = lists::views(active@);
    let mut i: usize = 0;
    while i < active.len()
        invariant
            i <= active@.len(),
            all == lists::views(active@),
            forall|j: int| 0 <= j < i ==> !holds_target(m@)(#[trigger] all[j]),
        decreases active@.len() - i,
    {
        let offer = active[i];
        let provider = providers::kind_id(offer.kind);
        assert(all[i as int] == offer@);
        let ghost entries = offer@.entries;
        let ghost pred = touched_by(m@, provider@);
        let mut k: usize = 0;
        while k < offer.entries.len()
            invariant
                k <= offer.entries@.len(),
                i < active@.len(),
                all == lists::views(active@),
                all[i as int] == offer@,
                entries == offer@.entries,
                provider@ == providers::kind_name(offer.kind),
                pred == touched_by(m@, provider@),
                forall|j: int| 0 <= j < k ==> !pred(#[trigger] entries[j]),
            decreases offer.entries@.len() - k,
        {
            let id = catalog::model_id(&offer.entries[k]);
            assert(entries[k as int] == offer.entries@[k as int]@);
            if !id.as_str().is_empty() && does_touch(m, provider, id.as_str()) {
                proof {
                    assert(pred(entries[k as int]));
                    assert(holds_target(m@)(all[i as int]));
                }
                return true;
            }
            k = k + 1;
        }
        i = i + 1;
    }
    false
}

/// Whether a provider has the model that a mapping leads to, though it does not show it
/// now.
fn is_carried(
    listings: &Vec<Listing>,
    rules: &ModelRules,
    customs: &Vec<Json>,
    m: &Mapping,
) -> (r: bool)
    ensures
        r == carried(lists::views(listings@), rules@, json::models(customs@), m@),
{
    match &m.provider {
        Some(provider) => match providers::kind_from_id(provider.as_str()) {
            Some(kind) => {
                let list = catalog::manifest_in(listings, rules, kind);
                routing::entry_id_in_manifest(&list, m.target.as_str()).is_some()
            },
            None => false,
        },
        None => routing::providers_for_model(listings, rules, customs, m.target.as_str()).len() > 0,
    }
}

/// Everything that the user sees of the models: each model that is offered with its own
/// name and its further names, open or closed, and the mappings that lead to no model
/// that is shown.
pub fn manage_view(
    listings: &Vec<Listing>,
    rules: &ModelRules,
    customs: &Vec<Json>,
    offers: &Vec<Offer>,
) -> (r: Json)
    ensures
        r@ == managed(
            lists::views(listings@),
            rules@,
            json::models(customs@),
            lists::views(offers@).filter(catalog::active_offer()),
        ),
{
    let active = catalog::active_manifests(offers);
    let ghost all = lists::views(active@);
    let mut shown: Vec<Json> = Vec::new();
    let mut rows: Vec<Json> = Vec::new();
    proof {
        assert(json::models(shown@) =~= Seq::empty());
        assert(json::models(rows@) =~= Seq::empty());
    }
    let mut i: usize = 0;
    while i < active.len()
        invariant
            i <= active@.len(),
            all == lists::views(active@),
            (ManageState { models: json::models(shown@), rows: json::models(rows@) }) == offers_shown(
                rules@,
                all,
                i as nat,
            ),
        decreases active@.len() - i,
    {
        let offer = active[i];
        assert(all[i as int] == offer@);
        let list = arrange(rules, offer);
        let ghost entries = lists::views(list@);
        let ghost before = offers_shown(rules@, all, i as nat);
        let mut j: usize = 0;
        while j < list.len()
            invariant
                j <= list@.len(),
                entries == lists::views(list@),
                (ManageState { models: json::models(shown@), rows: json::models(rows@) }) == rows_after(
                    before,
                    rules@,
                    offer@,
                    entries,
                    j as nat,
                ),
            decreases list@.len() - j,
        {
            let entry = list[j];
            assert(entries[j as int] == entry@);
            if !catalog::model_id(entry).as_str().is_empty() {
                show_entry(rules, offer, entry, &mut shown, &mut rows);
            }
            j = j + 1;
        }
        i = i + 1;
    }
    let ghost first = json::models(rows@);
    let ghost read = dangling_reader(lists::views(listings@), rules@, json::models(customs@), all);
    proof {
        lists::chosen_all(rules@.mappings, read);
        assert(first + Seq::<Jv>::empty() =~= first);
    }
    let mut k: usize = 0;
    while k < rules.mappings.len()
        invariant
            k <= rules.mappings@.len(),
            all == lists::views(active@),
            read == dangling_reader(lists::views(listings@), rules@, json::models(customs@), all),
            json::models(rows@) == first + lists::chosen(rules@.mappings.take(k as int), read),
        decreases rules.mappings@.len() - k,
    {
        let m = &rules.mappings[k];
        proof {
            lists::chosen_step(rules@.mappings, read, k as int);
            assert(rules@.mappings[k as int] == m@);
        }
        if !is_attached(&active, m) {
            let row = make_row(
                m.alias.as_str(),
                m.target.as_str(),
                &m.provider,
                m.enabled,
                &m.reasoning,
                text::eq_fold(m.alias.as_str(), m.target.as_str()),
                true,
                is_carried(listings, rules, customs, m),
            );
            proof {
                json::models_push(rows@, row);
                let so_far = lists::chosen(rules@.mappings.take(k as int), read);
                assert((first + so_far).push(row@) =~= first + so_far.push(row@));
            }
            rows.push(row);
        }
        k = k + 1;
    }
    proof {
        json::model_arr(shown);
        json::model_arr(rows);
    }
    let known = texts_value(&reasoning::reasoning_levels());
    Json::obj().with("models", Json::Arr(shown)).with("mappings", Json::Arr(rows)).with(
        "reasoningLevels",
        known,
    )
}

} // verus!
