//! What is shown of the models: to clients only what they can ask for, to the user
//! everything.

use crate::json::{Json, Jv};
use crate::json;
use crate::lists;
use crate::model_rules::{MappingV, ModelRules, RulesV};
use crate::model_rules;
use crate::providers::ProviderKind;
use crate::providers::catalog::routing;
use crate::providers::catalog::{Offer, OfferV};
use crate::providers::catalog;
use crate::providers::custom::CustomOffer;
use crate::providers::custom;
use crate::providers;
use crate::text;
use crate::upstream::provider_loop::{KeyScope, ScopeV};
use crate::upstream::provider_loop;
use vstd::prelude::*;
use vstd::string::*;

verus! {

// -------------------------------------------------------------- public models

/// A model as clients can ask for it: the provider, the name, the model that the name
/// stands for there, and its entry in the list of the provider.
pub struct PublicModel {
    pub provider: String,
    pub name: String,
    pub model: String,
    pub entry: Json,
}

/// A model as clients can ask for it.
#[verifier::ext_equal]
pub struct PublicV {
    pub provider: Seq<char>,
    pub name: Seq<char>,
    pub model: Seq<char>,
    pub entry: Jv,
}

impl View for PublicModel {
    type V = PublicV;

    open spec fn view(&self) -> PublicV {
        PublicV {
            provider: self.provider@,
            name: self.name@,
            model: self.model@,
            entry: self.entry@,
        }
    }
}

/// The models found so far, and the names that are taken.
#[verifier::ext_equal]
pub struct PublicState {
    pub taken: Seq<Seq<char>>,
    pub found: Seq<PublicV>,
}

/// The reading of the names that are mapped at a provider.
pub open spec fn name_reader(provider: Seq<char>) -> spec_fn(MappingV) -> Option<Seq<char>> {
    |m: MappingV|
        if model_rules::open_to(m.provider, provider) {
            Some(m.alias)
        } else {
            None
        }
}

/// The identifiers of a list of models.
pub open spec fn ids_of(list: Seq<Jv>) -> Seq<Seq<char>> {
    Seq::new(list.len(), |i: int| catalog::entry_id(list[i]))
}

/// The names that may stand for a model at a provider.
pub open spec fn names_at(provider: Seq<char>, list: Seq<Jv>, rules: RulesV) -> Seq<Seq<char>> {
    ids_of(list) + lists::chosen(rules.mappings, name_reader(provider))
}

/// Entries with exactly that identifier.
pub open spec fn exactly(id: Seq<char>) -> spec_fn(Jv) -> bool {
    |e: Jv| catalog::entry_id(e) == id
}

/// The models after one name was looked at.
pub open spec fn name_step(
    st: PublicState,
    rules: RulesV,
    kind: ProviderKind,
    list: Seq<Jv>,
    name: Seq<char>,
) -> PublicState {
    match routing::target_of(rules, kind, list, name) {
        None => st,
        Some(t) => if st.taken.contains(text::lowercase(name)) {
            st
        } else {
            let taken = st.taken.push(text::lowercase(name));
            match lists::found(list, exactly(t.model)) {
                None => PublicState { taken, ..st },
                Some(entry) => PublicState {
                    taken,
                    found: st.found.push(
                        PublicV { provider: providers::kind_name(kind), name, model: t.model, entry },
                    ),
                },
            }
        },
    }
}

/// The models after the first `n` names were looked at.
pub open spec fn names_step(
    st: PublicState,
    rules: RulesV,
    kind: ProviderKind,
    list: Seq<Jv>,
    names: Seq<Seq<char>>,
    n: nat,
) -> PublicState
    decreases n,
{
    if n == 0 {
        st
    } else {
        name_step(
            names_step(st, rules, kind, list, names, (n - 1) as nat),
            rules,
            kind,
            list,
            names[n - 1],
        )
    }
}

/// The models after the first `n` offers were looked at.
pub open spec fn offers_step(rules: RulesV, active: Seq<OfferV>, n: nat) -> PublicState
    decreases n,
{
    if n == 0 {
        PublicState { taken: Seq::empty(), found: Seq::empty() }
    } else {
        let o = active[n - 1];
        let names = names_at(providers::kind_name(o.kind), o.entries, rules);
        names_step(
            offers_step(rules, active, (n - 1) as nat),
            rules,
            o.kind,
            o.entries,
            names,
            names.len(),
        )
    }
}

/// The models that clients can ask for at the built-in providers. A name is shown once,
/// for the first provider that has an open binding for it.
pub open spec fn public_models(active: Seq<OfferV>, rules: RulesV) -> Seq<PublicV> {
    offers_step(rules, active, active.len()).found
}

/// The names that may stand for a model at a provider.
fn find_names(provider: &str, list: &Vec<Json>, rules: &ModelRules) -> (r: Vec<String>)
    ensures
        lists::views(r@) == names_at(provider@, json::models(list@), rules@),
{
    let ghost ids = ids_of(json::models(list@));
    let mut out: Vec<String> = Vec::new();
    let mut i: usize = 0;
    while i < list.len()
        invariant
            i <= list@.len(),
            ids == ids_of(json::models(list@)),
            lists::views(out@) == ids.take(i as int),
        decreases list@.len() - i,
    {
        let one = catalog::model_id(&list[i]);
        proof {
            lists::views_push(out@, one);
            assert(one@ == ids[i as int]);
            assert(ids.take(i as int).push(ids[i as int]) =~= ids.take(i as int + 1));
        }
        out.push(one);
        i = i + 1;
    }
    let ghost read = name_reader(provider@);
    proof {
        assert(ids.take(ids.len() as int) =~= ids);
        lists::chosen_all(rules@.mappings, read);
        assert(ids + Seq::<Seq<char>>::empty() =~= ids);
    }
    let mut j: usize = 0;
    while j < rules.mappings.len()
        invariant
            j <= rules.mappings@.len(),
            read == name_reader(provider@),
            lists::views(out@) == ids + lists::chosen(rules@.mappings.take(j as int), read),
        decreases rules.mappings@.len() - j,
    {
        let m = &rules.mappings[j];
        proof {
            lists::chosen_step(rules@.mappings, read, j as int);
            assert(rules@.mappings[j as int] == m@);
        }
        if model_rules::is_open_to(&m.provider, provider) {
            let one = m.alias.clone();
            proof {
                lists::views_push(out@, one);
                let so_far = lists::chosen(rules@.mappings.take(j as int), read);
                assert((ids + so_far).push(one@) =~= ids + so_far.push(one@));
            }
            out.push(one);
        }
        j = j + 1;
    }
    out
}

/// The place of the entry with exactly that identifier, else the length.
fn exact_place(list: &Vec<Json>, id: &str) -> (r: usize)
    ensures
        r == lists::first_where(json::models(list@), exactly(id@), 0),
{
    let ghost all = json::models(list@);
    let ghost pred = exactly(id@);
    let mut i: usize = 0;
    while i < list.len()
        invariant
            i <= list@.len(),
            all == json::models(list@),
            pred == exactly(id@),
            lists::first_where(all, pred, 0) == lists::first_where(all, pred, i as int),
        decreases list@.len() - i,
    {
        let one = catalog::model_id(&list[i]);
        assert(all[i as int] == list@[i as int]@);
        if text::same(one.as_str(), id) {
            return i;
        }
        i = i + 1;
    }
    i
}

/// The models that clients can ask for at the built-in providers. A name is shown once,
/// for the first provider that has an open binding for it.
pub fn public_builtin_items(active: &Vec<&Offer>, rules: &ModelRules) -> (r: Vec<PublicModel>)
    ensures
        lists::views(r@) == public_models(lists::views(active@), rules@),
{
    let ghost all = lists::views(active@);
    let mut taken: Vec<String> = Vec::new();
    let mut out: Vec<PublicModel> = Vec::new();
    proof {
        assert(lists::views(taken@) =~= Seq::empty());
        assert(lists::views(out@) =~= Seq::empty());
    }
    let mut i: usize = 0;
    while i < active.len()
        invariant
            i <= active@.len(),
            all == lists::views(active@),
            (PublicState { taken: lists::views(taken@), found: lists::views(out@) }) == offers_step(
                rules@,
                all,
                i as nat,
            ),
        decreases active@.len() - i,
    {
        let offer = active[i];
        assert(all[i as int] == offer@);
        let kind = offer.kind;
        let provider = providers::kind_id(kind);
        let list = &offer.entries;
        let names = find_names(provider, list, rules);
        let ghost all_names = lists::views(names@);
        let ghost entries = json::models(list@);
        let ghost before = offers_step(rules@, all, i as nat);
        let mut j: usize = 0;
        while j < names.len()
            invariant
                j <= names@.len(),
                all_names == lists::views(names@),
                entries == json::models(list@),
                provider@ == providers::kind_name(kind),
                (PublicState { taken: lists::views(taken@), found: lists::views(out@) }) == names_step(
                    before,
                    rules@,
                    kind,
                    entries,
                    all_names,
                    j as nat,
                ),
            decreases names@.len() - j,
        {
            let name = names[j].as_str();
            assert(all_names[j as int] == name@);
            if let Some(t) = routing::builtin_target(rules, kind, list, name) {
                let key = text::lower(name);
                if !lists::contains_text(&taken, key.as_str()) {
                    let place = exact_place(list, t.model.as_str());
                    proof {
                        lists::views_push(taken@, key);
                    }
                    taken.push(key);
                    if place < list.len() {
                        let one = PublicModel {
                            provider: provider.to_owned(),
                            name: name.to_owned(),
                            model: t.model,
                            entry: list[place].copy(),
                        };
                        proof {
                            lists::views_push(out@, one);
                        }
                        out.push(one);
                    }
                }
            }
            j = j + 1;
        }
        i = i + 1;
    }
    out
}

/// An item of the list of models: the item of the model, under the name that clients
/// ask for.
pub open spec fn named_item(p: PublicV, item: Jv) -> Jv {
    let named = item.put("id"@, Jv::Str(p.name));
    if text::same_fold(p.name, p.model) {
        named
    } else {
        named.put("name"@, Jv::Str(p.name)).put("is_default"@, Jv::Bool(false))
    }
}

/// An item of the list of models, made from the item of the model.
pub fn public_item(p: &PublicModel, item: Json) -> (r: Json)
    ensures
        r@ == named_item(p@, item@),
{
    let mut out = item;
    if out.is_obj() {
        out.put("id", Json::Str(p.name.clone()));
        if !text::eq_fold(p.name.as_str(), p.model.as_str()) {
            out.put("name", Json::Str(p.name.clone()));
            out.put("is_default", Json::Bool(false));
        }
    }
    out
}

/// What holds of the models found so far: the names are different, they are among
/// those taken, and each has an open binding at its provider.
pub open spec fn all_good(st: PublicState, rules: RulesV, active: Seq<OfferV>) -> bool {
    &&& forall|i: int, j: int|
        0 <= i < j < st.found.len() ==> text::lowercase((#[trigger] st.found[i]).name) != text::lowercase(
            (#[trigger] st.found[j]).name,
        )
    &&& forall|i: int|
        0 <= i < st.found.len() ==> st.taken.contains(text::lowercase((#[trigger] st.found[i]).name))
    &&& forall|i: int|
        0 <= i < st.found.len() ==> open_somewhere((#[trigger] st.found[i]), rules, active)
}

/// Whether a name has an open binding at the provider it is shown for.
pub open spec fn open_somewhere(p: PublicV, rules: RulesV, active: Seq<OfferV>) -> bool {
    exists|k: int|
        0 <= k < active.len() && p.provider == providers::kind_name((#[trigger] active[k]).kind) && (
        match routing::target_of(rules, active[k].kind, active[k].entries, p.name) {
            Some(t) => t.model == p.model,
            None => false,
        })
}

proof fn names_are_good(
    st: PublicState,
    rules: RulesV,
    active: Seq<OfferV>,
    k: int,
    names: Seq<Seq<char>>,
    n: nat,
)
    requires
        0 <= k < active.len(),
        all_good(st, rules, active),
    ensures
        all_good(
            names_step(st, rules, active[k].kind, active[k].entries, names, n),
            rules,
            active,
        ),
    decreases n,
{
    if n > 0 {
        names_are_good(st, rules, active, k, names, (n - 1) as nat);
        let kind = active[k].kind;
        let list = active[k].entries;
        let before = names_step(st, rules, kind, list, names, (n - 1) as nat);
        let after = names_step(st, rules, kind, list, names, n);
        let name = names[n - 1];
        if let Some(t) = routing::target_of(rules, kind, list, name) {
            if !before.taken.contains(text::lowercase(name)) {
                assert(after.taken == before.taken.push(text::lowercase(name)));
                assert(after.taken[before.taken.len() as int] == text::lowercase(name));
                assert forall|i: int| 0 <= i < after.found.len() implies after.taken.contains(
                    text::lowercase((#[trigger] after.found[i]).name),
                ) by {
                    if i < before.found.len() {
                        let key = text::lowercase(before.found[i].name);
                        let j = choose|j: int|
                            0 <= j < before.taken.len() && before.taken[j] == key;
                        assert(after.taken[j] == key);
                    }
                }
                assert forall|i: int| 0 <= i < after.found.len() implies open_somewhere(
                    #[trigger] after.found[i],
                    rules,
                    active,
                ) by {
                    if i < before.found.len() {
                        assert(after.found[i] == before.found[i]);
                    } else {
                        assert(after.found[i].provider == providers::kind_name(active[k].kind));
                    }
                }
                assert forall|i: int, j: int| 0 <= i < j < after.found.len() implies text::lowercase(
                    (#[trigger] after.found[i]).name,
                ) != text::lowercase((#[trigger] after.found[j]).name) by {
                    assert(after.found[i] == before.found[i]);
                    assert(before.taken.contains(text::lowercase(before.found[i].name)));
                }
            }
        }
    }
}

proof fn offers_are_good(rules: RulesV, active: Seq<OfferV>, n: nat)
    requires
        n <= active.len(),
    ensures
        all_good(offers_step(rules, active, n), rules, active),
    decreases n,
{
    if n > 0 {
        offers_are_good(rules, active, (n - 1) as nat);
        let o = active[n - 1];
        let names = names_at(providers::kind_name(o.kind), o.entries, rules);
        names_are_good(
            offers_step(rules, active, (n - 1) as nat),
            rules,
            active,
            n - 1,
            names,
            names.len(),
        );
    }
}

/// Every name is shown once, whatever its case, and only where the provider has an open
/// binding for it: a name that is closed at a provider is not shown for it.
pub proof fn shown_once_and_open(rules: RulesV, active: Seq<OfferV>)
    ensures
        ({
            let all = public_models(active, rules);
            &&& forall|i: int, j: int|
                0 <= i < j < all.len() ==> text::lowercase((#[trigger] all[i]).name) != text::lowercase(
                    (#[trigger] all[j]).name,
                )
            &&& forall|i: int|
                0 <= i < all.len() ==> open_somewhere((#[trigger] all[i]), rules, active)
        }),
{
    offers_are_good(rules, active, active.len());
}

/// Whether a name is shown, whatever its case.
pub open spec fn shown_as(found: Seq<PublicV>, key: Seq<char>) -> bool {
    exists|i: int| 0 <= i < found.len() && text::lowercase((#[trigger] found[i]).name) == key
}

/// Whether every name that is taken is shown.
pub open spec fn all_shown(st: PublicState) -> bool {
    forall|j: int| 0 <= j < st.taken.len() ==> shown_as(st.found, #[trigger] st.taken[j])
}

proof fn names_are_shown(
    st: PublicState,
    rules: RulesV,
    kind: ProviderKind,
    list: Seq<Jv>,
    names: Seq<Seq<char>>,
    n: nat,
)
    requires
        n <= names.len(),
        all_shown(st),
    ensures
        all_shown(names_step(st, rules, kind, list, names, n)),
        forall|key: Seq<char>| #[trigger]
            shown_as(st.found, key) ==> shown_as(
                names_step(st, rules, kind, list, names, n).found,
                key,
            ),
        forall|i: int|
            0 <= i < n && routing::target_of(rules, kind, list, #[trigger] names[i]) is Some
                ==> shown_as(
                names_step(st, rules, kind, list, names, n).found,
                text::lowercase(names[i]),
            ),
    decreases n,
{
    if n > 0 {
        names_are_shown(st, rules, kind, list, names, (n - 1) as nat);
        let before = names_step(st, rules, kind, list, names, (n - 1) as nat);
        let after = names_step(st, rules, kind, list, names, n);
        let name = names[n - 1];
        assert forall|key: Seq<char>| #[trigger] shown_as(before.found, key) implies shown_as(
            after.found,
            key,
        ) by {
            let i = choose|i: int|
                0 <= i < before.found.len() && text::lowercase((#[trigger] before.found[i]).name)
                    == key;
            assert(after.found[i] == before.found[i]);
        }
        if let Some(t) = routing::target_of(rules, kind, list, name) {
            let key = text::lowercase(name);
            if before.taken.contains(key) {
                let j = choose|j: int| 0 <= j < before.taken.len() && before.taken[j] == key;
                assert(shown_as(before.found, before.taken[j]));
            } else {
                routing::target_is_listed(rules, kind, list, name);
                let at = choose|at: int|
                    0 <= at < list.len() && catalog::entry_id(#[trigger] list[at]) == t.model;
                lists::first_where_says(list, exactly(t.model), 0);
                assert(exactly(t.model)(list[at]));
                assert(after.found[before.found.len() as int].name == name);
                assert(shown_as(after.found, key));
                assert forall|j: int| 0 <= j < after.taken.len() implies shown_as(
                    after.found,
                    #[trigger] after.taken[j],
                ) by {
                    if j < before.taken.len() {
                        assert(after.taken[j] == before.taken[j]);
                        assert(shown_as(before.found, before.taken[j]));
                    }
                }
            }
        }
    }
}

proof fn offers_are_shown(rules: RulesV, active: Seq<OfferV>, n: nat)
    requires
        n <= active.len(),
    ensures
        all_shown(offers_step(rules, active, n)),
        forall|k: int, i: int|
            0 <= k < n && offers_name(rules, active[k], i) ==> shown_as(
                offers_step(rules, active, n).found,
                text::lowercase(#[trigger] name_at(rules, active[k], i)),
            ),
    decreases n,
{
    if n > 0 {
        offers_are_shown(rules, active, (n - 1) as nat);
        let before = offers_step(rules, active, (n - 1) as nat);
        let o = active[n - 1];
        let names = names_at(providers::kind_name(o.kind), o.entries, rules);
        names_are_shown(before, rules, o.kind, o.entries, names, names.len());
        assert forall|k: int, i: int| 0 <= k < n && offers_name(rules, active[k], i) implies shown_as(
            offers_step(rules, active, n).found,
            text::lowercase(#[trigger] name_at(rules, active[k], i)),
        ) by {
            if k < n - 1 {
                assert(shown_as(before.found, text::lowercase(name_at(rules, active[k], i))));
            } else {
                assert(names[i] == name_at(rules, o, i));
            }
        }
    }
}

/// One of the names that may stand for a model at a provider.
pub open spec fn name_at(rules: RulesV, o: OfferV, i: int) -> Seq<char> {
    names_at(providers::kind_name(o.kind), o.entries, rules)[i]
}

/// Whether that name has an open binding there.
pub open spec fn offers_name(rules: RulesV, o: OfferV, i: int) -> bool {
    &&& 0 <= i < names_at(providers::kind_name(o.kind), o.entries, rules).len()
    &&& routing::target_of(rules, o.kind, o.entries, name_at(rules, o, i)) is Some
}

/// An identifier or an alias that has an open binding at some provider is shown: nothing
/// that clients can ask for by such a name is missing from what they see.
pub proof fn open_names_are_shown(rules: RulesV, active: Seq<OfferV>, k: int, i: int)
    requires
        0 <= k < active.len(),
        offers_name(rules, active[k], i),
    ensures
        shown_as(public_models(active, rules), text::lowercase(name_at(rules, active[k], i))),
{
    offers_are_shown(rules, active, active.len());
}

// ------------------------------------------------------------------- the list

/// An item of the list of models, and whether the key of the request may use its
/// model.
pub struct ListItem {
    pub item: Json,
    pub allowed: bool,
}

/// An item of the list of models, and whether the key of the request may use its
/// model.
#[verifier::ext_equal]
pub struct ItemV {
    pub item: Jv,
    pub allowed: bool,
}

impl View for ListItem {
    type V = ItemV;

    open spec fn view(&self) -> ItemV {
        ItemV { item: self.item@, allowed: self.allowed }
    }
}

/// The reading of the items that are allowed.
pub open spec fn allowed_item() -> spec_fn(ItemV) -> Option<Jv> {
    |s: ItemV|
        if s.allowed {
            Some(s.item)
        } else {
            None
        }
}

/// The list of models, where it comes from, and when it was asked for.
pub struct ModelList {
    pub data: Vec<Json>,
    pub source: String,
    pub refreshed_at: i64,
}

/// Offers of providers that a key may use.
pub open spec fn offer_allowed(scope: Option<ScopeV>) -> spec_fn(OfferV) -> bool {
    |o: OfferV| provider_loop::scope_allows(scope, providers::kind_name(o.kind))
}

/// The active offers of the providers that a key may use.
pub fn scoped_offers<'a>(offers: &'a Vec<Offer>, scope: Option<&KeyScope>) -> (r: Vec<&'a Offer>)
    ensures
        lists::views(r@) == lists::views(offers@).filter(catalog::active_offer()).filter(offer_allowed(provider_loop::opt_scope(scope))),
{
    let active = catalog::active_manifests(offers);
    let ghost all = lists::views(active@);
    let ghost pred = offer_allowed(provider_loop::opt_scope(scope));
    let mut out: Vec<&'a Offer> = Vec::new();
    let mut i: usize = 0;
    proof {
        lists::kept_all(all, pred);
        assert(lists::views(out@) =~= Seq::empty());
    }
    while i < active.len()
        invariant
            i <= active@.len(),
            all == lists::views(active@),
            pred == offer_allowed(provider_loop::opt_scope(scope)),
            lists::views(out@) == all.take(i as int).filter(pred),
        decreases active@.len() - i,
    {
        let one = active[i];
        proof {
            lists::kept_step(all, pred, i as int);
            lists::views_push(out@, one);
            assert(all[i as int] == one@);
        }
        let fits = match scope {
            Some(s) => s.allows_provider(providers::kind_id(one.kind)),
            None => true,
        };
        if fits {
            out.push(one);
        }
        i = i + 1;
    }
    out
}

/// The list of models: those of the built-in providers, then those of the added ones
/// whose names are still free. Where an added provider has given something, the list
/// comes from several.
pub fn models_response(
    active: &Vec<&Offer>,
    items: &Vec<ListItem>,
    customs: &Vec<CustomOffer>,
    scope: Option<&KeyScope>,
) -> (r: ModelList)
    ensures
        ({
            let builtin = lists::chosen(lists::views(items@), allowed_item());
            let all = custom::appended(builtin, lists::views(customs@), provider_loop::opt_scope(scope));
            let (source, refreshed_at) = catalog::source_of(lists::views(active@));
            &&& json::models(r.data@) == all
            &&& r.source@ == (if all.len() > builtin.len() {
                "aggregate"@
            } else {
                source
            })
            &&& r.refreshed_at == refreshed_at
        }),
{
    let (source, refreshed_at) = catalog::aggregate_source(active);
    let ghost all = lists::views(items@);
    let ghost read = allowed_item();
    let mut data: Vec<Json> = Vec::new();
    let mut i: usize = 0;
    proof {
        lists::chosen_all(all, read);
        assert(json::models(data@) =~= Seq::empty());
    }
    while i < items.len()
        invariant
            i <= items@.len(),
            all == lists::views(items@),
            read == allowed_item(),
            json::models(data@) == lists::chosen(all.take(i as int), read),
        decreases items@.len() - i,
    {
        proof {
            lists::chosen_step(all, read, i as int);
            assert(all[i as int] == items@[i as int]@);
        }
        if items[i].allowed {
            let one = items[i].item.copy();
            proof {
                json::models_push(data@, one);
            }
            data.push(one);
        }
        i = i + 1;
    }
    let count = data.len();
    custom::append_models_response(customs, scope, &mut data);
    let source = if data.len() > count {
        "aggregate".to_owned()
    } else {
        source.to_owned()
    };
    ModelList { data, source, refreshed_at }
}

/// Whether there is a provider that requests can go to and that has models.
pub fn has_available_providers(offers: &Vec<Offer>) -> (r: bool)
    ensures
        r == lists::any(lists::views(offers@), catalog::active_offer()),
{
    let ghost all = lists::views(offers@);
    let mut i: usize = 0;
    while i < offers.len()
        invariant
            i <= offers@.len(),
            all == lists::views(offers@),
            forall|j: int| 0 <= j < i ==> !catalog::active_offer()(#[trigger] all[j]),
        decreases offers@.len() - i,
    {
        assert(all[i as int] == offers@[i as int]@);
        if catalog::provider_available(offers[i].accounts, offers[i].environment)
            && offers[i].entries.len() > 0 {
            proof {
                assert(catalog::active_offer()(all[i as int]));
            }
            return true;
        }
        i = i + 1;
    }
    false
}

/// The names in a list of models.
pub fn advertised_model_ids(data: &Vec<Json>) -> (r: Vec<String>)
    ensures
        lists::views(r@) == ids_of(json::models(data@)),
{
    let ghost ids = ids_of(json::models(data@));
    let mut out: Vec<String> = Vec::new();
    let mut i: usize = 0;
    while i < data.len()
        invariant
            i <= data@.len(),
            ids == ids_of(json::models(data@)),
            lists::views(out@) == ids.take(i as int),
        decreases data@.len() - i,
    {
        let one = catalog::model_id(&data[i]);
        proof {
            lists::views_push(out@, one);
            assert(one@ == ids[i as int]);
            assert(ids.take(i as int).push(ids[i as int]) =~= ids.take(i as int + 1));
        }
        out.push(one);
        i = i + 1;
    }
    proof {
        assert(ids.take(ids.len() as int) =~= ids);
    }
    out
}

/// Whether a list of models has a name.
pub fn advertised_manifest_contains(data: &Vec<Json>, model: &str) -> (r: bool)
    ensures
        r == model_rules::listed(ids_of(json::models(data@)), model@),
{
    let r = catalog::has_id(data, model);
    proof {
        let all = json::models(data@);
        let ids = ids_of(all);
        if r {
            let i = choose|i: int| 0 <= i < all.len() && catalog::by_id(model@)(#[trigger] all[i]);
            assert(text::same_fold(ids[i], model@));
        }
        if model_rules::listed(ids, model@) {
            let i = choose|i: int| 0 <= i < ids.len() && text::same_fold(#[trigger] ids[i], model@);
            assert(catalog::by_id(model@)(all[i]));
        }
    }
    r
}

// ------------------------------------------------------------------- sessions

/// The name that a user gave an added provider.
pub open spec fn given_name(labels: Seq<(Seq<char>, Seq<char>)>, id: Seq<char>) -> Option<
    Seq<char>,
> {
    match lists::found(labels, |l: (Seq<char>, Seq<char>)| l.0 == id) {
        Some(l) => Some(l.1),
        None => None,
    }
}

/// An item of the list of models as the interface shows it.
pub open spec fn session_item(item: Jv, labels: Seq<(Seq<char>, Seq<char>)>) -> Jv {
    let provider = json::str_or_empty(item.get("owned_by"@));
    let is_default = match item.get("is_default"@) {
        Some(v) => v,
        None => Jv::Bool(false),
    };
    item.put("providerLabel"@, Jv::Str(providers::shown_name(provider, given_name(labels, provider)))).put(
        "provider"@,
        Jv::Str(provider),
    ).put("isDefault"@, is_default)
}

/// The change of items for the interface.
pub open spec fn session_view(labels: Seq<(Seq<char>, Seq<char>)>) -> spec_fn(Jv) -> Jv {
    |item: Jv| session_item(item, labels)
}

/// The name that a user gave an added provider.
pub(crate) fn find_label<'a>(labels: &'a Vec<(String, String)>, id: &str) -> (r: Option<&'a str>)
    ensures
        json::opt_text(r) == given_name(lists::views(labels@), id@),
{
    let ghost all = lists::views(labels@);
    let ghost pred = |l: (Seq<char>, Seq<char>)| l.0 == id@;
    let mut i: usize = 0;
    while i < labels.len()
        invariant
            i <= labels@.len(),
            all == lists::views(labels@),
            pred == (|l: (Seq<char>, Seq<char>)| l.0 == id@),
            lists::first_where(all, pred, 0) == lists::first_where(all, pred, i as int),
        decreases labels@.len() - i,
    {
        assert(all[i as int] == labels@[i as int]@);
        if text::same(labels[i].0.as_str(), id) {
            return Some(labels[i].1.as_str());
        }
        i = i + 1;
    }
    None
}

/// The list of models as the interface shows it; `labels` are the names that a user gave
/// the added providers.
pub fn session_models(data: &Vec<Json>, labels: &Vec<(String, String)>) -> (r: Vec<Json>)
    ensures
        json::models(r@) == lists::mapped(json::models(data@), session_view(lists::views(labels@))),
{
    let ghost want = lists::mapped(json::models(data@), session_view(lists::views(labels@)));
    let mut out: Vec<Json> = Vec::new();
    let mut i: usize = 0;
    while i < data.len()
        invariant
            i <= data@.len(),
            want == lists::mapped(json::models(data@), session_view(lists::views(labels@))),
            json::models(out@) == want.take(i as int),
        decreases data@.len() - i,
    {
        let mut item = data[i].copy();
        let provider = json::str_or(item.get("owned_by"));
        let is_default = match item.get("is_default") {
            Some(v) => v.copy(),
            None => Json::Bool(false),
        };
        let label = providers::label_of(provider.as_str(), find_label(labels, provider.as_str()));
        if item.is_obj() {
            item.put("providerLabel", Json::Str(label));
            item.put("provider", Json::Str(provider));
            item.put("isDefault", is_default);
        }
        proof {
            json::models_push(out@, item);
            assert(item@ == want[i as int]);
            assert(want.take(i as int).push(want[i as int]) =~= want.take(i as int + 1));
        }
        out.push(item);
        i = i + 1;
    }
    proof {
        assert(want.take(want.len() as int) =~= want);
    }
    out
}

} // verus!
