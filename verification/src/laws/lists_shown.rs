//! The lists of models that are shown, and the providers that they lead to.

use crate::json::Jv;
use crate::json;
use crate::laws::{holds, list_in};
use crate::lists;
use crate::model_rules::{MappingV, RulesV};
use crate::model_rules::reasoning;
use crate::model_rules;
use crate::providers::catalog::manage;
use crate::providers::catalog::routing;
use crate::providers::catalog::view::PublicV;
use crate::providers::catalog::view;
use crate::providers::catalog::{ListingV, OfferV};
use crate::providers::catalog;
use crate::providers::router;
use crate::providers;
use crate::text;
use vstd::prelude::*;
use vstd::string::*;

verus! {

proof fn chosen_has<A, B>(s: Seq<A>, read: spec_fn(A) -> Option<B>, x: B)
    ensures
        lists::chosen(s, read).contains(x) <==> exists|i: int|
            0 <= i < s.len() && read(#[trigger] s[i]) == Some(x),
    decreases s.len(),
{
    if s.len() > 0 {
        let t = s.drop_last();
        chosen_has(t, read, x);
        let before = lists::chosen(t, read);
        let out = lists::chosen(s, read);
        let n = s.len() - 1;
        assert(s[n] == s.last());
        if let Some(b) = read(s.last()) {
            assert(out == before.push(b));
            assert(out[before.len() as int] == b);
            if before.contains(x) {
                let i = choose|i: int| 0 <= i < before.len() && before[i] == x;
                assert(out[i] == x);
            }
            if out.contains(x) {
                let i = choose|i: int| 0 <= i < out.len() && out[i] == x;
                if i < before.len() {
                    assert(before[i] == x);
                }
            }
        }
        if before.contains(x) {
            let i = choose|i: int| 0 <= i < t.len() && read(#[trigger] t[i]) == Some(x);
            assert(read(s[i]) == Some(x));
        }
        if exists|i: int| 0 <= i < s.len() && read(#[trigger] s[i]) == Some(x) {
            let i = choose|i: int| 0 <= i < s.len() && read(#[trigger] s[i]) == Some(x);
            if i < n {
                assert(read(t[i]) == Some(x));
            }
        }
    }
}

/// A model is forwarded to exactly those built-in providers that send it, and to the custom ones
/// that carry it.
pub proof fn models_go_where_they_are_sent(
    listings: Seq<ListingV>,
    rules: RulesV,
    customs: Seq<Seq<char>>,
    model: Seq<char>,
    provider: Seq<char>,
)
    ensures
        routing::forwarding(listings, rules, customs, model).contains(provider) <==> customs.contains(
            provider,
        ) || exists|i: int|
            #![trigger listings[i]]
            0 <= i < listings.len() && providers::kind_name(listings[i].kind) == provider
                && routing::target_of(
                rules,
                listings[i].kind,
                catalog::manifest(listings[i].entries, rules, listings[i].kind),
                model,
            ) is Some,
{
    let read = routing::forward_reader(rules, model);
    chosen_has(listings, read, provider);
    let first = lists::chosen(listings, read);
    let all = routing::forwarding(listings, rules, customs, model);
    assert(all == first + customs);
    if first.contains(provider) {
        let i = choose|i: int| 0 <= i < first.len() && first[i] == provider;
        assert(all[i] == provider);
    }
    if customs.contains(provider) {
        let i = choose|i: int| 0 <= i < customs.len() && customs[i] == provider;
        assert(all[first.len() + i] == provider);
    }
    if all.contains(provider) {
        let i = choose|i: int| 0 <= i < all.len() && all[i] == provider;
        if i < first.len() {
            assert(first[i] == provider);
        } else {
            assert(customs[i - first.len()] == provider);
        }
    }
    if exists|i: int|
        #![trigger listings[i]]
        0 <= i < listings.len() && providers::kind_name(listings[i].kind) == provider
            && routing::target_of(
            rules,
            listings[i].kind,
            catalog::manifest(listings[i].entries, rules, listings[i].kind),
            model,
        ) is Some {
        let i = choose|i: int|
            #![trigger listings[i]]
            0 <= i < listings.len() && providers::kind_name(listings[i].kind) == provider
                && routing::target_of(
                rules,
                listings[i].kind,
                catalog::manifest(listings[i].entries, rules, listings[i].kind),
                model,
            ) is Some;
        assert(read(listings[i]) == Some(provider));
    }
}

/// Where a request goes: without a model, or with one that nobody has, to the default provider;
/// else to all that send it, and nowhere where it is closed by all that have it.
pub proof fn requests_find_their_way(
    listings: Seq<ListingV>,
    rules: RulesV,
    customs: Seq<Jv>,
    carriers: Seq<Seq<char>>,
    model: Seq<char>,
)
    ensures
        ({
            let out = router::route_of(listings, rules, customs, carriers, model);
            let open = routing::forwarding(listings, rules, carriers, model);
            let had = routing::carriers(listings, rules, customs, model);
            &&& text::trimmed(model).len() == 0 ==> out == seq!["workbuddy"@]
            &&& text::trimmed(model).len() > 0 && open.len() > 0 ==> out == open
            &&& text::trimmed(model).len() > 0 && open.len() == 0 && had.len() > 0 ==> out.len() == 0
            &&& text::trimmed(model).len() > 0 && open.len() == 0 && had.len() == 0 ==> out == seq![
                "workbuddy"@,
            ]
        }),
{
}

/// A model in the list goes by the name under which it is shown; where that is another name than
/// its own, it is not the default.
pub proof fn shown_items_are_named(p: PublicV, item: Jv)
    requires
        item is Obj,
    ensures
        ({
            let out = view::named_item(p, item);
            &&& holds(out, "id"@, p.name)
            &&& !text::same_fold(p.name, p.model) ==> holds(out, "name"@, p.name) && out.get("is_default"@)
                == Some(Jv::Bool(false))
            &&& text::same_fold(p.name, p.model) ==> out.get("name"@) == item.get("name"@) && out.get(
                "is_default"@,
            ) == item.get("is_default"@)
        }),
{
    reveal_strlit("id");
    reveal_strlit("name");
    reveal_strlit("is_default");
    assert("id"@.len() == 2);
    assert("name"@.len() == 4);
    assert("is_default"@.len() == 10);
}

/// A model in the list of a session tells its provider, what that is called, and whether it is
/// the default.
pub proof fn session_items_tell_their_provider(
    item: Jv,
    owner: Seq<char>,
    labels: Seq<(Seq<char>, Seq<char>)>,
)
    requires
        item is Obj,
        holds(item, "owned_by"@, owner),
    ensures
        ({
            let out = view::session_item(item, labels);
            &&& holds(out, "provider"@, owner)
            &&& holds(
                out,
                "providerLabel"@,
                providers::shown_name(owner, view::given_name(labels, owner)),
            )
            &&& (item.get("is_default"@) matches Some(v) ==> out.get("isDefault"@) == Some(v))
            &&& item.get("is_default"@) is None ==> out.get("isDefault"@) == Some(Jv::Bool(false))
            &&& out.get("id"@) == item.get("id"@)
        }),
{
    reveal_strlit("id");
    reveal_strlit("provider");
    reveal_strlit("providerLabel");
    reveal_strlit("isDefault");
    assert("id"@.len() == 2);
    assert("provider"@.len() == 8);
    assert("providerLabel"@.len() == 13);
    assert("isDefault"@.len() == 9);
}

/// Where a list of models comes from: nowhere, from one provider, or from several.
pub proof fn sources_are_told(active: Seq<OfferV>)
    ensures
        active.len() == 0 ==> catalog::source_of(active) == ("none"@, 0int),
        active.len() == 1 ==> catalog::source_of(active) == (
            if active[0].remote {
                "remote"@
            } else {
                "builtin"@
            },
            active[0].refreshed_at,
        ),
        active.len() > 1 ==> catalog::source_of(active) == ("aggregate"@, active[0].refreshed_at),
{
}

proof fn row_keys()
    ensures
        "id"@.len() == 2,
        "name"@.len() == 4,
        "credits"@.len() == 7,
        "isDefault"@.len() == 9,
        "provider"@.len() == 8,
        "providerLabel"@.len() == 13,
        "source"@.len() == 6,
        "enabled"@.len() == 7,
        "aliases"@.len() == 7,
        "alias"@.len() == 5,
        "target"@.len() == 6,
        "reasoning"@.len() == 9,
        "dangling"@.len() == 8,
        "carried"@.len() == 7,
        "credits"@ != "enabled"@,
        "credits"@ != "aliases"@,
        "enabled"@ != "aliases"@,
        "enabled"@ != "carried"@,
        "isDefault"@ != "reasoning"@,
        "provider"@ != "dangling"@,
{
    reveal_strlit("id");
    reveal_strlit("name");
    reveal_strlit("credits");
    reveal_strlit("isDefault");
    reveal_strlit("provider");
    reveal_strlit("providerLabel");
    reveal_strlit("source");
    reveal_strlit("enabled");
    reveal_strlit("aliases");
    reveal_strlit("alias");
    reveal_strlit("target");
    reveal_strlit("reasoning");
    reveal_strlit("dangling");
    reveal_strlit("carried");
    assert("credits"@[0] == 'c');
    assert("enabled"@[0] == 'e');
    assert("aliases"@[0] == 'a');
    assert("carried"@[0] == 'c');
    assert("isDefault"@[0] == 'i');
    assert("reasoning"@[0] == 'r');
    assert("provider"@[0] == 'p');
    assert("dangling"@[0] == 'd');
}

/// A model in the managed list: its identifier, its provider, where it comes from, and whether
/// it is open there.
pub proof fn managed_models_are_told(rules: RulesV, o: OfferV, entry: Jv, id: Seq<char>)
    requires
        holds(entry, "id"@, id),
    ensures
        ({
            let row = manage::model_row(rules, o, entry);
            let provider = providers::kind_name(o.kind);
            &&& holds(row, "id"@, id)
            &&& holds(row, "provider"@, provider)
            &&& row.get("enabled"@) == Some(Jv::Bool(rules.default_enabled(provider, id)))
            &&& holds(
                row,
                "source"@,
                if rules.has_custom(provider, id) {
                    "manual"@
                } else if o.remote {
                    "remote"@
                } else {
                    "builtin"@
                },
            )
            &&& row.get("isDefault"@) == Some(
                Jv::Bool(entry.get("isDefault"@) == Some(Jv::Bool(true))),
            )
            &&& (entry.get("name"@) matches Some(v) ==> row.get("name"@) == Some(v))
            &&& (entry.get("credits"@) matches Some(v) ==> row.get("credits"@) == Some(v))
        }),
{
    row_keys();
}

/// The first row of the mappings of a model is its own: under its own name, open or not as the
/// model is, with the level of its own mapping.
pub proof fn own_row_comes_first(rules: RulesV, o: OfferV, entry: Jv, id: Seq<char>)
    requires
        holds(entry, "id"@, id),
    ensures
        ({
            let rows = manage::entry_rows(rules, o, entry);
            let provider = providers::kind_name(o.kind);
            let own = rules.binding(provider, id, id);
            &&& rows.len() >= 1
            &&& holds(rows[0], "alias"@, id)
            &&& holds(rows[0], "target"@, id)
            &&& holds(rows[0], "provider"@, provider)
            &&& rows[0].get("enabled"@) == Some(Jv::Bool(rules.default_enabled(provider, id)))
            &&& rows[0].get("isDefault"@) == Some(Jv::Bool(true))
            &&& rows[0].get("dangling"@) == Some(Jv::Bool(false))
            &&& rows[0].get("carried"@) == Some(Jv::Bool(true))
            &&& (own matches Some(m) ==> rows[0].get("reasoning"@) == (match m.reasoning {
                Some(level) => Some(Jv::Str(level)),
                None => Some(Jv::Null),
            }))
            &&& own is None ==> rows[0].get("reasoning"@) == Some(Jv::Null)
        }),
{
    row_keys();
}

/// A mapping that leads to no model in the list is told as such, with all that is kept of it.
pub proof fn loose_mappings_are_told(
    listings: Seq<ListingV>,
    rules: RulesV,
    customs: Seq<Jv>,
    active: Seq<OfferV>,
    m: MappingV,
)
    requires
        active.len() == 0,
    ensures
        manage::dangling_reader(listings, rules, customs, active)(m) matches Some(row) && {
            &&& holds(row, "alias"@, m.alias)
            &&& holds(row, "target"@, m.target)
            &&& row.get("enabled"@) == Some(Jv::Bool(m.enabled))
            &&& row.get("isDefault"@) == Some(Jv::Bool(text::same_fold(m.alias, m.target)))
            &&& row.get("dangling"@) == Some(Jv::Bool(true))
            &&& (m.provider matches Some(p) ==> holds(row, "provider"@, p))
            &&& (m.reasoning matches Some(l) ==> holds(row, "reasoning"@, l))
            &&& m.reasoning is None ==> row.get("reasoning"@) == Some(Jv::Null)
        },
{
    row_keys();
}

/// The managed list names the levels of thinking, from the weakest to the strongest.
pub proof fn levels_are_named(
    listings: Seq<ListingV>,
    rules: RulesV,
    customs: Seq<Jv>,
    active: Seq<OfferV>,
)
    ensures
        list_in(manage::managed(listings, rules, customs, active), "reasoningLevels"@) == seq![
            Jv::Str("minimal"@),
            Jv::Str("low"@),
            Jv::Str("medium"@),
            Jv::Str("high"@),
            Jv::Str("xhigh"@),
            Jv::Str("max"@),
        ],
{
    let levels = reasoning::levels();
    assert(list_in(manage::managed(listings, rules, customs, active), "reasoningLevels"@) == Seq::new(
        levels.len(),
        |i: int| Jv::Str(levels[i]),
    ));
    assert(Seq::new(levels.len(), |i: int| Jv::Str(levels[i])) =~= seq![
        Jv::Str("minimal"@),
        Jv::Str("low"@),
        Jv::Str("medium"@),
        Jv::Str("high"@),
        Jv::Str("xhigh"@),
        Jv::Str("max"@),
    ]);
}

/// A model of the list is offered by default where its provider has it open, and only once.
pub proof fn open_models_are_offered(
    before: Seq<Jv>,
    rules: RulesV,
    provider: Seq<char>,
    list: Seq<Jv>,
    n: nat,
)
    requires
        n < list.len(),
    ensures
        ({
            let so_far = routing::offered_of(before, rules, provider, list, n);
            let after = routing::offered_of(before, rules, provider, list, (n + 1) as nat);
            let id = catalog::entry_id(list[n as int]);
            let seen = exists|i: int|
                0 <= i < so_far.len() && text::same_fold(catalog::entry_id(#[trigger] so_far[i]), id);
            &&& id.len() > 0 && rules.default_enabled(provider, id) && !seen ==> after == so_far.push(
                list[n as int],
            )
            &&& id.len() == 0 || !rules.default_enabled(provider, id) || seen ==> after == so_far
        }),
{
    let so_far = routing::offered_of(before, rules, provider, list, n);
    let id = catalog::entry_id(list[n as int]);
    let pred = catalog::by_id(id);
    if exists|i: int|
        0 <= i < so_far.len() && text::same_fold(catalog::entry_id(#[trigger] so_far[i]), id) {
        let i = choose|i: int|
            0 <= i < so_far.len() && text::same_fold(catalog::entry_id(#[trigger] so_far[i]), id);
        assert(pred(so_far[i]));
        assert(lists::any(so_far, pred));
    } else {
        if lists::any(so_far, pred) {
            let i = choose|i: int| 0 <= i < so_far.len() && pred(#[trigger] so_far[i]);
            assert(text::same_fold(catalog::entry_id(so_far[i]), id));
        }
    }
}

/// A provider takes part where it has an account, or needs none, and has models.
pub proof fn offers_take_part(o: OfferV)
    ensures
        catalog::active_offer()(o) <==> (o.accounts > 0 || o.environment) && o.entries.len() > 0,
{
}

/// A model is closed everywhere where nobody sends it, though somebody has it, or it is a name
/// that leads on.
pub proof fn closed_everywhere(
    listings: Seq<ListingV>,
    rules: RulesV,
    customs: Seq<Jv>,
    carriers: Seq<Seq<char>>,
    model: Seq<char>,
)
    ensures
        routing::blocked_everywhere(listings, rules, customs, carriers, model) ==> routing::forwarding(
            listings,
            rules,
            carriers,
            model,
        ).len() == 0,
        routing::forwarding(listings, rules, carriers, model).len() == 0 && (routing::carriers(
            listings,
            rules,
            customs,
            model,
        ).len() > 0 || (exists|i: int|
            0 <= i < rules.mappings.len() && text::same_fold((#[trigger] rules.mappings[i]).alias, model)))
            ==> routing::blocked_everywhere(listings, rules, customs, carriers, model),
        customs.len() == 0 && rules.mappings.len() == 0 && routing::carriers(
            listings,
            rules,
            customs,
            model,
        ).len() == 0 ==> !routing::blocked_everywhere(listings, rules, customs, carriers, model),
{
    if exists|i: int|
        0 <= i < rules.mappings.len() && text::same_fold((#[trigger] rules.mappings[i]).alias, model) {
        let i = choose|i: int|
            0 <= i < rules.mappings.len() && text::same_fold((#[trigger] rules.mappings[i]).alias, model);
        assert(model_rules::with_alias(model)(rules.mappings[i]));
        assert(rules.has_alias(model));
    }
}

/// Which mappings are asked for: those of a name that are on, and those that lead to a model at
/// a provider.
pub proof fn mappings_are_found(rules: RulesV, model: Seq<char>, provider: Seq<char>, i: int)
    requires
        0 <= i < rules.mappings.len(),
    ensures
        ({
            let m = rules.mappings[i];
            &&& m.enabled && text::same_fold(m.alias, model) ==> rules.mappings.filter(
                model_rules::active_alias(model),
            ).contains(m)
            &&& text::same_fold(m.target, model) && (m.provider matches Some(p) ==> text::same_fold(
                p,
                provider,
            )) ==> rules.mappings.filter(model_rules::naming(provider, model)).contains(m)
        }),
        forall|k: int|
            0 <= k < rules.mappings.filter(model_rules::active_alias(model)).len() ==> (
            #[trigger] rules.mappings.filter(model_rules::active_alias(model))[k]).enabled
                && text::same_fold(
                rules.mappings.filter(model_rules::active_alias(model))[k].alias,
                model,
            ),
{
    lists::kept_says(rules.mappings, model_rules::active_alias(model));
    lists::kept_says(rules.mappings, model_rules::naming(provider, model));
    let m = rules.mappings[i];
    if m.enabled && text::same_fold(m.alias, model) {
        assert(model_rules::active_alias(model)(rules.mappings[i]));
    }
    if text::same_fold(m.target, model) && (m.provider matches Some(p) ==> text::same_fold(p, provider)) {
        assert(model_rules::naming(provider, model)(rules.mappings[i]));
    }
}

/// The providers are told with their names, what they are called, and their accounts.
pub proof fn providers_are_told(kind: providers::ProviderKind, count: int)
    ensures
        ({
            let e = providers::summary_entry(kind, count);
            &&& holds(e, "id"@, providers::kind_name(kind))
            &&& holds(e, "label"@, providers::kind_label(kind))
            &&& e.get("count"@) == Some(Jv::Int(count))
        }),
{
    reveal_strlit("id");
    reveal_strlit("label");
    reveal_strlit("count");
    assert("id"@.len() == 2);
    assert("label"@[0] == 'l');
    assert("count"@[0] == 'c');
    assert("label"@.len() == 5);
    assert("count"@.len() == 5);
}

/// The names of a provider stand under it, in order.
pub proof fn names_stand_under_their_provider(
    active: Seq<OfferV>,
    rules: RulesV,
    n: nat,
)
    requires
        0 < n <= active.len(),
    ensures
        ({
            let o = active[n - 1];
            let names = manage::names_of(view::public_models(seq![o], rules));
            let out = list_in(manage::builtin_names(active, rules, n), providers::kind_name(o.kind));
            let sorted = manage::ordered(names, names.len());
            &&& out.len() == sorted.len()
            &&& forall|i: int| 0 <= i < out.len() ==> #[trigger] out[i] == Jv::Str(sorted[i])
        }),
{
    builtin_names_are_members(active, rules, (n - 1) as nat);
}

proof fn builtin_names_are_members(active: Seq<OfferV>, rules: RulesV, n: nat)
    ensures
        manage::builtin_names(active, rules, n) is Obj,
    decreases n,
{
    if n > 0 {
        builtin_names_are_members(active, rules, (n - 1) as nat);
    }
}

/// An added provider leads on from a name where one of its mappings has it as its alias.
pub proof fn added_aliases_lead_on(record: Jv, list: Seq<Jv>, i: int, alias: Seq<char>, model: Seq<char>)
    requires
        record.get("mappings"@) == Some(Jv::Arr(list)),
        0 <= i < list.len(),
        list[i].get("alias"@) == Some(Jv::Str(alias)),
    ensures
        text::same_fold(alias, model) ==> routing::custom_names(model)(record),
        (forall|k: int|
            0 <= k < list.len() ==> ((#[trigger] list[k]).get("alias"@) matches Some(Jv::Str(a))
                && !text::same_fold(a, model))) ==> !routing::custom_names(model)(record),
        !routing::custom_names(model)(Jv::obj()),
{
    let pred = routing::alias_named(model);
    if text::same_fold(alias, model) {
        assert(pred(list[i]));
        assert(lists::any(list, pred));
    }
}

} // verus!
