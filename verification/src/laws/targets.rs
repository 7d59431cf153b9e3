//! Which model a request is sent with, and how hard it is asked to think.

use crate::json::Jv;
use crate::json;
use crate::laws::holds;
use crate::lists;
use crate::model_rules::{MappingV, RulesV};
use crate::model_rules;
use crate::protocol;
use crate::providers::ProviderKind;
use crate::providers::catalog::ListingV;
use crate::providers::catalog::routing::TargetV;
use crate::providers::catalog::routing;
use crate::providers::catalog;
use crate::providers;
use crate::text;
use vstd::prelude::*;

verus! {

/// Whether a mapping leads from a name to a name.
pub open spec fn maps(m: MappingV, from: Seq<char>, to: Seq<char>) -> bool {
    text::same_fold(m.alias, from) && text::same_fold(m.target, to)
}

/// Whether a mapping is one of a provider's own.
pub open spec fn belongs(m: MappingV, provider: Seq<char>) -> bool {
    m.provider matches Some(p) && text::same_fold(p, provider)
}

/// Whether no rule closes a model at a provider.
pub open spec fn stays_open(rules: RulesV, provider: Seq<char>, id: Seq<char>) -> bool {
    forall|i: int|
        0 <= i < rules.disabled.len() ==> !(text::same_fold((#[trigger] rules.disabled[i]).id, id) && (
        rules.disabled[i].provider matches Some(p) ==> text::same_fold(p, provider)))
}

/// Whether an entry of a list is the first that has that identifier.
pub open spec fn listed_at(list: Seq<Jv>, k: int, id: Seq<char>) -> bool {
    &&& 0 <= k < list.len()
    &&& holds(list[k], "id"@, id)
    &&& forall|i: int|
        0 <= i < k ==> ((#[trigger] list[i]).get("id"@) matches Some(Jv::Str(s)) && !text::same_fold(
            s,
            id,
        ))
}

proof fn entry_is_found(list: Seq<Jv>, k: int, id: Seq<char>, name: Seq<char>)
    requires
        listed_at(list, k, id),
        text::same_fold(id, text::trimmed(name)),
        text::trimmed(name).len() > 0,
    ensures
        routing::entry_named(list, name) == Some(id),
{
    let pred = catalog::by_id(text::trimmed(name));
    lists::first_where_says(list, pred, 0);
    assert(pred(list[k]));
    let i = lists::first_where(list, pred, 0);
    if i < k {
        assert(list[i].get("id"@) matches Some(Jv::Str(s)) && !text::same_fold(s, id));
        assert(pred(list[i]));
    }
}

proof fn own_binding_is_found(
    rules: RulesV,
    provider: Seq<char>,
    j: int,
    from: Seq<char>,
    to: Seq<char>,
)
    requires
        0 <= j < rules.mappings.len(),
        maps(rules.mappings[j], from, to),
        belongs(rules.mappings[j], provider),
        forall|i: int|
            0 <= i < rules.mappings.len() && i != j ==> !(maps(#[trigger] rules.mappings[i], from, to)
                && belongs(rules.mappings[i], provider)),
    ensures
        rules.binding(provider, from, to) == Some(rules.mappings[j]),
{
    let pred = model_rules::own_binding(provider, from, to);
    lists::first_where_says(rules.mappings, pred, 0);
    assert(pred(rules.mappings[j]));
    let i = lists::first_where(rules.mappings, pred, 0);
    assert(pred(rules.mappings[i]));
}

proof fn shared_binding_is_found(
    rules: RulesV,
    provider: Seq<char>,
    j: int,
    from: Seq<char>,
    to: Seq<char>,
)
    requires
        0 <= j < rules.mappings.len(),
        maps(rules.mappings[j], from, to),
        rules.mappings[j].provider is None,
        forall|i: int|
            0 <= i < rules.mappings.len() && i != j ==> !maps(#[trigger] rules.mappings[i], from, to),
    ensures
        rules.binding(provider, from, to) == Some(rules.mappings[j]),
{
    let own = model_rules::own_binding(provider, from, to);
    lists::first_where_says(rules.mappings, own, 0);
    let i = lists::first_where(rules.mappings, own, 0);
    if i < rules.mappings.len() {
        assert(own(rules.mappings[i]));
    }
    let pred = model_rules::shared_binding(from, to);
    lists::first_where_says(rules.mappings, pred, 0);
    assert(pred(rules.mappings[j]));
    let i = lists::first_where(rules.mappings, pred, 0);
    assert(pred(rules.mappings[i]));
}

proof fn no_binding_is_found(rules: RulesV, provider: Seq<char>, from: Seq<char>, to: Seq<char>)
    requires
        forall|i: int| 0 <= i < rules.mappings.len() ==> !maps(#[trigger] rules.mappings[i], from, to),
    ensures
        rules.binding(provider, from, to) is None,
{
    let own = model_rules::own_binding(provider, from, to);
    lists::first_where_says(rules.mappings, own, 0);
    let pred = model_rules::shared_binding(from, to);
    lists::first_where_says(rules.mappings, pred, 0);
    let i = lists::first_where(rules.mappings, own, 0);
    if i < rules.mappings.len() {
        assert(own(rules.mappings[i]));
    }
    let i = lists::first_where(rules.mappings, pred, 0);
    if i < rules.mappings.len() {
        assert(pred(rules.mappings[i]));
    }
}

proof fn open_is_not_disabled(rules: RulesV, provider: Seq<char>, id: Seq<char>)
    requires
        stays_open(rules, provider, id),
    ensures
        !rules.is_disabled(provider, id),
{
    assert forall|i: int| 0 <= i < rules.disabled.len() implies !model_rules::closing(provider, id)(
        #[trigger] rules.disabled[i],
    ) by {}
}

/// A listed, open model that a provider maps to itself is sent under its own name with the level
/// of that mapping.
pub proof fn own_level_is_used(
    rules: RulesV,
    kind: ProviderKind,
    list: Seq<Jv>,
    k: int,
    id: Seq<char>,
    requested: Seq<char>,
    j: int,
)
    requires
        listed_at(list, k, id),
        text::same_fold(id, text::trimmed(requested)),
        text::trimmed(requested).len() > 0,
        stays_open(rules, providers::kind_name(kind), id),
        0 <= j < rules.mappings.len(),
        maps(rules.mappings[j], id, id),
        belongs(rules.mappings[j], providers::kind_name(kind)),
        rules.mappings[j].enabled,
        forall|i: int|
            0 <= i < rules.mappings.len() && i != j ==> !(maps(#[trigger] rules.mappings[i], id, id)
                && belongs(rules.mappings[i], providers::kind_name(kind))),
    ensures
        routing::target_of(rules, kind, list, requested) matches Some(t) && t.model == id && t.reasoning
            == rules.mappings[j].reasoning,
{
    entry_is_found(list, k, id, requested);
    open_is_not_disabled(rules, providers::kind_name(kind), id);
    own_binding_is_found(rules, providers::kind_name(kind), j, id, id);
}

/// Where the provider has no mapping of its own, the level of the mapping for all is used.
pub proof fn shared_level_is_used(
    rules: RulesV,
    kind: ProviderKind,
    list: Seq<Jv>,
    k: int,
    id: Seq<char>,
    requested: Seq<char>,
    j: int,
)
    requires
        listed_at(list, k, id),
        text::same_fold(id, text::trimmed(requested)),
        text::trimmed(requested).len() > 0,
        stays_open(rules, providers::kind_name(kind), id),
        0 <= j < rules.mappings.len(),
        maps(rules.mappings[j], id, id),
        rules.mappings[j].provider is None,
        rules.mappings[j].enabled,
        forall|i: int|
            0 <= i < rules.mappings.len() && i != j ==> !maps(#[trigger] rules.mappings[i], id, id),
    ensures
        routing::target_of(rules, kind, list, requested) matches Some(t) && t.model == id && t.reasoning
            == rules.mappings[j].reasoning,
{
    entry_is_found(list, k, id, requested);
    open_is_not_disabled(rules, providers::kind_name(kind), id);
    shared_binding_is_found(rules, providers::kind_name(kind), j, id, id);
}

/// A listed, open model without a mapping is sent under its own name, with no level.
pub proof fn plain_model_goes_on(
    rules: RulesV,
    kind: ProviderKind,
    list: Seq<Jv>,
    k: int,
    id: Seq<char>,
    requested: Seq<char>,
)
    requires
        listed_at(list, k, id),
        text::same_fold(id, text::trimmed(requested)),
        text::trimmed(requested).len() > 0,
        stays_open(rules, providers::kind_name(kind), id),
        forall|i: int| 0 <= i < rules.mappings.len() ==> !maps(#[trigger] rules.mappings[i], id, id),
    ensures
        routing::target_of(rules, kind, list, requested) matches Some(t) && t.model == id && t.reasoning
            is None,
{
    entry_is_found(list, k, id, requested);
    open_is_not_disabled(rules, providers::kind_name(kind), id);
    no_binding_is_found(rules, providers::kind_name(kind), id, id);
}

proof fn none_chosen(
    s: Seq<MappingV>,
    read: spec_fn(MappingV) -> Option<(MappingV, Seq<char>)>,
)
    requires
        forall|i: int| 0 <= i < s.len() ==> read(#[trigger] s[i]) is None,
    ensures
        lists::chosen(s, read) == Seq::<(MappingV, Seq<char>)>::empty(),
    decreases s.len(),
{
    if s.len() > 0 {
        assert(read(s[s.len() - 1]) is None);
        none_chosen(s.drop_last(), read);
    }
}

proof fn one_chosen(
    s: Seq<MappingV>,
    read: spec_fn(MappingV) -> Option<(MappingV, Seq<char>)>,
    j: int,
)
    requires
        0 <= j < s.len(),
        read(s[j]) is Some,
        forall|i: int| 0 <= i < s.len() && i != j ==> read(#[trigger] s[i]) is None,
    ensures
        lists::chosen(s, read) == seq![read(s[j])->0],
    decreases s.len(),
{
    let n = s.len() - 1;
    if j == n {
        none_chosen(s.drop_last(), read);
        assert(Seq::<(MappingV, Seq<char>)>::empty().push(read(s[j])->0) =~= seq![read(s[j])->0]);
    } else {
        assert(read(s[n]) is None);
        one_chosen(s.drop_last(), read, j);
    }
}

/// A model that is closed, or whose own mapping is switched off, is not sent at all where no
/// mapping leads on from its name.
pub proof fn closed_model_is_not_sent(
    rules: RulesV,
    kind: ProviderKind,
    list: Seq<Jv>,
    k: int,
    id: Seq<char>,
    requested: Seq<char>,
    d: int,
    j: int,
)
    requires
        listed_at(list, k, id),
        text::same_fold(id, text::trimmed(requested)),
        text::trimmed(requested).len() > 0,
        (0 <= d < rules.disabled.len() && text::same_fold(rules.disabled[d].id, id) && (
        rules.disabled[d].provider matches Some(p) ==> text::same_fold(
            p,
            providers::kind_name(kind),
        ))) || (0 <= j < rules.mappings.len() && maps(rules.mappings[j], id, id) && belongs(
            rules.mappings[j],
            providers::kind_name(kind),
        ) && !rules.mappings[j].enabled && forall|i: int|
            0 <= i < rules.mappings.len() && i != j ==> !(maps(#[trigger] rules.mappings[i], id, id)
                && belongs(rules.mappings[i], providers::kind_name(kind)))),
        forall|i: int|
            0 <= i < rules.mappings.len() ==> !text::same_fold(
                (#[trigger] rules.mappings[i]).alias,
                requested,
            ) || text::same_fold(rules.mappings[i].alias, rules.mappings[i].target),
    ensures
        routing::target_of(rules, kind, list, requested) is None,
{
    let provider = providers::kind_name(kind);
    entry_is_found(list, k, id, requested);
    if 0 <= d < rules.disabled.len() && text::same_fold(rules.disabled[d].id, id) && (
    rules.disabled[d].provider matches Some(p) ==> text::same_fold(p, provider)) {
        assert(model_rules::closing(provider, id)(rules.disabled[d]));
        assert(rules.is_disabled(provider, id));
    } else {
        own_binding_is_found(rules, provider, j, id, id);
    }
    none_chosen(rules.mappings, routing::lead_reader(rules, provider, list, requested));
}

/// A name that a provider maps to a listed model is sent as that model, with the level of the
/// mapping; one that is switched off leads nowhere.
pub proof fn mapping_leads_on(
    rules: RulesV,
    kind: ProviderKind,
    list: Seq<Jv>,
    k: int,
    id: Seq<char>,
    requested: Seq<char>,
    j: int,
)
    requires
        listed_at(list, k, id),
        0 <= j < rules.mappings.len(),
        text::same_fold(rules.mappings[j].alias, requested),
        text::same_fold(id, text::trimmed(rules.mappings[j].target)),
        text::trimmed(rules.mappings[j].target).len() > 0,
        !text::same_fold(rules.mappings[j].alias, rules.mappings[j].target),
        rules.mappings[j].provider is None || belongs(rules.mappings[j], providers::kind_name(kind)),
        forall|i: int|
            0 <= i < rules.mappings.len() && i != j ==> !text::same_fold(
                (#[trigger] rules.mappings[i]).alias,
                requested,
            ),
        forall|i: int|
            0 <= i < list.len() ==> !text::same_fold(
                protocol::loose_field(#[trigger] list[i], "id"@),
                text::trimmed(requested),
            ) && !text::same_fold(
                protocol::loose_field(list[i], "name"@),
                text::trimmed(requested),
            ),
    ensures
        rules.mappings[j].enabled ==> (routing::target_of(rules, kind, list, requested) matches Some(t)
            && t.model == id && t.reasoning == rules.mappings[j].reasoning),
        !rules.mappings[j].enabled ==> routing::target_of(rules, kind, list, requested) is None,
{
    let provider = providers::kind_name(kind);
    let m = rules.mappings[j];
    entry_is_found(list, k, id, m.target);
    let name = text::trimmed(requested);
    lists::found_says(list, catalog::by_id(name));
    lists::found_says(list, routing::by_name(name));
    assert(routing::entry_named(list, requested) is None) by {
        if let Some(e) = lists::found(list, catalog::by_id(name)) {
            assert(lists::any(list, catalog::by_id(name)));
        }
        if let Some(e) = lists::found(list, routing::by_name(name)) {
            assert(lists::any(list, routing::by_name(name)));
            let i = choose|i: int| 0 <= i < list.len() && routing::by_name(name)(#[trigger] list[i]);
            assert(list[i].get("name"@) is Some);
        }
    }
    assert(maps(m, m.alias, m.target));
    assert forall|i: int| 0 <= i < rules.mappings.len() && i != j implies !maps(
        #[trigger] rules.mappings[i],
        m.alias,
        m.target,
    ) by {}
    if m.provider is None {
        shared_binding_is_found(rules, provider, j, m.alias, m.target);
    } else {
        own_binding_is_found(rules, provider, j, m.alias, m.target);
    }
    let read = routing::lead_reader(rules, provider, list, requested);
    if m.enabled {
        assert(read(m) == Some((m, id)));
        one_chosen(rules.mappings, read, j);
        let all = routing::leads_of(rules, provider, list, requested);
        assert(all == seq![(m, id)]);
        lists::found_says(all, routing::own_pool(provider));
        lists::found_says(all, routing::own_lead());
    } else {
        none_chosen(rules.mappings, read);
    }
}

/// A model may be asked for by the name under which it is shown, where no identifier is the
/// same.
pub proof fn shown_name_is_understood(list: Seq<Jv>, k: int, id: Seq<char>, requested: Seq<char>, shown: Seq<char>)
    requires
        0 <= k < list.len(),
        holds(list[k], "id"@, id),
        holds(list[k], "name"@, shown),
        text::same_fold(shown, text::trimmed(requested)),
        text::trimmed(requested).len() > 0,
        forall|i: int|
            0 <= i < list.len() ==> !text::same_fold(
                protocol::loose_field(#[trigger] list[i], "id"@),
                text::trimmed(requested),
            ),
        forall|i: int|
            0 <= i < k ==> !text::same_fold(
                protocol::loose_field(#[trigger] list[i], "name"@),
                text::trimmed(requested),
            ),
    ensures
        routing::entry_named(list, requested) == Some(id),
{
    let name = text::trimmed(requested);
    lists::found_says(list, catalog::by_id(name));
    assert(lists::found(list, catalog::by_id(name)) is None);
    let pred = routing::by_name(name);
    lists::first_where_says(list, pred, 0);
    assert(pred(list[k]));
    let i = lists::first_where(list, pred, 0);
    if i < k {
        assert(pred(list[i]));
        assert(list[i].get("name"@) is Some);
    }
}

proof fn listed_entries_stay(list: Seq<Jv>, further: Seq<Jv>, n: nat)
    requires
        n <= further.len(),
    ensures
        catalog::with_further(list, further, n).len() >= list.len(),
        forall|i: int|
            0 <= i < list.len() ==> #[trigger] catalog::with_further(list, further, n)[i] == list[i],
    decreases n,
{
    if n > 0 {
        listed_entries_stay(list, further, (n - 1) as nat);
        let before = catalog::with_further(list, further, (n - 1) as nat);
        assert forall|i: int| 0 <= i < list.len() implies #[trigger] catalog::with_further(
            list,
            further,
            n,
        )[i] == list[i] by {
            assert(before[i] == list[i]);
        }
    }
}

/// A request for a model that a provider lists and maps to itself goes to that provider under
/// the model's own name, with the level of the mapping.
pub proof fn request_carries_the_level(
    listings: Seq<ListingV>,
    a: int,
    rules: RulesV,
    k: int,
    id: Seq<char>,
    model: Seq<char>,
    provider: Seq<char>,
    j: int,
)
    requires
        0 <= a < listings.len(),
        forall|i: int| 0 <= i < a ==> (#[trigger] listings[i]).kind != listings[a].kind,
        provider == providers::kind_name(listings[a].kind),
        listed_at(listings[a].entries, k, id),
        text::same_fold(id, text::trimmed(text::trimmed(model))),
        text::trimmed(text::trimmed(model)).len() > 0,
        stays_open(rules, provider, id),
        0 <= j < rules.mappings.len(),
        maps(rules.mappings[j], id, id),
        belongs(rules.mappings[j], provider),
        rules.mappings[j].enabled,
        forall|i: int|
            0 <= i < rules.mappings.len() && i != j ==> !(maps(#[trigger] rules.mappings[i], id, id)
                && belongs(rules.mappings[i], provider)),
    ensures
        routing::wire_target(listings, rules, model, provider).model == id,
        routing::wire_target(listings, rules, model, provider).reasoning == rules.mappings[j].reasoning,
{
    let kind = listings[a].kind;
    let pred = |l: ListingV| l.kind == kind;
    lists::first_where_says(listings, pred, 0);
    assert(pred(listings[a]));
    let f = lists::first_where(listings, pred, 0);
    assert(pred(listings[f]));
    assert(f == a);
    let list = catalog::manifest_among(listings, rules, kind);
    let further = lists::chosen(
        rules.custom,
        model_rules::edit::custom_of(providers::kind_name(kind)),
    );
    listed_entries_stay(listings[a].entries, further, further.len());
    assert(list == catalog::manifest(listings[a].entries, rules, kind));
    assert(listed_at(list, k, id));
    own_level_is_used(rules, kind, list, k, id, text::trimmed(model), j);
    kinds_have_names(kind);
}

proof fn kinds_have_names(kind: ProviderKind)
    ensures
        providers::kind_of(providers::kind_name(kind)) == Some(kind),
{
    reveal_strlit("workbuddy");
    reveal_strlit("raccoon");
    reveal_strlit("catpaw");
    reveal_strlit("autoclaw");
    reveal_strlit("autoclaw-intl");
    reveal_strlit("qoder");
    reveal_strlit("cline-free");
    reveal_strlit("cline-pass");
    assert("workbuddy"@[0] == 'w');
    assert("raccoon"@[0] == 'r');
    assert("catpaw"@[1] == 'a');
    assert("autoclaw"@.len() == 8);
    assert("autoclaw-intl"@.len() == 13);
    assert("qoder"@[0] == 'q');
    assert("cline-free"@[6] == 'f');
    assert("cline-pass"@[6] == 'p');
    assert("cline-free"@[1] == 'l');
    assert("cline-pass"@[1] == 'l');
    assert("autoclaw"@[0] == 'a');
    assert("autoclaw-intl"@[0] == 'a');
    assert("catpaw"@[0] == 'c');
    assert("cline-free"@[0] == 'c');
    assert("cline-pass"@[0] == 'c');
}

/// Of several mappings that lead on from a name, one of the provider's own comes before one for
/// all, and of those one whose target stands in the pool of the provider; else the first.
pub proof fn own_mappings_come_first(provider: Seq<char>, all: Seq<(MappingV, Seq<char>)>, k: int)
    requires
        0 <= k < all.len(),
    ensures
        ({
            let out = routing::lead_taken(provider, all);
            let c = out->0;
            &&& out is Some
            &&& all.contains(c)
            &&& all[k].0.provider is Some ==> c.0.provider is Some
            &&& provider == "cline-free"@ && all[k].0.provider is Some && all[k].1.len() >= 11
                && all[k].1.take(11) == "cline-free/"@ ==> c.0.provider is Some && c.1.len() >= 11
                && c.1.take(11) == "cline-free/"@
            &&& provider == "cline-pass"@ && all[k].0.provider is Some && all[k].1.len() >= 11
                && all[k].1.take(11) == "cline-pass/"@ ==> c.0.provider is Some && c.1.len() >= 11
                && c.1.take(11) == "cline-pass/"@
            &&& (forall|i: int| 0 <= i < all.len() ==> (#[trigger] all[i]).0.provider is None) ==> c == all[0]
        }),
{
    reveal_strlit("cline-free/");
    reveal_strlit("cline-pass/");
    reveal_strlit("cline-free");
    reveal_strlit("cline-pass");
    assert("cline-free/"@.len() == 11);
    assert("cline-pass/"@.len() == 11);
    assert("cline-free"@[6] == 'f');
    assert("cline-pass"@[6] == 'p');
    let pool = routing::own_pool(provider);
    let own = routing::own_lead();
    lists::first_where_says(all, pool, 0);
    lists::first_where_says(all, own, 0);
    let i = lists::first_where(all, pool, 0);
    let j = lists::first_where(all, own, 0);
    if i < all.len() {
        assert(pool(all[i]));
        assert(all.contains(all[i]));
    } else {
        assert(!pool(all[k]));
    }
    if j < all.len() {
        assert(own(all[j]));
        assert(all.contains(all[j]));
    } else {
        assert(!own(all[k]));
    }
    assert(all.contains(all[0]));
}

/// What is not listed at all is sent under the name that was asked for, trimmed, without a level.
pub proof fn unknown_models_go_as_they_are(
    listings: Seq<ListingV>,
    rules: RulesV,
    model: Seq<char>,
    provider: Seq<char>,
)
    requires
        providers::kind_of(provider) is None,
    ensures
        routing::wire_target(listings, rules, model, provider).model == text::trimmed(model),
        routing::wire_target(listings, rules, model, provider).reasoning is None,
{
}

} // verus!
