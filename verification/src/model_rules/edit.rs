//! Changes of the rules.
//!
//! A change that names one provider leaves the others as they were: an old rule that
//! holds for all of them is replaced by one for each of the others.

use crate::json::{Json, Jv};
use crate::json;
use crate::lists;
use crate::model_rules::reasoning;
use crate::model_rules::{CustomModel, CustomV, Mapping, MappingV, ModelRules, RuleEntry, RuleV, RulesV};
use crate::model_rules;
use crate::text;
use vstd::prelude::*;
use vstd::string::*;

verus! {

// ------------------------------------------------------------- closed models

/// Rules that do not close the model of a provider.
pub open spec fn not_closing(provider: Seq<char>, id: Seq<char>) -> spec_fn(RuleV) -> bool {
    |e: RuleV| !e.hits(provider, id)
}

/// Rules that close a model for all providers.
pub open spec fn shared_rule(id: Seq<char>) -> spec_fn(RuleV) -> bool {
    |e: RuleV| e.provider is None && text::same_fold(e.id, id)
}

/// Rules about other models.
pub open spec fn other_model(id: Seq<char>) -> spec_fn(RuleV) -> bool {
    |e: RuleV| !text::same_fold(e.id, id)
}

/// Rules that are not the one about this model that names this provider.
pub open spec fn other_rule(provider: Option<Seq<char>>, id: Seq<char>) -> spec_fn(RuleV) -> bool {
    |e: RuleV| !(model_rules::same_provider(e.provider, provider) && text::same_fold(e.id, id))
}

/// A list of rules that also closes a model for each of the first `n` other
/// providers.
pub open spec fn spread(
    list: Seq<RuleV>,
    provider: Seq<char>,
    id: Seq<char>,
    others: Seq<Seq<char>>,
    n: nat,
) -> Seq<RuleV>
    decreases n,
{
    if n == 0 {
        list
    } else {
        let before = spread(list, provider, id, others, (n - 1) as nat);
        let other = others[n - 1];
        if text::same_fold(other, provider) || lists::any(before, model_rules::closing(other, id)) {
            before
        } else {
            before.push(RuleV { provider: Some(other), id })
        }
    }
}

/// The rules after a model is opened for one provider. A rule that closed it for all
/// is replaced by one for each of the others.
pub open spec fn opened(
    list: Seq<RuleV>,
    provider: Seq<char>,
    id: Seq<char>,
    others: Seq<Seq<char>>,
) -> Seq<RuleV> {
    let kept = list.filter(not_closing(provider, id));
    if lists::any(list, shared_rule(id)) {
        spread(kept, provider, id, others, others.len())
    } else {
        kept
    }
}

/// The rules after a model is closed, for one provider or for all.
pub open spec fn closed(list: Seq<RuleV>, provider: Option<Seq<char>>, id: Seq<char>) -> Seq<
    RuleV,
> {
    list.filter(other_rule(provider, id)).push(RuleV { provider, id })
}

/// The rules after a model is opened or closed, for one provider or for all.
pub open spec fn switched(
    list: Seq<RuleV>,
    provider: Option<Seq<char>>,
    id: Seq<char>,
    enabled: bool,
    others: Seq<Seq<char>>,
) -> Seq<RuleV> {
    if !enabled {
        closed(list, provider, id)
    } else {
        match provider {
            Some(p) => opened(list, p, id, others),
            None => list.filter(other_model(id)),
        }
    }
}

/// The rules after a model is opened for one provider.
fn enable_on(
    list: &Vec<RuleEntry>,
    provider: &str,
    id: &str,
    other_providers: &[String],
) -> (r: Vec<RuleEntry>)
    ensures
        lists::views(r@) == opened(lists::views(list@), provider@, id@, lists::views(other_providers@)),
{
    let ghost all = lists::views(list@);
    let ghost pred = not_closing(provider@, id@);
    let ghost others = lists::views(other_providers@);
    let mut out: Vec<RuleEntry> = Vec::new();
    let mut had_shared = false;
    let mut i: usize = 0;
    proof {
        lists::kept_all(all, pred);
        assert(lists::views(out@) =~= Seq::empty());
    }
    while i < list.len()
        invariant
            i <= list@.len(),
            all == lists::views(list@),
            pred == not_closing(provider@, id@),
            lists::views(out@) == all.take(i as int).filter(pred),
            had_shared ==> lists::any(all, shared_rule(id@)),
            !had_shared ==> forall|j: int| 0 <= j < i ==> !shared_rule(id@)(#[trigger] all[j]),
        decreases list@.len() - i,
    {
        let one = list[i].copy();
        proof {
            lists::kept_step(all, pred, i as int);
            lists::views_push(out@, one);
            assert(all[i as int] == one@);
        }
        if one.provider.is_none() && text::eq_fold(one.id.as_str(), id) {
            proof {
                assert(shared_rule(id@)(all[i as int]));
            }
            had_shared = true;
        }
        if !one.matches(provider, id) {
            out.push(one);
        }
        i = i + 1;
    }
    if had_shared {
        let ghost kept = lists::views(out@);
        let mut k: usize = 0;
        while k < other_providers.len()
            invariant
                k <= other_providers@.len(),
                others == lists::views(other_providers@),
                lists::views(out@) == spread(kept, provider@, id@, others, k as nat),
            decreases other_providers@.len() - k,
        {
            let other = other_providers[k].as_str();
            if !text::eq_fold(other, provider) && !model_rules::hit(&out, other, id) {
                let one = RuleEntry::new(Some(other), id);
                proof {
                    lists::views_push(out@, one);
                }
                out.push(one);
            }
            k = k + 1;
        }
    }
    out
}

/// The rules after a model is closed, for one provider or for all.
fn close_on(list: &Vec<RuleEntry>, provider: Option<&str>, id: &str) -> (r: Vec<RuleEntry>)
    ensures
        lists::views(r@) == closed(lists::views(list@), json::opt_text(provider), id@),
{
    let ghost all = lists::views(list@);
    let ghost pred = other_rule(json::opt_text(provider), id@);
    let mut out: Vec<RuleEntry> = Vec::new();
    let mut i: usize = 0;
    proof {
        lists::kept_all(all, pred);
        assert(lists::views(out@) =~= Seq::empty());
    }
    while i < list.len()
        invariant
            i <= list@.len(),
            all == lists::views(list@),
            pred == other_rule(json::opt_text(provider), id@),
            lists::views(out@) == all.take(i as int).filter(pred),
        decreases list@.len() - i,
    {
        let one = list[i].copy();
        proof {
            lists::kept_step(all, pred, i as int);
            lists::views_push(out@, one);
            assert(all[i as int] == one@);
        }
        if !(model_rules::is_same_provider(&one.provider, provider) && text::eq_fold(one.id.as_str(), id)) {
            out.push(one);
        }
        i = i + 1;
    }
    let one = RuleEntry::new(provider, id);
    proof {
        lists::views_push(out@, one);
    }
    out.push(one);
    out
}

/// The rules about other models.
fn open_for_all(list: &Vec<RuleEntry>, id: &str) -> (r: Vec<RuleEntry>)
    ensures
        lists::views(r@) == lists::views(list@).filter(other_model(id@)),
{
    let ghost all = lists::views(list@);
    let ghost pred = other_model(id@);
    let mut out: Vec<RuleEntry> = Vec::new();
    let mut i: usize = 0;
    proof {
        lists::kept_all(all, pred);
        assert(lists::views(out@) =~= Seq::empty());
    }
    while i < list.len()
        invariant
            i <= list@.len(),
            all == lists::views(list@),
            pred == other_model(id@),
            lists::views(out@) == all.take(i as int).filter(pred),
        decreases list@.len() - i,
    {
        let one = list[i].copy();
        proof {
            lists::kept_step(all, pred, i as int);
            lists::views_push(out@, one);
            assert(all[i as int] == one@);
        }
        if !text::eq_fold(one.id.as_str(), id) {
            out.push(one);
        }
        i = i + 1;
    }
    out
}

/// The rules after a model is opened or closed, for one provider or for all.
fn switch(
    list: &Vec<RuleEntry>,
    provider: Option<&str>,
    id: &str,
    enabled: bool,
    other_providers: &[String],
) -> (r: Vec<RuleEntry>)
    ensures
        lists::views(r@) == switched(
            lists::views(list@),
            json::opt_text(provider),
            id@,
            enabled,
            lists::views(other_providers@),
        ),
{
    if !enabled {
        close_on(list, provider, id)
    } else {
        match provider {
            Some(p) => enable_on(list, p, id, other_providers),
            None => open_for_all(list, id),
        }
    }
}

/// Closes a model for one provider, or for all.
pub(crate) fn set_membership(list: &mut Vec<RuleEntry>, provider: Option<&str>, id: &str)
    ensures
        lists::views(final(list)@) == closed(lists::views(old(list)@), json::opt_text(provider), id@),
{
    let next = close_on(list, provider, id);
    *list = next;
}

/// Whether two texts that may be missing are the same.
fn is_same_text(a: &Option<String>, b: Option<&str>) -> (r: bool)
    ensures
        r == (json::opt_string(*a) == json::opt_text(b)),
{
    match (a, b) {
        (Some(x), Some(y)) => text::same(x.as_str(), y),
        (None, None) => true,
        _ => false,
    }
}

// ------------------------------------------------------------------- states

/// Whether a mapping is a second switch of the model's own name.
pub open spec fn same_switch(m: MappingV, provider: Option<Seq<char>>, id: Seq<char>) -> bool {
    m.leads(id, id) && (provider is None || model_rules::same_provider(m.provider, provider))
}

/// The change of the mappings that are second switches.
pub open spec fn switching(
    provider: Option<Seq<char>>,
    id: Seq<char>,
    enabled: bool,
) -> spec_fn(MappingV) -> MappingV {
    |m: MappingV|
        if same_switch(m, provider, id) {
            MappingV { enabled, ..m }
        } else {
            m
        }
}

/// The mappings where a provider gets one of its own from one that holds for all.
pub open spec fn with_own(
    mappings: Seq<MappingV>,
    provider: Option<Seq<char>>,
    id: Seq<char>,
    enabled: bool,
) -> Seq<MappingV> {
    match (provider, lists::found(mappings, model_rules::shared_binding(id, id))) {
        (Some(owner), Some(shared)) => if lists::any(mappings, model_rules::own_binding(owner, id, id)) {
            mappings
        } else {
            mappings.push(MappingV { provider: Some(owner), enabled, ..shared })
        },
        _ => mappings,
    }
}

/// The rules after a model is opened or closed under its own name, for one provider
/// or for all; nothing is changed where `enabled` says nothing.
pub open spec fn state_set(
    rules: RulesV,
    provider: Option<Seq<char>>,
    id: Seq<char>,
    enabled: Option<bool>,
    others: Seq<Seq<char>>,
) -> RulesV {
    match enabled {
        Some(on) => RulesV {
            disabled: switched(rules.disabled, provider, id, on, others),
            mappings: with_own(
                lists::mapped(rules.mappings, switching(provider, id, on)),
                provider,
                id,
                on,
            ),
            ..rules
        },
        None => rules,
    }
}

/// The place of the first mapping from a name to a model that names no provider.
fn shared_place(list: &Vec<Mapping>, alias: &str, target: &str) -> (r: usize)
    ensures
        r == lists::first_where(lists::views(list@), model_rules::shared_binding(alias@, target@), 0),
{
    let mut i: usize = 0;
    while i < list.len()
        invariant
            i <= list@.len(),
            lists::first_where(lists::views(list@), model_rules::shared_binding(alias@, target@), 0) == lists::first_where(
                lists::views(list@),
                model_rules::shared_binding(alias@, target@),
                i as int,
            ),
        decreases list@.len() - i,
    {
        if list[i].leads(alias, target) && list[i].provider.is_none() {
            return i;
        }
        i = i + 1;
    }
    i
}

/// Opens or closes a model under its own name. Without a provider this is for all of
/// them. The other providers that have the model are needed where an old rule holds
/// for all.
pub fn set_state(
    rules: ModelRules,
    provider: Option<&str>,
    id: &str,
    enabled: Option<bool>,
    other_providers: &[String],
) -> (r: ModelRules)
    ensures
        r@ == state_set(rules@, json::opt_text(provider), id@, enabled, lists::views(other_providers@)),
{
    let on = match enabled {
        Some(on) => on,
        None => {
            return rules;
        },
    };
    let disabled = switch(&rules.disabled, provider, id, on, other_providers);
    let ghost change = switching(json::opt_text(provider), id@, on);
    let ghost want = lists::mapped(rules@.mappings, change);
    let mut mappings: Vec<Mapping> = Vec::new();
    let mut i: usize = 0;
    while i < rules.mappings.len()
        invariant
            i <= rules.mappings@.len(),
            change == switching(json::opt_text(provider), id@, on),
            want == lists::mapped(rules@.mappings, change),
            lists::views(mappings@) == want.take(i as int),
        decreases rules.mappings@.len() - i,
    {
        let mut one = rules.mappings[i].copy();
        if one.leads(id, id) && (provider.is_none() || model_rules::is_same_provider(&one.provider, provider)) {
            one.enabled = on;
        }
        proof {
            lists::views_push(mappings@, one);
            assert(one@ == change(rules@.mappings[i as int]));
            assert(want.take(i as int).push(want[i as int]) =~= want.take(i as int + 1));
        }
        mappings.push(one);
        i = i + 1;
    }
    proof {
        assert(want.take(want.len() as int) =~= want);
    }
    if let Some(owner) = provider {
        let place = shared_place(&mappings, id, id);
        if place < mappings.len() && !has_own(&mappings, owner, id, id) {
            let shared = mappings[place].copy();
            let one = Mapping {
                alias: shared.alias,
                target: shared.target,
                provider: Some(owner.to_owned()),
                reasoning: shared.reasoning,
                enabled: on,
            };
            proof {
                lists::views_push(mappings@, one);
            }
            mappings.push(one);
        }
    }
    ModelRules { disabled, mappings, custom: rules.custom, seeded: rules.seeded }
}

/// What is answered once the rules with a changed state were to be stored.
pub fn state_stored(rules: ModelRules, stored: bool) -> (r: Result<ModelRules, String>)
    ensures
        r is Ok <==> stored,
        r matches Ok(x) ==> x@ == rules@,
        r matches Err(e) ==> e@ == "模型开关保存失败"@,
{
    if stored {
        Ok(rules)
    } else {
        Err("模型开关保存失败".to_owned())
    }
}

// ------------------------------------------------------------------ mappings

/// Whether a name for a model has at most 128 characters, at least one, and only
/// letters, digits and `- _ . / :`.
pub open spec fn valid_alias(alias: Seq<char>) -> bool {
    0 < alias.len() <= 128 && forall|i: int| 0 <= i < alias.len() ==> alias_char(#[trigger] alias[i])
}

/// The characters of a name for a model.
pub open spec fn alias_char(c: char) -> bool {
    ('a' <= c && c <= 'z') || ('A' <= c && c <= 'Z') || ('0' <= c && c <= '9') || c == '-' || c
        == '_' || c == '.' || c == '/' || c == ':'
}

/// Whether a name for a model may be used.
pub fn alias_valid(alias: &str) -> (r: bool)
    ensures
        r == valid_alias(alias@),
{
    let chars = text::chars_of(alias);
    if chars.len() == 0 || chars.len() > 128 {
        return false;
    }
    let mut i: usize = 0;
    while i < chars.len()
        invariant
            chars@ == alias@,
            i <= chars@.len(),
            forall|j: int| 0 <= j < i ==> alias_char(#[trigger] alias@[j]),
        decreases chars@.len() - i,
    {
        let c = chars[i];
        let good = ('a' <= c && c <= 'z') || ('A' <= c && c <= 'Z') || ('0' <= c && c <= '9')
            || c == '-' || c == '_' || c == '.' || c == '/' || c == ':';
        if !good {
            proof {
                assert(!alias_char(alias@[i as int]));
            }
            return false;
        }
        i = i + 1;
    }
    true
}

/// The mapping from a name to a model that names this provider, or none where none
/// is given.
pub open spec fn same_key(
    alias: Seq<char>,
    target: Seq<char>,
    provider: Option<Seq<char>>,
) -> spec_fn(MappingV) -> bool {
    |m: MappingV|
        m.leads(alias, target) && model_rules::same_provider(m.provider, provider)
}

/// A level that a request sets or clears.
pub open spec fn level_set(level: Option<Seq<char>>) -> Option<Seq<char>> {
    match level {
        Some(s) => reasoning::normal_level(s),
        None => None,
    }
}

/// A mapping after what a request says of it; what the request leaves out stays.
pub open spec fn revised(
    m: MappingV,
    reasoning: Option<Option<Seq<char>>>,
    enabled: Option<bool>,
) -> MappingV {
    MappingV {
        reasoning: match reasoning {
            Some(level) => level_set(level),
            None => m.reasoning,
        },
        enabled: match enabled {
            Some(on) => on,
            None => m.enabled,
        },
        ..m
    }
}

/// The mapping that held for the provider before it gets one of its own.
pub open spec fn inherited(
    rules: RulesV,
    alias: Seq<char>,
    target: Seq<char>,
    provider: Option<Seq<char>>,
) -> Option<MappingV> {
    match provider {
        Some(owner) => rules.binding(owner, alias, target),
        None => None,
    }
}

/// A new mapping. It counts unless the request says otherwise; a level that the request
/// leaves out comes from the mapping that held before.
pub open spec fn fresh_mapping(
    before: Option<MappingV>,
    alias: Seq<char>,
    target: Seq<char>,
    provider: Option<Seq<char>>,
    reasoning: Option<Option<Seq<char>>>,
    enabled: Option<bool>,
) -> MappingV {
    let level = match before {
        Some(m) => m.reasoning,
        None => None,
    };
    revised(
        MappingV { alias, target, provider, reasoning: level, enabled: true },
        reasoning,
        enabled,
    )
}

/// The rules after a mapping is set, and whether anything is to be stored. A mapping
/// of a model's own name is also the switch of that name.
pub open spec fn mapping_set(
    rules: RulesV,
    alias: Seq<char>,
    target: Seq<char>,
    provider: Option<Seq<char>>,
    reasoning: Option<Option<Seq<char>>>,
    enabled: Option<bool>,
    others: Seq<Seq<char>>,
) -> (RulesV, bool) {
    let is_switch = text::same_fold(alias, target) && enabled is Some;
    let disabled = if is_switch {
        switched(rules.disabled, provider, target, enabled->0, others)
    } else {
        rules.disabled
    };
    let i = lists::first_where(rules.mappings, same_key(alias, target, provider), 0);
    if i < rules.mappings.len() {
        let next = revised(rules.mappings[i], reasoning, enabled);
        (
            RulesV { disabled, mappings: rules.mappings.update(i, next), ..rules },
            is_switch || next != rules.mappings[i],
        )
    } else {
        let one = fresh_mapping(
            inherited(rules, alias, target, provider),
            alias,
            target,
            provider,
            reasoning,
            enabled,
        );
        (RulesV { disabled, mappings: rules.mappings.push(one), ..rules }, true)
    }
}

/// The characters of a level that a request may set or clear.
pub open spec fn level_view(level: Option<Option<&str>>) -> Option<Option<Seq<char>>> {
    match level {
        Some(l) => Some(json::opt_text(l)),
        None => None,
    }
}

/// A level that a request sets or clears.
fn set_level(level: Option<&str>) -> (r: Option<String>)
    ensures
        json::opt_string(r) == level_set(json::opt_text(level)),
{
    match level {
        Some(s) => reasoning::normalize_reasoning(s),
        None => None,
    }
}

/// The place of the mapping from a name to a model that names this provider.
fn key_place(list: &Vec<Mapping>, alias: &str, target: &str, provider: Option<&str>) -> (r: usize)
    ensures
        r == lists::first_where(lists::views(list@), same_key(alias@, target@, json::opt_text(provider)), 0),
{
    let ghost pred = same_key(alias@, target@, json::opt_text(provider));
    let mut i: usize = 0;
    while i < list.len()
        invariant
            i <= list@.len(),
            pred == same_key(alias@, target@, json::opt_text(provider)),
            lists::first_where(lists::views(list@), pred, 0) == lists::first_where(lists::views(list@), pred, i as int),
        decreases list@.len() - i,
    {
        if model_rules::is_same_provider(&list[i].provider, provider) && list[i].leads(alias, target) {
            return i;
        }
        i = i + 1;
    }
    i
}

/// Sets a mapping: a new one, or the level and the switch of one that is there. Of one that
/// is there, what the request leaves out stays as it is; a new one counts. The second part of the result says whether
/// anything is to be stored.
pub fn add_mapping(
    rules: ModelRules,
    alias: &str,
    target: &str,
    provider: Option<&str>,
    reasoning: Option<Option<&str>>,
    enabled: Option<bool>,
    other_providers: &[String],
) -> (r: (ModelRules, bool))
    ensures
        (r.0@, r.1) == mapping_set(
            rules@,
            alias@,
            target@,
            json::opt_text(provider),
            level_view(reasoning),
            enabled,
            lists::views(other_providers@),
        ),
{
    let before: Option<Mapping> = match provider {
        Some(owner) => match rules.binding(owner, alias, target) {
            Some(m) => Some(m.copy()),
            None => None,
        },
        None => None,
    };
    let place = key_place(&rules.mappings, alias, target, provider);
    let ghost start = rules@;
    let mut touched = false;
    let mut rules = rules;
    if text::eq_fold(alias, target) {
        if let Some(on) = enabled {
            rules.disabled = switch(&rules.disabled, provider, target, on, other_providers);
            touched = true;
        }
    }
    let ghost disabled = lists::views(rules.disabled@);
    if place < rules.mappings.len() {
        let mut one = rules.mappings[place].copy();
        let ghost was = one@;
        if let Some(level) = reasoning {
            let next = set_level(level);
            let next_text: Option<&str> = match &next {
                Some(s) => Some(s.as_str()),
                None => None,
            };
            if !is_same_text(&one.reasoning, next_text) {
                touched = true;
            }
            one.reasoning = next;
        }
        if let Some(on) = enabled {
            if one.enabled != on {
                touched = true;
            }
            one.enabled = on;
        }
        proof {
            assert(one@ == revised(was, level_view(reasoning), enabled));
            assert(lists::views(rules.mappings@.update(place as int, one)) =~= start.mappings.update(
                place as int,
                one@,
            ));
        }
        rules.mappings.set(place, one);
    } else {
        let level = match reasoning {
            Some(level) => set_level(level),
            None => match &before {
                Some(m) => model_rules::copy_text(&m.reasoning),
                None => None,
            },
        };
        let on = match enabled {
            Some(on) => on,
            None => true,
        };
        let one = Mapping {
            alias: alias.to_owned(),
            target: target.to_owned(),
            provider: model_rules::own_text(provider),
            reasoning: level,
            enabled: on,
        };
        proof {
            lists::views_push(rules.mappings@, one);
        }
        rules.mappings.push(one);
        touched = true;
    }
    (rules, touched)
}

/// What is answered once the rules with a changed mapping were to be stored.
pub fn mapping_stored(rules: ModelRules, stored: bool) -> (r: Result<ModelRules, String>)
    ensures
        r is Ok <==> stored,
        r matches Ok(x) ==> x@ == rules@,
        r matches Err(e) ==> e@ == "模型绑定保存失败"@,
{
    if stored {
        Ok(rules)
    } else {
        Err("模型绑定保存失败".to_owned())
    }
}

/// Mappings that the removal of one does not meet. One that names no provider is met
/// by every removal, and a removal that names none meets all.
pub open spec fn not_removed(
    alias: Seq<char>,
    target: Seq<char>,
    provider: Option<Seq<char>>,
) -> spec_fn(MappingV) -> bool {
    |m: MappingV|
        !(m.leads(alias, target) && (match (m.provider, provider) {
            (Some(p), Some(given)) => text::same_fold(p, given),
            _ => true,
        }))
}

/// A list of mappings that also leads from a name to a model for each of the first
/// `n` other providers.
pub open spec fn spread_mappings(
    list: Seq<MappingV>,
    owner: Seq<char>,
    alias: Seq<char>,
    target: Seq<char>,
    others: Seq<Seq<char>>,
    n: nat,
) -> Seq<MappingV>
    decreases n,
{
    if n == 0 {
        list
    } else {
        let before = spread_mappings(list, owner, alias, target, others, (n - 1) as nat);
        let other = others[n - 1];
        if text::same_fold(other, owner) || lists::any(before, model_rules::own_binding(other, alias, target)) {
            before
        } else {
            before.push(
                MappingV {
                    alias,
                    target,
                    provider: Some(other),
                    reasoning: None,
                    enabled: true,
                },
            )
        }
    }
}

/// The rules after a mapping is removed, and whether it was there. Where one that
/// holds for all is removed for one provider, each of the others gets its own.
pub open spec fn mapping_removed(
    rules: RulesV,
    alias: Seq<char>,
    target: Seq<char>,
    provider: Option<Seq<char>>,
    others: Seq<Seq<char>>,
) -> (RulesV, bool) {
    let stay = not_removed(alias, target, provider);
    let kept = rules.mappings.filter(stay);
    let removed = exists|i: int| 0 <= i < rules.mappings.len() && !stay(#[trigger] rules.mappings[i]);
    let mappings = if lists::any(rules.mappings, model_rules::shared_binding(alias, target)) && provider is Some {
        spread_mappings(kept, provider->0, alias, target, others, others.len())
    } else {
        kept
    };
    (RulesV { mappings, ..rules }, removed)
}

/// Whether a list has a mapping of that provider from a name to a model.
fn has_own(list: &Vec<Mapping>, provider: &str, alias: &str, target: &str) -> (r: bool)
    ensures
        r == lists::any(lists::views(list@), model_rules::own_binding(provider@, alias@, target@)),
{
    let mut i: usize = 0;
    while i < list.len()
        invariant
            i <= list@.len(),
            forall|j: int|
                0 <= j < i ==> !model_rules::own_binding(provider@, alias@, target@)(#[trigger] lists::views(list@)[j]),
        decreases list@.len() - i,
    {
        if list[i].leads(alias, target) && model_rules::is_owned_by(&list[i].provider, provider) {
            proof {
                assert(model_rules::own_binding(provider@, alias@, target@)(lists::views(list@)[i as int]));
            }
            return true;
        }
        i = i + 1;
    }
    false
}

/// Removes a mapping. The second part of the result says whether it was there; only
/// then is anything to be stored.
pub fn remove_mapping(
    rules: ModelRules,
    alias: &str,
    target: &str,
    provider: Option<&str>,
    other_providers: &[String],
) -> (r: (ModelRules, bool))
    ensures
        (r.0@, r.1) == mapping_removed(
            rules@,
            alias@,
            target@,
            json::opt_text(provider),
            lists::views(other_providers@),
        ),
{
    let ghost all = rules@.mappings;
    let ghost stay = not_removed(alias@, target@, json::opt_text(provider));
    let ghost others = lists::views(other_providers@);
    let mut removed = false;
    let mut shared_hit = false;
    let mut out: Vec<Mapping> = Vec::new();
    let mut i: usize = 0;
    proof {
        lists::kept_all(all, stay);
        assert(lists::views(out@) =~= Seq::empty());
    }
    while i < rules.mappings.len()
        invariant
            i <= rules.mappings@.len(),
            all == rules@.mappings,
            stay == not_removed(alias@, target@, json::opt_text(provider)),
            lists::views(out@) == all.take(i as int).filter(stay),
            removed <==> exists|j: int| 0 <= j < i && !stay(#[trigger] all[j]),
            shared_hit ==> lists::any(all, model_rules::shared_binding(alias@, target@)),
            !shared_hit ==> forall|j: int|
                0 <= j < i ==> !model_rules::shared_binding(alias@, target@)(#[trigger] all[j]),
        decreases rules.mappings@.len() - i,
    {
        let one = rules.mappings[i].copy();
        proof {
            lists::kept_step(all, stay, i as int);
            lists::views_push(out@, one);
            assert(all[i as int] == one@);
        }
        let met = one.leads(alias, target) && (match (&one.provider, provider) {
            (Some(p), Some(given)) => text::eq_fold(p.as_str(), given),
            _ => true,
        });
        if met {
            proof {
                assert(!stay(all[i as int]));
            }
            removed = true;
            if one.provider.is_none() {
                proof {
                    assert(model_rules::shared_binding(alias@, target@)(all[i as int]));
                }
                shared_hit = true;
            }
        } else {
            out.push(one);
        }
        i = i + 1;
    }
    if shared_hit {
        if let Some(owner) = provider {
            let ghost kept = lists::views(out@);
            let mut k: usize = 0;
            while k < other_providers.len()
                invariant
                    k <= other_providers@.len(),
                    others == lists::views(other_providers@),
                    lists::views(out@) == spread_mappings(
                        kept,
                        owner@,
                        alias@,
                        target@,
                        others,
                        k as nat,
                    ),
                decreases other_providers@.len() - k,
            {
                let other = other_providers[k].as_str();
                if !text::eq_fold(other, owner) && !has_own(&out, other, alias, target) {
                    let one = Mapping {
                        alias: alias.to_owned(),
                        target: target.to_owned(),
                        provider: Some(other.to_owned()),
                        reasoning: None,
                        enabled: true,
                    };
                    proof {
                        lists::views_push(out@, one);
                    }
                    out.push(one);
                }
                k = k + 1;
            }
        }
    }
    (
        ModelRules {
            disabled: rules.disabled,
            mappings: out,
            custom: rules.custom,
            seeded: rules.seeded,
        },
        removed,
    )
}

// -------------------------------------------------------------- added models

/// The rules after a model is added to a provider.
pub open spec fn custom_added(rules: RulesV, provider: Seq<char>, id: Seq<char>) -> RulesV {
    if rules.has_custom(provider, id) {
        rules
    } else {
        RulesV { custom: rules.custom.push(CustomV { provider, id }), ..rules }
    }
}

/// Adds a model to a provider. The second part of the result says whether it is new;
/// only then is anything to be stored.
pub fn add_custom(rules: ModelRules, provider: &str, id: &str) -> (r: (ModelRules, bool))
    ensures
        r.0@ == custom_added(rules@, provider@, id@),
        r.1 == !rules@.has_custom(provider@, id@),
{
    if rules.has_custom(provider, id) {
        return (rules, false);
    }
    let mut rules = rules;
    let one = CustomModel { provider: provider.to_owned(), id: id.to_owned() };
    proof {
        lists::views_push(rules.custom@, one);
    }
    rules.custom.push(one);
    (rules, true)
}

/// Added models other than this one.
pub open spec fn other_custom(provider: Seq<char>, id: Seq<char>) -> spec_fn(CustomV) -> bool {
    |c: CustomV| !c.is(provider, id)
}

/// Rules that are not about this model of this provider alone.
pub open spec fn not_own_rule(provider: Seq<char>, id: Seq<char>) -> spec_fn(RuleV) -> bool {
    |e: RuleV| !(text::same_fold(e.id, id) && model_rules::owned_by(e.provider, provider))
}

/// Mappings that do not lead to this model of this provider.
pub open spec fn leads_elsewhere(provider: Seq<char>, id: Seq<char>) -> spec_fn(MappingV) -> bool {
    |m: MappingV| !(text::same_fold(m.target, id) && model_rules::owned_by(m.provider, provider))
}

/// The rules after an added model is removed, with the rules and mappings that are
/// about it alone. Those that hold for all providers stay.
pub open spec fn custom_removed(rules: RulesV, provider: Seq<char>, id: Seq<char>) -> RulesV {
    if rules.has_custom(provider, id) {
        RulesV {
            custom: rules.custom.filter(other_custom(provider, id)),
            disabled: rules.disabled.filter(not_own_rule(provider, id)),
            mappings: rules.mappings.filter(leads_elsewhere(provider, id)),
            ..rules
        }
    } else {
        rules
    }
}

/// Removes an added model. The second part of the result says whether it was there;
/// only then is anything to be stored.
pub fn remove_custom(rules: ModelRules, provider: &str, id: &str) -> (r: (ModelRules, bool))
    ensures
        r.0@ == custom_removed(rules@, provider@, id@),
        r.1 == rules@.has_custom(provider@, id@),
{
    if !rules.has_custom(provider, id) {
        return (rules, false);
    }
    let mut custom: Vec<CustomModel> = Vec::new();
    let ghost keep_custom = other_custom(provider@, id@);
    let mut i: usize = 0;
    proof {
        lists::kept_all(rules@.custom, keep_custom);
        assert(lists::views(custom@) =~= Seq::empty());
    }
    while i < rules.custom.len()
        invariant
            i <= rules.custom@.len(),
            keep_custom == other_custom(provider@, id@),
            lists::views(custom@) == rules@.custom.take(i as int).filter(keep_custom),
        decreases rules.custom@.len() - i,
    {
        let one = rules.custom[i].copy();
        proof {
            lists::kept_step(rules@.custom, keep_custom, i as int);
            lists::views_push(custom@, one);
        }
        if !one.matches(provider, id) {
            custom.push(one);
        }
        i = i + 1;
    }
    let mut disabled: Vec<RuleEntry> = Vec::new();
    let ghost keep_rule = not_own_rule(provider@, id@);
    let mut j: usize = 0;
    proof {
        lists::kept_all(rules@.disabled, keep_rule);
        assert(lists::views(disabled@) =~= Seq::empty());
    }
    while j < rules.disabled.len()
        invariant
            j <= rules.disabled@.len(),
            keep_rule == not_own_rule(provider@, id@),
            lists::views(disabled@) == rules@.disabled.take(j as int).filter(keep_rule),
        decreases rules.disabled@.len() - j,
    {
        let one = rules.disabled[j].copy();
        proof {
            lists::kept_step(rules@.disabled, keep_rule, j as int);
            lists::views_push(disabled@, one);
        }
        if !(text::eq_fold(one.id.as_str(), id) && model_rules::is_owned_by(&one.provider, provider)) {
            disabled.push(one);
        }
        j = j + 1;
    }
    let mut mappings: Vec<Mapping> = Vec::new();
    let ghost keep_mapping = leads_elsewhere(provider@, id@);
    let mut k: usize = 0;
    proof {
        lists::kept_all(rules@.mappings, keep_mapping);
        assert(lists::views(mappings@) =~= Seq::empty());
    }
    while k < rules.mappings.len()
        invariant
            k <= rules.mappings@.len(),
            keep_mapping == leads_elsewhere(provider@, id@),
            lists::views(mappings@) == rules@.mappings.take(k as int).filter(keep_mapping),
        decreases rules.mappings@.len() - k,
    {
        let one = rules.mappings[k].copy();
        proof {
            lists::kept_step(rules@.mappings, keep_mapping, k as int);
            lists::views_push(mappings@, one);
        }
        if !(text::eq_fold(one.target.as_str(), id) && model_rules::is_owned_by(&one.provider, provider)) {
            mappings.push(one);
        }
        k = k + 1;
    }
    (ModelRules { disabled, mappings, custom, seeded: rules.seeded }, true)
}

/// Whether a model of a provider was added.
pub fn is_custom(rules: &ModelRules, provider: &str, id: &str) -> (r: bool)
    ensures
        r == rules@.has_custom(provider@, id@),
{
    rules.has_custom(provider, id)
}

/// An added model as an entry of a list of models; nothing is said of what it can do.
pub open spec fn custom_entry(c: CustomV) -> Jv {
    Jv::obj().put("id"@, Jv::Str(c.id)).put("name"@, Jv::Str(c.id)).put(
        "isDefault"@,
        Jv::Bool(false),
    ).put("kind"@, Jv::Str("chat"@))
}

/// The reading of the added models of a provider as entries.
pub open spec fn custom_of(provider: Seq<char>) -> spec_fn(CustomV) -> Option<Jv> {
    |c: CustomV|
        if text::same_fold(c.provider, provider) {
            Some(custom_entry(c))
        } else {
            None
        }
}

/// The models added to a provider, as entries of a list of models.
pub fn custom_models_for(rules: &ModelRules, provider: &str) -> (r: Vec<Json>)
    ensures
        json::models(r@) == lists::chosen(rules@.custom, custom_of(provider@)),
{
    let ghost read = custom_of(provider@);
    let mut out: Vec<Json> = Vec::new();
    let mut i: usize = 0;
    proof {
        lists::chosen_all(rules@.custom, read);
        assert(json::models(out@) =~= Seq::empty());
    }
    while i < rules.custom.len()
        invariant
            i <= rules.custom@.len(),
            read == custom_of(provider@),
            json::models(out@) == lists::chosen(rules@.custom.take(i as int), read),
        decreases rules.custom@.len() - i,
    {
        let one = &rules.custom[i];
        proof {
            lists::chosen_step(rules@.custom, read, i as int);
            assert(rules@.custom[i as int] == one@);
        }
        if text::eq_fold(one.provider.as_str(), provider) {
            let entry = Json::obj().with("id", Json::Str(one.id.clone())).with(
                "name",
                Json::Str(one.id.clone()),
            ).with("isDefault", Json::Bool(false)).with("kind", Json::str("chat"));
            proof {
                json::models_push(out@, entry);
            }
            out.push(entry);
        }
        i = i + 1;
    }
    out
}

// ---------------------------------------------------------------------- laws

proof fn spread_says(
    list: Seq<RuleV>,
    provider: Seq<char>,
    id: Seq<char>,
    others: Seq<Seq<char>>,
    n: nat,
)
    requires
        n <= others.len(),
    ensures
        ({
            let r = spread(list, provider, id, others, n);
            &&& r.len() >= list.len()
            &&& forall|i: int| 0 <= i < list.len() ==> #[trigger] r[i] == list[i]
            &&& forall|i: int|
                list.len() <= i < r.len() ==> (#[trigger] r[i]).id == id && r[i].provider is Some
                    && !text::same_fold(r[i].provider->0, provider)
            &&& forall|j: int|
                0 <= j < n && !text::same_fold(#[trigger] others[j], provider) ==> lists::any(
                    r,
                    model_rules::closing(others[j], id),
                )
        }),
    decreases n,
{
    if n > 0 {
        spread_says(list, provider, id, others, (n - 1) as nat);
        let before = spread(list, provider, id, others, (n - 1) as nat);
        let r = spread(list, provider, id, others, n);
        assert forall|j: int| 0 <= j < n && !text::same_fold(#[trigger] others[j], provider) implies lists::any(
            r,
            model_rules::closing(others[j], id),
        ) by {
            if j == n - 1 && !lists::any(before, model_rules::closing(others[j], id)) {
                assert(model_rules::closing(others[j], id)(r[r.len() - 1]));
            } else {
                let i = choose|i: int|
                    0 <= i < before.len() && model_rules::closing(others[j], id)(#[trigger] before[i]);
                assert(r[i] == before[i]);
            }
        }
    }
}

/// A model that is opened for a provider is open for it.
pub proof fn opened_is_open(
    list: Seq<RuleV>,
    provider: Seq<char>,
    id: Seq<char>,
    others: Seq<Seq<char>>,
)
    ensures
        !lists::any(opened(list, provider, id, others), model_rules::closing(provider, id)),
{
    let kept = list.filter(not_closing(provider, id));
    lists::kept_says(list, not_closing(provider, id));
    spread_says(kept, provider, id, others, others.len());
    let r = opened(list, provider, id, others);
    assert forall|i: int| 0 <= i < r.len() implies !model_rules::closing(provider, id)(#[trigger] r[i]) by {
        if i < kept.len() {
            assert(r[i] == kept[i]);
            assert(not_closing(provider, id)(kept[i]));
        }
    }
}

/// Opening a model for one provider neither opens nor closes any model for another
/// one that has it.
pub proof fn others_stay_as_they_were(
    list: Seq<RuleV>,
    provider: Seq<char>,
    id: Seq<char>,
    others: Seq<Seq<char>>,
    k: int,
    model: Seq<char>,
)
    requires
        0 <= k < others.len(),
        !text::same_fold(others[k], provider),
    ensures
        lists::any(opened(list, provider, id, others), model_rules::closing(others[k], model)) == lists::any(
            list,
            model_rules::closing(others[k], model),
        ),
{
    let other = others[k];
    let pred = not_closing(provider, id);
    let kept = list.filter(pred);
    let r = opened(list, provider, id, others);
    lists::kept_says(list, pred);
    spread_says(kept, provider, id, others, others.len());
    if lists::any(list, model_rules::closing(other, model)) {
        let i = choose|i: int| 0 <= i < list.len() && model_rules::closing(other, model)(#[trigger] list[i]);
        if pred(list[i]) {
            assert(kept.contains(list[i]));
            let j = choose|j: int| 0 <= j < kept.len() && kept[j] == list[i];
            assert(r[j] == list[i]);
            assert(model_rules::closing(other, model)(r[j]));
        } else {
            assert(shared_rule(id)(list[i]));
            assert(lists::any(r, model_rules::closing(other, id)));
            let j = choose|j: int| 0 <= j < r.len() && model_rules::closing(other, id)(#[trigger] r[j]);
            assert(model_rules::closing(other, model)(r[j]));
        }
    }
    if lists::any(r, model_rules::closing(other, model)) {
        let i = choose|i: int| 0 <= i < r.len() && model_rules::closing(other, model)(#[trigger] r[i]);
        if i < kept.len() {
            assert(r[i] == kept[i]);
            assert(list.contains(kept[i]));
            let j = choose|j: int| 0 <= j < list.len() && list[j] == kept[i];
            assert(model_rules::closing(other, model)(list[j]));
        } else {
            let j = choose|j: int| 0 <= j < list.len() && shared_rule(id)(#[trigger] list[j]);
            assert(model_rules::closing(other, model)(list[j]));
        }
    }
}

/// A model that is closed for a provider, or for all, is closed for it.
pub proof fn closed_is_closed(
    list: Seq<RuleV>,
    provider: Option<Seq<char>>,
    id: Seq<char>,
    name: Seq<char>,
)
    requires
        model_rules::open_to(provider, name),
    ensures
        lists::any(closed(list, provider, id), model_rules::closing(name, id)),
{
    let r = closed(list, provider, id);
    assert(model_rules::closing(name, id)(r[r.len() - 1]));
}

/// Closing a model again leaves one rule about it, however the provider and the model were
/// spelled before.
pub proof fn closed_again(
    list: Seq<RuleV>,
    provider: Option<Seq<char>>,
    id: Seq<char>,
    again: Option<Seq<char>>,
    other: Seq<char>,
)
    requires
        model_rules::same_provider(provider, again),
        text::same_fold(id, other),
    ensures
        closed(closed(list, provider, id), again, other) == closed(list, again, other),
        closed(list, again, other).len() == list.filter(other_rule(again, other)).len() + 1,
{
    let pred = other_rule(provider, id);
    let next = other_rule(again, other);
    assert(pred =~= next);
    let r = closed(list, provider, id);
    let kept = list.filter(next);
    lists::kept_twice(list, next);
    lists::kept_step(r, next, kept.len() as int);
    assert(r.take(kept.len() as int) =~= kept);
    lists::kept_all(r, next);
    assert(r.filter(next) == kept);
}

/// A new mapping that a request says nothing of counts, whatever held for the provider
/// before.
pub proof fn new_mapping_counts(
    rules: RulesV,
    alias: Seq<char>,
    target: Seq<char>,
    provider: Option<Seq<char>>,
    reasoning: Option<Option<Seq<char>>>,
    others: Seq<Seq<char>>,
)
    requires
        !lists::any(rules.mappings, same_key(alias, target, provider)),
    ensures
        ({
            let r = mapping_set(rules, alias, target, provider, reasoning, None, others).0;
            &&& r.mappings.len() == rules.mappings.len() + 1
            &&& r.mappings.drop_last() == rules.mappings
            &&& r.mappings.last().provider == provider
            &&& r.mappings.last().leads(alias, target)
            &&& r.mappings.last().enabled
        }),
{
    let key = same_key(alias, target, provider);
    lists::first_where_says(rules.mappings, key, 0);
    let i = lists::first_where(rules.mappings, key, 0);
    if i < rules.mappings.len() {
        assert(key(rules.mappings[i]));
    }
    let r = mapping_set(rules, alias, target, provider, reasoning, None, others).0;
    assert(r.mappings.drop_last() =~= rules.mappings);
}

/// Opening or closing a model a second time changes nothing.
pub proof fn switching_twice(
    list: Seq<RuleV>,
    provider: Option<Seq<char>>,
    id: Seq<char>,
    enabled: bool,
    others: Seq<Seq<char>>,
)
    ensures
        switched(switched(list, provider, id, enabled, others), provider, id, enabled, others)
            == switched(list, provider, id, enabled, others),
{
    let r = switched(list, provider, id, enabled, others);
    if !enabled {
        let pred = other_rule(provider, id);
        let kept = list.filter(pred);
        lists::kept_twice(list, pred);
        lists::kept_step(r, pred, kept.len() as int);
        assert(r.take(kept.len() as int) =~= kept);
        lists::kept_all(r, pred);
        assert(r.filter(pred) == kept);
    } else if let Some(p) = provider {
        opened_is_open(list, p, id, others);
        let pred = not_closing(p, id);
        assert forall|i: int| 0 <= i < r.len() implies pred(#[trigger] r[i]) by {
            assert(!model_rules::closing(p, id)(r[i]));
        }
        lists::kept_whole(r, pred);
        assert(!lists::any(r, shared_rule(id))) by {
            if lists::any(r, shared_rule(id)) {
                let i = choose|i: int| 0 <= i < r.len() && shared_rule(id)(#[trigger] r[i]);
                assert(model_rules::closing(p, id)(r[i]));
            }
        }
    } else {
        lists::kept_twice(list, other_model(id));
    }
}

/// A model that is closed is no longer offered under its own name by any provider
/// that the change is for.
pub proof fn closing_withdraws(
    rules: RulesV,
    provider: Option<Seq<char>>,
    id: Seq<char>,
    others: Seq<Seq<char>>,
    name: Seq<char>,
)
    requires
        model_rules::open_to(provider, name),
    ensures
        !state_set(rules, provider, id, Some(false), others).default_enabled(name, id),
{
    closed_is_closed(rules.disabled, provider, id, name);
}

/// A model that is opened for a provider is offered under its own name, however the rules
/// spell the name of the provider.
pub proof fn opening_offers(
    rules: RulesV,
    provider: Seq<char>,
    id: Seq<char>,
    others: Seq<Seq<char>>,
)
    ensures
        state_set(rules, Some(provider), id, Some(true), others).default_enabled(provider, id),
{
    opened_is_open(rules.disabled, provider, id, others);
    let change = switching(Some(provider), id, true);
    let first = lists::mapped(rules.mappings, change);
    let all = with_own(first, Some(provider), id, true);
    let own = model_rules::own_binding(provider, id, id);
    assert forall|i: int| 0 <= i < all.len() && own(#[trigger] all[i]) implies all[i].enabled by {
        if i < first.len() {
            assert(all[i] == first[i]);
            assert(first[i] == change(rules.mappings[i]));
            assert(own(rules.mappings[i]));
        }
    }
    lists::found_says(all, own);
    lists::first_where_says(all, own, 0);
    lists::found_says(all, model_rules::shared_binding(id, id));
    lists::found_says(first, model_rules::shared_binding(id, id));
    if !lists::any(all, own) {
        if lists::any(all, model_rules::shared_binding(id, id)) {
            let i = choose|i: int| 0 <= i < all.len() && model_rules::shared_binding(id, id)(#[trigger] all[i]);
            if i < first.len() {
                assert(model_rules::shared_binding(id, id)(first[i]));
            }
            assert(lists::any(first, model_rules::shared_binding(id, id)));
            if lists::any(first, own) {
                let j = choose|j: int| 0 <= j < first.len() && own(#[trigger] first[j]);
                assert(all[j] == first[j]);
                assert(own(all[j]));
            } else {
                assert(own(all[all.len() - 1]));
            }
            assert(false);
        }
    }
}

/// Setting the same mapping a second time changes nothing.
pub proof fn mapping_set_twice(
    rules: RulesV,
    alias: Seq<char>,
    target: Seq<char>,
    provider: Option<Seq<char>>,
    reasoning: Option<Option<Seq<char>>>,
    enabled: Option<bool>,
    others: Seq<Seq<char>>,
)
    ensures
        ({
            let once = mapping_set(rules, alias, target, provider, reasoning, enabled, others).0;
            mapping_set(once, alias, target, provider, reasoning, enabled, others).0 == once
        }),
{
    let once = mapping_set(rules, alias, target, provider, reasoning, enabled, others).0;
    let twice = mapping_set(once, alias, target, provider, reasoning, enabled, others).0;
    if text::same_fold(alias, target) && enabled is Some {
        switching_twice(rules.disabled, provider, target, enabled->0, others);
    }
    let key = same_key(alias, target, provider);
    lists::first_where_says(rules.mappings, key, 0);
    lists::first_where_says(once.mappings, key, 0);
    let i = lists::first_where(rules.mappings, key, 0);
    assert(key(once.mappings[i]));
    assert forall|j: int| 0 <= j < i implies !key(#[trigger] once.mappings[j]) by {
        assert(once.mappings[j] == rules.mappings[j]);
    }
    assert(lists::first_where(once.mappings, key, 0) == i);
    assert(twice.mappings =~= once.mappings);
}

/// A mapping that is removed for a provider no longer holds for it.
pub proof fn removed_mapping_is_gone(
    rules: RulesV,
    alias: Seq<char>,
    target: Seq<char>,
    owner: Seq<char>,
    others: Seq<Seq<char>>,
)
    ensures
        mapping_removed(rules, alias, target, Some(owner), others).0.binding(owner, alias, target)
            is None,
{
    let stay = not_removed(alias, target, Some(owner));
    let kept = rules.mappings.filter(stay);
    lists::kept_says(rules.mappings, stay);
    spread_mappings_says(kept, owner, alias, target, others, others.len());
    let r = mapping_removed(rules, alias, target, Some(owner), others).0.mappings;
    let own = model_rules::own_binding(owner, alias, target);
    let shared = model_rules::shared_binding(alias, target);
    assert forall|i: int| 0 <= i < r.len() implies !own(#[trigger] r[i]) && !shared(r[i]) by {
        if i < kept.len() {
            assert(r[i] == kept[i]);
            assert(stay(kept[i]));
        }
    }
    lists::found_says(r, own);
    lists::found_says(r, shared);
}

proof fn spread_mappings_says(
    list: Seq<MappingV>,
    owner: Seq<char>,
    alias: Seq<char>,
    target: Seq<char>,
    others: Seq<Seq<char>>,
    n: nat,
)
    requires
        n <= others.len(),
    ensures
        ({
            let r = spread_mappings(list, owner, alias, target, others, n);
            &&& r.len() >= list.len()
            &&& forall|i: int| 0 <= i < list.len() ==> #[trigger] r[i] == list[i]
            &&& forall|i: int|
                list.len() <= i < r.len() ==> (#[trigger] r[i]).provider is Some && !text::same_fold(
                    r[i].provider->0,
                    owner,
                )
            &&& forall|j: int|
                0 <= j < n && !text::same_fold(#[trigger] others[j], owner) ==> lists::any(
                    r,
                    model_rules::own_binding(others[j], alias, target),
                )
        }),
    decreases n,
{
    if n > 0 {
        spread_mappings_says(list, owner, alias, target, others, (n - 1) as nat);
        let before = spread_mappings(list, owner, alias, target, others, (n - 1) as nat);
        let r = spread_mappings(list, owner, alias, target, others, n);
        assert forall|j: int| 0 <= j < n && !text::same_fold(#[trigger] others[j], owner) implies lists::any(
            r,
            model_rules::own_binding(others[j], alias, target),
        ) by {
            let own = model_rules::own_binding(others[j], alias, target);
            if j == n - 1 && !lists::any(before, own) {
                assert(own(r[r.len() - 1]));
            } else {
                let i = choose|i: int| 0 <= i < before.len() && own(#[trigger] before[i]);
                assert(r[i] == before[i]);
            }
        }
    }
}

/// A mapping that is removed for one provider still holds for another one that has
/// the model, where it did before.
pub proof fn others_keep_their_mapping(
    rules: RulesV,
    alias: Seq<char>,
    target: Seq<char>,
    owner: Seq<char>,
    others: Seq<Seq<char>>,
    k: int,
)
    requires
        0 <= k < others.len(),
        !text::same_fold(others[k], owner),
        rules.binding(others[k], alias, target) is Some,
    ensures
        mapping_removed(rules, alias, target, Some(owner), others).0.binding(
            others[k],
            alias,
            target,
        ) is Some,
{
    let other = others[k];
    let own = model_rules::own_binding(other, alias, target);
    let shared = model_rules::shared_binding(alias, target);
    let stay = not_removed(alias, target, Some(owner));
    let kept = rules.mappings.filter(stay);
    let r = mapping_removed(rules, alias, target, Some(owner), others).0.mappings;
    lists::kept_says(rules.mappings, stay);
    spread_mappings_says(kept, owner, alias, target, others, others.len());
    lists::found_says(rules.mappings, own);
    lists::found_says(rules.mappings, shared);
    lists::found_says(r, own);
    if !lists::any(rules.mappings, shared) {
        let i = choose|i: int| 0 <= i < rules.mappings.len() && own(#[trigger] rules.mappings[i]);
        assert(stay(rules.mappings[i]));
        let j = choose|j: int| 0 <= j < kept.len() && kept[j] == rules.mappings[i];
        assert(own(r[j]));
    }
}

/// A model that is added is there, and one that is removed is not.
pub proof fn added_and_removed(rules: RulesV, provider: Seq<char>, id: Seq<char>)
    ensures
        custom_added(rules, provider, id).has_custom(provider, id),
        !custom_removed(rules, provider, id).has_custom(provider, id),
{
    let a = custom_added(rules, provider, id).custom;
    if !rules.has_custom(provider, id) {
        assert(a[a.len() - 1].is(provider, id));
    }
    lists::kept_says(rules.custom, other_custom(provider, id));
    let b = custom_removed(rules, provider, id).custom;
    if rules.has_custom(provider, id) {
        assert forall|i: int| 0 <= i < b.len() implies !(#[trigger] b[i]).is(provider, id) by {
            assert(other_custom(provider, id)(b[i]));
        }
    }
}

/// A model that is added and removed again leaves the added models as they were.
pub proof fn added_then_removed(rules: RulesV, provider: Seq<char>, id: Seq<char>)
    requires
        !rules.has_custom(provider, id),
    ensures
        custom_removed(custom_added(rules, provider, id), provider, id).custom == rules.custom,
{
    let pred = other_custom(provider, id);
    let a = custom_added(rules, provider, id).custom;
    added_and_removed(rules, provider, id);
    assert forall|i: int| 0 <= i < rules.custom.len() implies pred(#[trigger] rules.custom[i]) by {
        assert(!rules.custom[i].is(provider, id));
    }
    lists::kept_whole(rules.custom, pred);
    lists::kept_step(a, pred, rules.custom.len() as int);
    assert(a.take(rules.custom.len() as int) =~= rules.custom);
    lists::kept_all(a, pred);
}

} // verus!
