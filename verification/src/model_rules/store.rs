//! How the rules are kept in the configuration.

use crate::json::{Json, Jv};
use crate::json;
use crate::lists;
use crate::model_rules::reasoning;
use crate::model_rules::{CustomModel, CustomV, Mapping, MappingV, ModelRules, RuleEntry, RuleV, RulesV};
use crate::model_rules;
use crate::text;
use vstd::prelude::*;
use vstd::string::*;

verus! {

/// A text without the white space at its ends; none where nothing is left.
pub open spec fn solid(s: Seq<char>) -> Option<Seq<char>> {
    if text::trimmed(s).len() > 0 {
        Some(text::trimmed(s))
    } else {
        None
    }
}

/// The solid text of a value that may be missing.
pub open spec fn solid_in(j: Option<Jv>) -> Option<Seq<char>> {
    match json::opt_str(j) {
        Some(s) => solid(s),
        None => None,
    }
}

/// The solid text of a value that may be missing.
pub(crate) fn read_solid(j: Option<&Json>) -> (r: Option<String>)
    ensures
        json::opt_string(r) == solid_in(json::opt_model(j)),
{
    match j {
        Some(v) => match v.as_str() {
            Some(s) => {
                let t = text::trim(s);
                if t.as_str().is_empty() {
                    None
                } else {
                    Some(t)
                }
            },
            None => None,
        },
        None => None,
    }
}

/// The items of a value that may be missing.
pub open spec fn items_in(j: Option<Jv>) -> Seq<Jv> {
    match j {
        Some(v) => v.items(),
        None => Seq::empty(),
    }
}

/// What an item of the list of closed models says: a text alone is the name of a
/// model and holds for all providers.
pub open spec fn rule_in(j: Jv) -> Option<RuleV> {
    match j {
        Jv::Str(s) => match solid(s) {
            Some(id) => Some(RuleV { provider: None, id }),
            None => None,
        },
        _ => match solid_in(j.get("id"@)) {
            Some(id) => Some(RuleV { provider: solid_in(j.get("provider"@)), id }),
            None => None,
        },
    }
}

/// What an item of the list of mappings says.
pub open spec fn mapping_in(j: Jv) -> Option<MappingV> {
    match (solid_in(j.get("alias"@)), solid_in(j.get("target"@))) {
        (Some(alias), Some(target)) => Some(
            MappingV {
                alias,
                target,
                provider: solid_in(j.get("provider"@)),
                reasoning: match json::opt_str(j.get("reasoning"@)) {
                    Some(s) => reasoning::normal_level(s),
                    None => None,
                },
                enabled: j.get("enabled"@) != Some(Jv::Bool(false)),
            },
        ),
        _ => None,
    }
}

/// What an item of the list of added models says.
pub open spec fn custom_in(j: Jv) -> Option<CustomV> {
    match (solid_in(j.get("provider"@)), solid_in(j.get("id"@))) {
        (Some(provider), Some(id)) => Some(CustomV { provider, id }),
        _ => None,
    }
}

/// The reading of closed models.
pub open spec fn rule_reader() -> spec_fn(Jv) -> Option<RuleV> {
    |j: Jv| rule_in(j)
}

/// The reading of mappings.
pub open spec fn mapping_reader() -> spec_fn(Jv) -> Option<MappingV> {
    |j: Jv| mapping_in(j)
}

/// The reading of added models.
pub open spec fn custom_reader() -> spec_fn(Jv) -> Option<CustomV> {
    |j: Jv| custom_in(j)
}

/// The reading of marks.
pub open spec fn mark_reader() -> spec_fn(Jv) -> Option<Seq<char>> {
    |j: Jv| solid_in(Some(j))
}

/// The rules that a configuration holds. An item that cannot be read is left out.
pub open spec fn rules_in(raw: Jv) -> RulesV {
    match raw.get(model_rules::KEY_MODEL_RULES@) {
        Some(Jv::Obj(m)) => {
            let kept = Jv::Obj(m);
            RulesV {
                disabled: lists::chosen(items_in(kept.get("disabled"@)), rule_reader()),
                mappings: lists::chosen(items_in(kept.get("mappings"@)), mapping_reader()),
                custom: lists::chosen(items_in(kept.get("custom"@)), custom_reader()),
                seeded: lists::chosen(items_in(kept.get("seeded"@)), mark_reader()),
            }
        },
        _ => model_rules::no_rules(),
    }
}

/// What an item of the list of closed models says.
fn read_rule(j: &Json) -> (r: Option<RuleEntry>)
    ensures
        r is Some <==> rule_in(j@) is Some,
        r matches Some(e) ==> rule_in(j@) == Some(e@),
{
    match j {
        Json::Str(_) => match read_solid(Some(j)) {
            Some(id) => Some(RuleEntry { provider: None, id }),
            None => None,
        },
        _ => match read_solid(j.get("id")) {
            Some(id) => Some(RuleEntry { provider: read_solid(j.get("provider")), id }),
            None => None,
        },
    }
}

/// What an item of the list of mappings says.
fn read_mapping(j: &Json) -> (r: Option<Mapping>)
    ensures
        r is Some <==> mapping_in(j@) is Some,
        r matches Some(m) ==> mapping_in(j@) == Some(m@),
{
    let alias = match read_solid(j.get("alias")) {
        Some(s) => s,
        None => {
            return None;
        },
    };
    let target = match read_solid(j.get("target")) {
        Some(s) => s,
        None => {
            return None;
        },
    };
    let reasoning = match j.get("reasoning") {
        Some(v) => match v.as_str() {
            Some(s) => reasoning::normalize_reasoning(s),
            None => None,
        },
        None => None,
    };
    let enabled = match j.get("enabled") {
        Some(v) => match v.as_bool() {
            Some(b) => b,
            None => true,
        },
        None => true,
    };
    Some(Mapping { alias, target, provider: read_solid(j.get("provider")), reasoning, enabled })
}

/// What an item of the list of added models says.
fn read_custom(j: &Json) -> (r: Option<CustomModel>)
    ensures
        r is Some <==> custom_in(j@) is Some,
        r matches Some(c) ==> custom_in(j@) == Some(c@),
{
    match (read_solid(j.get("provider")), read_solid(j.get("id"))) {
        (Some(provider), Some(id)) => Some(CustomModel { provider, id }),
        _ => None,
    }
}

/// The items of a value that may be missing.
fn list_in(j: Option<&Json>) -> (r: Option<&Vec<Json>>)
    ensures
        items_in(json::opt_model(j)) == (match r {
            Some(v) => json::models(v@),
            None => Seq::empty(),
        }),
{
    match j {
        Some(v) => v.as_arr(),
        None => None,
    }
}

/// The rules of a list of closed models.
fn read_rules(list: Option<&Json>) -> (r: Vec<RuleEntry>)
    ensures
        lists::views(r@) == lists::chosen(items_in(json::opt_model(list)), rule_reader()),
{
    let ghost want = items_in(json::opt_model(list));
    let mut out: Vec<RuleEntry> = Vec::new();
    proof {
        lists::chosen_all(want, rule_reader());
        assert(lists::views(out@) =~= Seq::empty());
        assert(lists::chosen(Seq::<Jv>::empty(), rule_reader()) == Seq::<RuleV>::empty());
    }
    if let Some(items) = list_in(list) {
        let mut i: usize = 0;
        while i < items.len()
            invariant
                i <= items@.len(),
                want == json::models(items@),
                lists::views(out@) == lists::chosen(want.take(i as int), rule_reader()),
            decreases items@.len() - i,
        {
            proof {
                lists::chosen_step(want, rule_reader(), i as int);
            }
            if let Some(one) = read_rule(&items[i]) {
                proof {
                    lists::views_push(out@, one);
                }
                out.push(one);
            }
            i = i + 1;
        }
    }
    out
}

/// The mappings of a list.
fn read_mappings(list: Option<&Json>) -> (r: Vec<Mapping>)
    ensures
        lists::views(r@) == lists::chosen(items_in(json::opt_model(list)), mapping_reader()),
{
    let ghost want = items_in(json::opt_model(list));
    let mut out: Vec<Mapping> = Vec::new();
    proof {
        lists::chosen_all(want, mapping_reader());
        assert(lists::views(out@) =~= Seq::empty());
        assert(lists::chosen(Seq::<Jv>::empty(), mapping_reader()) == Seq::<MappingV>::empty());
    }
    if let Some(items) = list_in(list) {
        let mut i: usize = 0;
        while i < items.len()
            invariant
                i <= items@.len(),
                want == json::models(items@),
                lists::views(out@) == lists::chosen(want.take(i as int), mapping_reader()),
            decreases items@.len() - i,
        {
            proof {
                lists::chosen_step(want, mapping_reader(), i as int);
            }
            if let Some(one) = read_mapping(&items[i]) {
                proof {
                    lists::views_push(out@, one);
                }
                out.push(one);
            }
            i = i + 1;
        }
    }
    out
}

/// The added models of a list.
fn read_customs(list: Option<&Json>) -> (r: Vec<CustomModel>)
    ensures
        lists::views(r@) == lists::chosen(items_in(json::opt_model(list)), custom_reader()),
{
    let ghost want = items_in(json::opt_model(list));
    let mut out: Vec<CustomModel> = Vec::new();
    proof {
        lists::chosen_all(want, custom_reader());
        assert(lists::views(out@) =~= Seq::empty());
        assert(lists::chosen(Seq::<Jv>::empty(), custom_reader()) == Seq::<CustomV>::empty());
    }
    if let Some(items) = list_in(list) {
        let mut i: usize = 0;
        while i < items.len()
            invariant
                i <= items@.len(),
                want == json::models(items@),
                lists::views(out@) == lists::chosen(want.take(i as int), custom_reader()),
            decreases items@.len() - i,
        {
            proof {
                lists::chosen_step(want, custom_reader(), i as int);
            }
            if let Some(one) = read_custom(&items[i]) {
                proof {
                    lists::views_push(out@, one);
                }
                out.push(one);
            }
            i = i + 1;
        }
    }
    out
}

/// The marks of a list.
fn read_marks(list: Option<&Json>) -> (r: Vec<String>)
    ensures
        lists::views(r@) == lists::chosen(items_in(json::opt_model(list)), mark_reader()),
{
    let ghost want = items_in(json::opt_model(list));
    let mut out: Vec<String> = Vec::new();
    proof {
        lists::chosen_all(want, mark_reader());
        assert(lists::views(out@) =~= Seq::empty());
        assert(lists::chosen(Seq::<Jv>::empty(), mark_reader()) == Seq::<Seq<char>>::empty());
    }
    if let Some(items) = list_in(list) {
        let mut i: usize = 0;
        while i < items.len()
            invariant
                i <= items@.len(),
                want == json::models(items@),
                lists::views(out@) == lists::chosen(want.take(i as int), mark_reader()),
            decreases items@.len() - i,
        {
            proof {
                lists::chosen_step(want, mark_reader(), i as int);
            }
            if let Some(one) = read_solid(Some(&items[i])) {
                proof {
                    lists::views_push(out@, one);
                }
                out.push(one);
            }
            i = i + 1;
        }
    }
    out
}

impl ModelRules {
    /// The rules that a configuration holds. An item that cannot be read is left out.
    pub fn from_raw(raw: &Json) -> (r: ModelRules)
        ensures
            r@ == rules_in(raw@),
    {
        match raw.get(model_rules::KEY_MODEL_RULES) {
            Some(kept) => if kept.is_obj() {
                ModelRules {
                    disabled: read_rules(kept.get("disabled")),
                    mappings: read_mappings(kept.get("mappings")),
                    custom: read_customs(kept.get("custom")),
                    seeded: read_marks(kept.get("seeded")),
                }
            } else {
                ModelRules::default()
            },
            None => ModelRules::default(),
        }
    }

    /// The rules as the configuration keeps them.
    pub fn to_value(&self) -> (r: Json)
        ensures
            r@ == rules_value(self@),
    {
        let mut disabled: Vec<Json> = Vec::new();
        let ghost want_disabled = lists::mapped(self@.disabled, rule_writer());
        let mut i: usize = 0;
        while i < self.disabled.len()
            invariant
                i <= self.disabled@.len(),
                want_disabled == lists::mapped(self@.disabled, rule_writer()),
                json::models(disabled@) == want_disabled.take(i as int),
            decreases self.disabled@.len() - i,
        {
            let one = self.disabled[i].to_value();
            proof {
                json::models_push(disabled@, one);
                assert(want_disabled.take(i as int).push(want_disabled[i as int])
                    =~= want_disabled.take(i as int + 1));
            }
            disabled.push(one);
            i = i + 1;
        }
        let mut mappings: Vec<Json> = Vec::new();
        let ghost want_mappings = lists::mapped(self@.mappings, mapping_writer());
        let mut j: usize = 0;
        while j < self.mappings.len()
            invariant
                j <= self.mappings@.len(),
                want_mappings == lists::mapped(self@.mappings, mapping_writer()),
                json::models(mappings@) == want_mappings.take(j as int),
            decreases self.mappings@.len() - j,
        {
            let one = self.mappings[j].to_value();
            proof {
                json::models_push(mappings@, one);
                assert(want_mappings.take(j as int).push(want_mappings[j as int])
                    =~= want_mappings.take(j as int + 1));
            }
            mappings.push(one);
            j = j + 1;
        }
        let mut custom: Vec<Json> = Vec::new();
        let ghost want_custom = lists::mapped(self@.custom, custom_writer());
        let mut k: usize = 0;
        while k < self.custom.len()
            invariant
                k <= self.custom@.len(),
                want_custom == lists::mapped(self@.custom, custom_writer()),
                json::models(custom@) == want_custom.take(k as int),
            decreases self.custom@.len() - k,
        {
            let one = self.custom[k].to_value();
            proof {
                json::models_push(custom@, one);
                assert(want_custom.take(k as int).push(want_custom[k as int])
                    =~= want_custom.take(k as int + 1));
            }
            custom.push(one);
            k = k + 1;
        }
        let mut seeded: Vec<Json> = Vec::new();
        let ghost want_seeded = lists::mapped(self@.seeded, mark_writer());
        let mut n: usize = 0;
        while n < self.seeded.len()
            invariant
                n <= self.seeded@.len(),
                want_seeded == lists::mapped(self@.seeded, mark_writer()),
                json::models(seeded@) == want_seeded.take(n as int),
            decreases self.seeded@.len() - n,
        {
            let one = Json::Str(self.seeded[n].clone());
            proof {
                json::models_push(seeded@, one);
                assert(want_seeded.take(n as int).push(want_seeded[n as int])
                    =~= want_seeded.take(n as int + 1));
            }
            seeded.push(one);
            n = n + 1;
        }
        proof {
            assert(want_disabled.take(want_disabled.len() as int) =~= want_disabled);
            assert(want_mappings.take(want_mappings.len() as int) =~= want_mappings);
            assert(want_custom.take(want_custom.len() as int) =~= want_custom);
            assert(want_seeded.take(want_seeded.len() as int) =~= want_seeded);
            json::model_arr(disabled);
            json::model_arr(mappings);
            json::model_arr(custom);
            json::model_arr(seeded);
        }
        Json::obj().with("disabled", Json::Arr(disabled)).with(
            "mappings",
            Json::Arr(mappings),
        ).with("custom", Json::Arr(custom)).with("seeded", Json::Arr(seeded))
    }
}

/// A closed model as the configuration keeps it.
pub open spec fn rule_value(e: RuleV) -> Jv {
    match e.provider {
        Some(p) => Jv::obj().put("provider"@, Jv::Str(p)).put("id"@, Jv::Str(e.id)),
        None => Jv::Str(e.id),
    }
}

/// A text that may be missing, else `null`.
pub open spec fn text_or_null(s: Option<Seq<char>>) -> Jv {
    match s {
        Some(t) => Jv::Str(t),
        None => Jv::Null,
    }
}

/// A mapping as the configuration keeps it; that it counts is not written.
pub open spec fn mapping_value(m: MappingV) -> Jv {
    let base = Jv::obj().put("alias"@, Jv::Str(m.alias)).put("target"@, Jv::Str(m.target)).put(
        "provider"@,
        text_or_null(m.provider),
    ).put("reasoning"@, text_or_null(m.reasoning));
    if m.enabled {
        base
    } else {
        base.put("enabled"@, Jv::Bool(false))
    }
}

/// An added model as the configuration keeps it.
pub open spec fn custom_value(c: CustomV) -> Jv {
    Jv::obj().put("provider"@, Jv::Str(c.provider)).put("id"@, Jv::Str(c.id))
}

/// The writing of closed models.
pub open spec fn rule_writer() -> spec_fn(RuleV) -> Jv {
    |e: RuleV| rule_value(e)
}

/// The writing of mappings.
pub open spec fn mapping_writer() -> spec_fn(MappingV) -> Jv {
    |m: MappingV| mapping_value(m)
}

/// The writing of added models.
pub open spec fn custom_writer() -> spec_fn(CustomV) -> Jv {
    |c: CustomV| custom_value(c)
}

/// The writing of marks.
pub open spec fn mark_writer() -> spec_fn(Seq<char>) -> Jv {
    |s: Seq<char>| Jv::Str(s)
}

/// The rules as the configuration keeps them.
pub open spec fn rules_value(r: RulesV) -> Jv {
    Jv::obj().put("disabled"@, Jv::Arr(lists::mapped(r.disabled, rule_writer()))).put(
        "mappings"@,
        Jv::Arr(lists::mapped(r.mappings, mapping_writer())),
    ).put("custom"@, Jv::Arr(lists::mapped(r.custom, custom_writer()))).put(
        "seeded"@,
        Jv::Arr(lists::mapped(r.seeded, mark_writer())),
    )
}

/// A text that may be missing, else `null`.
pub(crate) fn or_null(s: &Option<String>) -> (r: Json)
    ensures
        r@ == text_or_null(json::opt_string(*s)),
{
    match s {
        Some(t) => Json::Str(t.clone()),
        None => Json::Null,
    }
}

impl RuleEntry {
    /// A closed model as the configuration keeps it.
    fn to_value(&self) -> (r: Json)
        ensures
            r@ == rule_value(self@),
    {
        match &self.provider {
            Some(p) => Json::obj().with("provider", Json::Str(p.clone())).with(
                "id",
                Json::Str(self.id.clone()),
            ),
            None => Json::Str(self.id.clone()),
        }
    }
}

impl Mapping {
    /// A mapping as the configuration keeps it.
    fn to_value(&self) -> (r: Json)
        ensures
            r@ == mapping_value(self@),
    {
        let mut out = Json::obj().with("alias", Json::Str(self.alias.clone())).with(
            "target",
            Json::Str(self.target.clone()),
        ).with("provider", or_null(&self.provider)).with("reasoning", or_null(&self.reasoning));
        if !self.enabled {
            out.put("enabled", Json::Bool(false));
        }
        out
    }
}

impl CustomModel {
    /// An added model as the configuration keeps it.
    fn to_value(&self) -> (r: Json)
        ensures
            r@ == custom_value(self@),
    {
        Json::obj().with("provider", Json::Str(self.provider.clone())).with(
            "id",
            Json::Str(self.id.clone()),
        )
    }
}

// ---------------------------------------------------------------------- laws

/// A text that is not blank and has no white space at its ends.
pub open spec fn clean(s: Seq<char>) -> bool {
    s.len() > 0 && text::trimmed(s) == s
}

/// The same of a text that may be missing.
pub open spec fn clean_if_any(s: Option<Seq<char>>) -> bool {
    match s {
        Some(t) => clean(t),
        None => true,
    }
}

/// Rules whose texts are all clean.
pub open spec fn clean_rules(r: RulesV) -> bool {
    &&& forall|i: int|
        0 <= i < r.disabled.len() ==> clean((#[trigger] r.disabled[i]).id) && clean_if_any(
            r.disabled[i].provider,
        )
    &&& forall|i: int|
        0 <= i < r.mappings.len() ==> clean((#[trigger] r.mappings[i]).alias) && clean(
            r.mappings[i].target,
        ) && clean_if_any(r.mappings[i].provider) && clean_if_any(r.mappings[i].reasoning)
    &&& forall|i: int|
        0 <= i < r.custom.len() ==> clean((#[trigger] r.custom[i]).provider) && clean(
            r.custom[i].id,
        )
    &&& forall|i: int| 0 <= i < r.seeded.len() ==> clean(#[trigger] r.seeded[i])
}

proof fn solid_is_clean(s: Seq<char>)
    ensures
        solid(s) matches Some(t) ==> clean(t),
        clean(s) ==> solid(s) == Some(s),
{
    text::trimmed_twice(s);
}

proof fn solid_in_is_clean(j: Option<Jv>)
    ensures
        clean_if_any(solid_in(j)),
{
    if let Some(s) = json::opt_str(j) {
        solid_is_clean(s);
    }
}

/// The rules that a configuration holds are clean, whatever it holds.
pub proof fn read_rules_are_clean(raw: Jv)
    ensures
        clean_rules(rules_in(raw)),
{
    let r = rules_in(raw);
    if let Some(Jv::Obj(m)) = raw.get(model_rules::KEY_MODEL_RULES@) {
        let kept = Jv::Obj(m);
        let a = items_in(kept.get("disabled"@));
        lists::chosen_says(a, rule_reader());
        assert forall|i: int| 0 <= i < r.disabled.len() implies clean(
            (#[trigger] r.disabled[i]).id,
        ) && clean_if_any(r.disabled[i].provider) by {
            let j = choose|j: int|
                0 <= j < a.len() && rule_reader()(#[trigger] a[j]) == Some(r.disabled[i]);
            assert(rule_in(a[j]) == Some(r.disabled[i]));
            solid_in_is_clean(a[j].get("id"@));
            solid_in_is_clean(a[j].get("provider"@));
            if let Jv::Str(s) = a[j] {
                solid_is_clean(s);
            }
        }
        let b = items_in(kept.get("mappings"@));
        lists::chosen_says(b, mapping_reader());
        assert forall|i: int| 0 <= i < r.mappings.len() implies clean(
            (#[trigger] r.mappings[i]).alias,
        ) && clean(r.mappings[i].target) && clean_if_any(r.mappings[i].provider) && clean_if_any(
            r.mappings[i].reasoning,
        ) by {
            let j = choose|j: int|
                0 <= j < b.len() && mapping_reader()(#[trigger] b[j]) == Some(r.mappings[i]);
            assert(mapping_in(b[j]) == Some(r.mappings[i]));
            solid_in_is_clean(b[j].get("alias"@));
            solid_in_is_clean(b[j].get("target"@));
            solid_in_is_clean(b[j].get("provider"@));
            solid_in_is_clean(b[j].get("reasoning"@));
        }
        let c = items_in(kept.get("custom"@));
        lists::chosen_says(c, custom_reader());
        assert forall|i: int| 0 <= i < r.custom.len() implies clean(
            (#[trigger] r.custom[i]).provider,
        ) && clean(r.custom[i].id) by {
            let j = choose|j: int|
                0 <= j < c.len() && custom_reader()(#[trigger] c[j]) == Some(r.custom[i]);
            assert(custom_in(c[j]) == Some(r.custom[i]));
            solid_in_is_clean(c[j].get("provider"@));
            solid_in_is_clean(c[j].get("id"@));
        }
        let d = items_in(kept.get("seeded"@));
        lists::chosen_says(d, mark_reader());
        assert forall|i: int| 0 <= i < r.seeded.len() implies clean(#[trigger] r.seeded[i]) by {
            let j = choose|j: int|
                0 <= j < d.len() && mark_reader()(#[trigger] d[j]) == Some(r.seeded[i]);
            assert(solid_in(Some(d[j])) == Some(r.seeded[i]));
            solid_in_is_clean(Some(d[j]));
        }
    }
}

proof fn rule_comes_back(e: RuleV)
    requires
        clean(e.id),
        clean_if_any(e.provider),
    ensures
        rule_in(rule_value(e)) == Some(e),
{
    reveal_strlit("id");
    reveal_strlit("provider");
    assert("id"@.len() != "provider"@.len());
    solid_is_clean(e.id);
    if let Some(p) = e.provider {
        solid_is_clean(p);
    }
}

proof fn mapping_comes_back(m: MappingV)
    requires
        clean(m.alias),
        clean(m.target),
        clean_if_any(m.provider),
        clean_if_any(m.reasoning),
    ensures
        mapping_in(mapping_value(m)) == Some(m),
{
    reveal_strlit("alias");
    reveal_strlit("target");
    reveal_strlit("provider");
    reveal_strlit("reasoning");
    reveal_strlit("enabled");
    assert("alias"@.len() == 5);
    assert("target"@.len() == 6);
    assert("provider"@.len() == 8);
    assert("reasoning"@.len() == 9);
    assert("enabled"@.len() == 7);
    solid_is_clean(m.alias);
    solid_is_clean(m.target);
    if let Some(p) = m.provider {
        solid_is_clean(p);
    }
    if let Some(p) = m.reasoning {
        solid_is_clean(p);
    }
}

proof fn custom_comes_back(c: CustomV)
    requires
        clean(c.provider),
        clean(c.id),
    ensures
        custom_in(custom_value(c)) == Some(c),
{
    reveal_strlit("id");
    reveal_strlit("provider");
    assert("id"@.len() != "provider"@.len());
    solid_is_clean(c.provider);
    solid_is_clean(c.id);
}

/// Rules that are written to a configuration are read back as they were.
pub proof fn written_rules_read_back(raw: Jv, r: RulesV)
    requires
        raw is Obj,
        clean_rules(r),
    ensures
        rules_in(raw.put(model_rules::KEY_MODEL_RULES@, rules_value(r))) == r,
{
    reveal_strlit("disabled");
    reveal_strlit("mappings");
    reveal_strlit("custom");
    reveal_strlit("seeded");
    assert("disabled"@.len() == 8);
    assert("mappings"@.len() == 8);
    assert("disabled"@[0] == 'd');
    assert("mappings"@[0] == 'm');
    assert("custom"@.len() == 6);
    assert("seeded"@.len() == 6);
    assert("custom"@[0] == 'c');
    assert("seeded"@[0] == 's');
    let a = lists::mapped(r.disabled, rule_writer());
    assert forall|i: int| 0 <= i < a.len() implies rule_reader()(#[trigger] a[i]) == Some(
        r.disabled[i],
    ) by {
        rule_comes_back(r.disabled[i]);
    }
    lists::chosen_whole(a, rule_reader(), r.disabled);
    let b = lists::mapped(r.mappings, mapping_writer());
    assert forall|i: int| 0 <= i < b.len() implies mapping_reader()(#[trigger] b[i]) == Some(
        r.mappings[i],
    ) by {
        mapping_comes_back(r.mappings[i]);
    }
    lists::chosen_whole(b, mapping_reader(), r.mappings);
    let c = lists::mapped(r.custom, custom_writer());
    assert forall|i: int| 0 <= i < c.len() implies custom_reader()(#[trigger] c[i]) == Some(
        r.custom[i],
    ) by {
        custom_comes_back(r.custom[i]);
    }
    lists::chosen_whole(c, custom_reader(), r.custom);
    let d = lists::mapped(r.seeded, mark_writer());
    assert forall|i: int| 0 <= i < d.len() implies mark_reader()(#[trigger] d[i]) == Some(
        r.seeded[i],
    ) by {
        solid_is_clean(r.seeded[i]);
    }
    lists::chosen_whole(d, mark_reader(), r.seeded);
    assert(raw.put(model_rules::KEY_MODEL_RULES@, rules_value(r)).get(model_rules::KEY_MODEL_RULES@) == Some(rules_value(r)));
}

/// The rules that hold now, as the configuration says them.
pub fn current(raw: &Json) -> (r: ModelRules)
    ensures
        r@ == rules_in(raw@),
{
    ModelRules::from_raw(raw)
}

} // verus!
