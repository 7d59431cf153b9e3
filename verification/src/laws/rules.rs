//! The rules of the models: how they are kept, changed and begun.

use crate::json::Jv;
use crate::json;
use crate::laws::holds;
use crate::laws::targets::{belongs, maps};
use crate::lists;
use crate::model_rules::cline as split;
use crate::model_rules::edit;
use crate::model_rules::seed::{PlanV, SeedV};
use crate::model_rules::seed;
use crate::model_rules::store;
use crate::model_rules::{CustomV, MappingV, RuleV, RulesV};
use crate::model_rules;
use crate::providers::cline::Pool;
use crate::providers::cline;
use crate::text;
use vstd::prelude::*;
use vstd::string::*;

verus! {

// -------------------------------------------------------------- changing

/// The level that a mapping has; none where there is no mapping.
pub open spec fn level_in(m: Option<MappingV>) -> Option<Seq<char>> {
    match m {
        Some(m) => m.reasoning,
        None => None,
    }
}

proof fn first_is(s: Seq<MappingV>, pred: spec_fn(MappingV) -> bool, i: int)
    requires
        0 <= i < s.len(),
        pred(s[i]),
        forall|k: int| 0 <= k < i ==> !pred(#[trigger] s[k]),
    ensures
        lists::found(s, pred) == Some(s[i]),
{
    lists::first_where_says(s, pred, 0);
}

/// A mapping that is set for a provider is the one that counts there: with the level that is
/// given, none where none is wanted, and else the one that counted before; on or off as it is
/// told, and on where it is new.
pub proof fn mapping_takes_what_is_given(
    rules: RulesV,
    alias: Seq<char>,
    target: Seq<char>,
    owner: Seq<char>,
    reasoning: Option<Option<Seq<char>>>,
    enabled: Option<bool>,
    others: Seq<Seq<char>>,
)
    ensures
        ({
            let r = edit::mapping_set(rules, alias, target, Some(owner), reasoning, enabled, others).0;
            let before = rules.binding(owner, alias, target);
            &&& r.binding(owner, alias, target) matches Some(m) && {
                &&& (reasoning matches Some(Some(level)) ==> text::trimmed(level).len() > 0 ==> m.reasoning
                    == Some(text::trimmed(level)))
                &&& (reasoning matches Some(Some(level)) ==> text::trimmed(level).len() == 0
                    ==> m.reasoning is None)
                &&& reasoning == Some(None::<Seq<char>>) ==> m.reasoning is None
                &&& reasoning is None ==> m.reasoning == level_in(before)
                &&& (enabled matches Some(on) ==> m.enabled == on)
                &&& enabled is None && before is None ==> m.enabled
                &&& (enabled is None ==> (before matches Some(b) ==> belongs(b, owner) ==> m.enabled
                    == b.enabled))
                &&& maps(m, alias, target)
                &&& belongs(m, owner)
            }
        }),
{
    let key = edit::same_key(alias, target, Some(owner));
    let own = model_rules::own_binding(owner, alias, target);
    lists::first_where_says(rules.mappings, key, 0);
    lists::first_where_says(rules.mappings, own, 0);
    let i = lists::first_where(rules.mappings, key, 0);
    let r = edit::mapping_set(rules, alias, target, Some(owner), reasoning, enabled, others).0;
    assert forall|m: MappingV| #[trigger] key(m) == own(m) by {}
    if i < rules.mappings.len() {
        assert(own(rules.mappings[i])) by {
            assert(key(rules.mappings[i]));
        }
        assert forall|k: int| 0 <= k < i implies !own(#[trigger] rules.mappings[k]) by {
            assert(!key(rules.mappings[k]));
        }
        first_is(rules.mappings, own, i);
        assert(own(r.mappings[i]));
        assert forall|k: int| 0 <= k < i implies !own(#[trigger] r.mappings[k]) by {
            assert(r.mappings[k] == rules.mappings[k]);
        }
        first_is(r.mappings, own, i);
    } else {
        assert forall|k: int| 0 <= k < rules.mappings.len() implies !own(
            #[trigger] rules.mappings[k],
        ) by {
            assert(!key(rules.mappings[k]));
        }
        let n = rules.mappings.len() as int;
        assert(own(r.mappings[n]));
        assert forall|k: int| 0 <= k < n implies !own(#[trigger] r.mappings[k]) by {
            assert(r.mappings[k] == rules.mappings[k]);
        }
        first_is(r.mappings, own, n);
        lists::found_says(rules.mappings, own);
        assert(lists::found(rules.mappings, own) is None) by {
            if lists::any(rules.mappings, own) {
                let k = choose|k: int| 0 <= k < rules.mappings.len() && own(#[trigger] rules.mappings[k]);
                assert(!own(rules.mappings[k]));
            }
        }
        let shared = model_rules::shared_binding(alias, target);
        lists::found_says(rules.mappings, shared);
    }
}

/// A name for a model has up to a hundred and twenty-eight letters, digits and marks of those
/// that are allowed, and no other character.
pub proof fn names_are_plain(alias: Seq<char>, i: int)
    requires
        0 <= i < alias.len(),
    ensures
        alias.len() > 128 ==> !edit::valid_alias(alias),
        edit::valid_alias(alias) ==> ('a' <= alias[i] <= 'z' || 'A' <= alias[i] <= 'Z' || '0' <= alias[i]
            <= '9' || alias[i] == '-' || alias[i] == '_' || alias[i] == '.' || alias[i] == '/' || alias[i]
            == ':'),
        !edit::valid_alias(Seq::empty()),
        forall|c: char|
            #![trigger edit::valid_alias(seq![c])]
            edit::valid_alias(seq![c]) <==> ('a' <= c <= 'z' || 'A' <= c <= 'Z' || '0' <= c <= '9' || c
                == '-' || c == '_' || c == '.' || c == '/' || c == ':'),
{
    assert forall|c: char| #![trigger edit::valid_alias(seq![c])] edit::valid_alias(seq![c]) <==> (
    'a' <= c <= 'z' || 'A' <= c <= 'Z' || '0' <= c <= '9' || c == '-' || c == '_' || c == '.' || c == '/'
        || c == ':') by {
        let s = seq![c];
        assert(s[0] == c);
        if edit::valid_alias(s) {
            assert(edit::alias_char(s[0]));
        }
    }
    if edit::valid_alias(alias) {
        assert(edit::alias_char(alias[i]));
    }
}

/// A model that a user has added is listed as a chat model under its own name, never as the
/// default.
pub proof fn added_models_are_listed(c: CustomV)
    ensures
        ({
            let e = edit::custom_entry(c);
            &&& holds(e, "id"@, c.id)
            &&& holds(e, "name"@, c.id)
            &&& e.get("isDefault"@) == Some(Jv::Bool(false))
            &&& holds(e, "kind"@, "chat"@)
        }),
{
    reveal_strlit("id");
    reveal_strlit("name");
    reveal_strlit("isDefault");
    reveal_strlit("kind");
    assert("id"@.len() == 2);
    assert("name"@[0] == 'n');
    assert("isDefault"@.len() == 9);
    assert("kind"@[0] == 'k');
    assert("name"@.len() == 4);
    assert("kind"@.len() == 4);
}

// -------------------------------------------------------------- reading

/// A kept mapping is read with its names, its provider and its level, all without the white
/// space at their ends; it is on unless it says that it is not.
pub proof fn mappings_are_read(j: Jv, alias: Seq<char>, target: Seq<char>)
    requires
        holds(j, "alias"@, alias),
        holds(j, "target"@, target),
    ensures
        text::trimmed(alias).len() == 0 || text::trimmed(target).len() == 0 ==> store::mapping_in(j) is None,
        text::trimmed(alias).len() > 0 && text::trimmed(target).len() > 0 ==> (store::mapping_in(j)
            matches Some(m) && {
            &&& m.alias == text::trimmed(alias)
            &&& m.target == text::trimmed(target)
            &&& m.enabled == (j.get("enabled"@) != Some(Jv::Bool(false)))
            &&& (j.get("provider"@) matches Some(Jv::Str(p)) ==> text::trimmed(p).len() > 0 ==> m.provider
                == Some(text::trimmed(p)))
            &&& j.get("provider"@) is None ==> m.provider is None
            &&& (j.get("reasoning"@) matches Some(Jv::Str(l)) ==> text::trimmed(l).len() > 0
                ==> m.reasoning == Some(text::trimmed(l)))
            &&& j.get("reasoning"@) is None ==> m.reasoning is None
        }),
{
}

/// A closed model is kept as its bare name, or with its provider.
pub proof fn closings_are_read(j: Jv, s: Seq<char>)
    requires
        text::trimmed(s).len() > 0,
    ensures
        store::rule_in(Jv::Str(s)) == Some(RuleV { provider: None, id: text::trimmed(s) }),
        holds(j, "id"@, s) ==> (store::rule_in(j) matches Some(e) && e.id == text::trimmed(s) && (j.get(
            "provider"@,
        ) matches Some(Jv::Str(p)) ==> text::trimmed(p).len() > 0 ==> e.provider == Some(
            text::trimmed(p),
        )) && (j.get("provider"@) is None ==> e.provider is None)),
{
}

/// All that is kept is read, in its order, from the member that holds the rules.
pub proof fn kept_rules_are_read(raw: Jv, kept: Map<Seq<char>, Jv>, list: Seq<Jv>, i: int)
    requires
        raw.get("modelRules"@) == Some(Jv::Obj(kept)),
        Jv::Obj(kept).get("mappings"@) == Some(Jv::Arr(list)),
        forall|k: int| 0 <= k < list.len() ==> store::mapping_in(#[trigger] list[k]) is Some,
        0 <= i < list.len(),
    ensures
        store::rules_in(raw).mappings.len() == list.len(),
        Some(store::rules_in(raw).mappings[i]) == store::mapping_in(list[i]),
{
    let want = Seq::new(list.len(), |k: int| store::mapping_in(list[k])->0);
    let read = store::mapping_reader();
    assert forall|k: int| 0 <= k < list.len() implies read(#[trigger] list[k]) == Some(want[k]) by {
        assert(store::mapping_in(list[k]) is Some);
    }
    lists::chosen_whole(list, read, want);
}

// -------------------------------------------------------------- the beginning

/// Which models of WorkBuddy and of Qoder are open from the beginning.
pub proof fn few_models_begin_open(id: Seq<char>)
    ensures
        model_rules::listed(seed::workbuddy_open(), id) <==> text::same_fold("hy3"@, id)
            || text::same_fold("hy4-preview-f"@, id) || text::same_fold("deepseek-v4.1-flash"@, id),
        model_rules::listed(seed::qoder_open(), id) <==> text::same_fold("Qwen3.8-Flash"@, id),
{
    let a = seed::workbuddy_open();
    assert(a[0] == "hy3"@ && a[1] == "hy4-preview-f"@ && a[2] == "deepseek-v4.1-flash"@);
    let b = seed::qoder_open();
    assert(b[0] == "Qwen3.8-Flash"@);
}

/// A model that is first seen is closed where only listed ones are open, and it is not listed; a
/// listed one is left as it is.
pub proof fn unlisted_models_begin_closed(
    st: SeedV,
    provider: Seq<char>,
    open: Seq<Seq<char>>,
    id: Seq<char>,
    ids: Seq<Seq<char>>,
)
    ensures
        ({
            let after = seed::treated(st, (PlanV::Only { provider, open }), id, ids);
            &&& model_rules::listed(open, id) ==> after == st
            &&& !model_rules::listed(open, id) ==> after.rules.is_disabled(provider, id)
            &&& after.rules.mappings == st.rules.mappings
            &&& after.rules.custom == st.rules.custom
        }),
{
    if !model_rules::listed(open, id) {
        closed_is_disabled(st, provider, id);
    }
}

proof fn closed_is_disabled(st: SeedV, provider: Seq<char>, id: Seq<char>)
    ensures
        seed::with_closed(st, provider, id).rules.is_disabled(provider, id),
{
    if !st.rules.is_disabled(provider, id) {
        let list = seed::with_closed(st, provider, id).rules.disabled;
        let n = list.len() - 1;
        assert(list[n] == (RuleV { provider: Some(provider), id }));
        assert(model_rules::closing(provider, id)(list[n]));
    }
}

/// A model of Raccoon with an inner code name begins closed; one with the prefix `sn-` is offered
/// without it too, where that name is free.
pub proof fn raccoon_begins(st: SeedV, id: Seq<char>, rest: Seq<char>, ids: Seq<Seq<char>>)
    requires
        id == "sn-"@ + rest,
    ensures
        ({
            let after = seed::treated(st, PlanV::Raccoon, id, ids);
            let free = edit::valid_alias(rest) && !st.rules.has_alias(rest) && !model_rules::listed(
                ids,
                rest,
            );
            &&& free ==> {
                let m = after.rules.mappings.last();
                &&& after.rules.mappings.drop_last() == st.rules.mappings
                &&& m.alias == rest
                &&& m.target == id
                &&& m.provider == Some("raccoon"@)
                &&& m.reasoning is None
                &&& m.enabled
                &&& after.rules.disabled == st.rules.disabled
            }
            &&& !free ==> after == st
        }),
        forall|code: Seq<char>|
            #![trigger seed::code_name("raccoon-"@ + code)]
            0 < code.len() <= 8 && (forall|i: int|
                0 <= i < code.len() ==> ('0' <= #[trigger] code[i] <= '9' || 'a' <= code[i] <= 'f' || 'A'
                    <= code[i] <= 'F')) ==> seed::code_name("raccoon-"@ + code) && seed::treated(
                st,
                PlanV::Raccoon,
                "raccoon-"@ + code,
                ids,
            ).rules.is_disabled("raccoon"@, "raccoon-"@ + code),
{
    reveal_strlit("sn-");
    reveal_strlit("raccoon-");
    assert("sn-"@.len() == 3);
    assert("raccoon-"@.len() == 8);
    assert(id.take(3) =~= "sn-"@);
    assert(id.skip(3) =~= rest);
    assert(!seed::code_name(id)) by {
        if text::has_prefix(id, "raccoon-"@) {
            assert(id.take(8)[0] == 'r');
            assert(id[0] == 's');
        }
    }
    let after = seed::treated(st, PlanV::Raccoon, id, ids);
    if edit::valid_alias(rest) && !st.rules.has_alias(rest) && !model_rules::listed(ids, rest) {
        assert(after.rules.mappings.drop_last() =~= st.rules.mappings);
    }
    assert forall|code: Seq<char>|
        #![trigger seed::code_name("raccoon-"@ + code)]
        0 < code.len() <= 8 && (forall|i: int|
            0 <= i < code.len() ==> ('0' <= #[trigger] code[i] <= '9' || 'a' <= code[i] <= 'f' || 'A'
                <= code[i] <= 'F')) implies seed::code_name("raccoon-"@ + code) && seed::treated(
        st,
        PlanV::Raccoon,
        "raccoon-"@ + code,
        ids,
    ).rules.is_disabled("raccoon"@, "raccoon-"@ + code) by {
        let one = "raccoon-"@ + code;
        assert(one.take(8) =~= "raccoon-"@);
        assert forall|i: int| 8 <= i < one.len() implies seed::hex_letter(#[trigger] one[i]) by {
            assert(one[i] == code[i - 8]);
        }
        closed_is_disabled(st, "raccoon"@, one);
    }
}

/// A model of Cline is offered under its short name, where that is free: without the channel,
/// and in the free pool without its maker.
pub proof fn cline_begins(
    st: SeedV,
    provider: Seq<char>,
    pool: Pool,
    id: Seq<char>,
    rest: Seq<char>,
    ids: Seq<Seq<char>>,
)
    requires
        id == "cline-free/"@ + rest || id == "cline-pass/"@ + rest,
        edit::valid_alias(rest),
        !st.rules.has_alias(rest),
        !model_rules::listed(ids, rest),
    ensures
        ({
            let after = seed::treated(st, (PlanV::Cline { provider, pool }), id, ids);
            let m = after.rules.mappings.last();
            &&& after.rules.mappings.drop_last() == st.rules.mappings
            &&& m.alias == rest
            &&& m.target == id
            &&& m.provider == Some(provider)
            &&& m.enabled
        }),
{
    reveal_strlit("cline-free/");
    reveal_strlit("cline-pass/");
    assert("cline-free/"@.len() == 11);
    assert("cline-pass/"@.len() == 11);
    assert(id.take(11) =~= "cline-free/"@ || id.take(11) =~= "cline-pass/"@);
    assert(id.skip(11) =~= rest);
    let after = seed::treated(st, (PlanV::Cline { provider, pool }), id, ids);
    assert(after.rules.mappings.drop_last() =~= st.rules.mappings);
}

/// Some models have a further name: it is offered once, where the name is free.
pub proof fn further_names_are_offered(
    st: SeedV,
    provider: Seq<char>,
    id: Seq<char>,
    ids: Seq<Seq<char>>,
    row: (Seq<char>, Seq<char>, Seq<char>),
)
    requires
        text::same_fold(row.0, provider),
        text::same_fold(row.1, id),
    ensures
        ({
            let key = provider + ":"@ + id + "#alias:"@ + row.2;
            let after = seed::row_step(st, provider, id, ids, row);
            let known = model_rules::listed(st.rules.seeded, key);
            let free = !model_rules::listed(ids, row.2) && !lists::any(
                st.rules.mappings,
                seed::holding(provider, row.2, row.1),
            );
            &&& known ==> after == st
            &&& !known ==> after.rules.seeded == st.rules.seeded.push(key)
            &&& !known && free ==> {
                let m = after.rules.mappings.last();
                &&& after.rules.mappings.drop_last() == st.rules.mappings
                &&& m.alias == row.2
                &&& m.target == id
                &&& m.provider == Some(provider)
                &&& m.enabled
            }
            &&& !known && !free ==> after.rules.mappings == st.rules.mappings
        }),
        seed::further_names().contains(
            ("raccoon"@, "sn-deepseek-v4-1-flash"@, "deepseek-v4.1-flash"@),
        ),
        seed::further_names().contains(
            ("cline-free"@, "cline-free/deepseek-v4.1-flash"@, "deepseek-v4.1-flash"@),
        ),
        seed::further_names().contains(
            ("cline-pass"@, "cline-pass/deepseek-v4.1-flash"@, "deepseek-v4.1-flash"@),
        ),
        seed::further_names().contains(("cline-free"@, "z-ai/glm-5.3-flash"@, "glm-5.3-flash"@)),
        seed::further_names().contains(("cline-pass"@, "cline-pass/glm-5.3-flash"@, "glm-5.3-flash"@)),
{
    let after = seed::row_step(st, provider, id, ids, row);
    let key = seed::alias_mark(provider, id, row.2);
    assert(key == provider + ":"@ + id + "#alias:"@ + row.2);
    if !model_rules::listed(st.rules.seeded, key) && !model_rules::listed(ids, row.2) && !lists::any(
        st.rules.mappings,
        seed::holding(provider, row.2, row.1),
    ) {
        assert(after.rules.mappings.drop_last() =~= st.rules.mappings);
    }
    let all = seed::further_names();
    assert(all[0] == ("raccoon"@, "sn-deepseek-v4-1-flash"@, "deepseek-v4.1-flash"@));
    assert(all[1] == ("cline-free"@, "cline-free/deepseek-v4.1-flash"@, "deepseek-v4.1-flash"@));
    assert(all[2] == ("cline-pass"@, "cline-pass/deepseek-v4.1-flash"@, "deepseek-v4.1-flash"@));
    assert(all[3] == ("cline-free"@, "z-ai/glm-5.3-flash"@, "glm-5.3-flash"@));
    assert(all[4] == ("cline-pass"@, "cline-pass/glm-5.3-flash"@, "glm-5.3-flash"@));
}

// -------------------------------------------------------------- two pools out of one

/// The pool that the channel of a model tells, or that of the models without one.
pub open spec fn told_pool(id: Seq<char>, bare: Pool) -> Seq<char> {
    if id.len() >= 11 && id.take(11) == "cline-free/"@ {
        "cline-free"@
    } else if id.len() >= 11 && id.take(11) == "cline-pass/"@ {
        "cline-pass"@
    } else {
        match bare {
            Pool::Free => "cline-free"@,
            Pool::Pass => "cline-pass"@,
        }
    }
}

/// What was kept of the one provider goes to the pool that the channel tells; what was kept of
/// others stays, but that a mapping to a channel that names no provider gets one.
pub proof fn kept_rules_are_split(rules: RulesV, bare: Pool, i: int)
    ensures
        ({
            let out = split::migrated(rules, bare);
            &&& out.disabled.len() == rules.disabled.len()
            &&& 0 <= i < rules.disabled.len() ==> {
                let e = rules.disabled[i];
                &&& out.disabled[i].id == e.id
                &&& e.provider == Some("cline"@) ==> out.disabled[i].provider == Some(
                    told_pool(e.id, bare),
                )
                &&& e.provider != Some("cline"@) ==> out.disabled[i] == e
            }
            &&& out.mappings.len() == rules.mappings.len()
            &&& 0 <= i < rules.mappings.len() ==> {
                let m = rules.mappings[i];
                let n = out.mappings[i];
                let channel = m.target.len() >= 11 && (m.target.take(11) == "cline-free/"@
                    || m.target.take(11) == "cline-pass/"@);
                &&& n.alias == m.alias && n.target == m.target && n.reasoning == m.reasoning && n.enabled
                    == m.enabled
                &&& m.provider == Some("cline"@) || (m.provider is None && channel) ==> n.provider
                    == Some(told_pool(m.target, bare))
                &&& m.provider != Some("cline"@) && !(m.provider is None && channel) ==> n == m
            }
            &&& out.custom == rules.custom
        }),
{
    reveal_strlit("cline-free/");
    reveal_strlit("cline-pass/");
    assert("cline-free/"@.len() == 11);
    assert("cline-pass/"@.len() == 11);
}

/// A mark of the one provider becomes one of the pool that the channel of its model tells.
pub proof fn marks_are_split(rest: Seq<char>, bare: Pool)
    requires
        !rest.contains('#'),
    ensures
        split::moved_mark("cline:"@ + rest, bare) == told_pool(rest, bare) + ":"@ + rest,
        forall|key: Seq<char>|
            key.len() < 6 || key.take(6) != "cline:"@ ==> #[trigger] split::moved_mark(key, bare) == key,
{
    reveal_strlit("cline:");
    reveal_strlit("cline-free/");
    reveal_strlit("cline-pass/");
    assert("cline:"@.len() == 6);
    assert("cline-free/"@.len() == 11);
    assert("cline-pass/"@.len() == 11);
    let key = "cline:"@ + rest;
    assert(key.take(6) =~= "cline:"@);
    assert(key.skip(6) =~= rest);
    no_place(rest, 0);
    assert(rest.take(rest.len() as int) =~= rest);
}

proof fn no_place(s: Seq<char>, i: int)
    requires
        0 <= i <= s.len(),
        !s.contains('#'),
    ensures
        text::place_of(s, '#', i) == s.len(),
    decreases s.len() - i,
{
    if i < s.len() {
        assert(s.contains(s[i]));
        no_place(s, i + 1);
    }
}

// ------------------------------------------------------------------ what is kept

/// An added model is read with its provider and its name, both without space around them.
pub proof fn additions_are_read(j: Jv, provider: Seq<char>, id: Seq<char>)
    requires
        holds(j, "provider"@, provider),
        holds(j, "id"@, id),
    ensures
        text::trimmed(provider).len() > 0 && text::trimmed(id).len() > 0 ==> store::custom_in(j) == Some(
            CustomV { provider: text::trimmed(provider), id: text::trimmed(id) },
        ),
        text::trimmed(provider).len() == 0 || text::trimmed(id).len() == 0 ==> store::custom_in(j)
            is None,
{
}

/// The closed models, the added ones and the marks are read as they stand, in their order.
pub proof fn kept_lists_are_read(
    raw: Jv,
    kept: Map<Seq<char>, Jv>,
    closed: Seq<Jv>,
    added: Seq<Jv>,
    marks: Seq<Seq<char>>,
    i: int,
)
    requires
        raw.get("modelRules"@) == Some(Jv::Obj(kept)),
        Jv::Obj(kept).get("disabled"@) == Some(Jv::Arr(closed)),
        Jv::Obj(kept).get("custom"@) == Some(Jv::Arr(added)),
        Jv::Obj(kept).get("seeded"@) == Some(
            Jv::Arr(Seq::new(marks.len(), |k: int| Jv::Str(marks[k]))),
        ),
        forall|k: int| 0 <= k < closed.len() ==> store::rule_in(#[trigger] closed[k]) is Some,
        forall|k: int| 0 <= k < added.len() ==> store::custom_in(#[trigger] added[k]) is Some,
        forall|k: int|
            0 <= k < marks.len() ==> marks[k].len() > 0 && text::trimmed(#[trigger] marks[k])
                == marks[k],
    ensures
        store::rules_in(raw).disabled.len() == closed.len(),
        store::rules_in(raw).custom.len() == added.len(),
        store::rules_in(raw).seeded == marks,
        0 <= i < closed.len() ==> Some(store::rules_in(raw).disabled[i]) == store::rule_in(closed[i]),
        0 <= i < added.len() ==> Some(store::rules_in(raw).custom[i]) == store::custom_in(added[i]),
{
    let shut = Seq::new(closed.len(), |k: int| store::rule_in(closed[k])->0);
    let rule = store::rule_reader();
    assert forall|k: int| 0 <= k < closed.len() implies rule(#[trigger] closed[k]) == Some(shut[k]) by {
        assert(store::rule_in(closed[k]) is Some);
    }
    lists::chosen_whole(closed, rule, shut);
    let more = Seq::new(added.len(), |k: int| store::custom_in(added[k])->0);
    let custom = store::custom_reader();
    assert forall|k: int| 0 <= k < added.len() implies custom(#[trigger] added[k]) == Some(more[k]) by {
        assert(store::custom_in(added[k]) is Some);
    }
    lists::chosen_whole(added, custom, more);
    let told = Seq::new(marks.len(), |k: int| Jv::Str(marks[k]));
    let mark = store::mark_reader();
    assert forall|k: int| 0 <= k < told.len() implies mark(#[trigger] told[k]) == Some(marks[k]) by {
        assert(text::trimmed(marks[k]) == marks[k]);
    }
    lists::chosen_whole(told, mark, marks);
}

/// What is kept of each rule: the name of a closed model, or its provider and its name; a
/// mapping with all its members, and that it does not count only where it does not; an added
/// model with its provider and its name.
pub proof fn rules_are_kept(e: RuleV, m: MappingV, c: CustomV)
    ensures
        e.provider is None ==> store::rule_value(e) == Jv::Str(e.id),
        (e.provider matches Some(p) ==> holds(store::rule_value(e), "provider"@, p) && holds(
            store::rule_value(e),
            "id"@,
            e.id,
        )),
        holds(store::custom_value(c), "provider"@, c.provider),
        holds(store::custom_value(c), "id"@, c.id),
        ({
            let j = store::mapping_value(m);
            &&& holds(j, "alias"@, m.alias)
            &&& holds(j, "target"@, m.target)
            &&& (m.provider matches Some(p) ==> holds(j, "provider"@, p))
            &&& m.provider is None ==> j.get("provider"@) == Some(Jv::Null)
            &&& (m.reasoning matches Some(l) ==> holds(j, "reasoning"@, l))
            &&& m.reasoning is None ==> j.get("reasoning"@) == Some(Jv::Null)
            &&& m.enabled ==> j.get("enabled"@) is None
            &&& !m.enabled ==> j.get("enabled"@) == Some(Jv::Bool(false))
        }),
{
    reveal_strlit("provider");
    reveal_strlit("id");
    reveal_strlit("alias");
    reveal_strlit("target");
    reveal_strlit("reasoning");
    reveal_strlit("enabled");
    assert("provider"@.len() == 8);
    assert("id"@.len() == 2);
    assert("alias"@.len() == 5);
    assert("target"@.len() == 6);
    assert("reasoning"@.len() == 9);
    assert("enabled"@.len() == 7);
}

/// All rules are kept, each in the list of its kind and in its place.
pub proof fn all_rules_are_kept(r: RulesV, i: int)
    ensures
        ({
            let j = store::rules_value(r);
            &&& j.get("disabled"@) matches Some(Jv::Arr(s)) && s.len() == r.disabled.len() && (0 <= i
                < s.len() ==> s[i] == store::rule_value(r.disabled[i]))
            &&& j.get("mappings"@) matches Some(Jv::Arr(s)) && s.len() == r.mappings.len() && (0 <= i
                < s.len() ==> s[i] == store::mapping_value(r.mappings[i]))
            &&& j.get("custom"@) matches Some(Jv::Arr(s)) && s.len() == r.custom.len() && (0 <= i
                < s.len() ==> s[i] == store::custom_value(r.custom[i]))
            &&& j.get("seeded"@) matches Some(Jv::Arr(s)) && s.len() == r.seeded.len() && (0 <= i
                < s.len() ==> s[i] == Jv::Str(r.seeded[i]))
        }),
{
    reveal_strlit("disabled");
    reveal_strlit("mappings");
    reveal_strlit("custom");
    reveal_strlit("seeded");
    assert("disabled"@.len() == 8 && "disabled"@[0] == 'd');
    assert("mappings"@.len() == 8 && "mappings"@[0] == 'm');
    assert("custom"@.len() == 6 && "custom"@[0] == 'c');
    assert("seeded"@.len() == 6 && "seeded"@[0] == 's');
}

} // verus!
