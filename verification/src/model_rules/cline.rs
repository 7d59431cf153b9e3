//! The rules of Cline after it was split into two providers, one for each pool.
//!
//! Rules, mappings and marks that name the one provider of before are given to the
//! pool of the model that they are about.

use crate::json;
use crate::lists;
use crate::model_rules::seed;
use crate::model_rules::{Mapping, MappingV, ModelRules, RuleEntry, RuleV, RulesV};
use crate::model_rules;
use crate::providers::cline::Pool;
use crate::providers::cline;
use crate::text;
use vstd::prelude::*;
use vstd::string::*;

verus! {

/// Whether a provider that may be named is the one of before.
pub open spec fn before_split(provider: Option<Seq<char>>) -> bool {
    provider == Some("cline"@)
}

/// A closed model, given to its pool.
pub open spec fn moved_rule(e: RuleV, bare: Pool) -> RuleV {
    if before_split(e.provider) {
        RuleV { provider: Some(cline::pool_by_channel(e.id, bare).name()), ..e }
    } else {
        e
    }
}

/// Whether a mapping names no provider and leads to a model with a channel.
pub open spec fn untold(m: MappingV) -> bool {
    m.provider is None && cline::has_channel(m.target)
}

/// A mapping, given to the pool of its model.
pub open spec fn moved_mapping(m: MappingV, bare: Pool) -> MappingV {
    if before_split(m.provider) || untold(m) {
        MappingV { provider: Some(cline::pool_by_channel(m.target, bare).name()), ..m }
    } else {
        m
    }
}

/// Whether a mark is one of the provider of before.
pub open spec fn old_mark(key: Seq<char>) -> bool {
    text::has_prefix(key, "cline:"@)
}

/// A mark, given to the pool of its model, which ends at a `#` if there is one.
pub open spec fn moved_mark(key: Seq<char>, bare: Pool) -> Seq<char> {
    if old_mark(key) {
        let rest = key.skip(6);
        let id = rest.take(text::place_of(rest, '#', 0));
        seed::mark(cline::pool_by_channel(id, bare).name(), rest)
    } else {
        key
    }
}

/// The move of closed models.
pub open spec fn rule_mover(bare: Pool) -> spec_fn(RuleV) -> RuleV {
    |e: RuleV| moved_rule(e, bare)
}

/// The move of mappings.
pub open spec fn mapping_mover(bare: Pool) -> spec_fn(MappingV) -> MappingV {
    |m: MappingV| moved_mapping(m, bare)
}

/// The move of marks.
pub open spec fn mark_mover(bare: Pool) -> spec_fn(Seq<char>) -> Seq<char> {
    |key: Seq<char>| moved_mark(key, bare)
}

/// The rules after the split. A model without a channel is of the pool `bare`.
pub open spec fn migrated(rules: RulesV, bare: Pool) -> RulesV {
    RulesV {
        disabled: lists::mapped(rules.disabled, rule_mover(bare)),
        mappings: lists::mapped(rules.mappings, mapping_mover(bare)),
        seeded: lists::mapped(rules.seeded, mark_mover(bare)),
        ..rules
    }
}

/// How many of the closed models are moved.
pub open spec fn rules_to_move(rules: RulesV) -> nat {
    rules.disabled.filter(|e: RuleV| before_split(e.provider)).len()
}

/// How many of the mappings name the provider of before.
pub open spec fn mappings_to_move(rules: RulesV) -> nat {
    rules.mappings.filter(|m: MappingV| before_split(m.provider)).len()
}

/// How many of the mappings get a provider.
pub open spec fn mappings_to_tell(rules: RulesV) -> nat {
    rules.mappings.filter(|m: MappingV| untold(m)).len()
}

/// How many of the marks are moved.
pub open spec fn marks_to_move(rules: RulesV) -> nat {
    rules.seeded.filter(|key: Seq<char>| old_mark(key)).len()
}

/// What is told of the move; nothing where nothing is moved.
pub open spec fn move_told(rules: RulesV) -> Option<Seq<char>> {
    let a = if rules_to_move(rules) > 0 {
        seq!["禁用 "@ + text::decimal(rules_to_move(rules)) + " 条"@]
    } else {
        Seq::empty()
    };
    let b = if mappings_to_move(rules) > 0 || mappings_to_tell(rules) > 0 {
        a.push(
            "映射 "@ + text::decimal(mappings_to_move(rules)) + " 条改名 / "@ + text::decimal(
                mappings_to_tell(rules),
            ) + " 条补归属"@,
        )
    } else {
        a
    };
    let parts = if marks_to_move(rules) > 0 {
        b.push("种子标记 "@ + text::decimal(marks_to_move(rules)) + " 条"@)
    } else {
        b
    };
    if parts.len() == 0 {
        None
    } else {
        Some(
            "🔀 Cline 已拆为 Cline Free / Cline Pass 两家，存量规则已迁移（"@ + text::separated(
                parts,
                "；"@,
            ) + "）"@,
        )
    }
}

/// Whether a provider that may be named is the one of before.
fn is_before_split(provider: &Option<String>) -> (r: bool)
    ensures
        r == before_split(json::opt_string(*provider)),
{
    match provider {
        Some(p) => text::same(p.as_str(), "cline"),
        None => false,
    }
}

/// A number in the middle of a text.
fn counted(before: &str, n: usize, after: &str) -> (r: String)
    ensures
        r@ == before@ + text::decimal(n as nat) + after@,
{
    text::join3(before, text::decimal_u64(n as u64).as_str(), after)
}

/// The closed models, given to their pools, and how many were moved.
fn move_rules(list: Vec<RuleEntry>, bare: Pool) -> (r: (Vec<RuleEntry>, usize))
    ensures
        lists::views(r.0@) == lists::mapped(lists::views(list@), rule_mover(bare)),
        r.1 == lists::views(list@).filter(|e: RuleV| before_split(e.provider)).len(),
{
    let ghost all = lists::views(list@);
    let ghost want = lists::mapped(all, rule_mover(bare));
    let ghost old = |e: RuleV| before_split(e.provider);
    let mut out: Vec<RuleEntry> = Vec::new();
    let mut count: usize = 0;
    let mut i: usize = 0;
    proof {
        lists::kept_all(all, old);
    }
    while i < list.len()
        invariant
            i <= list@.len(),
            all == lists::views(list@),
            want == lists::mapped(all, rule_mover(bare)),
            old == (|e: RuleV| before_split(e.provider)),
            lists::views(out@) == want.take(i as int),
            count == all.take(i as int).filter(old).len(),
            count <= i,
        decreases list@.len() - i,
    {
        let mut one = list[i].copy();
        proof {
            lists::kept_step(all, old, i as int);
            assert(all[i as int] == one@);
            assert(want.take(i as int).push(want[i as int]) =~= want.take(i as int + 1));
        }
        if is_before_split(&one.provider) {
            let pool = cline::pool_of(one.id.as_str(), bare);
            one.provider = Some(pool.provider_id().to_owned());
            count = count + 1;
        }
        proof {
            lists::views_push(out@, one);
            assert(one@ == want[i as int]);
        }
        out.push(one);
        i = i + 1;
    }
    proof {
        assert(want.take(want.len() as int) =~= want);
        assert(all.take(all.len() as int) =~= all);
    }
    (out, count)
}

/// The mappings, given to their pools, and how many were moved and told.
fn move_mappings(list: Vec<Mapping>, bare: Pool) -> (r: (Vec<Mapping>, usize, usize))
    ensures
        lists::views(r.0@) == lists::mapped(lists::views(list@), mapping_mover(bare)),
        r.1 == lists::views(list@).filter(|m: MappingV| before_split(m.provider)).len(),
        r.2 == lists::views(list@).filter(|m: MappingV| untold(m)).len(),
{
    let ghost all = lists::views(list@);
    let ghost want = lists::mapped(all, mapping_mover(bare));
    let ghost old = |m: MappingV| before_split(m.provider);
    let ghost bare_ones = |m: MappingV| untold(m);
    let mut out: Vec<Mapping> = Vec::new();
    let mut renamed: usize = 0;
    let mut tagged: usize = 0;
    let mut i: usize = 0;
    proof {
        lists::kept_all(all, old);
        lists::kept_all(all, bare_ones);
    }
    while i < list.len()
        invariant
            i <= list@.len(),
            all == lists::views(list@),
            want == lists::mapped(all, mapping_mover(bare)),
            old == (|m: MappingV| before_split(m.provider)),
            bare_ones == (|m: MappingV| untold(m)),
            lists::views(out@) == want.take(i as int),
            renamed == all.take(i as int).filter(old).len(),
            tagged == all.take(i as int).filter(bare_ones).len(),
            renamed <= i,
            tagged <= i,
        decreases list@.len() - i,
    {
        let mut one = list[i].copy();
        proof {
            lists::kept_step(all, old, i as int);
            lists::kept_step(all, bare_ones, i as int);
            assert(all[i as int] == one@);
            assert(want.take(i as int).push(want[i as int]) =~= want.take(i as int + 1));
        }
        let was = is_before_split(&one.provider);
        let tell = one.provider.is_none() && cline::is_cline_channel(one.target.as_str());
        if was || tell {
            let pool = cline::pool_of(one.target.as_str(), bare);
            one.provider = Some(pool.provider_id().to_owned());
        }
        if was {
            renamed = renamed + 1;
        }
        if tell {
            tagged = tagged + 1;
        }
        proof {
            lists::views_push(out@, one);
            assert(one@ == want[i as int]);
        }
        out.push(one);
        i = i + 1;
    }
    proof {
        assert(want.take(want.len() as int) =~= want);
        assert(all.take(all.len() as int) =~= all);
    }
    (out, renamed, tagged)
}

/// A mark, given to the pool of its model; none where it is not one of the provider of
/// before.
fn move_mark(key: &str, bare: Pool) -> (r: Option<String>)
    ensures
        r is Some <==> old_mark(key@),
        r matches Some(s) ==> s@ == moved_mark(key@, bare),
{
    if !text::starts_with(key, "cline:") {
        return None;
    }
    proof {
        reveal_strlit("cline:");
        assert("cline:"@.len() == 6);
    }
    let rest = text::skip_chars(key, 6);
    let chars = text::chars_of(rest.as_str());
    let end = text::find_char(&chars, '#');
    let id = text::take_chars(rest.as_str(), end);
    let pool = cline::pool_of(id.as_str(), bare);
    Some(seed::mark_of(pool.provider_id(), rest.as_str()))
}

/// The marks, given to their pools, and how many were moved.
fn move_marks(list: Vec<String>, bare: Pool) -> (r: (Vec<String>, usize))
    ensures
        lists::views(r.0@) == lists::mapped(lists::views(list@), mark_mover(bare)),
        r.1 == lists::views(list@).filter(|key: Seq<char>| old_mark(key)).len(),
{
    let ghost all = lists::views(list@);
    let ghost want = lists::mapped(all, mark_mover(bare));
    let ghost old = |key: Seq<char>| old_mark(key);
    let mut out: Vec<String> = Vec::new();
    let mut count: usize = 0;
    let mut i: usize = 0;
    proof {
        lists::kept_all(all, old);
    }
    while i < list.len()
        invariant
            i <= list@.len(),
            all == lists::views(list@),
            want == lists::mapped(all, mark_mover(bare)),
            old == (|key: Seq<char>| old_mark(key)),
            lists::views(out@) == want.take(i as int),
            count == all.take(i as int).filter(old).len(),
            count <= i,
        decreases list@.len() - i,
    {
        proof {
            lists::kept_step(all, old, i as int);
            assert(want.take(i as int).push(want[i as int]) =~= want.take(i as int + 1));
        }
        let one = match move_mark(list[i].as_str(), bare) {
            Some(moved) => {
                count = count + 1;
                moved
            },
            None => list[i].clone(),
        };
        proof {
            lists::views_push(out@, one);
            assert(one@ == want[i as int]);
        }
        out.push(one);
        i = i + 1;
    }
    proof {
        assert(want.take(want.len() as int) =~= want);
        assert(all.take(all.len() as int) =~= all);
    }
    (out, count)
}

/// Gives the rules, mappings and marks of the provider of before to the pools of
/// their models. A model without a channel is of the pool `bare`. The second part of
/// the result tells of it; where there is none, nothing is to be stored.
pub fn migrate_cline_split(rules: ModelRules, bare: Pool) -> (r: (ModelRules, Option<String>))
    ensures
        r.0@ == migrated(rules@, bare),
        json::opt_string(r.1) == move_told(rules@),
{
    let ghost start = rules@;
    let (disabled, count) = move_rules(rules.disabled, bare);
    let (mappings, renamed, tagged) = move_mappings(rules.mappings, bare);
    let (seeded, reseeded) = move_marks(rules.seeded, bare);
    let mut parts: Vec<String> = Vec::new();
    proof {
        assert(lists::views(parts@) =~= Seq::empty());
    }
    if count > 0 {
        let one = counted("禁用 ", count, " 条");
        proof {
            lists::views_push(parts@, one);
            assert(lists::views(parts@).push(one@) =~= seq![one@]);
        }
        parts.push(one);
    }
    if renamed > 0 || tagged > 0 {
        let one = text::join2(
            counted("映射 ", renamed, " 条改名 / ").as_str(),
            counted("", tagged, " 条补归属").as_str(),
        );
        proof {
            lists::views_push(parts@, one);
            reveal_strlit("");
            let d = text::decimal(tagged as nat);
            assert(""@ + d + " 条补归属"@ =~= d + " 条补归属"@);
            assert(one@ =~= "映射 "@ + text::decimal(renamed as nat) + " 条改名 / "@ + d
                + " 条补归属"@);
        }
        parts.push(one);
    }
    if reseeded > 0 {
        let one = counted("种子标记 ", reseeded, " 条");
        proof {
            lists::views_push(parts@, one);
        }
        parts.push(one);
    }
    let told = if parts.len() == 0 {
        None
    } else {
        Some(
            text::join3(
                "🔀 Cline 已拆为 Cline Free / Cline Pass 两家，存量规则已迁移（",
                text::join_all(&parts, "；").as_str(),
                "）",
            ),
        )
    };
    (ModelRules { disabled, mappings, custom: rules.custom, seeded }, told)
}

// ---------------------------------------------------------------------- laws

proof fn names_are_new(pool: Pool, rest: Seq<char>)
    ensures
        !before_split(Some(pool.name())),
        !old_mark(seed::mark(pool.name(), rest)),
{
    reveal_strlit("cline");
    reveal_strlit("cline:");
    reveal_strlit(":");
    reveal_strlit("cline-free");
    reveal_strlit("cline-pass");
    assert("cline"@.len() == 5);
    assert("cline-free"@.len() == 10);
    assert("cline-pass"@.len() == 10);
    assert("cline-free"@[5] == '-');
    assert("cline-pass"@[5] == '-');
    let key = seed::mark(pool.name(), rest);
    assert("cline:"@.len() == 6);
    assert("cline:"@[5] == ':');
    assert(key[5] == '-');
    if old_mark(key) {
        assert(key.take(6)[5] == "cline:"@[5]);
    }
}

/// Moving a second time changes nothing, and nothing is told of.
pub proof fn migrated_once(rules: RulesV, bare: Pool)
    ensures
        migrated(migrated(rules, bare), bare) == migrated(rules, bare),
        move_told(migrated(rules, bare)) is None,
{
    let once = migrated(rules, bare);
    let twice = migrated(once, bare);
    let old_rule = |e: RuleV| before_split(e.provider);
    let old_mapping = |m: MappingV| before_split(m.provider);
    let bare_mapping = |m: MappingV| untold(m);
    let old_key = |key: Seq<char>| old_mark(key);
    assert forall|i: int| 0 <= i < once.disabled.len() implies !old_rule(
        #[trigger] once.disabled[i],
    ) && twice.disabled[i] == once.disabled[i] by {
        let e = rules.disabled[i];
        names_are_new(cline::pool_by_channel(e.id, bare), Seq::empty());
        assert(once.disabled[i] == moved_rule(e, bare));
    }
    assert forall|i: int| 0 <= i < once.mappings.len() implies !old_mapping(
        #[trigger] once.mappings[i],
    ) && !bare_mapping(once.mappings[i]) && twice.mappings[i] == once.mappings[i] by {
        let m = rules.mappings[i];
        names_are_new(cline::pool_by_channel(m.target, bare), Seq::empty());
        assert(once.mappings[i] == moved_mapping(m, bare));
    }
    assert forall|i: int| 0 <= i < once.seeded.len() implies !old_key(#[trigger] once.seeded[i])
        && twice.seeded[i] == once.seeded[i] by {
        let key = rules.seeded[i];
        assert(once.seeded[i] == moved_mark(key, bare));
        let rest = key.skip(6);
        names_are_new(cline::pool_by_channel(rest.take(text::place_of(rest, '#', 0)), bare), rest);
    }
    assert(twice.disabled =~= once.disabled);
    assert(twice.mappings =~= once.mappings);
    assert(twice.seeded =~= once.seeded);
    lists::kept_says(once.disabled, old_rule);
    lists::kept_says(once.mappings, old_mapping);
    lists::kept_says(once.mappings, bare_mapping);
    lists::kept_says(once.seeded, old_key);
    assert(once.disabled.filter(old_rule).len() == 0) by {
        if once.disabled.filter(old_rule).len() > 0 {
            let x = once.disabled.filter(old_rule)[0];
            assert(once.disabled.contains(x));
        }
    }
    assert(once.mappings.filter(old_mapping).len() == 0) by {
        if once.mappings.filter(old_mapping).len() > 0 {
            let x = once.mappings.filter(old_mapping)[0];
            assert(once.mappings.contains(x));
        }
    }
    assert(once.mappings.filter(bare_mapping).len() == 0) by {
        if once.mappings.filter(bare_mapping).len() > 0 {
            let x = once.mappings.filter(bare_mapping)[0];
            assert(once.mappings.contains(x));
        }
    }
    assert(once.seeded.filter(old_key).len() == 0) by {
        if once.seeded.filter(old_key).len() > 0 {
            let x = once.seeded.filter(old_key)[0];
            assert(once.seeded.contains(x));
        }
    }
}

/// A model that was closed for the provider of before is closed for its pool.
pub proof fn closed_stays_closed(rules: RulesV, bare: Pool, i: int)
    requires
        0 <= i < rules.disabled.len(),
        before_split(rules.disabled[i].provider),
    ensures
        migrated(rules, bare).is_disabled(
            cline::pool_by_channel(rules.disabled[i].id, bare).name(),
            rules.disabled[i].id,
        ),
{
    let id = rules.disabled[i].id;
    let pool = cline::pool_by_channel(id, bare);
    assert(model_rules::closing(pool.name(), id)(migrated(rules, bare).disabled[i]));
}

/// A model that was treated for the provider of before counts as treated for its
/// pool, so that its defaults are not written again.
pub proof fn marked_stays_marked(rules: RulesV, bare: Pool, id: Seq<char>)
    requires
        text::place_of(id, '#', 0) == id.len(),
        rules.seeded.contains(seed::mark("cline"@, id)),
    ensures
        seed::marked(migrated(rules, bare).seeded, cline::pool_by_channel(id, bare).name(), id),
{
    reveal_strlit("cline");
    reveal_strlit("cline:");
    reveal_strlit(":");
    let key = seed::mark("cline"@, id);
    assert("cline:"@ =~= "cline"@ + ":"@);
    assert(key.take(6) =~= "cline:"@);
    assert(key.skip(6) =~= id);
    assert(id.take(id.len() as int) =~= id);
    let i = choose|i: int| 0 <= i < rules.seeded.len() && rules.seeded[i] == key;
    assert(migrated(rules, bare).seeded[i] == seed::mark(cline::pool_by_channel(id, bare).name(), id));
}

} // verus!
