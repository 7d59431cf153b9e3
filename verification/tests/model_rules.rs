//! The rules about models.

use gateway_core::json::{parse, to_value, Json};
use gateway_core::model_rules::cline::migrate_cline_split;
use gateway_core::model_rules::edit::{
    add_custom, add_mapping, alias_valid, custom_models_for, is_custom, mapping_stored,
    remove_custom, remove_mapping, set_state, state_stored,
};
use gateway_core::model_rules::reasoning::{normalize_reasoning, reasoning_levels, reasoning_rank};
use gateway_core::model_rules::seed::{
    is_opaque_raccoon_id, seed_cline_defaults, seed_qoder_defaults, seed_raccoon_defaults,
    seed_workbuddy_defaults,
};
use gateway_core::model_rules::store::current;
use gateway_core::model_rules::{CustomModel, Mapping, ModelRules, RuleEntry};
use gateway_core::providers::cline::{friendly_alias, is_cline_channel, pool_of, Pool};

fn rules(text: &str) -> ModelRules {
    current(&parse(&format!("{{\"modelRules\":{}}}", text)).unwrap())
}

fn strings(list: &[&str]) -> Vec<String> {
    list.iter().map(|s| s.to_string()).collect()
}

fn value(text: &str) -> serde_json::Value {
    serde_json::from_str(text).unwrap()
}

fn rule(provider: Option<&str>, id: &str) -> RuleEntry {
    RuleEntry { provider: provider.map(str::to_string), id: id.to_string() }
}

fn mapping(alias: &str, target: &str, provider: Option<&str>) -> Mapping {
    Mapping {
        alias: alias.to_string(),
        target: target.to_string(),
        provider: provider.map(str::to_string),
        reasoning: None,
        enabled: true,
    }
}

#[test]
fn rules_are_read_with_patience() {
    let r = rules(
        r#"{"disabled":[" a ",{"provider":"catpaw","id":"kimi-k3"},{"id":"x","provider":" "},{"provider":"p"},7,""],
            "hidden":["gone"],
            "mappings":[{"alias":" gpt ","target":"t","provider":"raccoon","reasoning":" high ","enabled":false},
                        {"alias":"b","target":"c","reasoning":"","enabled":"no"},
                        {"alias":"","target":"c"},{"alias":"x"},3],
            "custom":[{"provider":"catpaw","id":"k"},{"id":"no"},"text"],
            "seeded":["workbuddy:hy3"," ",4," x "]}"#,
    );
    assert_eq!(
        r.disabled,
        vec![rule(None, "a"), rule(Some("catpaw"), "kimi-k3"), rule(None, "x")]
    );
    let first = Mapping {
        reasoning: Some("high".to_string()),
        enabled: false,
        ..mapping("gpt", "t", Some("raccoon"))
    };
    assert_eq!(r.mappings, vec![first, mapping("b", "c", None)]);
    assert_eq!(
        r.custom,
        vec![CustomModel { provider: "catpaw".to_string(), id: "k".to_string() }]
    );
    assert_eq!(r.seeded, strings(&["workbuddy:hy3", "x"]));
    assert_eq!(current(&parse("{}").unwrap()), ModelRules::default());
    assert_eq!(current(&parse(r#"{"modelRules":[]}"#).unwrap()), ModelRules::default());
}

#[test]
fn rules_that_are_written_are_read_back() {
    let text = r#"{"disabled":["a",{"provider":"catpaw","id":"kimi-k3"}],
        "mappings":[{"alias":"g","target":"t","provider":"raccoon","reasoning":"high"},
                    {"alias":"b","target":"c","provider":null,"reasoning":null,"enabled":false}],
        "custom":[{"provider":"catpaw","id":"k"}],
        "seeded":["workbuddy:hy3"]}"#;
    let r = rules(text);
    assert_eq!(to_value(&r.to_value()), value(text));
    let mut raw = parse(r#"{"other":1,"modelRules":{"hidden":["x"]}}"#).unwrap();
    raw.put("modelRules", r.to_value());
    assert_eq!(ModelRules::from_raw(&raw), r);
}

#[test]
fn a_closed_model_is_not_offered_under_its_own_name() {
    let r = rules(r#"{"disabled":["Kimi",{"provider":"catpaw","id":"x"}]}"#);
    assert!(r.is_disabled("anyone", "kimi"));
    assert!(r.is_disabled("CatPaw", "X"));
    assert!(!r.is_disabled("raccoon", "x"));
    assert!(r.is_blocked("catpaw", "x"));
    assert!(r.default_enabled("raccoon", "x"));
}

#[test]
fn the_binding_of_the_provider_goes_first() {
    let r = rules(
        r#"{"mappings":[{"alias":"m","target":"m"},
                        {"alias":"M","target":"m","provider":"catpaw","enabled":false}]}"#,
    );
    assert_eq!(r.binding("catpaw", "m", "M").unwrap().provider, Some("catpaw".to_string()));
    assert_eq!(r.binding("raccoon", "m", "m").unwrap().provider, None);
    assert!(r.binding("raccoon", "m", "other").is_none());
    assert!(!r.default_enabled("catpaw", "m"));
    assert!(r.default_enabled("raccoon", "m"));
}

#[test]
fn names_are_listed() {
    let r = rules(
        r#"{"mappings":[{"alias":"a","target":"t","provider":"p"},
                        {"alias":"A","target":"T"},
                        {"alias":"b","target":"t","provider":"q","enabled":false},
                        {"alias":"c","target":"t","provider":"q"}]}"#,
    );
    assert_eq!(r.mappings_of("A").len(), 2);
    assert_eq!(r.mappings_of("b").len(), 0);
    assert!(r.has_alias("B"));
    assert!(!r.has_alias("t"));
    assert_eq!(r.aliases_of("p", "t"), vec!["a", "A"]);
    assert_eq!(r.aliases_of("Q", "t"), vec!["A", "b", "c"]);
    assert_eq!(r.aliases_of_any("t"), vec!["a", "c"]);
}

#[test]
fn opening_for_one_provider_leaves_the_others_closed() {
    let r = rules(r#"{"disabled":["m",{"provider":"a","id":"m"},{"provider":"d","id":"other"}]}"#);
    let others = strings(&["a", "b", "C"]);
    let next = set_state(r, Some("b"), "M", Some(true), &others);
    assert_eq!(
        next.disabled,
        vec![rule(Some("a"), "m"), rule(Some("d"), "other"), rule(Some("C"), "M")]
    );
    assert!(next.default_enabled("b", "m"));
    assert!(!next.default_enabled("a", "m"));
    assert!(!next.default_enabled("c", "m"));
    assert!(!next.default_enabled("d", "other"));
}

#[test]
fn closing_twice_is_closing_once() {
    let r = ModelRules::default();
    let once = set_state(r, Some("p"), "m", Some(false), &[]);
    let twice = set_state(once.clone(), Some("p"), "M", Some(false), &[]);
    assert_eq!(once.disabled, vec![rule(Some("p"), "m")]);
    assert_eq!(twice.disabled, vec![rule(Some("p"), "M")]);
    let all = set_state(twice, None, "m", Some(false), &[]);
    assert_eq!(all.disabled, vec![rule(Some("p"), "M"), rule(None, "m")]);
    let open = set_state(all, None, "m", Some(true), &[]);
    assert!(open.disabled.is_empty());
    let same = set_state(open.clone(), Some("p"), "m", None, &[]);
    assert_eq!(same, open);
}

#[test]
fn the_own_name_has_one_switch() {
    let r = rules(
        r#"{"mappings":[{"alias":"m","target":"M","reasoning":"high"},{"alias":"x","target":"m"}]}"#,
    );
    let next = set_state(r, Some("p"), "m", Some(false), &[]);
    assert_eq!(next.mappings.len(), 3);
    assert_eq!(next.mappings[2].provider, Some("p".to_string()));
    assert_eq!(next.mappings[2].reasoning, Some("high".to_string()));
    assert!(!next.mappings[2].enabled);
    assert!(next.mappings[0].enabled);
    let again = set_state(next, Some("p"), "m", Some(true), &[]);
    assert_eq!(again.mappings.len(), 3);
    assert!(again.mappings[2].enabled);
    assert!(again.default_enabled("p", "m"));
}

#[test]
fn what_could_not_be_stored_is_an_error() {
    assert_eq!(
        state_stored(ModelRules::default(), false),
        Err("模型开关保存失败".to_string())
    );
    assert_eq!(
        mapping_stored(ModelRules::default(), false),
        Err("模型绑定保存失败".to_string())
    );
    assert!(state_stored(ModelRules::default(), true).is_ok());
    assert!(mapping_stored(ModelRules::default(), true).is_ok());
}

#[test]
fn names_have_few_characters() {
    assert!(alias_valid("gpt-4o_1.0/x:free"));
    assert!(!alias_valid(""));
    assert!(!alias_valid("a b"));
    assert!(!alias_valid("好"));
    assert!(alias_valid(&"a".repeat(128)));
    assert!(!alias_valid(&"a".repeat(129)));
}

#[test]
fn mappings_are_added_and_revised() {
    let (r, save) =
        add_mapping(ModelRules::default(), "g", "t", Some("p"), Some(Some(" high ")), None, &[]);
    assert!(save);
    assert_eq!(r.mappings.len(), 1);
    assert_eq!(r.mappings[0].reasoning, Some("high".to_string()));
    assert!(r.mappings[0].enabled);
    let (same, save) = add_mapping(r.clone(), "G", "T", Some("P"), None, None, &[]);
    assert!(!save);
    assert_eq!(same, r);
    let (off, save) = add_mapping(same, "g", "t", Some("p"), None, Some(false), &[]);
    assert!(save);
    assert!(!off.mappings[0].enabled);
    assert_eq!(off.mappings[0].reasoning, Some("high".to_string()));
    assert!(off.disabled.is_empty());
    let (cleared, save) = add_mapping(off.clone(), "g", "t", Some("p"), Some(None), None, &[]);
    assert!(save);
    assert_eq!(cleared.mappings[0].reasoning, None);
    let (twice, _) = add_mapping(cleared.clone(), "g", "t", Some("p"), Some(None), None, &[]);
    assert_eq!(twice, cleared);
    let (more, _) = add_mapping(cleared, "g", "t", None, None, None, &[]);
    assert_eq!(more.mappings.len(), 2);
}

#[test]
fn a_new_mapping_inherits_from_the_shared_one() {
    let r = rules(r#"{"mappings":[{"alias":"g","target":"t","reasoning":"low","enabled":false}]}"#);
    let (next, _) = add_mapping(r, "g", "t", Some("p"), None, None, &[]);
    assert_eq!(next.mappings[1].reasoning, Some("low".to_string()));
    assert!(next.mappings[1].enabled);
    assert!(!next.mappings[0].enabled);
    assert_eq!(next.mappings[1].provider, Some("p".to_string()));
}

#[test]
fn a_new_mapping_counts_beside_one_that_is_off() {
    let r = rules(r#"{"mappings":[{"alias":"a","target":"t","enabled":false}]}"#);
    let (next, save) = add_mapping(r, "a", "t", Some("raccoon"), None, None, &[]);
    assert!(save);
    assert_eq!(next.mappings.len(), 2);
    assert_eq!(next.mappings[1], mapping("a", "t", Some("raccoon")));
}

#[test]
fn providers_are_compared_without_regard_to_case() {
    let r = rules(r#"{"disabled":[{"provider":"catpaw","id":"k"}]}"#);
    let closed = set_state(r, Some("CatPaw"), "K", Some(false), &[]);
    assert_eq!(closed.disabled, vec![rule(Some("CatPaw"), "K")]);
    let open = set_state(closed, Some("catpaw"), "k", Some(true), &[]);
    assert!(open.disabled.is_empty());
    let switched = rules(
        r#"{"mappings":[{"alias":"k","target":"k","provider":"CatPaw","enabled":false},{"alias":"k","target":"k"}]}"#,
    );
    let on = set_state(switched, Some("catpaw"), "k", Some(true), &[]);
    assert_eq!(on.mappings.len(), 2);
    assert!(on.mappings[0].enabled);
    assert!(on.default_enabled("CATPAW", "K"));
}

#[test]
fn a_switch_outlasts_the_defaults() {
    let ids = strings(&["m1", "hy3"]);
    for on in [true, false] {
        let first = seed_workbuddy_defaults(
            rules(r#"{"mappings":[{"alias":"M1","target":"m1","provider":"WorkBuddy","enabled":false}]}"#),
            &ids,
        );
        assert!(first.save);
        let set = set_state(first.rules, Some("workbuddy"), "m1", Some(on), &[]);
        let again = seed_workbuddy_defaults(set.clone(), &ids);
        assert!(!again.save);
        assert_eq!(again.summary, None);
        assert_eq!(again.rules, set);
        assert_eq!(again.rules.default_enabled("workbuddy", "m1"), on);
    }
}

#[test]
fn a_mapping_of_the_own_name_is_its_switch() {
    let (r, save) =
        add_mapping(ModelRules::default(), "m", "M", Some("p"), None, Some(false), &[]);
    assert!(save);
    assert_eq!(r.disabled, vec![rule(Some("p"), "M")]);
    assert!(!r.default_enabled("p", "m"));
    let (open, save) = add_mapping(r, "m", "M", Some("p"), None, Some(true), &[]);
    assert!(save);
    assert!(open.disabled.is_empty());
    assert!(open.default_enabled("p", "m"));
}

#[test]
fn removing_a_shared_mapping_keeps_it_for_the_others() {
    let r = rules(
        r#"{"mappings":[{"alias":"g","target":"t"},{"alias":"g","target":"t","provider":"b"},
                        {"alias":"x","target":"t"}]}"#,
    );
    let others = strings(&["a", "b", "c"]);
    let (next, removed) = remove_mapping(r, "G", "T", Some("a"), &others);
    assert!(removed);
    assert_eq!(
        next.mappings,
        vec![
            mapping("g", "t", Some("b")),
            mapping("x", "t", None),
            mapping("G", "T", Some("c")),
        ]
    );
    assert!(next.binding("a", "g", "t").is_none());
    assert!(next.binding("c", "g", "t").is_some());
    let (none, removed) = remove_mapping(next.clone(), "g", "t", Some("z"), &others);
    assert!(!removed);
    assert_eq!(none, next);
    let (all, removed) = remove_mapping(next, "g", "t", None, &others);
    assert!(removed);
    assert_eq!(all.mappings, vec![mapping("x", "t", None)]);
}

#[test]
fn models_are_added_and_removed() {
    let (r, new) = add_custom(ModelRules::default(), "catpaw", "k");
    assert!(new);
    let (r, new) = add_custom(r, "CatPaw", "K");
    assert!(!new);
    assert_eq!(r.custom.len(), 1);
    assert!(is_custom(&r, "catpaw", "K"));
    assert!(r.custom[0].matches("CATPAW", "k"));
    assert_eq!(
        to_value(&custom_models_for(&r, "CATPAW")[0]),
        value(r#"{"id":"k","name":"k","isDefault":false,"kind":"chat"}"#)
    );
    assert!(custom_models_for(&r, "raccoon").is_empty());
    let r = set_state(r, Some("catpaw"), "k", Some(false), &[]);
    let r = set_state(r, None, "k", Some(false), &[]);
    let (r, _) = add_mapping(r, "g", "k", Some("catpaw"), None, None, &[]);
    let (r, _) = add_mapping(r, "g", "k", None, None, None, &[]);
    let (left, removed) = remove_custom(r, "catpaw", "K");
    assert!(removed);
    assert!(left.custom.is_empty());
    assert_eq!(left.disabled, vec![rule(None, "k")]);
    assert_eq!(left.mappings, vec![mapping("g", "k", None)]);
    let (same, removed) = remove_custom(left.clone(), "catpaw", "k");
    assert!(!removed);
    assert_eq!(same, left);
}

#[test]
fn code_names_are_told_apart() {
    assert!(is_opaque_raccoon_id("raccoon-8c4485"));
    assert!(is_opaque_raccoon_id("raccoon-ABCDEF01"));
    assert!(!is_opaque_raccoon_id("raccoon-"));
    assert!(!is_opaque_raccoon_id("raccoon-123456789"));
    assert!(!is_opaque_raccoon_id("raccoon-chat-ml-5-5"));
    assert!(!is_opaque_raccoon_id("8c4485"));
}

#[test]
fn raccoon_models_get_their_defaults_once() {
    let ids = strings(&["raccoon-8c4485", " sn-glm-5-3 ", "sn-deepseek-v4-1-flash", "plain", " "]);
    let s = seed_raccoon_defaults(ModelRules::default(), &ids);
    assert!(s.save);
    assert_eq!(
        s.summary,
        Some(
            "🧩 小浣熊模型默认规则: 默认禁用内部模型 [raccoon-8c4485]；默认新增映射 \
             [glm-5-3 → sn-glm-5-3, deepseek-v4.1-flash → sn-deepseek-v4-1-flash, \
             deepseek-v4-1-flash → sn-deepseek-v4-1-flash]"
                .to_string()
        )
    );
    assert_eq!(s.rules.disabled, vec![rule(Some("raccoon"), "raccoon-8c4485")]);
    assert_eq!(
        s.rules.mappings,
        vec![
            mapping("glm-5-3", "sn-glm-5-3", Some("raccoon")),
            mapping("deepseek-v4.1-flash", "sn-deepseek-v4-1-flash", Some("raccoon")),
            mapping("deepseek-v4-1-flash", "sn-deepseek-v4-1-flash", Some("raccoon")),
        ]
    );
    assert_eq!(
        s.rules.seeded,
        strings(&[
            "raccoon:raccoon-8c4485",
            "raccoon:sn-glm-5-3",
            "raccoon:sn-deepseek-v4-1-flash#alias:deepseek-v4.1-flash",
            "raccoon:sn-deepseek-v4-1-flash",
            "raccoon:plain",
        ])
    );
    let mut changed = s.rules;
    changed.disabled.clear();
    changed.mappings.clear();
    let again = seed_raccoon_defaults(changed.clone(), &ids);
    assert!(!again.save);
    assert_eq!(again.summary, None);
    assert_eq!(again.rules, changed);
}

#[test]
fn a_taken_name_is_marked_but_not_mapped() {
    let r = rules(r#"{"mappings":[{"alias":"glm","target":"x"}],"disabled":["raccoon-aa"]}"#);
    let s = seed_raccoon_defaults(r, &strings(&["sn-glm", "raccoon-aa", "sn-q", "Q", "sn-"]));
    assert_eq!(s.summary, None);
    assert!(s.save);
    assert_eq!(s.rules.mappings.len(), 1);
    assert_eq!(s.rules.disabled.len(), 1);
    assert_eq!(s.rules.seeded.len(), 5);
}

#[test]
fn all_models_but_a_few_are_closed() {
    let s = seed_workbuddy_defaults(
        ModelRules::default(),
        &strings(&["HY3", "auto", "deepseek-v4.1-flash", "glm"]),
    );
    assert!(s.save);
    assert_eq!(
        s.summary,
        Some(
            "🧩 WorkBuddy模型默认规则: 默认只启用 [hy3, hy4-preview-f, deepseek-v4.1-flash]；\
             默认禁用 2 个 [auto, glm]"
                .to_string()
        )
    );
    assert!(s.rules.is_disabled("workbuddy", "auto"));
    assert!(!s.rules.is_disabled("workbuddy", "hy3"));
    let q = seed_qoder_defaults(ModelRules::default(), &strings(&["qwen3.8-flash", "Auto"]));
    assert_eq!(
        q.summary,
        Some(
            "🧩 Qoder模型默认规则: 默认只启用 [Qwen3.8-Flash]；默认禁用 1 个 [Auto]".to_string()
        )
    );
    assert_eq!(q.rules.disabled, vec![rule(Some("qoder"), "Auto")]);
}

#[test]
fn old_marks_count_for_two_providers_only() {
    let r = rules(r#"{"seeded":["auto"]}"#);
    let w = seed_workbuddy_defaults(r.clone(), &strings(&["Auto"]));
    assert!(!w.save);
    assert!(w.rules.disabled.is_empty());
    let q = seed_qoder_defaults(r, &strings(&["Auto"]));
    assert!(q.save);
    assert_eq!(q.rules.disabled.len(), 1);
}

#[test]
fn cline_models_get_short_names() {
    let free = seed_cline_defaults(
        ModelRules::default(),
        "cline-free",
        &strings(&["cline-free/deepseek-v4.1-flash", "z-ai/glm-5.3-flash", "plain"]),
    );
    assert!(free.save);
    assert_eq!(
        free.summary,
        Some(
            "🧩 Cline 模型默认映射: [deepseek-v4.1-flash → cline-free/deepseek-v4.1-flash, \
             glm-5.3-flash → z-ai/glm-5.3-flash]"
                .to_string()
        )
    );
    let pass = seed_cline_defaults(
        free.rules,
        "cline-pass",
        &strings(&["cline-pass/deepseek-v4.1-flash", "openai/gpt-6-astra", "cline-pass/new"]),
    );
    assert_eq!(
        pass.rules.mappings[2..],
        [
            mapping("deepseek-v4.1-flash", "cline-pass/deepseek-v4.1-flash", Some("cline-pass")),
            mapping("new", "cline-pass/new", Some("cline-pass")),
        ]
    );
    let ids = strings(&["cline-pass/deepseek-v4.1-flash", "openai/gpt-6-astra", "cline-pass/new"]);
    let again = seed_cline_defaults(pass.rules.clone(), "cline-pass", &ids);
    assert!(!again.save);
    assert_eq!(again.rules, pass.rules);
}

#[test]
fn the_pools_of_cline() {
    assert_eq!(Pool::from_provider_id("cline-free"), Some(Pool::Free));
    assert_eq!(Pool::from_provider_id("cline"), None);
    assert_eq!(Pool::Pass.provider_id(), "cline-pass");
    assert_eq!(Pool::Pass.target_prefix(), "cline-pass/");
    assert_eq!(pool_of("cline-pass/x", Pool::Free), Pool::Pass);
    assert_eq!(pool_of("x", Pool::Free), Pool::Free);
    assert!(is_cline_channel("cline-free/x"));
    assert!(!is_cline_channel("cline/x"));
    assert_eq!(friendly_alias(Pool::Free, "z-ai/glm"), Some("glm".to_string()));
    assert_eq!(friendly_alias(Pool::Pass, "z-ai/glm"), None);
    assert_eq!(friendly_alias(Pool::Pass, "cline-pass/glm"), Some("glm".to_string()));
    assert_eq!(friendly_alias(Pool::Free, "glm"), None);
}

#[test]
fn the_rules_of_cline_move_to_the_pools_once() {
    let r = rules(
        r#"{"disabled":[{"provider":"cline","id":"cline-pass/glm"},{"provider":"cline","id":"bare"},"cline"],
            "mappings":[{"alias":"a","target":"cline-free/x","provider":"cline"},
                        {"alias":"b","target":"cline-pass/y"},
                        {"alias":"c","target":"glm"}],
            "seeded":["cline:cline-free/x#alias:x","cline:cline-pass/y","cline-free:z"]}"#,
    );
    let (moved, told) = migrate_cline_split(r, Pool::Free);
    assert_eq!(
        told,
        Some(
            "🔀 Cline 已拆为 Cline Free / Cline Pass 两家，存量规则已迁移（禁用 2 条；\
             映射 1 条改名 / 1 条补归属；种子标记 2 条）"
                .to_string()
        )
    );
    assert_eq!(
        moved.disabled,
        vec![
            rule(Some("cline-pass"), "cline-pass/glm"),
            rule(Some("cline-free"), "bare"),
            rule(None, "cline"),
        ]
    );
    assert_eq!(
        moved.mappings,
        vec![
            mapping("a", "cline-free/x", Some("cline-free")),
            mapping("b", "cline-pass/y", Some("cline-pass")),
            mapping("c", "glm", None),
        ]
    );
    assert_eq!(
        moved.seeded,
        strings(&["cline-free:cline-free/x#alias:x", "cline-pass:cline-pass/y", "cline-free:z"])
    );
    let (again, told) = migrate_cline_split(moved.clone(), Pool::Free);
    assert_eq!(told, None);
    assert_eq!(again, moved);
}

#[test]
fn levels_have_an_order() {
    assert_eq!(
        reasoning_levels(),
        strings(&["minimal", "low", "medium", "high", "xhigh", "max"])
    );
    assert_eq!(reasoning_rank("minimal"), Some(0));
    assert_eq!(reasoning_rank("max"), Some(5));
    assert_eq!(reasoning_rank("none"), None);
    assert_eq!(normalize_reasoning(" high "), Some("high".to_string()));
    assert_eq!(normalize_reasoning("  "), None);
    assert!(Json::obj().is_obj());
}
