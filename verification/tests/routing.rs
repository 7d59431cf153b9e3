//! The models of the providers, and which account carries a request.

use gateway_core::json::{parse, to_value, Json};
use gateway_core::model_rules::store::current;
use gateway_core::model_rules::ModelRules;
use gateway_core::providers::catalog::manage::{manage_view, models_by_provider};
use gateway_core::providers::catalog::routing::{
    builtin_target, default_model_catalog, default_model_usable, entry_id_in_manifest,
    forwarding_providers, model_blocked_everywhere, providers_for_model, wire_target_for_provider,
    WireTarget,
};
use gateway_core::providers::catalog::view::{
    advertised_manifest_contains, advertised_model_ids, has_available_providers, models_response,
    public_builtin_items, public_item, scoped_offers, session_models, ListItem,
};
use gateway_core::providers::catalog::{
    active_manifests, aggregate_source, manifest_for, model_id, provider_available, Listing, Offer,
};
use gateway_core::providers::custom::{catalog_providers, CustomOffer};
use gateway_core::providers::router::route_for_forward;
use gateway_core::providers::{
    all_kinds, is_custom_provider_id, is_known_provider_id, kind_from_id, kind_id, label_of, meta,
    provider_index, summary_json, ProviderKind, DEFAULT_PROVIDER_ID,
};
use gateway_core::routing::{
    account_id, account_name, account_usability, accounts_of, describe_route_decision,
    is_rate_limited, max_concurrent_of, pick_account_by_priority, pick_for_model, provider_of,
    rate_limit_reset_at, CooldownKeys,
};
use gateway_core::upstream::provider_loop::KeyScope;

fn json(text: &str) -> Json {
    parse(text).unwrap()
}

fn list(texts: &[&str]) -> Vec<Json> {
    texts.iter().map(|t| json(t)).collect()
}

fn value(text: &str) -> serde_json::Value {
    serde_json::from_str(text).unwrap()
}

fn rules(text: &str) -> ModelRules {
    current(&json(&format!("{{\"modelRules\":{}}}", text)))
}

fn strings(list: &[&str]) -> Vec<String> {
    list.iter().map(|s| s.to_string()).collect()
}

fn target(model: &str, reasoning: Option<&str>) -> WireTarget {
    WireTarget { model: model.to_string(), reasoning: reasoning.map(str::to_string) }
}

fn listings() -> Vec<Listing> {
    vec![
        Listing {
            kind: ProviderKind::WorkBuddy,
            entries: list(&[r#"{"id":"hy3","name":"Hunyuan 3"}"#, r#"{"id":"GLM-5"}"#]),
            default_models: true,
        },
        Listing {
            kind: ProviderKind::CatPaw,
            entries: list(&[r#"{"id":"kimi-k3","name":"hy3"}"#, r#"{"id":"glm-5"}"#]),
            default_models: false,
        },
    ]
}

fn offer(kind: ProviderKind, accounts: usize, entries: Vec<Json>) -> Offer {
    Offer { kind, accounts, environment: false, entries, remote: true, refreshed_at: 5 }
}

#[test]
fn providers_are_found_by_their_names() {
    for kind in all_kinds() {
        assert_eq!(kind_from_id(kind_id(kind)), Some(kind));
        assert!(!is_custom_provider_id(kind_id(kind)));
        assert_eq!(meta(kind).id, kind_id(kind));
    }
    assert_eq!(all_kinds().len(), 8);
    assert_eq!(provider_index("raccoon"), Some(1));
    assert_eq!(provider_index("cline"), None);
    assert!(is_known_provider_id(DEFAULT_PROVIDER_ID));
    assert!(is_custom_provider_id("custom-1"));
    assert_eq!(label_of("raccoon", None), "小浣熊");
    assert_eq!(label_of("custom-1", Some("Mine")), "Mine");
    assert_eq!(label_of("custom-1", None), "custom-1");
    assert_eq!(label_of("else", None), "else");
    let summary = summary_json(&vec![2]);
    assert_eq!(summary.len(), 8);
    assert_eq!(
        to_value(&summary[0]),
        value(r#"{"id":"workbuddy","label":"WorkBuddy","count":2}"#)
    );
}

#[test]
fn added_models_come_after_the_listed_ones() {
    let r = rules(
        r#"{"custom":[{"provider":"catpaw","id":"new"},{"provider":"catpaw","id":"KIMI-K3"},
                      {"provider":"raccoon","id":"r"}]}"#,
    );
    let all = manifest_for(&listings()[1].entries, &r, ProviderKind::CatPaw);
    let ids: Vec<String> = all.iter().map(model_id).collect();
    assert_eq!(ids, strings(&["kimi-k3", "glm-5", "new"]));
}

#[test]
fn an_identifier_goes_before_a_shown_name() {
    let entries = list(&[r#"{"id":"a","name":"b"}"#, r#"{"id":"B"}"#, r#"{"id":"c","name":7}"#]);
    assert_eq!(entry_id_in_manifest(&entries, " b "), Some("B".to_string()));
    assert_eq!(entry_id_in_manifest(&entries[..1].iter().map(|j| j.copy()).collect(), "B"), Some("a".to_string()));
    assert_eq!(entry_id_in_manifest(&entries, "7"), Some("c".to_string()));
    assert_eq!(entry_id_in_manifest(&entries, " "), None);
    assert_eq!(entry_id_in_manifest(&entries, "x"), None);
}

#[test]
fn a_closed_name_can_still_be_reached_by_a_mapping() {
    let r = rules(
        r#"{"disabled":[{"provider":"workbuddy","id":"hy3"}],
            "mappings":[{"alias":"gpt","target":"HY3","provider":"workbuddy","reasoning":"high"},
                        {"alias":"off","target":"hy3","provider":"workbuddy","enabled":false}]}"#,
    );
    let entries = &listings()[0].entries;
    let kind = ProviderKind::WorkBuddy;
    assert_eq!(builtin_target(&r, kind, entries, "hy3"), None);
    assert_eq!(builtin_target(&r, kind, entries, "GPT"), Some(target("hy3", Some("high"))));
    assert_eq!(builtin_target(&r, kind, entries, "off"), None);
    assert_eq!(builtin_target(&r, kind, entries, "glm-5"), Some(target("GLM-5", None)));
    assert_eq!(builtin_target(&r, kind, entries, "Hunyuan 3"), None);
}

#[test]
fn the_own_mapping_to_the_own_pool_is_taken() {
    let entries = list(&[r#"{"id":"z-ai/m"}"#, r#"{"id":"cline-free/m"}"#]);
    let shared = rules(
        r#"{"mappings":[{"alias":"s","target":"z-ai/m"},
                        {"alias":"s","target":"z-ai/m","provider":"cline-free","reasoning":"low"},
                        {"alias":"s","target":"cline-free/m","provider":"cline-free"}]}"#,
    );
    assert_eq!(
        builtin_target(&shared, ProviderKind::ClineFree, &entries, "s"),
        Some(target("cline-free/m", None))
    );
    let fewer = rules(
        r#"{"mappings":[{"alias":"s","target":"z-ai/m"},
                        {"alias":"s","target":"z-ai/m","provider":"cline-free","reasoning":"low"}]}"#,
    );
    assert_eq!(
        builtin_target(&fewer, ProviderKind::ClineFree, &entries, "s"),
        Some(target("z-ai/m", Some("low")))
    );
    let one = rules(r#"{"mappings":[{"alias":"s","target":"z-ai/m"}]}"#);
    assert_eq!(
        builtin_target(&one, ProviderKind::ClineFree, &entries, "s"),
        Some(target("z-ai/m", None))
    );
}

#[test]
fn the_providers_of_a_model() {
    let r = ModelRules::default();
    let customs = list(&[
        r#"{"id":"custom-1","models":[{"id":"GLM-5"}]}"#,
        r#"{"models":[{"id":"glm-5"}]}"#,
        r#"{"id":"custom-2","models":"no"}"#,
    ]);
    let none: Vec<Json> = vec![];
    assert_eq!(
        providers_for_model(&listings(), &r, &customs, " glm-5 "),
        strings(&["workbuddy", "catpaw", "custom-1", ""])
    );
    assert_eq!(providers_for_model(&listings(), &r, &none, "hy3"), strings(&["workbuddy"]));
    assert_eq!(providers_for_model(&listings(), &r, &none, "Hunyuan 3"), strings(&["workbuddy"]));
    assert!(providers_for_model(&listings(), &r, &none, "").is_empty());
    assert_eq!(
        forwarding_providers(&listings(), &r, &strings(&["custom-1"]), "hy3"),
        strings(&["workbuddy", "catpaw", "custom-1"])
    );
}

#[test]
fn a_closed_model_goes_nowhere() {
    let r = rules(r#"{"disabled":["kimi-k3"],"mappings":[{"alias":"only","target":"x","enabled":false}]}"#);
    let none: Vec<Json> = vec![];
    let nobody: Vec<String> = vec![];
    assert!(route_for_forward(&listings(), &r, &none, &nobody, "kimi-k3").is_empty());
    assert!(model_blocked_everywhere(&listings(), &r, &none, &nobody, "kimi-k3"));
    assert!(model_blocked_everywhere(&listings(), &r, &none, &nobody, "ONLY"));
    assert!(!model_blocked_everywhere(&listings(), &r, &none, &nobody, "hy3"));
    assert!(!model_blocked_everywhere(&listings(), &r, &none, &nobody, "nobody knows"));
    let mapped = list(&[r#"{"id":"custom-1","mappings":[{"alias":"mine"}]}"#]);
    assert!(model_blocked_everywhere(&listings(), &r, &mapped, &nobody, "MINE"));
    assert_eq!(
        route_for_forward(&listings(), &r, &none, &nobody, "nobody knows"),
        strings(&["workbuddy"])
    );
    assert_eq!(route_for_forward(&listings(), &r, &none, &nobody, " "), strings(&["workbuddy"]));
    assert_eq!(
        route_for_forward(&listings(), &r, &none, &nobody, "glm-5"),
        strings(&["workbuddy", "catpaw"])
    );
}

#[test]
fn the_name_that_is_sent() {
    let r = rules(
        r#"{"mappings":[{"alias":"gpt","target":"kimi-k3","provider":"catpaw","reasoning":"high"}]}"#,
    );
    assert_eq!(
        wire_target_for_provider(&listings(), &r, " gpt ", "catpaw"),
        target("kimi-k3", Some("high"))
    );
    assert_eq!(wire_target_for_provider(&listings(), &r, " gpt ", "workbuddy"), target("gpt", None));
    assert_eq!(wire_target_for_provider(&listings(), &r, "gpt", "custom-1"), target("gpt", None));
    assert_eq!(wire_target_for_provider(&listings(), &r, "gpt", "raccoon"), target("gpt", None));
    assert_eq!(WireTarget::default(), target("", None));
}

#[test]
fn the_default_model_is_one_that_is_offered() {
    let r = rules(r#"{"disabled":[{"provider":"workbuddy","id":"glm-5"}]}"#);
    let all = default_model_catalog(&listings(), &r);
    let ids: Vec<String> = all.iter().map(model_id).collect();
    assert_eq!(ids, strings(&["hy3"]));
    assert!(default_model_usable(&listings(), &r, "HY3"));
    assert!(!default_model_usable(&listings(), &r, "glm-5"));
    assert!(!default_model_usable(&listings(), &r, "kimi-k3"));
}

#[test]
fn only_open_names_are_shown_and_each_once() {
    let r = rules(
        r#"{"disabled":[{"provider":"workbuddy","id":"hy3"}],
            "mappings":[{"alias":"gpt","target":"kimi-k3","provider":"catpaw"},
                        {"alias":"hy3","target":"kimi-k3","provider":"catpaw"},
                        {"alias":"shut","target":"kimi-k3","provider":"catpaw","enabled":false}]}"#,
    );
    let offers = vec![
        offer(ProviderKind::WorkBuddy, 1, list(&[r#"{"id":"hy3"}"#, r#"{"id":"GLM-5"}"#])),
        offer(ProviderKind::CatPaw, 1, list(&[r#"{"id":"kimi-k3"}"#, r#"{"id":"glm-5"}"#])),
        offer(ProviderKind::Qoder, 0, list(&[r#"{"id":"q"}"#])),
    ];
    let active = active_manifests(&offers);
    assert_eq!(active.len(), 2);
    let shown = public_builtin_items(&active, &r);
    let names: Vec<(String, String, String)> = shown
        .iter()
        .map(|p| (p.provider.clone(), p.name.clone(), p.model.clone()))
        .collect();
    let expect: Vec<(String, String, String)> = [
        ("workbuddy", "GLM-5", "GLM-5"),
        ("catpaw", "kimi-k3", "kimi-k3"),
        ("catpaw", "gpt", "kimi-k3"),
        ("catpaw", "hy3", "kimi-k3"),
    ]
    .iter()
    .map(|(a, b, c)| (a.to_string(), b.to_string(), c.to_string()))
    .collect();
    assert_eq!(names, expect);
    let item = public_item(&shown[2], json(r#"{"id":"kimi-k3","is_default":true,"x":1}"#));
    assert_eq!(
        to_value(&item),
        value(r#"{"id":"gpt","name":"gpt","is_default":false,"x":1}"#)
    );
    let plain = public_item(&shown[1], json(r#"{"id":"K","is_default":true}"#));
    assert_eq!(to_value(&plain), value(r#"{"id":"kimi-k3","is_default":true}"#));
    assert_eq!(
        to_value(&models_by_provider(&offers, &vec![], &r)),
        value(r#"{"workbuddy":["GLM-5"],"catpaw":["glm-5","gpt","hy3","kimi-k3"]}"#)
    );
}

#[test]
fn offers_need_accounts_or_the_environment() {
    assert!(provider_available(1, false));
    assert!(provider_available(0, true));
    assert!(!provider_available(0, false));
    let mut one = vec![offer(ProviderKind::Qoder, 1, list(&[r#"{"id":"q"}"#]))];
    assert!(has_available_providers(&one));
    assert_eq!(aggregate_source(&active_manifests(&one)), ("remote", 5));
    one[0].remote = false;
    assert_eq!(aggregate_source(&active_manifests(&one)), ("builtin", 5));
    one.push(offer(ProviderKind::CatPaw, 1, list(&[r#"{"id":"k"}"#])));
    assert_eq!(aggregate_source(&active_manifests(&one)), ("aggregate", 5));
    let empty = vec![offer(ProviderKind::Qoder, 1, vec![])];
    assert!(!has_available_providers(&empty));
    assert_eq!(aggregate_source(&active_manifests(&empty)), ("none", 0));
}

#[test]
fn the_list_of_models() {
    let offers = vec![
        offer(ProviderKind::WorkBuddy, 1, list(&[r#"{"id":"hy3"}"#])),
        offer(ProviderKind::Qoder, 1, list(&[r#"{"id":"q"}"#])),
    ];
    let scope = KeyScope {
        restricted: true,
        providers: strings(&["workbuddy", "custom-1"]),
        description: "".to_string(),
    };
    let active = scoped_offers(&offers, Some(&scope));
    assert_eq!(active.len(), 1);
    let items = vec![
        ListItem { item: json(r#"{"id":"hy3","owned_by":"workbuddy"}"#), allowed: true },
        ListItem { item: json(r#"{"id":"no"}"#), allowed: false },
    ];
    let customs = vec![
        CustomOffer {
            id: "custom-1".to_string(),
            accounts: 1,
            entries: list(&[r#"{"id":"HY3"}"#, r#"{"id":"mine"}"#, r#"{"id":"shut"}"#]),
            items: vec![
                ListItem { item: json(r#"{"id":"HY3"}"#), allowed: true },
                ListItem { item: json(r#"{"id":"mine","owned_by":"custom-1","is_default":true}"#), allowed: true },
                ListItem { item: json(r#"{"id":"shut"}"#), allowed: false },
            ],
        },
        CustomOffer {
            id: "custom-2".to_string(),
            accounts: 1,
            entries: list(&[r#"{"id":"other"}"#]),
            items: vec![ListItem { item: json(r#"{"id":"other"}"#), allowed: true }],
        },
        CustomOffer { id: "custom-3".to_string(), accounts: 0, entries: vec![], items: vec![] },
    ];
    assert_eq!(catalog_providers(&customs).len(), 2);
    let all = models_response(&active, &items, &customs, Some(&scope));
    assert_eq!(advertised_model_ids(&all.data), strings(&["hy3", "mine"]));
    assert_eq!(all.source, "aggregate");
    assert_eq!(all.refreshed_at, 5);
    assert!(advertised_manifest_contains(&all.data, "MINE"));
    assert!(!advertised_manifest_contains(&all.data, "other"));
    let alone = models_response(&active, &items, &vec![], Some(&scope));
    assert_eq!(alone.source, "remote");
    let labels = vec![("custom-1".to_string(), "Mine".to_string())];
    let shown = session_models(&all.data, &labels);
    assert_eq!(
        to_value(&shown[0]),
        value(
            r#"{"id":"hy3","owned_by":"workbuddy","providerLabel":"WorkBuddy","provider":"workbuddy","isDefault":false}"#
        )
    );
    assert_eq!(
        to_value(&shown[1]),
        value(
            r#"{"id":"mine","owned_by":"custom-1","is_default":true,"providerLabel":"Mine","provider":"custom-1","isDefault":true}"#
        )
    );
}

#[test]
fn the_user_sees_every_binding() {
    let r = rules(
        r#"{"disabled":[{"provider":"catpaw","id":"kimi-k3"}],
            "custom":[{"provider":"catpaw","id":"extra"}],
            "mappings":[{"alias":"gpt","target":"kimi-k3","provider":"catpaw","enabled":false,"reasoning":"low"},
                        {"alias":"kimi-k3","target":"kimi-k3"},
                        {"alias":"far","target":"glm-5","provider":"workbuddy"},
                        {"alias":"lost","target":"nothing"}]}"#,
    );
    let offers = vec![offer(
        ProviderKind::CatPaw,
        1,
        list(&[r#"{"id":"kimi-k3","name":"Kimi","isDefault":true}"#, r#"{"id":"extra"}"#, r#"{"name":"no id"}"#]),
    )];
    let seen = to_value(&manage_view(&listings(), &r, &vec![], &offers));
    assert_eq!(
        seen,
        value(
            r#"{"models":[
                 {"id":"extra","name":null,"credits":null,"isDefault":false,"provider":"catpaw",
                  "providerLabel":"CatPaw","source":"manual","enabled":true,"aliases":[]},
                 {"id":"kimi-k3","name":"Kimi","credits":null,"isDefault":true,"provider":"catpaw",
                  "providerLabel":"CatPaw","source":"remote","enabled":false,"aliases":["gpt"]}],
                "mappings":[
                 {"alias":"extra","target":"extra","provider":"catpaw","enabled":true,"reasoning":null,
                  "isDefault":true,"dangling":false,"carried":true},
                 {"alias":"kimi-k3","target":"kimi-k3","provider":"catpaw","enabled":false,"reasoning":null,
                  "isDefault":true,"dangling":false,"carried":true},
                 {"alias":"gpt","target":"kimi-k3","provider":"catpaw","enabled":false,"reasoning":"low",
                  "isDefault":false,"dangling":false,"carried":true},
                 {"alias":"far","target":"glm-5","provider":"workbuddy","enabled":true,"reasoning":null,
                  "isDefault":false,"dangling":true,"carried":true},
                 {"alias":"lost","target":"nothing","provider":null,"enabled":true,"reasoning":null,
                  "isDefault":false,"dangling":true,"carried":false}],
                "reasoningLevels":["minimal","low","medium","high","xhigh","max"]}"#
        )
    );
}

#[test]
fn a_limit_is_kept_under_the_name_that_is_sent() {
    let all = listings();
    let r = rules(r#"{"mappings":[{"alias":"gpt","target":"kimi-k3","provider":"catpaw"}]}"#);
    let names = vec![("custom-1".to_string(), "real".to_string())];
    let keys = CooldownKeys::new("gpt", &all, &r, &names);
    assert_eq!(keys.for_provider("catpaw"), "kimi-k3");
    assert_eq!(keys.for_provider("workbuddy"), "gpt");
    assert_eq!(keys.for_provider("custom-1"), "real");
    assert_eq!(keys.for_provider("custom-2"), "gpt");
    assert_eq!(keys.for_provider(""), "gpt");
    let account = json(
        r#"{"id":"a","provider":"catpaw","rateLimits":{"kimi-k3":{"resetAt":2000},"gpt":{"resetAt":9000}}}"#,
    );
    assert_eq!(keys.for_account(&account), "kimi-k3");
    assert_eq!(rate_limit_reset_at(&account, &keys, 1000), 2000);
    assert_eq!(rate_limit_reset_at(&account, &keys, 2000), 0);
    assert!(is_rate_limited(&account, &keys, 1999));
    assert!(!is_rate_limited(&account, &keys, 2001));
    let none = CooldownKeys::new("", &all, &r, &names);
    assert_eq!(none.for_provider("catpaw"), "");
    let wide = CooldownKeys::new("x ", &all, &r, &names);
    assert_eq!(wide.for_provider("custom-2"), "x");
    let spelled = rules(r#"{"mappings":[{"alias":"gpt","target":"kimi-k3","provider":"CatPaw"}]}"#);
    let cased = CooldownKeys::new("gpt", &all, &spelled, &names);
    assert_eq!(cased.for_provider("catpaw"), "kimi-k3");
}

#[test]
fn the_end_of_a_limit_may_be_any_number() {
    let all = listings();
    let r = ModelRules::default();
    let names: Vec<(String, String)> = vec![];
    let keys = CooldownKeys::new("m", &all, &r, &names);
    let cases = [
        ("2000.5", 2000),
        ("\"2000\"", 2000),
        ("\" 2000.9 \"", 2000),
        ("\"2e3\"", 2000),
        ("1000.5", 1000),
        ("\"soon\"", 0),
        ("\"\"", 0),
        ("\"inf\"", 0),
        ("true", 0),
        ("null", 0),
        ("[3000]", 0),
        ("1e300", i64::MAX),
    ];
    for (end, expected) in cases {
        let account = json(&format!("{{\"id\":\"a\",\"rateLimits\":{{\"m\":{{\"resetAt\":{}}}}}}}", end));
        assert_eq!(rate_limit_reset_at(&account, &keys, 1000), expected, "{}", end);
    }
    assert_eq!(
        rate_limit_reset_at(&json(r#"{"id":"a","rateLimits":{"m":{"resetAt":true}}}"#), &keys, 0),
        1
    );
    assert_eq!(rate_limit_reset_at(&json(r#"{"id":"a","rateLimits":{"m":5}}"#), &keys, 1000), 0);
    assert_eq!(rate_limit_reset_at(&json(r#"{"id":"a"}"#), &keys, 1000), 0);
}

#[test]
fn an_account_can_be_used_or_not() {
    let all = listings();
    let r = ModelRules::default();
    let names: Vec<(String, String)> = vec![];
    let keys = CooldownKeys::new("m", &all, &r, &names);
    let off = account_usability(&json(r#"{"enabled":false}"#), &keys, 0);
    assert_eq!((off.usable, off.reason), (false, Some("disabled")));
    let odd = account_usability(&json(r#"{"enabled":"false"}"#), &keys, 0);
    assert_eq!((odd.usable, odd.reason), (true, None));
    let resting = account_usability(&json(r#"{"rateLimits":{"m":{"resetAt":9}}}"#), &keys, 0);
    assert_eq!((resting.usable, resting.reason), (false, Some("rate-limited")));
    assert_eq!(max_concurrent_of(&json(r#"{"maxConcurrent":3}"#)), 3);
    assert_eq!(max_concurrent_of(&json(r#"{"maxConcurrent":-3}"#)), 0);
    assert_eq!(max_concurrent_of(&json(r#"{"maxConcurrent":"3"}"#)), 0);
    assert_eq!(max_concurrent_of(&json(r#"{"maxConcurrent":18446744073709551615}"#)), u64::MAX);
    assert_eq!(provider_of(&json("{}")), "workbuddy");
    assert_eq!(account_id(&json(r#"{"id":""}"#)), None);
    assert_eq!(account_id(&json(r#"{"id":"x"}"#)), Some("x"));
    assert_eq!(account_name(&json(r#"{"name":"N"}"#), "x"), "N");
    assert_eq!(account_name(&json(r#"{"name":""}"#), "x"), "x");
    assert_eq!(account_name(&json(r#"{"name":7}"#), "x"), "7");
    assert_eq!(accounts_of(&json(r#"{"accounts":[1,2]}"#)).len(), 2);
    assert_eq!(accounts_of(&json(r#"{"accounts":{}}"#)).len(), 0);
}

#[test]
fn the_first_account_that_can_carry_the_request_is_picked() {
    let all = listings();
    let r = ModelRules::default();
    let names: Vec<(String, String)> = vec![];
    let keys = CooldownKeys::new("m", &all, &r, &names);
    let accounts = list(&[
        r#"{"id":"late","priority":2,"addedAt":5}"#,
        r#"{"id":"off","priority":0,"enabled":false}"#,
        r#"{"id":"busy","priority":1,"maxConcurrent":2}"#,
        r#"{"id":"early","priority":2,"addedAt":"3"}"#,
        r#"{"id":"twin","priority":2,"addedAt":3}"#,
        r#"{"id":"rests","priority":1,"rateLimits":{"m":{"resetAt":100}}}"#,
        r#"{"priority":0}"#,
        r#"{"id":"none"}"#,
    ]);
    let counts = vec![("busy".to_string(), 2usize)];
    let nobody: Vec<String> = vec![];
    let pick = |tried: &Vec<String>, counts: &Vec<(String, usize)>, fallback: i64| {
        pick_account_by_priority(&accounts, &keys, counts, tried, 50, fallback)
            .map(|a| account_id(a).unwrap().to_string())
    };
    assert_eq!(pick(&nobody, &counts, 100), Some("early".to_string()));
    assert_eq!(pick(&nobody, &vec![], 100), Some("busy".to_string()));
    assert_eq!(pick(&strings(&["early"]), &counts, 100), Some("twin".to_string()));
    assert_eq!(pick(&nobody, &counts, 1), Some("none".to_string()));
    assert_eq!(
        pick(&strings(&["early", "twin", "late", "none"]), &counts, 100),
        None
    );
}

#[test]
fn the_next_account_for_a_model() {
    let all = listings();
    let r = ModelRules::default();
    let names: Vec<(String, String)> = vec![];
    let keys = CooldownKeys::new("m", &all, &r, &names);
    let accounts = list(&[
        r#"{"id":"a","priority":1,"provider":"catpaw"}"#,
        r#"{"id":"b","priority":2,"hasCredentials":false}"#,
        r#"{"id":"c","priority":3}"#,
    ]);
    let id = |providers: &[&str]| {
        pick_for_model(&accounts, &keys, &strings(providers), &vec![], 0, 100)
            .map(|a| account_id(&a).unwrap().to_string())
    };
    assert_eq!(id(&[]), Some("a".to_string()));
    assert_eq!(id(&["workbuddy"]), Some("c".to_string()));
    assert_eq!(id(&["qoder"]), None);
}

#[test]
fn a_choice_can_be_told_of() {
    let all = listings();
    let r = ModelRules::default();
    let names: Vec<(String, String)> = vec![];
    let keys = CooldownKeys::new("m", &all, &r, &names);
    let accounts = list(&[
        r#"{"id":"a","name":"A","enabled":false}"#,
        r#"{"id":"b","priority":4,"maxConcurrent":1}"#,
        r#"{"id":"c"}"#,
        r#"{"name":"nobody"}"#,
    ]);
    assert_eq!(
        to_value(&describe_route_decision(&accounts, &keys, &strings(&["c"]), 0, 9)),
        value(
            r#"{"picked":{"id":"b","priority":4,"maxConcurrent":1},"priority":4,"candidateCount":1,
                "blocked":[{"id":"a","name":"A","reason":"disabled"},{"id":"c","name":"c","reason":"tried"}],
                "total":4}"#
        )
    );
    assert_eq!(
        to_value(&describe_route_decision(&accounts, &keys, &strings(&["c", "b"]), 0, 9)),
        value(
            r#"{"picked":null,"priority":null,"candidateCount":0,
                "blocked":[{"id":"a","name":"A","reason":"disabled"},{"id":"b","name":"b","reason":"tried"},
                           {"id":"c","name":"c","reason":"tried"}],
                "total":4}"#
        )
    );
}
