//! The way of a request to an upstream, and its answer's way back.

use gateway_core::errors::GatewayError;
use gateway_core::json::{parse, to_value, Json};
use gateway_core::upstream::aggregate::{Aggregator, CompletionAccumulator, MAX_LINE_BYTES};
use gateway_core::upstream::connections::{ConnectionGuard, Connections};
use gateway_core::upstream::in_flight::{InFlightTable, INFLIGHT_WAIT_MS};
use gateway_core::upstream::journey::{Action, Event, Journey};
use gateway_core::upstream::labels::{
    account_display, account_label, anonymous_session, describe_proxy, elsewhere_line,
    has_access_token, limit_line, limit_report, passed_line, priority_of, spent_line,
    stream_interrupted, streamed_body,
};
use gateway_core::upstream::provider_loop::{
    after_answer, after_transport_failure, attempt_failed, attempt_succeeded, begin_attempt,
    cap_cleared, conversation_allowed, dispatch, fallback_retry_advice, filter_by_key_scope,
    limit_model_label, model_of, model_rewrite_of, note_degraded, retry_log_line, scope_permits,
    transient_retry_advice, transport_retry_advice, AttemptQueue, Dispatch, KeyScope,
    OutboundFailure, QueueStep, RetryAdvice, RetryBudget, SendStep, UpstreamErrorClass,
    MAX_ROUTE_ATTEMPTS,
};
use gateway_core::upstream::pump::{Pump, PumpStep};
use gateway_core::upstream::usage::{extract_usage, RequestTelemetry};

fn json(text: &str) -> Json {
    parse(text).unwrap()
}

fn value(text: &str) -> serde_json::Value {
    serde_json::from_str(text).unwrap()
}

fn strings(list: &[&str]) -> Vec<String> {
    list.iter().map(|s| s.to_string()).collect()
}

fn fault(status: i32, message: &str) -> GatewayError {
    GatewayError::with_status(status, message.to_string())
}

fn fatal(status: u16) -> UpstreamErrorClass {
    UpstreamErrorClass::Fatal { status, message: "bad".to_string(), upstream_code: None }
}

fn quota() -> UpstreamErrorClass {
    UpstreamErrorClass::QuotaLimited {
        status: 429,
        message: "full".to_string(),
        upstream_code: Some(6004),
        reset_at: Some(9),
    }
}

fn blocked() -> UpstreamErrorClass {
    UpstreamErrorClass::ContentBlocked {
        status: 400,
        message: "blocked".to_string(),
        upstream_code: Some(11128),
    }
}

fn expired() -> UpstreamErrorClass {
    UpstreamErrorClass::TokenExpired { message: "expired".to_string() }
}

fn failure(class: UpstreamErrorClass, status: i32) -> OutboundFailure {
    OutboundFailure { class, error: fault(status, "it failed") }
}

#[test]
fn connections_are_counted() {
    let mut table = Connections::new();
    let mut a = ConnectionGuard::new();
    let mut b = ConnectionGuard::new();
    a.rebind(&mut table, Some("y".to_string()));
    b.rebind(&mut table, Some("x".to_string()));
    assert_eq!(table.snapshot(), vec![("x".to_string(), 1), ("y".to_string(), 1)]);
    b.rebind(&mut table, Some("y".to_string()));
    assert_eq!(table.snapshot(), vec![("y".to_string(), 2)]);
    b.rebind(&mut table, Some("y".to_string()));
    assert_eq!(table.snapshot(), vec![("y".to_string(), 2)]);
    let moved = b.handoff();
    b.release(&mut table);
    assert_eq!(table.snapshot(), vec![("y".to_string(), 2)]);
    moved.release(&mut table);
    assert_eq!(table.snapshot(), vec![("y".to_string(), 1)]);
    a.rebind(&mut table, Some("".to_string()));
    assert!(table.snapshot().is_empty());
    a.release(&mut table);
    assert!(table.snapshot().is_empty());
}

#[test]
fn equal_requests_wait_for_each_other() {
    let mut table = InFlightTable::new();
    assert_eq!(INFLIGHT_WAIT_MS, 45000);
    assert!(!table.begin_slot("", 1));
    assert!(table.begin_slot("k", 1));
    assert_eq!(table.waits_for("k"), Some(1));
    assert_eq!(table.waits_for("l"), None);
    assert!(table.begin_slot("k", 2));
    table.end_slot("k", 1);
    assert_eq!(table.waits_for("k"), Some(2));
    table.end_slot("k", 2);
    assert_eq!(table.waits_for("k"), None);
}

#[test]
fn usage_has_several_names() {
    let u = extract_usage(&json(
        r#"{"prompt_tokens":5,"completion_tokens":2,"prompt_tokens_details":{"cached_tokens":3}}"#,
    ))
    .unwrap();
    assert_eq!((u.prompt, u.completion, u.total, u.cache_read), (5, 2, 7, 3));
    assert!(extract_usage(&json("null")).is_none());
    assert!(extract_usage(&json("[5]")).is_none());
    let none = extract_usage(&json("{}")).unwrap();
    assert_eq!((none.prompt, none.completion, none.total, none.cache_read), (0, 0, 0, 0));
    let other = extract_usage(&json(
        r#"{"input_tokens":4.0,"output_tokens":"x","cache_read_input_tokens":1,"total_tokens":9}"#,
    ))
    .unwrap();
    assert_eq!((other.prompt, other.completion, other.total, other.cache_read), (4, 0, 9, 1));
}

#[test]
fn the_record_of_a_request() {
    let mut t = RequestTelemetry::with_id("id-1");
    t.ensure_id("other");
    assert_eq!(t.id(), "id-1");
    assert_eq!(t.capture(), None);
    t.set_capture(7);
    assert_eq!(t.capture(), Some(7));
    assert!(!t.note_attempt(Some("a"), "A", "catpaw"));
    t.set_live_sink();
    assert!(t.note_attempt_started("catpaw", "A"));
    assert!(t.note_attempt_retry(" again ", Some(500), 1000));
    assert!(!t.note_attempt_retry("  ", Some(500), 1000));
    assert!(t.note_attempt_notice("direct"));
    assert!(!t.note_attempt_notice("other"));
    assert!(t.finish_last_attempt(Some(502), Some(&"x".repeat(201))));
    assert!(!t.finish_last_attempt(Some(502), Some("")));
    assert!(t.note_upstream_model("m"));
    assert!(!t.note_upstream_model(""));
    assert!(t.note_first_frame_at(5));
    assert!(!t.note_first_frame_at(6));
    t.note_error("one");
    t.note_error("two");
    assert!(t.note_sensitive_hits(&vec![("w".to_string(), 2), ("v".to_string(), 1)]));
    t.note_sensitive_hits(&vec![("w".to_string(), 3)]);
    t.report_usage(&json(r#"{"prompt_tokens":1,"completion_tokens":2,"total_tokens":3}"#));
    let s = t.snapshot();
    assert_eq!(s.attempts, 1);
    assert_eq!(s.account_id, "a");
    assert_eq!(s.account_name, "A");
    assert_eq!(s.provider, Some("catpaw".to_string()));
    assert_eq!(s.upstream_model, "m");
    assert_eq!((s.prompt_tokens, s.completion_tokens, s.total_tokens), (1, 2, 3));
    assert_eq!(s.first_response_at, Some(5));
    assert_eq!(s.error, Some("one".to_string()));
    assert_eq!(s.sensitive_hits.len(), 2);
    assert_eq!((s.sensitive_hits[0].word.as_str(), s.sensitive_hits[0].count), ("w", 5));
    assert_eq!(s.attempts_detail.len(), 1);
    let d = &s.attempts_detail[0];
    assert_eq!(d.status, Some(502));
    assert_eq!(d.error, Some(format!("{}…", "x".repeat(200))));
    assert_eq!(d.retries.len(), 1);
    assert_eq!(d.retries[0].reason, "again");
    assert_eq!(d.notice, Some("direct".to_string()));
}

#[test]
fn the_record_has_an_end() {
    let mut t = RequestTelemetry::new();
    assert!(!t.finish_last_attempt(Some(1), None));
    for _ in 0..30 {
        t.note_attempt(None, "A", "");
        t.note_attempt_started("p", &"长".repeat(61));
    }
    let s = t.snapshot();
    assert_eq!(s.attempts, 30);
    assert_eq!(s.provider, None);
    assert_eq!(s.attempts_detail.len(), 24);
    assert_eq!(s.attempts_detail[0].account, format!("{}…", "长".repeat(60)));
    let mut u = RequestTelemetry::new();
    u.note_first_frame();
    assert!(u.snapshot().first_response_at.unwrap() > 1_700_000_000_000);
}

#[test]
fn a_failed_request_may_be_sent_again() {
    assert_eq!(transient_retry_advice(503, 1, 2000).unwrap().reason, "上游瞬时错误（HTTP 503）");
    assert!(transient_retry_advice(503, 0, 2000).is_none());
    assert!(transient_retry_advice(429, 1, 2000).is_none());
    assert!(transient_retry_advice(501, 1, 2000).is_none());
    assert_eq!(transport_retry_advice(1, 5).unwrap().delay_ms, 5);
    assert!(transport_retry_advice(0, 5).is_none());
    assert_eq!(
        fallback_retry_advice(&fatal(400), 1, 400, 5).unwrap().reason,
        "上游错误（HTTP 400），换账号前先原地重发"
    );
    assert!(fallback_retry_advice(&quota(), 1, 429, 5).is_none());
    assert!(fallback_retry_advice(&expired(), 1, 401, 5).is_none());
    assert!(fallback_retry_advice(&blocked(), 1, 400, 5).is_none());
    assert!(fallback_retry_advice(&fatal(400), 0, 400, 5).is_none());
    assert_eq!(
        retry_log_line("原因", 2500, 1, 3),
        "⚠️ 原因；2 秒后重试（第 1/3 次）"
    );
}

#[test]
fn the_budget_runs_out() {
    let mut t = RequestTelemetry::new();
    t.note_attempt_started("p", "A");
    let mut budget = RetryBudget::new(1);
    let (first, _) = after_transport_failure(&mut budget, &mut t, fault(502, "no way"), 1000);
    match first {
        SendStep::Resend { delay_ms, line } => {
            assert_eq!(delay_ms, 1000);
            assert_eq!(line, "⚠️ 上游连接失败；1 秒后重试（第 1/1 次）");
        }
        _ => panic!("it is to be sent again"),
    }
    assert_eq!(budget.used(), 1);
    let (second, _) = after_transport_failure(&mut budget, &mut t, fault(502, "no way"), 1000);
    match second {
        SendStep::Fail(f) => {
            assert_eq!(f.error.message, "no way");
            assert!(matches!(
                f.class,
                UpstreamErrorClass::Fatal { status: 502, upstream_code: None, .. }
            ));
        }
        _ => panic!("the budget is spent"),
    }
    assert_eq!(t.snapshot().attempts_detail[0].retries.len(), 1);
}

#[test]
fn an_answer_that_is_an_error_is_weighed() {
    let mut t = RequestTelemetry::new();
    t.note_attempt_started("p", "A");
    let mut budget = RetryBudget::new(3);
    let (step, _) = after_answer(&mut budget, &mut t, 400, fatal(400), None, None, 1000, false);
    assert!(matches!(step, SendStep::Resend { delay_ms: 1000, .. }));
    let own = Some(RetryAdvice { delay_ms: 7, reason: "own".to_string() });
    let (step, _) = after_answer(&mut budget, &mut t, 400, blocked(), Some(11128), own, 1000, true);
    assert!(matches!(step, SendStep::Resend { delay_ms: 7, .. }));
    let own = Some(RetryAdvice { delay_ms: 7, reason: "own".to_string() });
    let (step, _) = after_answer(&mut budget, &mut t, 400, blocked(), Some(11128), own, 1000, false);
    match step {
        SendStep::Fail(f) => {
            assert_eq!((f.error.status_code, f.error.upstream_code), (400, Some(11128)));
            assert_eq!(f.error.message, "blocked");
        }
        _ => panic!("blocked content is not sent again as it is"),
    }
    let (step, _) = after_answer(&mut budget, &mut t, 429, quota(), Some(1), None, 1000, false);
    match step {
        SendStep::Fail(f) => {
            assert_eq!((f.error.status_code, f.error.upstream_code), (429, Some(6004)));
            assert!(f.error.is_quota_limit());
        }
        _ => panic!("a limit is not sent again"),
    }
    let (step, _) = after_answer(&mut budget, &mut t, 401, expired(), Some(5), None, 1000, false);
    match step {
        SendStep::Fail(f) => {
            assert_eq!((f.error.status_code, f.error.upstream_code), (401, Some(5)));
        }
        _ => panic!("a refused token is not sent again"),
    }
    assert_eq!(budget.remaining, 1);
}

#[test]
fn the_queue_of_accounts() {
    let mut t = RequestTelemetry::new();
    let mut q = AttemptQueue::new("m", 3, 1, false, true);
    assert!(q.begin_round().is_ok());
    t.note_attempt_started("p", "A");
    let (step, _) = q.failed(&mut t, Some("a"), &failure(blocked(), 400));
    assert!(matches!(step, QueueStep::Degrade));
    let (step, _) = q.failed(&mut t, Some("a"), &failure(blocked(), 400));
    assert!(matches!(step, QueueStep::Next));
    assert_eq!(q.tried, strings(&["a"]));
    assert!(q.next_after_error(fault(400, "e"), true).is_ok());
    assert_eq!(q.next_after_error(fault(400, "e"), true).unwrap_err().message, "e");
    assert!(q.begin_round().is_ok());
    t.note_attempt_started("p", "B");
    let (step, _) = q.failed(&mut t, Some("b"), &failure(expired(), 401));
    assert!(matches!(step, QueueStep::Refresh));
    let (step, _) = q.failed(&mut t, Some("b"), &failure(quota(), 429));
    match step {
        QueueStep::Limit { account, status, code, reset_at } => {
            assert_eq!((account.as_str(), status, code, reset_at), ("b", 429, Some(6004), Some(9)));
        }
        _ => panic!("the account is to rest"),
    }
    let limit = failure(quota(), 429);
    assert!(q.next_after_limit(&limit, true).is_ok());
    let none = q.next_after_limit(&limit, false).unwrap_err();
    assert_eq!(none.message, "it failed（所有候选账号对模型 m 均已限额或禁用）");
    assert_eq!((none.status_code, none.upstream_code), (429, Some(6004)));
    let (step, _) = q.settle(&mut t, Some("b"), &limit);
    assert!(matches!(step, QueueStep::Next));
    assert!(q.custom_failed(Some("c"), &fault(429, "x")));
    assert!(!q.custom_failed(Some("c"), &fault(429, "x")));
    assert!(!q.custom_failed(Some("d"), &fault(500, "x")));
    assert!(!q.custom_failed(None, &fault(429, "x")));
    let s = t.snapshot();
    assert_eq!(
        s.attempts_detail[1].retries[0].reason,
        "token 被上游拒绝（401），刷新后重试一次（账号 b）"
    );
    assert_eq!(s.attempts_detail[1].error, Some("it failed".to_string()));
}

#[test]
fn the_rounds_run_out() {
    let mut q = AttemptQueue::new("m", 0, 0, false, true);
    for _ in 0..MAX_ROUTE_ATTEMPTS + 1 {
        assert!(q.begin_round().is_ok());
    }
    let end = q.begin_round().unwrap_err();
    assert_eq!((end.status_code, end.message.as_str()), (500, "上游转发重试次数超限"));
}

#[test]
fn who_sends_a_request() {
    assert!(matches!(dispatch("custom-1", false, false, false), Dispatch::Custom));
    assert!(matches!(dispatch("catpaw", true, true, false), Dispatch::Conversation));
    assert!(matches!(dispatch("workbuddy", false, true, false), Dispatch::Plain));
    assert!(matches!(dispatch("workbuddy", false, false, true), Dispatch::Plain));
    match dispatch("workbuddy", false, false, false) {
        Dispatch::Refused(e) => {
            assert_eq!(e.status_code, 503);
            assert_eq!(e.message, "没有可用账号，无账号可转发：请在账号页添加并启用账号");
        }
        _ => panic!("there is no account"),
    }
    match dispatch("nobody", false, true, true) {
        Dispatch::Refused(e) => {
            assert_eq!(e.message, "账号所属提供商「nobody」未知，无法转发");
        }
        _ => panic!("there is no such provider"),
    }
    assert!(conversation_allowed("CatPaw", true, false).is_ok());
    assert!(conversation_allowed("CatPaw", false, true).is_ok());
    assert_eq!(
        conversation_allowed("CatPaw", false, false).unwrap_err().message,
        "CatPaw 没有可用账号，无账号可转发：请在账号页添加并启用账号"
    );
}

#[test]
fn attempts_are_noted() {
    let mut t = RequestTelemetry::new();
    t.set_live_sink();
    assert!(begin_attempt(&mut t, Some("a"), "A", "catpaw", Some("direct")));
    assert!(note_degraded(&mut t, "12:00", "原样", &fault(400, "blocked")));
    assert!(attempt_failed(&mut t, &fault(500, "oops")));
    assert!(begin_attempt(&mut t, None, "B", "qoder", None));
    assert!(attempt_succeeded(&mut t, Some(200)));
    let s = t.snapshot();
    assert_eq!(s.attempts, 2);
    assert_eq!(s.attempts_detail.len(), 2);
    assert_eq!(s.attempts_detail[0].notice, Some("direct".to_string()));
    assert_eq!(
        s.attempts_detail[0].retries[0].reason,
        "内容策略拦截（疑似 system 指纹误报），换中性提示词重试一次；降级持续到 12:00（届时恢复「原样」）"
    );
    assert_eq!(s.attempts_detail[0].status, Some(500));
    assert_eq!(s.attempts_detail[1].status, Some(200));
    assert_eq!(s.attempts_detail[1].error, None);
}

#[test]
fn a_key_limits_the_providers() {
    let scope = KeyScope {
        restricted: true,
        providers: strings(&["b"]),
        description: "只限 b".to_string(),
    };
    let both = strings(&["a", "b"]);
    assert_eq!(filter_by_key_scope(&both, false, Some(&scope), "m").unwrap(), strings(&["b"]));
    assert_eq!(filter_by_key_scope(&both, false, None, "m").unwrap(), both);
    let open = KeyScope { restricted: false, ..KeyScope { restricted: true, providers: vec![], description: String::new() } };
    assert_eq!(filter_by_key_scope(&both, false, Some(&open), "m").unwrap(), both);
    assert!(scope_permits(Some(&scope), "b"));
    assert!(!scope_permits(Some(&scope), "a"));
    assert!(scope_permits(None, "a"));
    let refused = filter_by_key_scope(&strings(&["a"]), false, Some(&scope), "m").unwrap_err();
    assert_eq!(refused.status_code, 404);
    assert_eq!(refused.code, Some("model_not_found".to_string()));
    assert_eq!(
        refused.message,
        "模型 'm' 不可用：提供它的提供商都不在这把网关 Key 的可用提供商列表里（只限 b）"
    );
    let none: Vec<String> = vec![];
    let closed = filter_by_key_scope(&none, true, None, "m").unwrap_err();
    assert_eq!((closed.status_code, closed.code), (404, Some("model_not_found".to_string())));
    assert_eq!(closed.message, "模型已在网关中关闭: m。完整列表见 GET /v1/models");
    let nobody = filter_by_key_scope(&none, false, None, "m").unwrap_err();
    assert_eq!(nobody.message, "没有可用的提供商，无法转发");
}

#[test]
fn models_have_labels() {
    assert_eq!(model_of(&json(r#"{"model":"m"}"#)), "m");
    assert_eq!(model_of(&json(r#"{"model":5}"#)), "");
    assert_eq!(limit_model_label(" gpt ", "kimi"), "gpt → kimi");
    assert_eq!(limit_model_label("KIMI", "kimi"), "kimi");
    assert_eq!(limit_model_label("", "kimi"), "kimi");
    assert_eq!(limit_model_label("gpt", " "), "gpt");
    assert_eq!(limit_model_label(" ", " "), "(默认)");
    assert_eq!(model_rewrite_of(true, "m"), Some("m".to_string()));
    assert_eq!(model_rewrite_of(false, "m"), None);
    assert_eq!(cap_cleared("A", "m", true), Some("账号「A」对模型 m 已恢复可用".to_string()));
    assert_eq!(cap_cleared("A", "m", false), None);
}

#[test]
fn accounts_have_labels() {
    assert_eq!(account_display(&json(r#"{"name":"N","id":"i"}"#)), "N");
    assert_eq!(account_display(&json(r#"{"name":"","id":"i"}"#)), "i");
    assert_eq!(account_display(&json("{}")), "");
    let session = json(r#"{"account":{"nickname":"nick"},"auth":{"accessToken":"t"}}"#);
    assert_eq!(account_label(Some(&json(r#"{"name":"N"}"#)), "i", &session), "N");
    assert_eq!(account_label(None, "i", &session), "nick");
    assert_eq!(account_label(None, "i", &json("null")), "i");
    assert!(has_access_token(&session));
    assert!(!has_access_token(&json(r#"{"auth":{"accessToken":""}}"#)));
    assert_eq!(describe_proxy(None), "直连");
    assert_eq!(describe_proxy(Some(("", "host"))), "host");
    assert_eq!(describe_proxy(Some(("label", "host"))), "label");
    assert_eq!(priority_of(&json(r#"{"priority":-2}"#)), Some(-2));
    assert_eq!(priority_of(&json(r#"{"priority":2.5}"#)), None);
    assert_eq!(
        to_value(&streamed_body(&json(r#"{"stream":false,"a":1}"#))),
        value(r#"{"stream":true,"a":1}"#)
    );
    assert_eq!(to_value(&streamed_body(&json("[1]"))), value("[1]"));
    assert_eq!(
        anonymous_session("t").map(|s| to_value(&s)),
        Some(value(r#"{"auth":{"accessToken":"t","tokenType":"Bearer"}}"#))
    );
    assert!(anonymous_session("").is_none());
}

fn chosen(account: &str, provider: &str) -> Event {
    Event::Chosen {
        account: Some(account.to_string()),
        provider: provider.to_string(),
        stateful: provider == "catpaw",
        anonymous: false,
    }
}

#[test]
fn a_request_goes_from_account_to_account() {
    let mut t = RequestTelemetry::new();
    let mut j = Journey::start("m", 3, 1, false, true);
    let (a, _) = j.advance(&mut t, chosen("a", "workbuddy"));
    assert!(matches!(a, Action::Send { neutral: false }));
    begin_attempt(&mut t, Some("a"), "A", "workbuddy", None);
    let (a, _) = j.advance(&mut t, Event::Failed(failure(blocked(), 400)));
    assert!(matches!(a, Action::SendNeutral));
    let (a, _) = j.advance(&mut t, Event::Failed(failure(expired(), 401)));
    assert!(matches!(a, Action::Renew));
    let (a, _) = j.advance(&mut t, Event::Answered { status: 200 });
    assert!(matches!(a, Action::Ignore));
    let (a, _) = j.advance(&mut t, Event::Renewed(true));
    assert!(matches!(a, Action::Send { neutral: true }));
    let (a, _) = j.advance(&mut t, Event::Failed(failure(quota(), 429)));
    match a {
        Action::Rest { account, status, code, reset_at } => {
            assert_eq!((account.as_str(), status, code, reset_at), ("a", 429, Some(6004), Some(9)));
        }
        _ => panic!("the account is to rest"),
    }
    let (a, _) = j.advance(&mut t, Event::Next(true));
    assert!(matches!(a, Action::Choose));
    let (a, _) = j.advance(&mut t, chosen("c", "custom-1"));
    assert!(matches!(a, Action::SendCustom { neutral: true }));
    let (a, _) = j.advance(&mut t, Event::ElsewhereFailed(fault(429, "full")));
    assert!(matches!(a, Action::Rest { status: 429, code: None, reset_at: None, .. }));
    let (a, _) = j.advance(&mut t, Event::Next(true));
    assert!(matches!(a, Action::Choose));
    let (a, _) = j.advance(&mut t, chosen("d", "catpaw"));
    assert!(matches!(a, Action::Converse { neutral: true }));
    let (a, _) = j.advance(&mut t, Event::ElsewhereFailed(fault(500, "down")));
    assert!(matches!(a, Action::Look));
    let (a, _) = j.advance(&mut t, Event::Next(true));
    match a {
        Action::Fail(e) => assert_eq!((e.status_code, e.message.as_str()), (500, "down")),
        _ => panic!("no switch is left"),
    }
    let (a, _) = j.advance(&mut t, Event::Next(true));
    assert!(matches!(a, Action::Ignore));
    assert_eq!(j.queue.tried, strings(&["a", "c", "d"]));
}

#[test]
fn a_request_that_is_answered_is_over() {
    let mut t = RequestTelemetry::new();
    t.set_live_sink();
    let mut j = Journey::start("m", 0, 0, true, true);
    let (a, _) = j.advance(&mut t, chosen("a", "workbuddy"));
    assert!(matches!(a, Action::Send { neutral: true }));
    begin_attempt(&mut t, Some("a"), "A", "workbuddy", None);
    let (a, show) = j.advance(&mut t, Event::Answered { status: 200 });
    assert!(matches!(a, Action::Finish));
    assert!(show);
    let (a, show) = j.advance(&mut t, Event::Answered { status: 200 });
    assert!(matches!(a, Action::Ignore));
    assert!(!show);
    assert_eq!(t.snapshot().attempts_detail[0].status, Some(200));
}

#[test]
fn a_request_can_fail_at_every_step() {
    let mut t = RequestTelemetry::new();
    let mut j = Journey::start("m", 0, 0, false, true);
    let (a, _) = j.advance(&mut t, Event::NotChosen(fault(503, "none")));
    assert!(matches!(a, Action::Fail(_)));
    let mut j = Journey::start("m", 0, 0, false, true);
    j.advance(&mut t, chosen("a", "workbuddy"));
    let (a, _) = j.advance(&mut t, Event::Unready(fault(401, "log in")));
    assert!(matches!(a, Action::Fail(_)));
    let mut j = Journey::start("m", 0, 0, false, true);
    j.advance(&mut t, chosen("a", "workbuddy"));
    begin_attempt(&mut t, Some("a"), "A", "workbuddy", None);
    let (a, _) = j.advance(&mut t, Event::Unbuilt(fault(401, "no token")));
    assert!(matches!(a, Action::Fail(_)));
    assert_eq!(t.snapshot().attempts_detail[0].error, Some("no token".to_string()));
    let mut j = Journey::start("m", 0, 5, false, false);
    j.advance(&mut t, chosen("a", "workbuddy"));
    let (a, _) = j.advance(&mut t, Event::Failed(failure(expired(), 401)));
    assert!(matches!(a, Action::Renew));
    let (a, _) = j.advance(&mut t, Event::Renewed(false));
    assert!(matches!(a, Action::Look));
    let (a, _) = j.advance(&mut t, Event::Next(false));
    match a {
        Action::Fail(e) => assert_eq!(e.message, "it failed"),
        _ => panic!("nobody is left"),
    }
    let mut j = Journey::start("m", 0, 5, false, false);
    j.advance(&mut t, chosen("a", "catpaw"));
    let (a, _) = j.advance(&mut t, Event::ElsewhereDone);
    assert!(matches!(a, Action::Finish));
}

#[test]
fn frames_wait_in_line() {
    let mut t = RequestTelemetry::new();
    let mut p = Pump::new();
    assert!(matches!(p.step(), PumpStep::Ask));
    p.add(vec![bytes::Bytes::from_static(b"1"), bytes::Bytes::from_static(b"2")]);
    p.break_off(&mut t, vec![bytes::Bytes::from_static(b"3")], "gone");
    let mut seen: Vec<bytes::Bytes> = vec![];
    loop {
        match p.step() {
            PumpStep::Give(f) => seen.push(f),
            PumpStep::Ask => panic!("the upstream is gone"),
            PumpStep::End => break,
        }
    }
    assert_eq!(seen.len(), 5);
    assert_eq!(&seen[0][..], b"1");
    assert_eq!(&seen[2][..], b"3");
    assert_eq!(
        String::from_utf8(seen[3].to_vec()).unwrap(),
        "data: {\"error\":{\"message\":\"上游流中断: gone\",\"type\":\"proxy_error\"}}\n\n"
    );
    assert_eq!(&seen[4][..], b"data: [DONE]\n\n");
    assert_eq!(t.snapshot().error, Some("上游流中断: gone".to_string()));
    let mut q = Pump::new();
    q.end(vec![bytes::Bytes::from_static(b"last")]);
    assert!(matches!(q.step(), PumpStep::Give(_)));
    assert!(matches!(q.step(), PumpStep::End));
    assert_eq!(stream_interrupted(&mut t, "x").len(), 2);
}

#[test]
fn a_stream_is_put_together() {
    let mut t = RequestTelemetry::new();
    let mut a = Aggregator::new(Some("asked".to_string()));
    let text = "data: {\"id\":\"c\",\"model\":\"real\",\"created\":7,\"choices\":[{\"delta\":{\"role\":\"assistant\",\"content\":\"a\",\"reasoning_content\":\"r\"}}]}\n\
                : note\ndata: [DONE]\ndata: nonsense\n\
                data: {\"choices\":[{\"delta\":{\"content\":\"b\",\"tool_calls\":[{\"index\":1,\"id\":\"t1\",\"function\":{\"name\":\"f\",\"arguments\":\"{\"}}]}}]}\n\
                data: {\"choices\":[{\"delta\":{\"tool_calls\":[{\"index\":1,\"function\":{\"arguments\":\"}\"}},{\"index\":0,\"id\":\"t0\"}]},\"finish_reason\":\"stop\"}],\"usage\":{\"prompt_tokens\":1,\"completion_tokens\":2}}";
    let cut = 30;
    t.set_live_sink();
    let (first, shown) = a.push(&text.as_bytes()[..cut], 5, &mut t);
    assert!(first.is_ok());
    assert!(shown);
    let (second, shown) = a.push(&text.as_bytes()[cut..], 6, &mut t);
    assert!(second.is_ok());
    assert!(!shown);
    assert!(a.finish(&mut t).is_ok());
    let done = a.into_completion_at(99_000);
    assert_eq!(done.chunk_count, 3);
    assert_eq!(
        to_value(&done.body),
        value(
            r#"{"id":"c","object":"chat.completion","created":7,"model":"asked","choices":[{"index":0,
                "message":{"role":"assistant","content":"ab","reasoning_content":"r","tool_calls":[
                  {"id":"t0","type":"function","function":{"name":"","arguments":""}},
                  {"id":"t1","type":"function","function":{"name":"f","arguments":"{}"}}]},
                "finish_reason":"stop"}],"usage":{"prompt_tokens":1,"completion_tokens":2}}"#
        )
    );
    assert_eq!(t.snapshot().first_response_at, Some(5));
    assert_eq!(t.snapshot().total_tokens, 3);
    let empty = CompletionAccumulator::new(None).into_completion_at(99_000);
    assert_eq!(
        to_value(&empty.body)["id"],
        value(r#""wb-agg-99000""#)
    );
    assert_eq!(to_value(&empty.body)["created"], value("99"));
    let now = CompletionAccumulator::new(None).into_completion();
    assert_eq!(now.chunk_count, 0);
}

#[test]
fn an_error_in_a_stream_is_an_error() {
    let mut t = RequestTelemetry::new();
    let mut a = Aggregator::new(None);
    let e = a
        .push(b"data: {\"error\":{\"message\":\"bad\"}}\ndata: {\"choices\":[]}\n", 1, &mut t)
        .0
        .unwrap_err();
    assert_eq!((e.status_code, e.message.as_str()), (502, "bad"));
    let mut b = Aggregator::new(None);
    let e = b.push(b"data: {\"error\":{}}\n", 1, &mut t).0.unwrap_err();
    assert_eq!(e.message, "上游流式返回错误");
    let mut acc = CompletionAccumulator::new(None);
    assert!(acc.consume_line("event: x", &mut t).is_ok());
    assert!(acc.consume_chunk(&json("[1]"), &mut t).is_ok());
    let mut c = Aggregator::new(None);
    assert!(c.push(&vec![b'x'; MAX_LINE_BYTES], 1, &mut t).0.is_ok());
    let long = c.push(b"x", 1, &mut t).0.unwrap_err();
    assert_eq!(long.status_code, 502);
}

#[test]
fn accounts_that_rest_or_fail_are_told_of() {
    let next = json(r#"{"id":"b","name":"B","provider":"catpaw","priority":3}"#);
    let label = gateway_core::providers::label_of("catpaw", None);
    assert_eq!(
        limit_line("A", "m", "（明天）", "catpaw", &next),
        "⚠️ 账号 A 对模型 m 已限额（明天），按优先级降级 → B（优先级 3）"
    );
    assert_eq!(
        limit_line("A", "m", "", "qoder", &next),
        format!("⚠️ 账号 A 对模型 m 已限额，按优先级降级 → B（优先级 3，切换提供商 → {label}）")
    );
    assert_eq!(
        passed_line("A", "m", 502, "p", &json(r#"{"id":"c","provider":"custom-1"}"#)),
        "⚠️ 账号 A 对模型 m 转发失败（HTTP 502），按队列顺延 → c（优先级 -，切换提供商 → custom-1）"
    );
    assert_eq!(elsewhere_line(true, &next), "⚠️ 自定义转发失败，按队列顺延 → B（优先级 3）");
    assert_eq!(
        elsewhere_line(false, &json(r#"{"id":"c"}"#)),
        "⚠️ 会话式转发失败，按队列顺延 → c（优先级 -）"
    );
    assert_eq!(spent_line(3), "⚠️ 换账号次数已用尽（最多 3 个），不再顺延，返回本次错误");
    assert_eq!(
        limit_report("A", "m", "", Some(&next), 1),
        "账号「A」对模型 m 已限额，按优先级降级 → 「B」"
    );
    assert_eq!(
        limit_report("A", "m", "", None, 2),
        "模型 m 在所有候选账号均已限额或禁用，无法继续转发（尝试过 2 个账号）"
    );
}
