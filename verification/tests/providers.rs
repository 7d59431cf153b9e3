//! Providers that users add, and the web login of one provider.

use gateway_core::errors::GatewayError;
use gateway_core::json::{parse, to_value, Json};
use gateway_core::providers::autoclaw::oauth::{
    captcha_config, captcha_request, credentials, describe_oauth_error, device_id_of,
    exchange_code, navigate_uri, new_oauth_device_id, oauth_url, reply_payload, request_oauth_url,
    Reply, Vendor, CALLBACK_PATH_PREFIX, REQUEST_TIMEOUT_MS,
};
use gateway_core::providers::custom::forward::{
    classify_custom_error, cooldown_model, custom_route, outbound_request, outbound_url,
    requested_model, rewrite_body, upstream_message, Credential, CustomRoute, Protocol,
    TranslateMachine,
};

fn json(text: &str) -> Json {
    parse(text).unwrap()
}

fn value(text: &str) -> serde_json::Value {
    serde_json::from_str(text).unwrap()
}

fn told(e: &GatewayError) -> (i32, &str) {
    (e.status_code, e.message.as_str())
}

#[test]
fn the_way_to_a_provider_is_looked_up() {
    let provider = json(r#"{"protocol":"anthropic","baseUrl":"http://p"}"#);
    let plain = json(r#"{"baseUrl":"http://p"}"#);
    let odd = json(r#"{"protocol":"soap"}"#);
    let key = Credential { api_key: "k".to_string(), base_url_override: None };
    let own = Credential { api_key: "k".to_string(), base_url_override: Some("http://o".to_string()) };
    let route = custom_route(Some(&provider), "custom-1", None, "a", Some(&key)).unwrap();
    assert_eq!(route.protocol, Protocol::Anthropic);
    assert_eq!((route.api_key.as_str(), route.base_url.as_str()), ("k", "http://p"));
    let route = custom_route(Some(&plain), "custom-1", None, "a", Some(&own)).unwrap();
    assert_eq!(route.protocol, Protocol::Chat);
    assert_eq!(route.base_url, "http://o");
    let none = custom_route(None, " custom-1 ", None, "a", Some(&key)).err().unwrap();
    assert_eq!(told(&none), (503, "自定义提供商不存在: custom-1"));
    let unknown = custom_route(Some(&odd), "custom-1", Some("Mine"), "a", Some(&key)).err().unwrap();
    assert_eq!(
        told(&unknown),
        (400, "自定义提供商「Mine」的协议 soap 无法识别，请检查提供商配置")
    );
    let nobody = custom_route(Some(&plain), "custom-1", None, " ", Some(&key)).err().unwrap();
    assert_eq!(
        told(&nobody),
        (503, "没有可用账号，无账号可转发：请在账号页为该自定义提供商添加并启用账号")
    );
    let gone = custom_route(Some(&plain), "custom-1", None, "a", None).err().unwrap();
    assert_eq!(told(&gone), (503, "自定义账号不存在或已被删除: a"));
    let nowhere = custom_route(Some(&json("{}")), "custom-1", None, "a", Some(&key)).err().unwrap();
    assert_eq!(
        told(&nowhere),
        (400, "该自定义提供商没有可用的 baseUrl（提供商与账号上都没有配置）")
    );
}

#[test]
fn addresses_are_put_together() {
    assert_eq!(outbound_url(Protocol::Chat, "http://x//"), "http://x/chat/completions");
    assert_eq!(outbound_url(Protocol::Responses, "http://x"), "http://x/responses");
    assert_eq!(outbound_url(Protocol::Anthropic, "http://x/"), "http://x/v1/messages");
    assert_eq!(outbound_url(Protocol::Anthropic, "http://x/v1/"), "http://x/v1/messages");
}

#[test]
fn the_model_and_the_level_are_put_in() {
    let body = json(r#"{"model":" gpt ","x":1}"#);
    let asked = requested_model(&body);
    assert_eq!(asked, "gpt");
    let (out, rewrite) = rewrite_body(&body, "gpt", "real", Some(" high "), false);
    assert_eq!(to_value(&out), value(r#"{"model":"real","x":1,"reasoning_effort":"high"}"#));
    assert_eq!(rewrite, Some("gpt".to_string()));
    let (out, _) = rewrite_body(&body, "gpt", "GPT", None, false);
    assert_eq!(to_value(&out), value(r#"{"model":" gpt ","x":1}"#));
    let (out, _) = rewrite_body(&body, "gpt", "GPT", Some("off"), true);
    assert_eq!(to_value(&out), value(r#"{"model":" gpt ","x":1}"#));
    let explicit = json(r#"{"model":"gpt","reasoning":{}}"#);
    let (out, _) = rewrite_body(&explicit, "gpt", "gpt", Some("high"), false);
    assert_eq!(to_value(&out), value(r#"{"model":"gpt","reasoning":{}}"#));
    let (out, rewrite) = rewrite_body(&json("{}"), "", "real", Some("high"), false);
    assert_eq!(to_value(&out), value("{}"));
    assert_eq!(rewrite, None);
    assert_eq!(cooldown_model(" gpt ", "real"), "real");
    assert_eq!(cooldown_model("  ", "real"), "");
}

#[test]
fn each_protocol_has_its_request() {
    let chat = json(r#"{"model":"m","stream":false,"messages":[{"role":"user","content":"q"}]}"#);
    let route = |protocol: Protocol| CustomRoute {
        protocol,
        api_key: "k".to_string(),
        base_url: "http://x".to_string(),
    };
    let r = outbound_request(&route(Protocol::Responses), &chat).unwrap();
    assert_eq!(r.url, "http://x/responses");
    assert_eq!(
        r.headers,
        vec![
            ("Authorization".to_string(), "Bearer k".to_string()),
            ("Content-Type".to_string(), "application/json".to_string()),
        ]
    );
    assert_eq!(
        to_value(&r.payload),
        value(
            r#"{"model":"m","stream":true,"store":false,"input":[{"type":"message","role":"user","content":"q"}]}"#
        )
    );
    let a = outbound_request(&route(Protocol::Anthropic), &chat).unwrap();
    assert_eq!(
        a.headers,
        vec![
            ("x-api-key".to_string(), "k".to_string()),
            ("anthropic-version".to_string(), "2023-06-01".to_string()),
            ("Content-Type".to_string(), "application/json".to_string()),
        ]
    );
    assert_eq!(
        to_value(&a.payload),
        value(
            r#"{"model":"m","stream":true,"max_tokens":8192,"messages":[{"role":"user","content":[{"type":"text","text":"q"}]}]}"#
        )
    );
    let c = outbound_request(&route(Protocol::Chat), &chat).unwrap();
    assert_eq!(c.url, "http://x/chat/completions");
    assert_eq!(to_value(&c.payload), to_value(&chat));
    let bad = outbound_request(&route(Protocol::Anthropic), &json("{}")).err().unwrap();
    assert_eq!(told(&bad), (400, "缺少 messages 数组"));
}

#[test]
fn errors_of_a_provider_are_sorted() {
    assert_eq!(upstream_message(500, "x"), "上游返回 500: x");
    let now = 1_757_000_000_000;
    let refused = classify_custom_error(403, " no ", None, now, 0);
    assert_eq!(told(&refused), (403, "上游凭证被拒绝（HTTP 403）: no"));
    let empty = classify_custom_error(500, "  ", None, now, 0);
    assert_eq!(told(&empty), (500, "上游返回 500: 上游错误"));
    let limit = classify_custom_error(429, "full", Some("60"), now, 0);
    assert_eq!(
        told(&limit),
        (429, "上游返回 429: full（2025-09-04 23:34:20 UTC+8 恢复）")
    );
    assert!(limit.is_quota_limit());
    let date = classify_custom_error(429, "full", Some("Thu, 04 Sep 2025 15:34:20 GMT"), now, 0);
    assert_eq!(
        told(&date),
        (429, "上游返回 429: full（2025-09-04 23:34:20 UTC+8 恢复）")
    );
    let text = classify_custom_error(429, "full", Some("soon"), now, 1_757_000_060_000);
    assert_eq!(
        told(&text),
        (429, "上游返回 429: full（2025-09-04 23:34:20 UTC+8 恢复）")
    );
    let plain = classify_custom_error(429, "full", Some("-1"), now, 0);
    assert_eq!(told(&plain), (429, "上游返回 429: full"));
}

#[test]
fn a_machine_translates_the_answer() {
    assert!(TranslateMachine::new(Protocol::Chat, "m").is_none());
    let mut r = TranslateMachine::new(Protocol::Responses, "m").unwrap();
    let out = r.push(b"data: {\"type\":\"response.output_text.delta\",\"delta\":\"x\"}\n");
    assert_eq!(out.len(), 2);
    assert_eq!(r.finish().len(), 2);
    assert!(r.finish().is_empty());
    let mut a = TranslateMachine::new(Protocol::Anthropic, "m").unwrap();
    let out = a.push(
        b"data: {\"type\":\"content_block_delta\",\"delta\":{\"type\":\"text_delta\",\"text\":\"x\"}}\n",
    );
    assert_eq!(out.len(), 2);
    assert_eq!(a.finish().len(), 3);
}

#[test]
fn vendors_have_names() {
    for vendor in [Vendor::Zai, Vendor::Google] {
        assert_eq!(Vendor::from_id(vendor.id()), Some(vendor));
    }
    assert_eq!(Vendor::from_id("Zai"), None);
    assert_eq!(Vendor::Google.label(), "Google");
    assert_eq!(CALLBACK_PATH_PREFIX, "/auth/callback-");
    assert_eq!(REQUEST_TIMEOUT_MS, 15000);
    assert_eq!(
        navigate_uri("http://localhost:9//", Vendor::Zai),
        "http://localhost:9/auth/callback-zai"
    );
}

#[test]
fn replies_are_opened() {
    let ok = Reply::Answer { status: 200, ok: true, payload: Some(json("[1]")) };
    assert_eq!(to_value(&reply_payload("X", ok).unwrap()), value("[1]"));
    let empty = Reply::Answer { status: 200, ok: true, payload: None };
    assert_eq!(to_value(&reply_payload("X", empty).unwrap()), value("null"));
    let bad = Reply::Answer { status: 500, ok: false, payload: None };
    assert_eq!(told(&reply_payload("X", bad).err().unwrap()), (500, "X返回 HTTP 500"));
    assert_eq!(told(&reply_payload("X", Reply::TimedOut).err().unwrap()), (504, "X超时"));
    let failed = Reply::Failed { error: "dns".to_string() };
    assert_eq!(told(&reply_payload("X", failed).err().unwrap()), (502, "X失败: dns"));
}

#[test]
fn codes_are_explained() {
    assert_eq!(
        describe_oauth_error(631002, "old"),
        "本次登录缺少风控验证（验证码未通过或已过期），请重新点击登录再试一次"
    );
    assert_eq!(describe_oauth_error(630014, ""), "风控验证未通过，请重新点击登录再试一次");
    assert_eq!(describe_oauth_error(631001, ""), "授权码无效或已过期，请重新点击登录");
    assert_eq!(describe_oauth_error(400001, ""), "请求参数有误（登录链路内部错误，请重试）");
    assert_eq!(
        describe_oauth_error(400002, ""),
        "请求签名校验失败（本机时钟可能有偏差），请校准系统时间后重试"
    );
    assert_eq!(describe_oauth_error(7, " "), "登录失败（上游 code=7）");
    assert_eq!(describe_oauth_error(-7, " no "), "登录失败：no");
}

#[test]
fn the_captcha_comes_first() {
    let ask = captcha_request();
    assert_eq!(ask.path, "/userapi/overseasv1/oauth-captcha-config");
    assert_eq!(to_value(&ask.body), value("{}"));
    assert_eq!(ask.what, "获取风控验证配置");
    let config = captcha_config(&json(
        r#"{"code":0,"data":{"enabled":true,"region":" sgp ","prefix":"p","scene_id":"s","captcha_supplier":4}}"#,
    ))
    .unwrap();
    assert_eq!(
        to_value(&config),
        value(r#"{"enabled":true,"region":"sgp","prefix":"p","sceneId":"s","supplier":""}"#)
    );
    let off = captcha_config(&json("null")).unwrap();
    assert_eq!(
        to_value(&off),
        value(r#"{"enabled":false,"region":"","prefix":"","sceneId":"","supplier":""}"#)
    );
    let bad = captcha_config(&json(r#"{"code":9,"msg":"m"}"#)).err().unwrap();
    assert_eq!(told(&bad), (502, "登录失败：m"));
}

#[test]
fn the_login_page_is_asked_for() {
    let none = request_oauth_url(Vendor::Zai, "u", "  ", "d").err().unwrap();
    assert_eq!(told(&none), (400, "缺少风控验证参数，请先完成验证码"));
    let ask = request_oauth_url(Vendor::Google, "u", " c ", "d").unwrap();
    assert_eq!(ask.path, "/userapi/overseasv1/google-oauth-url");
    assert_eq!(ask.what, "获取 Google 授权地址");
    assert_eq!(
        to_value(&ask.body),
        value(
            r#"{"source_id":"autoclaw","device_id":"d","navigate_uri":"u","ali_captcha_verify_param":"c"}"#
        )
    );
    assert_eq!(oauth_url(&json(r#"{"data":{"oauth_url":" http://l "}}"#)).unwrap(), "http://l");
    let empty = oauth_url(&json(r#"{"code":0,"data":{}}"#)).unwrap_err();
    assert_eq!(told(&empty), (502, "上游没有返回授权地址，请重试"));
    let bad = oauth_url(&json(r#"{"code":630014}"#)).unwrap_err();
    assert_eq!(told(&bad), (400, "风控验证未通过，请重新点击登录再试一次"));
}

#[test]
fn the_code_is_exchanged() {
    let ask = exchange_code(Vendor::Zai, "c", "s", "u", "d");
    assert_eq!(ask.path, "/userapi/overseasv1/zai-oauth-login");
    assert_eq!(ask.what, "Zai 登录换取凭证");
    assert_eq!(
        to_value(&ask.body),
        value(r#"{"source_id":"autoclaw","device_id":"d","code":"c","state":"s","navigate_uri":"u"}"#)
    );
    let full = json(r#"{"data":{"access_token":" t ","refresh_token":"r","user_name":" n "}}"#);
    assert_eq!(
        to_value(&credentials(&full, "d").unwrap()),
        value(r#"{"token":"t","deviceId":"d","refreshToken":"r","userName":"n"}"#)
    );
    let bare = json(r#"{"data":{"access_token":"t","refresh_token":" "}}"#);
    assert_eq!(
        to_value(&credentials(&bare, "d").unwrap()),
        value(r#"{"token":"t","deviceId":"d"}"#)
    );
    let none = credentials(&json(r#"{"data":{}}"#), "d").err().unwrap();
    assert_eq!(told(&none), (502, "登录成功但上游没有返回 access_token"));
    let bad = credentials(&json(r#"{"code":631001}"#), "d").err().unwrap();
    assert_eq!(told(&bad), (400, "授权码无效或已过期，请重新点击登录"));
}

#[test]
fn devices_have_names() {
    assert_eq!(device_id_of([0xab; 16], [1; 16]), format!("{}{}", "ab".repeat(16), "01".repeat(16)));
    let a = new_oauth_device_id().unwrap();
    let b = new_oauth_device_id().unwrap();
    assert_eq!(a.len(), 64);
    assert_ne!(a, b);
}
