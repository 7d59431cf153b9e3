//! The Messages protocol, towards clients and towards providers.

use gateway_core::json::{parse, text_of, to_value, Json};
use gateway_core::protocol::anthropic::{
    anthropic_from_chat, anthropic_from_chat_with, chat_from_anthropic, chat_from_anthropic_with,
    error_kind_for_status, object_or_raw, responses_error_code, usage_to_anthropic,
};
use gateway_core::protocol::anthropic_outbound::{
    anthropic_request_from_chat, anthropic_request_from_chat_with, ChatFromAnthropicStream,
};
use gateway_core::protocol::anthropic_stream::{AnthropicCollector, AnthropicStream};

fn json(text: &str) -> Json {
    parse(text).unwrap()
}

fn value(text: &str) -> serde_json::Value {
    serde_json::from_str(text).unwrap()
}

fn strings(list: &[&str]) -> Vec<String> {
    list.iter().map(|s| s.to_string()).collect()
}

/// The event name, empty where there is none, and the value of each frame.
fn read(frames: Vec<bytes::Bytes>) -> Vec<(String, serde_json::Value)> {
    frames
        .iter()
        .map(|f| {
            let text = String::from_utf8(f.to_vec()).unwrap();
            let body = text.strip_suffix("\n\n").unwrap();
            let (event, data) = match body.strip_prefix("event: ") {
                Some(rest) => rest.split_once('\n').unwrap(),
                None => ("", body),
            };
            let data = data.strip_prefix("data: ").unwrap();
            let value = if data == "[DONE]" {
                serde_json::Value::String("[DONE]".to_string())
            } else {
                serde_json::from_str(data).unwrap()
            };
            (event.to_string(), value)
        })
        .collect()
}

fn events(frames: &[(String, serde_json::Value)]) -> Vec<String> {
    frames.iter().map(|f| f.0.clone()).collect()
}

fn converted(body: &str, fresh: &[&[&str]]) -> serde_json::Value {
    let ids: Vec<Vec<String>> = fresh.iter().map(|l| strings(l)).collect();
    to_value(&chat_from_anthropic_with(&json(body), &ids).unwrap())
}

#[test]
fn a_messages_request_becomes_a_chat_request() {
    let body = r#"{"model":"m","stream":true,"max_tokens":100,"temperature":0.5,"top_p":null,
        "metadata":{"user":"u"},"stop_sequences":["END"],
        "system":[{"type":"text","text":"one"},{"type":"text","text":""},{"text":"two"}],
        "messages":[
          {"role":"user","content":"hi"},
          {"role":"Assistant","content":[{"type":"thinking","thinking":"a"},{"type":"redacted_thinking","thinking":"b"},
             {"type":"text","text":"see"},{"type":"tool_use","id":"t1","name":"f","input":{"x":1}}]},
          {"role":"user","content":[{"type":"tool_result","tool_use_id":"t1","content":[{"type":"text","text":"done"}]},
             {"type":"text","text":"now"},"then"]},
          {"role":"user","content":[]},
          {"role":"user","content":[{"type":"image","source":{"type":"base64","data":"AA"}},
             {"type":"image","source":{"type":"url","url":"http://x/y"}},
             {"type":"image","source":{"type":"file"}},{"type":"text","text":"?"}]}],
        "tools":[{"name":"f","description":"d","input_schema":{"type":"object"}},{"name":""},{"name":"g"}],
        "tool_choice":{"type":"any"},
        "thinking":{"type":"enabled","budget_tokens":4096}}"#;
    assert_eq!(
        converted(body, &[]),
        value(
            r#"{"model":"m","stream":true,"max_tokens":100,"temperature":0.5,"metadata":{"user":"u"},
                "stop":["END"],
                "messages":[
                  {"role":"system","content":"one\n\ntwo"},
                  {"role":"user","content":"hi"},
                  {"role":"assistant","content":"see","reasoning_content":"a\nb",
                   "tool_calls":[{"id":"t1","type":"function","function":{"name":"f","arguments":"{\"x\":1}"}}]},
                  {"role":"tool","tool_call_id":"t1","content":"done"},
                  {"role":"user","content":"nowthen"},
                  {"role":"user","content":[
                    {"type":"image_url","image_url":{"url":"data:image/png;base64,AA"}},
                    {"type":"image_url","image_url":{"url":"http://x/y"}},
                    {"type":"text","text":"?"}]}],
                "tools":[{"type":"function","function":{"name":"f","description":"d","parameters":{"type":"object"}}},
                         {"type":"function","function":{"name":"g","parameters":{"type":"object","properties":{}}}}],
                "tool_choice":"required","reasoning_effort":"medium"}"#
        )
    );
}

#[test]
fn what_a_messages_request_leaves_out_is_filled_in() {
    assert_eq!(
        converted(r#"{"messages":[]}"#, &[]),
        value(r#"{"model":null,"stream":false,"max_tokens":8192,"messages":[]}"#)
    );
    assert_eq!(
        chat_from_anthropic(&json(r#"{"model":"m"}"#)).err(),
        Some("缺少 messages 数组".to_string())
    );
    let calls = r#"{"max_tokens":-1,"messages":[
        {"role":"assistant","content":[{"type":"tool_use","name":"f"},{"type":"tool_use","id":"x","name":"g","input":"raw"}]},
        {"role":"user","content":[{"type":"tool_result"},{"type":"tool_result","tool_use_id":"x","content":{"a":1}}]}]}"#;
    assert_eq!(
        converted(calls, &[&["call_a"], &["call_b"]]),
        value(
            r#"{"model":null,"stream":false,"max_tokens":8192,"messages":[
                {"role":"assistant","content":null,"tool_calls":[
                  {"id":"call_a","type":"function","function":{"name":"f","arguments":"{}"}},
                  {"id":"x","type":"function","function":{"name":"g","arguments":"raw"}}]},
                {"role":"tool","tool_call_id":"call_b","content":"(empty)"},
                {"role":"tool","tool_call_id":"x","content":"{\"a\":1}"}]}"#
        )
    );
    let drawn = to_value(&chat_from_anthropic(&json(calls)).unwrap());
    let id = drawn["messages"][0]["tool_calls"][0]["id"].as_str().unwrap();
    assert!(id.starts_with("call_") && id.len() == 37);
    assert_ne!(drawn["messages"][1]["tool_call_id"].as_str(), Some(id));
}

#[test]
fn the_effort_of_a_messages_request() {
    let cases = [
        (r#"{"thinking":{"type":"disabled"},"output_config":{"effort":"high"}}"#, None),
        (r#"{"output_config":{"effort":" MAX "}}"#, Some("xhigh")),
        (r#"{"output_config":{"effort":"Low"}}"#, Some("low")),
        (r#"{"thinking":{"type":"adaptive"}}"#, Some("medium")),
        (r#"{"thinking":{"type":"enabled","budget_tokens":1024}}"#, Some("low")),
        (r#"{"thinking":{"type":"enabled","budget_tokens":10240}}"#, Some("high")),
        (r#"{"thinking":{"type":"enabled","budget_tokens":10241}}"#, Some("xhigh")),
        (r#"{"thinking":{"type":"other"}}"#, None),
    ];
    for (extra, expected) in cases {
        let mut body = json(extra);
        body.put("messages", json("[]"));
        let chat = to_value(&chat_from_anthropic(&body).unwrap());
        assert_eq!(chat["reasoning_effort"].as_str(), expected, "{}", extra);
    }
}

#[test]
fn the_choice_of_a_tool_is_kept_both_ways() {
    let cases = [
        (r#""auto""#, r#""auto""#),
        (r#"{"type":"auto"}"#, r#""auto""#),
        (r#"{"type":"none"}"#, r#""none""#),
        (r#"{"type":"tool","name":"f"}"#, r#"{"type":"function","function":{"name":"f"}}"#),
        (r#"{"type":"tool"}"#, r#""auto""#),
        (r#"{"type":"else"}"#, r#""auto""#),
    ];
    for (given, expected) in cases {
        let body = json(&format!("{{\"messages\":[],\"tool_choice\":{}}}", given));
        let chat = to_value(&chat_from_anthropic(&body).unwrap());
        assert_eq!(chat["tool_choice"], value(expected));
    }
    let back = [
        (r#""required""#, r#"{"type":"any"}"#),
        (r#""none""#, r#"{"type":"none"}"#),
        (r#""what""#, r#"{"type":"auto"}"#),
        (r#"{"type":"function","function":{"name":"f"}}"#, r#"{"type":"tool","name":"f"}"#),
        (r#"{"name":"g"}"#, r#"{"type":"tool","name":"g"}"#),
        (r#"{}"#, r#"{"type":"auto"}"#),
    ];
    for (given, expected) in back {
        let body = json(&format!("{{\"messages\":[],\"tool_choice\":{}}}", given));
        let out = to_value(&anthropic_request_from_chat(&body, "m").unwrap());
        assert_eq!(out["tool_choice"], value(expected));
    }
}

#[test]
fn a_completion_becomes_a_message() {
    let chat = json(
        r#"{"id":"c1","choices":[{"finish_reason":"stop","message":{"reasoning":"why","content":"hello",
            "tool_calls":[{"function":{"name":"f","arguments":"{\"a\":2}"}},{"id":"t","function":{"name":"g","arguments":"oops"}}]}}],
            "usage":{"prompt_tokens":10,"completion_tokens":3,"prompt_tokens_details":{"cached_tokens":4}}}"#,
    );
    assert_eq!(
        to_value(&anthropic_from_chat_with(&chat, "m", &strings(&["toolu_1"]), "unused")),
        value(
            r#"{"id":"c1","type":"message","role":"assistant","model":"m","content":[
                {"type":"thinking","thinking":"why"},{"type":"text","text":"hello"},
                {"type":"tool_use","id":"toolu_1","name":"f","input":{"a":2}},
                {"type":"tool_use","id":"t","name":"g","input":{"raw":"oops"}}],
                "stop_reason":"tool_use","stop_sequence":null,
                "usage":{"input_tokens":6,"output_tokens":3,"cache_read_input_tokens":4}}"#
        )
    );
    let empty = to_value(&anthropic_from_chat(&json(r#"{"choices":[{"finish_reason":"length"}]}"#), "m"));
    assert_eq!(empty["content"], value(r#"[{"type":"text","text":""}]"#));
    assert_eq!(empty["stop_reason"], value(r#""max_tokens""#));
    assert_eq!(empty["usage"], value(r#"{"input_tokens":0,"output_tokens":0}"#));
    assert!(empty["id"].as_str().unwrap().starts_with("msg_"));
    assert_eq!(
        to_value(&usage_to_anthropic(Some(&json(
            r#"{"prompt_tokens":1,"prompt_tokens_details":{"cached_tokens":9}}"#
        )))),
        value(r#"{"input_tokens":0,"output_tokens":0,"cache_read_input_tokens":9}"#)
    );
}

#[test]
fn a_stream_of_chat_chunks_becomes_one_of_messages() {
    let mut s = AnthropicStream::with_id("m", "msg_0");
    let mut all = read(s.push(
        concat_lines(&[
            r#"{"id":"c9","usage":{"prompt_tokens":7,"completion_tokens":0},"choices":[{"delta":{"role":"assistant"}}]}"#,
            r#"{"choices":[{"delta":{"reasoning_content":"hm"}}]}"#,
            r#"{"choices":[{"delta":{"content":"he"}}]}"#,
            r#"{"choices":[{"delta":{"content":"llo"}}]}"#,
            "not json",
            r#"{"choices":[{"delta":{"tool_calls":[{"id":"t1","function":{"name":"f","arguments":"{\"a\""}}]}}]}"#,
            r#"{"choices":[{"delta":{"tool_calls":[{"function":{"arguments":":1}"}}]}}]}"#,
            r#"{"choices":[{"delta":{"tool_calls":[{"id":"t2","function":{"name":"g"}}]},"finish_reason":"tool_calls"}]}"#,
            r#"{"choices":[],"usage":{"prompt_tokens":7,"completion_tokens":5}}"#,
        ])
        .as_bytes(),
    ));
    all.extend(read(s.push(b"data: [DO")));
    all.extend(read(s.push(b"NE]\n\n")));
    assert!(s.finish().is_empty());
    assert_eq!(
        events(&all),
        strings(&[
            "message_start",
            "content_block_start",
            "content_block_delta",
            "content_block_stop",
            "content_block_start",
            "content_block_delta",
            "content_block_delta",
            "content_block_stop",
            "content_block_start",
            "content_block_delta",
            "content_block_delta",
            "content_block_stop",
            "content_block_start",
            "content_block_delta",
            "content_block_stop",
            "message_delta",
            "message_stop",
        ])
    );
    assert_eq!(
        all[0].1,
        value(
            r#"{"type":"message_start","message":{"id":"c9","type":"message","role":"assistant","model":"m",
                "content":[],"stop_reason":null,"stop_sequence":null,"usage":{"input_tokens":7,"output_tokens":0}}}"#
        )
    );
    assert_eq!(
        all[2].1,
        value(r#"{"type":"content_block_delta","index":0,"delta":{"type":"thinking_delta","thinking":"hm"}}"#)
    );
    assert_eq!(
        all[8].1,
        value(
            r#"{"type":"content_block_start","index":2,"content_block":{"type":"tool_use","id":"t1","name":"f","input":{}}}"#
        )
    );
    assert_eq!(
        all[13].1,
        value(r#"{"type":"content_block_delta","index":3,"delta":{"type":"input_json_delta","partial_json":"{}"}}"#)
    );
    assert_eq!(
        all[15].1,
        value(
            r#"{"type":"message_delta","delta":{"stop_reason":"tool_use","stop_sequence":null},"usage":{"output_tokens":5}}"#
        )
    );
}

fn concat_lines(list: &[&str]) -> String {
    list.iter().map(|l| format!("data: {}\n\n", l)).collect()
}

#[test]
fn an_error_ends_a_messages_stream() {
    let mut s = AnthropicStream::new("m");
    let out = read(s.push(b"data: {\"error\":{\"message\":\"no\",\"type\":\"t\"}}\n"));
    assert_eq!(events(&out), strings(&["message_start", "error"]));
    assert_eq!(out[1].1, value(r#"{"type":"error","error":{"type":"t","message":"no"}}"#));
    assert!(s.push(b"data: {\"choices\":[{\"delta\":{\"content\":\"x\"}}]}\n").is_empty());
    assert!(s.finish().is_empty());
    let mut t = AnthropicStream::new("m");
    let out = read(t.push(b"data: {\"error\":\"plain\"}\n"));
    assert_eq!(out[1].1, value(r#"{"type":"error","error":{"type":"api_error","message":"plain"}}"#));
}

#[test]
fn the_last_half_line_counts() {
    let mut s = AnthropicStream::with_id("m", "msg_0");
    assert!(s.push("data: {\"choices\":[{\"delta\":{\"content\":\"好".as_bytes()).is_empty());
    assert!(s.push(b"\"}}]}").is_empty());
    let out = read(s.finish());
    assert_eq!(
        events(&out),
        strings(&[
            "message_start",
            "content_block_start",
            "content_block_delta",
            "content_block_stop",
            "message_delta",
            "message_stop",
        ])
    );
    assert_eq!(out[2].1["delta"]["text"], value(r#""好""#));
    assert_eq!(out[4].1["delta"]["stop_reason"], value(r#""end_turn""#));
}

#[test]
fn a_character_cut_in_two_is_whole_again() {
    let text = "data: {\"choices\":[{\"delta\":{\"content\":\"好\"}}]}\n".as_bytes();
    let cut = text.iter().position(|b| *b >= 0x80).unwrap() + 1;
    let mut s = AnthropicStream::with_id("m", "msg_0");
    assert!(s.push(&text[..cut]).is_empty());
    let out = read(s.push(&text[cut..]));
    assert_eq!(out[2].1["delta"]["text"], value(r#""好""#));
}

#[test]
fn arguments_without_a_name_open_a_block() {
    let mut s = AnthropicStream::with_id("m", "msg_0");
    let frames = s.consume(
        &json(r#"{"choices":[{"delta":{"tool_calls":[{"function":{"arguments":"{}"}}]}}]}"#),
        &strings(&["toolu_9"]),
    );
    let out = read(gateway_core::protocol::write_frames(&frames));
    assert_eq!(
        out[1].1,
        value(
            r#"{"type":"content_block_start","index":0,"content_block":{"type":"tool_use","id":"toolu_9","name":"","input":{}}}"#
        )
    );
}

#[test]
fn a_stream_can_be_collected_into_a_message() {
    let mut c = AnthropicCollector::new();
    c.push(
        concat_lines(&[
            r#"{"id":"c1","choices":[{"delta":{"reasoning":"r","content":"a"}}]}"#,
            r#"{"id":"c2","choices":[{"delta":{"content":"b","tool_calls":[{"index":1,"function":{"arguments":"{\"x\""}},{"index":0,"id":"t0","function":{"name":"f"}}]}}]}"#,
            r#"{"choices":[{"delta":{"tool_calls":[{"index":1,"function":{"arguments":":1}"}}]},"finish_reason":"length"}]}"#,
        ])
        .as_bytes(),
    );
    c.push(b"data: {\"usage\":{\"prompt_tokens\":2,\"completion_tokens\":1}}");
    c.finish();
    assert_eq!(
        to_value(&c.into_response_with("m", &strings(&["unused", "toolu_1"]), "unused")),
        value(
            r#"{"id":"c1","type":"message","role":"assistant","model":"m","content":[
                {"type":"thinking","thinking":"r"},{"type":"text","text":"ab"},
                {"type":"tool_use","id":"t0","name":"f","input":{}},
                {"type":"tool_use","id":"toolu_1","name":"unknown","input":{"x":1}}],
                "stop_reason":"max_tokens","stop_sequence":null,
                "usage":{"input_tokens":2,"output_tokens":1,"cache_read_input_tokens":0}}"#
        )
    );
    let empty = to_value(&AnthropicCollector::new().into_response("m"));
    assert_eq!(empty["content"], value(r#"[{"type":"text","text":""}]"#));
    assert_eq!(empty["stop_reason"], value(r#""end_turn""#));
}

#[test]
fn errors_have_names() {
    assert_eq!(error_kind_for_status(400), "invalid_request_error");
    assert_eq!(error_kind_for_status(401), "authentication_error");
    assert_eq!(error_kind_for_status(403), "permission_error");
    assert_eq!(error_kind_for_status(404), "not_found_error");
    assert_eq!(error_kind_for_status(413), "request_too_large");
    assert_eq!(error_kind_for_status(429), "rate_limit_error");
    assert_eq!(error_kind_for_status(503), "api_error");
    assert_eq!(error_kind_for_status(418), "api_error");
    assert_eq!(responses_error_code(413), "api_error");
    assert_eq!(responses_error_code(429), "rate_limit_error");
    assert_eq!(responses_error_code(599), "server_error");
}

#[test]
fn a_chat_request_becomes_a_messages_request() {
    let chat = json(
        r#"{"stream":true,"max_completion_tokens":50,"temperature":1,"top_p":0.9,"stop":"END",
            "messages":[
              {"role":"system","content":"a"},{"role":"developer","content":[{"type":"text","text":"b"}]},{"role":"system","content":" "},
              {"content":"q"},
              {"role":"user","content":["",{"type":"input_text","text":"w"},{"type":"image_url","image_url":{"url":" data:image/gif;base64,QQ== "}},
                 {"type":"image_url","image_url":"https://x/y"},{"type":"image_url","image_url":"x/y"},{"type":"image_url","image_url":"data:image/png,abc"}]},
              {"role":"assistant","reasoning_content":"r","content":"t","tool_calls":[{"function":{"name":"f","arguments":"{\"a\":1}"}}]},
              {"role":"tool","tool_call_id":"t1","content":""},
              {"role":"user","content":""}],
            "tools":[{"function":{"name":"f","description":"d","parameters":{"properties":{"a":{}}}}},{"name":"g","parameters":{"type":"string"}},{"function":{}}]}"#,
    );
    assert_eq!(
        to_value(&anthropic_request_from_chat_with(&chat, "real", &vec![vec![], vec![], vec![], vec![], vec![], strings(&["toolu_1"])]).unwrap()),
        value(
            r#"{"model":"real","stream":true,"system":"a\n\nb","max_tokens":50,"temperature":1,"top_p":0.9,
                "stop_sequences":["END"],
                "messages":[
                  {"role":"user","content":[{"type":"text","text":"q"},{"type":"text","text":"w"},
                    {"type":"image","source":{"type":"base64","media_type":"image/gif","data":"QQ=="}},
                    {"type":"image","source":{"type":"url","url":"https://x/y"}}]},
                  {"role":"assistant","content":[{"type":"thinking","thinking":"r"},{"type":"text","text":"t"},
                    {"type":"tool_use","id":"toolu_1","name":"f","input":{"a":1}}]},
                  {"role":"user","content":[{"type":"tool_result","tool_use_id":"t1","content":"(empty)"}]}],
                "tools":[{"name":"f","description":"d","input_schema":{"type":"object","properties":{"a":{}}}},
                         {"name":"g","input_schema":{"type":"object","properties":{}}}]}"#
        )
    );
    assert_eq!(
        anthropic_request_from_chat(&json("{}"), "m").err(),
        Some("缺少 messages 数组".to_string())
    );
}

#[test]
fn thinking_leaves_room_for_the_answer() {
    let cases = [
        ("minimal", 8192, 8192, Some(1024)),
        ("low", 1024, 2048, Some(1024)),
        ("medium", 4097, 4097, Some(4096)),
        (" high ", 100, 11264, Some(10240)),
        ("max", 8192, 33792, Some(32768)),
        ("own", 5, 5, None),
        ("", 5, 5, None),
    ];
    for (effort, given, allowed, budget) in cases {
        let chat = json(&format!(
            "{{\"messages\":[],\"temperature\":0.3,\"max_tokens\":{},\"reasoning_effort\":\"{}\"}}",
            given, effort
        ));
        let out = to_value(&anthropic_request_from_chat(&chat, "m").unwrap());
        assert_eq!(out["max_tokens"].as_i64(), Some(allowed), "{}", effort);
        assert_eq!(out["thinking"]["budget_tokens"].as_i64(), budget, "{}", effort);
        assert_eq!(out.get("temperature").is_none(), budget.is_some());
    }
}

#[test]
fn a_messages_stream_becomes_one_of_chat_chunks() {
    let mut s = ChatFromAnthropicStream::at("m", 5);
    let out = read(s.push(
        concat_lines(&[
            r#"{"type":"ping"}"#,
            r#"{"type":"message_start","message":{"id":"x","usage":{"input_tokens":3,"cache_read_input_tokens":2,"cache_creation_input_tokens":1}}}"#,
            r#"{"type":"content_block_delta","index":0,"delta":{"type":"thinking_delta","thinking":"hm"}}"#,
            r#"{"type":"content_block_delta","index":0,"delta":{"type":"signature_delta","signature":"s"}}"#,
            r#"{"type":"content_block_delta","index":1,"delta":{"type":"text_delta","text":"hi"}}"#,
            r#"{"type":"content_block_start","index":2,"content_block":{"type":"tool_use","id":"t","name":"f","input":{}}}"#,
            r#"{"type":"content_block_stop","index":2}"#,
            r#"{"type":"content_block_start","index":3,"content_block":{"type":"tool_use","id":"u","name":"g","input":{"k":1}}}"#,
            r#"{"type":"content_block_stop","index":3}"#,
            r#"{"type":"message_delta","delta":{"stop_reason":"tool_use"},"usage":{"output_tokens":4}}"#,
            r#"{"type":"message_stop"}"#,
            r#"{"type":"content_block_delta","index":1,"delta":{"type":"text_delta","text":"late"}}"#,
        ])
        .as_bytes(),
    ));
    assert!(s.finish().is_empty());
    let deltas: Vec<serde_json::Value> =
        out.iter().filter(|f| f.1["choices"][0].is_object()).map(|f| f.1["choices"][0]["delta"].clone()).collect();
    assert_eq!(
        serde_json::Value::Array(deltas),
        value(
            r#"[{"role":"assistant","content":""},{"reasoning_content":"hm"},{"content":"hi"},
                {"tool_calls":[{"index":2,"id":"t","type":"function","function":{"name":"f","arguments":""}}]},
                {"tool_calls":[{"index":2,"function":{"arguments":"{}"}}]},
                {"tool_calls":[{"index":3,"id":"u","type":"function","function":{"name":"g","arguments":""}}]},
                {"tool_calls":[{"index":3,"function":{"arguments":"{\"k\":1}"}}]},
                {}]"#
        )
    );
    let last = out.len() - 1;
    assert_eq!(out[last].1, value(r#""[DONE]""#));
    assert_eq!(
        out[last - 1].1,
        value(
            r#"{"id":"x","object":"chat.completion.chunk","created":5,"model":"m","choices":[],
                "usage":{"prompt_tokens":6,"completion_tokens":4,"total_tokens":10}}"#
        )
    );
    assert_eq!(
        out[last - 2].1,
        value(
            r#"{"id":"x","object":"chat.completion.chunk","created":5,"model":"m",
                "choices":[{"index":0,"delta":{},"finish_reason":"tool_calls"}]}"#
        )
    );
}

#[test]
fn a_messages_stream_that_breaks_off_is_ended() {
    let mut s = ChatFromAnthropicStream::new("m");
    let out = read(s.finish());
    assert_eq!(out.len(), 4);
    assert!(out[0].1["id"].as_str().unwrap().starts_with("chatcmpl_"));
    assert_eq!(out[1].1["choices"][0]["finish_reason"], value(r#""stop""#));
    let mut t = ChatFromAnthropicStream::new("m");
    let out = read(t.push(b"data: {\"type\":\"error\",\"error\":{\"message\":\"bad\"}}\n"));
    assert_eq!(out[0].1, value(r#"{"error":{"message":"bad","type":"upstream_error"}}"#));
    assert_eq!(out[1].1, value(r#""[DONE]""#));
    assert!(t.finish().is_empty());
    let mut u = ChatFromAnthropicStream::new("m");
    let out = read(u.push(b"data: {\"type\":\"error\",\"error\":\" \"}\n"));
    assert_eq!(out[0].1["error"]["message"], value(r#""上游流式返回错误""#));
}

#[test]
fn what_is_no_object_is_held_as_raw() {
    let spelled = Json::obj().with("a", Json::str("b"));
    assert_eq!(text_of(&object_or_raw(Some(spelled), "t")), r#"{"a":"b"}"#);
    assert_eq!(text_of(&object_or_raw(Some(Json::str("b")), "t")), r#"{"raw":"t"}"#);
    assert_eq!(text_of(&object_or_raw(None, "t")), r#"{"raw":"t"}"#);
}

#[test]
fn tool_results_stand_behind_calls_of_the_same_message() {
    let body = r#"{"messages":[{"role":"user","content":[
            {"type":"tool_result","tool_use_id":"t1","content":"ok"},
            {"type":"text","text":"hi"},
            {"type":"tool_use","id":"t1","name":"f","input":{"a":1}}]}]}"#;
    assert_eq!(
        converted(body, &[])["messages"],
        value(
            r#"[{"role":"assistant","content":"hi","tool_calls":[
                   {"id":"t1","type":"function","function":{"name":"f","arguments":"{\"a\":1}"}}]},
                {"role":"tool","tool_call_id":"t1","content":"ok"}]"#
        )
    );
}

#[test]
fn tool_results_stand_before_what_the_user_says() {
    let body = r#"{"messages":[{"role":"user","content":[{"type":"text","text":"hi"},
        {"type":"tool_result","tool_use_id":"t1","content":"ok"}]}]}"#;
    assert_eq!(
        converted(body, &[])["messages"],
        value(
            r#"[{"role":"tool","tool_call_id":"t1","content":"ok"},{"role":"user","content":"hi"}]"#
        )
    );
}

#[test]
fn an_error_is_told_only_where_the_upstream_sent_one() {
    let mut s = AnthropicStream::new("m");
    let mut all = read(s.push(b"data: {\"choices\":[{\"delta\":{\"content\":\"a\"}}],\"error\":null}\n"));
    all.extend(read(s.push(b"data: {\"choices\":[{\"delta\":{\"reasoning_content\":\"b\"}}]}")));
    all.extend(read(s.finish()));
    let names: Vec<&str> = all.iter().map(|(name, _)| name.as_str()).collect();
    assert_eq!(
        names,
        vec![
            "message_start",
            "content_block_start",
            "content_block_delta",
            "content_block_stop",
            "content_block_start",
            "content_block_delta",
            "content_block_stop",
            "message_delta",
            "message_stop",
        ]
    );
    assert!(s.finish().is_empty());
    assert!(s.push(b"data: {\"error\":1}\n").is_empty());
}
