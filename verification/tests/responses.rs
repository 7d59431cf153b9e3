//! The Responses protocol, towards clients and towards providers.

use gateway_core::json::{parse, to_value, Json};
use gateway_core::protocol::responses::{
    chat_from_responses, chat_from_responses_with, response_envelope, response_envelope_at,
    responses_from_chat, responses_from_chat_with, usage_to_responses, Fresh,
};
use gateway_core::protocol::responses_outbound::{
    chat_usage_from_responses, responses_request_from_chat, responses_request_from_chat_with,
    ChatFromResponsesStream,
};
use gateway_core::protocol::responses_stream::{
    response_event, ResponsesCollector, ResponsesStream,
};
use gateway_core::protocol::tool_plan::{
    freeform_input, unwrap_freeform_input, wrap_freeform_input, ToolDecl, ToolPlan, ToolSpace,
};
use gateway_core::protocol::{
    chat_frame, content_parts, content_text, event_frame, hex_text, id_from, is_truthy, json_number_of,
    json_text, random_id, string_field, string_value, write_frames, SseLineBuffer,
};

fn json(text: &str) -> Json {
    parse(text).unwrap()
}

fn value(text: &str) -> serde_json::Value {
    serde_json::from_str(text).unwrap()
}

fn strings(list: &[&str]) -> Vec<String> {
    list.iter().map(|s| s.to_string()).collect()
}

fn lines(list: &[&str]) -> String {
    list.iter().map(|l| format!("data: {}\n\n", l)).collect()
}

fn plan() -> ToolPlan {
    ToolPlan {
        declarations: vec![
            ToolDecl {
                tool: json(r#"{"type":"function","function":{"name":"n"}}"#),
                nested: true,
                flat: None,
                downgraded: None,
            },
            ToolDecl {
                tool: json(r#"{"type":"function","name":"f"}"#),
                nested: false,
                flat: Some(json(r#"{"type":"function","function":{"name":"f"}}"#)),
                downgraded: None,
            },
            ToolDecl {
                tool: json(r#"{"type":"custom","name":"exec"}"#),
                nested: false,
                flat: None,
                downgraded: Some(json(r#"{"type":"function","function":{"name":"exec"}}"#)),
            },
            ToolDecl {
                tool: json(r#"{"type":"web_search"}"#),
                nested: false,
                flat: None,
                downgraded: None,
            },
            ToolDecl { tool: json(r#""web""#), nested: false, flat: None, downgraded: None },
        ],
        custom: strings(&["exec"]),
        spaces: vec![ToolSpace {
            flat: "mcp__read".to_string(),
            name: "read".to_string(),
            namespace: "mcp".to_string(),
        }],
    }
}

fn fresh() -> Fresh {
    Fresh {
        resp: "resp_1".to_string(),
        rs: "rs_1".to_string(),
        msg: "msg_1".to_string(),
        call: strings(&["call_1", "call_2"]),
        fc: strings(&["fc_1", "fc_2"]),
        ctc: strings(&["ctc_1", "ctc_2"]),
    }
}

/// The event name, empty where there is none, and the value of each frame.
fn read(frames: Vec<bytes::Bytes>) -> Vec<(String, serde_json::Value)> {
    frames
        .iter()
        .map(|f| {
            let text = String::from_utf8(f.to_vec()).unwrap();
            let body = text.strip_suffix("\n\n").unwrap();
            let (event, data) = match body.strip_prefix("event: ") {
                Some(rest) => rest.split_once('\n').unwrap(),
                None => ("", body),
            };
            let data = data.strip_prefix("data: ").unwrap();
            let value = if data == "[DONE]" {
                serde_json::Value::String("[DONE]".to_string())
            } else {
                serde_json::from_str(data).unwrap()
            };
            (event.to_string(), value)
        })
        .collect()
}

fn events(frames: &[(String, serde_json::Value)]) -> Vec<String> {
    frames.iter().map(|f| f.0.clone()).collect()
}

#[test]
fn values_read_with_patience() {
    assert_eq!(string_value(&json("null")), "");
    assert_eq!(string_value(&json("7")), "7");
    assert_eq!(string_value(&json(r#"{"a":[1,"x"]}"#)), r#"{"a":[1,"x"]}"#);
    assert_eq!(string_field(&json(r#"{"a":true}"#), "a"), "true");
    assert_eq!(string_field(&json(r#"{"a":true}"#), "b"), "");
    assert_eq!(json_text(&json(r#""t""#)), "t");
    assert_eq!(json_text(&json("[1]")), "[1]");
    assert!(!is_truthy(&json("0")));
    assert!(!is_truthy(&json("0.0")));
    assert!(!is_truthy(&json(r#""""#)));
    assert!(is_truthy(&json("[]")));
    assert!(is_truthy(&json("-0.5")));
    assert_eq!(
        content_text(&json(r#"["a",{"type":"Text","text":"b"},{"type":"image"},{"type":"output_text","text":3}]"#)),
        "ab3"
    );
    assert_eq!(content_text(&json("5")), "");
    assert_eq!(content_parts(&json("[1,2]")).len(), 2);
    assert_eq!(content_parts(&json("{}")).len(), 0);
    assert_eq!(json_number_of(&json(r#"{"a":"x","b":2.9}"#), &["a", "b"]), 2);
    assert_eq!(json_number_of(&json(r#"{"b":-2.9}"#), &["b"]), -2);
    assert_eq!(json_number_of(&json(r#"{"b":1e300}"#), &["b"]), i64::MAX);
    assert_eq!(json_number_of(&json(r#"{}"#), &["b"]), 0);
}

#[test]
fn identifiers_are_hexadecimal() {
    assert_eq!(hex_text(&[0, 15, 16, 255]), "000f10ff");
    assert_eq!(id_from("msg", Some([1; 16]), 5), format!("msg_{}", "01".repeat(16)));
    assert_eq!(id_from("msg", None, 255), "msg_ff");
    let a = random_id("call");
    let b = random_id("call");
    assert!(a.starts_with("call_") && a.len() == 37);
    assert_ne!(a, b);
}

#[test]
fn frames_have_their_form() {
    assert_eq!(&event_frame("e", &json(r#"{"a":1}"#))[..], b"event: e\ndata: {\"a\":1}\n\n");
    assert_eq!(&chat_frame(&json(r#"{"a":1}"#))[..], b"data: {\"a\":1}\n\n");
    let mut number: i64 = 4;
    let frame = response_event(&mut number, "e", json(r#"{"x":1}"#));
    assert_eq!(number, 5);
    assert_eq!(read(vec![frame])[0].1, value(r#"{"type":"e","sequence_number":4,"x":1}"#));
}

#[test]
fn payloads_come_out_of_lines() {
    let mut b = SseLineBuffer::new();
    assert!(b.push(b"event: x\nda").is_empty());
    assert_eq!(
        b.push(b"ta:  one \r\n: note\n\ndata:\ndata: [DONE]\ndata:two"),
        vec![Some("one".to_string()), None]
    );
    assert_eq!(b.finish(), vec![Some("two".to_string())]);
    assert!(b.finish().is_empty());
    let whole = "data: 好\ndata: 2\n".as_bytes();
    for cut in 0..whole.len() {
        let mut c = SseLineBuffer::new();
        let mut got = c.push(&whole[..cut]);
        got.extend(c.push(&whole[cut..]));
        assert_eq!(got, vec![Some("好".to_string()), Some("2".to_string())]);
    }
    let mut d = SseLineBuffer::new();
    assert_eq!(d.push(b"data: \xff\n"), vec![Some("\u{fffd}".to_string())]);
}

#[test]
fn free_text_is_wrapped_and_taken_out() {
    assert_eq!(wrap_freeform_input("ls \"x\""), r#"{"input":"ls \"x\""}"#);
    assert_eq!(unwrap_freeform_input(r#"{"input":"ls"}"#), "ls");
    assert_eq!(unwrap_freeform_input("ls"), "ls");
    assert_eq!(unwrap_freeform_input(&wrap_freeform_input("好\n")), "好\n");
}

#[test]
fn a_responses_request_becomes_a_chat_request() {
    let body = json(
        r#"{"model":"m","stream":true,"instructions":"be brief","max_output_tokens":9,"temperature":0,"top_p":null,
            "user":"u","text":{"format":{"type":"json_schema","name":"s","schema":{"a":1},"strict":false}},
            "reasoning":{"effort":"high"},"tool_choice":{"type":"function","name":"f"},
            "input":[
              "hello",
              {"type":"reasoning","summary":[{"type":"summary_text","text":"one"}]},
              {"type":"reasoning","content":[{"text":"two"}]},
              {"role":"assistant","content":[{"type":"output_text","text":"look"}]},
              {"type":"function_call","call_id":"c1","name":"read","namespace":"mcp","arguments":"{}"},
              {"type":"function_call_output","call_id":"c1","output":""},
              {"type":"reasoning","summary":[{"text":"three"}]},
              {"type":"custom_tool_call","id":"c2","name":"exec","input":"ls"},
              {"type":"custom_tool_call_output","call_id":"c2","output":{"ok":true}},
              {"role":"developer","content":[{"type":"input_text","text":"a"},{"type":"input_image","image_url":{"url":"http://i"}}]},
              {"type":"message","role":"assistant","content":"later"},
              {"type":"additional_tools","tools":[]},
              {"type":"local_shell_call"},
              {"role":"assistant","content":[]},
              {"type":"input_text","text":"bye"}]}"#,
    );
    let names = strings(&["", "", "", "", "mcp__read", "", "", "exec", "", "", "", "", "", "", ""]);
    assert_eq!(
        to_value(&chat_from_responses_with(&body, &plan(), &vec![], &names).unwrap()),
        value(
            r#"{"model":"m","stream":true,"max_completion_tokens":9,"temperature":0,"user":"u",
                "response_format":{"type":"json_schema","json_schema":{"name":"s","schema":{"a":1}}},
                "reasoning_effort":"high","tool_choice":{"type":"function","function":{"name":"f"}},
                "tools":[{"type":"function","function":{"name":"n"}},{"type":"function","function":{"name":"f"}},
                         {"type":"function","function":{"name":"exec"}}],
                "messages":[
                  {"role":"system","content":"be brief"},
                  {"role":"user","content":"hello"},
                  {"role":"assistant","content":"look","reasoning_content":"one\ntwo",
                   "tool_calls":[{"id":"c1","type":"function","function":{"name":"mcp__read","arguments":"{}"}}]},
                  {"role":"tool","tool_call_id":"c1","content":"(empty)"},
                  {"role":"assistant","content":null,"reasoning_content":"three",
                   "tool_calls":[{"id":"c2","type":"function","function":{"name":"exec","arguments":"{\"input\":\"ls\"}"}}]},
                  {"role":"tool","tool_call_id":"c2","content":"{\"ok\":true}"},
                  {"role":"system","content":[{"type":"text","text":"a"},{"type":"image_url","image_url":{"url":"http://i"}}]},
                  {"role":"assistant","content":"later"},
                  {"role":"user","content":"bye"}]}"#
        )
    );
}

#[test]
fn neighbouring_assistant_messages_become_one() {
    let body = json(
        r#"{"input":[
            {"role":"assistant","content":"a"},
            {"role":"assistant","content":"b","summary":[{"text":"s"}]},
            {"type":"function_call","name":"f"},
            {"type":"function_call","name":"g","arguments":{"x":1}},
            {"role":"user","content":"u"},{"role":"user","content":"v"}]}"#,
    );
    let names = strings(&["", "", "f", "g"]);
    let ids = strings(&["", "", "call_1", "call_2"]);
    let chat = to_value(&chat_from_responses_with(&body, &ToolPlan::none(), &ids, &names).unwrap());
    assert_eq!(
        chat["messages"],
        value(
            r#"[{"role":"assistant","content":"a\nb","reasoning_content":"s","tool_calls":[
                  {"id":"call_1","type":"function","function":{"name":"f","arguments":"{}"}},
                  {"id":"call_2","type":"function","function":{"name":"g","arguments":"{\"x\":1}"}}]},
                {"role":"user","content":"u"},{"role":"user","content":"v"}]"#
        )
    );
}

#[test]
fn the_input_has_several_forms() {
    let none = ToolPlan::none();
    let names: Vec<String> = vec![];
    let messages = |body: &str| {
        to_value(&chat_from_responses(&json(body), &none, &names).unwrap())["messages"].clone()
    };
    assert_eq!(messages(r#"{}"#), value("[]"));
    assert_eq!(messages(r#"{"instructions":"  "}"#), value("[]"));
    assert_eq!(messages(r#"{"input":"q"}"#), value(r#"[{"role":"user","content":"q"}]"#));
    assert_eq!(
        messages(r#"{"input":{"role":"User","text":"q"}}"#),
        value(r#"[{"role":"user","content":"q"}]"#)
    );
    assert_eq!(
        messages(r#"{"input":[{"type":"input_image","image_url":"x"}]}"#),
        value(r#"[{"role":"user","content":[{"type":"input_image","image_url":"x"}]}]"#)
    );
    assert_eq!(messages(r#"{"input":5}"#), value("[]"));
}

#[test]
fn thinking_does_not_outlast_its_turn() {
    let none = ToolPlan::none();
    let names: Vec<String> = vec![];
    let messages = |input: &str| {
        let body = json(&format!("{{\"input\":{}}}", input));
        to_value(&chat_from_responses(&body, &none, &names).unwrap())["messages"].clone()
    };
    assert_eq!(
        messages(r#"[{"type":"reasoning","summary":[{"text":"t"}]},"q",{"role":"assistant","content":"a"}]"#),
        value(r#"[{"role":"user","content":"q"},{"role":"assistant","content":"a"}]"#)
    );
    assert_eq!(
        messages(
            r#"[{"type":"reasoning","summary":[{"text":"t"}]},{"role":"assistant","content":"a"},
                {"role":"tool","content":"o"},{"role":"assistant","content":"b"},
                {"role":"user","content":"q"},{"role":"assistant","content":"c"}]"#
        ),
        value(
            r#"[{"role":"assistant","content":"a","reasoning_content":"t"},{"role":"tool","content":"o"},
                {"role":"assistant","content":"b","reasoning_content":"t"},{"role":"user","content":"q"},
                {"role":"assistant","content":"c"}]"#
        )
    );
}

#[test]
fn a_request_that_needs_memory_is_refused() {
    let none = ToolPlan::none();
    for field in ["previous_response_id", "conversation", "prompt", "background"] {
        let mut body = json(r#"{"input":"q"}"#);
        body.put(field, json(r#""x""#));
        assert_eq!(
            chat_from_responses(&body, &none, &vec![]).err(),
            Some(format!(
                "字段 {} 需要服务端保存对话状态，本网关是无状态转发，无法支持",
                field
            ))
        );
    }
    let off = json(r#"{"input":"q","background":false,"prompt":null}"#);
    assert!(chat_from_responses(&off, &none, &vec![]).is_ok());
}

#[test]
fn a_completion_becomes_a_response() {
    let chat = json(
        r#"{"created":3,"choices":[{"finish_reason":"length","message":{"reasoning":"why","content":"hi",
            "tool_calls":[{"function":{"name":"exec","arguments":"{\"input\":\"ls\"}"}},
                          {"id":"k","function":{"name":"mcp__read"}}]}}],
            "usage":{"prompt_tokens":5,"completion_tokens":2,"total_tokens":1,
                     "prompt_tokens_details":{"cached_tokens":4},"completion_tokens_details":{"reasoning_tokens":1}}}"#,
    );
    let request = json(
        r#"{"instructions":"i","tools":[{"type":"custom","name":"exec"}],"reasoning":{"effort":"low"},"temperature":null,"top_p":0.5}"#,
    );
    assert_eq!(
        to_value(&responses_from_chat_with(&chat, "m", &request, &plan(), &fresh(), 77)),
        value(
            r#"{"id":"resp_1","object":"response","created_at":3,"status":"incomplete","completed_at":null,
                "background":false,"error":null,"incomplete_details":{"reason":"max_output_tokens"},
                "instructions":"i","max_output_tokens":null,"max_tool_calls":null,"model":"m",
                "output":[
                  {"type":"reasoning","id":"rs_1","summary":[{"type":"summary_text","text":"why"}]},
                  {"type":"message","id":"msg_1","status":"completed","role":"assistant",
                   "content":[{"type":"output_text","text":"hi","annotations":[],"logprobs":[]}]},
                  {"type":"custom_tool_call","id":"ctc_1","status":"completed","call_id":"call_1","name":"exec","input":"ls"},
                  {"type":"function_call","id":"fc_2","status":"completed","call_id":"k","name":"read","namespace":"mcp","arguments":"{}"}],
                "parallel_tool_calls":true,"previous_response_id":null,
                "reasoning":{"effort":"low","summary":null},"store":false,"temperature":1,
                "text":{"format":{"type":"text"}},"tool_choice":"auto","tools":[{"type":"custom","name":"exec"}],
                "top_logprobs":0,"top_p":0.5,"truncation":"disabled",
                "usage":{"input_tokens":5,"input_tokens_details":{"cached_tokens":4},"output_tokens":2,
                         "output_tokens_details":{"reasoning_tokens":1},"total_tokens":7},
                "user":null,"metadata":{},"output_text":"hi"}"#
        )
    );
    let empty = to_value(&responses_from_chat(&json("{}"), "m", &json("{}"), &ToolPlan::none()));
    assert_eq!(empty["status"], value(r#""completed""#));
    assert_eq!(empty["output"][0]["type"], value(r#""message""#));
    assert_eq!(empty["usage"], value("null"));
    assert!(empty["id"].as_str().unwrap().starts_with("resp_"));
    assert!(empty["completed_at"].as_i64().unwrap() > 1_700_000_000);
    let at = to_value(&response_envelope_at(
        "r", "m", "completed", vec![], json("null"), &json("{}"), 1, None, 77,
    ));
    assert_eq!(at["completed_at"], value("77"));
    let now = to_value(&response_envelope("r", "m", "failed", vec![], json("null"), &json("{}"), 1, None));
    assert_eq!(now["completed_at"], value("null"));
}

#[test]
fn usage_goes_to_responses_and_back() {
    assert_eq!(to_value(&usage_to_responses(None)), value("null"));
    assert_eq!(
        to_value(&usage_to_responses(Some(&json(
            r#"{"input_tokens":5.7,"output_tokens":2,"prompt_cache_hit_tokens":3,"total_tokens":9}"#
        )))),
        value(
            r#"{"input_tokens":5,"input_tokens_details":{"cached_tokens":3},"output_tokens":2,"total_tokens":9}"#
        )
    );
    let chat = r#"{"prompt_tokens":5,"prompt_tokens_details":{"cached_tokens":4},"completion_tokens":2,
        "completion_tokens_details":{"reasoning_tokens":1},"total_tokens":7}"#;
    let there = usage_to_responses(Some(&json(chat)));
    assert_eq!(to_value(&chat_usage_from_responses(&there)), value(chat));
    assert_eq!(
        to_value(&chat_usage_from_responses(&json(
            r#"{"prompt_tokens":1,"cache_read_input_tokens":1,"input_tokens_details":{"cached_tokens":0}}"#
        ))),
        value(
            r#"{"prompt_tokens":1,"prompt_tokens_details":{"cached_tokens":1},"completion_tokens":0,"total_tokens":1}"#
        )
    );
}

#[test]
fn a_stream_of_chat_chunks_becomes_one_of_responses() {
    let mut s = ResponsesStream::with_id("m", &json("{}"), &plan(), "resp_0", 5);
    let mut frames = s.consume(&json(r#"{"id":"c1","choices":[{"delta":{"reasoning_content":"hm"}}]}"#), &fresh());
    frames.extend(s.consume(&json(r#"{"id":"c2","choices":[{"delta":{"content":"hi"}}]}"#), &fresh()));
    frames.extend(s.consume(
        &json(
            r#"{"choices":[{"delta":{"tool_calls":[{"index":0,"id":"k","function":{"name":"f","arguments":"{"}},
                {"index":1,"function":{"name":"exec","arguments":"{\"input\":\"ls\"}"}}]}}]}"#,
        ),
        &fresh(),
    ));
    frames.extend(s.consume(
        &json(r#"{"choices":[{"delta":{"tool_calls":[{"index":0,"function":{"arguments":"}"}}]},"finish_reason":"tool_calls"}]}"#),
        &fresh(),
    ));
    let mut all = read(write_frames(&frames));
    all.extend(read(s.push(
        lines(&[r#"{"choices":[],"usage":{"prompt_tokens":1,"completion_tokens":1}}"#, "[DONE]"]).as_bytes(),
    )));
    assert!(s.finish().is_empty());
    assert_eq!(
        events(&all),
        strings(&[
            "response.created",
            "response.output_item.added",
            "response.reasoning_summary_part.added",
            "response.reasoning_summary_text.delta",
            "response.reasoning_summary_text.done",
            "response.reasoning_summary_part.done",
            "response.output_item.done",
            "response.output_item.added",
            "response.content_part.added",
            "response.output_text.delta",
            "response.output_text.done",
            "response.content_part.done",
            "response.output_item.done",
            "response.output_item.added",
            "response.function_call_arguments.delta",
            "response.function_call_arguments.delta",
            "response.function_call_arguments.done",
            "response.output_item.done",
            "response.output_item.added",
            "response.custom_tool_call_input.done",
            "response.output_item.done",
            "response.completed",
        ])
    );
    for (n, frame) in all.iter().enumerate() {
        assert_eq!(frame.1["sequence_number"].as_u64(), Some(n as u64));
        assert_eq!(frame.1["type"].as_str(), Some(frame.0.as_str()));
    }
    assert_eq!(all[0].1["response"]["id"], value(r#""c1""#));
    assert_eq!(all[0].1["response"]["status"], value(r#""in_progress""#));
    assert_eq!(
        all[18].1["item"],
        value(
            r#"{"type":"custom_tool_call","id":"ctc_2","status":"in_progress","call_id":"call_2","name":"exec","input":""}"#
        )
    );
    assert_eq!(
        all[15].1,
        value(
            r#"{"type":"response.function_call_arguments.delta","sequence_number":15,"output_index":2,"item_id":"fc_1",
                "call_id":"k","name":"f","delta":"}"}"#
        )
    );
    assert_eq!(all[19].1["input"], value(r#""ls""#));
    let last = &all[21].1["response"];
    assert_eq!(last["status"], value(r#""completed""#));
    assert_eq!(
        last["output"],
        value(
            r#"[{"type":"reasoning","id":"rs_1","status":"completed","summary":[{"type":"summary_text","text":"hm"}]},
                {"type":"message","id":"msg_1","status":"completed","role":"assistant",
                 "content":[{"type":"output_text","text":"hi","annotations":[],"logprobs":[]}]},
                {"type":"function_call","id":"fc_1","status":"completed","call_id":"k","name":"f","arguments":"{}"},
                {"type":"custom_tool_call","id":"ctc_2","status":"completed","call_id":"call_2","name":"exec","input":"ls"}]"#
        )
    );
    assert_eq!(last["usage"], value(r#"{"input_tokens":1,"output_tokens":1,"total_tokens":2}"#));
}

#[test]
fn an_empty_stream_is_an_empty_answer() {
    let mut s = ResponsesStream::new("m", &json("{}"), &ToolPlan::none());
    let all = read(s.finish());
    assert_eq!(
        events(&all),
        strings(&[
            "response.created",
            "response.output_item.added",
            "response.content_part.added",
            "response.output_text.done",
            "response.content_part.done",
            "response.output_item.done",
            "response.completed",
        ])
    );
    assert_eq!(all[6].1["response"]["output"][0]["content"][0]["text"], value(r#""""#));
}

#[test]
fn an_error_ends_a_responses_stream() {
    let mut s = ResponsesStream::new("m", &json("{}"), &ToolPlan::none());
    let all = read(s.push(b"data: {\"error\":{\"message\":\"no\",\"code\":\"x\"}}\n"));
    assert_eq!(events(&all), strings(&["response.created", "error", "response.failed"]));
    assert_eq!(
        all[1].1,
        value(r#"{"type":"error","sequence_number":1,"code":"x","message":"no","param":null}"#)
    );
    assert_eq!(all[2].1["response"]["error"], value(r#"{"code":"x","message":"no"}"#));
    assert_eq!(all[2].1["response"]["status"], value(r#""failed""#));
    assert!(s.finish().is_empty());
    assert!(s.push(b"data: {\"choices\":[]}\n").is_empty());
}

#[test]
fn a_stream_can_be_collected_into_a_response() {
    let mut c = ResponsesCollector::at(5);
    c.push(
        lines(&[
            r#"{"id":"c1","created":9,"choices":[{"delta":{"reasoning":"r","content":"a"}}]}"#,
            r#"{"choices":[{"delta":{"content":"b","tool_calls":[{"index":2,"function":{"name":"exec","arguments":"x"}},{"function":{}}]},"finish_reason":"content_filter"}]}"#,
        ])
        .as_bytes(),
    );
    c.finish();
    let got = to_value(&c.into_response_with("m", &json("{}"), &plan(), &fresh(), 7));
    assert_eq!(got["id"], value(r#""c1""#));
    assert_eq!(got["created_at"], value("9"));
    assert_eq!(got["status"], value(r#""incomplete""#));
    assert_eq!(got["incomplete_details"], value(r#"{"reason":"content_filter"}"#));
    assert_eq!(got["output_text"], value(r#""ab""#));
    assert_eq!(
        got["output"],
        value(
            r#"[{"type":"reasoning","id":"rs_1","summary":[{"type":"summary_text","text":"r"}]},
                {"type":"message","id":"msg_1","status":"completed","role":"assistant",
                 "content":[{"type":"output_text","text":"ab","annotations":[],"logprobs":[]}]},
                {"type":"function_call","id":"fc_1","status":"completed","call_id":"call_1","name":"unknown","arguments":"{}"},
                {"type":"custom_tool_call","id":"ctc_2","status":"completed","call_id":"call_2","name":"exec","input":"x"}]"#
        )
    );
    let empty = to_value(&ResponsesCollector::new().into_response("m", &json("{}"), &ToolPlan::none()));
    assert_eq!(empty["output_text"], value(r#""""#));
    assert_eq!(empty["status"], value(r#""completed""#));
}

#[test]
fn a_chat_request_becomes_a_responses_request() {
    let chat = json(
        r#"{"stream":true,"max_tokens":7,"max_completion_tokens":0,"temperature":0.1,"metadata":{"a":1},"n":2,
            "messages":[
              {"role":"system","content":"a"},{"role":"developer","content":"b"},
              {"role":"user","content":"q"},
              {"role":"who","content":[{"type":"text","text":"t"},{"type":"image_url","image_url":{"url":"u"}},{"type":"input_audio"},"s"]},
              {"role":"assistant","reasoning_content":"r","content":"x","tool_calls":[{"function":{"name":"f"}},{"id":"k","function":{"name":"g","arguments":{"a":1}}}]},
              {"role":"tool","tool_call_id":"k","content":"done"}],
            "tools":[{"type":"function","function":{"name":"f","description":"d","strict":false}},{"type":"function","name":"bare"}],
            "tool_choice":{"type":"function","function":{"name":"f"}},
            "response_format":{"type":"json_schema","json_schema":{"name":"s","schema":{},"strict":false}},
            "reasoning_effort":" high "}"#,
    );
    let mut given: Vec<Fresh> = vec![];
    for _ in 0..6 {
        given.push(fresh());
    }
    assert_eq!(
        to_value(&responses_request_from_chat_with(&chat, "real", &given).unwrap()),
        value(
            r#"{"model":"real","stream":true,"instructions":"a\n\nb","max_output_tokens":7,"temperature":0.1,"metadata":{"a":1},
                "input":[
                  {"type":"message","role":"user","content":"q"},
                  {"type":"message","role":"user","content":[{"type":"input_text","text":"t"},{"type":"input_image","image_url":"u"},{"type":"input_text","text":"s"}]},
                  {"type":"reasoning","id":"rs_1","summary":[{"type":"summary_text","text":"r"}]},
                  {"type":"message","id":"msg_1","role":"assistant","content":[{"type":"output_text","text":"x"}]},
                  {"type":"function_call","id":"fc_1","call_id":"call_1","name":"f","arguments":"{}"},
                  {"type":"function_call","id":"fc_2","call_id":"k","name":"g","arguments":"{\"a\":1}"},
                  {"type":"function_call_output","call_id":"k","output":"done"}],
                "tools":[{"type":"function","name":"f","description":"d","parameters":{"type":"object","properties":{}},"strict":false}],
                "tool_choice":{"type":"function","name":"f"},
                "text":{"format":{"type":"json_schema","name":"s","schema":{},"strict":false}},
                "reasoning":{"effort":"high","summary":"auto"},"store":false}"#
        )
    );
    assert_eq!(
        responses_request_from_chat(&json("{}"), "m").err(),
        Some("缺少 messages 数组".to_string())
    );
}

#[test]
fn a_responses_stream_becomes_one_of_chat_chunks() {
    let mut s = ChatFromResponsesStream::at("m", 5);
    let out = read(s.push(
        lines(&[
            r#"{"type":"response.created","response":{"id":"x"}}"#,
            r#"{"type":"response.reasoning_summary_text.delta","delta":"hm"}"#,
            r#"{"type":"response.output_text.delta","delta":"hi"}"#,
            r#"{"type":"response.refusal.delta","delta":"no"}"#,
            r#"{"type":"response.output_item.added","output_index":1,"item":{"type":"function_call","call_id":"a","name":"f"}}"#,
            r#"{"type":"response.function_call_arguments.delta","call_id":"a","delta":"{}"}"#,
            r#"{"type":"response.function_call_arguments.done","call_id":"a","arguments":"{}"}"#,
            r#"{"type":"response.output_item.done","item":{"type":"custom_tool_call","call_id":"b","name":"exec","input":"ls"}}"#,
            r#"{"type":"response.custom_tool_call_input.done","call_id":"b","input":"ls"}"#,
            r#"{"type":"response.completed","response":{"usage":{"input_tokens":1,"output_tokens":2}}}"#,
        ])
        .as_bytes(),
    ));
    assert!(s.finish().is_empty());
    let deltas: Vec<serde_json::Value> = out
        .iter()
        .filter(|f| f.1["choices"][0].is_object())
        .map(|f| f.1["choices"][0]["delta"].clone())
        .collect();
    assert_eq!(
        serde_json::Value::Array(deltas),
        value(
            r#"[{"role":"assistant","content":""},{"reasoning_content":"hm"},{"content":"hi"},{"content":"no"},
                {"tool_calls":[{"index":0,"id":"a","type":"function","function":{"name":"f","arguments":""}}]},
                {"tool_calls":[{"index":0,"function":{"arguments":"{}"}}]},
                {"tool_calls":[{"index":1,"id":"b","type":"function","function":{"name":"exec","arguments":""}}]},
                {"tool_calls":[{"index":1,"function":{"arguments":"{\"input\":\"ls\"}"}}]},
                {}]"#
        )
    );
    let last = out.len() - 1;
    assert_eq!(out[last].1, value(r#""[DONE]""#));
    assert_eq!(
        out[last - 1].1,
        value(
            r#"{"id":"x","object":"chat.completion.chunk","created":5,"model":"m","choices":[],
                "usage":{"prompt_tokens":1,"completion_tokens":2,"total_tokens":3}}"#
        )
    );
    assert_eq!(out[last - 2].1["choices"][0]["finish_reason"], value(r#""tool_calls""#));
}

#[test]
fn a_responses_stream_that_falls_short_says_why() {
    let mut s = ChatFromResponsesStream::new("m");
    let out = read(s.push(b"data: {\"type\":\"response.incomplete\"}\n"));
    assert_eq!(out[1].1["choices"][0]["finish_reason"], value(r#""length""#));
    assert_eq!(out.len(), 3);
    let mut t = ChatFromResponsesStream::new("m");
    let out = read(t.push(
        b"data: {\"type\":\"response.incomplete\",\"response\":{\"incomplete_details\":{\"reason\":\"content_filter\"}}}\n",
    ));
    assert_eq!(out[1].1["choices"][0]["finish_reason"], value(r#""content_filter""#));
    let mut u = ChatFromResponsesStream::new("m");
    let out = read(u.push(b"data: {\"type\":\"response.failed\",\"response\":{\"error\":{\"message\":\"bad\"}}}\n"));
    assert_eq!(out[0].1, value(r#"{"error":{"message":"bad","type":"upstream_error"}}"#));
    assert_eq!(out[1].1, value(r#""[DONE]""#));
    assert!(u.finish().is_empty());
    let mut v = ChatFromResponsesStream::new("m");
    let out = read(v.finish());
    assert_eq!(out.len(), 3);
    assert_eq!(out[1].1["choices"][0]["finish_reason"], value(r#""stop""#));
}

#[test]
fn free_text_is_the_input_or_all_of_the_arguments() {
    let held = Json::obj().with("input", Json::str("ls"));
    assert_eq!(freeform_input(Some(held), "all"), "ls");
    let other = Json::obj().with("input", Json::Bool(true));
    assert_eq!(freeform_input(Some(other), "all"), "all");
    assert_eq!(freeform_input(Some(Json::str("ls")), "all"), "all");
    assert_eq!(freeform_input(None, "all"), "all");
}

/// The items that are being written along events, and that never two are at once.
fn written(all: &[(String, serde_json::Value)]) -> Vec<u64> {
    let mut open: Option<u64> = None;
    let mut order = Vec::new();
    for (name, data) in all {
        let Some(index) = data["output_index"].as_u64() else {
            continue;
        };
        match name.as_str() {
            "response.output_item.added" => {
                assert_eq!(open, None);
                open = Some(index);
                order.push(index);
            }
            "response.output_item.done" => {
                assert!(open.is_none() || open == Some(index));
                open = None;
            }
            _ => assert_eq!(open, Some(index)),
        }
    }
    assert_eq!(open, None);
    order
}

#[test]
fn one_item_is_written_at_a_time() {
    let mut s = ResponsesStream::new("m", &json("{}"), &plan());
    let mut all = read(s.push(
        lines(&[
            r#"{"choices":[{"delta":{"reasoning_content":"a"}}]}"#,
            r#"{"choices":[{"delta":{"content":"b"}}]}"#,
            r#"{"choices":[{"delta":{"reasoning_content":"c"}}]}"#,
            r#"{"choices":[{"delta":{"tool_calls":[{"index":0,"function":{"name":"f","arguments":"{"}}]}}]}"#,
            r#"{"choices":[{"delta":{"tool_calls":[{"index":1,"function":{"name":"g","arguments":"{}"}}]}}]}"#,
            r#"{"choices":[{"delta":{"tool_calls":[{"index":0,"function":{"arguments":"}"}}]}}]}"#,
            r#"{"choices":[{"delta":{"content":"d"}}]}"#,
        ])
        .as_bytes(),
    ));
    all.extend(read(s.finish()));
    assert_eq!(written(&all), vec![0, 1, 2, 3, 4, 5]);
    let output = &all[all.len() - 1].1["response"]["output"];
    let kinds: Vec<&str> =
        output.as_array().unwrap().iter().map(|item| item["type"].as_str().unwrap()).collect();
    assert_eq!(
        kinds,
        vec!["reasoning", "message", "reasoning", "function_call", "function_call", "message"]
    );
    assert_eq!(output[0]["summary"][0]["text"], value(r#""a""#));
    assert_eq!(output[1]["content"][0]["text"], value(r#""b""#));
    assert_eq!(output[2]["summary"][0]["text"], value(r#""c""#));
    assert_eq!(output[3]["arguments"], value(r#""{}""#));
    assert_eq!(output[4]["name"], value(r#""g""#));
    assert_eq!(output[5]["content"][0]["text"], value(r#""d""#));
}

#[test]
fn text_between_the_pieces_of_a_call_waits() {
    let mut s = ResponsesStream::new("m", &json("{}"), &plan());
    let mut all = read(s.push(
        lines(&[
            r#"{"choices":[{"delta":{"tool_calls":[{"index":0,"id":"k","function":{"name":"f","arguments":"{"}}]}}]}"#,
            r#"{"choices":[{"delta":{"reasoning_content":"x","content":"a"}}]}"#,
            r#"{"choices":[{"delta":{"content":"b"}}]}"#,
            r#"{"choices":[{"delta":{"tool_calls":[{"index":0,"function":{"arguments":"}"}}]}}]}"#,
        ])
        .as_bytes(),
    ));
    assert_eq!(
        events(&all),
        strings(&[
            "response.created",
            "response.output_item.added",
            "response.function_call_arguments.delta",
            "response.function_call_arguments.delta",
        ])
    );
    all.extend(read(s.finish()));
    assert_eq!(written(&all), vec![0, 1, 2]);
    let output = &all[all.len() - 1].1["response"]["output"];
    assert_eq!(output.as_array().unwrap().len(), 3);
    assert_eq!(output[0]["name"], value(r#""f""#));
    assert_eq!(output[0]["call_id"], value(r#""k""#));
    assert_eq!(output[0]["arguments"], value(r#""{}""#));
    assert_eq!(output[1]["summary"][0]["text"], value(r#""x""#));
    assert_eq!(output[2]["content"][0]["text"], value(r#""ab""#));
}

#[test]
fn arguments_wait_for_the_name_of_their_call() {
    let mut s = ResponsesStream::new("m", &json("{}"), &ToolPlan::none());
    let early = read(s.push(
        lines(&[r#"{"choices":[{"delta":{"tool_calls":[{"function":{"arguments":"{"}}]}}]}"#]).as_bytes(),
    ));
    assert_eq!(events(&early), strings(&["response.created"]));
    let named = read(s.push(
        lines(&[r#"{"choices":[{"delta":{"tool_calls":[{"function":{"name":"f","arguments":"}"}}]}}]}"#]).as_bytes(),
    ));
    assert_eq!(
        events(&named),
        strings(&["response.output_item.added", "response.function_call_arguments.delta"])
    );
    assert_eq!(named[1].1["delta"], value(r#""{}""#));
    let mut nameless = ResponsesStream::new("m", &json("{}"), &ToolPlan::none());
    let mut all = read(nameless.push(
        lines(&[r#"{"choices":[{"delta":{"tool_calls":[{"id":"k"}]}}]}"#, "[DONE]"]).as_bytes(),
    ));
    assert_eq!(
        events(&all),
        strings(&["response.created", "response.output_item.done", "response.completed"])
    );
    assert_eq!(all.remove(1).1["item"]["name"], value(r#""unknown""#));
}

#[test]
fn an_answer_without_calls_has_a_message() {
    let chat = json(r#"{"choices":[{"message":{"content":null,"tool_calls":[]}}]}"#);
    let got =
        to_value(&responses_from_chat_with(&chat, "m", &json("{}"), &ToolPlan::none(), &fresh(), 7));
    assert_eq!(got["output"][0]["type"], value(r#""message""#));
    assert_eq!(got["output"][0]["content"][0]["text"], value(r#""""#));
}
