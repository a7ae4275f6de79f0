//! The Anthropic API in terms of the OpenAI API.
use sovereign_engine::api::anthropic::{
    content_has_tool_result, content_has_tool_use, content_to_string, extract_usage,
    make_read_tool_use, make_text_block,
    system_to_string, translate_openai_response, translate_openai_response_with,
    translate_request, translate_stop_reason, AnthropicMessage, AnthropicMetadata,
    AnthropicRequest, AnthropicResponse, AnthropicTool, AnthropicUsage, OpenAIChoice,
    OpenAIMessage, OpenAIResponse, OpenAIToolCall, OpenAIToolCallFunction, OpenAIUsage,
};
use sovereign_engine::api::gateway::Refusal;
use sovereign_engine::api::messages::{
    completed_reply, error_response, invalid_request, open_stream, refusal_reply,
    stream_usage_due, CompletedCall,
};
use sovereign_engine::api::stream::sse_event;
use sovereign_engine::ids::{generate_message_id, generate_tool_use_id};
use sovereign_engine::json::{parse, to_record_text, to_text, Json};

fn json(text: &str) -> Json {
    parse(text).expect("JSON")
}

fn value(j: &Json) -> serde_json::Value {
    serde_json::from_str(&to_text(j)).expect("JSON")
}

#[test]
fn system_string_passthrough() {
    let val = json(r#""You are helpful""#);
    assert_eq!(system_to_string(&val), "You are helpful");
}

#[test]
fn system_array_of_text_blocks() {
    let val = json(r#"[
        {"type": "text", "text": "First."},
        {"type": "text", "text": "Second."}
    ]"#);
    assert_eq!(system_to_string(&val), "First.\nSecond.");
}

#[test]
fn system_null_returns_empty() {
    assert_eq!(system_to_string(&Json::Null), "");
}

#[test]
fn content_plain_string() {
    let val = json(r#""hello""#);
    assert_eq!(content_to_string(&val), "hello");
}

#[test]
fn content_array_text_blocks() {
    let val = json(r#"[
        {"type": "text", "text": "foo"},
        {"type": "image", "source": {}},
        {"type": "text", "text": "bar"}
    ]"#);
    assert_eq!(content_to_string(&val), "foobar");
}

#[test]
fn detect_tool_use_in_content() {
    let val = json(r#"[
        {"type": "text", "text": "thinking..."},
        {"type": "tool_use", "id": "t1", "name": "fn", "input": {}}
    ]"#);
    assert!(content_has_tool_use(&val));
    assert!(!content_has_tool_result(&val));
}

#[test]
fn detect_tool_result_in_content() {
    let val = json(r#"[
        {"type": "tool_result", "tool_use_id": "t1", "content": "ok"}
    ]"#);
    assert!(!content_has_tool_use(&val));
    assert!(content_has_tool_result(&val));
}

#[test]
fn plain_string_has_no_tool_blocks() {
    let val = json(r#""just text""#);
    assert!(!content_has_tool_use(&val));
    assert!(!content_has_tool_result(&val));
}

#[test]
fn stop_reason_mapping() {
    assert_eq!(translate_stop_reason(Some("stop")), "end_turn");
    assert_eq!(translate_stop_reason(Some("length")), "max_tokens");
    assert_eq!(translate_stop_reason(Some("tool_calls")), "tool_use");
    assert_eq!(translate_stop_reason(None), "end_turn");
    assert_eq!(translate_stop_reason(Some("other")), "other");
}

#[test]
fn message_id_format() {
    let id = generate_message_id();
    assert!(id.starts_with("msg_"), "expected msg_ prefix, got: {}", id);
    assert_eq!(id.len(), 4 + 24);
}

#[test]
fn tool_use_id_format() {
    let id = generate_tool_use_id();
    assert!(
        id.starts_with("toolu_"),
        "expected toolu_ prefix, got: {}",
        id
    );
}

#[test]
fn translate_basic_request() {
    let req = AnthropicRequest {
        model: "llama3.1:8b".to_string(),
        max_tokens: 256,
        messages: vec![AnthropicMessage {
            role: "user".to_string(),
            content: json(r#""Hello""#),
        }],
        system: Some(json(r#""Be concise.""#)),
        stream: false,
        temperature: Some("0.5".to_string()),
        top_p: None,
        stop_sequences: None,
        metadata: None,
        tools: None,
    };

    let openai = value(&translate_request(&req));

    assert_eq!(openai["model"], "llama3.1:8b");
    assert_eq!(openai["max_tokens"], 256);
    assert_eq!(openai["temperature"], 0.5);
    assert_eq!(openai["stream"], false);

    let msgs = openai["messages"].as_array().unwrap();
    assert_eq!(msgs.len(), 2);
    assert_eq!(msgs[0]["role"], "system");
    assert_eq!(msgs[0]["content"], "Be concise.");
    assert_eq!(msgs[1]["role"], "user");
    assert_eq!(msgs[1]["content"], "Hello");
}

#[test]
fn translate_request_with_tools() {
    let req = AnthropicRequest {
        model: "test".to_string(),
        max_tokens: 100,
        messages: vec![AnthropicMessage {
            role: "user".to_string(),
            content: json(r#""What's the weather?""#),
        }],
        system: None,
        stream: false,
        temperature: None,
        top_p: None,
        stop_sequences: None,
        metadata: None,
        tools: Some(vec![AnthropicTool {
            name: "get_weather".to_string(),
            description: Some("Get weather".to_string()),
            input_schema: Some(json(r#"{
                "type": "object",
                "properties": {"location": {"type": "string"}}
            }"#)),
        }]),
    };

    let openai = value(&translate_request(&req));
    let tools = openai["tools"].as_array().unwrap();
    assert_eq!(tools.len(), 1);
    assert_eq!(tools[0]["type"], "function");
    assert_eq!(tools[0]["function"]["name"], "get_weather");
    assert_eq!(tools[0]["function"]["description"], "Get weather");
    assert!(tools[0]["function"]["parameters"]["properties"]["location"].is_object());
}

#[test]
fn translate_request_streaming_includes_usage_option() {
    let req = AnthropicRequest {
        model: "test".to_string(),
        max_tokens: 100,
        messages: vec![],
        system: None,
        stream: true,
        temperature: None,
        top_p: None,
        stop_sequences: None,
        metadata: None,
        tools: None,
    };

    let openai = value(&translate_request(&req));
    assert_eq!(openai["stream"], true);
    assert_eq!(openai["stream_options"]["include_usage"], true);
}

#[test]
fn translate_assistant_tool_use_message() {
    let req = AnthropicRequest {
        model: "test".to_string(),
        max_tokens: 100,
        messages: vec![
            AnthropicMessage {
                role: "user".to_string(),
                content: json(r#""What's the weather in SF?""#),
            },
            AnthropicMessage {
                role: "assistant".to_string(),
                content: json(r#"[
                    {"type": "text", "text": "Let me check."},
                    {"type": "tool_use", "id": "toolu_abc", "name": "get_weather", "input": {"location": "SF"}}
                ]"#),
            },
            AnthropicMessage {
                role: "user".to_string(),
                content: json(r#"[
                    {"type": "tool_result", "tool_use_id": "toolu_abc", "content": "72F sunny"}
                ]"#),
            },
        ],
        system: None,
        stream: false,
        temperature: None,
        top_p: None,
        stop_sequences: None,
        metadata: None,
        tools: None,
    };

    let openai = value(&translate_request(&req));
    let msgs = openai["messages"].as_array().unwrap();

    assert_eq!(msgs[0]["role"], "user");

    assert_eq!(msgs[1]["role"], "assistant");
    assert_eq!(msgs[1]["content"], "Let me check.");
    let tool_calls = msgs[1]["tool_calls"].as_array().unwrap();
    assert_eq!(tool_calls.len(), 1);
    assert_eq!(tool_calls[0]["id"], "toolu_abc");
    assert_eq!(tool_calls[0]["type"], "function");
    assert_eq!(tool_calls[0]["function"]["name"], "get_weather");

    assert_eq!(msgs[2]["role"], "tool");
    assert_eq!(msgs[2]["tool_call_id"], "toolu_abc");
    assert_eq!(msgs[2]["content"], "72F sunny");
}

#[test]
fn translate_simple_response() {
    let openai_resp = OpenAIResponse {
        choices: Some(vec![OpenAIChoice {
            message: Some(OpenAIMessage {
                content: Some("Hello!".to_string()),
                tool_calls: None,
            }),
            finish_reason: Some("stop".to_string()),
        }]),
        usage: Some(OpenAIUsage {
            prompt_tokens: Some(10),
            completion_tokens: Some(5),
        }),
    };

    let resp = translate_openai_response(&openai_resp, "llama3.1:8b");
    assert_eq!(resp.response_type, "message");
    assert_eq!(resp.role, "assistant");
    assert_eq!(resp.model, "llama3.1:8b");
    assert_eq!(resp.stop_reason.as_deref(), Some("end_turn"));
    assert_eq!(resp.usage.input_tokens, 10);
    assert_eq!(resp.usage.output_tokens, 5);

    assert_eq!(resp.content.len(), 1);
    let block = value(&resp.content[0]);
    assert_eq!(block["type"], "text");
    assert_eq!(block["text"], "Hello!");
}

#[test]
fn translate_response_with_tool_calls() {
    let openai_resp = OpenAIResponse {
        choices: Some(vec![OpenAIChoice {
            message: Some(OpenAIMessage {
                content: None,
                tool_calls: Some(vec![OpenAIToolCall {
                    id: Some("call_123".to_string()),
                    function: Some(OpenAIToolCallFunction {
                        name: Some("get_weather".to_string()),
                        arguments: Some("{\"location\":\"SF\"}".to_string()),
                    }),
                }]),
            }),
            finish_reason: Some("tool_calls".to_string()),
        }]),
        usage: Some(OpenAIUsage {
            prompt_tokens: Some(20),
            completion_tokens: Some(10),
        }),
    };

    let resp = translate_openai_response(&openai_resp, "test");
    assert_eq!(resp.stop_reason.as_deref(), Some("tool_use"));
    assert_eq!(resp.content.len(), 1);
    let block = value(&resp.content[0]);
    assert_eq!(block["type"], "tool_use");
    assert_eq!(block["name"], "get_weather");
    assert_eq!(block["input"]["location"], "SF");
}

#[test]
fn translate_empty_response_gets_empty_text_block() {
    let openai_resp = OpenAIResponse {
        choices: Some(vec![OpenAIChoice {
            message: Some(OpenAIMessage {
                content: Some(String::new()),
                tool_calls: None,
            }),
            finish_reason: Some("stop".to_string()),
        }]),
        usage: None,
    };

    let resp = translate_openai_response(&openai_resp, "test");
    assert!(!resp.content.is_empty());
}

#[test]
fn sse_event_format() {
    let data = json(r#"{"type": "ping"}"#);
    let output = sse_event("ping", &data);
    assert!(output.starts_with("event: ping\n"));
    assert!(output.contains("data: "));
    assert!(output.ends_with("\n\n"));
}

#[test]
fn identifiers_are_fresh() {
    assert_ne!(generate_message_id(), generate_message_id());
    let id = generate_tool_use_id();
    assert_eq!(id.len(), 6 + 24);
    assert!(id[6..]
        .chars()
        .all(|c| c.is_ascii_digit() || ('a'..='f').contains(&c)));
}

#[test]
fn tool_results_and_text_of_a_user_message_stay_in_order() {
    let req = AnthropicRequest {
        model: "test".to_string(),
        max_tokens: 1,
        messages: vec![AnthropicMessage {
            role: "user".to_string(),
            content: json(
                r#"[{"type":"tool_result","tool_use_id":"a","content":[{"type":"text","text":"r"}]},
                    {"type":"text","text":"and then"}]"#,
            ),
        }],
        system: None,
        stream: false,
        temperature: None,
        top_p: Some("0.25".to_string()),
        stop_sequences: Some(vec!["END".to_string()]),
        metadata: Some(AnthropicMetadata {
            user_id: Some("u".to_string()),
        }),
        tools: None,
    };
    let openai = value(&translate_request(&req));
    let msgs = openai["messages"].as_array().unwrap();
    assert_eq!(msgs[0]["role"], "tool");
    assert_eq!(msgs[0]["content"], "r");
    assert_eq!(msgs[1]["role"], "user");
    assert_eq!(msgs[1]["content"], "and then");
    assert_eq!(openai["top_p"], 0.25);
    assert_eq!(openai["stop"][0], "END");
}

#[test]
fn responses_use_the_given_identifiers() {
    let call = |id: Option<&str>| OpenAIToolCall {
        id: id.map(String::from),
        function: Some(OpenAIToolCallFunction {
            name: Some("f".to_string()),
            arguments: Some("not json".to_string()),
        }),
    };
    let resp = OpenAIResponse {
        choices: Some(vec![OpenAIChoice {
            message: Some(OpenAIMessage {
                content: Some("x".to_string()),
                tool_calls: Some(vec![call(None), call(Some("given"))]),
            }),
            finish_reason: None,
        }]),
        usage: None,
    };
    let r = translate_openai_response_with(
        &resp,
        "m",
        "msg_1".to_string(),
        &vec!["fresh".to_string(), "given".to_string()],
    );
    assert_eq!(r.id, "msg_1");
    assert_eq!(r.content.len(), 3);
    let first = value(&r.content[1]);
    assert_eq!(first["id"], "fresh");
    assert_eq!(first["input"], value(&json("{}")));
    assert_eq!(value(&r.content[2])["id"], "given");
    let r = translate_openai_response(&resp, "m");
    let first = value(&r.content[1]);
    assert!(first["id"].as_str().unwrap().starts_with("toolu_"));
    assert_eq!(value(&r.content[2])["id"], "given");
    assert_eq!(extract_usage(Some(&resp)), (0, 0));
    assert_eq!(extract_usage(None), (0, 0));
}

#[test]
fn errors_have_the_api_s_shape() {
    let r = error_response(418, "kind", "text");
    assert_eq!(r.status, 418);
    assert_eq!(
        value(&r.body),
        value(&json(
            r#"{"type":"error","error":{"type":"kind","message":"text"}}"#
        ))
    );
    assert_eq!(
        r.text(),
        r#"{"type":"error","error":{"type":"kind","message":"text"}}"#
    );
    assert_eq!(invalid_request("why").status, 400);
}

#[test]
fn refusals_have_their_statuses() {
    let busy = refusal_reply(&Refusal::Busy {
        retry_after_secs: 5,
    });
    assert_eq!(busy.status, 429);
    assert_eq!(value(&busy.body)["error"]["type"], "rate_limit_error");
    let missing = refusal_reply(&Refusal::ModelNotFound {
        model: "m".to_string(),
    });
    assert_eq!(missing.status, 404);
    let reserved = refusal_reply(&Refusal::Reserved);
    assert_eq!(value(&reserved.body)["type"], "error");
}

#[test]
fn completed_calls() {
    assert_eq!(completed_reply(&CompletedCall::NoBody, "m").status, 502);
    assert_eq!(completed_reply(&CompletedCall::Unreadable, "m").status, 502);
    let answer = CompletedCall::Answer(OpenAIResponse {
        choices: None,
        usage: Some(OpenAIUsage {
            prompt_tokens: Some(3),
            completion_tokens: None,
        }),
    });
    let r = completed_reply(&answer, "m");
    assert_eq!(r.status, 200);
    let body = value(&r.body);
    assert_eq!(body["model"], "m");
    assert_eq!(body["usage"]["input_tokens"], 3);
    assert_eq!(body["usage"]["output_tokens"], 0);
    let text = r.text();
    let keys = ["\"id\"", "\"type\"", "\"role\"", "\"content\"", "\"model\"", "\"stop_reason\""];
    let places: Vec<usize> = keys.iter().map(|k| text.find(k).expect("key")).collect();
    assert!(places.windows(2).all(|w| w[0] < w[1]), "{text}");
    assert!(
        text.ends_with(r#""stop_sequence":null,"usage":{"input_tokens":3,"output_tokens":0}}"#),
        "{text}"
    );
}

#[test]
fn values_inside_a_response_have_their_keys_in_order() {
    let response = AnthropicResponse {
        id: "msg_1".to_string(),
        response_type: "message",
        role: "assistant",
        content: vec![json(r#"{"type":"text","text":"hi"}"#)],
        model: "m".to_string(),
        stop_reason: Some("end_turn".to_string()),
        stop_sequence: None,
        usage: AnthropicUsage {
            input_tokens: 1,
            output_tokens: 2,
        },
    };
    assert_eq!(
        to_record_text(&response.to_value()),
        [
            r#"{"id":"msg_1","type":"message","role":"assistant","#,
            r#""content":[{"text":"hi","type":"text"}],"model":"m","stop_reason":"end_turn","#,
            r#""stop_sequence":null,"usage":{"input_tokens":1,"output_tokens":2}}"#,
        ]
        .concat()
    );
}

#[test]
fn streams_open_only_on_success() {
    assert!(open_stream(Some(200), None).is_none());
    assert!(open_stream(Some(503), Some("busy")).is_some());
    assert!(open_stream(None, None).is_some());
}

#[test]
fn stream_usage_is_recorded_once_known_or_late() {
    assert!(!stream_usage_due((0, 0), false));
    assert!(stream_usage_due((0, 0), true));
    assert!(stream_usage_due((1, 0), false));
    assert!(stream_usage_due((0, 1), false));
}

#[test]
fn content_blocks() {
    same(&make_text_block("t"), r#"{"type":"text","text":"t"}"#);
    let call = OpenAIToolCall {
        id: None,
        function: Some(OpenAIToolCallFunction {
            name: Some("f".to_string()),
            arguments: None,
        }),
    };
    same(
        &make_read_tool_use(&call, "i", Some(json(r#"{"a":1}"#))),
        r#"{"type":"tool_use","id":"i","name":"f","input":{"a":1}}"#,
    );
    same(
        &make_read_tool_use(&call, "i", None),
        r#"{"type":"tool_use","id":"i","name":"f","input":{}}"#,
    );
}

fn same(j: &Json, text: &str) {
    assert_eq!(to_text(j), to_text(&json(text)));
}
