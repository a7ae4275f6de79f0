//! Translating a backend's stream.
use sovereign_engine::api::anthropic::OpenAIUsage;
use sovereign_engine::api::stream::{
    data_of_line, OpenAIStreamChoice, OpenAIStreamChunk, OpenAIStreamDelta,
    OpenAIStreamToolCallDelta, OpenAIStreamToolCallFunction, StreamEvent, StreamTranslator,
};
use sovereign_engine::json::{parse, to_text};

fn chunk(delta: Option<OpenAIStreamDelta>, finish_reason: Option<&str>) -> OpenAIStreamChunk {
    OpenAIStreamChunk {
        choices: Some(vec![OpenAIStreamChoice {
            delta,
            finish_reason: finish_reason.map(String::from),
        }]),
        usage: None,
    }
}

fn text(content: &str) -> OpenAIStreamChunk {
    chunk(
        Some(OpenAIStreamDelta {
            content: Some(content.to_string()),
            tool_calls: None,
        }),
        None,
    )
}

fn tool(
    index: usize,
    id: Option<&str>,
    name: Option<&str>,
    arguments: Option<&str>,
) -> OpenAIStreamChunk {
    chunk(
        Some(OpenAIStreamDelta {
            content: None,
            tool_calls: Some(vec![OpenAIStreamToolCallDelta {
                index: Some(index),
                id: id.map(String::from),
                function: Some(OpenAIStreamToolCallFunction {
                    name: name.map(String::from),
                    arguments: arguments.map(String::from),
                }),
            }]),
        }),
        None,
    )
}

#[test]
fn text_then_tool_call() {
    let mut t = StreamTranslator::new();
    assert_eq!(
        t.start("msg_1", "m"),
        vec![
            StreamEvent::MessageStart {
                id: "msg_1".to_string(),
                model: "m".to_string()
            },
            StreamEvent::Ping
        ]
    );
    assert_eq!(
        t.apply(&text("Hel")),
        vec![
            StreamEvent::TextStart { index: 0 },
            StreamEvent::TextDelta {
                index: 0,
                text: "Hel".to_string()
            }
        ]
    );
    assert_eq!(
        t.apply(&text("lo")),
        vec![StreamEvent::TextDelta {
            index: 0,
            text: "lo".to_string()
        }]
    );
    assert_eq!(t.apply(&text("")), vec![]);
    assert_eq!(
        t.apply(&tool(0, Some("call_1"), Some("f"), Some("{\"a\""))),
        vec![
            StreamEvent::BlockStop { index: 0 },
            StreamEvent::ToolStart {
                index: 1,
                id: "call_1".to_string(),
                name: "f".to_string()
            },
            StreamEvent::InputDelta {
                index: 1,
                partial_json: "{\"a\"".to_string()
            }
        ]
    );
    assert_eq!(
        t.apply(&tool(0, None, None, Some(":1}"))),
        vec![StreamEvent::InputDelta {
            index: 1,
            partial_json: ":1}".to_string()
        }]
    );
    assert_eq!(t.apply(&chunk(None, Some("tool_calls"))), vec![]);
    t.apply(&OpenAIStreamChunk {
        choices: None,
        usage: Some(OpenAIUsage {
            prompt_tokens: Some(7),
            completion_tokens: Some(9),
        }),
    });
    assert_eq!(t.usage(), (7, 9));
    assert_eq!(
        t.finish(),
        vec![
            StreamEvent::BlockStop { index: 1 },
            StreamEvent::MessageDelta {
                stop_reason: "tool_use".to_string(),
                output_tokens: 9
            },
            StreamEvent::MessageStop
        ]
    );
}

#[test]
fn calls_without_an_identifier_get_one() {
    let mut t = StreamTranslator::new();
    let events = t.apply(&tool(0, None, Some("f"), None));
    match &events[0] {
        StreamEvent::ToolStart { index, id, name } => {
            assert_eq!(*index, 0);
            assert!(id.starts_with("toolu_"));
            assert_eq!(id.len(), 6 + 24);
            assert_eq!(name, "f");
        }
        other => panic!("{other:?}"),
    }
}

#[test]
fn empty_streams_have_an_empty_block() {
    let t = StreamTranslator::new();
    assert_eq!(
        t.finish(),
        vec![
            StreamEvent::TextStart { index: 0 },
            StreamEvent::BlockStop { index: 0 },
            StreamEvent::MessageDelta {
                stop_reason: "end_turn".to_string(),
                output_tokens: 0
            },
            StreamEvent::MessageStop
        ]
    );
}

#[test]
fn every_started_block_is_closed() {
    let mut t = StreamTranslator::new();
    let mut events = Vec::new();
    events.extend(t.apply(&text("a")));
    events.extend(t.apply(&tool(0, Some("x"), Some("f"), None)));
    events.extend(t.apply(&text("b")));
    events.extend(t.apply(&tool(1, Some("y"), Some("g"), Some("{}"))));
    events.extend(t.finish());
    for k in 0..4u128 {
        let starts = events
            .iter()
            .filter(|e| match e {
                StreamEvent::TextStart { index } => *index == k,
                StreamEvent::ToolStart { index, .. } => *index == k,
                _ => false,
            })
            .count();
        let stops = events
            .iter()
            .filter(|e| **e == StreamEvent::BlockStop { index: k })
            .count();
        assert_eq!((starts, stops), (1, 1));
    }
}

#[test]
fn lines_are_put_together_from_pieces() {
    let mut t = StreamTranslator::new();
    assert!(t.feed(b"data: {\"a\"").is_empty());
    assert_eq!(
        t.feed(b":1}\r\n\n: comment\ndata: x\ndata: [DONE]\ndata: y"),
        vec!["{\"a\":1}", "x"]
    );
    assert_eq!(t.feed(b"z\n"), vec!["yz"]);
}

#[test]
fn bytes_that_are_no_text_are_replaced() {
    let mut t = StreamTranslator::new();
    assert_eq!(t.feed(b"data: a\xffb\n"), vec!["a\u{fffd}b"]);
}

#[test]
fn data_of_a_line() {
    assert_eq!(data_of_line("  data: v ").as_deref(), Some("v"));
    assert_eq!(data_of_line("data: [DONE]"), None);
    assert_eq!(data_of_line("event: ping"), None);
}

#[test]
fn events_are_sent_with_their_type() {
    let sent = StreamEvent::TextDelta {
        index: 3,
        text: "hi".to_string(),
    }
    .to_sse();
    assert_eq!(
        sent,
        "event: content_block_delta\ndata: \
         {\"delta\":{\"text\":\"hi\",\"type\":\"text_delta\"},\"index\":3,\
         \"type\":\"content_block_delta\"}\n\n"
    );
    let delta = StreamEvent::MessageDelta {
        stop_reason: "end_turn".to_string(),
        output_tokens: 4,
    };
    assert_eq!(
        to_text(&delta.data()),
        to_text(
            &parse(
                r#"{"type":"message_delta","delta":{"stop_reason":"end_turn","stop_sequence":null},
                    "usage":{"output_tokens":4}}"#
            )
            .unwrap()
        )
    );
    assert_eq!(StreamEvent::Ping.name(), "ping");
    assert_eq!(StreamEvent::MessageStop.name(), "message_stop");
}

#[test]
fn pieces_do_not_matter() {
    let text = "data: one\n\ndata: two\ndata: thr";
    let mut whole = StreamTranslator::new();
    let at_once = whole.feed_text(text);
    for cut in 0..=text.len() {
        let mut t = StreamTranslator::new();
        let mut got = t.feed_text(&text[..cut]);
        got.extend(t.feed_text(&text[cut..]));
        assert_eq!(got, at_once);
        assert_eq!(t.feed_text("ee\n"), vec!["three"]);
    }
}

#[test]
fn arguments_are_preserved() {
    let mut t = StreamTranslator::new();
    let mut events = Vec::new();
    events.extend(t.apply(&tool(0, Some("x"), Some("f"), Some("{\"a"))));
    events.extend(t.apply(&tool(1, Some("y"), Some("g"), None)));
    events.extend(t.apply(&tool(1, None, None, Some("[1,"))));
    events.extend(t.apply(&tool(0, None, None, Some("\":2}"))));
    events.extend(t.apply(&text("said in between")));
    events.extend(t.apply(&tool(1, None, None, Some("2]"))));
    let input = |block: u128| -> String {
        events
            .iter()
            .filter_map(|e| match e {
                StreamEvent::InputDelta {
                    index,
                    partial_json,
                } if *index == block => Some(partial_json.as_str()),
                _ => None,
            })
            .collect()
    };
    assert_eq!(input(0), "{\"a\":2}");
    assert_eq!(input(1), "[1,2]");
}
