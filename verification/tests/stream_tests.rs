use gradbot::sse::{CompletionStream, StreamChoice, StreamChunk, StreamDelta, StreamFunction, StreamToolCall};
use gradbot::llm::ToolCallStatus;

fn text_chunk(t: &str) -> StreamChunk {
    StreamChunk {
        choices: vec![StreamChoice { delta: StreamDelta { content: Some(t.to_string()), tool_calls: None } }],
    }
}

fn frag(index: u32, id: Option<&str>, name: Option<&str>, args: Option<&str>) -> StreamToolCall {
    StreamToolCall {
        index,
        id: id.map(|s| s.to_string()),
        function: Some(StreamFunction {
            name: name.map(|s| s.to_string()),
            arguments: args.map(|s| s.to_string()),
        }),
    }
}

#[test]
fn feed_splits_lines_across_pieces() {
    let mut st = CompletionStream::new();
    assert!(st.feed("data: {\"a\"").is_empty());
    let p = st.feed(":1}\r\n\n: comment\nevent: x\ndata:   {\"b\":2}  \ndata: partial");
    assert_eq!(p, vec!["{\"a\":1}".to_string(), "{\"b\":2}".to_string()]);
    let p = st.feed("\n");
    assert_eq!(p, vec!["partial".to_string()]);
}

#[test]
fn done_stops_the_scan_of_what_arrived() {
    let mut st = CompletionStream::new();
    let p = st.feed("data: one\ndata: [DONE]\ndata: two\n");
    assert_eq!(p, vec!["one".to_string()]);
    // What followed [DONE] is scanned with the next piece.
    let p = st.feed("");
    assert_eq!(p, vec!["two".to_string()]);
}

#[test]
fn visible_texts_skip_channel_markers() {
    let mut st = CompletionStream::new();
    assert_eq!(st.on_chunk(&text_chunk("Hi")), vec!["Hi".to_string()]);
    assert!(st.on_chunk(&text_chunk("")).is_empty());
    assert!(st.on_chunk(&text_chunk("<|channel>thought")).is_empty());
    assert!(st.on_chunk(&text_chunk("<channel|>")).is_empty());
    assert_eq!(st.on_chunk(&text_chunk("<b>")), vec!["<b>".to_string()]);
}

#[test]
fn tool_calls_are_assembled_from_fragments() {
    let mut st = CompletionStream::new();
    let chunk = StreamChunk {
        choices: vec![StreamChoice {
            delta: StreamDelta {
                content: None,
                tool_calls: Some(vec![
                    frag(1, Some("call_"), Some("get_"), Some("{\"ci")),
                    frag(0, None, None, Some("oops")),
                ]),
            },
        }],
    };
    assert!(st.on_chunk(&chunk).is_empty());
    let chunk = StreamChunk {
        choices: vec![StreamChoice {
            delta: StreamDelta {
                content: Some("ok".to_string()),
                tool_calls: Some(vec![frag(1, Some("9"), Some("weather"), Some("ty\":\"Paris\"}"))]),
            },
        }],
    };
    assert_eq!(st.on_chunk(&chunk), vec!["ok".to_string()]);
    let calls = st.finish();
    // Index 0 has no id nor name and is dropped.
    assert_eq!(calls.len(), 1);
    let (call, pending) = &calls[0];
    assert_eq!(call.call_id, "call_9");
    assert_eq!(call.tool_name, "get_weather");
    assert_eq!(call.args["city"], "Paris");
    assert_eq!(pending.call_id, "call_9");
    assert_eq!(pending.arguments, "{\"city\":\"Paris\"}");
    assert_eq!(pending.status, ToolCallStatus::New);
}

#[test]
fn malformed_arguments_become_empty_object() {
    let mut st = CompletionStream::new();
    let chunk = StreamChunk {
        choices: vec![StreamChoice {
            delta: StreamDelta {
                content: None,
                tool_calls: Some(vec![frag(3, Some("id"), Some("t"), Some("{not json"))]),
            },
        }],
    };
    st.on_chunk(&chunk);
    let calls = st.finish();
    assert_eq!(calls.len(), 1);
    assert_eq!(calls[0].0.args, serde_json::Value::Object(serde_json::Map::new()));
    assert_eq!(calls[0].1.arguments, "{}");
}

#[test]
fn feeding_in_pieces_matches_feeding_at_once() {
    let body = "data: {\"x\":1}\r\n: keep-alive\ndata: {\"y\":2}\ndata: tail";
    let mut whole = CompletionStream::new();
    let at_once = whole.feed(body);
    let tail_at_once = whole.feed("\n");
    assert_eq!(tail_at_once, vec!["tail".to_string()]);
    for split in 0..body.len() {
        if !body.is_char_boundary(split) {
            continue;
        }
        let mut pieces = CompletionStream::new();
        let mut got = pieces.feed(&body[..split]);
        got.extend(pieces.feed(&body[split..]));
        assert_eq!(got, at_once, "split at {split}");
        assert_eq!(pieces.feed("\n"), tail_at_once, "split at {split}");
    }
}
