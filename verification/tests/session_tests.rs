use std::sync::Arc;

use gradbot::llm::{
    has_new_tool_calls, tool_call_step, ChatMessage, Llm, LlmConfig, LlmSession, PendingToolCall,
    ToolCallObservation, ToolCallStatus, ToolDef, ToolOutcome,
};
use gradbot::voice::Lang;

fn pending(id: &str, status: ToolCallStatus) -> PendingToolCall {
    PendingToolCall {
        call_id: id.to_string(),
        tool_name: format!("tool_{id}"),
        arguments: "{\"x\":1}".to_string(),
        status,
    }
}

fn open_without_result() -> ToolCallObservation {
    ToolCallObservation { last_result: None, closed: false }
}

fn session() -> LlmSession {
    Llm::new(None, 256, "gpt".to_string(), "key".to_string()).session()
}

fn tool(name: &str) -> ToolDef {
    ToolDef {
        name: name.to_string(),
        description: format!("does {name}"),
        parameters: serde_json::from_str("{\"type\":\"object\"}").unwrap(),
    }
}

fn user_text(m: &ChatMessage) -> Option<&str> {
    match m {
        ChatMessage::User(t) => Some(t.as_str()),
        _ => None,
    }
}

#[test]
fn step_injects_results_with_error_prefix() {
    let ok = ToolCallObservation {
        last_result: Some(ToolOutcome::Value("{\"a\":2}".to_string())),
        closed: false,
    };
    let (content, status, retire) = tool_call_step(ToolCallStatus::Pending, &ok);
    assert_eq!(content.as_deref(), Some("{\"a\":2}"));
    assert_eq!(status, ToolCallStatus::AnsweredAtLeastOnce);
    assert!(!retire);

    let err = ToolCallObservation {
        last_result: Some(ToolOutcome::Error("boom".to_string())),
        closed: true,
    };
    let (content, status, retire) = tool_call_step(ToolCallStatus::New, &err);
    assert_eq!(content.as_deref(), Some("ERROR: boom"));
    assert_eq!(status, ToolCallStatus::AnsweredAtLeastOnce);
    assert!(retire);
}

#[test]
fn step_pending_once_then_silent() {
    let (content, status, retire) = tool_call_step(ToolCallStatus::New, &open_without_result());
    assert_eq!(content.as_deref(), Some("PENDING"));
    assert_eq!(status, ToolCallStatus::Pending);
    assert!(!retire);
    let (content, status, retire) = tool_call_step(ToolCallStatus::Pending, &open_without_result());
    assert_eq!(content, None);
    assert_eq!(status, ToolCallStatus::Pending);
    assert!(!retire);
}

#[test]
fn step_lost_only_when_never_answered() {
    let closed = ToolCallObservation { last_result: None, closed: true };
    let (content, _, retire) = tool_call_step(ToolCallStatus::Pending, &closed);
    assert_eq!(content.as_deref(), Some("LOST"));
    assert!(retire);
    let (content, status, retire) = tool_call_step(ToolCallStatus::AnsweredAtLeastOnce, &closed);
    assert_eq!(content, None);
    assert_eq!(status, ToolCallStatus::AnsweredAtLeastOnce);
    assert!(retire);
}

#[test]
fn new_calls_are_detected() {
    let calls = vec![pending("a", ToolCallStatus::Pending), pending("b", ToolCallStatus::New)];
    assert!(has_new_tool_calls(&calls));
    let calls = vec![pending("a", ToolCallStatus::Pending)];
    assert!(!has_new_tool_calls(&calls));
    assert!(!has_new_tool_calls(&vec![]));
}

#[test]
fn process_injects_and_retires() {
    let mut s = session();
    let mut calls = vec![
        pending("a", ToolCallStatus::New),
        pending("b", ToolCallStatus::Pending),
        pending("c", ToolCallStatus::AnsweredAtLeastOnce),
    ];
    let observed = vec![
        open_without_result(),
        ToolCallObservation {
            last_result: Some(ToolOutcome::Value("42".to_string())),
            closed: true,
        },
        ToolCallObservation { last_result: None, closed: true },
    ];
    let retired = s.process_pending_tool_calls(&mut calls, &observed);
    assert_eq!(retired, vec![1, 2]);
    assert_eq!(calls.len(), 1);
    assert_eq!(calls[0].call_id, "a");
    assert_eq!(calls[0].status, ToolCallStatus::Pending);
    let msgs = s.messages();
    assert_eq!(msgs.len(), 4);
    match &msgs[0] {
        ChatMessage::AssistantToolCall { call_id, tool_name, arguments } => {
            assert_eq!(call_id, "a");
            assert_eq!(tool_name, "tool_a");
            assert_eq!(arguments, "{\"x\":1}");
        }
        other => panic!("unexpected {other:?}"),
    }
    match &msgs[1] {
        ChatMessage::Tool { call_id, content } => {
            assert_eq!(call_id, "a");
            assert_eq!(content, "PENDING");
        }
        other => panic!("unexpected {other:?}"),
    }
    match &msgs[3] {
        ChatMessage::Tool { call_id, content } => {
            assert_eq!(call_id, "b");
            assert_eq!(content, "42");
        }
        other => panic!("unexpected {other:?}"),
    }
}

#[test]
fn push_sets_system_prompt_and_merges_user_text() {
    let mut s = session();
    let config = Arc::new(LlmConfig::new("be nice".to_string(), Lang::En, vec![]));
    let mut calls = vec![];
    let retired = s.push("hello", config.clone(), "SYSTEM A".to_string(), &mut calls, &vec![]);
    assert!(retired.is_empty());
    assert_eq!(s.messages().len(), 2);
    assert!(matches!(&s.messages()[0], ChatMessage::System(p) if p == "SYSTEM A"));
    assert_eq!(user_text(&s.messages()[1]), Some("hello"));

    // Same configuration: the prompt stays, the user text is appended.
    s.push("again", config.clone(), "SYSTEM B".to_string(), &mut calls, &vec![]);
    assert_eq!(s.messages().len(), 2);
    assert!(matches!(&s.messages()[0], ChatMessage::System(p) if p == "SYSTEM A"));
    assert_eq!(user_text(&s.messages()[1]), Some("hello again"));

    // A new configuration replaces the system prompt in place.
    let other = Arc::new(LlmConfig::new("be brief".to_string(), Lang::Fr, vec![]));
    s.push("bye", other, "SYSTEM C".to_string(), &mut calls, &vec![]);
    assert_eq!(s.messages().len(), 2);
    assert!(matches!(&s.messages()[0], ChatMessage::System(p) if p == "SYSTEM C"));
    assert_eq!(user_text(&s.messages()[1]), Some("hello again bye"));
}

#[test]
fn push_after_tool_call_starts_new_user_message() {
    let mut s = session();
    let config = Arc::new(LlmConfig::new("p".to_string(), Lang::En, vec![]));
    let mut calls = vec![];
    s.push("first", config.clone(), "SYS".to_string(), &mut calls, &vec![]);
    let mut calls = vec![pending("t", ToolCallStatus::New)];
    let retired = s.push(
        "second",
        config,
        "SYS".to_string(),
        &mut calls,
        &vec![open_without_result()],
    );
    assert!(retired.is_empty());
    assert_eq!(calls[0].status, ToolCallStatus::Pending);
    let msgs = s.messages();
    assert_eq!(msgs.len(), 5);
    assert!(matches!(&msgs[2], ChatMessage::AssistantToolCall { .. }));
    assert!(matches!(&msgs[3], ChatMessage::Tool { content, .. } if content == "PENDING"));
    assert_eq!(user_text(&msgs[4]), Some("second"));
}

#[test]
fn incorporate_joins_and_strips() {
    let mut s = session();
    assert_eq!(s.incorporate_previous_generation(vec![]), None);
    assert_eq!(
        s.incorporate_previous_generation(vec!["<|channel>".to_string(), "  ".to_string()]),
        None
    );
    assert!(s.messages().is_empty());
    let r = s.incorporate_previous_generation(vec![
        "Hello".to_string(),
        "there<channel|>".to_string(),
        "friend".to_string(),
    ]);
    assert_eq!(r.as_deref(), Some("Hello there friend"));
    assert!(matches!(&s.messages()[0], ChatMessage::Assistant(t) if t == "Hello there friend"));
}

#[test]
fn maybe_update_keeps_equal_configs() {
    let existing = Arc::new(LlmConfig::new(
        "prompt".to_string(),
        Lang::De,
        vec![tool("a"), tool("b")],
    ));
    let same = LlmConfig::maybe_update(&existing, "prompt", Lang::De, vec![tool("a"), tool("b")]);
    assert!(Arc::ptr_eq(&same, &existing));

    let renamed = LlmConfig::maybe_update(&existing, "prompt", Lang::De, vec![tool("a"), tool("c")]);
    assert!(!Arc::ptr_eq(&renamed, &existing));
    assert_eq!(renamed.tools[1].name, "c");

    let other_lang = LlmConfig::maybe_update(&existing, "prompt", Lang::Es, vec![tool("a"), tool("b")]);
    assert!(!Arc::ptr_eq(&other_lang, &existing));
    assert_eq!(other_lang.language, Lang::Es);

    let other_prompt = LlmConfig::maybe_update(&existing, "new", Lang::De, vec![tool("a"), tool("b")]);
    assert_eq!(other_prompt.user_prompt, "new");

    let fewer = LlmConfig::maybe_update(&existing, "prompt", Lang::De, vec![tool("a")]);
    assert!(!Arc::ptr_eq(&fewer, &existing));
}

#[test]
fn session_starts_empty_with_client_settings() {
    let llm = Llm::new(Some("http://localhost:1234/v1/".to_string()), 99, "m".to_string(), "k".to_string());
    assert_eq!(llm.completions_url(), "http://localhost:1234/v1//chat/completions");
    assert_eq!(llm.api_key(), "k");
    let s = llm.session();
    assert!(s.messages().is_empty());
    assert_eq!(s.model_name(), "m");
    assert_eq!(s.max_completion_tokens(), 99);
    let default = Llm::new(None, 1, "m".to_string(), String::new());
    assert_eq!(default.completions_url(), "https://api.openai.com/v1/chat/completions");
}

#[test]
fn maybe_update_sees_changed_descriptions_and_parameters() {
    let existing = Arc::new(LlmConfig::new("prompt".to_string(), Lang::En, vec![tool("a")]));

    let mut described = tool("a");
    described.description = "does something else".to_string();
    let redescribed = LlmConfig::maybe_update(&existing, "prompt", Lang::En, vec![described]);
    assert!(!Arc::ptr_eq(&redescribed, &existing));
    assert_eq!(redescribed.tools[0].description, "does something else");

    let mut reshaped = tool("a");
    reshaped.parameters = serde_json::from_str("{\"type\":\"object\",\"required\":[]}").unwrap();
    let new_params = LlmConfig::maybe_update(&existing, "prompt", Lang::En, vec![reshaped]);
    assert!(!Arc::ptr_eq(&new_params, &existing));
    assert_eq!(new_params.tools[0].parameters.to_string(), "{\"required\":[],\"type\":\"object\"}");

    let same = LlmConfig::maybe_update(&existing, "prompt", Lang::En, vec![tool("a")]);
    assert!(Arc::ptr_eq(&same, &existing));
}

#[test]
fn completion_body_sets_stream_and_merges_extra_config() {
    let request: serde_json::Value =
        serde_json::from_str("{\"model\":\"gpt\",\"stream\":false,\"temperature\":1}").unwrap();

    let plain = gradbot::llm::completion_body(&request, None).ok().unwrap();
    assert_eq!(plain.to_string(), "{\"model\":\"gpt\",\"stream\":true,\"temperature\":1}");

    let merged =
        gradbot::llm::completion_body(&request, Some("{\"temperature\":0.5,\"top_p\":0.9}"))
            .ok()
            .unwrap();
    assert_eq!(
        merged.to_string(),
        "{\"model\":\"gpt\",\"stream\":true,\"temperature\":0.5,\"top_p\":0.9}"
    );

    let overridden = gradbot::llm::completion_body(&request, Some("{\"stream\":false}")).ok().unwrap();
    assert_eq!(overridden["stream"], serde_json::Value::Bool(false));

    let not_object = gradbot::llm::completion_body(&request, Some("[1,2]")).ok().unwrap();
    assert_eq!(not_object, plain);
}

#[test]
fn completion_body_refuses_extra_config_that_is_not_json() {
    let request: serde_json::Value = serde_json::from_str("{\"model\":\"gpt\"}").unwrap();
    let r = gradbot::llm::completion_body(&request, Some("{temperature: 0.5"));
    match r {
        Err(e) => assert!(!e.detail.is_empty()),
        Ok(_) => panic!("extra config that is not JSON must be refused"),
    }
}

#[test]
fn only_the_last_received_result_is_observed() {
    let obs = ToolCallObservation::from_received(
        vec![
            ToolOutcome::Value("1".to_string()),
            ToolOutcome::Error("late".to_string()),
            ToolOutcome::Value("3".to_string()),
        ],
        false,
    );
    assert!(matches!(obs.last_result, Some(ToolOutcome::Value(ref v)) if v == "3"));
    assert!(!obs.closed);

    let none = ToolCallObservation::from_received(Vec::new(), true);
    assert!(none.last_result.is_none());
    assert!(none.closed);
}

fn user_request_message(text: &str) -> async_openai::types::ChatCompletionRequestMessage {
    async_openai::types::ChatCompletionRequestUserMessageArgs::default()
        .content(text)
        .build()
        .unwrap()
        .into()
}

#[test]
fn completion_request_builds_the_posted_body() {
    let s = session();
    let body = gradbot::request::completion_request(
        &s,
        vec![user_request_message("hi")],
        &vec![tool("lookup")],
        Some("{\"temperature\":0.2}"),
    )
    .ok()
    .unwrap();
    assert_eq!(body["model"], "gpt");
    assert_eq!(body["max_completion_tokens"], 256);
    assert_eq!(body["stream"], true);
    assert_eq!(body["temperature"], 0.2);
    assert_eq!(body["messages"][0]["role"], "user");
    assert_eq!(body["messages"][0]["content"], "hi");
    assert_eq!(body["tools"][0]["type"], "function");
    assert_eq!(body["tools"][0]["function"]["name"], "lookup");
    assert_eq!(body["tools"][0]["function"]["description"], "does lookup");

    let no_tools =
        gradbot::request::completion_request(&s, vec![user_request_message("hi")], &Vec::new(), None)
            .ok()
            .unwrap();
    assert!(no_tools.get("tools").is_none());
    assert_eq!(no_tools["stream"], true);
}

#[test]
fn completion_request_refuses_bad_extra_config() {
    let s = session();
    let r = gradbot::request::completion_request(
        &s,
        vec![user_request_message("hi")],
        &Vec::new(),
        Some("not json"),
    );
    match r {
        Err(e) => assert!(!e.detail.is_empty()),
        Ok(_) => panic!("extra config that is not JSON must be refused"),
    }
}

#[test]
fn tool_result_values_are_carried_as_compact_json() {
    let value: serde_json::Value = serde_json::from_str("{ \"b\" : [1, 2], \"a\" : null }").unwrap();
    match ToolOutcome::from_value(&value) {
        ToolOutcome::Value(t) => assert_eq!(t, "{\"a\":null,\"b\":[1,2]}"),
        ToolOutcome::Error(_) => panic!("a value is no error"),
    }
}
