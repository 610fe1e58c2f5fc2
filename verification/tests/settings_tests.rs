use gradbot::binding::{convert_tool_defs, parse_tool_result, EventKind, MsgKind, ToolCallInfo, ToolDef};
use gradbot::llm::ToolCall;
use gradbot::settings::{
    api_base, collect_model_ids, model_cache_key, resolve_api_key, resolve_base_url,
    resolve_gradium_api_key, resolve_model_name, select_model, MissingGradiumApiKey,
    ModelSelectionError,
};
use gradbot::voice::{AudioFormat, CodecFormat, Country, Gender, Lang};

fn s(x: &str) -> Option<String> {
    Some(x.to_string())
}

#[test]
fn api_key_resolution_order() {
    assert_eq!(resolve_api_key(s("p"), s("l"), s("o")), "p");
    assert_eq!(resolve_api_key(None, s("l"), s("o")), "l");
    assert_eq!(resolve_api_key(None, None, s("o")), "o");
    assert_eq!(resolve_api_key(None, None, None), "");
}

#[test]
fn base_url_and_model_resolution() {
    assert_eq!(resolve_base_url(s("a"), s("b")), s("a"));
    assert_eq!(resolve_base_url(None, s("b")), s("b"));
    assert_eq!(resolve_base_url(None, None), None);
    assert_eq!(resolve_model_name(None, s("m")), s("m"));
    assert_eq!(resolve_model_name(s("x"), s("m")), s("x"));
    assert_eq!(model_cache_key(&None), "");
    assert_eq!(model_cache_key(&s("http://h/")), "http://h/");
    assert_eq!(api_base("http://h/v1///"), "http://h/v1");
    assert_eq!(api_base("http://h/v1"), "http://h/v1");
}

#[test]
fn model_selection() {
    assert_eq!(select_model(vec!["only".to_string()]).unwrap(), "only");
    assert!(matches!(select_model(vec![]), Err(ModelSelectionError::NoModels)));
    match select_model(vec!["a".to_string(), "b".to_string()]) {
        Err(ModelSelectionError::MultipleModels(ids)) => assert_eq!(ids, vec!["a", "b"]),
        other => panic!("unexpected {other:?}"),
    }
}

#[test]
fn model_ids_keep_string_ids() {
    assert_eq!(collect_model_ids(None), Vec::<String>::new());
    assert_eq!(collect_model_ids(Some(vec![s("a"), None, s("b")])), vec!["a", "b"]);
}

#[test]
fn gradium_key_resolution() {
    assert_eq!(resolve_gradium_api_key(Some("k"), s("e")).unwrap(), "k");
    assert_eq!(resolve_gradium_api_key(None, s("e")).unwrap(), "e");
    assert_eq!(resolve_gradium_api_key(None, None), Err(MissingGradiumApiKey));
}

#[test]
fn language_and_voice_labels() {
    assert_eq!(Lang::En.code(), "en");
    assert_eq!(Lang::Pt.rewrite_rules(), "pt");
    assert_eq!(Gender::Feminine.__str__(), "Feminine");
    assert_eq!(Country::Gb.__str__(), "United Kingdom");
    assert_eq!(Country::Mx.code(), "mx");
}

#[test]
fn audio_formats_pick_sample_rates() {
    assert_eq!(AudioFormat::Pcm.to_encoder_format(), CodecFormat::Pcm { sample_rate: 48000 });
    assert_eq!(AudioFormat::Pcm.to_decoder_format(), CodecFormat::Pcm { sample_rate: 24000 });
    assert_eq!(AudioFormat::Ulaw.to_decoder_format(), CodecFormat::Ulaw { sample_rate: 8000 });
    assert_eq!(AudioFormat::OggOpus.to_encoder_format(), CodecFormat::OggOpus);
}

#[test]
fn tool_definitions_parse_their_parameters() {
    let good = ToolDef::new("add".to_string(), "adds".to_string(), "{\"type\":\"object\"}".to_string());
    let t = good.to_lib().unwrap();
    assert_eq!(t.name, "add");
    assert_eq!(t.parameters["type"], "object");
    let bad = ToolDef::new("bad".to_string(), "".to_string(), "{oops".to_string());
    let e = bad.to_lib().unwrap_err();
    assert!(e.starts_with("Invalid JSON parameters: "));
    assert!(e.len() > "Invalid JSON parameters: ".len());
    let all = convert_tool_defs(&vec![good.clone(), good.clone()]).unwrap();
    assert_eq!(all.len(), 2);
    assert!(convert_tool_defs(&vec![good, bad]).is_err());
}

#[test]
fn event_and_message_names() {
    assert_eq!(EventKind::PushToLlm.event_type(), "push_to_llm");
    assert_eq!(EventKind::EndTtsAudio.event_type(), "end_tts_audio");
    assert!(EventKind::Flushing.has_data());
    assert!(!EventKind::FirstWord.has_data());
    assert_eq!(MsgKind::TtsText.msg_type(), "tts_text");
    assert_eq!(MsgKind::ToolCall.msg_type(), "tool_call");
}

#[test]
fn tool_call_info_serialises_arguments() {
    let call = ToolCall {
        call_id: "c1".to_string(),
        tool_name: "lookup".to_string(),
        args: serde_json::from_str("{ \"q\" : [1, 2] }").unwrap(),
    };
    let info = ToolCallInfo::from_call(&call);
    assert_eq!(info.call_id, "c1");
    assert_eq!(info.tool_name, "lookup");
    assert_eq!(info.args_json, "{\"q\":[1,2]}");
}

#[test]
fn tool_results_are_parsed_or_refused() {
    let ok = parse_tool_result("{\"temp\": 21, \"unit\": \"C\"}").unwrap();
    assert_eq!(ok.to_string(), "{\"temp\":21,\"unit\":\"C\"}");

    let err = parse_tool_result("{\"temp\": 21").unwrap_err();
    assert!(err.starts_with("Invalid JSON: "));
    assert!(err.len() > "Invalid JSON: ".len());
}
