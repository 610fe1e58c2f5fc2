use gradbot::tts::tts_json_config;

#[test]
fn tts_config_is_absent_without_members() {
    assert_eq!(tts_json_config(None, None, None), None);
    assert_eq!(tts_json_config(None, None, Some("{}")), None);
    assert_eq!(tts_json_config(None, None, Some("not json")), None);
    assert_eq!(tts_json_config(None, None, Some("[1,2]")), None);
}

#[test]
fn tts_config_holds_bonus_rules_and_extra() {
    let bonus = serde_json::Value::from(0.5);
    assert_eq!(
        tts_json_config(Some(bonus.clone()), Some("a=b".to_string()), None).unwrap(),
        "{\"padding_bonus\":0.5,\"rewrite_rules\":\"a=b\"}"
    );
    assert_eq!(
        tts_json_config(
            Some(bonus),
            Some("a=b".to_string()),
            Some("{\"rewrite_rules\":\"x\",\"temp\":1}")
        )
        .unwrap(),
        "{\"padding_bonus\":0.5,\"rewrite_rules\":\"x\",\"temp\":1}"
    );
    assert_eq!(
        tts_json_config(None, None, Some("{\"speed\":2}")).unwrap(),
        "{\"speed\":2}"
    );
    assert_eq!(
        tts_json_config(None, Some("r".to_string()), Some("oops")).unwrap(),
        "{\"rewrite_rules\":\"r\"}"
    );
}
