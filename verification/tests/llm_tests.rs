use gradbot::strip_control_tokens;

#[test]
fn strip_control_tokens_covers_known_patterns() {
    // Plain text round-trips (modulo trim).
    assert_eq!(strip_control_tokens("hello world"), "hello world");
    assert_eq!(strip_control_tokens(""), "");
    assert_eq!(strip_control_tokens("  hi \n"), "hi");

    // `<|...|>` and `<|...>` are stripped by the first pass.
    assert_eq!(strip_control_tokens("<|start|>hello"), "hello");
    assert_eq!(strip_control_tokens("<|channel>hello"), "hello");
    assert_eq!(strip_control_tokens("<|a|>foo<|b|>bar<|c|>"), "foobar");

    // `<word|>` (alphanumeric/underscore) is stripped by the second pass.
    assert_eq!(strip_control_tokens("hello<channel|>world"), "helloworld");
    assert_eq!(strip_control_tokens("pre<end_of_turn|>post"), "prepost");

    // Angle brackets that don't match either pattern are preserved.
    assert_eq!(strip_control_tokens("a < b > c"), "a < b > c");
    assert_eq!(strip_control_tokens("hello<a-b|>world"), "hello<a-b|>world");
}

#[test]
fn plain_text_only_loses_surrounding_whitespace() {
    assert_eq!(strip_control_tokens("\t plain text, no markers \u{a0}"), "plain text, no markers");
    assert_eq!(strip_control_tokens("a > b | c"), "a > b | c");
}

#[test]
fn result_is_trimmed_after_stripping() {
    assert_eq!(strip_control_tokens("<|x|>  spaced  <|y|>"), "spaced");
    assert_eq!(strip_control_tokens("   "), "");
}

#[test]
fn unclosed_opener_is_kept() {
    // With neither `|>` nor `>` after `<|`, the opener matches no pattern and
    // the rest of the text is kept as it is.
    assert_eq!(strip_control_tokens("ab<|cd"), "ab<|cd");
    assert_eq!(strip_control_tokens("a <|b"), "a <|b");
    assert_eq!(strip_control_tokens("x<|y|>hello <|"), "xhello <|");
}

#[test]
fn opener_closed_by_bare_angle_bracket() {
    assert_eq!(strip_control_tokens("x<|think>y"), "xy");
    assert_eq!(strip_control_tokens("<|>z"), "z");
}

#[test]
fn word_markers_need_word_characters() {
    assert_eq!(strip_control_tokens("a<b c|>d"), "a<b c|>d");
    assert_eq!(strip_control_tokens("a<|>d"), "ad");
    assert_eq!(strip_control_tokens("a<é_1|>d"), "ad");
    assert_eq!(strip_control_tokens("a<<b|>c"), "a<c");
}

#[test]
fn stripping_twice_can_differ() {
    // The second pass can leave a `<|...|>` token behind.
    let once = strip_control_tokens("<<|x|>|x|>");
    assert_eq!(once, "<|x|>");
    assert_eq!(strip_control_tokens(&once), "");
}
