use hlwnpa::preprocessor::{replace_escapes, preprocess};

#[test]
fn escape_escapes() {
    assert_eq!("\n".to_string(), replace_escapes("\\n"));
    assert_eq!("hello\n".to_string(), replace_escapes("hello\\n"));
    assert_eq!("hello\nworld", replace_escapes("hello\\nworld"));
    assert_eq!("hello\tworld", replace_escapes("hello\\tworld"));
    assert_eq!("hello\n\rworld", replace_escapes("hello\\n\\rworld"));
    assert_eq!("hello\\world", replace_escapes("hello\\\\world"));
    assert_eq!("hello\"world", replace_escapes(r#"hello\\"world"#));
}

#[test]
fn preprocess_replaces_escapes() {
    assert_eq!("a\tb\r\n", preprocess("a\\tb\\r\\n"));
    assert_eq!("plain text", preprocess("plain text"));
    assert_eq!("\\", preprocess("\\"));
}

#[test]
fn each_escape_becomes_one_character() {
    let text = "a\\nb\\tc\\\\d\\\"e";
    let out = preprocess(text);
    assert_eq!("a\nb\tc\\d\"e", out);
    assert!(out.chars().count() < text.chars().count());
    assert_eq!("plain text", preprocess("plain text"));
}
