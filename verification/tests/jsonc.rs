use chromaport::jsonc::strip_jsonc;

#[test]
fn test_strip_jsonc_line_comment() {
    let input = r#"{ "key": "value" // comment
}"#;
    let output = strip_jsonc(input);
    let v: serde_json::Value = serde_json::from_str(&output).unwrap();
    assert_eq!(v["key"], "value");
}

#[test]
fn test_strip_jsonc_trailing_comma() {
    let input = r#"{ "a": 1, "b": 2, }"#;
    let output = strip_jsonc(input);
    let v: serde_json::Value = serde_json::from_str(&output).unwrap();
    assert_eq!(v["b"], 2);
}

#[test]
fn test_strip_jsonc_block_comment() {
    let input = r#"{ /* comment */ "key": "val" }"#;
    let output = strip_jsonc(input);
    let v: serde_json::Value = serde_json::from_str(&output).unwrap();
    assert_eq!(v["key"], "val");
}

#[test]
fn test_strip_jsonc_escaped_backslash_before_quote() {
    // The value ends with a backslash: "C:\\" — the \\ is an escaped backslash,
    // so the closing quote is NOT escaped and should end the string.
    let input = r#"{ "path": "C:\\" // comment
}"#;
    let output = strip_jsonc(input);
    let v: serde_json::Value = serde_json::from_str(&output).unwrap();
    assert_eq!(v["path"], "C:\\");
}

#[test]
fn test_strip_jsonc_escaped_quote_in_string() {
    let input = r#"{ "key": "say \"hello\"" }"#;
    let output = strip_jsonc(input);
    let v: serde_json::Value = serde_json::from_str(&output).unwrap();
    assert_eq!(v["key"], r#"say "hello""#);
}

#[test]
fn strip_jsonc_exact_output() {
    assert_eq!(strip_jsonc("[1, 2, ]"), "[1, 2 ]");
    assert_eq!(strip_jsonc("{\"a\": \"//x\", } // c\n"), "{\"a\": \"//x\" } \n");
    assert_eq!(strip_jsonc("a/*unterminated"), "a");
    // A comma inside a string is no trailing comma.
    assert_eq!(strip_jsonc("\"a,]\""), "\"a,]\"");
    assert_eq!(strip_jsonc("x/*/y*/z"), "xz");
}

#[test]
fn plain_json_passes_through_unchanged() {
    let input = "{\n  \"colors\": { \"editor.background\": \"#1E1E1E\" },\n  \"tokenColors\": [1, 2, 3]\n}";
    assert_eq!(strip_jsonc(input), input);
}

#[test]
fn strip_jsonc_keeps_strings_intact() {
    let url = r#"{"u": "http://x/*y*/"}"#;
    assert_eq!(strip_jsonc(url), url);
    let commas = r#"{"a": ",]", "b": ", }"}"#;
    assert_eq!(strip_jsonc(commas), commas);
    assert_eq!(strip_jsonc(r#"{"a": "x\",]", "b": [1,],}"#), r#"{"a": "x\",]", "b": [1]}"#);
}
