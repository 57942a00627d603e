use waybar_config::error::AppError;
use waybar_config::json::parse_jsonc;
use waybar_config::json::validate_json;
use waybar_config::jsonc::strip_jsonc_comments;
use waybar_config::writer::add_config_comments;

#[test]
fn plain_text_is_unchanged_and_stable() {
    let t = "{\"a\": [1, 2], \"b\": \"x / y\"}";
    let once = strip_jsonc_comments(t);
    assert_eq!(once, t);
    assert_eq!(strip_jsonc_comments(&once), once);
}

#[test]
fn string_literal_with_markers_is_kept() {
    let t = "\"see // and /* x */ here\"";
    assert_eq!(strip_jsonc_comments(t), t);
}

#[test]
fn escaped_quote_keeps_string_open() {
    let t = "{\"key\": \"a\\\"b//c\"}";
    let out = strip_jsonc_comments(t);
    assert!(out.contains("//c"));
    assert_eq!(out, t);
}

#[test]
fn line_comment_keeps_its_newline() {
    assert_eq!(strip_jsonc_comments("// c\nX"), "\nX");
    let input = "a // one\nb // two\nc";
    let out = strip_jsonc_comments(input);
    assert_eq!(out, "a \nb \nc");
    assert_eq!(out.matches('\n').count(), input.matches('\n').count());
}

#[test]
fn unterminated_block_comment_takes_the_rest() {
    assert_eq!(strip_jsonc_comments("a/* never closes"), "a");
}

#[test]
fn unterminated_line_comment_takes_the_rest() {
    assert_eq!(strip_jsonc_comments("1 // end"), "1 ");
}

#[test]
fn block_comments_do_not_nest() {
    assert_eq!(strip_jsonc_comments("/* a /* b */ c */"), " c */");
}

#[test]
fn star_of_opener_does_not_close() {
    assert_eq!(strip_jsonc_comments("/*/ x */y"), "y");
}

#[test]
fn escaped_backslash_before_quote_closes_string() {
    let t = "\"a\\\\\" // gone";
    assert_eq!(strip_jsonc_comments(t), "\"a\\\\\" ");
}

#[test]
fn empty_input_gives_empty_output() {
    assert_eq!(strip_jsonc_comments(""), "");
}

#[test]
fn saved_config_strips_and_parses_back() {
    let content = "{\"modules-left\": [\"cpu\"], \"height\": 30}";
    let saved = add_config_comments(content);
    assert!(saved.contains("Waybar Configuration"));
    let stripped = strip_jsonc_comments(&saved);
    assert_eq!(stripped, format!("\n\n{}", content));
    let expected: serde_json::Value = serde_json::from_str(content).unwrap();
    assert_eq!(parse_jsonc(&saved).unwrap(), expected);
}

#[test]
fn validation_rejects_trailing_comma() {
    let r = validate_json("{\"a\":1,}");
    match r {
        Err(AppError::Validation(m)) => assert!(m.starts_with("Invalid JSON: ")),
        _ => panic!("expected a validation error"),
    }
}

#[test]
fn parse_error_carries_prefix() {
    match parse_jsonc("{\"a\": }") {
        Err(AppError::Parse(m)) => assert!(m.starts_with("Failed to parse JSON: ")),
        _ => panic!("expected a parse error"),
    }
}

#[test]
fn end_to_end_config() {
    let input = "{\n  // cpu module\n  \"modules-left\": [\"cpu\"], /* inline */ \"height\": 30\n}";
    let out = strip_jsonc_comments(input);
    assert_eq!(out, "{\n  \n  \"modules-left\": [\"cpu\"],  \"height\": 30\n}");
    let parsed = parse_jsonc(input).unwrap();
    let expected: serde_json::Value =
        serde_json::from_str("{\"modules-left\": [\"cpu\"], \"height\": 30}").unwrap();
    assert_eq!(parsed, expected);
}
