use zellij_quill::json::JsonValue;
use zellij_quill::parsing::{
    parse_argv, parse_duration, parse_hex_bytes, parse_json_payload_to_argv, parse_key_spec,
    parse_usize_literal,
};
use zellij_quill::pattern::build_regex;
use zellij_quill::util::build_grep_matches;

fn s(v: &str) -> String {
    v.to_string()
}

#[test]
fn tokenizer_handles_quotes_and_escapes() {
    let parsed = parse_argv("run --pane build-pane -- \"echo \\\"hi\\\"\"").unwrap();
    assert_eq!(parsed, vec!["run", "--pane", "build-pane", "--", "echo \"hi\""]);
}

#[test]
fn tokenizer_rejects_unterminated_quote() {
    let err = parse_argv("run \"unterminated").unwrap_err();
    assert_eq!(err.code.as_str(), "INVALID_ARGS");
}

#[test]
fn key_parser_supports_ctrl_alt_and_named_keys() {
    let bytes = parse_key_spec("<Enter><Tab><Esc><Backspace><C-c><A-x>").unwrap();
    assert_eq!(bytes, vec![b'\n', b'\t', 0x1b, 0x7f, 0x03, 0x1b, b'x']);
}

#[test]
fn key_parser_rejects_bad_token() {
    let err = parse_key_spec("<Nope>").unwrap_err();
    assert_eq!(err.code.as_str(), "INVALID_KEYS");
}

#[test]
fn json_object_payload_expands_into_argv() {
    let payload = JsonValue::Object(vec![
        (s("cmd"), JsonValue::Str(s("grep"))),
        (s("pane"), JsonValue::Str(s("build-pane"))),
        (s("ignore_case"), JsonValue::Bool(true)),
        (s("args"), JsonValue::Array(vec![JsonValue::Str(s("error"))])),
    ]);
    let argv = parse_json_payload_to_argv(&payload).unwrap();
    assert!(argv.contains(&"grep".to_string()));
    assert!(argv.contains(&"--pane".to_string()));
    assert!(argv.contains(&"build-pane".to_string()));
    assert!(argv.contains(&"--ignore-case".to_string()));
    assert!(argv.contains(&"error".to_string()));
}

#[test]
fn selector_parser_understands_basic_forms() {
    assert_eq!(parse_usize_literal("123", "--lines").unwrap(), 123);
    assert!(parse_usize_literal("x", "--lines").is_err());
    assert!(build_regex("abc", false).unwrap().is_match("abc"));
}

#[test]
fn grep_matcher_returns_context() {
    let lines = vec![s("alpha"), s("beta"), s("gamma"), s("betamax")];
    let regex = build_regex("beta", false).unwrap();
    let matches = build_grep_matches(&lines, &regex, 1, 0);
    assert_eq!(matches.len(), 2);
    assert_eq!(matches[0].line_number, 2);
    assert_eq!(matches[0].before, vec!["alpha"]);
    assert_eq!(matches[0].after, vec!["gamma"]);
    assert_eq!(matches[1].line_number, 4);
    assert_eq!(matches[1].before, vec!["gamma"]);
    assert_eq!(matches[1].after, Vec::<String>::new());
}

#[test]
fn json_array_payload_is_the_argument_list() {
    let payload = JsonValue::Array(vec![JsonValue::Str(s("tail")), JsonValue::Str(s("--pane")), JsonValue::Str(s("x"))]);
    assert_eq!(parse_json_payload_to_argv(&payload).unwrap(), vec!["tail", "--pane", "x"]);
    let bad = JsonValue::Array(vec![JsonValue::Bool(true)]);
    assert_eq!(parse_json_payload_to_argv(&bad).unwrap_err().code.as_str(), "INVALID_JSON");
}

#[test]
fn hex_bytes_read_pairs_of_digits() {
    assert_eq!(parse_hex_bytes("1b 5b41").unwrap(), vec![0x1b, 0x5b, 0x41]);
    assert_eq!(parse_hex_bytes("abc").unwrap_err().code.as_str(), "INVALID_ARGS");
}

#[test]
fn durations_read_seconds_and_milliseconds() {
    assert_eq!(parse_duration("1.5").unwrap(), 1_500_000_000);
    assert_eq!(parse_duration("250ms").unwrap(), 250_000_000);
    assert_eq!(parse_duration("2s").unwrap(), 2_000_000_000);
    assert_eq!(parse_duration("  ").unwrap_err().code.as_str(), "INVALID_DURATION");
    assert_eq!(parse_duration("soon").unwrap_err().code.as_str(), "INVALID_ARGS");
}

#[test]
fn durations_take_exponents() {
    assert_eq!(parse_duration("1e3").unwrap(), 1_000_000_000_000);
    assert_eq!(parse_duration("1e3ms").unwrap(), 1_000_000_000);
    assert_eq!(parse_duration("1.5e-3s").unwrap(), 1_500_000);
    assert_eq!(parse_duration("2E+1").unwrap(), 20_000_000_000);
    assert_eq!(parse_duration("25e-1").unwrap(), 2_500_000_000);
    assert_eq!(parse_duration("0e999999999999999999999").unwrap(), 0);
    assert_eq!(parse_duration("1e999").unwrap_err().code.as_str(), "INVALID_ARGS");
    assert_eq!(parse_duration("1e").unwrap_err().code.as_str(), "INVALID_ARGS");
    assert_eq!(parse_duration("e3").unwrap_err().code.as_str(), "INVALID_ARGS");
    assert_eq!(parse_duration("1e3.5").unwrap_err().code.as_str(), "INVALID_ARGS");
}
