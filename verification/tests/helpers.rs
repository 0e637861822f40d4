use zellij_quill::parsing::{
    opt_value, parse_bool, parse_columns, parse_env_pair, parse_env_pair_str, parse_spawn_kind,
    parse_spawn_where, parse_tab_selector, parse_tail_from, parse_usize_arg, parse_wait_mode,
};
use zellij_quill::plugin::commands::marks::shell_single_quote;
use zellij_quill::plugin::permissions::parse_origin_pane_id;
use zellij_quill::response::frame_output;
use zellij_quill::types::{
    pane_id_to_string, PaneId, PaneRow, SpawnKind, SpawnWhere, TabSelector, TailFrom, WaitMode,
};
use zellij_quill::util::{column_value, strip_ansi_sequences, unix_time_ms};

fn s(v: &str) -> String {
    v.to_string()
}

#[test]
fn truthy_words_are_true() {
    assert!(parse_bool(Some("true")));
    assert!(parse_bool(Some(" YES ")));
    assert!(parse_bool(Some("1")));
    assert!(parse_bool(Some("On")));
    assert!(!parse_bool(Some("false")));
    assert!(!parse_bool(Some("y")));
    assert!(!parse_bool(Some("")));
    assert!(!parse_bool(None));
}

#[test]
fn option_values_follow_an_equals_sign() {
    assert_eq!(opt_value("--pane=build", "--pane"), Some(s("build")));
    assert_eq!(opt_value("--pane=", "--pane"), Some(s("")));
    assert_eq!(opt_value("--pane", "--pane"), None);
    assert_eq!(opt_value("--panes=x", "--pane"), None);
}

#[test]
fn columns_are_split_trimmed_and_kept_when_not_empty() {
    assert_eq!(parse_columns(" id, title ,,pid "), vec![s("id"), s("title"), s("pid")]);
    assert!(parse_columns(" , ").is_empty());
}

#[test]
fn tab_selectors() {
    assert!(matches!(parse_tab_selector("focused"), Ok(TabSelector::Focused)));
    assert!(matches!(parse_tab_selector("all"), Ok(TabSelector::All)));
    assert!(matches!(parse_tab_selector("2"), Ok(TabSelector::Index(2))));
    assert_eq!(parse_tab_selector("second").unwrap_err().code.as_str(), "INVALID_ARGS");
    assert!(matches!(TabSelector::parse_str("3"), Ok(TabSelector::Index(3))));
    assert_eq!(TabSelector::parse_str("x").unwrap_err(), "Invalid --tab value: x");
    assert!(TabSelector::Focused.matches(1, 1));
    assert!(!TabSelector::Focused.matches(0, 1));
    assert!(TabSelector::All.matches(5, 1));
    assert!(TabSelector::Index(2).matches(2, 0));
    assert!(!TabSelector::Index(2).matches(0, 2));
}

#[test]
fn named_choices() {
    assert!(matches!(parse_tail_from("viewport"), Ok(TailFrom::Viewport)));
    assert!(matches!(parse_tail_from("top"), Ok(TailFrom::Top)));
    assert!(matches!(parse_tail_from("end"), Ok(TailFrom::End)));
    assert_eq!(parse_tail_from("middle").unwrap_err().message, "Invalid --from value: middle");
    assert_eq!(parse_wait_mode("all").unwrap(), WaitMode::All);
    assert_eq!(parse_wait_mode("any").unwrap(), WaitMode::Any);
    assert_eq!(parse_wait_mode("some").unwrap_err().code.as_str(), "INVALID_ARGS");
    assert_eq!(parse_spawn_kind("command").unwrap(), SpawnKind::Command);
    assert_eq!(parse_spawn_kind("terminal").unwrap(), SpawnKind::Terminal);
    assert_eq!(parse_spawn_kind("shell").unwrap_err().message, "Invalid --kind value: shell");
    assert_eq!(parse_spawn_where("near-plugin").unwrap(), SpawnWhere::NearPlugin);
    assert_eq!(parse_spawn_where("in-place").unwrap(), SpawnWhere::InPlace);
    assert_eq!(parse_spawn_where("background").unwrap(), SpawnWhere::Background);
    assert_eq!(parse_spawn_where("floating").unwrap(), SpawnWhere::Floating);
    assert_eq!(parse_spawn_where("tiled").unwrap(), SpawnWhere::Tiled);
    assert_eq!(parse_spawn_where("above").unwrap_err().code.as_str(), "INVALID_ARGS");
}

#[test]
fn env_pairs_split_at_the_first_equals_sign() {
    assert_eq!(parse_env_pair("A=b=c").unwrap(), (s("A"), s("b=c")));
    assert_eq!(parse_env_pair("EMPTY=").unwrap(), (s("EMPTY"), s("")));
    assert_eq!(parse_env_pair("novalue").unwrap_err().code.as_str(), "INVALID_ARGS");
    assert_eq!(parse_env_pair_str("K=v").unwrap(), (s("K"), s("v")));
    assert!(parse_env_pair_str("K").is_err());
}

#[test]
fn flag_values_must_be_present_and_numeric() {
    assert_eq!(parse_usize_arg(Some(&s(" 12 ")), "--lines").unwrap(), 12);
    let missing = parse_usize_arg(None, "--lines").unwrap_err();
    assert_eq!(missing.code.as_str(), "INVALID_ARGS");
    assert_eq!(missing.message, "Missing value for --lines");
    assert_eq!(parse_usize_arg(Some(&s("-1")), "--lines").unwrap_err().code.as_str(), "INVALID_ARGS");
}

#[test]
fn origin_panes_are_read_in_every_form() {
    assert_eq!(parse_origin_pane_id("7"), Some(PaneId::Terminal(7)));
    assert_eq!(parse_origin_pane_id(" id:8 "), Some(PaneId::Terminal(8)));
    assert_eq!(parse_origin_pane_id("terminal_9"), Some(PaneId::Terminal(9)));
    assert_eq!(parse_origin_pane_id("plugin_2"), Some(PaneId::Plugin(2)));
    assert_eq!(parse_origin_pane_id(""), None);
    assert_eq!(parse_origin_pane_id("pane-1"), None);
    assert_eq!(pane_id_to_string(PaneId::Terminal(8)), "id:8");
    assert_eq!(pane_id_to_string(PaneId::Plugin(2)), "plugin:2");
    assert_eq!(parse_origin_pane_id(&pane_id_to_string(PaneId::Terminal(41))), Some(PaneId::Terminal(41)));
}

#[test]
fn ansi_sequences_are_removed() {
    assert_eq!(strip_ansi_sequences("\u{1b}[31mred\u{1b}[0m plain"), "red plain");
    assert_eq!(strip_ansi_sequences("\u{1b}]0;title\u{7}text"), "text");
    assert_eq!(strip_ansi_sequences("no escapes"), "no escapes");
}

#[test]
fn single_quoting_survives_quotes() {
    assert_eq!(shell_single_quote("plain"), "'plain'");
    assert_eq!(shell_single_quote("it's"), "'it'\"'\"'s'");
    assert_eq!(shell_single_quote(""), "''");
}

#[test]
fn row_columns_read_as_text() {
    let row = PaneRow {
        pane_id: PaneId::Terminal(3),
        id: 3,
        is_plugin: false,
        tab: 1,
        title: s("build"),
        focused: true,
        floating: false,
        suppressed: false,
        pid: Some(-4),
    };
    assert_eq!(column_value(&row, "pane_id"), "id:3");
    assert_eq!(column_value(&row, "id"), "3");
    assert_eq!(column_value(&row, "kind"), "terminal");
    assert_eq!(column_value(&row, "tab"), "1");
    assert_eq!(column_value(&row, "title"), "build");
    assert_eq!(column_value(&row, "focused"), "true");
    assert_eq!(column_value(&row, "floating"), "false");
    assert_eq!(column_value(&row, "pid"), "-4");
    assert_eq!(column_value(&row, "nope"), "");
}

#[test]
fn output_frames_human_text_before_the_json() {
    assert_eq!(frame_output(true, Some("hi"), "{}"), "{}");
    assert_eq!(frame_output(false, Some("hi"), "{}"), "hi\n@@json {}");
    assert_eq!(frame_output(false, Some(""), "{}"), "@@json {}");
    assert_eq!(frame_output(false, None, "[1]"), "@@json [1]");
}

#[test]
fn the_clock_is_past_the_epoch() {
    assert!(unix_time_ms() > 1_600_000_000_000);
}
