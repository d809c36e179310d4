use csv_parser::config::LogLevel;
use csv_parser::json::Response;
use csv_parser::text::text_equal;

#[test]
fn level_names() {
    assert_eq!(LogLevel::from_name("trace"), Some(LogLevel::Trace));
    assert_eq!(LogLevel::from_name("debug"), Some(LogLevel::Debug));
    assert_eq!(LogLevel::from_name("info"), Some(LogLevel::Info));
    assert_eq!(LogLevel::from_name("warn"), Some(LogLevel::Warn));
    assert_eq!(LogLevel::from_name("error"), Some(LogLevel::Error));
    assert_eq!(LogLevel::from_name("off"), Some(LogLevel::Off));
}

#[test]
fn other_text_names_no_level() {
    for name in ["", "INFO", "Trace", "warning", " info", "info ", "offf", "of", "débug"] {
        assert_eq!(LogLevel::from_name(name), None, "{:?}", name);
    }
}

#[test]
fn unknown_level_defaults_to_info() {
    assert_eq!(LogLevel::or_default(""), LogLevel::Info);
    assert_eq!(LogLevel::or_default("verbose"), LogLevel::Info);
    assert_eq!(LogLevel::or_default("info"), LogLevel::Info);
    assert_eq!(LogLevel::or_default("off"), LogLevel::Off);
    assert_eq!(LogLevel::or_default("trace"), LogLevel::Trace);
    assert_eq!(LogLevel::or_default("error"), LogLevel::Error);
}

#[test]
fn text_equal_compares_characters() {
    assert!(text_equal("", ""));
    assert!(text_equal("warn", "warn"));
    assert!(!text_equal("warn", "Warn"));
    assert!(!text_equal("warn", "warn "));
    assert!(text_equal("é€", "é€"));
    assert!(!text_equal("é", "e"));
}

#[test]
fn every_answer_is_json() {
    assert_eq!(Response::success(&[]).content_type(), "application/json");
    assert_eq!(Response { status: 400, body: String::new() }.content_type(), "application/json");
}
