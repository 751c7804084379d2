use aimux_lib::config::Settings;
use aimux_lib::json::strings_to_json;
use aimux_lib::text::split_lines;
use aimux_lib::upstream::error::response_body;
use aimux_lib::utils::time::{elapsed_millis, utc_days_ago_string, utc_hours_ago_string, utc_now_string};

#[test]
fn places_the_database_and_settings_files() {
    assert!(Settings::default().database_path().ends_with("aimux.db"));
    assert!(Settings::config_path().ends_with("settings.json"));
}

#[test]
fn formats_current_times_as_database_timestamps() {
    let now = utc_now_string();
    assert_eq!(now.len(), 20);
    assert!(now.ends_with('Z'));
    assert!(utc_days_ago_string(1) < now);
    assert!(utc_hours_ago_string(1) < now);
    assert!(utc_hours_ago_string(-1) > now);
}

#[test]
fn measures_elapsed_milliseconds() {
    let started = std::time::Instant::now();
    assert!(elapsed_millis(started) >= 0);
}

#[test]
fn splits_lines_as_str_lines_does() {
    for text in ["", "a", "a\n", "a\r\nb", "\n\nx\r", "x\ry\n\n"] {
        let expected: Vec<String> = text.lines().map(str::to_owned).collect();
        assert_eq!(split_lines(text), expected, "{text:?}");
    }
}

#[test]
fn writes_string_lists_as_compact_json() {
    let items = vec!["a\"b".to_string(), "c\\\n\u{1}".to_string(), "é".to_string()];
    assert_eq!(strings_to_json(&items), "[\"a\\\"b\",\"c\\\\\\n\\u0001\",\"é\"]");
    assert_eq!(strings_to_json(&Vec::new()), "[]");
}

#[test]
fn reports_ascii_bodies_as_they_are() {
    assert_eq!(response_body(b"plain error"), "plain error");
}
