use std::time::Duration;

use picmyweb::capture::filename_for;
use picmyweb::capture::generate_filename;
use picmyweb::capture::AsyncScreenshotService;
use picmyweb::capture::ScreenshotService;
use picmyweb::cli::CliParser;
use picmyweb::config::AppConfig;
use picmyweb::file_ops::FileOperations;
use picmyweb::file_ops::ScreenshotRecord;
use picmyweb::paths::PathUtils;
use picmyweb::target::Target;
use picmyweb::text::decimal_string;
use picmyweb::text::trimmed;

#[test]
fn decimal_renders_exactly() {
    assert_eq!(decimal_string(0), "0");
    assert_eq!(decimal_string(7), "7");
    assert_eq!(decimal_string(1234567890), "1234567890");
    assert_eq!(decimal_string(u64::MAX), "18446744073709551615");
}

#[test]
fn trim_strips_both_ends() {
    assert_eq!(trimmed("  hi\t"), "hi");
    assert_eq!(trimmed("hi"), "hi");
    assert_eq!(trimmed("   "), "");
    assert_eq!(trimmed("\u{2000}a b\u{3000}"), "a b");
}

#[test]
fn parse_timeout_accepts_valid_u64_text() {
    assert_eq!(CliParser::parse_timeout("5"), 5);
    assert_eq!(CliParser::parse_timeout("0"), 0);
    assert_eq!(CliParser::parse_timeout("+12"), 12);
    assert_eq!(CliParser::parse_timeout("18446744073709551615"), u64::MAX);
}

#[test]
fn parse_timeout_falls_back_to_five() {
    assert_eq!(CliParser::parse_timeout(""), 5);
    assert_eq!(CliParser::parse_timeout("+"), 5);
    assert_eq!(CliParser::parse_timeout("abc"), 5);
    assert_eq!(CliParser::parse_timeout("12x"), 5);
    assert_eq!(CliParser::parse_timeout("-3"), 5);
    assert_eq!(CliParser::parse_timeout("18446744073709551616"), 5);
}

#[test]
fn config_default_matches_stock_settings() {
    let config = AppConfig::default();
    assert_eq!(config.timeout_seconds, 5);
    assert!(config.headless);
    assert_eq!(config.window_size, (414, 896));
    assert_eq!(config.screenshots_dir, "screen_shots");
    assert_eq!(config.delay_between_screenshots, 1);
    assert!(config.user_agent.contains("iPhone"));
}

#[test]
fn config_durations_come_from_seconds() {
    let mut config = AppConfig::default();
    config.timeout_seconds = 9;
    config.delay_between_screenshots = 2;
    assert_eq!(config.get_timeout_duration(), Duration::from_secs(9));
    assert_eq!(config.get_delay_duration(), Duration::from_secs(2));
}

#[test]
fn default_screenshots_dir_hangs_off_desktop() {
    assert_eq!(
        PathUtils::get_default_screenshots_dir("C:\\Users\\me\\Desktop"),
        "C:\\Users\\me\\Desktop\\screen_shots"
    );
    assert_eq!(PathUtils::join("dir", "a.png"), "dir\\a.png");
}

#[test]
fn parse_targets_drops_blank_lines() {
    let lines = vec![
        "  a.com ".to_string(),
        String::new(),
        "http://b.c".to_string(),
        "   ".to_string(),
        "1.2.3.4".to_string(),
    ];
    let targets = FileOperations::parse_targets(lines);
    assert_eq!(targets.len(), 3);
    assert_eq!(targets[0].url, "https://a.com");
    assert_eq!(targets[0].original_text, "a.com");
    assert_eq!(targets[1].url, "http://b.c");
    assert_eq!(targets[2].url, "https://1.2.3.4");
}

#[test]
fn parse_targets_of_nothing_is_empty() {
    assert!(FileOperations::parse_targets(Vec::new()).is_empty());
}

#[test]
fn file_exists_is_false_for_missing_path() {
    assert!(!FileOperations::file_exists(
        "no_such_directory_zxq\\no_such_file_zxq.txt"
    ));
}

#[test]
fn csv_fields_render_in_column_order() {
    let record = ScreenshotRecord {
        timestamp: 1700000000,
        target: "a.com".to_string(),
        target_type: "域名".to_string(),
        success: true,
        error_message: None,
        screenshot_path: Some("shots\\a.png".to_string()),
    };
    let fields = record.csv_fields();
    assert_eq!(
        fields,
        vec![
            "1700000000".to_string(),
            "a.com".to_string(),
            "域名".to_string(),
            "true".to_string(),
            String::new(),
            "shots\\a.png".to_string(),
        ]
    );
}

#[test]
fn csv_fields_of_a_failure() {
    let record = ScreenshotRecord {
        timestamp: 3,
        target: "b.c".to_string(),
        target_type: "URL".to_string(),
        success: false,
        error_message: Some("timeout".to_string()),
        screenshot_path: None,
    };
    let fields = record.csv_fields();
    assert_eq!(fields[0], "3");
    assert_eq!(fields[3], "false");
    assert_eq!(fields[4], "timeout");
    assert_eq!(fields[5], "");
}

#[test]
fn csv_header_names_the_columns() {
    let header = FileOperations::csv_header();
    assert_eq!(
        header,
        vec![
            "timestamp".to_string(),
            "target".to_string(),
            "target_type".to_string(),
            "success".to_string(),
            "error_message".to_string(),
            "screenshot_path".to_string(),
        ]
    );
}

#[test]
fn filename_for_is_exact() {
    let t = Target::new("https://a.b/c".to_string()).unwrap();
    assert_eq!(filename_for(&t, 1700000000), "https_a.b_c_1700000000.png");
}

#[test]
fn generated_filenames_carry_the_clean_name() {
    let t = Target::new("a.com".to_string()).unwrap();
    let name = generate_filename(&t);
    assert!(name.starts_with("a.com_"));
    assert!(name.ends_with(".png"));
}

#[test]
fn services_keep_their_config() {
    let mut config = AppConfig::default();
    config.screenshots_dir = "shots".to_string();
    let service = ScreenshotService::new(config.clone());
    assert_eq!(service.config().screenshots_dir, "shots");
    let service = AsyncScreenshotService::new(config);
    assert_eq!(service.config().screenshots_dir, "shots");
    let t = Target::new("a.com".to_string()).unwrap();
    let name = AsyncScreenshotService::generate_filename(&t);
    assert!(name.starts_with("a.com_"));
}
