use picmyweb::target::ScreenshotResult;
use picmyweb::target::Target;
use picmyweb::target::TargetType;

#[test]
fn new_prepends_https_and_trims() {
    let t = Target::new("  example.com \t".to_string()).unwrap();
    assert_eq!(t.original_text, "example.com");
    assert_eq!(t.url, "https://example.com");
}

#[test]
fn new_keeps_existing_http_scheme() {
    let t = Target::new("http://example.com/a".to_string()).unwrap();
    assert_eq!(t.original_text, "http://example.com/a");
    assert_eq!(t.url, "http://example.com/a");
}

#[test]
fn new_keeps_existing_https_scheme() {
    let t = Target::new("https://example.com".to_string()).unwrap();
    assert_eq!(t.url, "https://example.com");
}

#[test]
fn new_rejects_blank_lines() {
    assert!(Target::new(String::new()).is_none());
    assert!(Target::new("   \t  ".to_string()).is_none());
}

#[test]
fn new_trims_unicode_whitespace() {
    let t = Target::new("\u{3000}example.com\u{3000}".to_string()).unwrap();
    assert_eq!(t.original_text, "example.com");
}

#[test]
fn clean_filename_rewrites_scheme_and_specials() {
    let t = Target::new("https://a.b/c?d=e&f=g%20h".to_string()).unwrap();
    assert_eq!(t.get_clean_filename(), "https_a.b_c_d_e_f_g_20h");
}

#[test]
fn clean_filename_keeps_plain_text() {
    let t = Target::new("example.com".to_string()).unwrap();
    assert_eq!(t.get_clean_filename(), "example.com");
}

#[test]
fn clean_filename_rewrites_ip_port_colon() {
    let t = Target::new("10.0.0.1:8080".to_string()).unwrap();
    assert_eq!(t.get_clean_filename(), "10.0.0.1_8080");
}

#[test]
fn type_of_url() {
    let t = Target::new("https://example.com".to_string()).unwrap();
    assert_eq!(t.get_type(), TargetType::Url);
    let t = Target::new("http://1.2.3.4".to_string()).unwrap();
    assert_eq!(t.get_type(), TargetType::Url);
}

#[test]
fn type_of_domain() {
    let t = Target::new("example.com".to_string()).unwrap();
    assert_eq!(t.get_type(), TargetType::Domain);
}

#[test]
fn type_of_ip() {
    let t = Target::new("1.2.3.4".to_string()).unwrap();
    assert_eq!(t.get_type(), TargetType::Ip);
    let t = Target::new(" 10.20.30.40 ".to_string()).unwrap();
    assert_eq!(t.get_type(), TargetType::Ip);
}

#[test]
fn type_of_ip_accepts_large_groups() {
    let t = Target::new("999.999.999.999".to_string()).unwrap();
    assert_eq!(t.get_type(), TargetType::Ip);
}

#[test]
fn type_of_ip_port() {
    let t = Target::new("10.0.0.1:8080".to_string()).unwrap();
    assert_eq!(t.get_type(), TargetType::IpPort);
}

#[test]
fn type_of_rejects_malformed_quads() {
    assert_eq!(
        Target::new("1.2.3.4.5".to_string()).unwrap().get_type(),
        TargetType::Domain
    );
    assert_eq!(
        Target::new("1234.1.2.3".to_string()).unwrap().get_type(),
        TargetType::Domain
    );
    assert_eq!(
        Target::new("1.2.3".to_string()).unwrap().get_type(),
        TargetType::Domain
    );
    assert_eq!(
        Target::new("1.2.3.4:".to_string()).unwrap().get_type(),
        TargetType::Domain
    );
    assert_eq!(
        Target::new("1.2.3:80".to_string()).unwrap().get_type(),
        TargetType::Domain
    );
    assert_eq!(
        Target::new("1.2.3.4x:80".to_string()).unwrap().get_type(),
        TargetType::Domain
    );
}

#[test]
fn type_labels() {
    assert_eq!(TargetType::Url.label(), "URL");
    assert_eq!(TargetType::Domain.label(), "域名");
    assert_eq!(TargetType::Ip.label(), "IP地址");
    assert_eq!(TargetType::IpPort.label(), "IP:端口");
}

#[test]
fn result_success_carries_path() {
    let t = Target::new("example.com".to_string()).unwrap();
    let r = ScreenshotResult::success(t, "shots\\example.com_1.png".to_string());
    assert!(r.success);
    assert_eq!(r.file_path.as_deref(), Some("shots\\example.com_1.png"));
    assert!(r.error_message.is_none());
    assert_eq!(r.target.original_text, "example.com");
}

#[test]
fn result_failure_carries_reason() {
    let t = Target::new("example.com".to_string()).unwrap();
    let r = ScreenshotResult::failure(t, "navigation timed out".to_string());
    assert!(!r.success);
    assert!(r.file_path.is_none());
    assert_eq!(r.error_message.as_deref(), Some("navigation timed out"));
}
