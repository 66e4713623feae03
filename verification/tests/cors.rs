use saelora::api::cors::{allowed_origin, is_allowed_origin, is_local_dev_origin, normalize_origin};
use saelora::config::default_settings;

#[test]
fn cors_allows_localhost_and_public_base_only() {
    let mut s = default_settings();
    s.public_base = "saelora.ai".to_string();

    assert!(is_allowed_origin("http://localhost:5173", &s));
    assert!(is_allowed_origin("http://127.0.0.1:5173", &s));
    assert!(is_allowed_origin("https://saelora.ai", &s));
    assert!(!is_allowed_origin("https://evil.example", &s));
}

#[test]
fn origins_normalize_to_scheme_and_authority() {
    assert_eq!(normalize_origin("https://a.example/path?q=1"), Some("https://a.example".to_string()));
    assert_eq!(normalize_origin("/relative"), None);
    assert!(is_local_dev_origin("http://localhost:3000"));
    assert!(!is_local_dev_origin("https://localhost:3000"));
    assert!(!is_local_dev_origin("http://example.com"));
}

#[test]
fn echoed_origin_needs_an_allowed_header() {
    let s = default_settings();
    assert_eq!(allowed_origin(None, &s), None);
    assert_eq!(allowed_origin(Some("  "), &s), None);
    assert_eq!(
        allowed_origin(Some(" http://localhost:1 "), &s),
        Some("http://localhost:1".to_string())
    );
    assert_eq!(allowed_origin(Some("https://x.example"), &s), None);
}

fn parts(scheme: Option<&str>, authority: Option<&str>, host: Option<&str>) -> saelora::uri::UriParts {
    saelora::uri::UriParts {
        scheme: scheme.map(String::from),
        authority: authority.map(String::from),
        host: host.map(String::from),
        path: "/".to_string(),
    }
}

#[test]
fn origin_and_local_dev_from_parsed_parts() {
    let p = parts(Some("http"), Some("localhost:5173"), Some("localhost"));
    assert_eq!(saelora::api::cors::origin_from_parts(Some(p)), Some("http://localhost:5173".to_string()));
    assert_eq!(saelora::api::cors::origin_from_parts(Some(parts(None, Some("a"), Some("a")))), None);
    assert_eq!(saelora::api::cors::origin_from_parts(None), None);
    assert!(saelora::api::cors::local_dev_from_parts(Some(parts(Some("http"), Some("[::1]:80"), Some("::1")))));
    assert!(!saelora::api::cors::local_dev_from_parts(Some(parts(Some("https"), Some("localhost"), Some("localhost")))));
    assert!(!saelora::api::cors::local_dev_from_parts(None));
}
