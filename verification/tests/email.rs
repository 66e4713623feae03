use saelora::config::MailjetSettings;
use saelora::email::{is_mailjet_configured, resolve_endpoint, MAILJET_DEFAULT_ENDPOINT};

#[test]
fn resolve_endpoint_defaults_and_normalizes() {
    let cfg = MailjetSettings::default();
    let (url, fell_back) = resolve_endpoint(&cfg);
    assert_eq!(url, MAILJET_DEFAULT_ENDPOINT);
    assert!(!fell_back);

    let cfg2 = MailjetSettings {
        base_url: "api.mailjet.com".to_string(),
        ..Default::default()
    };
    let (url2, fell_back2) = resolve_endpoint(&cfg2);
    assert_eq!(url2, "https://api.mailjet.com/v3.1/send");
    assert!(!fell_back2);

    let cfg3 = MailjetSettings {
        base_url: "https://api.mailjet.com/v3.1/send".to_string(),
        ..Default::default()
    };
    let (url3, fell_back3) = resolve_endpoint(&cfg3);
    assert_eq!(url3, "https://api.mailjet.com/v3.1/send");
    assert!(!fell_back3);

    let cfg4 = MailjetSettings {
        base_url: "https://example.com".to_string(),
        ..Default::default()
    };
    let (url4, fell_back4) = resolve_endpoint(&cfg4);
    assert_eq!(url4, MAILJET_DEFAULT_ENDPOINT);
    assert!(fell_back4);
}

#[test]
fn resolve_endpoint_strips_trailing_slashes() {
    let cfg = MailjetSettings {
        base_url: " http://api.mailjet.com/// ".to_string(),
        ..Default::default()
    };
    assert_eq!(
        resolve_endpoint(&cfg),
        ("http://api.mailjet.com/v3.1/send".to_string(), false)
    );
}

#[test]
fn send_mailjet_requires_configuration() {
    let cfg = MailjetSettings::default();
    assert!(!is_mailjet_configured(&cfg));
    let cfg2 = MailjetSettings {
        api_key: "k".to_string(),
        api_secret: "s".to_string(),
        from_email: "a@b.co".to_string(),
        ..Default::default()
    };
    assert!(is_mailjet_configured(&cfg2));
    let cfg3 = MailjetSettings {
        api_secret: " ".to_string(),
        ..cfg2
    };
    assert!(!is_mailjet_configured(&cfg3));
}
