use saelora::openrouter::{
    api_url, auth_headers, check_completion_request, check_embedding_request, is_false, normalize_client_config, Config, HttpError, OpenAiError, OpenAiErrorEnvelope,
};

#[test]
fn error_http_error_from_api_parses_openai_envelope() {
    let body = br#"{"error":{"message":"no auth","type":"invalid_request_error","code":"unauthorized"}}"#;
    let env = OpenAiErrorEnvelope {
        error: OpenAiError {
            message: "no auth".to_string(),
            error_type: "invalid_request_error".to_string(),
            code: "unauthorized".to_string(),
        },
    };
    let e = HttpError::from_api(401, body, Some(env));
    assert_eq!(e.status, Some(401));
    assert_eq!(e.message, "no auth");
    assert_eq!(e.error_type, "invalid_request_error");
    assert_eq!(e.code, "unauthorized");
    assert!(e.transport.is_none());
}

#[test]
fn http_error_without_envelope_keeps_trimmed_body() {
    let e = HttpError::from_api(500, b"  oops \n", None);
    assert_eq!(e.status, Some(500));
    assert_eq!(e.message, "");
    assert_eq!(e.body, "oops");
    let blank = OpenAiErrorEnvelope {
        error: OpenAiError {
            message: "  ".to_string(),
            error_type: "t".to_string(),
            code: "c".to_string(),
        },
    };
    let e = HttpError::from_api(400, b"x", Some(blank));
    assert_eq!(e.error_type, "");
    let p = HttpError::parse("bad json", b" {x ");
    assert_eq!((p.message.as_str(), p.body.as_str()), ("parse error", "{x"));
    assert_eq!(p.transport.as_deref(), Some("bad json"));
    let t = HttpError::transport("refused");
    assert_eq!(t.message, "transport error");
}

#[test]
fn client_config_is_normalized() {
    let c = normalize_client_config(&Config {
        api_key: "k".to_string(),
        base_url: "  https://x.example/v1// ".to_string(),
        http_referer: String::new(),
        x_title: String::new(),
    });
    assert_eq!(c.base_url, "https://x.example/v1");
    let d = normalize_client_config(&Config {
        api_key: "k".to_string(),
        base_url: " ".to_string(),
        http_referer: String::new(),
        x_title: String::new(),
    });
    assert_eq!(d.base_url, saelora::openrouter::DEFAULT_BASE_URL);
    assert!(is_false(&false));
    assert!(!is_false(&true));
}

#[test]
fn requests_are_checked_and_addressed() {
    assert_eq!(
        check_completion_request(" ", 3).unwrap().message,
        "openrouter: missing model"
    );
    assert_eq!(
        check_completion_request("m", 0).unwrap().message,
        "openrouter: missing messages"
    );
    assert!(check_completion_request("m", 1).is_none());
    assert_eq!(
        check_embedding_request("m", 0).unwrap().message,
        "openrouter: missing input"
    );
    assert_eq!(api_url("https://x/v1", "models"), "https://x/v1/models");
    let h = auth_headers(&Config {
        api_key: "k".to_string(),
        base_url: String::new(),
        http_referer: String::new(),
        x_title: "T".to_string(),
    });
    assert_eq!(
        h,
        vec![
            ("Accept".to_string(), "application/json".to_string()),
            ("Authorization".to_string(), "Bearer k".to_string()),
            ("X-Title".to_string(), "T".to_string()),
        ]
    );
}

/// The envelope as the client decodes it from a response body.
fn decode_envelope(body: &[u8]) -> Option<OpenAiErrorEnvelope> {
    let v: serde_json::Value = serde_json::from_slice(body).ok()?;
    let e = v.get("error")?;
    let field = |k: &str| e.get(k).and_then(|x| x.as_str()).unwrap_or("").to_string();
    Some(OpenAiErrorEnvelope {
        error: OpenAiError {
            message: field("message"),
            error_type: field("type"),
            code: field("code"),
        },
    })
}

#[test]
fn openrouter_http_error_from_api_parses_openai_envelope() {
    let body = br#"{"error":{"message":"no auth","type":"invalid_request_error","code":"unauthorized"}}"#;
    let e = HttpError::from_api(401, body, decode_envelope(body));
    assert_eq!(e.status, Some(401));
    assert_eq!(e.message, "no auth");
    assert_eq!(e.error_type, "invalid_request_error");
    assert_eq!(e.code, "unauthorized");
    assert!(e.transport.is_none());
}
