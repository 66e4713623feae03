use saelora::cli::{listen_candidates, parse_args_from, split_host_port, usage, CliExit};

#[test]
fn cli_parsing_help_version_and_errors() {
    assert_eq!(parse_args_from(&["--help"]).unwrap_err(), CliExit::Help);
    assert_eq!(parse_args_from(&["-h"]).unwrap_err(), CliExit::Help);
    assert_eq!(parse_args_from(&["--version"]).unwrap_err(), CliExit::Version);

    let cfg = parse_args_from(&["--addr", "0.0.0.0:1234", "--headless"]).unwrap();
    assert_eq!(cfg.addr, "0.0.0.0:1234");
    assert!(cfg.headless);

    match parse_args_from(&["--addr"]).unwrap_err() {
        CliExit::Error(s) => assert!(s.contains("--addr")),
        other => panic!("expected CliExit::Error, got {other:?}"),
    }

    match parse_args_from(&["--nope"]).unwrap_err() {
        CliExit::Error(s) => assert!(s.contains("unknown flag")),
        other => panic!("expected CliExit::Error, got {other:?}"),
    }
}

#[test]
fn cli_defaults_and_data_dir() {
    let cfg = parse_args_from(&[]).unwrap();
    assert_eq!(cfg.addr, "127.0.0.1:8080");
    assert_eq!(cfg.data_dir, "./data");
    assert!(!cfg.headless);
    let cfg = parse_args_from(&["--data-dir", "/tmp/x", "--addr", "a:1", "--addr", "b:2"]).unwrap();
    assert_eq!(cfg.data_dir, "/tmp/x");
    assert_eq!(cfg.addr, "b:2");
    assert_eq!(
        parse_args_from(&["--data-dir"]).unwrap_err(),
        CliExit::Error("missing value for --data-dir".to_string())
    );
    assert_eq!(
        parse_args_from(&["--x"]).unwrap_err(),
        CliExit::Error("unknown flag: --x".to_string())
    );
}

#[test]
fn split_host_port_uses_last_colon() {
    assert_eq!(split_host_port("127.0.0.1:8080"), Ok(("127.0.0.1".to_string(), 8080)));
    assert_eq!(split_host_port("[::1]:80"), Ok(("[::1]".to_string(), 80)));
    assert_eq!(split_host_port("host:+7"), Ok(("host".to_string(), 7)));
    assert!(split_host_port("host").is_err());
    assert!(split_host_port("host:70000").is_err());
    assert!(split_host_port("host:").is_err());
}

#[test]
fn listen_candidates_expand_shorthand_and_loopback() {
    assert_eq!(listen_candidates(":8080"), vec!["0.0.0.0:8080", "[::]:8080"]);
    assert_eq!(
        listen_candidates("localhost:3000"),
        vec!["127.0.0.1:3000", "[::1]:3000"]
    );
    assert_eq!(listen_candidates("[::1]:3000"), vec!["[::1]:3000", "127.0.0.1:3000"]);
    assert_eq!(listen_candidates("10.0.0.1:80"), vec!["10.0.0.1:80"]);
    assert_eq!(listen_candidates("nonsense"), vec!["nonsense"]);
}

#[test]
fn usage_names_the_version() {
    let u = usage("1.2.3");
    assert!(u.starts_with("saelora 1.2.3\n\nUsage:"));
    assert!(u.contains("--headless"));
}

#[test]
fn listen_addrs_supports_colon_port_shorthand() {
    let addrs = listen_candidates(":8080");
    assert!(!addrs.is_empty());
    assert!(addrs.iter().any(|a| a == "0.0.0.0:8080"));
    assert!(addrs.iter().any(|a| a == "[::]:8080"));
}
