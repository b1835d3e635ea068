use grpc_docgen::auth::AudienceClaim;
use grpc_docgen::auth::AuthError;
use grpc_docgen::auth::AuthRejection;
use grpc_docgen::auth::JwtClaims;
use grpc_docgen::auth::parse_bearer_token;
use grpc_docgen::auth::principal_from_claims;
use grpc_docgen::json::JsonValue;
use grpc_docgen::pipeline::CliCommand;
use grpc_docgen::pipeline::parse_args;

fn args(list: &[&str]) -> Vec<String> {
    list.iter().map(|s| s.to_string()).collect()
}

#[test]
fn parse_args_defaults_without_flags() {
    let cmd = parse_args(&args(&[])).expect("parses");
    match cmd {
        CliCommand::Run(cfg) => {
            assert_eq!(cfg.proto, "crates/meld-rpc/proto/service.proto");
            assert_eq!(cfg.includes, vec!["crates/meld-rpc/proto".to_string()]);
            assert_eq!(cfg.out_markdown, "docs/generated/grpc-contracts.md");
            assert_eq!(cfg.out_openapi, "docs/generated/grpc-openapi-bridge.json");
        }
        CliCommand::Help => panic!("unexpected help"),
    }
}

#[test]
fn parse_args_reads_every_flag() {
    let cmd = parse_args(&args(&[
        "--proto",
        "x.proto",
        "--include",
        "inc1",
        "--include",
        "inc2",
        "--out-md",
        "out.md",
        "--out-openapi",
        "out.json",
    ]))
    .expect("parses");
    match cmd {
        CliCommand::Run(cfg) => {
            assert_eq!(cfg.proto, "x.proto");
            assert_eq!(cfg.includes, vec!["inc1".to_string(), "inc2".to_string()]);
            assert_eq!(cfg.out_markdown, "out.md");
            assert_eq!(cfg.out_openapi, "out.json");
        }
        CliCommand::Help => panic!("unexpected help"),
    }
}

#[test]
fn parse_args_first_include_replaces_the_default() {
    let cmd = parse_args(&args(&["--include", "only"])).expect("parses");
    match cmd {
        CliCommand::Run(cfg) => assert_eq!(cfg.includes, vec!["only".to_string()]),
        CliCommand::Help => panic!("unexpected help"),
    }
}

#[test]
fn parse_args_rejects_unknown_flags() {
    let err = parse_args(&args(&["--bogus"])).expect_err("must fail");
    assert_eq!(err, "unknown argument: --bogus");
}

#[test]
fn parse_args_rejects_a_flag_without_its_value() {
    let err = parse_args(&args(&["--proto"])).expect_err("must fail");
    assert_eq!(err, "missing value for --proto");
}

#[test]
fn parse_args_stops_at_help() {
    assert!(matches!(
        parse_args(&args(&["--help"])).expect("parses"),
        CliCommand::Help
    ));
    assert!(matches!(
        parse_args(&args(&["-h"])).expect("parses"),
        CliCommand::Help
    ));
}

#[test]
fn bearer_token_is_extracted_and_trimmed() {
    assert_eq!(parse_bearer_token("Bearer abc").expect("token"), "abc");
    assert_eq!(parse_bearer_token("bearer  abc ").expect("token"), "abc");
    assert_eq!(parse_bearer_token("BEARER xyz").expect("token"), "xyz");
}

#[test]
fn bearer_token_rejects_other_schemes_and_blank_tokens() {
    assert!(matches!(
        parse_bearer_token("Basic abc"),
        Err(AuthRejection::InvalidToken(_))
    ));
    assert!(matches!(
        parse_bearer_token("Bearer   "),
        Err(AuthRejection::InvalidToken(_))
    ));
    assert!(matches!(
        parse_bearer_token("Bearer"),
        Err(AuthRejection::InvalidToken(_))
    ));
}

fn base_claims() -> JwtClaims {
    JwtClaims {
        sub: "user-1".to_string(),
        exp: 4_102_444_800,
        iss: Some("https://issuer.local".to_string()),
        aud: Some(AudienceClaim::One("openportio-api".to_string())),
        scope: Some("read:notes write:notes".to_string()),
    }
}

#[test]
fn claims_map_to_a_principal() {
    let principal = principal_from_claims(
        base_claims(),
        Some("https://issuer.local"),
        Some("openportio-api"),
    )
    .expect("claims should validate");
    assert_eq!(principal.subject, "user-1");
    assert_eq!(principal.issuer.as_deref(), Some("https://issuer.local"));
    assert!(principal.audience.iter().any(|aud| aud == "openportio-api"));
    assert!(principal.scopes.iter().any(|scope| scope == "read:notes"));
    assert!(principal.scopes.iter().any(|scope| scope == "write:notes"));
}

#[test]
fn claims_reject_an_issuer_mismatch() {
    let err = principal_from_claims(base_claims(), Some("https://other-issuer.local"), None)
        .expect_err("issuer mismatch should fail");
    assert!(matches!(err, AuthError::IssuerMismatch));
}

#[test]
fn claims_reject_an_audience_mismatch() {
    let err = principal_from_claims(base_claims(), None, Some("other-aud"))
        .expect_err("audience mismatch should fail");
    assert!(matches!(err, AuthError::AudienceMismatch));
}

#[test]
fn audience_claim_flattens_to_a_list() {
    assert_eq!(
        AudienceClaim::One("a".to_string()).into_vec(),
        vec!["a".to_string()]
    );
    assert_eq!(
        AudienceClaim::Many(vec!["a".to_string(), "b".to_string()]).into_vec(),
        vec!["a".to_string(), "b".to_string()]
    );
}

#[test]
fn json_text_escapes_special_characters() {
    let value = JsonValue::Obj(vec![
        (
            "a\"b".to_string(),
            JsonValue::Text("x\\y\nz\t\u{1}".to_string()),
        ),
        ("flag".to_string(), JsonValue::Bool(true)),
        (
            "items".to_string(),
            JsonValue::Arr(vec![JsonValue::Text("one".to_string())]),
        ),
    ]);
    assert_eq!(
        value.to_text(),
        "{\"a\\\"b\":\"x\\\\y\\nz\\t\\u0001\",\"flag\":true,\"items\":[\"one\"]}"
    );
}
