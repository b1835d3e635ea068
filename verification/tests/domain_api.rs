use grpc_docgen::domain::AlloyError;
use grpc_docgen::domain::AppState;
use grpc_docgen::domain::HelloRequest;
use grpc_docgen::domain::HelloResponse;
use grpc_docgen::domain::build_hello_response;

#[test]
fn greet_rejects_empty_name() {
    let state = AppState::local("alloy-test");
    let result = state.greet("  ");
    assert!(matches!(result, Err(AlloyError::Validation(_))));
}

#[test]
fn greet_returns_message() {
    let state = AppState::local("alloy-test");
    let result = state.greet("Rust");
    assert_eq!(result.expect("must greet"), "Hello, Rust!");
}

#[test]
fn generated_types_and_service_are_usable() {
    let req = HelloRequest {
        name: "Rust".to_string(),
    };
    assert_eq!(req.name, "Rust");
    let resp = HelloResponse {
        message: String::new(),
    };
    assert_eq!(resp.message, "");
}

#[test]
fn build_hello_response_matches_domain_behavior() {
    let state = AppState::local("rpc-contract-test");
    let result = build_hello_response(
        &state,
        HelloRequest {
            name: "Rust".to_string(),
        },
    )
    .expect("response should be built");

    assert_eq!(result.message, "Hello, Rust!");
}

#[test]
fn greet_rejects_unicode_whitespace_only_name() {
    let state = AppState::local("alloy-test");
    let result = state.greet("\u{00A0}\t\n");
    assert!(matches!(result, Err(AlloyError::Validation(_))));
}

#[test]
fn validation_error_message_is_prefixed() {
    let err = AlloyError::Validation("name must not be empty".to_string());
    assert_eq!(err.message(), "validation error: name must not be empty");
    let err = AlloyError::Internal("boom".to_string());
    assert_eq!(err.message(), "internal error: boom");
}
