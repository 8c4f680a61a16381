use memory_store::{MemoryError, Result};

#[test]
fn github_api_error_display() {
    let err = MemoryError::GithubApi {
        status: 422,
        message: "Validation failed".to_string(),
    };
    let msg = err.to_string();
    assert!(msg.contains("422"), "status code missing: {msg}");
    assert!(msg.contains("Validation failed"), "message missing: {msg}");
}

#[test]
fn rate_limit_display() {
    let err = MemoryError::RateLimit { retry_after_secs: 30 };
    let msg = err.to_string();
    assert!(msg.contains("30"), "seconds missing: {msg}");
}

#[test]
fn not_found_display() {
    let err = MemoryError::NotFound { issue_number: 42 };
    let msg = err.to_string();
    assert!(msg.contains("42"), "issue number missing: {msg}");
}

#[test]
fn invalid_input_display() {
    let err = MemoryError::InvalidInput("content must not be empty".to_string());
    let msg = err.to_string();
    assert!(msg.contains("content must not be empty"), "inner message missing: {msg}");
}

#[test]
fn from_serde_json_error() {
    let json_err: serde_json::Error =
        serde_json::from_str::<serde_json::Value>("{bad}").unwrap_err();
    let mem_err: MemoryError = json_err.into();
    assert!(matches!(mem_err, MemoryError::Parse(_)));
}

#[test]
fn result_type_alias_works() {
    fn ok_result() -> Result<u32> {
        Ok(42)
    }
    fn err_result() -> Result<u32> {
        Err(MemoryError::InvalidInput("test".to_string()))
    }
    assert_eq!(ok_result().unwrap(), 42);
    assert!(err_result().is_err());
}

#[test]
fn error_texts_are_exact() {
    let api = MemoryError::GithubApi { status: 500, message: "boom".to_string() };
    assert_eq!(api.to_string(), "GitHub API error 500: boom");
    let limited = MemoryError::RateLimit { retry_after_secs: 60 };
    assert_eq!(limited.to_string(), "Rate limited — retry after 60s");
    let http = MemoryError::Http("refused".to_string());
    assert_eq!(http.to_string(), "HTTP error: refused");
    let missing = MemoryError::NotFound { issue_number: u64::MAX };
    assert_eq!(
        missing.to_string(),
        "Memory entry not found: issue #18446744073709551615"
    );
    let invalid = MemoryError::InvalidInput("no".to_string());
    assert_eq!(invalid.to_string(), "Invalid input: no");
}

#[test]
fn parse_errors_carry_the_message_of_the_parser() {
    let text = "{bad}";
    let plain = serde_json::from_str::<serde_json::Value>(text).unwrap_err().to_string();
    let err: MemoryError = serde_json::from_str::<serde_json::Value>(text).unwrap_err().into();
    assert_eq!(err.to_string(), format!("Parse error: {plain}"));
}
