//! Tests of the error kinds, their JSON-RPC codes, and their display
//! strings.

use tradergrader::TraderGraderError;

#[test]
fn test_error_conversions() {
    let error = TraderGraderError::InvalidRegionId { region_id: 999 };
    assert_eq!(error.to_rpc_code(), -32602);
    assert_eq!(error.message(), "Invalid region ID: 999");

    let error2 = TraderGraderError::from("Test error");
    assert_eq!(error2.to_rpc_code(), -32603);
}

#[test]
fn test_string_conversion() {
    let error = TraderGraderError::from("Custom error message".to_string());
    assert!(error.message().contains("Custom error message"));

    let error2 = TraderGraderError::from("String slice error");
    assert!(error2.message().contains("String slice error"));
}

#[test]
fn test_esi_api_error() {
    let error = TraderGraderError::EsiApiError {
        message: "Service unavailable".to_string(),
    };
    assert_eq!(error.to_rpc_code(), -32603);
    assert!(error.message().contains("EVE ESI API error"));
}

#[test]
fn test_rate_limit_error() {
    let error = TraderGraderError::RateLimitError("Too many requests".to_string());
    assert_eq!(error.to_rpc_code(), -32000);
    assert!(error.message().contains("Rate limit exceeded"));
}

#[test]
fn test_every_error_kind_code_and_message() {
    let cases: Vec<(TraderGraderError, i32, &str)> = vec![
        (
            TraderGraderError::EsiApiError { message: "down".to_string() },
            -32603,
            "EVE ESI API error: down",
        ),
        (
            TraderGraderError::InvalidRegionId { region_id: -7 },
            -32602,
            "Invalid region ID: -7",
        ),
        (
            TraderGraderError::InvalidTypeId { type_id: 0 },
            -32602,
            "Invalid type ID: 0",
        ),
        (
            TraderGraderError::NetworkError("timed out".to_string()),
            -32603,
            "Network error: timed out",
        ),
        (
            TraderGraderError::JsonError("bad token".to_string()),
            -32700,
            "JSON parsing error: bad token",
        ),
        (
            TraderGraderError::CacheError { message: "probe lost".to_string() },
            -32603,
            "Cache error: probe lost",
        ),
        (
            TraderGraderError::RateLimitError("throttled".to_string()),
            -32000,
            "Rate limit exceeded: throttled",
        ),
        (
            TraderGraderError::AuthenticationError("no token".to_string()),
            -32001,
            "Authentication error: no token",
        ),
        (
            TraderGraderError::InternalError("defect".to_string()),
            -32603,
            "Internal server error: defect",
        ),
    ];
    for (error, code, message) in cases {
        assert_eq!(error.to_rpc_code(), code);
        assert_eq!(error.message(), message);
    }
}
