use rustyip::address::ip_from_response;
use rustyip::config::{endpoint_url, ip_url, poll_seconds, DEFAULT_POLL_MINUTES};
use rustyip::error::AgentError;

#[test]
fn test_get_ip_success() {
    assert_eq!(ip_url("mockhost.local"), "https://mockhost.local/ip.txt");
    let result = ip_from_response(true, "1.2.3.4");
    assert!(result.is_ok(), "Expected OK, got Err: {:?}", result.as_ref().err());
    assert_eq!(result.unwrap(), "1.2.3.4");
}

#[test]
fn test_get_ip_not_success_status() {
    let result = ip_from_response(false, "");
    assert!(result.is_err());
    assert_eq!(result.err().unwrap().message(), "Failed to get a valid IP address");
}

#[test]
fn test_get_ip_invalid_ip_format() {
    let result = ip_from_response(true, "not-an-ip");
    assert!(result.is_err());
    assert_eq!(result.err().unwrap().message(), "Failed to get a valid IP address");
}

#[test]
fn bad_status_fails_even_with_a_valid_body() {
    let result = ip_from_response(false, "1.2.3.4");
    assert!(matches!(result, Err(AgentError::InvalidAddress)));
}

#[test]
fn surrounding_white_space_is_trimmed() {
    assert_eq!(ip_from_response(true, "  203.0.113.5\n").unwrap(), "203.0.113.5");
    assert_eq!(ip_from_response(true, "\t10.0.0.1\r\n").unwrap(), "10.0.0.1");
    assert_eq!(ip_from_response(true, "\u{a0}8.8.8.8\u{3000}").unwrap(), "8.8.8.8");
}

#[test]
fn octet_extremes_are_accepted() {
    assert_eq!(ip_from_response(true, "0.0.0.0").unwrap(), "0.0.0.0");
    assert_eq!(ip_from_response(true, "255.255.255.255").unwrap(), "255.255.255.255");
    assert_eq!(ip_from_response(true, "100.20.3.199").unwrap(), "100.20.3.199");
}

#[test]
fn malformed_addresses_are_rejected() {
    for body in [
        "", " ", "256.1.1.1", "1.2.3", "1.2.3.4.5", "01.2.3.4", "1.2.3.04", "1..2.3", "1.2.3.",
        ".1.2.3", "1.2.3.4 x", "1.2.3.4/24", "+1.2.3.4", "1.2.3.1000", "1.2.3.٤", "a.b.c.d",
    ] {
        let result = ip_from_response(true, body);
        assert!(matches!(result, Err(AgentError::InvalidAddress)), "accepted {:?}", body);
    }
}

#[test]
fn error_messages() {
    assert_eq!(AgentError::Network("timeout".to_string()).message(), "network error: timeout");
    assert_eq!(AgentError::Config("KEY".to_string()).message(), "configuration error: KEY");
}

#[test]
fn endpoint_addresses() {
    assert_eq!(endpoint_url("example.com", "abc"), "https://example.com/data/abc/");
    assert_eq!(ip_url("example.com"), "https://example.com/ip.txt");
}

#[test]
fn poll_interval_in_seconds() {
    assert_eq!(poll_seconds(DEFAULT_POLL_MINUTES), 300);
    assert_eq!(poll_seconds(0), 60);
    assert_eq!(poll_seconds(1), 60);
    assert_eq!(poll_seconds(u64::MAX), u64::MAX);
}
