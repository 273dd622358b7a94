use rustyip::address::ip_from_response;
use rustyip::config::{ip_url, DISCOVERY_RETRIES};
use rustyip::error::AgentError;
use rustyip::payload::{build_payload, generate_payload, to_hex, Payload};
use rustyip::retry::{retry, Backoff, Step, RETRY_DELAY};
use sha2::{Digest, Sha512};

fn reference_digest(text: &str) -> String {
    format!("{:x}", Sha512::digest(text.as_bytes()))
}

#[test]
fn test_generate_payload_success() {
    assert_eq!(ip_url("mockhost.local"), "https://mockhost.local/ip.txt");
    let ip = ip_from_response(true, "1.2.3.4").expect("generate_payload failed");
    let payload: Payload = generate_payload(&ip, "test_token", "test_key");
    assert_eq!(payload.status, "success");
    assert!(!payload.data.is_empty());
    assert!(!payload.additional.is_empty());
    assert_eq!(payload.additional.len(), 32);
}

#[test]
fn test_generate_payload_get_ip_fails() {
    let mut state = Backoff::new(RETRY_DELAY, DISCOVERY_RETRIES);
    let result: Result<String, AgentError> = loop {
        let attempt = Err(AgentError::Network("Simulated error for get_ip".to_string()));
        match retry(&mut state, attempt) {
            Step::Wait(_) => {}
            Step::Finish(r) => break r,
        }
    };
    assert!(result.is_err());
    let payload = result.map(|ip| generate_payload(&ip, "test_token", "test_key"));
    assert!(payload.is_err());
}

#[test]
fn generated_data_is_the_digest_of_the_proof_text() {
    let payload = generate_payload("1.2.3.4", "test_token", "test_key");
    let (salt_a, salt_b) = payload.additional.split_at(16);
    let text = format!("{}{}{}{}{}", salt_a, "test_token", "1.2.3.4", salt_b, "test_key");
    assert_eq!(payload.data, reference_digest(&text));
    assert!(payload.additional.chars().all(|c| c.is_ascii_hexdigit() && !c.is_ascii_uppercase()));
}

#[test]
fn fixed_salts_give_the_expected_payload() {
    let salt_a = "0123456789abcdef";
    let salt_b = "fedcba9876543210";
    let payload = build_payload(salt_a, salt_b, "1.2.3.4", "tok", "sekrit");
    let text = "0123456789abcdeftok1.2.3.4fedcba9876543210sekrit";
    assert_eq!(payload.data, reference_digest(text));
    assert_eq!(payload.additional, "0123456789abcdeffedcba9876543210");
    assert_eq!(payload.additional.len(), 32);
    assert_eq!(payload.status, "success");
}

#[test]
fn digest_of_abc_is_the_published_value() {
    let payload = build_payload("a", "", "c", "b", "");
    assert_eq!(
        payload.data,
        "ddaf35a193617abacc417349ae20413112e6fa4e89a97ea20a9eeee64b55d39a\
         2192992a274fc1a836ba3c23a3feebbd454d4423643ce80e2a9ac94fa54ca49f"
    );
    assert_eq!(payload.additional, "a");
}

#[test]
fn field_order_changes_the_digest() {
    let one = build_payload("s1", "s2", "1.2.3.4", "t", "k");
    let two = build_payload("s1", "s2", "1.2.3.4", "k", "t");
    assert_ne!(one.data, two.data);
}

#[test]
fn hex_encoding_is_lowercase_two_digits_per_byte() {
    assert_eq!(to_hex(&vec![0x00, 0xff, 0x1a, 0x09]), "00ff1a09");
    assert_eq!(to_hex(&vec![]), "");
}

#[test]
fn end_to_end_cycle_payload() {
    assert_eq!(ip_url("example.com"), "https://example.com/ip.txt");
    let ip = ip_from_response(true, "203.0.113.5").unwrap();
    assert_eq!(ip, "203.0.113.5");
    let payload = generate_payload(&ip, "t1", "k1");
    assert_eq!(payload.additional.len(), 32);
    assert_eq!(payload.data.len(), 128);
    assert_eq!(payload.status, "success");
}
