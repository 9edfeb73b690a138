//! End-to-end runs of the request pipeline: admission, message construction,
//! and response mapping, with the transport collaborator's outcome supplied
//! by the test.

use email_relay::errors::EmailError;
use email_relay::limiter::RateLimit;
use email_relay::message::EmailRequest;
use email_relay::orchestrate::admit_and_build_at;
use email_relay::respond::{error_response, send_outcome_response};
use email_relay::settings::{AppSettings, EmailSettings, ServerSettings};

fn settings() -> AppSettings {
    AppSettings {
        email: EmailSettings {
            smtp_server: "smtp.example.com".to_string(),
            smtp_port: 465,
            email_account: "account@example.com".to_string(),
            email_password: "SECRET-REDACTED".to_string(),
            email_from: "noreply@example.com".to_string(),
            email_to: "inbox@example.com".to_string(),
            sender_name: "Relay".to_string(),
        },
        server: ServerSettings {
            server_host: "0.0.0.0".to_string(),
            server_port: 3000,
            api_key: "k-123".to_string(),
        },
    }
}

fn plain_request(subject: &str, body: &str) -> EmailRequest {
    EmailRequest {
        from: String::new(),
        to: String::new(),
        sender_name: String::new(),
        subject: subject.to_string(),
        body: body.to_string(),
    }
}

#[test]
fn valid_request_from_fresh_identity_succeeds() {
    let cfg = settings();
    let mut rl = RateLimit::new();
    let req = plain_request("hi", "there");
    let msg = admit_and_build_at(&mut rl, Some("k-123"), Some("203.0.113.9"), &req, &cfg, 1_000)
        .expect("a fresh identity with a valid credential must be admitted");
    assert_eq!(msg.from_display, "Relay <noreply@example.com>");
    assert_eq!(msg.to, "inbox@example.com");
    assert_eq!(msg.subject, "hi");
    assert_eq!(msg.body, "there");
    let (status, body) = send_outcome_response(Ok(()));
    assert_eq!(status, 200);
    assert_eq!(body.status, "success");
    assert_eq!(body.message, "Email sent successfully");
}

#[test]
fn eleventh_request_within_ten_seconds_is_rate_limited() {
    let cfg = settings();
    let mut rl = RateLimit::new();
    for k in 0..10u64 {
        let req = plain_request("s", "b");
        let r = admit_and_build_at(&mut rl, Some("k-123"), Some("198.51.100.7"), &req, &cfg, k * 1_000);
        assert!(r.is_ok());
    }
    let req = plain_request("s", "b");
    let r = admit_and_build_at(&mut rl, Some("k-123"), Some("198.51.100.7"), &req, &cfg, 10_000);
    assert_eq!(r.unwrap_err(), EmailError::RateLimited);
    let (status, _) = error_response(&EmailError::RateLimited);
    assert_eq!(status, 429);
}

#[test]
fn missing_credential_is_unauthorized_and_not_counted() {
    let cfg = settings();
    let mut rl = RateLimit::new();
    // Eleven requests without a credential: all rejected before rate-limit
    // accounting.
    for k in 0..11u64 {
        let req = plain_request("s", "b");
        let r = admit_and_build_at(&mut rl, None, Some("192.0.2.4"), &req, &cfg, k);
        let e = r.unwrap_err();
        assert_eq!(e, EmailError::MissingCredential);
        let (status, _) = error_response(&e);
        assert_eq!(status, 401);
    }
    // The identity's quota is untouched: ten valid requests still go through.
    for k in 0..10u64 {
        let req = plain_request("s", "b");
        assert!(admit_and_build_at(&mut rl, Some("k-123"), Some("192.0.2.4"), &req, &cfg, 100 + k).is_ok());
    }
    let req = plain_request("s", "b");
    assert_eq!(
        admit_and_build_at(&mut rl, Some("k-123"), Some("192.0.2.4"), &req, &cfg, 111).unwrap_err(),
        EmailError::RateLimited
    );
}

#[test]
fn invalid_credential_is_unauthorized() {
    let cfg = settings();
    let mut rl = RateLimit::new();
    let req = plain_request("s", "b");
    let e = admit_and_build_at(&mut rl, Some("nope"), Some("192.0.2.5"), &req, &cfg, 0).unwrap_err();
    assert_eq!(e, EmailError::InvalidCredential);
    let (status, _) = error_response(&e);
    assert_eq!(status, 401);
}

#[test]
fn absent_forwarding_header_uses_the_unknown_identity() {
    let cfg = settings();
    let mut rl = RateLimit::new();
    for k in 0..10u64 {
        let req = plain_request("s", "b");
        assert!(admit_and_build_at(&mut rl, Some("k-123"), None, &req, &cfg, k).is_ok());
    }
    // The sentinel identity is saturated whether the header is absent or
    // literally "unknown".
    let req = plain_request("s", "b");
    assert_eq!(
        admit_and_build_at(&mut rl, Some("k-123"), Some("unknown"), &req, &cfg, 10).unwrap_err(),
        EmailError::RateLimited
    );
}

#[test]
fn transport_failure_is_surfaced_with_its_text() {
    let cfg = settings();
    let mut rl = RateLimit::new();
    let req = plain_request("s", "b");
    let msg = admit_and_build_at(&mut rl, Some("k-123"), Some("203.0.113.1"), &req, &cfg, 0)
        .expect("well-formed request must be admitted");
    assert_eq!(msg.to, "inbox@example.com");
    // The transport collaborator fails; the pipeline maps the failure once,
    // with the transport's own text embedded, and attempts no retry.
    let (status, body) = send_outcome_response(Err("lost connection to relay".to_string()));
    assert_eq!(status, 500);
    assert_eq!(body.status, "error");
    assert_eq!(body.message, "Failed to send email: lost connection to relay");
}
