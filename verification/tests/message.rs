use email_relay::errors::EmailError;
use email_relay::message::{build_message, EmailRequest, OutboundMessage};
use email_relay::settings::EmailSettings;

fn defaults() -> EmailSettings {
    EmailSettings {
        smtp_server: "smtp.example.com".to_string(),
        smtp_port: 465,
        email_account: "account@example.com".to_string(),
        email_password: "SECRET-REDACTED".to_string(),
        email_from: "noreply@example.com".to_string(),
        email_to: "inbox@example.com".to_string(),
        sender_name: "Relay".to_string(),
    }
}

fn request(from: &str, to: &str, sender_name: &str, subject: &str, body: &str) -> EmailRequest {
    EmailRequest {
        from: from.to_string(),
        to: to.to_string(),
        sender_name: sender_name.to_string(),
        subject: subject.to_string(),
        body: body.to_string(),
    }
}

fn built(req: &EmailRequest) -> OutboundMessage {
    build_message(req, &defaults()).expect("well-formed addresses must build")
}

#[test]
fn empty_fields_use_all_defaults() {
    let m = built(&request("", "", "", "hi", "there"));
    assert_eq!(m.from_display, "Relay <noreply@example.com>");
    assert_eq!(m.to, "inbox@example.com");
    assert_eq!(m.subject, "hi");
    assert_eq!(m.body, "there");
}

#[test]
fn non_empty_fields_override_exactly_those_defaults() {
    let m = built(&request("sender@example.org", "", "", "s", "b"));
    assert_eq!(m.from_display, "Relay <sender@example.org>");
    assert_eq!(m.to, "inbox@example.com");

    let m = built(&request("", "other@example.org", "", "s", "b"));
    assert_eq!(m.from_display, "Relay <noreply@example.com>");
    assert_eq!(m.to, "other@example.org");

    let m = built(&request("", "", "Alerts", "s", "b"));
    assert_eq!(m.from_display, "Alerts <noreply@example.com>");
    assert_eq!(m.to, "inbox@example.com");

    let m = built(&request("a@example.org", "b@example.org", "Ops", "s", "b"));
    assert_eq!(m.from_display, "Ops <a@example.org>");
    assert_eq!(m.to, "b@example.org");
}

#[test]
fn subject_and_body_are_copied_verbatim() {
    let m = built(&request("", "", "", "", ""));
    assert_eq!(m.subject, "");
    assert_eq!(m.body, "");
}

#[test]
fn malformed_recipient_is_rejected() {
    let r = build_message(&request("", "no-at-sign", "", "s", "b"), &defaults());
    assert_eq!(r.unwrap_err(), EmailError::AddressFormatError);
}

#[test]
fn malformed_sender_is_rejected() {
    let r = build_message(&request("spaces in address", "", "", "s", "b"), &defaults());
    assert_eq!(r.unwrap_err(), EmailError::AddressFormatError);
}
