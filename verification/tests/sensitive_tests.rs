use ai_assistance::sensitive::{inspect_sensitive_text, luhn_check, scan_and_redact};

#[test]
fn email_is_redacted_with_medium_severity() {
    let r = scan_and_redact("contact me at john.doe@example.com").unwrap();
    assert_eq!(r.redacted_text, "contact me at [REDACTED_EMAIL]");
    assert!(r.has_sensitive);
    assert_eq!(r.redaction_count, 1);
    assert_eq!(r.detections, vec!["email_address".to_string()]);
    assert_eq!(r.severity, "medium");
}

#[test]
fn password_is_critical() {
    let r = scan_and_redact("password: hunter2").unwrap();
    assert_eq!(r.redacted_text, "password=[REDACTED_PASSWORD]");
    assert_eq!(r.severity, "critical");
    assert_eq!(r.detections, vec!["password".to_string()]);
}

#[test]
fn valid_card_number_is_high() {
    let r = scan_and_redact("card 4111 1111 1111 1111 ok").unwrap();
    assert_eq!(r.redacted_text, "card [REDACTED_CARD] ok");
    assert_eq!(r.detections, vec!["card_number".to_string()]);
    assert_eq!(r.severity, "high");
}

#[test]
fn clean_text_is_unchanged() {
    let r = scan_and_redact("hello world").unwrap();
    assert_eq!(r.redacted_text, "hello world");
    assert!(!r.has_sensitive);
    assert_eq!(r.redaction_count, 0);
    assert!(r.detections.is_empty());
    assert_eq!(r.severity, "none");
}

#[test]
fn loopback_address_is_kept_and_not_counted() {
    let r = scan_and_redact("server 10.0.0.5 and 127.0.0.1").unwrap();
    assert_eq!(r.redacted_text, "server [REDACTED_IP] and 127.0.0.1");
    assert_eq!(r.redaction_count, 1);
    assert_eq!(r.detections, vec!["ip_address".to_string()]);
    assert_eq!(r.severity, "medium");
}

#[test]
fn detections_are_sorted_and_severity_takes_the_worst() {
    let r = scan_and_redact("mail a@b.io, ssn 123-45-6789").unwrap();
    assert_eq!(r.redacted_text, "mail [REDACTED_EMAIL], ssn [REDACTED_SSN]");
    assert_eq!(r.detections, vec!["email_address".to_string(), "national_id_or_ssn".to_string()]);
    assert_eq!(r.severity, "high");
}

#[test]
fn inspect_is_scan() {
    let a = inspect_sensitive_text("mongodb://user:pw@host/db".to_string()).unwrap();
    assert_eq!(a.redacted_text, "mongodb:[REDACTED_DSN]");
    assert_eq!(a.severity, "critical");
}

#[test]
fn luhn() {
    assert!(luhn_check("4111111111111111"));
    assert!(!luhn_check("4111111111111112"));
    assert!(!luhn_check("41111"));
    assert!(!luhn_check("41111111111111a1"));
}

#[test]
fn unspecified_address_is_not_detected() {
    let r = scan_and_redact("bind 0.0.0.0").unwrap();
    assert_eq!(r.redacted_text, "bind 0.0.0.0");
    assert!(!r.has_sensitive);
    assert_eq!(r.redaction_count, 0);
    assert!(r.detections.is_empty());
    assert_eq!(r.severity, "none");
}

#[test]
fn broadcast_prefix_is_not_detected() {
    let r = scan_and_redact("mask 255.255.255.0").unwrap();
    assert_eq!(r.redacted_text, "mask 255.255.255.0");
    assert_eq!(r.redaction_count, 0);
    assert!(r.detections.is_empty());
    assert_eq!(r.severity, "none");
}

#[test]
fn luhn_failing_number_is_not_detected() {
    let r = scan_and_redact("ref 1234 5678 9012 3456").unwrap();
    assert_eq!(r.redacted_text, "ref 1234 5678 9012 3456");
    assert!(!r.has_sensitive);
    assert_eq!(r.redaction_count, 0);
    assert!(r.detections.is_empty());
    assert_eq!(r.severity, "none");
}
