use feed_enricher::intake::{cors_headers, screen_request, HttpMethod, IntakeAction};
use hmac::{Hmac, KeyInit, Mac};
use sha2::Sha256;

fn sign(secret: &[u8], body: &[u8]) -> String {
    let mut mac = <Hmac<Sha256> as KeyInit>::new_from_slice(secret).unwrap();
    mac.update(body);
    hex::encode(mac.finalize().into_bytes())
}

const SECRET: &[u8] = b"shared-secret";
const BODY: &[u8] = br#"{"entries":[{"id":1,"title":"t","url":"u","content":"c","feed_id":2}]}"#;

#[test]
fn options_request_gets_cors_answer() {
    let sig = sign(SECRET, BODY);
    let action = screen_request(HttpMethod::Options, Some(&sig), BODY, SECRET);
    assert_eq!(action, IntakeAction::RespondCors);
}

#[test]
fn non_post_is_method_not_allowed() {
    let sig = sign(SECRET, BODY);
    let action = screen_request(HttpMethod::Other, Some(&sig), BODY, SECRET);
    assert_eq!(action, IntakeAction::RejectMethod);
}

#[test]
fn missing_signature_is_rejected() {
    let action = screen_request(HttpMethod::Post, None, BODY, SECRET);
    assert_eq!(action, IntakeAction::RejectMissingSignature);
}

#[test]
fn wrong_signature_is_rejected_before_parsing() {
    // A perfectly well-formed body changes nothing: the signature decides.
    let wrong = sign(b"other-secret", BODY);
    let action = screen_request(HttpMethod::Post, Some(&wrong), BODY, SECRET);
    assert_eq!(action, IntakeAction::RejectBadSignature);
}

#[test]
fn correct_signature_authorizes_parsing() {
    let sig = sign(SECRET, BODY);
    let action = screen_request(HttpMethod::Post, Some(&sig), BODY, SECRET);
    assert_eq!(action, IntakeAction::ParseBody);
}

#[test]
fn cors_headers_are_permissive() {
    let headers = cors_headers();
    assert_eq!(headers.len(), 3);
    assert_eq!(headers[0].0, "Access-Control-Allow-Origin");
    assert_eq!(headers[0].1, "*");
    assert_eq!(headers[1].0, "Access-Control-Allow-Methods");
    assert_eq!(headers[1].1, "POST, OPTIONS");
    assert_eq!(headers[2].0, "Access-Control-Allow-Headers");
    assert_eq!(headers[2].1, "Content-Type, X-Miniflux-Signature");
}
