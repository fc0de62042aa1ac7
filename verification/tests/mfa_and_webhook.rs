use std::time::{SystemTime, UNIX_EPOCH};

use hmac::{Hmac, Mac};
use sha2::Sha256;

use saas_api::billing::{decode_hex, verify_webhook_signature};
use saas_api::mfa::{decrypt_secret, encrypt_secret, normalize_recovery_code, totp_code};
use saas_api::platform;

#[test]
fn webhook_signature_is_verified_against_raw_body() {
    let secret = "whsec_test";
    let body = br#"{"id":"evt_test"}"#;
    let timestamp = SystemTime::now()
        .duration_since(UNIX_EPOCH)
        .unwrap()
        .as_secs();
    let payload = [timestamp.to_string().as_bytes(), b".", body].concat();
    let mut mac = Hmac::<Sha256>::new_from_slice(secret.as_bytes()).unwrap();
    mac.update(&payload);
    let signature = mac
        .finalize()
        .into_bytes()
        .iter()
        .map(|byte| format!("{byte:02x}"))
        .collect::<String>();

    assert!(verify_webhook_signature(secret, &format!("t={timestamp},v1={signature}"), body).is_ok());
    assert!(verify_webhook_signature(secret, &format!("t={timestamp},v1=00"), body).is_err());
    assert_eq!(decode_hex("00ff"), Some(vec![0, 255]));
}

#[test]
fn totp_accepts_rfc_6238_sha1_vector() {
    assert!(saas_api::mfa::verify_totp_at(b"12345678901234567890", "287082", 59));
}

#[test]
fn secret_round_trip_uses_authenticated_encryption() {
    let key = [7_u8; 32];
    let encrypted = encrypt_secret(&key, b"secret").unwrap();
    assert_ne!(encrypted, b"secret");
    assert_eq!(decrypt_secret(&key, &encrypted).unwrap(), b"secret");
}

#[test]
fn recovery_code_normalization_ignores_separator_and_case() {
    assert_eq!(normalize_recovery_code("abcd-efgh"), "ABCDEFGH");
}

#[test]
fn totp_accepts_current_and_adjacent_steps() {
    let secret = b"12345678901234567890";
    let timestamp = 59;
    let code = format!("{:06}", totp_code(secret, timestamp / 30));

    assert!(platform::verify_totp_at(secret, &code, timestamp));
    assert!(platform::verify_totp_at(secret, &code, timestamp + 30));
    assert!(!platform::verify_totp_at(secret, "invalid", timestamp));
}
