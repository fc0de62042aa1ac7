use saas_api::auth::challenge_tenant_id;
use saas_api::encoding::{base32_encode, base64_url_encode, parse_uuid, uuid_to_string};
use saas_api::mfa::{
    challenge_token, decrypt_secret, encode_secret, encrypt_secret, generate_recovery_codes,
    generate_secret, is_six_digit_text, normalize_recovery_code, percent_encode,
    provisioning_uri, six_digit_string, totp_code, verify_totp_at,
};
use saas_api::platform;

const RFC_SECRET: &[u8] = b"12345678901234567890";

#[test]
fn totp_matches_the_reference_vectors() {
    assert_eq!(totp_code(RFC_SECRET, 59 / 30), 287082);
    assert_eq!(totp_code(RFC_SECRET, 1111111109 / 30), 81804);
    assert_eq!(totp_code(RFC_SECRET, 1234567890 / 30), 5924);
    assert_eq!(six_digit_string(81804), "081804");
    assert!(verify_totp_at(RFC_SECRET, "081804", 1111111109));
}

#[test]
fn totp_window_is_one_step_each_way() {
    let t = 1_000_000_u64;
    let code = six_digit_string(totp_code(RFC_SECRET, t / 30));
    assert!(verify_totp_at(RFC_SECRET, &code, t - 30));
    assert!(verify_totp_at(RFC_SECRET, &code, t + 30));
    let far = six_digit_string(totp_code(RFC_SECRET, t / 30 + 5));
    if far != code {
        assert!(!verify_totp_at(RFC_SECRET, &far, t));
    }
    assert_eq!(
        verify_totp_at(RFC_SECRET, &code, t),
        platform::verify_totp_at(RFC_SECRET, &code, t)
    );
}

#[test]
fn codes_must_be_six_ascii_digits() {
    assert!(is_six_digit_text("012345"));
    assert!(!is_six_digit_text("12345"));
    assert!(!is_six_digit_text("1234567"));
    assert!(!is_six_digit_text("12a456"));
    assert!(!is_six_digit_text("１２３４５６"));
    assert!(!verify_totp_at(RFC_SECRET, " 287082", 59));
}

#[test]
fn secrets_are_twenty_random_bytes() {
    let a = generate_secret();
    assert_eq!(a.len(), 20);
    assert_ne!(a, generate_secret());
    assert_eq!(encode_secret(RFC_SECRET), "GEZDGNBVGY3TQOJQGEZDGNBVGY3TQOJQ");
    assert_eq!(base32_encode(b"f"), "MY");
    assert_eq!(base64_url_encode(&[0xfb, 0xff]), "-_8");
}

#[test]
fn provisioning_uri_encodes_issuer_and_account() {
    assert_eq!(percent_encode("a b/~ü"), "a%20b%2F~%C3%BC");
    assert_eq!(
        provisioning_uri(RFC_SECRET, "a@b.test", "Acme Inc"),
        "otpauth://totp/SaaS%20Platform:Acme%20Inc%3Aa%40b.test?secret=GEZDGNBVGY3TQOJQGEZDGNBVGY3TQOJQ&issuer=SaaS%20Platform&algorithm=SHA1&digits=6&period=30"
    );
}

#[test]
fn recovery_codes_are_ten_formatted_codes() {
    let codes = generate_recovery_codes();
    assert_eq!(codes.len(), 10);
    for code in &codes {
        assert_eq!(code.len(), 14);
        assert_eq!(&code[6..7], "-");
        let normalized = normalize_recovery_code(code);
        assert_eq!(normalized.len(), 13);
        assert_eq!(normalized, code.replace('-', ""));
        assert_eq!(normalize_recovery_code(&code.to_lowercase()), normalized);
    }
}

#[test]
fn recovery_code_normalization_trims_first() {
    assert_eq!(normalize_recovery_code("  abc-def-ghi \n"), "ABCDEFGHI");
    assert_eq!(normalize_recovery_code("- a"), " A");
}

#[test]
fn sealed_secret_is_nonce_then_ciphertext() {
    let key = [9_u8; 32];
    let sealed = encrypt_secret(&key, RFC_SECRET).unwrap();
    assert_eq!(sealed.len(), 12 + RFC_SECRET.len() + 16);
    assert_ne!(sealed, encrypt_secret(&key, RFC_SECRET).unwrap());
    assert_eq!(decrypt_secret(&key, &sealed).unwrap(), RFC_SECRET);
    assert_eq!(decrypt_secret(&[8_u8; 32], &sealed).unwrap_err().status, 500);
    assert_eq!(decrypt_secret(&key, &sealed[..12]).unwrap_err().status, 500);
    let mut tampered = sealed.clone();
    tampered[20] ^= 1;
    assert!(decrypt_secret(&key, &tampered).is_err());
}

#[test]
fn challenge_tokens_name_their_tenant() {
    let tenant = 0x0123_4567_89ab_cdef_0123_4567_89ab_cdef_u128;
    let token = challenge_token(tenant);
    assert_eq!(token.len(), 80);
    assert!(token.starts_with("01234567-89ab-cdef-0123-456789abcdef."));
    assert_eq!(challenge_tenant_id(&token).unwrap(), tenant);
    assert_ne!(token, challenge_token(tenant));
}

#[test]
fn uuid_text_round_trip() {
    let id = 0xfedc_ba98_7654_3210_0f1e_2d3c_4b5a_6978_u128;
    let text = uuid_to_string(id);
    assert_eq!(text, "fedcba98-7654-3210-0f1e-2d3c4b5a6978");
    assert_eq!(parse_uuid(&text), Some(id));
    assert_eq!(parse_uuid("FEDCBA98-7654-3210-0F1E-2D3C4B5A6978"), Some(id));
    assert_eq!(parse_uuid("not a uuid"), None);
}
