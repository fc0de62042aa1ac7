use saas_api::auth::{
    account_locked, authenticated_response, challenge_tenant_id, check_challenge_purpose,
    check_mfa_code, current_user_from_login, hash_password, invalid_credentials,
    is_unique_violation_code, login_step, check_mfa_code_at, check_mfa_reset, login_gate,
    mfa_challenge_outcome, require_mfa_admin, reset_input_from_hash, tenant_slug_taken,
    MfaChallengeOutcome, checks_setup_code, verify_setup_code_at,
    mfa_completion_action, mfa_setup_response, mfa_verify_response, normalize_email,
    normalize_slug, password_reset_accepted, password_reset_token, prepare_password_reset,
    random_token, require_csrf, required_text, session_access, session_clear_cookie,
    session_cookie, session_set_cookie, token_hash, validate_password, validate_registration,
    verify_password, verify_setup_code, CurrentUser, LoginStep, LoginUser, MfaCodeCheck,
    RegisterRequest,
};
use saas_api::cookie::{cookie_value_of, set_cookie};
use saas_api::mfa::{encrypt_secret, six_digit_string, totp_code};

fn hex(bytes: &[u8]) -> String {
    bytes.iter().map(|b| format!("{b:02x}")).collect()
}

fn user(role: &str) -> CurrentUser {
    CurrentUser {
        id: 1,
        tenant_id: 2,
        tenant_slug: "acme".to_owned(),
        tenant_name: "Acme".to_owned(),
        email: "a@acme.test".to_owned(),
        display_name: "A".to_owned(),
        role: role.to_owned(),
        mfa_enabled: false,
        csrf_token: "csrf-token".to_owned(),
    }
}

fn login_user(role: &str, failed: i32, secret: Option<Vec<u8>>) -> LoginUser {
    LoginUser {
        id: 10,
        tenant_id: 20,
        tenant_slug: "acme".to_owned(),
        tenant_name: "Acme".to_owned(),
        email: "a@acme.test".to_owned(),
        display_name: "A".to_owned(),
        role: role.to_owned(),
        password_hash: "unused".to_owned(),
        failed_login_count: failed,
        locked: false,
        mfa_secret_encrypted: secret,
    }
}

#[test]
fn slug_and_email_normalization_is_idempotent() {
    let slug = normalize_slug("  My-Tenant-01 ").unwrap();
    assert_eq!(normalize_slug(&slug).unwrap(), slug);
    let email = normalize_email(" User@Example.COM ").unwrap();
    assert_eq!(normalize_email(&email).unwrap(), email);
}

#[test]
fn slug_errors_carry_the_slug_code() {
    let error = normalize_slug("has space").unwrap_err();
    assert_eq!(error.status, 400);
    assert_eq!(error.code, "INVALID_TENANT_SLUG");
    assert!(normalize_slug("abcd").is_ok());
    assert!(normalize_slug("abc").is_err());
    assert!(normalize_slug(&"a".repeat(50)).is_ok());
    assert!(normalize_slug(&"a".repeat(51)).is_err());
    assert!(normalize_slug("tenant-").is_err());
}

#[test]
fn email_longer_than_limit_is_refused() {
    let long = format!("{}@example.test", "a".repeat(250));
    let error = normalize_email(&long).unwrap_err();
    assert_eq!(error.code, "INVALID_EMAIL");
}

#[test]
fn required_text_names_its_field_and_limit() {
    assert_eq!(required_text("  Acme  ", "テナント名", 100).unwrap(), "Acme");
    let error = required_text("   ", "テナント名", 100).unwrap_err();
    assert_eq!(error.status, 400);
    assert_eq!(error.code, "INVALID_INPUT");
    assert_eq!(error.message, "テナント名は1～100文字で入力してください。");
    assert!(required_text(&"x".repeat(101), "表示名", 100).is_err());
}

#[test]
fn password_length_bounds() {
    assert!(validate_password(&"p".repeat(128)).is_ok());
    let error = validate_password(&"p".repeat(129)).unwrap_err();
    assert_eq!(error.code, "INVALID_PASSWORD");
    assert!(validate_password("12345678901").is_err());
    assert_eq!(
        validate_password("あいうえおかきくけこ").unwrap_err().code,
        "INVALID_PASSWORD"
    );
    assert!(validate_password("あいうえおかきくけこさし").is_ok());
    assert!(validate_password(&"あ".repeat(128)).is_ok());
    assert!(validate_password(&"あ".repeat(129)).is_err());
}

#[test]
fn registration_is_validated_field_by_field() {
    let request = RegisterRequest {
        tenant_name: " Acme ".to_owned(),
        tenant_slug: "Acme-Corp".to_owned(),
        display_name: " Admin ".to_owned(),
        email: " Admin@Acme.TEST ".to_owned(),
        password: "correct horse battery".to_owned(),
    };
    let registration = validate_registration(&request).unwrap();
    assert_eq!(registration.tenant_name, "Acme");
    assert_eq!(registration.tenant_slug, "acme-corp");
    assert_eq!(registration.display_name, "Admin");
    assert_eq!(registration.email, "admin@acme.test");

    let bad = RegisterRequest { tenant_slug: "x".to_owned(), ..request };
    assert_eq!(validate_registration(&bad).err().unwrap().code, "INVALID_TENANT_SLUG");
}

#[test]
fn csrf_token_must_match() {
    let current = user("member");
    assert!(require_csrf(Some("csrf-token"), &current).is_ok());
    let error = require_csrf(Some("other"), &current).unwrap_err();
    assert_eq!(error.status, 403);
    assert_eq!(error.code, "FORBIDDEN");
    assert!(require_csrf(None, &current).is_err());
}

#[test]
fn session_cookie_round_trip() {
    let set = session_set_cookie("tok123", 3600, true);
    assert_eq!(
        set,
        "saas_session=tok123; Path=/; HttpOnly; SameSite=Lax; Max-Age=3600; Secure"
    );
    let header = format!("other=1; {}", set.split(';').next().unwrap());
    assert_eq!(session_cookie(&header), Some("tok123".to_owned()));
    assert_eq!(session_cookie("other=1"), None);
    assert_eq!(
        session_clear_cookie(false),
        "saas_session=; Path=/; HttpOnly; SameSite=Lax; Max-Age=0"
    );
}

#[test]
fn cookie_lookup_takes_first_match_and_trims() {
    assert_eq!(cookie_value_of(" a=1 ;  b = 2; a=3", "a"), Some("1".to_owned()));
    assert_eq!(cookie_value_of("a=1;b=x=y", "b"), Some("x=y".to_owned()));
    assert_eq!(cookie_value_of("novalue; c=", "c"), Some(String::new()));
    assert_eq!(cookie_value_of("", "a"), None);
    assert_eq!(set_cookie("n", "v", "Strict", -5, false), "n=v; Path=/; HttpOnly; SameSite=Strict; Max-Age=-5");
}

#[test]
fn token_hash_is_sha256_of_the_token() {
    assert_eq!(
        hex(&token_hash("abc")),
        "ba7816bf8f01cfea414140de5dae2223b00361a396177a9cb410ff61f20015ad"
    );
}

#[test]
fn random_tokens_are_url_safe_and_fresh() {
    let a = random_token();
    let b = random_token();
    assert_eq!(a.len(), 43);
    assert!(a.chars().all(|c| c.is_ascii_alphanumeric() || c == '-' || c == '_'));
    assert_ne!(a, b);
}

#[test]
fn reset_token_names_its_tenant() {
    let tenant = 0x018f_0000_0000_7000_8000_0000_0000_0001_u128;
    let token = password_reset_token(tenant);
    assert_eq!(token.len(), 80);
    assert!(token.starts_with("018f0000-0000-7000-8000-000000000001."));
    assert_eq!(challenge_tenant_id(&token).unwrap(), tenant);
}

#[test]
fn challenge_token_without_tenant_is_refused() {
    let error = challenge_tenant_id("not-a-uuid.abc").unwrap_err();
    assert_eq!(error.status, 401);
    assert_eq!(error.code, "INVALID_MFA_CHALLENGE");
    assert!(challenge_tenant_id("no dot at all").is_err());
}

#[test]
fn password_hash_verifies_only_its_password() {
    let hash = hash_password("correct horse battery".to_owned()).unwrap();
    assert!(hash.starts_with("$argon2id$v=19$"));
    assert!(verify_password("correct horse battery".to_owned(), hash.clone()).unwrap());
    assert!(!verify_password("wrong password!!".to_owned(), hash).unwrap());
    let error = verify_password("x".to_owned(), "not a phc string".to_owned()).unwrap_err();
    assert_eq!(error.status, 500);
}

#[test]
fn password_reset_checks_token_then_password_then_tenant() {
    let tenant = 7_u128;
    let token = password_reset_token(tenant);
    let input = prepare_password_reset(&format!("  {token}  "), "new password 123".to_owned()).unwrap();
    assert_eq!(input.token, token);
    assert_eq!(input.tenant_id, tenant);
    assert!(verify_password("new password 123".to_owned(), input.password_hash).unwrap());

    let short = prepare_password_reset("short", "new password 123".to_owned()).err().unwrap();
    assert_eq!(short.code, "INVALID_RESET_TOKEN");
    let weak = prepare_password_reset(&token, "short".to_owned()).err().unwrap();
    assert_eq!(weak.code, "INVALID_PASSWORD");
    let no_tenant = prepare_password_reset(&"x".repeat(40), "new password 123".to_owned()).err().unwrap();
    assert_eq!(no_tenant.code, "INVALID_RESET_TOKEN");
}

#[test]
fn password_reset_answer_does_not_reveal_accounts() {
    assert_eq!(
        password_reset_accepted().message,
        "入力された情報に一致するアカウントがある場合、再設定メールを送信しました。"
    );
}

#[test]
fn login_steps_follow_role_and_mfa() {
    assert_eq!(login_step(&login_user("member", 0, None), false), LoginStep::RecordFailure);
    assert_eq!(login_step(&login_user("admin", 0, Some(vec![1])), true), LoginStep::MfaVerify);
    assert_eq!(login_step(&login_user("admin", 3, None), true), LoginStep::MfaSetup);
    assert_eq!(
        login_step(&login_user("member", 2, None), true),
        LoginStep::OpenSession { reset_failures: true }
    );
    assert_eq!(
        login_step(&login_user("member", 0, None), true),
        LoginStep::OpenSession { reset_failures: false }
    );
}

#[test]
fn login_errors_have_their_codes() {
    let error = invalid_credentials();
    assert_eq!((error.status, error.code.as_str()), (401, "INVALID_CREDENTIALS"));
    let locked = account_locked();
    assert_eq!((locked.status, locked.code.as_str()), (429, "ACCOUNT_LOCKED"));
}

#[test]
fn current_user_carries_login_fields() {
    let current = current_user_from_login(login_user("admin", 0, None), "csrf".to_owned(), true);
    assert_eq!(current.id, 10);
    assert_eq!(current.tenant_id, 20);
    assert_eq!(current.role, "admin");
    assert!(current.mfa_enabled);
    assert_eq!(current.csrf_token, "csrf");
    assert!(current.is_admin());
    assert!(!user("member").is_admin());
}

#[test]
fn flow_responses_have_their_status() {
    let done = authenticated_response(user("member"), Some(vec!["AAAAAA-BBBBBBB".to_owned()]));
    assert_eq!(done.status, "authenticated");
    assert!(done.user.is_some());
    assert_eq!(done.recovery_codes.unwrap().len(), 1);

    let verify = mfa_verify_response("tok".to_owned());
    assert_eq!(verify.status, "mfa_required");
    assert_eq!(verify.challenge_token.as_deref(), Some("tok"));
    assert!(verify.user.is_none());

    let setup = mfa_setup_response("tok".to_owned(), b"12345678901234567890", "a@b.test", "Acme");
    assert_eq!(setup.status, "mfa_setup_required");
    assert_eq!(setup.secret.as_deref(), Some("GEZDGNBVGY3TQOJQGEZDGNBVGY3TQOJQ"));
    assert!(setup.provisioning_uri.unwrap().starts_with("otpauth://totp/SaaS%20Platform:Acme%3Aa%40b.test?secret="));
}

#[test]
fn admin_sessions_need_mfa() {
    assert!(session_access(&user("member"), false).is_ok());
    assert!(session_access(&user("admin"), true).is_ok());
    assert_eq!(session_access(&user("admin"), false).unwrap_err().status, 401);
}

#[test]
fn challenge_purpose_must_match() {
    assert!(check_challenge_purpose("setup", "setup").is_ok());
    assert_eq!(
        check_challenge_purpose("verify", "setup").unwrap_err().code,
        "INVALID_MFA_CHALLENGE"
    );
    assert_eq!(mfa_completion_action("setup"), "auth.mfa_setup");
    assert_eq!(mfa_completion_action("verify"), "auth.login");
}

#[test]
fn mfa_code_check_routes_codes() {
    let key = [3_u8; 32];
    let secret = b"12345678901234567890";
    let sealed = encrypt_secret(&key, secret).unwrap();
    let now = std::time::SystemTime::now()
        .duration_since(std::time::UNIX_EPOCH)
        .unwrap()
        .as_secs();
    let code = six_digit_string(totp_code(secret, now / 30));
    assert!(matches!(
        check_mfa_code(&key, Some(&sealed), &format!(" {code} ")),
        Ok(MfaCodeCheck::Accepted)
    ));
    assert!(matches!(check_mfa_code(&key, Some(&sealed), "abc"), Ok(MfaCodeCheck::Rejected)));
    match check_mfa_code(&key, None, "abcd-efgh") {
        Ok(MfaCodeCheck::RecoveryCode(digest)) => assert_eq!(digest, token_hash("ABCDEFGH")),
        _ => panic!("a recovery code is handed on"),
    }
    let broken = check_mfa_code(&key, Some(&[1, 2, 3]), "123456").err().unwrap();
    assert_eq!(broken.status, 500);
}

#[test]
fn setup_code_must_be_a_current_totp() {
    let key = [5_u8; 32];
    let secret = b"12345678901234567890";
    let sealed = encrypt_secret(&key, secret).unwrap();
    let now = std::time::SystemTime::now()
        .duration_since(std::time::UNIX_EPOCH)
        .unwrap()
        .as_secs();
    let code = six_digit_string(totp_code(secret, now / 30));
    assert!(verify_setup_code(&key, Some(&sealed), &code).unwrap());
    assert!(!verify_setup_code(&key, Some(&sealed), "abcdef").unwrap());
    assert_eq!(
        verify_setup_code(&key, None, &code).unwrap_err().code,
        "INVALID_MFA_CHALLENGE"
    );
    assert_eq!(verify_setup_code(&key, Some(&[9; 20]), &code).unwrap_err().status, 500);
}

#[test]
fn unique_violation_is_sqlstate_23505() {
    assert!(is_unique_violation_code(Some("23505")));
    assert!(!is_unique_violation_code(Some("23503")));
    assert!(!is_unique_violation_code(None));
}

#[test]
fn reset_input_takes_the_tenant_of_the_token() {
    let token = password_reset_token(42);
    let input = reset_input_from_hash(token.clone(), "$argon2id$v=19$x".to_owned()).unwrap();
    assert_eq!(input.tenant_id, 42);
    assert_eq!(input.token, token);
    assert_eq!(input.password_hash, "$argon2id$v=19$x");
    let error = reset_input_from_hash("x".repeat(40), "h".to_owned()).err().unwrap();
    assert_eq!((error.status, error.code.as_str()), (400, "INVALID_RESET_TOKEN"));
}

#[test]
fn mfa_code_is_judged_at_a_given_time() {
    let key = [4_u8; 32];
    let secret = b"12345678901234567890";
    let sealed = encrypt_secret(&key, secret).unwrap();
    assert!(matches!(
        check_mfa_code_at(&key, Some(&sealed), " 287082 ", 59),
        Ok(MfaCodeCheck::Accepted)
    ));
    assert!(matches!(
        check_mfa_code_at(&key, Some(&sealed), "287082", 59 + 3600),
        Ok(MfaCodeCheck::Rejected)
    ));
    match check_mfa_code_at(&key, Some(&sealed), "abcd-efgh", 59) {
        Ok(MfaCodeCheck::RecoveryCode(digest)) => assert_eq!(digest, token_hash("ABCDEFGH")),
        _ => panic!("a recovery code is handed on"),
    }
    assert!(matches!(check_mfa_code_at(&key, None, "287082", 59), Ok(MfaCodeCheck::Rejected)));
    let broken = check_mfa_code_at(&[5_u8; 32], Some(&sealed), "287082", 59).err().unwrap();
    assert_eq!(broken.status, 500);
}

#[test]
fn sign_in_and_mfa_steps() {
    let mut locked = login_user("member", 5, None);
    locked.locked = true;
    assert_eq!(login_gate(&locked).unwrap_err().code, "ACCOUNT_LOCKED");
    assert!(login_gate(&login_user("member", 0, None)).is_ok());
    assert!(require_mfa_admin(&user("admin")).is_ok());
    assert_eq!(require_mfa_admin(&user("member")).unwrap_err().status, 403);
    assert_eq!(mfa_challenge_outcome("setup", false), MfaChallengeOutcome::RecordFailure);
    assert_eq!(mfa_challenge_outcome("setup", true), MfaChallengeOutcome::EnableMfa);
    assert_eq!(mfa_challenge_outcome("verify", true), MfaChallengeOutcome::OpenSession);
    assert!(check_mfa_reset(true, true).is_ok());
    assert_eq!(check_mfa_reset(true, false).unwrap_err().code, "INVALID_MFA_CREDENTIALS");
    assert!(check_mfa_reset(false, true).is_err());
    assert_eq!(tenant_slug_taken().code, "TENANT_SLUG_EXISTS");
}

#[test]
fn enrolment_code_is_judged_at_a_given_time() {
    let key = [6_u8; 32];
    let secret = b"12345678901234567890";
    let sealed = encrypt_secret(&key, secret).unwrap();
    assert!(verify_setup_code_at(&key, Some(&sealed), " 287082 ", 59).unwrap());
    assert!(verify_setup_code_at(&key, Some(&sealed), "287082", 89).unwrap());
    assert!(!verify_setup_code_at(&key, Some(&sealed), "287082", 59 + 3600).unwrap());
    assert!(!verify_setup_code_at(&key, Some(&sealed), "abc", 59).unwrap());
    assert_eq!(
        verify_setup_code_at(&key, None, "287082", 59).unwrap_err().code,
        "INVALID_MFA_CHALLENGE"
    );
    assert_eq!(
        verify_setup_code_at(&[1_u8; 32], Some(&sealed), "287082", 59).unwrap_err().status,
        500
    );
    assert!(checks_setup_code("setup"));
    assert!(!checks_setup_code("verify"));
}
