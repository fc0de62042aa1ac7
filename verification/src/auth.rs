//! Sign-up, sign-in and session rules of tenant users.
use crate::cookie::{cookie_value, cookie_value_of, set_cookie, set_cookie_text};
use crate::crypto::{
    argon2_check, argon2_hash, argon2_verify, generate_salt, random_bytes, unix_time_now, sha256, sha256_digest,
    text_view,
};
use crate::encoding::{
    base64_url_encode, base64_url_nopad, is_base64_url_char, lemma_uuid_hyphenated_chars,
    parse_uuid, uuid_hyphenated, uuid_parse, uuid_to_string,
};
use crate::error::{text_result, unit_result, ApiError, ApiResult};
use crate::mfa::{internal_error, normalized_recovery_code, normalize_recovery_code};
use crate::text::{lemma_first_pos_unique, split_once, split_once_str};
use crate::text::{
    ascii_lower, byte_len, char_count, decimal, is_ascii_digit, is_ascii_lower, push_decimal,
    push_str, str_eq, to_ascii_lowercase, trim, trim_str, utf8_len,
};
use vstd::prelude::*;

verus! {

/// The cookie that carries a tenant user's session token.
pub const SESSION_COOKIE: &'static str = "saas_session";

/// `s` trimmed and with its ASCII letters in lower case.
pub open spec fn normalized(s: Seq<char>) -> Seq<char> {
    ascii_lower(trim(s))
}

pub open spec fn is_slug_char(c: char) -> bool {
    is_ascii_lower(c) || is_ascii_digit(c) || c == '-'
}

/// A tenant ID: 4 to 50 bytes of lower-case letters, digits and hyphens,
/// neither starting nor ending with a hyphen.
pub open spec fn is_valid_slug(v: Seq<char>) -> bool {
    &&& 4 <= utf8_len(v) <= 50
    &&& forall|i: int| 0 <= i < v.len() ==> is_slug_char(#[trigger] v[i])
    &&& !(v.len() > 0 && v[0] == '-')
    &&& !(v.len() > 0 && v.last() == '-')
}

/// An e-mail address: at most 254 bytes and holding an `@`.
pub open spec fn is_valid_email(v: Seq<char>) -> bool {
    utf8_len(v) <= 254 && v.contains('@')
}

/// A password: 12 to 128 characters.
pub open spec fn is_valid_password(p: Seq<char>) -> bool {
    12 <= p.len() <= 128
}

/// The outcome of `normalize_slug`.
pub open spec fn slug_result(value: Seq<char>) -> Result<Seq<char>, (u16, Seq<char>, Seq<char>)> {
    if is_valid_slug(normalized(value)) {
        Ok(normalized(value))
    } else {
        Err(invalid_slug_error())
    }
}

/// The outcome of `normalize_email`.
pub open spec fn email_result(value: Seq<char>) -> Result<Seq<char>, (u16, Seq<char>, Seq<char>)> {
    if is_valid_email(normalized(value)) {
        Ok(normalized(value))
    } else {
        Err(invalid_email_error())
    }
}

/// The outcome of `required_text`.
pub open spec fn required_text_result(value: Seq<char>, label: Seq<char>, max_length: nat) -> Result<
    Seq<char>,
    (u16, Seq<char>, Seq<char>),
> {
    if 0 < trim(value).len() <= max_length {
        Ok(trim(value))
    } else {
        Err((400u16, "INVALID_INPUT"@, invalid_text_message(label, max_length)))
    }
}

/// The outcome of `validate_password`.
pub open spec fn password_result(password: Seq<char>) -> Result<(), (u16, Seq<char>, Seq<char>)> {
    if is_valid_password(password) {
        Ok(())
    } else {
        Err(invalid_password_error())
    }
}

pub open spec fn invalid_slug_error() -> (u16, Seq<char>, Seq<char>) {
    (
        400u16,
        "INVALID_TENANT_SLUG"@,
        "テナントIDは4～50文字の英小文字、数字、ハイフンで入力してください。"@,
    )
}

pub open spec fn invalid_email_error() -> (u16, Seq<char>, Seq<char>) {
    (400u16, "INVALID_EMAIL"@, "メールアドレスを正しく入力してください。"@)
}

pub open spec fn invalid_password_error() -> (u16, Seq<char>, Seq<char>) {
    (400u16, "INVALID_PASSWORD"@, "パスワードは12～128文字で入力してください。"@)
}

/// The message of a text field of `label` that is empty or longer than
/// `max_length` characters.
pub open spec fn invalid_text_message(label: Seq<char>, max_length: nat) -> Seq<char> {
    label + "は1～"@ + decimal(max_length) + "文字で入力してください。"@
}

pub open spec fn invalid_credentials_error() -> (u16, Seq<char>, Seq<char>) {
    (
        401u16,
        "INVALID_CREDENTIALS"@,
        "テナントID、メールアドレス、またはパスワードが正しくありません。"@,
    )
}

pub open spec fn invalid_mfa_challenge_error() -> (u16, Seq<char>, Seq<char>) {
    (
        401u16,
        "INVALID_MFA_CHALLENGE"@,
        "MFA認証の有効期限が切れています。もう一度ログインしてください。"@,
    )
}

pub open spec fn invalid_mfa_code_error() -> (u16, Seq<char>, Seq<char>) {
    (
        401u16,
        "INVALID_MFA_CODE"@,
        "認証コードまたはリカバリーコードが正しくありません。"@,
    )
}

pub open spec fn invalid_reset_token_error() -> (u16, Seq<char>, Seq<char>) {
    (
        400u16,
        "INVALID_RESET_TOKEN"@,
        "再設定リンクが無効か、有効期限が切れています。もう一度申請してください。"@,
    )
}

pub open spec fn admin_required_error() -> (u16, Seq<char>, Seq<char>) {
    (403u16, "FORBIDDEN"@, "管理者権限が必要です。"@)
}

pub open spec fn csrf_error() -> (u16, Seq<char>, Seq<char>) {
    (403u16, "FORBIDDEN"@, "CSRFトークンが不正です。"@)
}

fn is_slug_text(v: &str) -> (b: bool)
    ensures
        b == (forall|i: int| 0 <= i < v@.len() ==> is_slug_char(#[trigger] v@[i])),
{
    let n = v.unicode_len();
    let mut i: usize = 0;
    while i < n
        invariant
            n == v@.len(),
            i <= n,
            forall|k: int| 0 <= k < i ==> is_slug_char(#[trigger] v@[k]),
        decreases n - i,
    {
        let c = v.get_char(i);
        if !(('a' <= c && c <= 'z') || ('0' <= c && c <= '9') || c == '-') {
            assert(!is_slug_char(v@[i as int]));
            return false;
        }
        i = i + 1;
    }
    true
}

/// The tenant ID trimmed and in lower case, or `INVALID_TENANT_SLUG` when
/// that is not a valid tenant ID.
pub fn normalize_slug(value: &str) -> (r: ApiResult<String>)
    ensures
        text_result(r) == slug_result(value@),
{
    let trimmed = trim_str(value);
    let v = to_ascii_lowercase(trimmed.as_str());
    let len = byte_len(v.as_str());
    let n = char_count(v.as_str());
    let valid = 4 <= len && len <= 50 && is_slug_text(v.as_str()) && !(n > 0 && v.as_str().get_char(
        0,
    ) == '-') && !(n > 0 && v.as_str().get_char(n - 1) == '-');
    if valid {
        Ok(v)
    } else {
        Err(
            ApiError::bad_request(
                "INVALID_TENANT_SLUG",
                "テナントIDは4～50文字の英小文字、数字、ハイフンで入力してください。",
            ),
        )
    }
}

/// The e-mail address trimmed and in lower case, or `INVALID_EMAIL` when it
/// is longer than 254 bytes or holds no `@`.
pub fn normalize_email(value: &str) -> (r: ApiResult<String>)
    ensures
        text_result(r) == email_result(value@),
{
    let trimmed = trim_str(value);
    let v = to_ascii_lowercase(trimmed.as_str());
    if byte_len(v.as_str()) <= 254 && crate::text::contains_char(v.as_str(), '@') {
        Ok(v)
    } else {
        Err(ApiError::bad_request("INVALID_EMAIL", "メールアドレスを正しく入力してください。"))
    }
}

/// The field trimmed, or `INVALID_INPUT` when that is empty or longer than
/// `max_length` characters; the message names the field by `label`.
pub fn required_text(value: &str, label: &str, max_length: usize) -> (r: ApiResult<String>)
    ensures
        text_result(r) == required_text_result(value@, label@, max_length as nat),
{
    let v = trim_str(value);
    let n = char_count(v.as_str());
    if n == 0 || n > max_length {
        let mut message = label.to_owned();
        push_str(&mut message, "は1～");
        push_decimal(&mut message, max_length as u64);
        push_str(&mut message, "文字で入力してください。");
        Err(ApiError::bad_request("INVALID_INPUT", message.as_str()))
    } else {
        Ok(v)
    }
}

/// `INVALID_PASSWORD` unless the password is 12 to 128 characters long.
pub fn validate_password(password: &str) -> (r: ApiResult<()>)
    ensures
        unit_result(r) == password_result(password@),
{
    let len = crate::text::char_count(password);
    if len < 12 || len > 128 {
        Err(ApiError::bad_request("INVALID_PASSWORD", "パスワードは12～128文字で入力してください。"))
    } else {
        Ok(())
    }
}

/// The answer to a failed sign-in, whatever failed.
pub fn invalid_credentials() -> (e: ApiError)
    ensures
        e@ == invalid_credentials_error(),
{
    ApiError::unauthorized_with(
        "INVALID_CREDENTIALS",
        "テナントID、メールアドレス、またはパスワードが正しくありません。",
    )
}

/// The answer to an unknown, expired or mismatched MFA challenge.
pub fn invalid_mfa_challenge() -> (e: ApiError)
    ensures
        e@ == invalid_mfa_challenge_error(),
{
    ApiError::unauthorized_with(
        "INVALID_MFA_CHALLENGE",
        "MFA認証の有効期限が切れています。もう一度ログインしてください。",
    )
}

/// The answer to a wrong one-time or recovery code.
pub fn invalid_mfa_code() -> (e: ApiError)
    ensures
        e@ == invalid_mfa_code_error(),
{
    ApiError::unauthorized_with(
        "INVALID_MFA_CODE",
        "認証コードまたはリカバリーコードが正しくありません。",
    )
}

/// The answer to an unusable password-reset token.
pub fn invalid_reset_token() -> (e: ApiError)
    ensures
        e@ == invalid_reset_token_error(),
{
    ApiError::bad_request(
        "INVALID_RESET_TOKEN",
        "再設定リンクが無効か、有効期限が切れています。もう一度申請してください。",
    )
}

/// The user of a valid session.
#[derive(Debug, Clone)]
pub struct CurrentUser {
    pub id: u128,
    pub tenant_id: u128,
    pub tenant_slug: String,
    pub tenant_name: String,
    pub email: String,
    pub display_name: String,
    pub role: String,
    pub mfa_enabled: bool,
    pub csrf_token: String,
}

impl CurrentUser {
    /// Whether the user administers the tenant.
    pub fn is_admin(&self) -> (b: bool)
        ensures
            b == (self.role@ == "admin"@),
    {
        str_eq(self.role.as_str(), "admin")
    }
}

/// Sign-up of a new tenant and its first administrator.
pub struct RegisterRequest {
    pub tenant_name: String,
    pub tenant_slug: String,
    pub display_name: String,
    pub email: String,
    pub password: String,
}

/// Sign-in with tenant ID, e-mail address and password.
pub struct LoginRequest {
    pub tenant_slug: String,
    pub email: String,
    pub password: String,
}

/// A one-time or recovery code answering an MFA challenge.
pub struct MfaCodeRequest {
    pub challenge_token: String,
    pub code: String,
}

/// Re-enrolment of MFA, confirmed by password and code.
pub struct MfaResetRequest {
    pub password: String,
    pub code: String,
}

/// A request for a password-reset e-mail.
pub struct PasswordResetRequest {
    pub tenant_slug: String,
    pub email: String,
}

/// A new password with the token from the reset e-mail.
pub struct PasswordResetConfirmRequest {
    pub token: String,
    pub password: String,
}

/// The answer to every password-reset request, whether an account matched
/// or not.
pub struct PasswordResetResponse {
    pub message: String,
}

/// The current session's user.
pub struct AuthResponse {
    pub user: CurrentUser,
}

/// The answer of a sign-in step: authenticated, or an MFA challenge.
pub struct AuthFlowResponse {
    pub status: String,
    pub user: Option<CurrentUser>,
    pub challenge_token: Option<String>,
    pub secret: Option<String>,
    pub provisioning_uri: Option<String>,
    pub recovery_codes: Option<Vec<String>>,
}

/// The message of every password-reset request.
pub open spec fn password_reset_message() -> Seq<char> {
    "入力された情報に一致するアカウントがある場合、再設定メールを送信しました。"@
}

/// The answer to a password-reset request; it does not tell whether an
/// account matched.
pub fn password_reset_accepted() -> (r: PasswordResetResponse)
    ensures
        r.message@ == password_reset_message(),
{
    PasswordResetResponse {
        message: "入力された情報に一致するアカウントがある場合、再設定メールを送信しました。".to_owned(),
    }
}

/// `INVALID_INPUT` naming the field, or the trimmed value.
pub open spec fn tenant_name_label() -> Seq<char> {
    "テナント名"@
}

pub open spec fn display_name_label() -> Seq<char> {
    "表示名"@
}

/// A checked sign-up.
pub struct Registration {
    pub tenant_name: String,
    pub tenant_slug: String,
    pub display_name: String,
    pub email: String,
}

/// The outcome of checking a sign-up: the first failing check in the order
/// tenant name, tenant ID, display name, e-mail, password.
pub open spec fn registration_result(
    tenant_name: Seq<char>,
    tenant_slug: Seq<char>,
    display_name: Seq<char>,
    email: Seq<char>,
    password: Seq<char>,
) -> Result<(Seq<char>, Seq<char>, Seq<char>, Seq<char>), (u16, Seq<char>, Seq<char>)> {
    match required_text_result(tenant_name, tenant_name_label(), 100) {
        Err(e) => Err(e),
        Ok(name) => match slug_result(tenant_slug) {
            Err(e) => Err(e),
            Ok(slug) => match required_text_result(display_name, display_name_label(), 100) {
                Err(e) => Err(e),
                Ok(display) => match email_result(email) {
                    Err(e) => Err(e),
                    Ok(mail) => match password_result(password) {
                        Err(e) => Err(e),
                        Ok(_) => Ok((name, slug, display, mail)),
                    },
                },
            },
        },
    }
}

/// The sign-up checked and normalized: names trimmed, tenant ID and e-mail
/// normalized, the password's length checked.
pub fn validate_registration(request: &RegisterRequest) -> (r: ApiResult<Registration>)
    ensures
        match r {
            Ok(g) => registration_result(
                request.tenant_name@,
                request.tenant_slug@,
                request.display_name@,
                request.email@,
                request.password@,
            ) == Ok::<_, (u16, Seq<char>, Seq<char>)>(
                (g.tenant_name@, g.tenant_slug@, g.display_name@, g.email@),
            ),
            Err(e) => registration_result(
                request.tenant_name@,
                request.tenant_slug@,
                request.display_name@,
                request.email@,
                request.password@,
            ) == Err::<(Seq<char>, Seq<char>, Seq<char>, Seq<char>), _>(e@),
        },
{
    let tenant_name = required_text(request.tenant_name.as_str(), "テナント名", 100)?;
    let tenant_slug = normalize_slug(request.tenant_slug.as_str())?;
    let display_name = required_text(request.display_name.as_str(), "表示名", 100)?;
    let email = normalize_email(request.email.as_str())?;
    validate_password(request.password.as_str())?;
    Ok(Registration { tenant_name, tenant_slug, display_name, email })
}

/// `FORBIDDEN` unless the supplied `X-CSRF-Token` header equals the
/// session's token.
pub fn require_csrf(supplied: Option<&str>, user: &CurrentUser) -> (r: ApiResult<()>)
    ensures
        match r {
            Ok(_) => supplied is Some && supplied->0@ == user.csrf_token@,
            Err(e) => !(supplied is Some && supplied->0@ == user.csrf_token@) && e@ == csrf_error(),
        },
{
    match supplied {
        Some(value) => {
            if str_eq(value, user.csrf_token.as_str()) {
                return Ok(());
            }
        },
        None => {},
    }
    Err(ApiError::forbidden("CSRFトークンが不正です。"))
}

/// The session token carried by the `Cookie` header, if any.
pub fn session_cookie(cookie_header: &str) -> (r: Option<String>)
    ensures
        text_view(r) == cookie_value(cookie_header@, SESSION_COOKIE@),
{
    cookie_value_of(cookie_header, SESSION_COOKIE)
}

/// The `Set-Cookie` value that carries a new session token for `ttl_seconds`.
pub fn session_set_cookie(session_token: &str, ttl_seconds: i64, secure: bool) -> (r: String)
    ensures
        r@ == set_cookie_text(SESSION_COOKIE@, session_token@, "Lax"@, ttl_seconds as int, secure),
{
    set_cookie(SESSION_COOKIE, session_token, "Lax", ttl_seconds, secure)
}

/// The `Set-Cookie` value that removes the session cookie.
pub fn session_clear_cookie(secure: bool) -> (r: String)
    ensures
        r@ == set_cookie_text(SESSION_COOKIE@, Seq::empty(), "Lax"@, 0, secure),
{
    let r = set_cookie(SESSION_COOKIE, "", "Lax", 0, secure);
    proof {
        reveal_strlit("");
    }
    r
}

/// The SHA-256 digest of a token's UTF-8 bytes; only digests are stored.
pub fn token_hash(token: &str) -> (r: Vec<u8>)
    ensures
        r@ == sha256(vstd::utf8::encode_utf8(token@)),
        r@.len() == 32,
{
    sha256_digest(token.as_bytes())
}

/// A fresh session token: 32 random bytes in URL-safe base64.
pub fn random_token() -> (r: String)
    ensures
        exists|b: Seq<u8>| b.len() == 32 && r@ == #[trigger] base64_url_nopad(b),
        r@.len() == 43,
        forall|i: int| 0 <= i < 43 ==> is_base64_url_char(#[trigger] r@[i]),
{
    let bytes = random_bytes(32);
    base64_url_encode(bytes.as_slice())
}

/// A fresh password-reset token: the tenant's UUID, a dot and a random token.
pub fn password_reset_token(tenant_id: u128) -> (r: String)
    ensures
        r@.len() == 80,
        r@.take(36) == uuid_hyphenated(tenant_id),
        r@[36] == '.',
        exists|b: Seq<u8>|
            b.len() == 32 && r@ == uuid_hyphenated(tenant_id) + seq!['.'] + #[trigger] base64_url_nopad(
                b,
            ),
        forall|i: int| 37 <= i < 80 ==> is_base64_url_char(#[trigger] r@[i]),
{
    let token = random_token();
    let mut r = uuid_to_string(tenant_id);
    push_str(&mut r, ".");
    push_str(&mut r, token.as_str());
    proof {
        reveal_strlit(".");
        assert(r@.take(36) =~= uuid_hyphenated(tenant_id));
        assert(r@ =~= uuid_hyphenated(tenant_id) + seq!['.'] + token@);
        assert forall|i: int| 37 <= i < 80 implies is_base64_url_char(#[trigger] r@[i]) by {
            assert(r@[i] == token@[i - 37]);
        }
    }
    r
}

/// The tenant named by a token of the form `<tenant UUID>.<random>`: the
/// text before the first dot parsed as a UUID.
pub open spec fn token_tenant(token: Seq<char>) -> Option<u128> {
    match split_once(token, '.') {
        Some((prefix, _)) => uuid_parse(prefix),
        None => None,
    }
}

/// A token that starts with the hyphenated UUID of `tenant_id` and a dot.
pub open spec fn names_tenant(token: Seq<char>, tenant_id: u128) -> bool {
    token.len() > 36 && token.take(36) == uuid_hyphenated(tenant_id) && token[36] == '.'
}

fn tenant_of_token(token: &str) -> (r: Option<u128>)
    ensures
        r == token_tenant(token@),
        forall|t: u128| #[trigger] names_tenant(token@, t) ==> r == Some(t),
{
    let r = match split_once_str(token, '.') {
        Some((prefix, _)) => parse_uuid(prefix.as_str()),
        None => None,
    };
    proof {
        assert forall|t: u128| #[trigger] names_tenant(token@, t) implies r == Some(t) by {
            lemma_uuid_hyphenated_chars(t);
            assert forall|j: int| 0 <= j < 36 implies token@[j] != '.' by {
                assert(token@[j] == uuid_hyphenated(t)[j]);
            }
            lemma_first_pos_unique(token@, '.', 36);
            assert(uuid_hyphenated(t) == token@.take(36));
        }
    }
    r
}

/// The tenant of an MFA challenge token, or `INVALID_MFA_CHALLENGE`. A token
/// that starts with a tenant's hyphenated UUID and a dot names that tenant.
pub fn challenge_tenant_id(token: &str) -> (r: ApiResult<u128>)
    ensures
        match r {
            Ok(id) => token_tenant(token@) == Some(id),
            Err(e) => token_tenant(token@) is None && e@ == invalid_mfa_challenge_error(),
        },
        forall|t: u128| #[trigger] names_tenant(token@, t) ==> (r matches Ok(id) && id == t),
{
    match tenant_of_token(token) {
        Some(id) => Ok(id),
        None => Err(invalid_mfa_challenge()),
    }
}

/// What `hash_password` promises: an Argon2id PHC string that verifies the
/// password.
pub open spec fn hashes_password(password: Seq<char>, hash: Seq<char>) -> bool {
    &&& argon2_check(vstd::utf8::encode_utf8(password), hash) == Some(true)
    &&& crate::crypto::is_argon2id_phc(hash)
}

/// The Argon2id PHC string of the password with a fresh random salt; an
/// internal error only for a password longer than Argon2 accepts (`u32::MAX`
/// bytes).
pub fn hash_password(password: String) -> (r: ApiResult<String>)
    ensures
        match r {
            Ok(h) => hashes_password(password@, h@),
            Err(e) => e@ == internal_error(),
        },
        vstd::utf8::encode_utf8(password@).len() <= 0xffff_ffff ==> r is Ok,
{
    let salt = generate_salt();
    match argon2_hash(password.as_str().as_bytes(), salt.as_str()) {
        Some(h) => Ok(h),
        None => Err(ApiError::internal()),
    }
}

/// The outcome of `verify_password`.
pub open spec fn password_check_result(password: Seq<char>, hash: Seq<char>) -> Result<
    bool,
    (u16, Seq<char>, Seq<char>),
> {
    match argon2_check(vstd::utf8::encode_utf8(password), hash) {
        Some(b) => Ok(b),
        None => Err(internal_error()),
    }
}

/// Whether the password matches the stored PHC string; an internal error when
/// the string does not parse.
pub fn verify_password(password: String, hash: String) -> (r: ApiResult<bool>)
    ensures
        match r {
            Ok(b) => password_check_result(password@, hash@) == Ok::<bool, (u16, Seq<char>, Seq<char>)>(b),
            Err(e) => password_check_result(password@, hash@) == Err::<bool, _>(e@),
        },
{
    match argon2_verify(password.as_str().as_bytes(), hash.as_str()) {
        Some(b) => Ok(b),
        None => Err(ApiError::internal()),
    }
}

/// A password checks against the hash that `hash_password` made of it.
pub proof fn lemma_password_round_trip(password: Seq<char>, hash: Seq<char>)
    requires
        hashes_password(password, hash),
    ensures
        password_check_result(password, hash) == Ok::<bool, (u16, Seq<char>, Seq<char>)>(true),
{
}

/// A checked password-reset confirmation.
pub struct PasswordResetInput {
    pub token: String,
    pub tenant_id: u128,
    pub password_hash: String,
}

/// The checks of a password-reset confirmation, in order: the trimmed token
/// is 32 to 128 bytes, the password is valid, the token names a tenant.
pub open spec fn reset_input_error(token: Seq<char>, password: Seq<char>) -> Option<
    (u16, Seq<char>, Seq<char>),
> {
    if !(32 <= utf8_len(trim(token)) <= 128) {
        Some(invalid_reset_token_error())
    } else if !is_valid_password(password) {
        Some(invalid_password_error())
    } else {
        None
    }
}

/// The confirmation checked: the trimmed token, its tenant and the new
/// password's hash. The token's length is checked first, then the password,
/// then the tenant in the token.
pub fn prepare_password_reset(token: &str, password: String) -> (r: ApiResult<PasswordResetInput>)
    ensures
        match r {
            Ok(input) => {
                &&& reset_input_error(token@, password@) is None
                &&& input.token@ == trim(token@)
                &&& token_tenant(trim(token@)) == Some(input.tenant_id)
                &&& hashes_password(password@, input.password_hash@)
            },
            Err(e) => match reset_input_error(token@, password@) {
                Some(first) => e@ == first,
                None => e@ == internal_error() || (token_tenant(trim(token@)) is None && e@
                    == invalid_reset_token_error()),
            },
        },
        reset_input_error(token@, password@) is None && token_tenant(trim(token@)) is Some
            && vstd::utf8::encode_utf8(password@).len() <= 0xffff_ffff ==> r is Ok,
        reset_input_error(token@, password@) is None ==> forall|t: u128|
            #[trigger] names_tenant(trim(token@), t) ==> (r is Err ==> r->Err_0@ == internal_error())
                && (r matches Ok(input) ==> input.tenant_id == t),
{
    let trimmed = trim_str(token);
    let len = byte_len(trimmed.as_str());
    if len < 32 || len > 128 {
        return Err(invalid_reset_token());
    }
    validate_password(password.as_str())?;
    let password_hash = hash_password(password)?;
    reset_input_from_hash(trimmed, password_hash)
}

/// The last step of a password-reset confirmation, once the new password is
/// hashed: the tenant that the trimmed token names, or `INVALID_RESET_TOKEN`
/// when it names none.
pub fn reset_input_from_hash(trimmed: String, password_hash: String) -> (r: ApiResult<
    PasswordResetInput,
>)
    ensures
        match token_tenant(trimmed@) {
            Some(t) => r matches Ok(i) && i.tenant_id == t && i.token@ == trimmed@
                && i.password_hash@ == password_hash@,
            None => r matches Err(e) && e@ == invalid_reset_token_error(),
        },
        forall|t: u128| #[trigger] names_tenant(trimmed@, t) ==> (r matches Ok(i) && i.tenant_id == t),
{
    match tenant_of_token(trimmed.as_str()) {
        Some(tenant_id) => Ok(PasswordResetInput { token: trimmed, tenant_id, password_hash }),
        None => Err(invalid_reset_token()),
    }
}

/// A user found by a sign-in, with what the sign-in decides on.
pub struct LoginUser {
    pub id: u128,
    pub tenant_id: u128,
    pub tenant_slug: String,
    pub tenant_name: String,
    pub email: String,
    pub display_name: String,
    pub role: String,
    pub password_hash: String,
    pub failed_login_count: i32,
    pub locked: bool,
    pub mfa_secret_encrypted: Option<Vec<u8>>,
}

/// What a sign-in does once the account is known and not locked.
#[derive(Debug, PartialEq, Eq)]
pub enum LoginStep {
    /// Count the failure (locking the account at the fifth) and answer
    /// `INVALID_CREDENTIALS`.
    RecordFailure,
    /// An administrator with MFA: issue a verification challenge.
    MfaVerify,
    /// An administrator without MFA: issue an enrolment challenge.
    MfaSetup,
    /// A member: open a session, first clearing past failures if there were
    /// any.
    OpenSession { reset_failures: bool },
}

/// The step of a sign-in: a wrong password is a failure; administrators go
/// through MFA, enrolling first if they have no secret; members get a
/// session, their failure count cleared when it is positive.
pub open spec fn login_step_spec(user_role: Seq<char>, password_ok: bool, failed_login_count: i32, has_mfa_secret: bool) -> LoginStep {
    if !password_ok {
        LoginStep::RecordFailure
    } else if user_role == "admin"@ {
        if has_mfa_secret {
            LoginStep::MfaVerify
        } else {
            LoginStep::MfaSetup
        }
    } else {
        LoginStep::OpenSession { reset_failures: failed_login_count > 0 }
    }
}

/// The step of a sign-in once the password has been checked.
pub fn login_step(user: &LoginUser, password_ok: bool) -> (r: LoginStep)
    ensures
        r == login_step_spec(user.role@, password_ok, user.failed_login_count, user.mfa_secret_encrypted is Some),
{
    if !password_ok {
        return LoginStep::RecordFailure;
    }
    if str_eq(user.role.as_str(), "admin") {
        if user.mfa_secret_encrypted.is_some() {
            LoginStep::MfaVerify
        } else {
            LoginStep::MfaSetup
        }
    } else {
        LoginStep::OpenSession { reset_failures: user.failed_login_count > 0 }
    }
}

pub open spec fn account_locked_error() -> (u16, Seq<char>, Seq<char>) {
    (
        429u16,
        "ACCOUNT_LOCKED"@,
        "ログイン失敗回数が上限に達しました。15分後に再試行してください。"@,
    )
}

/// The answer to a sign-in into a locked account.
pub fn account_locked() -> (e: ApiError)
    ensures
        e@ == account_locked_error(),
{
    ApiError::too_many_requests(
        "ACCOUNT_LOCKED",
        "ログイン失敗回数が上限に達しました。15分後に再試行してください。",
    )
}

/// The session user made from a sign-in's user.
pub fn current_user_from_login(user: LoginUser, csrf_token: String, mfa_enabled: bool) -> (r:
    CurrentUser)
    ensures
        r.id == user.id,
        r.tenant_id == user.tenant_id,
        r.tenant_slug == user.tenant_slug,
        r.tenant_name == user.tenant_name,
        r.email == user.email,
        r.display_name == user.display_name,
        r.role == user.role,
        r.mfa_enabled == mfa_enabled,
        r.csrf_token == csrf_token,
{
    CurrentUser {
        id: user.id,
        tenant_id: user.tenant_id,
        tenant_slug: user.tenant_slug,
        tenant_name: user.tenant_name,
        email: user.email,
        display_name: user.display_name,
        role: user.role,
        mfa_enabled,
        csrf_token,
    }
}

/// The answer of a completed sign-in.
pub fn authenticated_response(user: CurrentUser, recovery_codes: Option<Vec<String>>) -> (r:
    AuthFlowResponse)
    ensures
        r.status@ == "authenticated"@,
        r.user == Some(user),
        r.challenge_token is None,
        r.secret is None,
        r.provisioning_uri is None,
        r.recovery_codes == recovery_codes,
{
    AuthFlowResponse {
        status: "authenticated".to_owned(),
        user: Some(user),
        challenge_token: None,
        secret: None,
        provisioning_uri: None,
        recovery_codes,
    }
}

/// The answer that asks an administrator to enrol a TOTP secret: the
/// challenge token, the secret in base32 and its key URI.
pub fn mfa_setup_response(challenge_token: String, secret: &[u8], email: &str, tenant_name: &str) -> (r: AuthFlowResponse)
    requires
        secret@.len() <= usize::MAX / 512,
    ensures
        r.status@ == "mfa_setup_required"@,
        r.user is None,
        r.challenge_token == Some(challenge_token),
        r.secret matches Some(s) && s@ == crate::encoding::base32_nopad(secret@),
        r.provisioning_uri matches Some(u) && u@ == crate::mfa::provisioning_uri_text(secret@, email@, tenant_name@),
        r.recovery_codes is None,
{
    AuthFlowResponse {
        status: "mfa_setup_required".to_owned(),
        user: None,
        challenge_token: Some(challenge_token),
        secret: Some(crate::mfa::encode_secret(secret)),
        provisioning_uri: Some(crate::mfa::provisioning_uri(secret, email, tenant_name)),
        recovery_codes: None,
    }
}

/// The answer that asks an administrator for a one-time or recovery code.
pub fn mfa_verify_response(challenge_token: String) -> (r: AuthFlowResponse)
    ensures
        r.status@ == "mfa_required"@,
        r.user is None,
        r.challenge_token == Some(challenge_token),
        r.secret is None,
        r.provisioning_uri is None,
        r.recovery_codes is None,
{
    AuthFlowResponse {
        status: "mfa_required".to_owned(),
        user: None,
        challenge_token: Some(challenge_token),
        secret: None,
        provisioning_uri: None,
        recovery_codes: None,
    }
}

/// How an MFA code was judged without the store of recovery codes.
pub enum MfaCodeCheck {
    /// A valid one-time password.
    Accepted,
    /// Neither a valid one-time password nor long enough for a recovery code.
    Rejected,
    /// To be matched against the unused recovery codes: the digest of the
    /// normalized code.
    RecoveryCode(Vec<u8>),
}

/// The sealed secret opens under `key`, and `code` is its one-time password
/// at some time.
pub open spec fn totp_code_opens(key: Seq<u8>, encrypted: Seq<u8>, code: Seq<char>) -> bool {
    &&& crate::mfa::opened_secret(key, encrypted) is Some
    &&& exists|t: u64|
        #[trigger] crate::mfa::totp_accepts(crate::mfa::opened_secret(key, encrypted)->0, code, t)
}

fn recovery_code_check(trimmed: &str) -> (r: MfaCodeCheck)
    ensures
        match r {
            MfaCodeCheck::Accepted => false,
            MfaCodeCheck::Rejected => utf8_len(normalized_recovery_code(trimmed@)) < 8,
            MfaCodeCheck::RecoveryCode(h) => {
                &&& utf8_len(normalized_recovery_code(trimmed@)) >= 8
                &&& h@ == sha256(vstd::utf8::encode_utf8(normalized_recovery_code(trimmed@)))
            },
        },
{
    let normalized = normalize_recovery_code(trimmed);
    if byte_len(normalized.as_str()) < 8 {
        MfaCodeCheck::Rejected
    } else {
        MfaCodeCheck::RecoveryCode(token_hash(normalized.as_str()))
    }
}

/// The contents of an optional byte slice.
pub open spec fn opt_bytes(o: Option<&[u8]>) -> Option<Seq<u8>> {
    match o {
        Some(b) => Some(b@),
        None => None,
    }
}

/// There is a sealed secret and it does not open under `key`.
pub open spec fn secret_fails_to_open(key: Seq<u8>, encrypted: Option<Seq<u8>>) -> bool {
    encrypted matches Some(e) && crate::mfa::opened_secret(key, e) is None
}

/// There is a sealed secret, it opens under `key`, and `code` is its one-time
/// password at `now`.
pub open spec fn totp_accepted_at(
    key: Seq<u8>,
    encrypted: Option<Seq<u8>>,
    code: Seq<char>,
    now: u64,
) -> bool {
    &&& encrypted matches Some(e)
    &&& crate::mfa::opened_secret(key, e) matches Some(secret)
    &&& crate::mfa::totp_accepts(secret, code, now)
}

/// What a code that is not a valid one-time password is handed on as: too
/// short to be a recovery code, or the digest of its normalized form.
pub open spec fn recovery_routed(c: MfaCodeCheck, code: Seq<char>) -> bool {
    match c {
        MfaCodeCheck::Accepted => false,
        MfaCodeCheck::Rejected => utf8_len(normalized_recovery_code(code)) < 8,
        MfaCodeCheck::RecoveryCode(h) => {
            &&& utf8_len(normalized_recovery_code(code)) >= 8
            &&& h@ == sha256(vstd::utf8::encode_utf8(normalized_recovery_code(code)))
        },
    }
}

fn check_mfa_code_with(
    key: &[u8; 32],
    encrypted_secret: Option<&[u8]>,
    code: &str,
    now: Option<u64>,
) -> (r: ApiResult<MfaCodeCheck>)
    ensures
        match r {
            Err(e) => e@ == internal_error() && secret_fails_to_open(key@, opt_bytes(encrypted_secret)),
            Ok(c) => !secret_fails_to_open(key@, opt_bytes(encrypted_secret)) && if now matches Some(
                t,
            ) && totp_accepted_at(key@, opt_bytes(encrypted_secret), trim(code@), t) {
                c is Accepted
            } else {
                recovery_routed(c, trim(code@))
            },
        },
{
    let trimmed = trim_str(code);
    if let Some(encrypted) = encrypted_secret {
        let secret = crate::mfa::decrypt_secret(key, encrypted)?;
        if let Some(t) = now {
            if crate::mfa::verify_totp_at(secret.as_slice(), trimmed.as_str(), t) {
                return Ok(MfaCodeCheck::Accepted);
            }
        }
    }
    Ok(recovery_code_check(trimmed.as_str()))
}

/// An MFA code judged at time `now` against the user's sealed TOTP secret, if
/// any: the secret failing to open is an internal error; a one-time password
/// (of the trimmed code) of the secret at `now` is accepted; any other code,
/// normalized as a recovery code, is rejected when shorter than 8 bytes and
/// else handed on as its digest.
pub fn check_mfa_code_at(key: &[u8; 32], encrypted_secret: Option<&[u8]>, code: &str, now: u64) -> (r:
    ApiResult<MfaCodeCheck>)
    ensures
        match r {
            Err(e) => e@ == internal_error() && secret_fails_to_open(key@, opt_bytes(encrypted_secret)),
            Ok(c) => !secret_fails_to_open(key@, opt_bytes(encrypted_secret)) && if totp_accepted_at(
                key@,
                opt_bytes(encrypted_secret),
                trim(code@),
                now,
            ) {
                c is Accepted
            } else {
                recovery_routed(c, trim(code@))
            },
        },
{
    check_mfa_code_with(key, encrypted_secret, code, Some(now))
}

/// An MFA code judged by the system clock, as `check_mfa_code_at` at the
/// current time: the secret failing to open is an internal error; an accepted
/// code is a one-time password of the secret at some time; any other code is
/// routed as a recovery code.
pub fn check_mfa_code(key: &[u8; 32], encrypted_secret: Option<&[u8]>, code: &str) -> (r: ApiResult<
    MfaCodeCheck,
>)
    ensures
        match r {
            Err(e) => e@ == internal_error() && secret_fails_to_open(key@, opt_bytes(encrypted_secret)),
            Ok(MfaCodeCheck::Accepted) => exists|t: u64|
                totp_accepted_at(key@, opt_bytes(encrypted_secret), trim(code@), t),
            Ok(c) => !secret_fails_to_open(key@, opt_bytes(encrypted_secret)) && recovery_routed(
                c,
                trim(code@),
            ),
        },
        r is Err <==> secret_fails_to_open(key@, opt_bytes(encrypted_secret)),
        !crate::mfa::is_six_digit_code(trim(code@)) ==> !(r matches Ok(MfaCodeCheck::Accepted)),
{
    let r = check_mfa_code_with(key, encrypted_secret, code, unix_time_now());
    proof {
        reveal(crate::mfa::totp_accepts);
    }
    r
}

/// A session admits its user, except that an administrator's session must
/// have passed MFA: `UNAUTHORIZED` otherwise.
pub fn session_access(user: &CurrentUser, mfa_verified: bool) -> (r: ApiResult<()>)
    ensures
        match r {
            Ok(_) => !(user.role@ == "admin"@ && !mfa_verified),
            Err(e) => user.role@ == "admin"@ && !mfa_verified && e@ == (
                401u16,
                "UNAUTHORIZED"@,
                "ログインが必要です。"@,
            ),
        },
{
    if user.is_admin() && !mfa_verified {
        Err(ApiError::unauthorized())
    } else {
        Ok(())
    }
}

pub open spec fn invalid_mfa_credentials_error() -> (u16, Seq<char>, Seq<char>) {
    (
        401u16,
        "INVALID_MFA_CREDENTIALS"@,
        "パスワードまたは認証コードが正しくありません。"@,
    )
}

/// The answer to an MFA reset whose password or code is wrong.
pub fn invalid_mfa_credentials() -> (e: ApiError)
    ensures
        e@ == invalid_mfa_credentials_error(),
{
    ApiError::unauthorized_with(
        "INVALID_MFA_CREDENTIALS",
        "パスワードまたは認証コードが正しくありません。",
    )
}

/// The first step of a sign-in once the account is found: a locked account
/// is refused with `ACCOUNT_LOCKED` before its password is checked.
pub fn login_gate(user: &LoginUser) -> (r: ApiResult<()>)
    ensures
        match r {
            Ok(_) => !user.locked,
            Err(e) => user.locked && e@ == account_locked_error(),
        },
{
    if user.locked {
        Err(account_locked())
    } else {
        Ok(())
    }
}

/// `FORBIDDEN` unless the user of an MFA step administers the tenant: only
/// administrators enrol and answer MFA challenges.
pub fn require_mfa_admin(user: &CurrentUser) -> (r: ApiResult<()>)
    ensures
        match r {
            Ok(_) => user.role@ == "admin"@,
            Err(e) => user.role@ != "admin"@ && e@ == admin_required_error(),
        },
{
    if user.is_admin() {
        Ok(())
    } else {
        Err(ApiError::forbidden("管理者権限が必要です。"))
    }
}

/// What completing an MFA challenge does once its code has been judged.
#[derive(Debug, PartialEq, Eq, Structural)]
pub enum MfaChallengeOutcome {
    /// The code was wrong: count a failure (locking the account at the
    /// fifth), keep that, and answer `INVALID_MFA_CODE`.
    RecordFailure,
    /// Enrolment confirmed: store the new secret, issue fresh recovery codes
    /// and open an MFA-verified session.
    EnableMfa,
    /// Verification passed: open an MFA-verified session.
    OpenSession,
}

/// The outcome of an MFA challenge for the step `expected_purpose`.
pub open spec fn mfa_challenge_outcome_spec(expected_purpose: Seq<char>, code_ok: bool) -> MfaChallengeOutcome {
    if !code_ok {
        MfaChallengeOutcome::RecordFailure
    } else if expected_purpose == "setup"@ {
        MfaChallengeOutcome::EnableMfa
    } else {
        MfaChallengeOutcome::OpenSession
    }
}

/// The outcome of an MFA challenge whose code was judged `code_ok`.
pub fn mfa_challenge_outcome(expected_purpose: &str, code_ok: bool) -> (r: MfaChallengeOutcome)
    ensures
        r == mfa_challenge_outcome_spec(expected_purpose@, code_ok),
{
    if !code_ok {
        MfaChallengeOutcome::RecordFailure
    } else if str_eq(expected_purpose, "setup") {
        MfaChallengeOutcome::EnableMfa
    } else {
        MfaChallengeOutcome::OpenSession
    }
}

/// An MFA reset goes ahead only when both the password and the MFA code are
/// right; otherwise `INVALID_MFA_CREDENTIALS`, whichever was wrong.
pub fn check_mfa_reset(password_ok: bool, code_ok: bool) -> (r: ApiResult<()>)
    ensures
        match r {
            Ok(_) => password_ok && code_ok,
            Err(e) => !(password_ok && code_ok) && e@ == invalid_mfa_credentials_error(),
        },
{
    if password_ok && code_ok {
        Ok(())
    } else {
        Err(invalid_mfa_credentials())
    }
}

/// `INVALID_MFA_CHALLENGE` unless the challenge was issued for the step that
/// answers it (`setup` or `verify`).
pub fn check_challenge_purpose(purpose: &str, expected_purpose: &str) -> (r: ApiResult<()>)
    ensures
        match r {
            Ok(_) => purpose@ == expected_purpose@,
            Err(e) => purpose@ != expected_purpose@ && e@ == invalid_mfa_challenge_error(),
        },
{
    if str_eq(purpose, expected_purpose) {
        Ok(())
    } else {
        Err(invalid_mfa_challenge())
    }
}

/// The audit action of a completed MFA challenge.
pub fn mfa_completion_action(expected_purpose: &str) -> (r: &'static str)
    ensures
        r@ == if expected_purpose@ == "setup"@ {
            "auth.mfa_setup"@
        } else {
            "auth.login"@
        },
{
    if str_eq(expected_purpose, "setup") {
        "auth.mfa_setup"
    } else {
        "auth.login"
    }
}

fn verify_setup_code_with(
    key: &[u8; 32],
    encrypted_secret: Option<&[u8]>,
    code: &str,
    now: Option<u64>,
) -> (r: ApiResult<bool>)
    ensures
        match opt_bytes(encrypted_secret) {
            None => r matches Err(e) && e@ == invalid_mfa_challenge_error(),
            Some(enc) => match crate::mfa::opened_secret(key@, enc) {
                None => r matches Err(e) && e@ == internal_error(),
                Some(secret) => r == Ok::<bool, ApiError>(
                    now matches Some(t) && crate::mfa::totp_accepts(secret, trim(code@), t),
                ),
            },
        },
{
    let encrypted = match encrypted_secret {
        Some(e) => e,
        None => {
            return Err(invalid_mfa_challenge());
        },
    };
    let secret = crate::mfa::decrypt_secret(key, encrypted)?;
    let trimmed = trim_str(code);
    match now {
        Some(t) => Ok(crate::mfa::verify_totp_at(secret.as_slice(), trimmed.as_str(), t)),
        None => Ok(false),
    }
}

/// The check of an enrolment code at time `now`: the challenge must carry
/// the sealed new secret (else `INVALID_MFA_CHALLENGE`), which must open
/// (else an internal error); then whether the trimmed code is the secret's
/// one-time password at `now`.
pub fn verify_setup_code_at(key: &[u8; 32], encrypted_secret: Option<&[u8]>, code: &str, now: u64) -> (r:
    ApiResult<bool>)
    ensures
        match opt_bytes(encrypted_secret) {
            None => r matches Err(e) && e@ == invalid_mfa_challenge_error(),
            Some(enc) => match crate::mfa::opened_secret(key@, enc) {
                None => r matches Err(e) && e@ == internal_error(),
                Some(secret) => r == Ok::<bool, ApiError>(
                    crate::mfa::totp_accepts(secret, trim(code@), now),
                ),
            },
        },
{
    verify_setup_code_with(key, encrypted_secret, code, Some(now))
}

/// The check of an enrolment code by the system clock, as
/// `verify_setup_code_at` at the current time: the errors are exact, and
/// `true` means the trimmed code is the secret's one-time password at some
/// time.
pub fn verify_setup_code(key: &[u8; 32], encrypted_secret: Option<&[u8]>, code: &str) -> (r:
    ApiResult<bool>)
    ensures
        match opt_bytes(encrypted_secret) {
            None => r matches Err(e) && e@ == invalid_mfa_challenge_error(),
            Some(enc) => match crate::mfa::opened_secret(key@, enc) {
                None => r matches Err(e) && e@ == internal_error(),
                Some(secret) => r matches Ok(b) && (b ==> exists|t: u64|
                    crate::mfa::totp_accepts(secret, trim(code@), t)),
            },
        },
        r matches Ok(true) ==> encrypted_secret is Some && totp_code_opens(
            key@,
            encrypted_secret->0@,
            trim(code@),
        ),
        !crate::mfa::is_six_digit_code(trim(code@)) ==> !(r matches Ok(true)),
{
    let r = verify_setup_code_with(key, encrypted_secret, code, unix_time_now());
    proof {
        reveal(crate::mfa::totp_accepts);
    }
    r
}

/// Whether completing a challenge for the step `expected_purpose` checks the
/// code against the new secret that the challenge carries (enrolment) rather
/// than the user's enrolled one.
pub fn checks_setup_code(expected_purpose: &str) -> (b: bool)
    ensures
        b == (expected_purpose@ == "setup"@),
{
    str_eq(expected_purpose, "setup")
}

/// The answer to a sign-up whose tenant ID is taken.
pub fn tenant_slug_taken() -> (e: ApiError)
    ensures
        e@ == (409u16, "TENANT_SLUG_EXISTS"@, "このテナントIDは既に使用されています。"@),
{
    ApiError::conflict("TENANT_SLUG_EXISTS", "このテナントIDは既に使用されています。")
}

/// Whether a database error's SQLSTATE is `23505`, a unique-key violation:
/// a taken tenant ID or e-mail address.
pub fn is_unique_violation_code(code: Option<&str>) -> (r: bool)
    ensures
        r == (code is Some && code->0@ == "23505"@),
{
    match code {
        Some(c) => str_eq(c, "23505"),
        None => false,
    }
}

/// A member's successful sign-in leaves no failed attempt counted toward the
/// lock: when its password is right, a member (not an administrator) gets a
/// session, and the failure count after it (cleared when the step says so)
/// is zero; the count is only cleared when there is something to clear.
pub proof fn lemma_member_sign_in_clears_failures(
    role: Seq<char>,
    failed_login_count: i32,
    has_mfa_secret: bool,
)
    requires
        role != "admin"@,
        failed_login_count >= 0,
    ensures
        login_step_spec(role, true, failed_login_count, has_mfa_secret) matches LoginStep::OpenSession {
            reset_failures,
        } && (if reset_failures {
            0
        } else {
            failed_login_count as int
        }) == 0 && (reset_failures ==> failed_login_count != 0),
{
}

/// Normalizing a normalized tenant ID gives it back.
pub proof fn lemma_normalize_slug_idempotent(value: Seq<char>)
    ensures
        slug_result(value) matches Ok(v) ==> slug_result(v) == Ok::<
            Seq<char>,
            (u16, Seq<char>, Seq<char>),
        >(v),
{
    lemma_normalized_idempotent(value);
}

/// Normalizing a normalized e-mail address gives it back.
pub proof fn lemma_normalize_email_idempotent(value: Seq<char>)
    ensures
        email_result(value) matches Ok(v) ==> email_result(v) == Ok::<
            Seq<char>,
            (u16, Seq<char>, Seq<char>),
        >(v),
{
    lemma_normalized_idempotent(value);
}

/// Trimming and lower-casing twice is doing it once.
pub proof fn lemma_normalized_idempotent(value: Seq<char>)
    ensures
        normalized(normalized(value)) == normalized(value),
{
    let t = trim(value);
    crate::text::lemma_trim_start_lower(t);
    crate::text::lemma_trim_end_lower(crate::text::trim_start(t));
    crate::text::lemma_trim_idempotent(value);
    crate::text::lemma_ascii_lower_idempotent(t);
}

/// A token that a client sends back as the only cookie is what the service
/// reads from the `Cookie` header: `name=token` yields `token`.
pub proof fn lemma_cookie_round_trip(name: Seq<char>, token: Seq<char>)
    requires
        name.len() > 0,
        !crate::text::is_white_space(name[0]),
        forall|i: int| 0 <= i < name.len() ==> name[i] != '=' && name[i] != ';',
        forall|i: int| 0 <= i < token.len() ==> token[i] != ';',
        token.len() > 0 ==> !crate::text::is_white_space(token.last()),
    ensures
        cookie_value(name + "="@ + token, name) == Some(token),
{
    reveal_strlit("=");
    let h = name + "="@ + token;
    assert(h =~= name + seq!['='] + token);
    assert forall|j: int| 0 <= j < h.len() implies h[j] != ';' by {
        if j < name.len() {
            assert(h[j] == name[j]);
        } else if j > name.len() {
            assert(h[j] == token[j - name.len() - 1]);
        }
    }
    lemma_first_pos_unique(h, ';', h.len() as int);
    assert(crate::text::segments(h, ';') == seq![h]);
    crate::text::lemma_trim_noop(h);
    assert forall|j: int| 0 <= j < name.len() implies h[j] != '=' by {
        assert(h[j] == name[j]);
    }
    lemma_first_pos_unique(h, '=', name.len() as int);
    assert(h.take(name.len() as int) =~= name);
    assert(h.skip(name.len() + 1int) =~= token);
    assert(seq![h].drop_first() =~= Seq::<Seq<char>>::empty());
}

/// The session cookie that the service sets is read back from the `Cookie`
/// header of the next request.
pub proof fn lemma_session_cookie_round_trip(token: Seq<char>)
    requires
        forall|i: int| 0 <= i < token.len() ==> is_base64_url_char(#[trigger] token[i]),
    ensures
        cookie_value(SESSION_COOKIE@ + "="@ + token, SESSION_COOKIE@) == Some(token),
{
    reveal_strlit("saas_session");
    assert forall|i: int| 0 <= i < token.len() implies token[i] != ';' by {
        assert(is_base64_url_char(token[i]));
    }
    if token.len() > 0 {
        assert(is_base64_url_char(token[token.len() - 1]));
    }
    lemma_cookie_round_trip(SESSION_COOKIE@, token);
}

/// A token of the shape that `challenge_token` and `password_reset_token`
/// issue names its tenant, and is its own trimmed form of 80 bytes.
pub proof fn lemma_issued_token(token: Seq<char>, tenant_id: u128)
    requires
        token.len() == 80,
        token.take(36) == uuid_hyphenated(tenant_id),
        token[36] == '.',
        forall|i: int| 37 <= i < 80 ==> is_base64_url_char(#[trigger] token[i]),
    ensures
        names_tenant(token, tenant_id),
        trim(token) == token,
        utf8_len(token) == 80,
{
    lemma_uuid_hyphenated_chars(tenant_id);
    assert(token[0] == uuid_hyphenated(tenant_id)[0]);
    assert(is_base64_url_char(token[79]));
    crate::text::lemma_trim_noop(token);
    assert forall|i: int| 0 <= i < 80 implies '\0' <= #[trigger] token[i] <= '\u{7f}' by {
        if i < 36 {
            assert(token[i] == uuid_hyphenated(tenant_id)[i]);
        } else if i > 36 {
            assert(is_base64_url_char(token[i]));
        }
    }
    assert(vstd::utf8::is_ascii_chars(token));
    vstd::utf8::is_ascii_chars_encode_utf8(token);
}

/// A password-reset link works: with a valid new password, the token that
/// `password_reset_token` issued passes the checks and names its tenant, so
/// the confirmation reaches the tenant's store (or fails internally).
pub proof fn lemma_reset_token_accepted(token: Seq<char>, tenant_id: u128, password: Seq<char>)
    requires
        token.len() == 80,
        token.take(36) == uuid_hyphenated(tenant_id),
        token[36] == '.',
        forall|i: int| 37 <= i < 80 ==> is_base64_url_char(#[trigger] token[i]),
        is_valid_password(password),
    ensures
        reset_input_error(token, password) is None,
        names_tenant(trim(token), tenant_id),
{
    lemma_issued_token(token, tenant_id);
}

} // verus!
