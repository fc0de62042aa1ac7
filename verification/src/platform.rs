//! Rules of the platform operators' console: their sign-in, sessions and the
//! tenant overview.
use crate::cookie::{cookie_value, cookie_value_of, set_cookie, set_cookie_text};
use crate::crypto::{text_view, unix_time_now};
use crate::error::{text_result, ApiError, ApiResult};
use crate::mfa::{
    is_six_digit_code, is_six_digit_text, lemma_six_digit_code_value,
    lemma_six_digits_iff_value, six_digits, step_window, totp_accepts, totp_code, totp_value,
    TOTP_STEP_SECONDS,
};
use crate::text::{char_count, digits_value, parse_digits, str_eq, trim, trim_str};
use vstd::prelude::*;

verus! {

/// The cookie that carries an operator's session token.
pub const PLATFORM_SESSION_COOKIE: &'static str = "saas_platform_session";

/// The operator of a valid console session.
#[derive(Debug, Clone)]
pub struct CurrentPlatformAdmin {
    pub id: u128,
    pub email: String,
    pub display_name: String,
    pub csrf_token: String,
}

/// Console sign-in: e-mail address, password and one-time password.
pub struct PlatformLoginRequest {
    pub email: String,
    pub password: String,
    pub totp_code: String,
}

/// The current console operator.
pub struct PlatformAuthResponse {
    pub admin: CurrentPlatformAdmin,
}

/// Counts over all tenants.
pub struct PlatformSummaryResponse {
    pub tenant_count: usize,
    pub active_tenant_count: usize,
    pub suspended_tenant_count: usize,
    pub user_count: i64,
    pub active_user_count: i64,
}

/// A tenant as the console lists it.
pub struct PlatformTenantResponse {
    pub id: u128,
    pub slug: String,
    pub name: String,
    pub active: bool,
    pub suspension_reason: Option<String>,
    pub created_at: String,
    pub user_count: i64,
    pub active_user_count: i64,
}

/// Suspension or reactivation of a tenant.
pub struct UpdatePlatformTenantRequest {
    pub active: bool,
    pub suspension_reason: Option<String>,
}

/// An entry of the console's audit log; `details` is JSON text.
pub struct PlatformAuditLogResponse {
    pub id: u128,
    pub actor_display_name: Option<String>,
    pub action: String,
    pub target_type: String,
    pub target_id: Option<u128>,
    pub details: String,
    pub created_at: String,
}

/// The operator's e-mail address trimmed and in lower case, or
/// `INVALID_EMAIL`.
pub fn normalize_email(value: &str) -> (r: ApiResult<String>)
    ensures
        text_result(r) == crate::auth::email_result(value@),
{
    crate::auth::normalize_email(value)
}

pub open spec fn invalid_platform_credentials_error() -> (u16, Seq<char>, Seq<char>) {
    (
        401u16,
        "INVALID_PLATFORM_CREDENTIALS"@,
        "メールアドレス、パスワード、または認証コードが正しくありません。"@,
    )
}

/// The answer to a failed console sign-in, whatever failed.
pub fn invalid_credentials() -> (e: ApiError)
    ensures
        e@ == invalid_platform_credentials_error(),
{
    ApiError::unauthorized_with(
        "INVALID_PLATFORM_CREDENTIALS",
        "メールアドレス、パスワード、または認証コードが正しくありません。",
    )
}

pub open spec fn platform_account_locked_error() -> (u16, Seq<char>, Seq<char>) {
    (
        429u16,
        "PLATFORM_ACCOUNT_LOCKED"@,
        "ログイン失敗回数が上限に達しました。15分後に再試行してください。"@,
    )
}

/// The answer to a console sign-in into a locked account.
pub fn account_locked() -> (e: ApiError)
    ensures
        e@ == platform_account_locked_error(),
{
    ApiError::too_many_requests(
        "PLATFORM_ACCOUNT_LOCKED",
        "ログイン失敗回数が上限に達しました。15分後に再試行してください。",
    )
}

pub open spec fn invalid_suspension_reason_error() -> (u16, Seq<char>, Seq<char>) {
    (400u16, "INVALID_SUSPENSION_REASON"@, "停止理由は1～500文字で入力してください。"@)
}

/// The reason given for a suspension, as a sequence (none reads as empty).
pub open spec fn reason_text(reason: Option<String>) -> Seq<char> {
    match reason {
        Some(s) => s@,
        None => Seq::empty(),
    }
}

/// No reason when the tenant is made active; otherwise the trimmed reason,
/// which must be 1 to 500 characters, else `INVALID_SUSPENSION_REASON`.
pub fn validate_suspension_reason(active: bool, reason: Option<String>) -> (r: ApiResult<
    Option<String>,
>)
    ensures
        active ==> r matches Ok(None),
        !active ==> match r {
            Ok(Some(s)) => 0 < trim(reason_text(reason)).len() <= 500 && s@ == trim(
                reason_text(reason),
            ),
            Ok(None) => false,
            Err(e) => !(0 < trim(reason_text(reason)).len() <= 500) && e@
                == invalid_suspension_reason_error(),
        },
{
    if active {
        return Ok(None);
    }
    let given = match reason {
        Some(s) => s,
        None => String::new(),
    };
    let trimmed = trim_str(given.as_str());
    let n = char_count(trimmed.as_str());
    if n == 0 || n > 500 {
        Err(ApiError::bad_request("INVALID_SUSPENSION_REASON", "停止理由は1～500文字で入力してください。"))
    } else {
        Ok(Some(trimmed))
    }
}

/// Whether `code` is six digits whose value is the password of `secret` for
/// the time step of `timestamp` or one next to it.
pub open spec fn totp_value_accepts(secret: Seq<u8>, code: Seq<char>, timestamp: u64) -> bool {
    let (a, b, c) = step_window(timestamp);
    &&& is_six_digit_code(code)
    &&& {
        ||| totp_value(secret, a) == digits_value(code)
        ||| totp_value(secret, b) == digits_value(code)
        ||| totp_value(secret, c) == digits_value(code)
    }
}

/// Whether `code`, read as a number, is the operator's password at
/// `timestamp`, allowing one time step of drift either way.
pub fn verify_totp_at(secret: &[u8], code: &str, timestamp: u64) -> (r: bool)
    ensures
        r == totp_value_accepts(secret@, code@, timestamp),
{
    if !is_six_digit_text(code) {
        return false;
    }
    proof {
        lemma_six_digit_code_value(code@);
    }
    let expected = match parse_digits(code, 0, 6) {
        Some(v) => v,
        None => {
            assert(code@.subrange(0, 6) =~= code@);
            return false;
        },
    };
    assert(code@.subrange(0, 6) =~= code@);
    let counter = timestamp / TOTP_STEP_SECONDS;
    let previous = if counter > 0 {
        counter - 1
    } else {
        0
    };
    totp_code(secret, previous) as u64 == expected || totp_code(secret, counter) as u64 == expected
        || totp_code(secret, counter + 1) as u64 == expected
}

/// Whether `code` is the operator's password now, by the system clock.
pub fn verify_totp(secret: &[u8], code: &str) -> (r: bool)
    ensures
        r ==> exists|t: u64| totp_value_accepts(secret@, code@, t),
        !is_six_digit_code(code@) ==> !r,
{
    match unix_time_now() {
        Some(now) => verify_totp_at(secret, code, now),
        None => false,
    }
}

/// The console's check of a one-time password, by its value, accepts exactly
/// the codes that the tenant sign-in's check, by its digits, accepts.
pub proof fn lemma_totp_checks_agree(secret: Seq<u8>, code: Seq<char>, timestamp: u64)
    ensures
        totp_value_accepts(secret, code, timestamp) == totp_accepts(secret, code, timestamp),
{
    reveal(totp_accepts);
    if is_six_digit_code(code) {
        let (a, b, c) = step_window(timestamp);
        lemma_six_digits_iff_value(code, totp_value(secret, a));
        lemma_six_digits_iff_value(code, totp_value(secret, b));
        lemma_six_digits_iff_value(code, totp_value(secret, c));
    }
}

pub open spec fn platform_csrf_error() -> (u16, Seq<char>, Seq<char>) {
    (403u16, "FORBIDDEN"@, "CSRFトークンが不正です。"@)
}

/// `FORBIDDEN` unless the supplied `X-CSRF-Token` header equals the
/// session's token.
pub fn require_csrf(supplied: Option<&str>, admin: &CurrentPlatformAdmin) -> (r: ApiResult<()>)
    ensures
        match r {
            Ok(_) => supplied is Some && supplied->0@ == admin.csrf_token@,
            Err(e) => !(supplied is Some && supplied->0@ == admin.csrf_token@) && e@
                == platform_csrf_error(),
        },
{
    match supplied {
        Some(value) => {
            if str_eq(value, admin.csrf_token.as_str()) {
                return Ok(());
            }
        },
        None => {},
    }
    Err(ApiError::forbidden("CSRFトークンが不正です。"))
}

/// The console session token carried by the `Cookie` header, if any.
pub fn session_cookie(cookie_header: &str) -> (r: Option<String>)
    ensures
        text_view(r) == cookie_value(cookie_header@, PLATFORM_SESSION_COOKIE@),
{
    cookie_value_of(cookie_header, PLATFORM_SESSION_COOKIE)
}

/// The `Set-Cookie` value that carries a new console session token.
pub fn session_set_cookie(session_token: &str, ttl_seconds: i64, secure: bool) -> (r: String)
    ensures
        r@ == set_cookie_text(
            PLATFORM_SESSION_COOKIE@,
            session_token@,
            "Strict"@,
            ttl_seconds as int,
            secure,
        ),
{
    set_cookie(PLATFORM_SESSION_COOKIE, session_token, "Strict", ttl_seconds, secure)
}

/// The `Set-Cookie` value that removes the console session cookie.
pub fn session_clear_cookie(secure: bool) -> (r: String)
    ensures
        r@ == set_cookie_text(PLATFORM_SESSION_COOKIE@, Seq::empty(), "Strict"@, 0, secure),
{
    let r = set_cookie(PLATFORM_SESSION_COOKIE, "", "Strict", 0, secure);
    proof {
        reveal_strlit("");
    }
    r
}

/// The 404 of a tenant that the console does not find.
pub fn tenant_not_found() -> (e: ApiError)
    ensures
        e@ == (404u16, "NOT_FOUND"@, "テナントが見つかりません。"@),
{
    ApiError::not_found("テナントが見つかりません。")
}

/// The audit action of a change of a tenant's status.
pub fn tenant_status_action(active: bool) -> (r: &'static str)
    ensures
        r@ == if active {
            "tenant.reactivate"@
        } else {
            "tenant.suspend"@
        },
{
    if active {
        "tenant.reactivate"
    } else {
        "tenant.suspend"
    }
}

/// The number of active tenants among `ts`.
pub open spec fn active_count(ts: Seq<PlatformTenantResponse>) -> nat
    decreases ts.len(),
{
    if ts.len() == 0 {
        0
    } else {
        active_count(ts.drop_last()) + if ts.last().active {
            1nat
        } else {
            0nat
        }
    }
}

/// The sum of the tenants' user counts.
pub open spec fn user_total(ts: Seq<PlatformTenantResponse>) -> int
    decreases ts.len(),
{
    if ts.len() == 0 {
        0
    } else {
        user_total(ts.drop_last()) + ts.last().user_count
    }
}

/// The sum of the tenants' active user counts.
pub open spec fn active_user_total(ts: Seq<PlatformTenantResponse>) -> int
    decreases ts.len(),
{
    if ts.len() == 0 {
        0
    } else {
        active_user_total(ts.drop_last()) + ts.last().active_user_count
    }
}

/// Every running sum of both user counts fits in an `i64`.
pub open spec fn totals_fit(ts: Seq<PlatformTenantResponse>) -> bool {
    forall|k: int|
        0 <= k <= ts.len() ==> i64::MIN <= #[trigger] user_total(ts.take(k)) <= i64::MAX
            && i64::MIN <= active_user_total(ts.take(k)) <= i64::MAX
}

proof fn lemma_active_count_bound(ts: Seq<PlatformTenantResponse>)
    ensures
        active_count(ts) <= ts.len(),
    decreases ts.len(),
{
    if ts.len() > 0 {
        lemma_active_count_bound(ts.drop_last());
    }
}

/// The console's summary: tenant counts by status and the user totals.
pub fn summarize_tenants(tenants: &Vec<PlatformTenantResponse>) -> (r: PlatformSummaryResponse)
    requires
        totals_fit(tenants@),
    ensures
        r.tenant_count == tenants@.len(),
        r.active_tenant_count == active_count(tenants@),
        r.suspended_tenant_count == tenants@.len() - active_count(tenants@),
        r.user_count == user_total(tenants@),
        r.active_user_count == active_user_total(tenants@),
{
    let n = tenants.len();
    let mut active: usize = 0;
    let mut suspended: usize = 0;
    let mut users: i64 = 0;
    let mut active_users: i64 = 0;
    let mut i: usize = 0;
    while i < n
        invariant
            n == tenants@.len(),
            i <= n,
            totals_fit(tenants@),
            active == active_count(tenants@.take(i as int)),
            suspended == i - active_count(tenants@.take(i as int)),
            users == user_total(tenants@.take(i as int)),
            active_users == active_user_total(tenants@.take(i as int)),
        decreases n - i,
    {
        let t = &tenants[i];
        let ghost before = tenants@.take(i as int);
        let ghost after = tenants@.take(i + 1);
        assert(after.drop_last() =~= before);
        proof {
            lemma_active_count_bound(before);
        }
        assert(user_total(after) == users + t.user_count);
        assert(active_user_total(after) == active_users + t.active_user_count);
        if t.active {
            active = active + 1;
        } else {
            suspended = suspended + 1;
        }
        users = users + t.user_count;
        active_users = active_users + t.active_user_count;
        i = i + 1;
    }
    assert(tenants@.take(n as int) =~= tenants@);
    PlatformSummaryResponse {
        tenant_count: n,
        active_tenant_count: active,
        suspended_tenant_count: suspended,
        user_count: users,
        active_user_count: active_users,
    }
}

/// Whether the tenants' user counts sum without overflow, every running sum
/// fitting in an `i64`, which `summarize_tenants` needs.
pub fn user_totals_fit(tenants: &Vec<PlatformTenantResponse>) -> (b: bool)
    ensures
        b == totals_fit(tenants@),
{
    let n = tenants.len();
    let mut users: i64 = 0;
    let mut active_users: i64 = 0;
    let mut i: usize = 0;
    assert(tenants@.take(0) =~= Seq::<PlatformTenantResponse>::empty());
    while i < n
        invariant
            n == tenants@.len(),
            i <= n,
            users == user_total(tenants@.take(i as int)),
            active_users == active_user_total(tenants@.take(i as int)),
            forall|k: int|
                0 <= k <= i ==> i64::MIN <= #[trigger] user_total(tenants@.take(k)) <= i64::MAX
                    && i64::MIN <= active_user_total(tenants@.take(k)) <= i64::MAX,
        decreases n - i,
    {
        let t = &tenants[i];
        let ghost after = tenants@.take(i + 1);
        assert(after.drop_last() =~= tenants@.take(i as int));
        assert(user_total(after) == users + t.user_count);
        assert(active_user_total(after) == active_users + t.active_user_count);
        let u = match users.checked_add(t.user_count) {
            Some(u) => u,
            None => {
                assert(!(i64::MIN <= user_total(tenants@.take(i + 1)) <= i64::MAX));
                return false;
            },
        };
        let a = match active_users.checked_add(t.active_user_count) {
            Some(a) => a,
            None => {
                assert(!(i64::MIN <= active_user_total(tenants@.take(i + 1)) <= i64::MAX));
                assert(i64::MIN <= user_total(tenants@.take(i + 1)) <= i64::MAX);
                return false;
            },
        };
        users = u;
        active_users = a;
        i = i + 1;
    }
    true
}

/// The user totals do not look at the tenants' status: two lists of tenants
/// with the same user counts, in the same order, have the same totals,
/// however their tenants are active or suspended. A suspended tenant's
/// active users are counted like any other's.
pub proof fn lemma_user_totals_ignore_status(ts: Seq<PlatformTenantResponse>, us: Seq<PlatformTenantResponse>)
    requires
        ts.len() == us.len(),
        forall|i: int|
            0 <= i < ts.len() ==> ts[i].user_count == us[i].user_count
                && ts[i].active_user_count == us[i].active_user_count,
    ensures
        user_total(ts) == user_total(us),
        active_user_total(ts) == active_user_total(us),
    decreases ts.len(),
{
    if ts.len() > 0 {
        lemma_user_totals_ignore_status(ts.drop_last(), us.drop_last());
    }
}

/// Adding a tenant to the list adds its user count and its active user
/// count to the totals, whether the tenant is active or suspended.
pub proof fn lemma_user_totals_append(ts: Seq<PlatformTenantResponse>, t: PlatformTenantResponse)
    ensures
        user_total(ts.push(t)) == user_total(ts) + t.user_count,
        active_user_total(ts.push(t)) == active_user_total(ts) + t.active_user_count,
        active_count(ts.push(t)) == active_count(ts) + if t.active {
            1int
        } else {
            0int
        },
{
    assert(ts.push(t).drop_last() =~= ts);
}

/// Every tenant is counted once, as active or as suspended.
pub proof fn lemma_summary_partitions_tenants(ts: Seq<PlatformTenantResponse>)
    ensures
        active_count(ts) + (ts.len() - active_count(ts)) == ts.len(),
        active_count(ts) <= ts.len(),
{
    lemma_active_count_bound(ts);
}

} // verus!
