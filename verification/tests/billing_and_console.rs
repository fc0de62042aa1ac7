use hmac::{Hmac, Mac};
use sha2::Sha256;

use saas_api::auth::CurrentUser;
use saas_api::billing::{
    billing_status, billing_url, cancels_at_period_end, checkout_customer, checkout_completion,
    decode_hex, ensure_stripe_configured, metadata_uuid, parse_signature_header, plan_not_found,
    require_tenant_admin, required_string, resolve_plan_id, stripe_error, subscription_change,
    subscription_deletion, subscription_not_found, subscription_period_end,
    verify_webhook_signature_at, webhook_event_kind, CheckoutCustomer, ExistingSubscription,
    StripeEventObject, SubscriptionRow, WebhookEventKind,
};
use saas_api::config::{Config, EnvValues};
use saas_api::email::{link_base_url, password_reset_body, password_reset_url};
use saas_api::platform::{
    self, summarize_tenants, tenant_status_action, user_totals_fit, validate_suspension_reason,
    CurrentPlatformAdmin, PlatformTenantResponse,
};
use saas_api::stripe::{stripe_error_message, StripeClient};
use saas_api::tenant::{
    check_user_delete, ensure_another_admin, needs_another_admin_on_delete,
    needs_another_admin_on_update, require_admin, user_not_found, validate_new_user,
    validate_role, validate_user_update, CreateUserRequest, UpdateUserRequest,
    member_delete_step, member_update_step, user_email_taken, MemberChangeStep, UserUpdate,
};

const TENANT: &str = "018f0000-0000-7000-8000-000000000001";
const PLAN: &str = "018f0000-0000-7000-8000-0000000000aa";

fn sign(secret: &str, timestamp: u64, body: &[u8]) -> String {
    let payload = [timestamp.to_string().as_bytes(), b".", body].concat();
    let mut mac = Hmac::<Sha256>::new_from_slice(secret.as_bytes()).unwrap();
    mac.update(&payload);
    mac.finalize().into_bytes().iter().map(|b| format!("{b:02x}")).collect()
}

fn empty_object() -> StripeEventObject {
    StripeEventObject {
        metadata_tenant_id: None,
        metadata_plan_id: None,
        id: None,
        customer: None,
        subscription: None,
        status: None,
        price_id: None,
        unit_amount: None,
        billing_interval: None,
        current_period_end: None,
        item_current_period_end: None,
        cancel_at_period_end: None,
    }
}

fn env() -> EnvValues {
    EnvValues {
        database_url: Some("postgres://db".to_owned()),
        api_port: None,
        session_ttl_seconds: None,
        password_reset_ttl_seconds: None,
        cookie_secure: None,
        app_base_url: None,
        smtp_host: None,
        smtp_port: None,
        smtp_from: None,
        stripe_secret_key: None,
        stripe_webhook_secret: None,
        stripe_api_base_url: None,
    }
}

fn member(role: &str) -> CurrentUser {
    CurrentUser {
        id: 1,
        tenant_id: 2,
        tenant_slug: "acme".to_owned(),
        tenant_name: "Acme".to_owned(),
        email: "a@acme.test".to_owned(),
        display_name: "A".to_owned(),
        role: role.to_owned(),
        mfa_enabled: true,
        csrf_token: "t".to_owned(),
    }
}

fn tenant_row(active: bool, users: i64, active_users: i64) -> PlatformTenantResponse {
    PlatformTenantResponse {
        id: 1,
        slug: "acme".to_owned(),
        name: "Acme".to_owned(),
        active,
        suspension_reason: None,
        created_at: "2024-01-01T00:00:00Z".to_owned(),
        user_count: users,
        active_user_count: active_users,
    }
}

#[test]
fn signed_webhook_is_accepted_within_tolerance() {
    let body = br#"{"id":"evt_1"}"#;
    let signature = sign("whsec_x", 1_000, body);
    let header = format!("t=1000,v1=deadbeef,v1={signature}");
    assert!(verify_webhook_signature_at("whsec_x", &header, body, 1_300).is_ok());
    assert!(verify_webhook_signature_at("whsec_x", &header, body, 700).is_ok());
    let late = verify_webhook_signature_at("whsec_x", &header, body, 1_301).unwrap_err();
    assert_eq!(late.code, "INVALID_STRIPE_WEBHOOK");
    assert!(verify_webhook_signature_at("other", &header, body, 1_000).is_err());
    assert!(verify_webhook_signature_at("whsec_x", &header, b"{}", 1_000).is_err());
    assert!(verify_webhook_signature_at("whsec_x", &format!("v1={signature}"), body, 1_000).is_err());
}

#[test]
fn signature_header_is_split_into_parts() {
    let (timestamp, signatures) = parse_signature_header("t=12, v1=ab ,v0=zz,v1=cd,junk");
    assert_eq!(timestamp, Some(12));
    assert_eq!(signatures, vec!["cd".to_owned()]);
    let (later, _) = parse_signature_header("t=12,t=bad");
    assert_eq!(later, None);
    let (none, empty) = parse_signature_header("t=x");
    assert_eq!(none, None);
    assert!(empty.is_empty());
}

#[test]
fn hex_round_trip_and_refusals() {
    let bytes = [0_u8, 1, 127, 128, 255];
    let text: String = bytes.iter().map(|b| format!("{b:02x}")).collect();
    assert_eq!(decode_hex(&text), Some(bytes.to_vec()));
    assert_eq!(decode_hex("ABcd"), Some(vec![0xab, 0xcd]));
    assert_eq!(decode_hex("abc"), None);
    assert_eq!(decode_hex("zz"), None);
    assert_eq!(decode_hex(""), Some(vec![]));
}

#[test]
fn webhook_events_are_classified() {
    assert_eq!(webhook_event_kind("checkout.session.completed"), WebhookEventKind::CheckoutCompleted);
    assert_eq!(webhook_event_kind("customer.subscription.created"), WebhookEventKind::SubscriptionUpdated);
    assert_eq!(webhook_event_kind("customer.subscription.updated"), WebhookEventKind::SubscriptionUpdated);
    assert_eq!(webhook_event_kind("customer.subscription.deleted"), WebhookEventKind::SubscriptionDeleted);
    assert_eq!(webhook_event_kind("invoice.paid"), WebhookEventKind::Ignored);
}

#[test]
fn checkout_completion_reads_metadata_and_ids() {
    let mut object = empty_object();
    object.metadata_tenant_id = Some(TENANT.to_owned());
    object.metadata_plan_id = Some(PLAN.to_owned());
    object.customer = Some("cus_1".to_owned());
    assert_eq!(checkout_completion(&object).err().unwrap().code, "INVALID_STRIPE_WEBHOOK");
    object.subscription = Some("sub_1".to_owned());
    let completion = checkout_completion(&object).unwrap();
    assert_eq!(completion.tenant_id, 0x018f_0000_0000_7000_8000_0000_0000_0001);
    assert_eq!(completion.plan_id, 0x018f_0000_0000_7000_8000_0000_0000_00aa);
    assert_eq!(completion.customer_id, "cus_1");
    assert_eq!(completion.subscription_id, "sub_1");
}

#[test]
fn subscription_events_read_their_fields() {
    let mut object = empty_object();
    object.metadata_tenant_id = Some(TENANT.to_owned());
    object.id = Some("sub_1".to_owned());
    let deletion = subscription_deletion(&object).unwrap();
    assert_eq!(deletion.subscription_id, "sub_1");
    assert!(subscription_change(&object).is_err());
    object.customer = Some("cus_1".to_owned());
    object.status = Some("active".to_owned());
    object.price_id = Some("price_1".to_owned());
    let change = subscription_change(&object).unwrap();
    assert_eq!(change.status, "active");
    assert_eq!(change.stripe_price_id, "price_1");

    assert_eq!(resolve_plan_id(Some(9), &object).unwrap(), 9);
    assert!(resolve_plan_id(None, &object).is_err());
    object.metadata_plan_id = Some(PLAN.to_owned());
    assert_eq!(resolve_plan_id(None, &object).unwrap(), 0x018f_0000_0000_7000_8000_0000_0000_00aa);

    assert_eq!(subscription_period_end(&object), None);
    object.item_current_period_end = Some(20);
    assert_eq!(subscription_period_end(&object), Some(20));
    object.current_period_end = Some(10);
    assert_eq!(subscription_period_end(&object), Some(10));
    assert!(!cancels_at_period_end(&object));
    object.cancel_at_period_end = Some(true);
    assert!(cancels_at_period_end(&object));
}

#[test]
fn metadata_values_are_checked() {
    assert!(metadata_uuid(&Some("nope".to_owned())).is_err());
    assert!(metadata_uuid(&None).is_err());
    assert_eq!(required_string(&Some("x".to_owned())).unwrap(), "x");
    assert_eq!(required_string(&None).unwrap_err().status, 400);
}

#[test]
fn checkout_reuses_or_creates_the_customer() {
    assert!(matches!(checkout_customer(None), Ok(CheckoutCustomer::Create)));
    let canceled = ExistingSubscription {
        stripe_customer_id: "cus_1".to_owned(),
        stripe_subscription_id: Some("sub_1".to_owned()),
        status: "canceled".to_owned(),
    };
    match checkout_customer(Some(canceled)) {
        Ok(CheckoutCustomer::Existing(id)) => assert_eq!(id, "cus_1"),
        _ => panic!("a canceled subscription keeps its customer"),
    }
    let active = ExistingSubscription {
        stripe_customer_id: "cus_1".to_owned(),
        stripe_subscription_id: Some("sub_1".to_owned()),
        status: "active".to_owned(),
    };
    let error = checkout_customer(Some(active)).err().unwrap();
    assert_eq!((error.status, error.code.as_str()), (409, "SUBSCRIPTION_ALREADY_EXISTS"));
}

#[test]
fn billing_status_without_subscription_is_empty() {
    let status = billing_status(None, None, true);
    assert!(status.plan.is_none() && status.status.is_none());
    assert!(!status.cancel_at_period_end);
    assert!(status.stripe_configured);
    let row = SubscriptionRow {
        plan_id: 1,
        status: "active".to_owned(),
        current_period_end: Some("2030-01-01".to_owned()),
        cancel_at_period_end: true,
        unit_amount: Some(1000),
        billing_interval: Some("month".to_owned()),
    };
    let status = billing_status(Some(row), None, false);
    assert_eq!(status.status.as_deref(), Some("active"));
    assert_eq!(status.unit_amount, Some(1000));
    assert!(status.cancel_at_period_end);
}

#[test]
fn billing_needs_an_admin_and_stripe() {
    assert!(require_tenant_admin(&member("admin")).is_ok());
    assert_eq!(require_tenant_admin(&member("member")).unwrap_err().status, 403);
    let unconfigured = StripeClient {
        secret_key: String::new(),
        webhook_secret: String::new(),
        api_base_url: "https://api.stripe.com".to_owned(),
    };
    assert_eq!(ensure_stripe_configured(&unconfigured).unwrap_err().status, 503);
    assert_eq!(stripe_error().code, "STRIPE_UNAVAILABLE");
    assert_eq!(plan_not_found().status, 404);
    assert_eq!(subscription_not_found().status, 404);
    assert_eq!(billing_url("https://app.test", "?checkout=success"), "https://app.test/billing?checkout=success");
}

#[test]
fn stripe_requests_carry_form_and_idempotency_key() {
    let mut config = Config::from_values(env()).unwrap();
    config.stripe_secret_key = "sk_test".to_owned();
    config.stripe_api_base_url = "https://stripe.test//".to_owned();
    let client = StripeClient::new(&config);
    assert_eq!(client.api_base_url, "https://stripe.test");
    assert!(client.is_configured());
    assert!(client.webhook_secret().is_err());

    let request = client.create_customer("a@acme.test", "Acme", 1).unwrap();
    assert_eq!(request.url, "https://stripe.test/v1/customers");
    assert_eq!(request.form[0], ("email".to_owned(), "a@acme.test".to_owned()));
    assert_eq!(
        request.form[2],
        ("metadata[tenant_id]".to_owned(), "00000000-0000-0000-0000-000000000001".to_owned())
    );
    assert!(request.idempotency_key.is_some());

    let portal = client.create_portal_session("cus_1", "https://app.test/billing").unwrap();
    assert_eq!(portal.url, "https://stripe.test/v1/billing_portal/sessions");
    assert!(portal.idempotency_key.is_none());

    let checkout = client
        .create_checkout_session("cus_1", "price_1", 1, 2, "https://ok", "https://no", 3)
        .unwrap();
    assert_eq!(checkout.form.len(), 10);
    assert_eq!(
        checkout.idempotency_key.as_deref(),
        Some("checkout-00000000-0000-0000-0000-000000000001-00000000-0000-0000-0000-000000000002-00000000-0000-0000-0000-000000000003")
    );

    let product = client.create_product("Pro", "Pro plan", 2).unwrap();
    assert_eq!(product.idempotency_key.as_deref(), Some("plan-product-00000000-0000-0000-0000-000000000002"));

    let unconfigured = StripeClient::new(&Config::from_values(env()).unwrap());
    assert_eq!(
        unconfigured.create_portal_session("cus_1", "x").err().unwrap(),
        "STRIPE_SECRET_KEY is not configured"
    );
    assert_eq!(stripe_error_message("400 Bad Request", None), "Stripe returned HTTP 400 Bad Request");
    assert_eq!(stripe_error_message("400", Some("No such price".to_owned())), "No such price");
}

#[test]
fn config_defaults_and_errors() {
    let config = Config::from_values(env()).unwrap();
    assert_eq!(config.port, 3000);
    assert_eq!(config.session_ttl_seconds, 28800);
    assert_eq!(config.password_reset_ttl_seconds, 1800);
    assert!(!config.cookie_secure);
    assert_eq!(config.app_base_url, "http://localhost:5173");
    assert_eq!(config.smtp_host, "mailpit");
    assert_eq!(config.smtp_port, 1025);
    assert_eq!(config.stripe_api_base_url, "https://api.stripe.com");

    let missing = EnvValues { database_url: None, ..env() };
    assert_eq!(Config::from_values(missing).err().unwrap(), "DATABASE_URL must be configured");
    let bad_port = EnvValues { api_port: Some("70000".to_owned()), ..env() };
    assert_eq!(Config::from_values(bad_port).err().unwrap(), "API_PORT must be a valid u16");
    let bad_ttl = EnvValues { session_ttl_seconds: Some("-5".to_owned()), ..env() };
    assert_eq!(Config::from_values(bad_ttl).unwrap().session_ttl_seconds, -5);
    let bad_bool = EnvValues { cookie_secure: Some("yes".to_owned()), ..env() };
    assert_eq!(Config::from_values(bad_bool).err().unwrap(), "COOKIE_SECURE must be true or false");
}

#[test]
fn reset_mail_links_to_the_app() {
    let base = link_base_url("https://app.test//");
    assert_eq!(base, "https://app.test");
    let url = password_reset_url(&base, "tok");
    assert_eq!(url, "https://app.test/reset-password?token=tok");
    let body = password_reset_body("Acme", &url);
    assert!(body.starts_with("Acme のパスワード再設定を受け付けました。"));
    assert!(body.contains("https://app.test/reset-password?token=tok\n"));
}

#[test]
fn roles_and_member_checks() {
    assert_eq!(validate_role("member").unwrap(), "member");
    assert_eq!(validate_role("owner").unwrap_err().code, "INVALID_ROLE");
    assert!(require_admin(&member("admin")).is_ok());
    assert_eq!(require_admin(&member("member")).unwrap_err().status, 403);
    let request = CreateUserRequest {
        email: " New@Acme.TEST ".to_owned(),
        display_name: " New ".to_owned(),
        role: "member".to_owned(),
        password: "a long enough password".to_owned(),
    };
    let new_user = validate_new_user(&request).unwrap();
    assert_eq!(new_user.email, "new@acme.test");
    assert_eq!(new_user.display_name, "New");
    let update = UpdateUserRequest { display_name: "X".to_owned(), role: "admin".to_owned(), active: false };
    assert_eq!(validate_user_update(1, 1, &update).err().unwrap().code, "CANNOT_DEACTIVATE_SELF");
    assert!(validate_user_update(1, 2, &update).is_ok());
    assert_eq!(check_user_delete(1, 1).unwrap_err().code, "CANNOT_DELETE_SELF");
    assert!(check_user_delete(1, 2).is_ok());
    assert_eq!(user_not_found().status, 404);
}

#[test]
fn last_active_admin_is_kept() {
    assert!(needs_another_admin_on_update("admin", "member", true));
    assert!(needs_another_admin_on_update("admin", "admin", false));
    assert!(!needs_another_admin_on_update("admin", "admin", true));
    assert!(!needs_another_admin_on_update("member", "member", false));
    assert!(needs_another_admin_on_delete("admin"));
    assert!(!needs_another_admin_on_delete("member"));
    assert_eq!(ensure_another_admin(0).unwrap_err().code, "LAST_ADMIN_REQUIRED");
    assert!(ensure_another_admin(1).is_ok());
}

#[test]
fn console_checks() {
    assert_eq!(platform::invalid_credentials().code, "INVALID_PLATFORM_CREDENTIALS");
    assert_eq!(platform::account_locked().status, 429);
    assert_eq!(validate_suspension_reason(true, Some("x".to_owned())).unwrap(), None);
    assert_eq!(
        validate_suspension_reason(false, Some("  unpaid  ".to_owned())).unwrap(),
        Some("unpaid".to_owned())
    );
    assert_eq!(
        validate_suspension_reason(false, None).unwrap_err().code,
        "INVALID_SUSPENSION_REASON"
    );
    assert!(validate_suspension_reason(false, Some("x".repeat(501))).is_err());
    assert_eq!(tenant_status_action(true), "tenant.reactivate");
    assert_eq!(tenant_status_action(false), "tenant.suspend");
    let admin = CurrentPlatformAdmin {
        id: 1,
        email: "ops@example.test".to_owned(),
        display_name: "Ops".to_owned(),
        csrf_token: "c".to_owned(),
    };
    assert!(platform::require_csrf(Some("c"), &admin).is_ok());
    assert!(platform::require_csrf(Some("d"), &admin).is_err());
    assert_eq!(
        platform::session_set_cookie("s", 60, false),
        "saas_platform_session=s; Path=/; HttpOnly; SameSite=Strict; Max-Age=60"
    );
    assert_eq!(platform::session_cookie("saas_platform_session=s"), Some("s".to_owned()));
}

#[test]
fn summary_counts_partition_tenants() {
    let tenants = vec![tenant_row(true, 3, 2), tenant_row(false, 4, 0), tenant_row(true, 1, 1)];
    let summary = summarize_tenants(&tenants);
    assert_eq!(summary.tenant_count, 3);
    assert_eq!(summary.active_tenant_count, 2);
    assert_eq!(summary.suspended_tenant_count, 1);
    assert_eq!(summary.user_count, 8);
    assert_eq!(summary.active_user_count, 3);
    assert_eq!(
        summary.active_tenant_count + summary.suspended_tenant_count,
        summary.tenant_count
    );
}

#[test]
fn member_steps_count_admins_only_when_needed() {
    let demote = UserUpdate { display_name: "X".to_owned(), role: "member".to_owned(), active: true };
    assert!(member_update_step("admin", &demote, None).unwrap() == MemberChangeStep::CountOtherAdmins);
    assert!(member_update_step("admin", &demote, Some(2)).unwrap() == MemberChangeStep::Write);
    assert_eq!(
        member_update_step("admin", &demote, Some(0)).err().unwrap().code,
        "LAST_ADMIN_REQUIRED"
    );
    assert!(member_update_step("member", &demote, None).unwrap() == MemberChangeStep::Write);
    assert!(member_delete_step("admin", None).unwrap() == MemberChangeStep::CountOtherAdmins);
    assert!(member_delete_step("admin", Some(0)).is_err());
    assert!(member_delete_step("member", None).unwrap() == MemberChangeStep::Write);
    assert_eq!(user_email_taken().code, "USER_EMAIL_EXISTS");
    assert_eq!(platform::tenant_not_found().status, 404);
}

#[test]
fn user_totals_are_checked_before_summing() {
    assert!(user_totals_fit(&vec![tenant_row(true, 3, 2), tenant_row(false, 4, 0)]));
    assert!(user_totals_fit(&vec![]));
    assert!(!user_totals_fit(&vec![tenant_row(true, i64::MAX, 0), tenant_row(true, 1, 0)]));
    assert!(!user_totals_fit(&vec![tenant_row(true, 0, i64::MIN), tenant_row(true, 0, -1)]));
    assert!(user_totals_fit(&vec![tenant_row(true, i64::MAX, 0), tenant_row(true, -1, 0)]));
}
