//! The Stripe API requests that the service makes, built as plain values;
//! sending them is left to the caller.
use crate::config::Config;
use crate::encoding::{uuid_hyphenated, uuid_to_string};
use crate::text::{
    decimal, push_decimal, push_signed_decimal, push_str, signed_decimal, strip_trailing,
    trim_end_matches_char,
};
use vstd::prelude::*;

verus! {

/// The Stripe API version that requests ask for.
pub const STRIPE_API_VERSION: &'static str = "2026-05-27.dahlia";

/// The credentials and endpoint of the Stripe API.
pub struct StripeClient {
    pub secret_key: String,
    pub webhook_secret: String,
    pub api_base_url: String,
}

/// An object that Stripe returns, by its ID.
pub struct StripeObject {
    pub id: String,
}

/// A Checkout session: its ID and the URL to send the customer to.
pub struct StripeCheckoutSession {
    pub id: String,
    pub url: String,
}

/// A customer-portal session: the URL to send the customer to.
pub struct StripePortalSession {
    pub url: String,
}

/// A form-encoded POST to the Stripe API.
pub struct StripeRequest {
    pub url: String,
    pub form: Vec<(String, String)>,
    pub idempotency_key: Option<String>,
}

/// The text of a form's fields.
pub open spec fn form_view(form: Seq<(String, String)>) -> Seq<(Seq<char>, Seq<char>)> {
    form.map_values(|p: (String, String)| (p.0@, p.1@))
}

/// The text of an optional string.
pub open spec fn opt_text(o: Option<String>) -> Option<Seq<char>> {
    match o {
        Some(s) => Some(s@),
        None => None,
    }
}

pub open spec fn not_configured_message() -> Seq<char> {
    "STRIPE_SECRET_KEY is not configured"@
}

/// `"true"` or `"false"`, as `bool::to_string`.
pub open spec fn bool_text(b: bool) -> Seq<char> {
    if b {
        "true"@
    } else {
        "false"@
    }
}

/// The text of a flag reads back as the flag, as `str::parse::<bool>` reads
/// it, and the two flags have different texts.
pub proof fn lemma_bool_text_reads_back(b: bool)
    ensures
        crate::text::parse_bool(bool_text(b)) == Some(b),
        bool_text(b) != bool_text(!b),
{
    reveal_strlit("true");
    reveal_strlit("false");
    assert("true"@.len() == 4);
    assert("false"@.len() == 5);
}

fn bool_string(b: bool) -> (r: String)
    ensures
        r@ == bool_text(b),
{
    if b {
        "true".to_owned()
    } else {
        "false".to_owned()
    }
}

fn field(key: &str, value: String) -> (r: (String, String))
    ensures
        r.0@ == key@,
        r.1@ == value@,
{
    (key.to_owned(), value)
}

fn owned(s: &str) -> (r: String)
    ensures
        r@ == s@,
{
    s.to_owned()
}

impl StripeClient {
    /// The client of the configured account; the base URL loses trailing
    /// slashes.
    pub fn new(config: &Config) -> (r: StripeClient)
        ensures
            r.secret_key@ == config.stripe_secret_key@,
            r.webhook_secret@ == config.stripe_webhook_secret@,
            r.api_base_url@ == strip_trailing(config.stripe_api_base_url@, '/'),
    {
        StripeClient {
            secret_key: config.stripe_secret_key.clone(),
            webhook_secret: config.stripe_webhook_secret.clone(),
            api_base_url: trim_end_matches_char(config.stripe_api_base_url.as_str(), '/'),
        }
    }

    /// Whether a secret key is set.
    pub fn is_configured(&self) -> (b: bool)
        ensures
            b == (self.secret_key@.len() > 0),
    {
        !self.secret_key.as_str().is_empty()
    }

    /// The webhook signing secret, or a message when none is set.
    pub fn webhook_secret(&self) -> (r: Result<&str, String>)
        ensures
            match r {
                Ok(s) => self.webhook_secret@.len() > 0 && s@ == self.webhook_secret@,
                Err(m) => self.webhook_secret@.len() == 0 && m@
                    == "STRIPE_WEBHOOK_SECRET is not configured"@,
            },
    {
        if self.webhook_secret.as_str().is_empty() {
            return Err("STRIPE_WEBHOOK_SECRET is not configured".to_owned());
        }
        Ok(self.webhook_secret.as_str())
    }

    /// The URL of an API path.
    pub open spec fn url_of(&self, path: Seq<char>) -> Seq<char> {
        self.api_base_url@ + path
    }

    fn request(&self, path: &str, form: Vec<(String, String)>, idempotency_key: Option<String>) -> (r:
        Result<StripeRequest, String>)
        ensures
            match r {
                Ok(req) => {
                    &&& self.secret_key@.len() > 0
                    &&& req.url@ == self.url_of(path@)
                    &&& req.form@ == form@
                    &&& req.idempotency_key == idempotency_key
                },
                Err(m) => self.secret_key@.len() == 0 && m@ == not_configured_message(),
            },
    {
        if !self.is_configured() {
            return Err("STRIPE_SECRET_KEY is not configured".to_owned());
        }
        let mut url = self.api_base_url.clone();
        push_str(&mut url, path);
        Ok(StripeRequest { url, form, idempotency_key })
    }

    /// A product for a billing plan, created at most once per plan.
    pub fn create_product(&self, name: &str, description: &str, plan_id: u128) -> (r: Result<
        StripeRequest,
        String,
    >)
        ensures
            match r {
                Ok(req) => {
                    &&& self.secret_key@.len() > 0
                    &&& req.url@ == self.url_of("/v1/products"@)
                    &&& form_view(req.form@) == seq![
                        ("name"@, name@),
                        ("description"@, description@),
                        ("metadata[plan_id]"@, uuid_hyphenated(plan_id)),
                    ]
                    &&& opt_text(req.idempotency_key) == Some(
                        "plan-product-"@ + uuid_hyphenated(plan_id),
                    )
                },
                Err(m) => self.secret_key@.len() == 0 && m@ == not_configured_message(),
            },
    {
        let mut form: Vec<(String, String)> = Vec::new();
        form.push(field("name", owned(name)));
        form.push(field("description", owned(description)));
        form.push(field("metadata[plan_id]", uuid_to_string(plan_id)));
        let mut key = "plan-product-".to_owned();
        push_str(&mut key, uuid_to_string(plan_id).as_str());
        let ghost expected = seq![
            ("name"@, name@),
            ("description"@, description@),
            ("metadata[plan_id]"@, uuid_hyphenated(plan_id)),
        ];
        assert(form_view(form@) =~= expected);
        self.request("/v1/products", form, Some(key))
    }

    /// An update of a plan's product.
    pub fn update_product(&self, product_id: &str, name: &str, description: &str, active: bool) -> (r:
        Result<StripeRequest, String>)
        ensures
            match r {
                Ok(req) => {
                    &&& self.secret_key@.len() > 0
                    &&& req.url@ == self.url_of("/v1/products/"@ + product_id@)
                    &&& form_view(req.form@) == seq![
                        ("name"@, name@),
                        ("description"@, description@),
                        ("active"@, bool_text(active)),
                    ]
                    &&& req.idempotency_key is None
                },
                Err(m) => self.secret_key@.len() == 0 && m@ == not_configured_message(),
            },
    {
        let mut form: Vec<(String, String)> = Vec::new();
        form.push(field("name", owned(name)));
        form.push(field("description", owned(description)));
        form.push(field("active", bool_string(active)));
        let mut path = "/v1/products/".to_owned();
        push_str(&mut path, product_id);
        assert(form_view(form@) =~= seq![
            ("name"@, name@),
            ("description"@, description@),
            ("active"@, bool_text(active)),
        ]);
        self.request(path.as_str(), form, None)
    }

    /// A monthly or yearly price in yen for a plan's product, created at most
    /// once per plan, amount and interval.
    pub fn create_price(&self, product_id: &str, unit_amount: i64, interval: &str, plan_id: u128) -> (r:
        Result<StripeRequest, String>)
        ensures
            match r {
                Ok(req) => {
                    &&& self.secret_key@.len() > 0
                    &&& req.url@ == self.url_of("/v1/prices"@)
                    &&& form_view(req.form@) == seq![
                        ("product"@, product_id@),
                        ("currency"@, "jpy"@),
                        ("unit_amount"@, signed_decimal(unit_amount as int)),
                        ("recurring[interval]"@, interval@),
                        ("metadata[plan_id]"@, uuid_hyphenated(plan_id)),
                    ]
                    &&& opt_text(req.idempotency_key) == Some(
                        "plan-price-"@ + uuid_hyphenated(plan_id) + "-"@ + signed_decimal(
                            unit_amount as int,
                        ) + "-"@ + interval@,
                    )
                },
                Err(m) => self.secret_key@.len() == 0 && m@ == not_configured_message(),
            },
    {
        let mut amount = String::new();
        push_signed_decimal(&mut amount, unit_amount);
        let mut form: Vec<(String, String)> = Vec::new();
        form.push(field("product", owned(product_id)));
        form.push(field("currency", owned("jpy")));
        form.push(field("unit_amount", amount.clone()));
        form.push(field("recurring[interval]", owned(interval)));
        form.push(field("metadata[plan_id]", uuid_to_string(plan_id)));
        let mut key = "plan-price-".to_owned();
        push_str(&mut key, uuid_to_string(plan_id).as_str());
        push_str(&mut key, "-");
        push_str(&mut key, amount.as_str());
        push_str(&mut key, "-");
        push_str(&mut key, interval);
        assert(form_view(form@) =~= seq![
            ("product"@, product_id@),
            ("currency"@, "jpy"@),
            ("unit_amount"@, signed_decimal(unit_amount as int)),
            ("recurring[interval]"@, interval@),
            ("metadata[plan_id]"@, uuid_hyphenated(plan_id)),
        ]);
        self.request("/v1/prices", form, Some(key))
    }

    /// Activation or deactivation of a price.
    pub fn set_price_active(&self, price_id: &str, active: bool) -> (r: Result<StripeRequest, String>)
        ensures
            match r {
                Ok(req) => {
                    &&& self.secret_key@.len() > 0
                    &&& req.url@ == self.url_of("/v1/prices/"@ + price_id@)
                    &&& form_view(req.form@) == seq![("active"@, bool_text(active))]
                    &&& req.idempotency_key is None
                },
                Err(m) => self.secret_key@.len() == 0 && m@ == not_configured_message(),
            },
    {
        let mut form: Vec<(String, String)> = Vec::new();
        form.push(field("active", bool_string(active)));
        let mut path = "/v1/prices/".to_owned();
        push_str(&mut path, price_id);
        assert(form_view(form@) =~= seq![("active"@, bool_text(active))]);
        self.request(path.as_str(), form, None)
    }

    /// The Stripe customer of a tenant, created at most once per tenant.
    pub fn create_customer(&self, email: &str, tenant_name: &str, tenant_id: u128) -> (r: Result<
        StripeRequest,
        String,
    >)
        ensures
            match r {
                Ok(req) => {
                    &&& self.secret_key@.len() > 0
                    &&& req.url@ == self.url_of("/v1/customers"@)
                    &&& form_view(req.form@) == seq![
                        ("email"@, email@),
                        ("name"@, tenant_name@),
                        ("metadata[tenant_id]"@, uuid_hyphenated(tenant_id)),
                    ]
                    &&& opt_text(req.idempotency_key) == Some(
                        "tenant-customer-"@ + uuid_hyphenated(tenant_id),
                    )
                },
                Err(m) => self.secret_key@.len() == 0 && m@ == not_configured_message(),
            },
    {
        let mut form: Vec<(String, String)> = Vec::new();
        form.push(field("email", owned(email)));
        form.push(field("name", owned(tenant_name)));
        form.push(field("metadata[tenant_id]", uuid_to_string(tenant_id)));
        let mut key = "tenant-customer-".to_owned();
        push_str(&mut key, uuid_to_string(tenant_id).as_str());
        assert(form_view(form@) =~= seq![
            ("email"@, email@),
            ("name"@, tenant_name@),
            ("metadata[tenant_id]"@, uuid_hyphenated(tenant_id)),
        ]);
        self.request("/v1/customers", form, Some(key))
    }

    /// A Checkout session that subscribes the tenant's customer to a plan's
    /// price; `request_id` (a fresh UUID) makes its idempotency key unique.
    pub fn create_checkout_session(
        &self,
        customer_id: &str,
        price_id: &str,
        tenant_id: u128,
        plan_id: u128,
        success_url: &str,
        cancel_url: &str,
        request_id: u128,
    ) -> (r: Result<StripeRequest, String>)
        ensures
            match r {
                Ok(req) => {
                    &&& self.secret_key@.len() > 0
                    &&& req.url@ == self.url_of("/v1/checkout/sessions"@)
                    &&& form_view(req.form@) == seq![
                        ("mode"@, "subscription"@),
                        ("customer"@, customer_id@),
                        ("line_items[0][price]"@, price_id@),
                        ("line_items[0][quantity]"@, "1"@),
                        ("success_url"@, success_url@),
                        ("cancel_url"@, cancel_url@),
                        ("metadata[tenant_id]"@, uuid_hyphenated(tenant_id)),
                        ("metadata[plan_id]"@, uuid_hyphenated(plan_id)),
                        ("subscription_data[metadata][tenant_id]"@, uuid_hyphenated(tenant_id)),
                        ("subscription_data[metadata][plan_id]"@, uuid_hyphenated(plan_id)),
                    ]
                    &&& opt_text(req.idempotency_key) == Some(
                        "checkout-"@ + uuid_hyphenated(tenant_id) + "-"@ + uuid_hyphenated(plan_id)
                            + "-"@ + uuid_hyphenated(request_id),
                    )
                },
                Err(m) => self.secret_key@.len() == 0 && m@ == not_configured_message(),
            },
    {
        let mut form: Vec<(String, String)> = Vec::new();
        form.push(field("mode", owned("subscription")));
        form.push(field("customer", owned(customer_id)));
        form.push(field("line_items[0][price]", owned(price_id)));
        form.push(field("line_items[0][quantity]", owned("1")));
        form.push(field("success_url", owned(success_url)));
        form.push(field("cancel_url", owned(cancel_url)));
        form.push(field("metadata[tenant_id]", uuid_to_string(tenant_id)));
        form.push(field("metadata[plan_id]", uuid_to_string(plan_id)));
        form.push(field("subscription_data[metadata][tenant_id]", uuid_to_string(tenant_id)));
        form.push(field("subscription_data[metadata][plan_id]", uuid_to_string(plan_id)));
        let mut key = "checkout-".to_owned();
        push_str(&mut key, uuid_to_string(tenant_id).as_str());
        push_str(&mut key, "-");
        push_str(&mut key, uuid_to_string(plan_id).as_str());
        push_str(&mut key, "-");
        push_str(&mut key, uuid_to_string(request_id).as_str());
        assert(form_view(form@) =~= seq![
            ("mode"@, "subscription"@),
            ("customer"@, customer_id@),
            ("line_items[0][price]"@, price_id@),
            ("line_items[0][quantity]"@, "1"@),
            ("success_url"@, success_url@),
            ("cancel_url"@, cancel_url@),
            ("metadata[tenant_id]"@, uuid_hyphenated(tenant_id)),
            ("metadata[plan_id]"@, uuid_hyphenated(plan_id)),
            ("subscription_data[metadata][tenant_id]"@, uuid_hyphenated(tenant_id)),
            ("subscription_data[metadata][plan_id]"@, uuid_hyphenated(plan_id)),
        ]);
        self.request("/v1/checkout/sessions", form, Some(key))
    }

    /// A customer-portal session that returns to `return_url`.
    pub fn create_portal_session(&self, customer_id: &str, return_url: &str) -> (r: Result<
        StripeRequest,
        String,
    >)
        ensures
            match r {
                Ok(req) => {
                    &&& self.secret_key@.len() > 0
                    &&& req.url@ == self.url_of("/v1/billing_portal/sessions"@)
                    &&& form_view(req.form@) == seq![
                        ("customer"@, customer_id@),
                        ("return_url"@, return_url@),
                    ]
                    &&& req.idempotency_key is None
                },
                Err(m) => self.secret_key@.len() == 0 && m@ == not_configured_message(),
            },
    {
        let mut form: Vec<(String, String)> = Vec::new();
        form.push(field("customer", owned(customer_id)));
        form.push(field("return_url", owned(return_url)));
        assert(form_view(form@) =~= seq![("customer"@, customer_id@), ("return_url"@, return_url@)]);
        self.request("/v1/billing_portal/sessions", form, None)
    }
}

/// The message of a failed Stripe call: Stripe's own error message when the
/// body carries one, else the HTTP status.
pub fn stripe_error_message(status_text: &str, error_message: Option<String>) -> (r: String)
    ensures
        r@ == match error_message {
            Some(m) => m@,
            None => "Stripe returned HTTP "@ + status_text@,
        },
{
    match error_message {
        Some(m) => m,
        None => {
            let mut r = "Stripe returned HTTP ".to_owned();
            push_str(&mut r, status_text);
            r
        },
    }
}

} // verus!
