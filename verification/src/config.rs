//! The service's settings, read from environment variables.
use crate::text::{
    parse_bool, parse_bool_str, parse_i64, parse_i64_str, parse_u16, parse_u16_str,
};
use vstd::prelude::*;

verus! {

/// The service's settings.
pub struct Config {
    pub database_url: String,
    pub port: u16,
    pub session_ttl_seconds: i64,
    pub password_reset_ttl_seconds: i64,
    pub cookie_secure: bool,
    pub app_base_url: String,
    pub smtp_host: String,
    pub smtp_port: u16,
    pub smtp_from: String,
    pub stripe_secret_key: String,
    pub stripe_webhook_secret: String,
    pub stripe_api_base_url: String,
}

/// The environment variables that configure the service, `None` where one
/// is unset (or not Unicode).
pub struct EnvValues {
    pub database_url: Option<String>,
    pub api_port: Option<String>,
    pub session_ttl_seconds: Option<String>,
    pub password_reset_ttl_seconds: Option<String>,
    pub cookie_secure: Option<String>,
    pub app_base_url: Option<String>,
    pub smtp_host: Option<String>,
    pub smtp_port: Option<String>,
    pub smtp_from: Option<String>,
    pub stripe_secret_key: Option<String>,
    pub stripe_webhook_secret: Option<String>,
    pub stripe_api_base_url: Option<String>,
}

/// A variable's value, or the default when it is unset.
pub open spec fn value_or(v: Option<String>, default: Seq<char>) -> Seq<char> {
    match v {
        Some(s) => s@,
        None => default,
    }
}

/// The first setting that is missing or does not parse, as its message.
pub open spec fn config_error(v: EnvValues) -> Option<Seq<char>> {
    if v.database_url is None {
        Some("DATABASE_URL must be configured"@)
    } else if parse_u16(value_or(v.api_port, "3000"@)) is None {
        Some("API_PORT must be a valid u16"@)
    } else if parse_i64(value_or(v.session_ttl_seconds, "28800"@)) is None {
        Some("SESSION_TTL_SECONDS must be a valid i64"@)
    } else if parse_i64(value_or(v.password_reset_ttl_seconds, "1800"@)) is None {
        Some("PASSWORD_RESET_TTL_SECONDS must be a valid i64"@)
    } else if parse_bool(value_or(v.cookie_secure, "false"@)) is None {
        Some("COOKIE_SECURE must be true or false"@)
    } else if parse_u16(value_or(v.smtp_port, "1025"@)) is None {
        Some("SMTP_PORT must be a valid u16"@)
    } else {
        None
    }
}

fn value_or_default(v: Option<String>, default: &str) -> (r: String)
    ensures
        r@ == value_or(v, default@),
{
    match v {
        Some(s) => s,
        None => default.to_owned(),
    }
}

impl Config {
    /// The settings from the variables' values: the first missing or
    /// malformed setting is an error naming it; unset optional settings take
    /// their defaults.
    pub fn from_values(v: EnvValues) -> (r: Result<Config, String>)
        ensures
            match r {
                Err(message) => config_error(v) == Some(message@),
                Ok(c) => {
                    &&& config_error(v) is None
                    &&& c.database_url@ == v.database_url->0@
                    &&& Some(c.port) == parse_u16(value_or(v.api_port, "3000"@))
                    &&& Some(c.session_ttl_seconds) == parse_i64(
                        value_or(v.session_ttl_seconds, "28800"@),
                    )
                    &&& Some(c.password_reset_ttl_seconds) == parse_i64(
                        value_or(v.password_reset_ttl_seconds, "1800"@),
                    )
                    &&& Some(c.cookie_secure) == parse_bool(value_or(v.cookie_secure, "false"@))
                    &&& c.app_base_url@ == value_or(v.app_base_url, "http://localhost:5173"@)
                    &&& c.smtp_host@ == value_or(v.smtp_host, "mailpit"@)
                    &&& Some(c.smtp_port) == parse_u16(value_or(v.smtp_port, "1025"@))
                    &&& c.smtp_from@ == value_or(
                        v.smtp_from,
                        "SaaS Platform <no-reply@example.test>"@,
                    )
                    &&& c.stripe_secret_key@ == value_or(v.stripe_secret_key, ""@)
                    &&& c.stripe_webhook_secret@ == value_or(v.stripe_webhook_secret, ""@)
                    &&& c.stripe_api_base_url@ == value_or(
                        v.stripe_api_base_url,
                        "https://api.stripe.com"@,
                    )
                },
            },
    {
        let database_url = match v.database_url {
            Some(url) => url,
            None => {
                return Err("DATABASE_URL must be configured".to_owned());
            },
        };
        let port = match parse_u16_str(value_or_default(v.api_port, "3000").as_str()) {
            Some(p) => p,
            None => {
                return Err("API_PORT must be a valid u16".to_owned());
            },
        };
        let session_ttl_seconds = match parse_i64_str(
            value_or_default(v.session_ttl_seconds, "28800").as_str(),
        ) {
            Some(t) => t,
            None => {
                return Err("SESSION_TTL_SECONDS must be a valid i64".to_owned());
            },
        };
        let password_reset_ttl_seconds = match parse_i64_str(
            value_or_default(v.password_reset_ttl_seconds, "1800").as_str(),
        ) {
            Some(t) => t,
            None => {
                return Err("PASSWORD_RESET_TTL_SECONDS must be a valid i64".to_owned());
            },
        };
        let cookie_secure = match parse_bool_str(
            value_or_default(v.cookie_secure, "false").as_str(),
        ) {
            Some(b) => b,
            None => {
                return Err("COOKIE_SECURE must be true or false".to_owned());
            },
        };
        let app_base_url = value_or_default(v.app_base_url, "http://localhost:5173");
        let smtp_host = value_or_default(v.smtp_host, "mailpit");
        let smtp_port = match parse_u16_str(value_or_default(v.smtp_port, "1025").as_str()) {
            Some(p) => p,
            None => {
                return Err("SMTP_PORT must be a valid u16".to_owned());
            },
        };
        let smtp_from = value_or_default(v.smtp_from, "SaaS Platform <no-reply@example.test>");
        let stripe_secret_key = value_or_default(v.stripe_secret_key, "");
        let stripe_webhook_secret = value_or_default(v.stripe_webhook_secret, "");
        let stripe_api_base_url = value_or_default(v.stripe_api_base_url, "https://api.stripe.com");
        Ok(
            Config {
                database_url,
                port,
                session_ttl_seconds,
                password_reset_ttl_seconds,
                cookie_secure,
                app_base_url,
                smtp_host,
                smtp_port,
                smtp_from,
                stripe_secret_key,
                stripe_webhook_secret,
                stripe_api_base_url,
            },
        )
    }
}

} // verus!
