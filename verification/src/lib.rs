pub mod auth;
pub mod billing;
pub mod config;
pub mod cookie;
pub mod crypto;
pub mod email;
pub mod encoding;
pub mod error;
pub mod health;
pub mod mfa;
pub mod platform;
pub mod stripe;
pub mod tenant;
pub mod text;
