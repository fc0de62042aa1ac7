[package]
name = "saas-api"
version = "0.1.0"
edition = "2021"
publish = false

[dependencies]
aes-gcm = "0.10"
anyhow = "1"
argon2 = "0.5"
axum = "0.8"
base64 = "0.22"
data-encoding = "2"
hmac = "0.12"
lettre = { version = "0.11", default-features = false, features = ["builder", "smtp-transport", "tokio1"] }
rand = "0.8"
reqwest = { version = "0.12", default-features = false, features = ["json"] }
serde = { version = "1", features = ["derive"] }
serde_json = "1"
sha1 = "0.10"
sha2 = "0.10"
sqlx = { version = "0.8", default-features = false, features = ["runtime-tokio", "postgres", "uuid", "macros", "migrate"] }
subtle = "2"
tokio = { version = "1", features = ["full"] }
tower-http = { version = "0.6", features = ["request-id", "trace"] }
tracing = "0.1"
tracing-subscriber = { version = "0.3", features = ["env-filter", "json"] }
utoipa = { version = "5", features = ["axum_extras", "uuid"] }
uuid = { version = "1", features = ["v4", "v7", "serde"] }
