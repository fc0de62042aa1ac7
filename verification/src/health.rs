//! The health endpoints' answer.
use vstd::prelude::*;

verus! {

/// The version of this package.
pub const PACKAGE_VERSION: &'static str = "0.1.0";

/// What the health endpoints answer.
pub struct HealthResponse {
    pub status: String,
    pub service: String,
    pub version: String,
}

/// The service is up: its name and version.
pub fn health_response() -> (r: HealthResponse)
    ensures
        r.status@ == "ok"@,
        r.service@ == "saas-api"@,
        r.version@ == PACKAGE_VERSION@,
{
    HealthResponse {
        status: "ok".to_owned(),
        service: "saas-api".to_owned(),
        version: PACKAGE_VERSION.to_owned(),
    }
}

} // verus!
