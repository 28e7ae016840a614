//! What the service answers: the status of each kind of reply.

use vstd::prelude::*;
use vstd::string::StringExecFns;

verus! {

/// The request succeeded.
pub const STATUS_OK: u16 = 200;

/// No such resource.
pub const STATUS_NOT_FOUND: u16 = 404;

/// The request failed inside the service.
pub const STATUS_INTERNAL_SERVER_ERROR: u16 = 500;

/// The service is shutting down.
pub const STATUS_SERVICE_UNAVAILABLE: u16 = 503;

/// The status of a readiness probe: available while the service is live.
pub fn ready_status(app_live: bool) -> (status: u16)
    ensures
        status == (if app_live {
            STATUS_OK
        } else {
            STATUS_SERVICE_UNAVAILABLE
        }),
{
    if app_live {
        STATUS_OK
    } else {
        STATUS_SERVICE_UNAVAILABLE
    }
}

/// The status of a thumbnail reply: a failure to fetch, decode or resize is
/// the service's own.
pub fn thumbnail_status(succeeded: bool) -> (status: u16)
    ensures
        status == (if succeeded {
            STATUS_OK
        } else {
            STATUS_INTERNAL_SERVER_ERROR
        }),
{
    if succeeded {
        STATUS_OK
    } else {
        STATUS_INTERNAL_SERVER_ERROR
    }
}

/// The status of a request to the metrics exporter: only `GET /metrics`
/// exists.
pub fn metrics_status(method: &str, path: &str) -> (status: u16)
    ensures
        status == (if method@ == "GET"@ && path@ == "/metrics"@ {
            STATUS_OK
        } else {
            STATUS_NOT_FOUND
        }),
{
    let is_get = String::from_str(method) == String::from_str("GET");
    let is_metrics = String::from_str(path) == String::from_str("/metrics");
    if is_get && is_metrics {
        STATUS_OK
    } else {
        STATUS_NOT_FOUND
    }
}

} // verus!
