//! What the sidecar's HTTP handlers decide, on values the transport has
//! already read.

use vstd::prelude::*;
use vstd::string::StringExecFns;
use crate::membership::MembershipChange;
use crate::state::StatePayload;

verus! {

/// HTTP `200 OK`.
pub const STATUS_OK: u16 = 200;

/// HTTP `500 Internal Server Error`.
pub const STATUS_INTERNAL_SERVER_ERROR: u16 = 500;

/// The route at which every sidecar of a cluster exposes its state payload.
pub const SIDECAR_STATE_ROUTE: &'static str = "/state";

/// The URL that polls the state of the sidecar listening at `addr`.
pub fn state_url(addr: &str) -> (r: String)
    ensures
        r@ == "http://"@ + addr@ + SIDECAR_STATE_ROUTE@,
{
    let mut url = String::from_str("http://");
    url.append(addr);
    url.append(SIDECAR_STATE_ROUTE);
    url
}

/// The metrics text: the custom registry's exposition followed by the
/// default registry's, or empty when either could not be encoded (`None`).
pub fn metrics(custom: Option<String>, default: Option<String>) -> (r: String)
    ensures
        r@ == match (custom, default) {
            (Some(a), Some(b)) => a@ + b@,
            _ => Seq::<char>::empty(),
        },
{
    match (custom, default) {
        (Some(a), Some(b)) => a.concat(b.as_str()),
        _ => String::new(),
    }
}

/// Healthy iff both the data volume and the backup volume checks pass.
pub fn health(data_volume_ok: bool, backup_volume_ok: bool) -> (r: u16)
    ensures
        r == if data_volume_ok && backup_volume_ok {
            STATUS_OK
        } else {
            STATUS_INTERNAL_SERVER_ERROR
        },
{
    if !data_volume_ok {
        return STATUS_INTERNAL_SERVER_ERROR;
    }
    if !backup_volume_ok {
        return STATUS_INTERNAL_SERVER_ERROR;
    }
    STATUS_OK
}

/// The status of a backup run: success iff the backup succeeded; no detail
/// of the failure is passed on.
pub fn backup<E>(outcome: &Result<(), E>) -> (r: u16)
    ensures
        r == if outcome is Ok {
            STATUS_OK
        } else {
            STATUS_INTERNAL_SERVER_ERROR
        },
{
    if outcome.is_err() {
        return STATUS_INTERNAL_SERVER_ERROR;
    }
    STATUS_OK
}

/// The state route: success, with an independent copy of the current payload.
pub fn state(current: &StatePayload) -> (r: (u16, StatePayload))
    ensures
        r == (STATUS_OK, *current),
{
    (STATUS_OK, *current)
}

/// Proactive membership change: every well-formed request is accepted, and
/// nothing is changed; it borrows no directory, so none can be altered.
pub fn membership(_change: &MembershipChange) -> (r: u16)
    ensures
        r == STATUS_OK,
{
    STATUS_OK
}

} // verus!
