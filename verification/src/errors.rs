//! Classification of platform HTTP errors into the kinds exposed to scripts,
//! and the coupling between failed requests and the abuse ledger.

use vstd::prelude::*;

use crate::abuse::{
    ledger_after_failure, ledger_at_or_before, suspend_condition, DiscordOpsState,
};

verus! {

/// Error kinds surfaced to scripts for a failed platform call. Each response
/// carries the platform's domain `code` and its message text.
#[derive(Clone, Debug, PartialEq, Eq)]
pub enum DiscordError {
    /// 404-class platform errors.
    NotFound { code: u64, message: String },
    /// 403-class platform errors.
    PermissionDenied { code: u64, message: String },
    /// 429 and quota-coded 4xx responses.
    LimitReached { code: u64, message: String },
    /// Other 4xx responses, domain code and message preserved.
    GenericResponse { status: u16, code: u64, message: String },
    /// 5xx responses, suitable for retry at the caller's discretion.
    PlatformUnavailable { status: u16, code: u64, message: String },
    /// Malformed input caught locally, before any platform call.
    InvalidArgument { message: String },
    /// The tenant is suspended; operations fail fast.
    Suspended,
}

/// The classification of a platform response by HTTP status and domain code.
pub open spec fn classify_response(status: u16, code: u64, message: String) -> DiscordError {
    if status == 404 {
        DiscordError::NotFound { code, message }
    } else if status == 403 {
        DiscordError::PermissionDenied { code, message }
    } else if status == 429 || (400 <= status < 500 && 30001 <= code <= 40000) {
        DiscordError::LimitReached { code, message }
    } else if 400 <= status < 500 {
        DiscordError::GenericResponse { status, code, message }
    } else if 500 <= status < 600 {
        DiscordError::PlatformUnavailable { status, code, message }
    } else {
        DiscordError::GenericResponse { status, code, message }
    }
}

/// A response status that counts as an "invalid request" towards the abuse
/// ledger: unauthorized, forbidden, or rate-limited.
pub open spec fn counts_as_bad_request(status: u16) -> bool {
    status == 401 || status == 403 || status == 429
}

/// Map a platform error response to the script-facing error kind.
pub fn error_from_code(status: u16, code: u64, message: String) -> (r: DiscordError)
    ensures
        r == classify_response(status, code, message),
{
    if status == 404 {
        DiscordError::NotFound { code, message }
    } else if status == 403 {
        DiscordError::PermissionDenied { code, message }
    } else if status == 429 || (400 <= status && status < 500 && 30001 <= code && code <= 40000) {
        DiscordError::LimitReached { code, message }
    } else if 400 <= status && status < 500 {
        DiscordError::GenericResponse { status, code, message }
    } else if 500 <= status && status < 600 {
        DiscordError::PlatformUnavailable { status, code, message }
    } else {
        DiscordError::GenericResponse { status, code, message }
    }
}

/// A 404-class error with the given message and no domain code.
pub fn not_found_error(message: String) -> (r: DiscordError)
    ensures
        r == (DiscordError::NotFound { code: 0u64, message }),
{
    DiscordError::NotFound { code: 0, message }
}

/// Handle a failed platform call on behalf of one tenant: classify the
/// response, and record statuses 401, 403 and 429 in the tenant's abuse
/// ledger. Returns the classified error and whether the ledger now demands
/// that the tenant be suspended.
pub fn handle_discord_error(
    ops: &mut DiscordOpsState,
    now_ms: u64,
    status: u16,
    code: u64,
    message: String,
) -> (r: (DiscordError, bool))
    requires
        old(ops).wf(),
        ledger_at_or_before(old(ops)@, now_ms),
    ensures
        r.0 == classify_response(status, code, message),
        counts_as_bad_request(status) ==> {
            &&& final(ops)@ =~= ledger_after_failure(old(ops)@, now_ms)
            &&& r.1 == suspend_condition(final(ops)@, now_ms)
        },
        !counts_as_bad_request(status) ==> final(ops)@ =~= old(ops)@ && !r.1,
        final(ops).wf(),
        ledger_at_or_before(final(ops)@, now_ms),
{
    let mut suspend = false;
    if status == 401 || status == 403 || status == 429 {
        ops.add_failed_req(now_ms);
        suspend = ops.should_suspend_guild(now_ms);
    }
    (error_from_code(status, code, message), suspend)
}

} // verus!
