//! The per-request pipeline, short-circuiting on the first failure:
//! authenticate, check and record the rate limit, build the message. The
//! transport send itself is the caller's step; its outcome is mapped by
//! `respond::send_outcome_response`. A request that fails authentication is
//! rejected before any rate-limit accounting, so it never counts against its
//! identity's quota; exactly the admitted, well-formed requests yield a
//! message to send.

use vstd::prelude::*;

use crate::auth::{opt_view, validate_api_key, validate_spec, AuthResult};
use crate::errors::EmailError;
use crate::limiter::RateLimit;
use crate::message::{
    build_message, builds_ok, effective_display_from, effective_to, EmailRequest, OutboundMessage,
};
use crate::settings::{AppSettings, EmailSettings};

verus! {

/// The rate-limit identity of a request: the forwarding header's value when
/// one is present, and the sentinel `"unknown"` otherwise.
pub open spec fn identity_of(forwarded_for: Option<&str>) -> Seq<char> {
    match forwarded_for {
        Some(s) => s@,
        None => "unknown"@,
    }
}

/// How one admission pass relates the limiter state before (`pre`) and after
/// (`post`) to its result `r`, for a presented credential, a rate-limit
/// identity, a request, the configured defaults and secret, and the instant
/// `now`:
/// - a missing or invalid credential is rejected with the matching error and
///   the limiter is untouched;
/// - otherwise the limiter takes one check-and-record step for the identity
///   at `now`; when over quota the request is rejected as `RateLimited`;
/// - otherwise the result is the built message with its exact fields, or
///   `AddressFormatError` exactly when an effective address is malformed.
pub open spec fn admit_post(
    pre: RateLimit,
    post: RateLimit,
    presented: Option<Seq<char>>,
    id: Seq<char>,
    req: EmailRequest,
    defaults: EmailSettings,
    secret: Seq<char>,
    now: u64,
    r: Result<OutboundMessage, EmailError>,
) -> bool {
    let auth = validate_spec(presented, secret);
    if auth is MissingCredential {
        post == pre && r == Err::<OutboundMessage, EmailError>(EmailError::MissingCredential)
    } else if auth is InvalidCredential {
        post == pre && r == Err::<OutboundMessage, EmailError>(EmailError::InvalidCredential)
    } else {
        let within = pre.admitted(id, now);
        &&& RateLimit::check_post(pre, post, id, now, within)
        &&& if !within {
            r == Err::<OutboundMessage, EmailError>(EmailError::RateLimited)
        } else {
            match r {
                Ok(m) => builds_ok(req, defaults) && m.from_display@ == effective_display_from(
                    req,
                    defaults,
                ) && m.to@ == effective_to(req, defaults) && m.subject@ == req.subject@ && m.body@
                    == req.body@,
                Err(e) => !builds_ok(req, defaults) && e == EmailError::AddressFormatError,
            }
        }
    }
}

/// Run the admission pipeline for one request at instant `now`:
/// authentication, then the rate-limit check for the request's identity,
/// then message construction. Returns the transport-ready message, or the
/// first failure.
pub fn admit_and_build_at(
    rl: &mut RateLimit,
    api_key: Option<&str>,
    forwarded_for: Option<&str>,
    req: &EmailRequest,
    settings: &AppSettings,
    now: u64,
) -> (r: Result<OutboundMessage, EmailError>)
    requires
        old(rl).wf(),
    ensures
        final(rl).wf(),
        admit_post(
            *old(rl),
            *final(rl),
            opt_view(api_key),
            identity_of(forwarded_for),
            *req,
            settings.email,
            settings.server.api_key@,
            now,
            r,
        ),
{
    match validate_api_key(api_key, settings.server.api_key.as_str()) {
        AuthResult::MissingCredential => {
            return Err(EmailError::MissingCredential);
        },
        AuthResult::InvalidCredential => {
            return Err(EmailError::InvalidCredential);
        },
        AuthResult::Accepted => {},
    }
    let allowed = match forwarded_for {
        Some(ip) => rl.is_allowed_at(ip, now),
        None => rl.is_allowed_at("unknown", now),
    };
    if !allowed {
        return Err(EmailError::RateLimited);
    }
    build_message(req, &settings.email)
}

/// Run the admission pipeline for one request at the present instant, read
/// from the system clock. The clock's value is out of this library's hands,
/// so the contract states the pipeline's effect for some instant.
pub fn admit_and_build(
    rl: &mut RateLimit,
    api_key: Option<&str>,
    forwarded_for: Option<&str>,
    req: &EmailRequest,
    settings: &AppSettings,
) -> (r: Result<OutboundMessage, EmailError>)
    requires
        old(rl).wf(),
    ensures
        final(rl).wf(),
        exists|now: u64|
            admit_post(
                *old(rl),
                *final(rl),
                opt_view(api_key),
                identity_of(forwarded_for),
                *req,
                settings.email,
                settings.server.api_key@,
                now,
                r,
            ),
{
    let now = crate::limiter::now_millis();
    admit_and_build_at(rl, api_key, forwarded_for, req, settings, now)
}

} // verus!
