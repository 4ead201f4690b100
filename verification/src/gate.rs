//! The request-authentication gate: extracts the bearer credential from an
//! inbound request's authorization header, has the token service verify it,
//! and either admits the request (attaching the decoded identity to its
//! context) or rejects it uniformly.

use vstd::prelude::*;
use crate::auth::{MAX_UNIX_SECS, TokenService, expired, token_claims_of, token_decoding,
    validate_token_at, within_window};
use crate::errors::ServiceError;
use crate::models::{UserData, UserDataView};

verus! {

/// The bearer credential an authorization header value carries, if any:
/// what follows the exact `Bearer ` scheme prefix.
pub open spec fn bearer_of(h: Option<Seq<char>>) -> Option<Seq<char>> {
    match h {
        Some(s) => if s.len() >= 7 && s.subrange(0, 7) == "Bearer "@ {
            Some(s.subrange(7, s.len() as int))
        } else {
            None
        },
        None => None,
    }
}

/// Pulls the bearer token out of an authorization header, if one was sent
/// and is well-formed.
pub fn extract_bearer(header: Option<&str>) -> (r: Option<String>)
    ensures
        r matches Some(t) ==> bearer_of(header.deep_view()) == Some(t@),
        r is None ==> bearer_of(header.deep_view()) is None,
{
    match header {
        None => None,
        Some(h) => {
            let n = h.unicode_len();
            if n < 7 {
                return None;
            }
            let prefix = h.substring_char(0, 7).to_owned();
            let scheme = String::from_str("Bearer ");
            if prefix == scheme {
                Some(h.substring_char(7, n).to_owned())
            } else {
                None
            }
        },
    }
}

/// The per-request context in which downstream handlers find the caller's
/// identity after an admitted request.
pub struct RequestContext {
    identity: Option<UserData>,
}

impl RequestContext {
    /// The identity attached so far, if any.
    pub closed spec fn spec_identity(&self) -> Option<UserDataView> {
        match self.identity {
            Some(u) => Some(u@),
            None => None,
        }
    }

    /// A fresh context with no identity attached.
    pub fn new() -> (r: RequestContext)
        ensures
            r.spec_identity() is None,
    {
        RequestContext { identity: None }
    }

    /// Attaches the caller's identity to a context that has none yet.
    pub fn attach_identity(&mut self, u: UserData)
        requires
            old(self).spec_identity() is None,
        ensures
            final(self).spec_identity() == Some(u@),
    {
        self.identity = Some(u);
    }
}

impl UserData {
    /// Reads the caller's identity back out of the request context, as
    /// downstream handlers do.
    pub fn from_context(ctx: &RequestContext) -> (r: Option<UserData>)
        ensures
            r matches Some(u) ==> ctx.spec_identity() == Some(u@),
            r is None ==> ctx.spec_identity() is None,
    {
        match &ctx.identity {
            Some(u) => Some(
                UserData {
                    id: u.id,
                    first_name: u.first_name.clone(),
                    last_name: u.last_name.clone(),
                    email: u.email.clone(),
                    created_at: u.created_at,
                },
            ),
            None => None,
        }
    }
}

/// Decides one protected request as of time `now`: with no or a malformed
/// authorization header the request is rejected at once, without
/// consulting the token service; otherwise the token decides. On admission
/// the decoded identity is attached to the context; every rejection is the
/// one uniform `Unauthorized`.
pub fn validator(
    service: &TokenService,
    auth_header: Option<&str>,
    now: u64,
    ctx: &mut RequestContext,
) -> (r: Result<(), ServiceError>)
    requires
        now < MAX_UNIX_SECS,
        old(ctx).spec_identity() is None,
    ensures
        auth_header is None ==> (r matches Err(e) && e is Unauthorized),
        bearer_of(auth_header.deep_view()) is None ==> (r matches Err(e) && e is Unauthorized),
        r matches Err(e) ==> e is Unauthorized && final(ctx).spec_identity() is None,
        r is Ok ==> (bearer_of(auth_header.deep_view()) matches Some(tok)
            && final(ctx).spec_identity() is Some && token_claims_of(service.secret(), tok)
            == final(ctx).spec_identity()),
        (bearer_of(auth_header.deep_view()) matches Some(tok) && within_window(
            token_decoding(service.secret(), tok),
            now,
        ) && token_claims_of(service.secret(), tok) is Some) ==> r is Ok,
        (bearer_of(auth_header.deep_view()) matches Some(tok) && expired(
            token_decoding(service.secret(), tok),
            now,
        )) ==> (r matches Err(e) && e is Unauthorized),
{
    match extract_bearer(auth_header) {
        None => Err(ServiceError::Unauthorized),
        Some(tok) => match validate_token_at(service, tok.as_str(), now) {
            Ok(claims) => {
                ctx.attach_identity(claims);
                Ok(())
            },
            Err(_) => Err(ServiceError::Unauthorized),
        },
    }
}

} // verus!
