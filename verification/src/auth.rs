//! Password hashing and signed-token issuance and verification.
//!
//! Passwords go through bcrypt's salted one-way transform; identities go
//! into HMAC-SHA256-signed tokens with an issued-at time and a fixed
//! two-hour validity window. Every call into the outside crates stands
//! behind a trusted wrapper whose contract says what the call returns.

use vstd::prelude::*;
use crate::codec::{claims_wf, dec_claims, enc_claims, encode_claims, decode_claims,
    lemma_claims_round_trip};
use crate::errors::ServiceError;
use crate::models::{User, UserData, UserDataView, user_data_of, user_public};
use jwt_simple::algorithms::{HS256Key, MACLike};
use jwt_simple::claims::{JWTClaims, NoCustomClaims};
use jwt_simple::common::VerificationOptions;
use jwt_simple::prelude::Duration;

verus! {

/// Seconds a token stays valid after issuance.
pub const TOKEN_VALIDITY_SECS: u64 = 7200;

/// Timestamps must stay below this bound for the signing crate's
/// fixed-point time arithmetic to be exact.
pub const MAX_UNIX_SECS: u64 = 0x1_0000_0000;

#[verifier::external_type_specification]
#[verifier::external_body]
pub struct ExBcryptError(bcrypt::BcryptError);

#[verifier::external_type_specification]
#[verifier::external_body]
pub struct ExJwtError(jwt_simple::Error);

/// What bcrypt's verification decides for a password against a stored
/// hash: `Some(b)` when the hash parses and comparison yields `b`, `None`
/// when the stored hash is malformed. A deterministic function of the two
/// strings alone.
pub uninterp spec fn bcrypt_check(pwd: Seq<char>, hashed: Seq<char>) -> Option<bool>;

/// What jwt-simple's verification recovers from a token under a secret,
/// independent of the clock: `None` when the token is structurally
/// invalid or mis-signed; otherwise the subject, issued-at, expiry and
/// not-before claims as the decode reads them, in whole seconds. A
/// deterministic function of secret and token alone.
pub uninterp spec fn token_decoding(secret: Seq<u8>, token: Seq<char>) -> Option<
    (Option<Seq<char>>, Option<u64>, Option<u64>, Option<u64>),
>;

/// The subject a decoded token carries, if any.
pub open spec fn decoded_subject(
    d: Option<(Option<Seq<char>>, Option<u64>, Option<u64>, Option<u64>)>,
) -> Option<Seq<char>> {
    match d {
        Some(p) => p.0,
        None => None,
    }
}

/// The decoded token carries a full set of timestamps and `now` lies in
/// its validity window.
pub open spec fn within_window(
    d: Option<(Option<Seq<char>>, Option<u64>, Option<u64>, Option<u64>)>,
    now: u64,
) -> bool {
    match d {
        Some(p) => match (p.1, p.2, p.3) {
            (Some(iat), Some(exp), Some(nbf)) => {
                &&& iat < MAX_UNIX_SECS
                &&& exp < MAX_UNIX_SECS
                &&& nbf < MAX_UNIX_SECS
                &&& iat <= now
                &&& nbf <= now
                &&& now <= exp
            },
            _ => false,
        },
        None => false,
    }
}

/// The decoded token carries an expiry that lies before `now`.
pub open spec fn expired(
    d: Option<(Option<Seq<char>>, Option<u64>, Option<u64>, Option<u64>)>,
    now: u64,
) -> bool {
    match d {
        Some(p) => match p.2 {
            Some(exp) => exp < MAX_UNIX_SECS && exp < now,
            None => false,
        },
        None => false,
    }
}

/// The verifier's time verdict on a decoded token at `now`: every timing
/// claim the token carries must admit `now` (issued-at and not-before no
/// later than `now`, expiry no earlier); an absent timing claim is not
/// checked. False when the token does not decode at all.
pub open spec fn time_checks_pass(
    d: Option<(Option<Seq<char>>, Option<u64>, Option<u64>, Option<u64>)>,
    now: u64,
) -> bool {
    match d {
        Some(p) => {
            &&& (p.1 matches Some(iat) ==> iat <= now)
            &&& (p.3 matches Some(nbf) ==> nbf <= now)
            &&& (p.2 matches Some(exp) ==> now <= exp)
        },
        None => false,
    }
}

/// The token decodes, under `secret`, to exactly the claims `v` issued at
/// `now` with the fixed validity window.
pub open spec fn issued_decoding(secret: Seq<u8>, t: Seq<char>, v: UserDataView, now: u64) -> bool {
    token_decoding(secret, t) == Some(
        (Some(enc_claims(v)), Some(now), Some((now + TOKEN_VALIDITY_SECS) as u64), Some(now)),
    )
}

/// The identity claims a token stands for under a secret, independent of
/// the clock: its subject read back through the claims codec.
pub open spec fn token_claims_of(secret: Seq<u8>, token: Seq<char>) -> Option<UserDataView> {
    match decoded_subject(token_decoding(secret, token)) {
        Some(s) => dec_claims(s),
        None => None,
    }
}

/// Relies on `bcrypt::hash` with `bcrypt::DEFAULT_COST`: the returned
/// salted hash verifies against exactly the hashed password, and is always
/// the self-describing 60-character version-2b string carrying the fixed
/// cost; it errs only on an internal fault of the salt source.
#[verifier::external_body]
fn bcrypt_hash_call(pwd: &str) -> (r: Result<String, bcrypt::BcryptError>)
    ensures
        r matches Ok(h) ==> bcrypt_check(pwd@, h@) == Some(true) && h@.len() == 60
            && h@.subrange(0, 7) == "$2b$12$"@,
{
    bcrypt::hash(pwd, bcrypt::DEFAULT_COST)
}

/// Relies on `bcrypt::verify`: recomputes the transform with the salt and
/// cost embedded in the stored hash and compares in constant time; a
/// deterministic function of the two strings, erring exactly when the
/// stored hash does not parse.
#[verifier::external_body]
fn bcrypt_verify_call(pwd: &str, hashed: &str) -> (r: Result<bool, bcrypt::BcryptError>)
    ensures
        r matches Ok(b) ==> bcrypt_check(pwd@, hashed@) == Some(b),
        r is Err ==> bcrypt_check(pwd@, hashed@) is None,
{
    bcrypt::verify(pwd, hashed)
}

/// Relies on the `Display` impl of `bcrypt::BcryptError` for a generic
/// diagnostic text; nothing is assumed of the text.
#[verifier::external_body]
fn bcrypt_error_text(e: &bcrypt::BcryptError) -> (r: String) {
    format!("{}", e)
}

/// Relies on the `Display` impl of `jwt_simple::Error` for a generic
/// diagnostic text; nothing is assumed of the text.
#[verifier::external_body]
fn jwt_error_text(e: &jwt_simple::Error) -> (r: String) {
    format!("{}", e)
}

/// Relies on `chrono::Utc::now` for the wall clock; nothing is assumed of
/// the value.
#[verifier::external_body]
fn clock_now_secs() -> (r: i64) {
    chrono::Utc::now().timestamp()
}

/// Relies on `HS256Key::from_bytes` and `MACLike::authenticate` of
/// jwt-simple: HMAC-SHA256 signing of a fixed header and these claims is
/// deterministic in the secret, subject and timestamps, and verification
/// under the same secret recovers exactly what was signed. Signing fails
/// only on a key below the crate's 12-byte minimum: serialization of these
/// claims and the bounded base64 encodings cannot err. The bounds keep the
/// crate's fixed-point time arithmetic and its token-length cap exact.
#[verifier::external_body]
fn jwt_sign_call(secret: &Vec<u8>, subject: &str, iat: u64, exp: u64) -> (r: Result<
    String,
    jwt_simple::Error,
>)
    requires
        iat < MAX_UNIX_SECS,
        exp < MAX_UNIX_SECS,
        subject@.len() <= 100000,
    ensures
        r matches Ok(t) ==> token_decoding(secret@, t@) == Some(
            (Some(subject@), Some(iat), Some(exp), Some(iat)),
        ),
        secret@.len() >= 12 ==> r is Ok,
{
    let claims = JWTClaims {
        issued_at: Some(Duration::from_secs(iat)),
        expires_at: Some(Duration::from_secs(exp)),
        invalid_before: Some(Duration::from_secs(iat)),
        issuer: None,
        subject: Some(subject.to_string()),
        audiences: None,
        jwt_id: None,
        nonce: None,
        custom: NoCustomClaims {},
    };
    HS256Key::from_bytes(secret.as_slice()).authenticate(claims)
}

/// Relies on `HS256Key::from_bytes` and `MACLike::verify_token` of
/// jwt-simple, with the clock pinned to `now` and zero tolerance: the
/// outcome is deterministic in secret, token and `now`; it is a success
/// exactly when the token decodes and every timing claim it carries admits
/// `now`, and the subject handed back is the decoded one. The `now` bound
/// keeps the crate's saturating fixed-point comparisons in step with the
/// plain ones stated here, for timestamps of any size.
#[verifier::external_body]
fn jwt_verify_call(secret: &Vec<u8>, token: &str, now: u64) -> (r: Result<
    Option<String>,
    jwt_simple::Error,
>)
    requires
        now < MAX_UNIX_SECS,
    ensures
        r is Ok <==> time_checks_pass(token_decoding(secret@, token@), now),
        r matches Ok(s) ==> s.deep_view() == decoded_subject(token_decoding(secret@, token@)),
{
    let mut options = VerificationOptions::default();
    options.artificial_time = Some(Duration::from_secs(now));
    options.time_tolerance = Some(Duration::from_secs(0));
    match HS256Key::from_bytes(secret.as_slice()).verify_token::<NoCustomClaims>(
        token,
        Some(options),
    ) {
        Ok(claims) => Ok(claims.subject),
        Err(e) => Err(e),
    }
}

/// Hashes a plaintext password into a salted hash safe to persist: always
/// the self-describing 60-character version-2b form with the fixed work
/// factor, and it verifies against exactly this password; an internal
/// transform fault surfaces as a server error.
pub fn encode_password(pwd: &str) -> (r: Result<String, ServiceError>)
    ensures
        r matches Ok(h) ==> bcrypt_check(pwd@, h@) == Some(true) && h@.len() == 60
            && h@.subrange(0, 7) == "$2b$12$"@,
        r matches Err(e) ==> e is InternalServerError,
{
    match bcrypt_hash_call(pwd) {
        Ok(h) => Ok(h),
        Err(e) => Err(ServiceError::InternalServerError(bcrypt_error_text(&e))),
    }
}

/// Checks a plaintext password against a stored hash: `Ok(true)` on a
/// match, `Ok(false)` on a mismatch, and a server error exactly when the
/// stored hash is malformed.
pub fn verify_password(pwd: &str, hashed: &str) -> (r: Result<bool, ServiceError>)
    ensures
        r matches Ok(b) ==> bcrypt_check(pwd@, hashed@) == Some(b),
        bcrypt_check(pwd@, hashed@) matches Some(b) ==> r matches Ok(rb) && rb == b,
        r matches Err(e) ==> bcrypt_check(pwd@, hashed@) is None && e is InternalServerError,
{
    match bcrypt_verify_call(pwd, hashed) {
        Ok(b) => Ok(b),
        Err(e) => Err(ServiceError::InternalServerError(bcrypt_error_text(&e))),
    }
}

/// Issues and verifies signed bearer tokens under one process-wide
/// symmetric secret, held for the service's lifetime.
pub struct TokenService {
    secret: Vec<u8>,
}

impl TokenService {
    /// The secret the service signs and verifies with.
    pub closed spec fn secret(&self) -> Seq<u8> {
        self.secret@
    }

    /// A service around the given symmetric secret.
    pub fn new(secret: Vec<u8>) -> (r: TokenService)
        ensures
            r.secret() == secret@,
    {
        TokenService { secret }
    }
}

/// Issues a signed token for the identity of `user` as of time `now`:
/// claims are every field but the password hash, the window is two hours.
/// On success the token decodes, under this secret, to exactly those
/// claims and times. With a secret of at least the signer's 12-byte
/// minimum and claims within the size cap, issuance succeeds; a signing
/// fault surfaces as a server error.
pub fn generate_token_at(service: &TokenService, user: &User, now: u64) -> (r: Result<
    String,
    ServiceError,
>)
    requires
        now + TOKEN_VALIDITY_SECS < MAX_UNIX_SECS,
    ensures
        r matches Ok(t) ==> token_decoding(service.secret(), t@) == Some(
            (
                Some(enc_claims(user_data_of(user@))),
                Some(now),
                Some((now + TOKEN_VALIDITY_SECS) as u64),
                Some(now),
            ),
        ) && claims_wf(user_data_of(user@)),
        r matches Err(e) ==> e is InternalServerError,
        (service.secret().len() >= 12 && enc_claims(user_data_of(user@)).len() <= 100000) ==> r
            is Ok,
{
    let data = user_public(user);
    let subject = encode_claims(&data);
    let subject_len = subject.as_str().unicode_len();
    if subject_len > 100000 {
        return Err(
            ServiceError::InternalServerError(String::from_str("identity claims too large to sign")),
        );
    }
    match jwt_sign_call(&service.secret, subject.as_str(), now, now + TOKEN_VALIDITY_SECS) {
        Ok(t) => Ok(t),
        Err(e) => Err(ServiceError::InternalServerError(jwt_error_text(&e))),
    }
}

/// Verifies a token under this service's secret as of time `now` and
/// returns the identity claims it carries. Succeeds exactly when the token
/// decodes under this secret, every timing claim it carries admits `now`,
/// and its subject is a canonical claims form; every failure, whatever its
/// cause, collapses to the one `Unauthorized`.
pub fn validate_token_at(service: &TokenService, auth_token: &str, now: u64) -> (r: Result<
    UserData,
    ServiceError,
>)
    requires
        now < MAX_UNIX_SECS,
    ensures
        r matches Ok(u) ==> token_claims_of(service.secret(), auth_token@) == Some(u@)
            && claims_wf(u@),
        r matches Err(e) ==> e is Unauthorized,
        r is Ok <==> (time_checks_pass(token_decoding(service.secret(), auth_token@), now)
            && token_claims_of(service.secret(), auth_token@) is Some),
{
    match jwt_verify_call(&service.secret, auth_token, now) {
        Ok(Some(subject)) => match decode_claims(subject.as_str()) {
            Some(u) => Ok(u),
            None => Err(ServiceError::Unauthorized),
        },
        Ok(None) => Err(ServiceError::Unauthorized),
        Err(_) => Err(ServiceError::Unauthorized),
    }
}

/// Issues a token for `user` as of the wall clock.
pub fn generate_token(service: &TokenService, user: User) -> (r: Result<String, ServiceError>)
    ensures
        r matches Ok(t) ==> (exists|now: u64|
            now + TOKEN_VALIDITY_SECS < MAX_UNIX_SECS && #[trigger] issued_decoding(
                service.secret(),
                t@,
                user_data_of(user@),
                now,
            )) && claims_wf(user_data_of(user@)),
        r matches Err(e) ==> e is InternalServerError,
{
    let now = clock_now_secs();
    if now < 0 || now as u64 >= MAX_UNIX_SECS - TOKEN_VALIDITY_SECS {
        return Err(ServiceError::InternalServerError(String::from_str("clock out of range")));
    }
    let r = generate_token_at(service, &user, now as u64);
    proof {
        assert(now as u64 + TOKEN_VALIDITY_SECS < MAX_UNIX_SECS);
        if r is Ok {
            assert(issued_decoding(service.secret(), r->Ok_0@, user_data_of(user@), now as u64));
        }
    }
    r
}

/// Verifies a token as of the wall clock. A success names the exact
/// identity the token carries; every failure is `Unauthorized`.
pub fn validate_token(service: &TokenService, auth_token: &str) -> (r: Result<
    UserData,
    ServiceError,
>)
    ensures
        r matches Ok(u) ==> token_claims_of(service.secret(), auth_token@) == Some(u@)
            && claims_wf(u@),
        r matches Err(e) ==> e is Unauthorized,
{
    let now = clock_now_secs();
    if now < 0 || now as u64 >= MAX_UNIX_SECS {
        return Err(ServiceError::Unauthorized);
    }
    validate_token_at(service, auth_token, now as u64)
}

/// Law: a token issued for claims `v` at `iat`, verified under the same
/// secret at any time in its window, stands for exactly `v` again.
pub proof fn lemma_issue_verify_round_trip(
    secret: Seq<u8>,
    t: Seq<char>,
    v: UserDataView,
    iat: u64,
    exp: u64,
    now: u64,
)
    requires
        claims_wf(v),
        token_decoding(secret, t) == Some((Some(enc_claims(v)), Some(iat), Some(exp), Some(iat))),
        iat < MAX_UNIX_SECS,
        exp < MAX_UNIX_SECS,
        iat <= now <= exp,
    ensures
        within_window(token_decoding(secret, t), now),
        token_claims_of(secret, t) == Some(v),
{
    lemma_claims_round_trip(v);
}

} // verus!
