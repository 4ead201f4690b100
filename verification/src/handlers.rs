//! The decision cores of the request handlers: the login decision, the
//! signup record construction, identifier resolution for the user routes,
//! and the mapping of stored records to their outward identities.

use vstd::prelude::*;
use crate::auth::{MAX_UNIX_SECS, TOKEN_VALIDITY_SECS, TokenService, bcrypt_check,
    encode_password, generate_token_at, issued_decoding, verify_password};
use crate::codec::{all_digits, claims_wf, digits_val, enc_claims, lemma_digits_val_prefix};
use crate::errors::ServiceError;
use crate::models::{InputUser, LoginRequest, NewUser, TokenResponse, User, UserData,
    user_data_of, user_public};

verus! {

/// Decides a login attempt against the stored credential record the login
/// name resolved to. A matching password yields a fresh two-hour token for
/// the record's identity, and is owed one whenever the secret meets the
/// signer's minimum and the claims fit the size cap; a mismatch yields the
/// generic credentials rejection; a malformed stored hash or a signing
/// fault is a server error.
pub fn login(service: &TokenService, user: User, request: &LoginRequest, now: u64) -> (r: Result<
    TokenResponse,
    ServiceError,
>)
    requires
        now + TOKEN_VALIDITY_SECS < MAX_UNIX_SECS,
    ensures
        r matches Ok(t) ==> bcrypt_check(request.password@, user.password@) == Some(true)
            && issued_decoding(service.secret(), t.token@, user_data_of(user@), now)
            && claims_wf(user_data_of(user@)),
        bcrypt_check(request.password@, user.password@) == Some(false) ==> (r matches Err(e)
            && e matches ServiceError::Forbidden(m) && m@ == "Invalid credentials"@),
        bcrypt_check(request.password@, user.password@) is None ==> (r matches Err(e)
            && e is InternalServerError),
        r matches Err(e) ==> !(e is Unauthorized) && !(e is NotFound),
        (bcrypt_check(request.password@, user.password@) == Some(true) && service.secret().len()
            >= 12 && enc_claims(user_data_of(user@)).len() <= 100000) ==> r is Ok,
{
    match verify_password(request.password.as_str(), user.password.as_str()) {
        Ok(true) => match generate_token_at(service, &user, now) {
            Ok(token) => Ok(TokenResponse { token }),
            Err(e) => Err(e),
        },
        Ok(false) => Err(ServiceError::Forbidden(String::from_str("Invalid credentials"))),
        Err(e) => Err(e),
    }
}

/// Decides a login attempt from the lookup result itself. An unknown login
/// name and a wrong password produce the one identical rejection, so a
/// caller cannot tell from the outcome which of the two it was.
pub fn login_attempt(
    service: &TokenService,
    found: Option<User>,
    request: &LoginRequest,
    now: u64,
) -> (r: Result<TokenResponse, ServiceError>)
    requires
        now + TOKEN_VALIDITY_SECS < MAX_UNIX_SECS,
    ensures
        found is None ==> (r matches Err(e) && e matches ServiceError::Forbidden(m) && m@
            == "Invalid credentials"@),
        (found matches Some(user) && bcrypt_check(request.password@, user.password@) == Some(
            false,
        )) ==> (r matches Err(e) && e matches ServiceError::Forbidden(m) && m@
            == "Invalid credentials"@),
        r matches Ok(t) ==> (found matches Some(user) && bcrypt_check(
            request.password@,
            user.password@,
        ) == Some(true) && issued_decoding(service.secret(), t.token@, user_data_of(user@), now)
            && claims_wf(user_data_of(user@))),
        (found matches Some(user) && bcrypt_check(request.password@, user.password@) is None)
            ==> (r matches Err(e) && e is InternalServerError),
        r matches Err(e) ==> !(e is Unauthorized) && !(e is NotFound),
        (found matches Some(user) && bcrypt_check(request.password@, user.password@) == Some(
            true,
        ) && service.secret().len() >= 12 && enc_claims(user_data_of(user@)).len() <= 100000)
            ==> r is Ok,
{
    match found {
        None => Err(ServiceError::Forbidden(String::from_str("Invalid credentials"))),
        Some(user) => login(service, user, request, now),
    }
}

/// Builds the record a signup inserts: the signup data with the password
/// replaced by its salted hash and the creation time attached. The stored
/// hash verifies against exactly the signup password.
pub fn add_single_user(item: &InputUser, created_at: i64) -> (r: Result<NewUser, ServiceError>)
    ensures
        r matches Ok(nu) ==> nu.first_name@ == item.first_name@ && nu.last_name@
            == item.last_name@ && nu.email@ == item.email@ && nu.created_at == created_at
            && bcrypt_check(item.password@, nu.pwd@) == Some(true),
        r matches Err(e) ==> e is InternalServerError,
{
    let pwd = match encode_password(item.password.as_str()) {
        Ok(h) => h,
        Err(e) => {
            return Err(e);
        },
    };
    Ok(
        NewUser {
            first_name: item.first_name.clone(),
            last_name: item.last_name.clone(),
            email: item.email.clone(),
            pwd,
            created_at,
        },
    )
}

/// Maps stored records to their outward identities, in order, for the
/// user-listing route; no password hash survives the mapping.
pub fn get_all_users(items: &Vec<User>) -> (r: Vec<UserData>)
    ensures
        r.len() == items.len(),
        forall|i: int| 0 <= i < items.len() ==> (#[trigger] r@[i])@ == user_data_of(items@[i]@),
{
    let mut out: Vec<UserData> = Vec::new();
    let mut i: usize = 0;
    while i < items.len()
        invariant
            0 <= i <= items.len(),
            out.len() == i,
            forall|j: int| 0 <= j < i ==> (#[trigger] out@[j])@ == user_data_of(items@[j]@),
        decreases items.len() - i,
    {
        out.push(user_public(&items[i]));
        i = i + 1;
    }
    out
}

/// The integer a decimal string with an optional sign stands for, if any.
pub open spec fn int_of_decimal(s: Seq<char>) -> Option<int> {
    if s.len() > 0 && (s[0] == '-' || s[0] == '+') {
        if s.len() > 1 && all_digits(s.skip(1)) {
            if s[0] == '-' {
                Some(-digits_val(s.skip(1)))
            } else {
                Some(digits_val(s.skip(1)))
            }
        } else {
            None
        }
    } else if s.len() > 0 && all_digits(s) {
        Some(digits_val(s))
    } else {
        None
    }
}

/// Parses a signed decimal string into an `i32`, exactly when it stands
/// for a value in range.
#[verifier::loop_isolation(false)]
fn parse_i32(s: &str) -> (r: Option<i32>)
    ensures
        r matches Some(x) ==> int_of_decimal(s@) == Some(x as int),
        (int_of_decimal(s@) is Some && -0x8000_0000 <= int_of_decimal(s@)->Some_0 < 0x8000_0000)
            ==> (r matches Some(x) && x as int == int_of_decimal(s@)->Some_0),
{
    let n = s.unicode_len();
    if n == 0 {
        return None;
    }
    let c0 = s.get_char(0);
    let neg: bool = c0 == '-';
    let signed: bool = c0 == '-' || c0 == '+';
    let off: usize = if signed {
        1
    } else {
        0
    };
    if n == off {
        return None;
    }
    let ghost ds = if signed {
        s@.skip(1)
    } else {
        s@
    };
    proof {
        assert(ds =~= s@.subrange(off as int, n as int));
    }
    let mut acc: u64 = 0;
    let mut i: usize = off;
    while i < n
        invariant
            off <= i <= n,
            n == s@.len(),
            off <= 1,
            ds == s@.subrange(off as int, n as int),
            all_digits(ds.take(i - off)),
            acc as int == digits_val(ds.take(i - off)),
            acc <= 0x8000_0000,
        decreases n - i,
    {
        let c = s.get_char(i);
        proof {
            assert(ds[i - off] == s@[i as int]);
            assert(ds.take(i - off + 1).drop_last() =~= ds.take(i - off));
            assert(ds.take(i - off + 1).last() == ds[i - off]);
        }
        let d: u64 = match c {
            '0' => 0,
            '1' => 1,
            '2' => 2,
            '3' => 3,
            '4' => 4,
            '5' => 5,
            '6' => 6,
            '7' => 7,
            '8' => 8,
            '9' => 9,
            _ => {
                proof {
                    assert(!crate::codec::is_digit(ds[i - off]));
                    assert(!all_digits(ds));
                }
                return None;
            },
        };
        proof {
            assert(crate::codec::is_digit(ds[i - off]) && crate::codec::digit_val(ds[i - off])
                == d as int);
        }
        let next: u64 = acc * 10 + d;
        if next > 0x8000_0000 {
            proof {
                assert(all_digits(ds.take(i - off + 1)));
                assert(digits_val(ds.take(i - off + 1)) == acc as int * 10 + d);
                if all_digits(ds) {
                    lemma_digits_val_prefix(ds, i - off + 1);
                }
            }
            return None;
        }
        acc = next;
        i = i + 1;
    }
    proof {
        assert(ds.take(n - off) =~= ds);
    }
    if neg {
        Some((-(acc as i64)) as i32)
    } else {
        if acc > 0x7FFF_FFFF {
            return None;
        }
        Some(acc as i32)
    }
}

/// What the `{id}` path segment of the user routes resolves to: a number
/// in range names that record, the word `me` names the caller, anything
/// else is rejected.
pub open spec fn resolved_id(raw: Seq<char>, me: int) -> Option<int> {
    match int_of_decimal(raw) {
        Some(v) => if -0x8000_0000 <= v < 0x8000_0000 {
            Some(v)
        } else if raw == "me"@ {
            Some(me)
        } else {
            None
        },
        None => if raw == "me"@ {
            Some(me)
        } else {
            None
        },
    }
}

/// Resolves the `{id}` path segment against the calling identity.
pub fn resolve_user_id(raw: &str, me_id: i32) -> (r: Option<i32>)
    ensures
        r matches Some(x) ==> resolved_id(raw@, me_id as int) == Some(x as int),
        r is None ==> resolved_id(raw@, me_id as int) is None,
{
    match parse_i32(raw) {
        Some(v) => Some(v),
        None => {
            let owned = raw.to_owned();
            let me = String::from_str("me");
            if owned == me {
                Some(me_id)
            } else {
                None
            }
        },
    }
}

/// Whether a delete request may proceed: only the caller's own record,
/// addressed as `me`, may be deleted.
pub fn delete_request_allowed(raw: &str) -> (r: bool)
    ensures
        r == (raw@ == "me"@),
{
    let owned = raw.to_owned();
    let me = String::from_str("me");
    owned == me
}

} // verus!
