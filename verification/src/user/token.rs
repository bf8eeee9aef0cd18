//! Access tokens (signed JWTs naming the user in their `kid` header) and
//! refresh tokens (random alphanumeric strings stored with the user).
use vstd::prelude::*;
use vstd::utf8::encode_utf8;
use rand::Rng;

use crate::status::Status;
use crate::store::{opt_text, Database, DatabaseView};
use crate::user::{get_user, get_username_with_token, stored_user, username_for_token, User, UserView};

verus! {

#[verifier::external_type_specification]
#[verifier::external_body]
pub struct ExJwtError(jsonwebtoken::errors::Error);

/// How long an access token stays valid, in seconds.
pub const TOKEN_LIFETIME: i64 = 3600;

/// How many characters a refresh token has.
pub const REFRESH_TOKEN_LENGTH: usize = 30;

/// The key access tokens are signed with.
pub open spec fn token_secret() -> Seq<u8> {
    encode_utf8("secret_salty_encoded_string"@)
}

/// The expiry written into a token issued at `now`: an hour later, held at
/// the largest timestamp when that would overflow.
pub open spec fn token_expiry(now: i64) -> i64 {
    if now <= i64::MAX - TOKEN_LIFETIME {
        (now + TOKEN_LIFETIME) as i64
    } else {
        i64::MAX
    }
}

/// The JWT that the default header (HS256, type JWT) with key id `kid`,
/// the claims `{"exp": exp}` and the HMAC key `key` encode to.
pub uninterp spec fn jwt_hs256(kid: Seq<char>, exp: int, key: Seq<u8>) -> Seq<char>;

/// The header key id and the `exp` claim (when it is an `i64`) of a token
/// that `jsonwebtoken::decode` accepts under the HMAC key `key` with the
/// algorithm HS256 and no time validation (signature checked, header and
/// claims well-formed JSON); `None` when it does not accept it.
pub uninterp spec fn jwt_hs256_claims(token: Seq<char>, key: Seq<u8>) -> Option<
    (Option<Seq<char>>, Option<i64>),
>;

/// Trusted: wraps `jsonwebtoken::encode` with a default header whose `kid`
/// is set, claims `{"exp": exp}` and `EncodingKey::from_secret(key)`. The
/// claims are that the result is the function `jwt_hs256` of the three;
/// that HS256 encoding succeeds (the source fails only on a key of another
/// algorithm family or on claims that do not serialise, neither of which can
/// happen here); and that decoding the result under the same key gives back
/// the key id and the expiry (the header and claims are serialised to JSON
/// and signed with that key, and decoding parses the same JSON and checks
/// the same HMAC).
#[verifier::external_body]
fn jwt_encode(kid: &str, exp: i64, key: &[u8]) -> (r: Result<String, jsonwebtoken::errors::Error>)
    ensures
        r is Ok,
        r->Ok_0@ == jwt_hs256(kid@, exp as int, key@),
        jwt_hs256_claims(r->Ok_0@, key@) == Some((Some(kid@), Some(exp))),
{
    let mut header = jsonwebtoken::Header::default();
    header.kid = Some(kid.to_string());
    let claims = std::collections::BTreeMap::from([("exp", exp)]);
    jsonwebtoken::encode(&header, &claims, &jsonwebtoken::EncodingKey::from_secret(key))
}

/// Trusted: wraps `jsonwebtoken::decode` with `DecodingKey::from_secret(key)`
/// and a validation for HS256 that neither checks nor requires `exp` (the
/// expiry is checked by `user_for_claims`), keeping the `kid` of the header
/// and the `exp` claim read as an `i64`. With that validation the source
/// never reads the clock, so the result is the function `jwt_hs256_claims`
/// of the token and the key.
#[verifier::external_body]
fn jwt_decode(token: &str, key: &[u8]) -> (r: Result<
    (Option<String>, Option<i64>),
    jsonwebtoken::errors::Error,
>)
    ensures
        r is Ok <==> jwt_hs256_claims(token@, key@) is Some,
        r matches Ok((kid, exp)) ==> jwt_hs256_claims(token@, key@) == Some((opt_text(kid), exp)),
{
    let mut validation = jsonwebtoken::Validation::new(jsonwebtoken::Algorithm::HS256);
    validation.validate_exp = false;
    validation.required_spec_claims.clear();
    let key = jsonwebtoken::DecodingKey::from_secret(key);
    match jsonwebtoken::decode::<serde_json::Value>(token, &key, &validation) {
        Ok(data) => Ok((data.header.kid, data.claims["exp"].as_i64())),
        Err(e) => Err(e),
    }
}

/// Trusted: wraps `chrono::Utc::now` and `timestamp`, the seconds since the
/// Unix epoch. Nothing is stated of the clock.
#[verifier::external_body]
pub(crate) fn unix_now() -> (r: i64) {
    chrono::Utc::now().timestamp()
}

pub open spec fn is_ascii_alphanumeric(c: char) -> bool {
    ('0' <= c && c <= '9') || ('a' <= c && c <= 'z') || ('A' <= c && c <= 'Z')
}

/// What every refresh token is: 30 ASCII letters and digits.
pub open spec fn is_refresh_token(s: Seq<char>) -> bool {
    s.len() == REFRESH_TOKEN_LENGTH && forall|i: int|
        0 <= i < s.len() ==> is_ascii_alphanumeric(#[trigger] s[i])
}

/// Trusted: wraps sampling `len` characters of `rand::distributions::Alphanumeric`
/// from `rand::thread_rng`. The claim, as that distribution's documentation
/// states, is that each character is an ASCII letter or digit; the string
/// has `len` of them. Which characters come is left unstated (chance), as
/// is the failure of the operating system's random source, on which
/// `thread_rng` panics.
#[verifier::external_body]
fn random_alphanumeric(len: usize) -> (r: String)
    ensures
        r@.len() == len,
        forall|i: int| 0 <= i < len ==> is_ascii_alphanumeric(#[trigger] r@[i]),
{
    rand::thread_rng().sample_iter(&rand::distributions::Alphanumeric).take(len).collect()
}

/// The expiry of a token issued at `now`.
pub fn token_expiry_at(now: i64) -> (r: i64)
    ensures
        r == token_expiry(now),
{
    if now <= i64::MAX - TOKEN_LIFETIME {
        now + TOKEN_LIFETIME
    } else {
        i64::MAX
    }
}

/// The access token issued to `username` at time `now`.
pub fn token_for(username: &str, now: i64) -> (r: String)
    ensures
        r@ == jwt_hs256(username@, token_expiry(now) as int, token_secret()),
        jwt_hs256_claims(r@, token_secret()) == Some((Some(username@), Some(token_expiry(now)))),
{
    let exp = token_expiry_at(now);
    proof {
        reveal_strlit("secret_salty_encoded_string");
    }
    jwt_encode(username, exp, "secret_salty_encoded_string".as_bytes()).unwrap()
}

/// Issues an access token for `username`, valid for an hour from now.
pub fn create_token(username: String) -> (r: String)
    ensures
        exists|now: i64|
            r@ == jwt_hs256(username@, token_expiry(now) as int, token_secret()) && jwt_hs256_claims(
                r@,
                token_secret(),
            ) == Some((Some(username@), Some(token_expiry(now)))),
{
    let now = unix_now();
    token_for(username.as_str(), now)
}

/// The credentials as a view, when there are some.
pub open spec fn user_result(r: Result<User, Status>) -> Result<UserView, Status> {
    match r {
        Ok(u) => Ok(u@),
        Err(e) => Err(e),
    }
}

/// What a decoded token opens at time `now`: unauthorized without an
/// `exp` claim, once `exp` is past, or without a key id; otherwise the
/// stored credentials of the user named by the key id.
pub open spec fn claims_user(db: DatabaseView, kid: Option<Seq<char>>, exp: Option<i64>, now: i64) -> Result<
    UserView,
    Status,
> {
    match exp {
        None => Err(Status::Unauthorized),
        Some(e) => if e < now {
            Err(Status::Unauthorized)
        } else {
            match kid {
                Some(k) => Ok(stored_user(db, k)),
                None => Err(Status::Unauthorized),
            }
        },
    }
}

/// Decides on the claims of a decoded token at time `now`.
pub fn user_for_claims(db: &Database, kid: Option<String>, exp: Option<i64>, now: i64) -> (r: Result<
    User,
    Status,
>)
    requires
        (exp matches Some(e) && e >= now) ==> kid is Some,
    ensures
        user_result(r) == claims_user(db@, opt_text(kid), exp, now),
{
    match exp {
        None => Err(Status::Unauthorized),
        Some(e) => {
            if e < now {
                Err(Status::Unauthorized)
            } else {
                match kid {
                    Some(k) => Ok(get_user(db, k)),
                    None => Err(Status::Unauthorized),
                }
            }
        },
    }
}

/// Decodes an access token and reads the stored credentials of the user it
/// names: unauthorized when the token does not decode under the service's
/// key, has no `exp` claim, has expired by now, or names no user in its
/// header.
pub fn decode_token(db: &Database, token: String) -> (r: Result<User, Status>)
    ensures
        match jwt_hs256_claims(token@, token_secret()) {
            None => r == Err::<User, Status>(Status::Unauthorized),
            Some((kid, exp)) => exists|now: i64| user_result(r) == claims_user(db@, kid, exp, now),
        },
{
    proof {
        reveal_strlit("secret_salty_encoded_string");
    }
    match jwt_decode(token.as_str(), "secret_salty_encoded_string".as_bytes()) {
        Ok((kid, exp)) => {
            let now = unix_now();
            match (&kid, exp) {
                (None, Some(e)) => {
                    if e >= now {
                        proof {
                            assert(claims_user(db@, opt_text(kid), exp, now) == Err::<UserView, Status>(
                                Status::Unauthorized,
                            ));
                        }
                        return Err(Status::Unauthorized);
                    }
                },
                _ => {},
            }
            let r = user_for_claims(db, kid, exp, now);
            proof {
                assert(user_result(r) == claims_user(db@, opt_text(kid), exp, now));
            }
            r
        },
        Err(_) => Err(Status::Unauthorized),
    }
}

/// `update_one({refresh_token: old}, {$set: {refresh_token: new}})`: the
/// first user holding the old token gets the new one.
pub fn replace_refresh_token(db: &mut Database, old_token: &str, new_token: String)
    ensures
        final(db)@ == old(db)@.set_refresh_token_at(old(db)@.refresh_token_index(old_token@), new_token@),
{
    match db.find_refresh_token(old_token) {
        Some(i) => db.set_user_refresh_token(i, new_token),
        None => {},
    }
}

/// `update_one({username: name}, {$set: {refresh_token: token}})`.
pub fn store_refresh_token(db: &mut Database, username: &str, token: String)
    ensures
        final(db)@ == old(db)@.set_refresh_token_at(old(db)@.user_index(username@), token@),
{
    match db.find_user(username) {
        Some(i) => db.set_user_refresh_token(i, token),
        None => {},
    }
}

/// Rotates a refresh token at the clock reading `now`: the first user
/// holding it gets a fresh random one, and an access token expiring an
/// hour after `now` is issued for the name found with the old token
/// (`Error` when none). Returns `(new refresh token, access token)`.
pub fn change_user_refresh_token_at(db: &mut Database, refresh_token: String, now: i64) -> (r: (
    String,
    String,
))
    ensures
        is_refresh_token(r.0@),
        final(db)@ == old(db)@.set_refresh_token_at(
            old(db)@.refresh_token_index(refresh_token@),
            r.0@,
        ),
        r.1@ == jwt_hs256(
            username_for_token(old(db)@, refresh_token@),
            token_expiry(now) as int,
            token_secret(),
        ),
        jwt_hs256_claims(r.1@, token_secret()) == Some(
            (Some(username_for_token(old(db)@, refresh_token@)), Some(token_expiry(now))),
        ),
{
    let username = get_username_with_token(db, refresh_token.clone());
    let token_refreshed = random_alphanumeric(REFRESH_TOKEN_LENGTH);
    replace_refresh_token(db, refresh_token.as_str(), token_refreshed.clone());
    let access_token = token_for(username.as_str(), now);
    (token_refreshed, access_token)
}

/// Rotates a refresh token: the first user holding it gets a fresh random
/// one, and an access token valid for an hour from now is issued for the
/// name found with the old token (`Error` when none). Returns
/// `(new refresh token, access token)`.
pub fn change_user_refresh_token(db: &mut Database, refresh_token: String) -> (r: (String, String))
    ensures
        is_refresh_token(r.0@),
        final(db)@ == old(db)@.set_refresh_token_at(
            old(db)@.refresh_token_index(refresh_token@),
            r.0@,
        ),
        exists|now: i64|
            r.1@ == jwt_hs256(
                username_for_token(old(db)@, refresh_token@),
                token_expiry(now) as int,
                token_secret(),
            ) && jwt_hs256_claims(r.1@, token_secret()) == Some(
                (Some(username_for_token(old(db)@, refresh_token@)), Some(token_expiry(now))),
            ),
{
    let now = unix_now();
    change_user_refresh_token_at(db, refresh_token, now)
}

/// Gives a user a fresh random refresh token and returns it.
pub fn generate_first_refresh_token(db: &mut Database, username: String) -> (r: String)
    ensures
        is_refresh_token(r@),
        final(db)@ == old(db)@.set_refresh_token_at(old(db)@.user_index(username@), r@),
{
    let token_refreshed = random_alphanumeric(REFRESH_TOKEN_LENGTH);
    store_refresh_token(db, username.as_str(), token_refreshed.clone());
    token_refreshed
}

} // verus!
