//! Logging in and refreshing tokens.
use vstd::prelude::*;

use crate::payload::{member_of, read_member, SMALL_BODY_LIMIT};
use crate::status::Status;
use crate::store::{Database, DatabaseView};
use crate::text::owned;
use crate::user::token::{
    change_user_refresh_token_at, create_token, unix_now, jwt_hs256_claims, generate_first_refresh_token, is_refresh_token,
    jwt_hs256, token_expiry, token_secret,
};
use crate::user::{get_user, hash_password, password_hash, stored_user, user_exist, username_for_token, User, UserView};

verus! {

/// Whether the store accepts these credentials: the account exists and the
/// stored password (quotes removed) is the hash of the given one.
pub open spec fn login_accepts(db: DatabaseView, user: UserView) -> bool {
    db.has_user(user.username) && stored_user(db, user.username).password == password_hash(
        user.password,
    )
}

/// The body answered to a successful login.
pub open spec fn login_body(access_token: Seq<char>, refresh_token: Seq<char>) -> Seq<char> {
    "{'access_token': "@ + access_token + ",'refresh_token': "@ + refresh_token + "}"@
}

/// The body answered to a token refresh: a JSON object with the access
/// token under `token` and the new refresh token under `refresh_token`.
/// Neither token holds a character that JSON would escape.
pub open spec fn refresh_body(refresh_token: Seq<char>, access_token: Seq<char>) -> Seq<char> {
    "{\"token\": \""@ + access_token + "\", \"refresh_token\": \""@ + refresh_token + "\"}"@
}

/// Whether a refresh token is accepted: it is not empty (the token of an
/// account that never logged in) and some account holds it.
pub open spec fn refresh_accepts(db: DatabaseView, token: Seq<char>) -> bool {
    token.len() > 0 && db.refresh_token_index(token) != -1
}

/// Logs a user in: `BadRequest` when the account does not exist or the
/// password does not match (nothing changes then); otherwise a fresh
/// refresh token is stored for the user and both tokens are answered.
pub fn login(db: &mut Database, user: User) -> (r: Result<String, Status>)
    ensures
        !login_accepts(old(db)@, user@) ==> r == Err::<String, Status>(Status::BadRequest)
            && final(db)@ == old(db)@,
        login_accepts(old(db)@, user@) ==> r is Ok && exists|now: i64, refresh: Seq<char>|
            {
                &&& is_refresh_token(refresh)
                &&& r->Ok_0@ == login_body(
                    jwt_hs256(user@.username, token_expiry(now) as int, token_secret()),
                    refresh,
                )
                &&& final(db)@ == old(db)@.set_refresh_token_at(
                    old(db)@.user_index(user@.username),
                    refresh,
                )
            },
{
    if !user_exist(db, user.username.clone()) {
        return Err(Status::BadRequest);
    }
    let hashed_password = hash_password(user.password);
    let user_db = get_user(db, user.username.clone());
    if user_db.password != hashed_password {
        return Err(Status::BadRequest);
    }
    let token = create_token(user.username.clone());
    let refresh_token = generate_first_refresh_token(db, user.username);
    let mut body = owned("{'access_token': ");
    body.append(token.as_str());
    body.append(",'refresh_token': ");
    body.append(refresh_token.as_str());
    body.append("}");
    proof {
        let now = choose|now: i64|
            token@ == jwt_hs256(user@.username, token_expiry(now) as int, token_secret());
        assert(body@ =~= login_body(token@, refresh_token@));
        assert(is_refresh_token(refresh_token@) && body@ == login_body(
            jwt_hs256(user@.username, token_expiry(now) as int, token_secret()),
            refresh_token@,
        ));
    }
    Ok(body)
}

/// A refresh-token payload.
pub struct Token {
    pub token: String,
}

impl Token {
    /// Reads a refresh token from a request body: at most 256 bytes, as JSON
    /// with member `refresh_token`.
    pub fn from_data(body: &[u8]) -> (r: Result<Token, Status>)
        ensures
            match member_of(body@, SMALL_BODY_LIMIT as nat, "refresh_token"@) {
                Ok(t) => r matches Ok(v) && v.token@ == t,
                Err(e) => r == Err::<Token, Status>(e),
            },
    {
        match read_member(body, SMALL_BODY_LIMIT, "refresh_token") {
            Ok(token) => Ok(Token { token }),
            Err(e) => Err(e),
        }
    }
}

/// Exchanges a refresh token at the clock reading `now` for a new refresh
/// token and an access token expiring an hour after `now`; `BadRequest`,
/// with nothing changed, when the token is empty or no user holds it.
pub fn refresh_token_at(db: &mut Database, token: Token, now: i64) -> (r: Result<String, Status>)
    ensures
        !refresh_accepts(old(db)@, token.token@) ==> r == Err::<String, Status>(
            Status::BadRequest,
        ) && final(db)@ == old(db)@,
        refresh_accepts(old(db)@, token.token@) ==> r is Ok && exists|refresh: Seq<char>, access: Seq<char>|
            {
                &&& is_refresh_token(refresh)
                &&& r->Ok_0@ == refresh_body(refresh, access)
                &&& access == jwt_hs256(
                    username_for_token(old(db)@, token.token@),
                    token_expiry(now) as int,
                    token_secret(),
                )
                &&& jwt_hs256_claims(access, token_secret()) == Some(
                    (Some(username_for_token(old(db)@, token.token@)), Some(token_expiry(now))),
                )
                &&& final(db)@ == old(db)@.set_refresh_token_at(
                    old(db)@.refresh_token_index(token.token@),
                    refresh,
                )
            },
{
    if token.token.as_str().is_empty() {
        return Err(Status::BadRequest);
    }
    if db.find_refresh_token(token.token.as_str()).is_none() {
        return Err(Status::BadRequest);
    }
    let (refresh, access) = change_user_refresh_token_at(db, token.token, now);
    let mut body = owned("{\"token\": \"");
    body.append(access.as_str());
    body.append("\", \"refresh_token\": \"");
    body.append(refresh.as_str());
    body.append("\"}");
    proof {
        assert(body@ =~= refresh_body(refresh@, access@));
    }
    Ok(body)
}

/// Exchanges a refresh token for a new refresh token and an access token
/// valid for an hour from now; `BadRequest`, with nothing changed, when the
/// token is empty or no user holds it.
pub fn refresh_token(db: &mut Database, token: Token) -> (r: Result<String, Status>)
    ensures
        !refresh_accepts(old(db)@, token.token@) ==> r == Err::<String, Status>(
            Status::BadRequest,
        ) && final(db)@ == old(db)@,
        refresh_accepts(old(db)@, token.token@) ==> r is Ok && exists|now: i64, refresh: Seq<char>|
            {
                &&& is_refresh_token(refresh)
                &&& r->Ok_0@ == refresh_body(
                    refresh,
                    jwt_hs256(
                        username_for_token(old(db)@, token.token@),
                        token_expiry(now) as int,
                        token_secret(),
                    ),
                )
                &&& jwt_hs256_claims(
                    jwt_hs256(
                        username_for_token(old(db)@, token.token@),
                        token_expiry(now) as int,
                        token_secret(),
                    ),
                    token_secret(),
                ) == Some((Some(username_for_token(old(db)@, token.token@)), Some(token_expiry(now))))
                &&& final(db)@ == old(db)@.set_refresh_token_at(
                    old(db)@.refresh_token_index(token.token@),
                    refresh,
                )
            },
{
    let now = unix_now();
    refresh_token_at(db, token, now)
}

} // verus!
