//! The service's routes: which handler answers a request, and the response
//! it gets.
use vstd::prelude::*;

use crate::payload::{member_of, members_of, SMALL_BODY_LIMIT};
use crate::status::Status;
use crate::store::{is_object_id, Database, DatabaseView};
use crate::teams::create::{create, creation};
use crate::teams::invite::{invitation, invitation_of, invite, JoinPayload};
use crate::teams::team::{lookup_team_id, team_lookup_found, Team, TeamView};
use crate::text::{chars_of, owned, push_char, same_text};
use crate::user::login::{
    login, login_accepts, login_body, refresh_accepts, refresh_body, refresh_token, Token,
};
use crate::user::register::{exist, register, registered};
use crate::user::token::{
    claims_user, decode_token, is_refresh_token, jwt_hs256, jwt_hs256_claims, token_expiry,
    token_secret, user_result,
};
use crate::user::{username_for_token, User, UserView};

verus! {

/// The request methods the service routes on.
#[derive(Clone, Copy, Debug, PartialEq, Eq, Structural)]
pub enum Method {
    Get,
    Post,
}

/// A response: its status and its body.
pub struct Response {
    pub status: Status,
    pub body: String,
}

/// The mounted routes.
#[derive(Clone, Copy, Debug, PartialEq, Eq, Structural)]
pub enum Route {
    Root,
    Login,
    Register,
    RefreshToken,
    Exist,
    CreateTeam,
    Invite,
    Unknown,
}

pub open spec fn welcome() -> Seq<char> {
    "Welcome to GeoWorker API (tips: you shouldn't be here)"@
}

/// How many characters the prefix `/user/exist/` has.
pub const EXIST_PREFIX_LENGTH: usize = 12;

/// Whether a path is `/user/exist/` followed by one non-empty segment.
pub open spec fn is_exist_path(path: Seq<char>) -> bool {
    &&& path.len() > EXIST_PREFIX_LENGTH
    &&& path.take(EXIST_PREFIX_LENGTH as int) == "/user/exist/"@
    &&& forall|i: int| EXIST_PREFIX_LENGTH <= i < path.len() ==> #[trigger] path[i] != '/'
}

/// The username segment of an exist path.
pub open spec fn exist_name(path: Seq<char>) -> Seq<char> {
    path.skip(EXIST_PREFIX_LENGTH as int)
}

/// The route a method and path select.
pub open spec fn route_of(method: Method, path: Seq<char>) -> Route {
    if method == Method::Get && path == "/"@ {
        Route::Root
    } else if method == Method::Post && path == "/user/login"@ {
        Route::Login
    } else if method == Method::Post && path == "/user/register"@ {
        Route::Register
    } else if method == Method::Post && path == "/user/refresh_token"@ {
        Route::RefreshToken
    } else if method == Method::Get && is_exist_path(path) {
        Route::Exist
    } else if method == Method::Post && path == "/team/create"@ {
        Route::CreateTeam
    } else if method == Method::Post && path == "/team/invite"@ {
        Route::Invite
    } else {
        Route::Unknown
    }
}

/// The greeting answered at the root.
pub fn api_root() -> (r: &'static str)
    ensures
        r@ == welcome(),
{
    "Welcome to GeoWorker API (tips: you shouldn't be here)"
}

/// Reads the username segment of a path when it is an exist path.
pub fn exist_path_name(path: &str) -> (r: Option<String>)
    ensures
        r is Some <==> is_exist_path(path@),
        r matches Some(name) ==> name@ == exist_name(path@),
{
    let cs = chars_of(path);
    if cs.len() <= EXIST_PREFIX_LENGTH {
        return None;
    }
    let mut prefix = String::new();
    for i in 0..EXIST_PREFIX_LENGTH
        invariant
            cs@ == path@,
            cs@.len() > EXIST_PREFIX_LENGTH,
            prefix@ == cs@.take(i as int),
    {
        proof {
            assert(cs@.take(i + 1) == cs@.take(i as int).push(cs@[i as int]));
        }
        push_char(&mut prefix, cs[i]);
    }
    if !same_text(prefix.as_str(), "/user/exist/") {
        return None;
    }
    let mut name = String::new();
    let n = cs.len();
    for i in EXIST_PREFIX_LENGTH..n
        invariant
            cs@ == path@,
            n == cs@.len(),
            n > EXIST_PREFIX_LENGTH,
            prefix@ == cs@.take(EXIST_PREFIX_LENGTH as int),
            prefix@ == "/user/exist/"@,
            name@ == cs@.subrange(EXIST_PREFIX_LENGTH as int, i as int),
            forall|k: int| EXIST_PREFIX_LENGTH <= k < i ==> #[trigger] cs@[k] != '/',
    {
        if cs[i] == '/' {
            return None;
        }
        proof {
            assert(cs@.subrange(EXIST_PREFIX_LENGTH as int, i + 1) == cs@.subrange(
                EXIST_PREFIX_LENGTH as int,
                i as int,
            ).push(cs@[i as int]));
        }
        push_char(&mut name, cs[i]);
    }
    proof {
        assert(cs@.subrange(EXIST_PREFIX_LENGTH as int, n as int) == cs@.skip(
            EXIST_PREFIX_LENGTH as int,
        ));
    }
    Some(name)
}

/// Selects the route of a request.
pub fn route(method: Method, path: &str) -> (r: Route)
    ensures
        r == route_of(method, path@),
{
    if method == Method::Get && same_text(path, "/") {
        Route::Root
    } else if method == Method::Post && same_text(path, "/user/login") {
        Route::Login
    } else if method == Method::Post && same_text(path, "/user/register") {
        Route::Register
    } else if method == Method::Post && same_text(path, "/user/refresh_token") {
        Route::RefreshToken
    } else if method == Method::Get && exist_path_name(path).is_some() {
        Route::Exist
    } else if method == Method::Post && same_text(path, "/team/create") {
        Route::CreateTeam
    } else if method == Method::Post && same_text(path, "/team/invite") {
        Route::Invite
    } else {
        Route::Unknown
    }
}

fn empty_response(status: Status) -> (r: Response)
    ensures
        r.status == status,
        r.body@ == Seq::<char>::empty(),
{
    Response { status, body: String::new() }
}

/// The view of an optional header value.
pub open spec fn header_view(header: Option<&str>) -> Option<Seq<char>> {
    match header {
        Some(h) => Some(h@),
        None => None,
    }
}

/// Who a request's `Authorization` header signs in at time `now`: no header
/// is unauthorized, otherwise the header is decoded as an access token.
pub open spec fn signed_in(db: DatabaseView, authorization: Option<Seq<char>>, now: i64) -> Result<
    UserView,
    Status,
> {
    match authorization {
        None => Err(Status::Unauthorized),
        Some(token) => match jwt_hs256_claims(token, token_secret()) {
            None => Err(Status::Unauthorized),
            Some((kid, exp)) => claims_user(db, kid, exp, now),
        },
    }
}

/// Signs a request in from its `Authorization` header.
pub fn authenticate(db: &Database, authorization: Option<&str>) -> (r: Result<User, Status>)
    ensures
        exists|now: i64| user_result(r) == signed_in(db@, header_view(authorization), now),
{
    match authorization {
        None => {
            let r = Err(Status::Unauthorized);
            proof {
                assert(user_result(r) == signed_in(db@, header_view(authorization), 0));
            }
            r
        },
        Some(token) => {
            let r = decode_token(db, owned(token));
            proof {
                match jwt_hs256_claims(token@, token_secret()) {
                    None => {
                        assert(user_result(r) == signed_in(db@, header_view(authorization), 0));
                    },
                    Some((kid, exp)) => {
                        let now = choose|now: i64| user_result(r) == claims_user(db@, kid, exp, now);
                        assert(user_result(r) == signed_in(db@, header_view(authorization), now));
                    },
                }
            }
            r
        },
    }
}

/// The response to `GET /user/exist/<name>` by a signed-in user: `True` or
/// `False`.
pub open spec fn exist_answer(db: DatabaseView, name: Seq<char>) -> Seq<char> {
    if db.has_user(name) {
        "True"@
    } else {
        "False"@
    }
}

/// Answers a request: the handler of its route runs on the body's payload;
/// a payload that cannot be read is answered with the payload's error and
/// changes nothing; an unknown route is `NotFound`. The exist, create and
/// invite routes first sign the request in from its `Authorization`
/// header (at some time `now`); an invitation to a team that cannot be
/// looked up is an internal server error.
pub fn dispatch(
    db: &mut Database,
    method: Method,
    path: &str,
    authorization: Option<&str>,
    body: &[u8],
) -> (r: Response)
    ensures
        match route_of(method, path@) {
            Route::Root => r.status == Status::Success && r.body@ == welcome() && final(db)@
                == old(db)@,
            Route::Register => match members_of(
                body@,
                SMALL_BODY_LIMIT as nat,
                "username"@,
                "password"@,
            ) {
                Err(e) => r.status == e && final(db)@ == old(db)@,
                Ok((u, p)) => {
                    &&& r.status == (if old(db)@.has_user(u) {
                        Status::Conflict
                    } else {
                        Status::Created
                    })
                    &&& final(db)@ == registered(old(db)@, UserView { username: u, password: p })
                },
            },
            Route::Login => match members_of(
                body@,
                SMALL_BODY_LIMIT as nat,
                "username"@,
                "password"@,
            ) {
                Err(e) => r.status == e && final(db)@ == old(db)@,
                Ok((u, p)) => if login_accepts(old(db)@, UserView { username: u, password: p }) {
                    r.status == Status::Success && exists|now: i64, refresh: Seq<char>|
                        {
                            &&& is_refresh_token(refresh)
                            &&& r.body@ == login_body(
                                jwt_hs256(u, token_expiry(now) as int, token_secret()),
                                refresh,
                            )
                            &&& final(db)@ == old(db)@.set_refresh_token_at(
                                old(db)@.user_index(u),
                                refresh,
                            )
                        }
                } else {
                    r.status == Status::BadRequest && final(db)@ == old(db)@
                },
            },
            Route::RefreshToken => match member_of(
                body@,
                SMALL_BODY_LIMIT as nat,
                "refresh_token"@,
            ) {
                Err(e) => r.status == e && final(db)@ == old(db)@,
                Ok(t) => if !refresh_accepts(old(db)@, t) {
                    r.status == Status::BadRequest && final(db)@ == old(db)@
                } else {
                    r.status == Status::Success && exists|now: i64, refresh: Seq<char>|
                        {
                            &&& is_refresh_token(refresh)
                            &&& r.body@ == refresh_body(
                                refresh,
                                jwt_hs256(
                                    username_for_token(old(db)@, t),
                                    token_expiry(now) as int,
                                    token_secret(),
                                ),
                            )
                            &&& final(db)@ == old(db)@.set_refresh_token_at(
                                old(db)@.refresh_token_index(t),
                                refresh,
                            )
                        }
                },
            },
            Route::Exist => final(db)@ == old(db)@ && exists|now: i64|
                #![trigger signed_in(old(db)@, header_view(authorization), now)]
                match signed_in(old(db)@, header_view(authorization), now) {
                    Err(e) => r.status == e && r.body@ == Seq::<char>::empty(),
                    Ok(_) => r.status == Status::Success && r.body@ == exist_answer(
                        old(db)@,
                        exist_name(path@),
                    ),
                },
            Route::CreateTeam => exists|now: i64|
                #![trigger signed_in(old(db)@, header_view(authorization), now)]
                match signed_in(old(db)@, header_view(authorization), now) {
                    Err(e) => r.status == e && final(db)@ == old(db)@,
                    Ok(user) => match members_of(body@, SMALL_BODY_LIMIT as nat, "name"@, "logo"@) {
                        Err(e) => r.status == e && final(db)@ == old(db)@,
                        Ok((n, l)) => exists|id: Seq<char>|
                            is_object_id(id) && (final(db)@, r.status) == creation(
                                old(db)@,
                                id,
                                TeamView { name: n, logo: l },
                                user.username,
                            ),
                    },
                },
            Route::Invite => exists|now: i64|
                #![trigger signed_in(old(db)@, header_view(authorization), now)]
                match signed_in(old(db)@, header_view(authorization), now) {
                    Err(e) => r.status == e && final(db)@ == old(db)@,
                    Ok(user) => match invitation_of(body@) {
                        Err(e) => r.status == e && final(db)@ == old(db)@,
                        Ok((t, v)) => if team_lookup_found(old(db)@, user.username, t) {
                            (final(db)@, r.status) == invitation(old(db)@, user.username, t, v)
                        } else {
                            r.status == Status::InternalServerError && final(db)@ == old(db)@
                        },
                    },
                },
            Route::Unknown => r.status == Status::NotFound && final(db)@ == old(db)@,
        },
{
    match route(method, path) {
        Route::Root => Response { status: Status::Success, body: owned(api_root()) },
        Route::Register => match User::from_data(body) {
            Err(e) => empty_response(e),
            Ok(user) => empty_response(register(db, user)),
        },
        Route::Login => match User::from_data(body) {
            Err(e) => empty_response(e),
            Ok(user) => match login(db, user) {
                Ok(answer) => Response { status: Status::Success, body: answer },
                Err(e) => empty_response(e),
            },
        },
        Route::RefreshToken => match Token::from_data(body) {
            Err(e) => empty_response(e),
            Ok(token) => match refresh_token(db, token) {
                Ok(answer) => Response { status: Status::Success, body: answer },
                Err(e) => empty_response(e),
            },
        },
        Route::Exist => {
            let name = exist_path_name(path).unwrap();
            match authenticate(db, authorization) {
                Err(e) => empty_response(e),
                Ok(user) => Response { status: Status::Success, body: owned(exist(db, name, user)) },
            }
        },
        Route::CreateTeam => match authenticate(db, authorization) {
            Err(e) => empty_response(e),
            Ok(user) => match Team::from_data(body) {
                Err(e) => empty_response(e),
                Ok(team) => empty_response(create(db, team, user)),
            },
        },
        Route::Invite => match authenticate(db, authorization) {
            Err(e) => empty_response(e),
            Ok(user) => match JoinPayload::from_data(body) {
                Err(e) => empty_response(e),
                Ok(payload) => {
                    if lookup_team_id(db, user.username.clone(), payload.team_name.clone()).is_none() {
                        return empty_response(Status::InternalServerError);
                    }
                    empty_response(invite(db, payload, user))
                },
            },
        },
        Route::Unknown => empty_response(Status::NotFound),
    }
}

} // verus!
