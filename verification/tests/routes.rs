use geoworker::api::{api_root, dispatch, Method};
use geoworker::status::Status;
use geoworker::store::Database;
use geoworker::user::register::delete_user;

fn seeded() -> Database {
    let mut db = Database::new();
    let response = dispatch(&mut db, Method::Post, "/user/register", None, br#"{ "username": "tester_static", "password": "G00DP4SSW0RD" }"#,
    );
    assert_eq!(response.status, Status::Created);
    db
}

#[test]
fn test_root() {
    let mut db = Database::new();
    let response = dispatch(&mut db, Method::Get, "/", None, b"");
    assert_eq!(response.status, Status::Success);
    assert_eq!(
        Some(response.body),
        Some("Welcome to GeoWorker API (tips: you shouldn't be here)".to_string())
    );
}

#[test]
fn test_login_ok() {
    let mut db = seeded();
    let response = dispatch(&mut db, Method::Post, "/user/login", None, br#"{ "username": "tester_static", "password": "G00DP4SSW0RD" }"#,
    );
    assert_eq!(response.status, Status::Success);
}

#[test]
fn test_register_ok() {
    let mut db = seeded();
    let response = dispatch(&mut db, Method::Post, "/user/register", None, br#"{ "username": "tester", "password": "G00DP4SSW0RD" }"#,
    );
    assert_eq!(response.status, Status::Created);
    delete_user(&mut db, "tester".to_string());
    assert_eq!(db.users.len(), 1);
}

#[test]
fn test_register_user_exist() {
    let mut db = seeded();
    let response = dispatch(&mut db, Method::Post, "/user/register", None, br#"{ "username": "tester_static", "password": "G00DP4SSW0RD" }"#,
    );
    assert_eq!(response.status, Status::Conflict);
}

#[test]
fn test_register_no_username() {
    let mut db = seeded();
    let response = dispatch(&mut db, Method::Post, "/user/register", None, br#"{ "password": "G00DP4SSW0RD" }"#);
    assert_eq!(response.status, Status::UnprocessableEntity);
}

#[test]
fn test_register_no_password() {
    let mut db = seeded();
    let response = dispatch(&mut db, Method::Post, "/user/register", None, br#"{ "username": "tester"}"#);
    assert_eq!(response.status, Status::UnprocessableEntity);
}

#[test]
fn test_register_no_args() {
    let mut db = seeded();
    let response = dispatch(&mut db, Method::Post, "/user/register", None, b"");
    assert_eq!(response.status, Status::UnprocessableEntity);
}

#[test]
fn test_register_invalid_json() {
    let mut db = seeded();
    let response = dispatch(&mut db, Method::Post, "/user/register", None, br#" "userna "teste "password": "G00DP}"#,
    );
    assert_eq!(response.status, Status::UnprocessableEntity);
}

#[test]
fn root_answers_the_greeting() {
    assert_eq!(api_root(), "Welcome to GeoWorker API (tips: you shouldn't be here)");
}

#[test]
fn unknown_routes_are_not_found() {
    let mut db = seeded();
    assert_eq!(dispatch(&mut db, Method::Get, "/user/login", None, b"").status, Status::NotFound);
    assert_eq!(dispatch(&mut db, Method::Post, "/", None, b"").status, Status::NotFound);
    assert_eq!(dispatch(&mut db, Method::Get, "/nowhere", None, b"").status, Status::NotFound);
    assert_eq!(db.users.len(), 1);
}

#[test]
fn login_with_wrong_password_is_a_bad_request() {
    let mut db = seeded();
    let response = dispatch(&mut db, Method::Post, "/user/login", None, br#"{ "username": "tester_static", "password": "wrong" }"#,
    );
    assert_eq!(response.status, Status::BadRequest);
    assert_eq!(db.users[0].refresh_token, "");
}

#[test]
fn login_of_unknown_user_is_a_bad_request() {
    let mut db = seeded();
    let response = dispatch(&mut db, Method::Post, "/user/login", None, br#"{ "username": "nobody", "password": "G00DP4SSW0RD" }"#,
    );
    assert_eq!(response.status, Status::BadRequest);
}

#[test]
fn login_answers_both_tokens_and_stores_the_refresh_token() {
    let mut db = seeded();
    let response = dispatch(&mut db, Method::Post, "/user/login", None, br#"{ "username": "tester_static", "password": "G00DP4SSW0RD" }"#,
    );
    assert_eq!(response.status, Status::Success);
    let refresh = db.users[0].refresh_token.clone();
    assert_eq!(refresh.len(), 30);
    assert!(refresh.chars().all(|c| c.is_ascii_alphanumeric()));
    assert!(response.body.starts_with("{'access_token': "));
    assert!(response.body.ends_with(&format!(",'refresh_token': {}}}", refresh)));
}

#[test]
fn refresh_token_route_rotates_the_token() {
    let mut db = seeded();
    dispatch(&mut db, Method::Post, "/user/login", None, br#"{ "username": "tester_static", "password": "G00DP4SSW0RD" }"#,
    );
    let old = db.users[0].refresh_token.clone();
    let body = format!(r#"{{"refresh_token": "{}"}}"#, old);
    let response = dispatch(&mut db, Method::Post, "/user/refresh_token", None, body.as_bytes());
    assert_eq!(response.status, Status::Success);
    let new = db.users[0].refresh_token.clone();
    assert_ne!(new, old);
    assert!(response.body.starts_with("{\"token\": \""));
    assert!(response.body.ends_with(&format!("\", \"refresh_token\": \"{}\"}}", new)));
}

#[test]
fn refresh_token_route_needs_the_member() {
    let mut db = seeded();
    let response = dispatch(&mut db, Method::Post, "/user/refresh_token", None, br#"{"token": "x"}"#);
    assert_eq!(response.status, Status::UnprocessableEntity);
}

#[test]
fn register_reads_only_the_first_256_bytes() {
    let mut db = Database::new();
    let padding = " ".repeat(300);
    let body = format!(r#"{{ "username": "far", "password": "p"{}}}"#, padding);
    let response = dispatch(&mut db, Method::Post, "/user/register", None, body.as_bytes());
    assert_eq!(response.status, Status::UnprocessableEntity);
    assert_eq!(db.users.len(), 0);
}

#[test]
fn a_prefix_that_cuts_a_character_is_an_internal_error() {
    let mut db = Database::new();
    let mut body = br#"{ "username": ""#.to_vec();
    while body.len() < 255 {
        body.push(b'a');
    }
    body.extend_from_slice("é\", \"password\": \"p\" }".as_bytes());
    let response = dispatch(&mut db, Method::Post, "/user/register", None, &body);
    assert_eq!(response.status, Status::InternalServerError);
}

#[test]
fn a_null_username_is_refused() {
    let mut db = Database::new();
    let response = dispatch(&mut db, Method::Post, "/user/register", None, br#"{ "username": null, "password": "p" }"#,
    );
    assert_eq!(response.status, Status::UnprocessableEntity);
    let response = dispatch(&mut db, Method::Post, "/user/register", None, br#"{ "username": "null", "password": "p" }"#,
    );
    assert_eq!(response.status, Status::UnprocessableEntity);
}

#[test]
fn status_codes() {
    assert_eq!(Status::Success.code(), 200);
    assert_eq!(Status::Created.code(), 201);
    assert_eq!(Status::BadRequest.code(), 400);
    assert_eq!(Status::Unauthorized.code(), 401);
    assert_eq!(Status::Forbidden.code(), 403);
    assert_eq!(Status::NotFound.code(), 404);
    assert_eq!(Status::Conflict.code(), 409);
    assert_eq!(Status::UnprocessableEntity.code(), 422);
    assert_eq!(Status::InternalServerError.code(), 500);
}

#[test]
fn an_unknown_refresh_token_is_a_bad_request() {
    let mut db = seeded();
    let response = dispatch(&mut db, Method::Post, "/user/refresh_token", None, br#"{"refresh_token": "ZPOzpoadZPDoZdpqaozdZDP"}"#,
    );
    assert_eq!(response.status, Status::BadRequest);
    assert_eq!(db.users[0].refresh_token, "");
}

fn login_token(db: &mut Database, name: &str) -> String {
    dispatch(
        db,
        Method::Post,
        "/user/register",
        None,
        format!(r#"{{"username": "{}", "password": "pw"}}"#, name).as_bytes(),
    );
    geoworker::user::token::create_token(name.to_string())
}

#[test]
fn an_empty_refresh_token_opens_nothing() {
    let mut db = seeded();
    assert_eq!(db.users[0].refresh_token, "");
    let response = dispatch(&mut db, Method::Post, "/user/refresh_token", None, br#"{"refresh_token": ""}"#);
    assert_eq!(response.status, Status::BadRequest);
    assert_eq!(response.body, "");
    assert_eq!(db.users[0].refresh_token, "");
}

#[test]
fn a_used_refresh_token_is_refused_the_second_time() {
    let mut db = seeded();
    dispatch(
        &mut db,
        Method::Post,
        "/user/login",
        None,
        br#"{ "username": "tester_static", "password": "G00DP4SSW0RD" }"#,
    );
    let body = format!(r#"{{"refresh_token": "{}"}}"#, db.users[0].refresh_token);
    assert_eq!(dispatch(&mut db, Method::Post, "/user/refresh_token", None, body.as_bytes()).status, Status::Success);
    assert_eq!(dispatch(&mut db, Method::Post, "/user/refresh_token", None, body.as_bytes()).status, Status::BadRequest);
}

#[test]
fn exist_route_needs_a_token() {
    let mut db = seeded();
    let token = login_token(&mut db, "ann");
    let response = dispatch(&mut db, Method::Get, "/user/exist/tester_static", Some(&token), b"");
    assert_eq!(response.status, Status::Success);
    assert_eq!(response.body, "True");
    let response = dispatch(&mut db, Method::Get, "/user/exist/nobody", Some(&token), b"");
    assert_eq!(response.body, "False");
    let response = dispatch(&mut db, Method::Get, "/user/exist/tester_static", None, b"");
    assert_eq!(response.status, Status::Unauthorized);
    let response = dispatch(&mut db, Method::Get, "/user/exist/tester_static", Some("forged.token.x"), b"");
    assert_eq!(response.status, Status::Unauthorized);
    assert_eq!(dispatch(&mut db, Method::Get, "/user/exist/", Some(&token), b"").status, Status::NotFound);
    assert_eq!(dispatch(&mut db, Method::Get, "/user/exist/a/b", Some(&token), b"").status, Status::NotFound);
}

#[test]
fn expired_tokens_do_not_open_routes() {
    let mut db = seeded();
    let old = geoworker::user::token::token_for("tester_static", 1_000);
    let response = dispatch(&mut db, Method::Get, "/user/exist/tester_static", Some(&old), b"");
    assert_eq!(response.status, Status::Unauthorized);
}

#[test]
fn create_and_invite_routes() {
    let mut db = seeded();
    let ann = login_token(&mut db, "ann");
    let bob = login_token(&mut db, "bob");
    let created = dispatch(&mut db, Method::Post, "/team/create", Some(&ann), br#"{"name": "BestTeam", "logo": "Killian"}"#);
    assert_eq!(created.status, Status::Success);
    assert_eq!(db.teams.len(), 1);
    assert_eq!(db.teams[0].administrator, "ann");
    let missing = dispatch(&mut db, Method::Post, "/team/invite", Some(&ann), br#"{"team_name": "BestTeam"}"#);
    assert_eq!(missing.status, Status::BadRequest);
    let malformed = dispatch(&mut db, Method::Post, "/team/invite", Some(&ann), br#"{"team_name": "#);
    assert_eq!(malformed.status, Status::UnprocessableEntity);
    let unknown_team = dispatch(&mut db, Method::Post, "/team/invite", Some(&ann), br#"{"team_name": "Other", "invited_username": "bob"}"#);
    assert_eq!(unknown_team.status, Status::InternalServerError);
    let by_outsider = dispatch(&mut db, Method::Post, "/team/invite", Some(&bob), br#"{"team_name": "BestTeam", "invited_username": "bob"}"#);
    assert_eq!(by_outsider.status, Status::InternalServerError);
    let invited = dispatch(&mut db, Method::Post, "/team/invite", Some(&ann), br#"{"team_name": "BestTeam", "invited_username": "bob"}"#);
    assert_eq!(invited.status, Status::Success);
    assert_eq!(db.teams[0].members, vec!["ann".to_string(), "bob".to_string()]);
    let by_member = dispatch(&mut db, Method::Post, "/team/invite", Some(&bob), br#"{"team_name": "BestTeam", "invited_username": "tester_static"}"#);
    assert_eq!(by_member.status, Status::Forbidden);
    let unsigned = dispatch(&mut db, Method::Post, "/team/create", None, br#"{"name": "x", "logo": "y"}"#);
    assert_eq!(unsigned.status, Status::Unauthorized);
    assert_eq!(db.teams.len(), 1);
}

#[test]
fn any_held_refresh_token_is_exchanged() {
    let mut db = seeded();
    db.users[0].refresh_token = "abc".to_string();
    let response = dispatch(&mut db, Method::Post, "/user/refresh_token", None, br#"{"refresh_token": "abc"}"#);
    assert_eq!(response.status, Status::Success);
    assert_eq!(db.users[0].refresh_token.len(), 30);
    assert!(response.body.contains(&db.users[0].refresh_token));
}
