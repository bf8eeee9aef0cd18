use geoworker::status::Status;
use geoworker::store::Database;
use geoworker::user::location::{picture, set_country_code, set_time, Picture};
use geoworker::user::register::{add_user_to_db, delete_user, exist, register};
use geoworker::user::token::{
    change_user_refresh_token, create_token, decode_token, generate_first_refresh_token,
    token_expiry_at, token_for, user_for_claims,
};
use geoworker::user::{
    get_user, get_user_extended, get_username_with_token, hash_password, user_exist, User,
};

fn user(name: &str, password: &str) -> User {
    User { username: name.to_string(), password: password.to_string() }
}

#[test]
fn hash_password_is_lowercase_hex_sha256() {
    assert_eq!(
        hash_password("G00DP4SSW0RD".to_string()),
        "063c5a109b71a5c0e4467369e13d4eca67f0644c199116a78c5e202386f88703"
    );
    assert_eq!(
        hash_password(String::new()),
        "e3b0c44298fc1c149afbf4c8996fb92427ae41e4649b934ca495991b7852b855"
    );
}

#[test]
fn register_stores_the_hash_and_defaults() {
    let mut db = Database::new();
    assert_eq!(register(&mut db, user("ann", "G00DP4SSW0RD")), Status::Created);
    let doc = &db.users[0];
    assert_eq!(doc.username, "ann");
    assert_eq!(doc.password, "063c5a109b71a5c0e4467369e13d4eca67f0644c199116a78c5e202386f88703");
    assert_eq!(doc.refresh_token, "");
    assert_eq!(doc.location, "FI");
    assert_eq!(doc.picture, "");
    assert!(doc.teams.is_empty());
    assert_eq!(doc.time, None);
    assert_eq!(doc.country_code, None);
}

#[test]
fn second_registration_conflicts_and_changes_nothing() {
    let mut db = Database::new();
    assert!(add_user_to_db(&mut db, user("ann", "one")));
    assert!(!add_user_to_db(&mut db, user("ann", "two")));
    assert_eq!(register(&mut db, user("ann", "three")), Status::Conflict);
    assert_eq!(db.users.len(), 1);
    assert_eq!(db.users[0].password, hash_password("one".to_string()));
}

#[test]
fn exist_answers_true_or_false() {
    let mut db = Database::new();
    register(&mut db, user("ann", "p"));
    assert_eq!(exist(&db, "ann".to_string(), user("ann", "p")), "True");
    assert_eq!(exist(&db, "bob".to_string(), user("ann", "p")), "False");
    assert!(user_exist(&db, "ann".to_string()));
    assert!(!user_exist(&db, "bob".to_string()));
}

#[test]
fn delete_user_removes_the_first_match_only() {
    let mut db = Database::new();
    register(&mut db, user("ann", "p"));
    register(&mut db, user("bob", "p"));
    delete_user(&mut db, "ann".to_string());
    assert_eq!(db.users.len(), 1);
    assert_eq!(db.users[0].username, "bob");
    delete_user(&mut db, "nobody".to_string());
    assert_eq!(db.users.len(), 1);
}

#[test]
fn get_user_strips_quotes_or_answers_error() {
    let mut db = Database::new();
    register(&mut db, user("a\"n\"n", "p"));
    let found = get_user(&db, "a\"n\"n".to_string());
    assert_eq!(found.username, "ann");
    assert_eq!(found.password, hash_password("p".to_string()));
    let missing = get_user(&db, "bob".to_string());
    assert_eq!(missing.username, "ERROR");
    assert_eq!(missing.password, "ERROR");
}

#[test]
fn username_by_refresh_token() {
    let mut db = Database::new();
    register(&mut db, user("ann", "p"));
    let token = generate_first_refresh_token(&mut db, "ann".to_string());
    assert_eq!(token.len(), 30);
    assert!(token.chars().all(|c| c.is_ascii_alphanumeric()));
    assert_eq!(db.users[0].refresh_token, token);
    assert_eq!(get_username_with_token(&db, token), "ann");
    assert_eq!(get_username_with_token(&db, "nope".to_string()), "Error");
}

#[test]
fn rotating_a_refresh_token() {
    let mut db = Database::new();
    register(&mut db, user("ann", "p"));
    let first = generate_first_refresh_token(&mut db, "ann".to_string());
    let (second, access) = change_user_refresh_token(&mut db, first.clone());
    assert_ne!(first, second);
    assert_eq!(db.users[0].refresh_token, second);
    let decoded = decode_token(&db, access).ok().unwrap();
    assert_eq!(decoded.username, "ann");
}

#[test]
fn rotating_an_unknown_refresh_token_changes_nobody() {
    let mut db = Database::new();
    register(&mut db, user("ann", "p"));
    generate_first_refresh_token(&mut db, "ann".to_string());
    let before = db.users[0].refresh_token.clone();
    let (fresh, _access) = change_user_refresh_token(&mut db, "unknown".to_string());
    assert_eq!(fresh.len(), 30);
    assert_eq!(db.users[0].refresh_token, before);
}

#[test]
fn tokens_are_signed_jwts_that_decode_to_the_user() {
    let mut db = Database::new();
    register(&mut db, user("ann", "p"));
    let token = token_for("ann", 1_000);
    assert_ne!(token, "ann");
    assert_eq!(token.split('.').count(), 3);
    assert_eq!(token, token_for("ann", 1_000));
    assert_ne!(token, token_for("ann", 1_001));
    assert_ne!(token, token_for("bob", 1_000));
    let fresh = create_token("ann".to_string());
    let decoded = decode_token(&db, fresh).ok().unwrap();
    assert_eq!(decoded.username, "ann");
    assert_eq!(decoded.password, hash_password("p".to_string()));
}

#[test]
fn expired_or_forged_tokens_are_unauthorized() {
    let db = Database::new();
    assert_eq!(decode_token(&db, token_for("ann", 1_000)).err(), Some(Status::Unauthorized));
    assert_eq!(decode_token(&db, "a.b.c".to_string()).err(), Some(Status::Unauthorized));
    assert_eq!(decode_token(&db, "garbage".to_string()).err(), Some(Status::Unauthorized));
}

#[test]
fn decoded_token_for_an_unknown_user_reads_error() {
    let db = Database::new();
    let decoded = decode_token(&db, create_token("ghost".to_string())).ok().unwrap();
    assert_eq!(decoded.username, "ERROR");
    assert_eq!(user_for_claims(&db, Some("ghost".to_string()), None, 0).err(), Some(Status::Unauthorized));
    assert_eq!(user_for_claims(&db, Some("ghost".to_string()), Some(5), 6).err(), Some(Status::Unauthorized));
    assert_eq!(user_for_claims(&db, Some("ghost".to_string()), Some(6), 6).ok().unwrap().username, "ERROR");
}

#[test]
fn token_expiry_is_an_hour_later_and_saturates() {
    assert_eq!(token_expiry_at(0), 3600);
    assert_eq!(token_expiry_at(-3600), 0);
    assert_eq!(token_expiry_at(i64::MAX - 3600), i64::MAX);
    assert_eq!(token_expiry_at(i64::MAX - 1), i64::MAX);
}

#[test]
fn profile_settings() {
    let mut db = Database::new();
    register(&mut db, user("ann", "p"));
    assert_eq!(set_time(&mut db, "12:00".to_string(), user("ann", "p")), Status::Success);
    assert_eq!(set_country_code(&mut db, "SE".to_string(), user("ann", "p")), Status::Success);
    let pic = Picture::from_data(br#"{"picture": "data:1"}"#).ok().unwrap();
    assert_eq!(picture(&mut db, pic, user("ann", "p")), Status::Success);
    assert_eq!(db.users[0].time, Some("12:00".to_string()));
    assert_eq!(db.users[0].country_code, Some("SE".to_string()));
    assert_eq!(db.users[0].picture, "data:1");
    assert_eq!(set_time(&mut db, "1".to_string(), user("bob", "p")), Status::Success);
    assert_eq!(db.users.len(), 1);
    let extended = get_user_extended(&db, "ann".to_string());
    assert_eq!(extended.location, "FI");
    assert_eq!(extended.picture, "data:1");
    let unknown = get_user_extended(&db, "bob".to_string());
    assert_eq!(unknown.username, "bob");
    assert_eq!(unknown.location, "");
}

#[test]
fn picture_payload_reads_large_bodies() {
    let big = "x".repeat(20_000);
    let body = format!(r#"{{"picture": "{}"}}"#, big);
    let pic = Picture::from_data(body.as_bytes()).ok().unwrap();
    assert_eq!(pic.picture, big);
    let too_big = "x".repeat(40_000);
    let body = format!(r#"{{"picture": "{}"}}"#, too_big);
    assert_eq!(Picture::from_data(body.as_bytes()).err(), Some(Status::UnprocessableEntity));
}

#[test]
fn credentials_payload_members() {
    let parsed = User::from_data(br#"{"username": "ann", "password": "p", "x": 1}"#).ok().unwrap();
    assert_eq!(parsed.username, "ann");
    assert_eq!(parsed.password, "p");
    let numeric = User::from_data(br#"{"username": 5, "password": true}"#).ok().unwrap();
    assert_eq!(numeric.username, "5");
    assert_eq!(numeric.password, "true");
    assert_eq!(User::from_data(b"[1, 2]").err(), Some(Status::UnprocessableEntity));
    assert_eq!(User::from_data(&[0xff, 0xfe]).err(), Some(Status::InternalServerError));
}

fn signed_with(kid: &str, exp: i64, key: &[u8]) -> String {
    let mut header = jsonwebtoken::Header::default();
    header.kid = Some(kid.to_string());
    let claims = std::collections::BTreeMap::from([("exp", exp)]);
    jsonwebtoken::encode(&header, &claims, &jsonwebtoken::EncodingKey::from_secret(key)).unwrap()
}

#[test]
fn a_token_signed_under_another_key_is_unauthorized() {
    let mut db = Database::new();
    register(&mut db, user("ann", "p"));
    let later = i64::MAX;
    let forged = signed_with("ann", later, b"some_other_key");
    assert_eq!(decode_token(&db, forged).err(), Some(Status::Unauthorized));
    let genuine = signed_with("ann", later, b"secret_salty_encoded_string");
    assert_eq!(decode_token(&db, genuine).ok().unwrap().username, "ann");
}
