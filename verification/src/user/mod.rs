//! User accounts: the credentials payload, password hashing and lookups in
//! the `users` collection.
use vstd::prelude::*;
use vstd::utf8::encode_utf8;
use sha2::Digest;

use crate::payload::{members_of, read_members, SMALL_BODY_LIMIT};
use crate::status::Status;
use crate::store::{Database, DatabaseView};
use crate::text::{hex_lower, owned, strip_quotes, to_hex_lower, without_quotes};

pub mod location;
pub mod login;
pub mod register;
pub mod token;

verus! {

/// The credentials a client sends: a username and a plain-text password.
pub struct User {
    pub username: String,
    pub password: String,
}

pub struct UserView {
    pub username: Seq<char>,
    pub password: Seq<char>,
}

impl View for User {
    type V = UserView;

    open spec fn view(&self) -> UserView {
        UserView { username: self.username@, password: self.password@ }
    }
}

impl User {
    /// Reads credentials from a request body: at most 256 bytes, as JSON
    /// with members `username` and `password`.
    pub fn from_data(body: &[u8]) -> (r: Result<User, Status>)
        ensures
            match members_of(body@, SMALL_BODY_LIMIT as nat, "username"@, "password"@) {
                Ok((u, p)) => r matches Ok(v) && v@ == (UserView { username: u, password: p }),
                Err(e) => r == Err::<User, Status>(e),
            },
    {
        match read_members(body, SMALL_BODY_LIMIT, "username", "password") {
            Ok((username, password)) => Ok(User { username, password }),
            Err(e) => Err(e),
        }
    }
}

/// The SHA-256 digest of some bytes.
pub uninterp spec fn sha256_digest(data: Seq<u8>) -> Seq<u8>;

/// Trusted: wraps `sha2::Sha256::digest`. The claim is that the result is
/// the function `sha256_digest` of the input bytes, 32 bytes long.
#[verifier::external_body]
fn sha256(data: &[u8]) -> (r: Vec<u8>)
    ensures
        r@ == sha256_digest(data@),
        r@.len() == 32,
{
    sha2::Sha256::digest(data).to_vec()
}

/// What a password is stored as: the lowercase hexadecimal SHA-256 digest
/// of its UTF-8 bytes.
pub open spec fn password_hash(password: Seq<char>) -> Seq<char> {
    hex_lower(sha256_digest(encode_utf8(password)))
}

/// Hashes a password as it is stored.
pub fn hash_password(password: String) -> (r: String)
    ensures
        r@ == password_hash(password@),
{
    let digest = sha256(password.as_str().as_bytes());
    to_hex_lower(digest.as_slice())
}

/// Whether a user with this username exists.
pub fn user_exist(db: &Database, username: String) -> (r: bool)
    ensures
        r == db@.has_user(username@),
{
    db.find_user(username.as_str()).is_some()
}

/// The username of the first user holding this refresh token, with its
/// double quotes removed, or `Error` when no user holds it.
pub open spec fn username_for_token(db: DatabaseView, token: Seq<char>) -> Seq<char> {
    let i = db.refresh_token_index(token);
    if i == -1 {
        "Error"@
    } else {
        without_quotes(db.users[i].username)
    }
}

/// Looks up the username of the user holding a refresh token.
pub fn get_username_with_token(db: &Database, token: String) -> (r: String)
    ensures
        r@ == username_for_token(db@, token@),
{
    match db.find_refresh_token(token.as_str()) {
        Some(i) => strip_quotes(db.users[i].username.as_str()),
        None => owned("Error"),
    }
}

/// The credentials stored for a username (quotes removed from both), or
/// `ERROR`/`ERROR` when there is no such user.
pub open spec fn stored_user(db: DatabaseView, username: Seq<char>) -> UserView {
    let i = db.user_index(username);
    if i == -1 {
        UserView { username: "ERROR"@, password: "ERROR"@ }
    } else {
        UserView {
            username: without_quotes(db.users[i].username),
            password: without_quotes(db.users[i].password),
        }
    }
}

/// Reads the stored credentials of a user.
pub fn get_user(db: &Database, username: String) -> (r: User)
    ensures
        r@ == stored_user(db@, username@),
{
    match db.find_user(username.as_str()) {
        Some(i) => User {
            username: strip_quotes(db.users[i].username.as_str()),
            password: strip_quotes(db.users[i].password.as_str()),
        },
        None => User { username: owned("ERROR"), password: owned("ERROR") },
    }
}

/// The public profile of a user, as listed among a team's members.
pub struct UserExtended {
    pub username: String,
    pub location: String,
    pub picture: String,
}

pub struct UserExtendedView {
    pub username: Seq<char>,
    pub location: Seq<char>,
    pub picture: Seq<char>,
}

impl View for UserExtended {
    type V = UserExtendedView;

    open spec fn view(&self) -> UserExtendedView {
        UserExtendedView {
            username: self.username@,
            location: self.location@,
            picture: self.picture@,
        }
    }
}

/// The profile listed for a member name: the stored location and picture
/// of the first user with that name, empty when there is none.
pub open spec fn extended_user(db: DatabaseView, username: Seq<char>) -> UserExtendedView {
    let i = db.user_index(username);
    if i == -1 {
        UserExtendedView { username, location: Seq::empty(), picture: Seq::empty() }
    } else {
        UserExtendedView {
            username,
            location: db.users[i].location,
            picture: db.users[i].picture,
        }
    }
}

/// Reads the public profile listed for a member name.
pub fn get_user_extended(db: &Database, username: String) -> (r: UserExtended)
    ensures
        r@ == extended_user(db@, username@),
{
    match db.find_user(username.as_str()) {
        Some(i) => UserExtended {
            username,
            location: db.users[i].location.clone(),
            picture: db.users[i].picture.clone(),
        },
        None => UserExtended { username, location: String::new(), picture: String::new() },
    }
}

} // verus!
