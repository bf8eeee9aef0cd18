//! Creating and deleting accounts.
use vstd::prelude::*;

use crate::status::Status;
use crate::store::{Database, DatabaseView, UserDocument, UserDocumentView};
use crate::text::owned;
use crate::user::{hash_password, password_hash, user_exist, User, UserView};

verus! {

/// The document stored for a new account.
pub open spec fn new_user_document(username: Seq<char>, password: Seq<char>) -> UserDocumentView {
    UserDocumentView {
        username,
        password: password_hash(password),
        refresh_token: Seq::empty(),
        location: "FI"@,
        picture: Seq::empty(),
        teams: Seq::empty(),
        time: None,
        country_code: None,
    }
}

/// The store after a registration attempt: unchanged when the username is
/// taken, otherwise with the new account appended.
pub open spec fn registered(db: DatabaseView, user: UserView) -> DatabaseView {
    if db.has_user(user.username) {
        db
    } else {
        DatabaseView {
            users: db.users.push(new_user_document(user.username, user.password)),
            ..db
        }
    }
}

/// Deletes the first account with this username (`find_one_and_delete`).
pub fn delete_user(db: &mut Database, username: String)
    ensures
        old(db)@.user_index(username@) == -1 ==> final(db)@ == old(db)@,
        old(db)@.user_index(username@) != -1 ==> final(db)@ == (DatabaseView {
            users: old(db)@.users.remove(old(db)@.user_index(username@)),
            ..old(db)@
        }),
{
    match db.find_user(username.as_str()) {
        Some(i) => db.delete_user_at(i),
        None => {},
    }
}

/// Stores a new account unless the username is taken; returns whether it
/// was stored.
pub fn add_user_to_db(db: &mut Database, user: User) -> (r: bool)
    ensures
        r == !old(db)@.has_user(user@.username),
        final(db)@ == registered(old(db)@, user@),
{
    if user_exist(db, user.username.clone()) {
        return false;
    }
    let hashed = hash_password(user.password);
    let doc = UserDocument {
        username: user.username,
        password: hashed,
        refresh_token: String::new(),
        location: owned("FI"),
        picture: String::new(),
        teams: Vec::new(),
        time: None,
        country_code: None,
    };
    proof {
        assert(doc@.teams =~= Seq::<Seq<char>>::empty());
    }
    db.insert_user(doc);
    true
}

/// Registers an account: `Created`, or `Conflict` when the username is taken.
pub fn register(db: &mut Database, user: User) -> (r: Status)
    ensures
        r == (if old(db)@.has_user(user@.username) {
            Status::Conflict
        } else {
            Status::Created
        }),
        final(db)@ == registered(old(db)@, user@),
{
    if !add_user_to_db(db, user) {
        return Status::Conflict;
    }
    Status::Created
}

/// Answers whether an account with this username exists, as `True` or `False`.
pub fn exist(db: &Database, username: String, user: User) -> (r: &'static str)
    ensures
        r@ == (if db@.has_user(username@) {
            "True"@
        } else {
            "False"@
        }),
{
    if user_exist(db, username) {
        "True"
    } else {
        "False"
    }
}

} // verus!
