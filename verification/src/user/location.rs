//! Profile settings of the signed-in user: time, country code and picture.
use vstd::prelude::*;

use crate::payload::{member_of, read_member, PICTURE_BODY_LIMIT};
use crate::status::Status;
use crate::store::Database;
use crate::user::User;

verus! {

/// Sets the `time` field of the user's account (no change when the account
/// does not exist).
pub fn set_time(db: &mut Database, time: String, user: User) -> (r: Status)
    ensures
        r == Status::Success,
        final(db)@ == old(db)@.set_time_at(old(db)@.user_index(user@.username), time@),
{
    match db.find_user(user.username.as_str()) {
        Some(i) => db.set_user_time(i, time),
        None => {},
    }
    Status::Success
}

/// Sets the `country_code` field of the user's account.
pub fn set_country_code(db: &mut Database, country_code: String, user: User) -> (r: Status)
    ensures
        r == Status::Success,
        final(db)@ == old(db)@.set_country_code_at(
            old(db)@.user_index(user@.username),
            country_code@,
        ),
{
    match db.find_user(user.username.as_str()) {
        Some(i) => db.set_user_country_code(i, country_code),
        None => {},
    }
    Status::Success
}

/// A picture payload.
pub struct Picture {
    pub picture: String,
}

impl Picture {
    /// Reads a picture from a request body: at most 32768 bytes, as JSON with
    /// member `picture`.
    pub fn from_data(body: &[u8]) -> (r: Result<Picture, Status>)
        ensures
            match member_of(body@, PICTURE_BODY_LIMIT as nat, "picture"@) {
                Ok(p) => r matches Ok(v) && v.picture@ == p,
                Err(e) => r == Err::<Picture, Status>(e),
            },
    {
        match read_member(body, PICTURE_BODY_LIMIT, "picture") {
            Ok(picture) => Ok(Picture { picture }),
            Err(e) => Err(e),
        }
    }
}

/// Sets the `picture` field of the user's account.
pub fn picture(db: &mut Database, new_picture: Picture, user: User) -> (r: Status)
    ensures
        r == Status::Success,
        final(db)@ == old(db)@.set_picture_at(
            old(db)@.user_index(user@.username),
            new_picture.picture@,
        ),
{
    match db.find_user(user.username.as_str()) {
        Some(i) => db.set_user_picture(i, new_picture.picture),
        None => {},
    }
    Status::Success
}

} // verus!
