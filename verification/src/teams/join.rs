//! Joining a team: the same rule as an invitation, under its own route.
use vstd::prelude::*;

use crate::payload::{members_of, read_members, SMALL_BODY_LIMIT};
use crate::status::Status;
use crate::store::Database;
use crate::teams::invite::{invitation, invite_user};
use crate::teams::team::team_lookup_found;
use crate::user::User;

verus! {

/// A join payload: the sender's team and the user to add.
pub struct JoinPayload {
    pub team_name: String,
    pub invited_username: String,
}

impl JoinPayload {
    /// Reads a join payload from a request body: at most 256 bytes, as JSON
    /// with members `team_name` and `invited_username`.
    pub fn from_data(body: &[u8]) -> (r: Result<JoinPayload, Status>)
        ensures
            match members_of(body@, SMALL_BODY_LIMIT as nat, "team_name"@, "invited_username"@) {
                Ok((t, u)) => r matches Ok(p) && p.team_name@ == t && p.invited_username@ == u,
                Err(e) => r == Err::<JoinPayload, Status>(e),
            },
    {
        match read_members(body, SMALL_BODY_LIMIT, "team_name", "invited_username") {
            Ok((team_name, invited_username)) => Ok(JoinPayload { team_name, invited_username }),
            Err(e) => Err(e),
        }
    }
}

/// Adds a user to the sender's team with this name, when the sender
/// administers it; `Forbidden`, with nothing changed, otherwise.
pub fn join(db: &mut Database, join_payload: JoinPayload, user: User) -> (r: Status)
    requires
        team_lookup_found(old(db)@, user@.username, join_payload.team_name@),
    ensures
        (final(db)@, r) == invitation(
            old(db)@,
            user@.username,
            join_payload.team_name@,
            join_payload.invited_username@,
        ),
{
    invite_user(db, join_payload.team_name, join_payload.invited_username, user)
}

} // verus!
