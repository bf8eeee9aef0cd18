//! Inviting a user into a team.
use vstd::prelude::*;

use crate::payload::{
    body_text, json_member, json_member_text, present, present_member, read_body, SMALL_BODY_LIMIT,
};
use crate::status::Status;
use crate::store::{opt_text, Database, DatabaseView};
use crate::teams::team::{
    add_team_to_user, add_user_to_team, find_team_id, is_admin, key_of,
    lemma_found_team_is_stored, named_team, team_id_for, team_lookup_found,
};
use crate::user::User;

verus! {

/// An invitation payload: the inviter's team and the invited user.
pub struct JoinPayload {
    pub team_name: String,
    pub invited_username: String,
}

/// Decides on the two members of an invitation: text that is not JSON is
/// an unprocessable entity, a missing (or `null`) member a bad request.
pub open spec fn invitation_members(team_name: Option<Seq<char>>, invited: Option<Seq<char>>) -> Result<
    (Seq<char>, Seq<char>),
    Status,
> {
    if team_name is None || invited is None {
        Err(Status::UnprocessableEntity)
    } else {
        match (present(team_name), present(invited)) {
            (Some(t), Some(u)) => Ok((t, u)),
            _ => Err(Status::BadRequest),
        }
    }
}

/// The members of an invitation read from a body.
pub open spec fn invitation_of(body: Seq<u8>) -> Result<(Seq<char>, Seq<char>), Status> {
    match body_text(body, SMALL_BODY_LIMIT as nat) {
        None => Err(Status::InternalServerError),
        Some(t) => invitation_members(
            json_member_text(t, "team_name"@),
            json_member_text(t, "invited_username"@),
        ),
    }
}

impl JoinPayload {
    /// Decides on the members' string forms of an invitation.
    pub fn from_members(team_name: Option<String>, invited_username: Option<String>) -> (r: Result<
        JoinPayload,
        Status,
    >)
        ensures
            match invitation_members(opt_text(team_name), opt_text(invited_username)) {
                Ok((t, u)) => r matches Ok(p) && p.team_name@ == t && p.invited_username@ == u,
                Err(e) => r == Err::<JoinPayload, Status>(e),
            },
    {
        if team_name.is_none() || invited_username.is_none() {
            return Err(Status::UnprocessableEntity);
        }
        match (present_member(team_name), present_member(invited_username)) {
            (Some(team_name), Some(invited_username)) => Ok(JoinPayload { team_name, invited_username }),
            _ => Err(Status::BadRequest),
        }
    }

    /// Reads an invitation from a request body: at most 256 bytes, as JSON
    /// with members `team_name` and `invited_username`; a missing member is a
    /// bad request, text that is not JSON an unprocessable entity.
    pub fn from_data(body: &[u8]) -> (r: Result<JoinPayload, Status>)
        ensures
            match invitation_of(body@) {
                Ok((t, u)) => r matches Ok(p) && p.team_name@ == t && p.invited_username@ == u,
                Err(e) => r == Err::<JoinPayload, Status>(e),
            },
    {
        match read_body(body, SMALL_BODY_LIMIT) {
            Err(e) => Err(e),
            Ok(text) => {
                let team_name = json_member(text.as_str(), "team_name");
                let invited_username = json_member(text.as_str(), "invited_username");
                JoinPayload::from_members(team_name, invited_username)
            },
        }
    }
}

/// The store after `invited` is added to the team with id `team_id`: the id
/// is pushed onto the invited user's team list and the name onto the team's
/// members.
pub open spec fn invited_into(db: DatabaseView, team_id: Seq<char>, invited: Seq<char>) -> DatabaseView {
    let with_team = db.push_user_team_at(db.user_index(invited), team_id);
    with_team.push_member_at(with_team.team_index(key_of(team_id)), invited)
}

/// The outcome of an invitation by `inviter` into their team `team_name`:
/// only the team's administrator may invite.
pub open spec fn invitation(
    db: DatabaseView,
    inviter: Seq<char>,
    team_name: Seq<char>,
    invited: Seq<char>,
) -> (DatabaseView, Status) {
    let id = team_id_for(db, inviter, team_name);
    if named_team(db, id).administrator == inviter {
        (invited_into(db, id, invited), Status::Success)
    } else {
        (db, Status::Forbidden)
    }
}

/// Adds a user to the inviter's team with this name, when the inviter
/// administers it; `Forbidden`, with nothing changed, otherwise.
pub fn invite_user(db: &mut Database, team_name: String, invited_username: String, user: User) -> (r: Status)
    requires
        team_lookup_found(old(db)@, user@.username, team_name@),
    ensures
        (final(db)@, r) == invitation(old(db)@, user@.username, team_name@, invited_username@),
{
    let team_id = find_team_id(db, user.username.clone(), team_name);
    proof {
        lemma_found_team_is_stored(db@, user@.username, team_name@);
    }
    if is_admin(db, user.username.clone(), team_id.clone()) {
        add_team_to_user(db, team_id.clone(), invited_username.clone());
        add_user_to_team(db, invited_username, team_id);
        return Status::Success;
    }
    Status::Forbidden
}

/// Handles an invitation payload sent by `user`.
pub fn invite(db: &mut Database, join_payload: JoinPayload, user: User) -> (r: Status)
    requires
        team_lookup_found(old(db)@, user@.username, join_payload.team_name@),
    ensures
        (final(db)@, r) == invitation(
            old(db)@,
            user@.username,
            join_payload.team_name@,
            join_payload.invited_username@,
        ),
{
    invite_user(db, join_payload.team_name, join_payload.invited_username, user)
}

} // verus!
