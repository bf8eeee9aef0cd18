//! Creating a team.
use vstd::prelude::*;

use crate::status::Status;
use crate::store::{is_object_id, new_object_id, Database, DatabaseView};
use crate::teams::team::{
    add_team_to_user, add_team_under, add_team_with_id, with_new_team, Team, TeamView,
};
use crate::user::User;

verus! {

/// The store after `admin` creates a team under `id`: the team is appended
/// (administered by and listing `admin`) and its id is pushed onto the
/// admin's team list.
pub open spec fn created(db: DatabaseView, id: Seq<char>, team: TeamView, admin: Seq<char>) -> DatabaseView {
    let with_team = with_new_team(db, id, team, admin);
    with_team.push_user_team_at(with_team.user_index(admin), id)
}

/// Creates a team under a given, unused id.
pub fn create_with_id(db: &mut Database, team: Team, user: User, id: String) -> (r: Status)
    requires
        is_object_id(id@),
        !old(db)@.has_team(id@),
    ensures
        r == Status::Success,
        final(db)@ == created(old(db)@, id@, team@, user@.username),
{
    add_team_with_id(db, &team, &user, id.clone());
    add_team_to_user(db, id, user.username);
    Status::Success
}

/// The outcome of creating a team under the generated id `id`:
/// `InternalServerError`, with nothing stored, when the id is taken.
pub open spec fn creation(db: DatabaseView, id: Seq<char>, team: TeamView, admin: Seq<char>) -> (
    DatabaseView,
    Status,
) {
    if db.has_team(id) {
        (db, Status::InternalServerError)
    } else {
        (created(db, id, team, admin), Status::Success)
    }
}

/// Creates a team administered by the user under the object id `id`.
/// Answers `InternalServerError`, with nothing stored, when a team already
/// has that id.
pub fn create_under(db: &mut Database, team: Team, user: User, id: String) -> (r: Status)
    requires
        is_object_id(id@),
    ensures
        (final(db)@, r) == creation(old(db)@, id@, team@, user@.username),
{
    match add_team_under(db, &team, &user, id) {
        Some(team_id) => {
            add_team_to_user(db, team_id, user.username);
            Status::Success
        },
        None => Status::InternalServerError,
    }
}

/// Creates a team administered by the user under a freshly generated
/// object id. Answers `InternalServerError`, with nothing stored, when that
/// id is already taken.
pub fn create(db: &mut Database, team: Team, user: User) -> (r: Status)
    ensures
        exists|id: Seq<char>|
            is_object_id(id) && (final(db)@, r) == creation(old(db)@, id, team@, user@.username),
{
    let id = new_object_id();
    let ghost drawn = id@;
    let r = create_under(db, team, user, id);
    proof {
        assert(is_object_id(drawn) && (db@, r) == creation(old(db)@, drawn, team@, user@.username));
    }
    r
}

} // verus!
