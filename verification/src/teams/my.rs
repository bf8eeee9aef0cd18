//! The signed-in user's teams: listing them, listing a team's members and
//! leaving a team.
use vstd::prelude::*;

use crate::status::Status;
use crate::store::{lemma_first_index_agree, parse_object_id, team_with_id, texts, Database, DatabaseView};
use crate::teams::team::{
    admin_removed, find_team_id, find_user_teams, get_members, get_team_by_id, is_admin,
    is_member, key_of, lemma_found_team_is_stored, member_profiles, named_team,
    names_stored_team, remove_admin, remove_team_from_user, remove_user_from_team,
    team_id_for, team_lookup_found, user_team_ids, Team, TeamView,
};
use crate::user::{User, UserExtended};

verus! {

/// When every team id listed for the user names a stored team.
pub open spec fn teams_listable(db: DatabaseView, username: Seq<char>) -> bool {
    db.has_user(username) && forall|k: int|
        0 <= k < user_team_ids(db, username).len() ==> names_stored_team(
            db,
            #[trigger] user_team_ids(db, username)[k],
        )
}

/// The teams listed for a user, in list order.
pub open spec fn listed_teams(db: DatabaseView, username: Seq<char>) -> Seq<TeamView> {
    user_team_ids(db, username).map_values(
        |id: Seq<char>| TeamView { name: named_team(db, id).name, logo: named_team(db, id).logo },
    )
}

/// The name and logo of every team listed for the user.
pub fn my(db: &Database, user: User) -> (r: Vec<Team>)
    requires
        teams_listable(db@, user@.username),
    ensures
        r@.map_values(|t: Team| t@) == listed_teams(db@, user@.username),
{
    let teams = find_user_teams(db, user.username);
    let n = teams.len();
    let mut team_vec: Vec<Team> = Vec::new();
    for k in 0..n
        invariant
            n == teams@.len(),
            texts(teams@) == user_team_ids(db@, user@.username),
            teams_listable(db@, user@.username),
            team_vec@.len() == k,
            forall|j: int|
                0 <= j < k ==> (#[trigger] team_vec@[j])@ == listed_teams(db@, user@.username)[j],
    {
        proof {
            assert(texts(teams@)[k as int] == teams@[k as int]@);
        }
        let team = get_team_by_id(db, teams[k].clone());
        team_vec.push(team);
    }
    proof {
        assert(team_vec@.map_values(|t: Team| t@) =~= listed_teams(db@, user@.username));
    }
    team_vec
}

/// Checks that every team id listed for the user names a stored team.
pub fn user_teams_listable(db: &Database, username: String) -> (r: bool)
    ensures
        r == teams_listable(db@, username@),
{
    let i = match db.find_user(username.as_str()) {
        Some(i) => i,
        None => return false,
    };
    let teams = &db.users[i].teams;
    let n = teams.len();
    for k in 0..n
        invariant
            i < db.users@.len(),
            i as int == db@.user_index(username@),
            n == teams@.len(),
            texts(teams@) == user_team_ids(db@, username@),
            forall|j: int| 0 <= j < k ==> names_stored_team(db@, #[trigger] texts(teams@)[j]),
    {
        proof {
            assert(texts(teams@)[k as int] == teams@[k as int]@);
        }
        match parse_object_id(teams[k].as_str()) {
            Some(key) => {
                if db.find_team(key.as_str()).is_none() {
                    return false;
                }
            },
            None => return false,
        }
    }
    true
}

/// The profiles of the members of the user's team with this name, when the
/// user is one of them; `Forbidden` otherwise.
pub fn members(db: &Database, team_name: String, user: User) -> (r: Result<Vec<UserExtended>, Status>)
    requires
        team_lookup_found(db@, user@.username, team_name@),
    ensures
        ({
            let id = team_id_for(db@, user@.username, team_name@);
            if named_team(db@, id).members.contains(user@.username) {
                r matches Ok(v) && v@.map_values(|u: UserExtended| u@) == member_profiles(db@, id)
            } else {
                r == Err::<Vec<UserExtended>, Status>(Status::Forbidden)
            }
        }),
{
    let team_id = find_team_id(db, user.username.clone(), team_name);
    proof {
        lemma_found_team_is_stored(db@, user@.username, team_name@);
    }
    if !is_member(db, user.username.clone(), team_id.clone()) {
        return Err(Status::Forbidden);
    }
    Ok(get_members(db, team_id))
}

/// The store after `username` leaves the team with id `team_id`: the id is
/// pulled from the user's list, the name from the team's members, and when
/// the user administered the team it is handed over (or deleted).
pub open spec fn left_team(db: DatabaseView, team_id: Seq<char>, username: Seq<char>) -> DatabaseView {
    let without_team = db.pull_user_team_at(db.user_index(username), team_id);
    let without_member = without_team.pull_member_at(
        without_team.team_index(key_of(team_id)),
        username,
    );
    if named_team(without_member, team_id).administrator == username {
        admin_removed(without_member, team_id)
    } else {
        without_member
    }
}

/// The outcome of `username` leaving their team `team_name`: only a member
/// may leave.
pub open spec fn leaving(db: DatabaseView, username: Seq<char>, team_name: Seq<char>) -> (
    DatabaseView,
    Status,
) {
    let id = team_id_for(db, username, team_name);
    if named_team(db, id).members.contains(username) {
        (left_team(db, id, username), Status::Success)
    } else {
        (db, Status::Forbidden)
    }
}

/// Leaves the user's team with this name.
pub fn leave(db: &mut Database, team_name: String, user: User) -> (r: Status)
    requires
        team_lookup_found(old(db)@, user@.username, team_name@),
    ensures
        (final(db)@, r) == leaving(old(db)@, user@.username, team_name@),
{
    let team_id = find_team_id(db, user.username.clone(), team_name);
    proof {
        lemma_found_team_is_stored(db@, user@.username, team_name@);
    }
    let is_member = is_member(db, user.username.clone(), team_id.clone());
    if !is_member {
        return Status::Forbidden;
    }
    remove_team_from_user(db, team_id.clone(), user.username.clone());
    let ghost without_team = db@;
    remove_user_from_team(db, team_id.clone(), user.username.clone());
    proof {
        let key = key_of(team_id@);
        let i = without_team.team_index(key);
        assert(without_team.teams == old(db)@.teams);
        crate::store::lemma_first_index(without_team.teams, team_with_id(key));
        assert(0 <= i < without_team.teams.len());
        assert(db@.teams == without_team.teams.update(i, without_team.teams[i].with_members(
            crate::store::pull(without_team.teams[i].members, user@.username),
        )));
        assert forall|j: int| 0 <= j < without_team.teams.len() implies (#[trigger] team_with_id(key)(
            without_team.teams[j],
        )) == team_with_id(key)(db@.teams[j]) by {
            if j == i {
                assert(db@.teams[j].id == without_team.teams[j].id);
            }
        }
        lemma_first_index_agree(without_team.teams, db@.teams, team_with_id(key));
    }
    if is_admin(db, user.username.clone(), team_id.clone()) {
        remove_admin(db, team_id.clone());
    }
    Status::Success
}

} // verus!
