//! The team payload and the operations on the `teams` collection and on the
//! team lists of users.
use vstd::prelude::*;

use crate::payload::{members_of, read_members, SMALL_BODY_LIMIT};
use crate::status::Status;
use crate::store::{
    first_index, is_object_id, new_object_id, object_id_key, opt_text, parse_object_id,
    team_with_id_and_name, texts, Database, DatabaseView, TeamDocument, TeamDocumentView,
};
use crate::text::owned;
use crate::user::{extended_user, get_user_extended, User, UserExtended, UserExtendedView};

verus! {

/// A team as clients see it: its name and logo.
pub struct Team {
    pub name: String,
    pub logo: String,
}

pub struct TeamView {
    pub name: Seq<char>,
    pub logo: Seq<char>,
}

impl View for Team {
    type V = TeamView;

    open spec fn view(&self) -> TeamView {
        TeamView { name: self.name@, logo: self.logo@ }
    }
}

impl Team {
    /// Reads a team from a request body: at most 256 bytes, as JSON with
    /// members `name` and `logo`.
    pub fn from_data(body: &[u8]) -> (r: Result<Team, Status>)
        ensures
            match members_of(body@, SMALL_BODY_LIMIT as nat, "name"@, "logo"@) {
                Ok((n, l)) => r matches Ok(t) && t@ == (TeamView { name: n, logo: l }),
                Err(e) => r == Err::<Team, Status>(e),
            },
    {
        match read_members(body, SMALL_BODY_LIMIT, "name", "logo") {
            Ok((name, logo)) => Ok(Team { name, logo }),
            Err(e) => Err(e),
        }
    }
}

/// The stored id of the team a text names; the text must denote an object id.
pub open spec fn key_of(team_id: Seq<char>) -> Seq<char> {
    object_id_key(team_id)->0
}

/// Whether a text denotes an object id of a stored team.
pub open spec fn names_stored_team(db: DatabaseView, team_id: Seq<char>) -> bool {
    object_id_key(team_id) is Some && db.has_team(key_of(team_id))
}

/// The stored team a text names.
pub open spec fn named_team(db: DatabaseView, team_id: Seq<char>) -> TeamDocumentView {
    db.teams[db.team_index(key_of(team_id))]
}

fn team_position(db: &Database, team_id: &str) -> (i: usize)
    requires
        names_stored_team(db@, team_id@),
    ensures
        i as int == db@.team_index(key_of(team_id@)),
        i < db.teams@.len(),
{
    let key = parse_object_id(team_id).unwrap();
    db.find_team(key.as_str()).unwrap()
}

/// `$push` of a username onto the members of the team with this id.
pub fn add_user_to_team(db: &mut Database, username: String, team_id: String)
    requires
        object_id_key(team_id@) is Some,
    ensures
        final(db)@ == old(db)@.push_member_at(old(db)@.team_index(key_of(team_id@)), username@),
{
    let key = parse_object_id(team_id.as_str()).unwrap();
    match db.find_team(key.as_str()) {
        Some(i) => db.push_team_member(i, username),
        None => {},
    }
}

/// The team document created for a new team with this id.
pub open spec fn new_team_document(id: Seq<char>, team: TeamView, admin: Seq<char>) -> TeamDocumentView {
    TeamDocumentView {
        id,
        name: team.name,
        logo: team.logo,
        administrator: admin,
        members: seq![admin],
    }
}

/// The store with a new team appended.
pub open spec fn with_new_team(db: DatabaseView, id: Seq<char>, team: TeamView, admin: Seq<char>) -> DatabaseView {
    DatabaseView { teams: db.teams.push(new_team_document(id, team, admin)), ..db }
}

/// Stores a new team under a given id, administered by `admin`, whose only
/// member is `admin`. The id must not be taken (the insert would fail).
pub fn add_team_with_id(db: &mut Database, team: &Team, admin: &User, id: String)
    requires
        is_object_id(id@),
        !old(db)@.has_team(id@),
    ensures
        final(db)@ == with_new_team(old(db)@, id@, team@, admin@.username),
{
    let mut members: Vec<String> = Vec::new();
    members.push(admin.username.clone());
    let doc = TeamDocument {
        id,
        name: team.name.clone(),
        logo: team.logo.clone(),
        administrator: admin.username.clone(),
        members,
    };
    proof {
        assert(doc@.members =~= seq![admin@.username]);
    }
    db.insert_team(doc);
}

/// What storing a team under the generated id `id` gives: the id and the
/// store with the team appended, or `None` and the store unchanged when the
/// id is taken.
pub open spec fn team_added(db: DatabaseView, id: Seq<char>, team: TeamView, admin: Seq<char>) -> (
    Option<Seq<char>>,
    DatabaseView,
) {
    if db.has_team(id) {
        (None, db)
    } else {
        (Some(id), with_new_team(db, id, team, admin))
    }
}

/// Stores a new team under the object id `id` and returns the id; `None`,
/// with nothing stored, when a team already has that id.
pub fn add_team_under(db: &mut Database, team: &Team, admin: &User, id: String) -> (r: Option<String>)
    requires
        is_object_id(id@),
    ensures
        (opt_text(r), final(db)@) == team_added(old(db)@, id@, team@, admin@.username),
{
    if db.find_team(id.as_str()).is_some() {
        return None;
    }
    add_team_with_id(db, team, admin, id.clone());
    Some(id)
}

/// Stores a new team under a freshly generated object id and returns the
/// id; `None`, with nothing stored, when the generated id is already taken.
pub fn add_team_to_db(db: &mut Database, team: &Team, admin: &User) -> (r: Option<String>)
    ensures
        exists|id: Seq<char>|
            is_object_id(id) && (opt_text(r), final(db)@) == team_added(
                old(db)@,
                id,
                team@,
                admin@.username,
            ),
{
    let id = new_object_id();
    let ghost drawn = id@;
    let r = add_team_under(db, team, admin, id);
    proof {
        assert(is_object_id(drawn) && (opt_text(r), db@) == team_added(old(db)@, drawn, team@, admin@.username));
    }
    r
}

/// `$push` of a team id onto the teams of the user with this username.
pub fn add_team_to_user(db: &mut Database, team_id: String, username: String)
    ensures
        final(db)@ == old(db)@.push_user_team_at(old(db)@.user_index(username@), team_id@),
{
    match db.find_user(username.as_str()) {
        Some(i) => db.push_user_team(i, team_id),
        None => {},
    }
}

/// `$pull` of a username from the members of the team with this id.
pub fn remove_user_from_team(db: &mut Database, team_id: String, username: String)
    requires
        object_id_key(team_id@) is Some,
    ensures
        final(db)@ == old(db)@.pull_member_at(old(db)@.team_index(key_of(team_id@)), username@),
{
    let key = parse_object_id(team_id.as_str()).unwrap();
    match db.find_team(key.as_str()) {
        Some(i) => db.pull_team_member(i, username.as_str()),
        None => {},
    }
}

/// `$pull` of a team id from the teams of the user with this username.
pub fn remove_team_from_user(db: &mut Database, team_id: String, username: String)
    ensures
        final(db)@ == old(db)@.pull_user_team_at(old(db)@.user_index(username@), team_id@),
{
    match db.find_user(username.as_str()) {
        Some(i) => db.pull_user_team(i, team_id.as_str()),
        None => {},
    }
}

/// The store after the team's administrator is replaced: the first
/// remaining member becomes administrator, or the team is deleted when no
/// member remains.
pub open spec fn admin_removed(db: DatabaseView, team_id: Seq<char>) -> DatabaseView {
    let i = db.team_index(key_of(team_id));
    let members = db.teams[i].members;
    if members.len() > 0 {
        db.set_team(i, db.teams[i].with_administrator(members[0]))
    } else {
        DatabaseView { teams: db.teams.remove(i), ..db }
    }
}

/// Hands a team over to its first member, or deletes it when it has none.
pub fn remove_admin(db: &mut Database, team_id: String)
    requires
        names_stored_team(old(db)@, team_id@),
    ensures
        final(db)@ == admin_removed(old(db)@, team_id@),
{
    let members = get_members(db, team_id.clone());
    let i = team_position(db, team_id.as_str());
    let ghost listed = named_team(db@, team_id@).members;
    proof {
        assert(members@.map_values(|u: UserExtended| u@).len() == listed.len());
    }
    if members.len() > 0 {
        let first = members[0].username.clone();
        proof {
            assert(members@.map_values(|u: UserExtended| u@)[0] == extended_user(db@, listed[0]));
            assert(first@ == listed[0]);
        }
        db.set_team_administrator(i, first);
    } else {
        db.delete_team_at(i);
    }
}

/// The name and logo of the team with this id.
pub fn get_team_by_id(db: &Database, id: String) -> (r: Team)
    requires
        names_stored_team(db@, id@),
    ensures
        r@ == (TeamView { name: named_team(db@, id@).name, logo: named_team(db@, id@).logo }),
{
    let i = team_position(db, id.as_str());
    Team { name: db.teams[i].name.clone(), logo: db.teams[i].logo.clone() }
}

/// Whether a user administers the team with this id.
pub fn is_admin(db: &Database, username: String, team_id: String) -> (r: bool)
    requires
        names_stored_team(db@, team_id@),
    ensures
        r == (named_team(db@, team_id@).administrator == username@),
{
    let i = team_position(db, team_id.as_str());
    db.teams[i].administrator == username
}

/// Whether a user is listed among the members of the team with this id.
pub fn is_member(db: &Database, username: String, team_id: String) -> (r: bool)
    requires
        names_stored_team(db@, team_id@),
    ensures
        r == named_team(db@, team_id@).members.contains(username@),
{
    let i = team_position(db, team_id.as_str());
    let members = &db.teams[i].members;
    let n = members.len();
    for k in 0..n
        invariant
            n == members@.len(),
            texts(members@) == named_team(db@, team_id@).members,
            forall|j: int| 0 <= j < k ==> texts(members@)[j] != username@,
    {
        if members[k] == username {
            proof {
                assert(texts(members@)[k as int] == username@);
            }
            return true;
        }
    }
    false
}

/// The profiles listed for the members of a team, in member order.
pub open spec fn member_profiles(db: DatabaseView, team_id: Seq<char>) -> Seq<UserExtendedView> {
    named_team(db, team_id).members.map_values(|m: Seq<char>| extended_user(db, m))
}

/// The profiles of the members of the team with this id.
pub fn get_members(db: &Database, team_id: String) -> (r: Vec<UserExtended>)
    requires
        names_stored_team(db@, team_id@),
    ensures
        r@.map_values(|u: UserExtended| u@) == member_profiles(db@, team_id@),
{
    let i = team_position(db, team_id.as_str());
    let members = &db.teams[i].members;
    let n = members.len();
    let mut res: Vec<UserExtended> = Vec::new();
    for k in 0..n
        invariant
            n == members@.len(),
            texts(members@) == named_team(db@, team_id@).members,
            res@.len() == k,
            forall|j: int|
                0 <= j < k ==> (#[trigger] res@[j])@ == extended_user(db@, texts(members@)[j]),
    {
        let extended = get_user_extended(db, members[k].clone());
        res.push(extended);
    }
    proof {
        assert(res@.map_values(|u: UserExtended| u@) =~= member_profiles(db@, team_id@));
    }
    res
}

/// The team ids listed for the user with this username.
pub open spec fn user_team_ids(db: DatabaseView, username: Seq<char>) -> Seq<Seq<char>> {
    db.users[db.user_index(username)].teams
}

/// The team ids listed for a user.
pub fn find_user_teams(db: &Database, username: String) -> (r: Vec<String>)
    requires
        db@.has_user(username@),
    ensures
        texts(r@) == user_team_ids(db@, username@),
{
    let i = db.find_user(username.as_str()).unwrap();
    db.users[i].teams.clone()
}

/// Whether a team with this stored id has this name.
pub open spec fn team_has_name(db: DatabaseView, key: Seq<char>, name: Seq<char>) -> bool {
    first_index(db.teams, team_with_id_and_name(key, name)) != -1
}

/// Scanning a user's team ids from position `k`: the first id that denotes
/// a team with this name. The scan stops (fails) on an id that does not
/// denote an object id.
pub open spec fn scan_team_ids(db: DatabaseView, ids: Seq<Seq<char>>, name: Seq<char>, k: nat) -> Option<
    Seq<char>,
>
    decreases ids.len() - k,
{
    if k >= ids.len() {
        None
    } else {
        match object_id_key(ids[k as int]) {
            None => None,
            Some(key) => if team_has_name(db, key, name) {
                Some(ids[k as int])
            } else {
                scan_team_ids(db, ids, name, k + 1)
            },
        }
    }
}

/// Whether the scan from position `k` meets an id that is not an object id
/// before it finds the team.
pub open spec fn scan_meets_bad_id(db: DatabaseView, ids: Seq<Seq<char>>, name: Seq<char>, k: nat) -> bool
    decreases ids.len() - k,
{
    if k >= ids.len() {
        false
    } else {
        match object_id_key(ids[k as int]) {
            None => true,
            Some(key) => if team_has_name(db, key, name) {
                false
            } else {
                scan_meets_bad_id(db, ids, name, k + 1)
            },
        }
    }
}

/// The id of the user's team with this name: the first of the user's team
/// ids that names such a team, or `Error` when none does.
pub open spec fn team_id_for(db: DatabaseView, username: Seq<char>, team_name: Seq<char>) -> Seq<char> {
    match scan_team_ids(db, user_team_ids(db, username), team_name, 0) {
        Some(id) => id,
        None => "Error"@,
    }
}

/// When looking the team up goes through: the user exists and no id before
/// the team is malformed.
pub open spec fn team_lookup_defined(db: DatabaseView, username: Seq<char>, team_name: Seq<char>) -> bool {
    db.has_user(username) && !scan_meets_bad_id(db, user_team_ids(db, username), team_name, 0)
}

/// When the user has a team with this name that can be looked up.
pub open spec fn team_lookup_found(db: DatabaseView, username: Seq<char>, team_name: Seq<char>) -> bool {
    team_lookup_defined(db, username, team_name) && scan_team_ids(
        db,
        user_team_ids(db, username),
        team_name,
        0,
    ) is Some
}

/// Finds the id of the user's team with this name (`Error` when none).
pub fn find_team_id(db: &Database, username: String, team_name: String) -> (r: String)
    requires
        team_lookup_defined(db@, username@, team_name@),
    ensures
        r@ == team_id_for(db@, username@, team_name@),
{
    let user_teams = find_user_teams(db, username.clone());
    let ghost ids = texts(user_teams@);
    let n = user_teams.len();
    let mut k: usize = 0;
    while k < n
        invariant
            n == user_teams@.len(),
            k <= n,
            ids == texts(user_teams@),
            ids == user_team_ids(db@, username@),
            scan_team_ids(db@, ids, team_name@, 0) == scan_team_ids(db@, ids, team_name@, k as nat),
            !scan_meets_bad_id(db@, ids, team_name@, k as nat),
        decreases n - k,
    {
        let key = parse_object_id(user_teams[k].as_str()).unwrap();
        if db.has_team_named(key.as_str(), team_name.as_str()) {
            return user_teams[k].clone();
        }
        k = k + 1;
    }
    owned("Error")
}

/// Looks the user's team with this name up without failing: `None` when the
/// user does not exist, when an id met before the team is malformed, or when
/// no team of the user has this name.
pub fn lookup_team_id(db: &Database, username: String, team_name: String) -> (r: Option<String>)
    ensures
        r is Some <==> team_lookup_found(db@, username@, team_name@),
        r matches Some(id) ==> id@ == team_id_for(db@, username@, team_name@),
{
    let i = match db.find_user(username.as_str()) {
        Some(i) => i,
        None => return None,
    };
    let user_teams = &db.users[i].teams;
    let ghost ids = texts(user_teams@);
    let n = user_teams.len();
    let mut k: usize = 0;
    while k < n
        invariant
            i < db.users@.len(),
            i as int == db@.user_index(username@),
            n == user_teams@.len(),
            k <= n,
            ids == texts(user_teams@),
            ids == user_team_ids(db@, username@),
            scan_team_ids(db@, ids, team_name@, 0) == scan_team_ids(db@, ids, team_name@, k as nat),
            scan_meets_bad_id(db@, ids, team_name@, 0) == scan_meets_bad_id(
                db@,
                ids,
                team_name@,
                k as nat,
            ),
        decreases n - k,
    {
        let key = match parse_object_id(user_teams[k].as_str()) {
            Some(key) => key,
            None => return None,
        };
        if db.has_team_named(key.as_str(), team_name.as_str()) {
            return Some(user_teams[k].clone());
        }
        k = k + 1;
    }
    None
}

/// A team with a given id and name is a team with that id.
pub proof fn lemma_named_team_exists(db: DatabaseView, key: Seq<char>, name: Seq<char>)
    requires
        team_has_name(db, key, name),
    ensures
        db.has_team(key),
{
    crate::store::lemma_first_index(db.teams, team_with_id_and_name(key, name));
    crate::store::lemma_first_index(db.teams, crate::store::team_with_id(key));
    let j = first_index(db.teams, team_with_id_and_name(key, name));
    assert(crate::store::team_with_id(key)(db.teams[j]));
}

/// What the scan finds is an id that names a stored team with that name.
pub proof fn lemma_scan_found(db: DatabaseView, ids: Seq<Seq<char>>, name: Seq<char>, k: nat)
    requires
        scan_team_ids(db, ids, name, k) is Some,
    ensures
        object_id_key(scan_team_ids(db, ids, name, k)->0) is Some,
        team_has_name(db, key_of(scan_team_ids(db, ids, name, k)->0), name),
        names_stored_team(db, scan_team_ids(db, ids, name, k)->0),
    decreases ids.len() - k,
{
    let key = object_id_key(ids[k as int])->0;
    if team_has_name(db, key, name) {
        lemma_named_team_exists(db, key, name);
    } else {
        lemma_scan_found(db, ids, name, k + 1);
    }
}

/// A team that the lookup finds is stored.
pub proof fn lemma_found_team_is_stored(db: DatabaseView, username: Seq<char>, team_name: Seq<char>)
    requires
        team_lookup_found(db, username, team_name),
    ensures
        names_stored_team(db, team_id_for(db, username, team_name)),
{
    lemma_scan_found(db, user_team_ids(db, username), team_name, 0);
}

} // verus!
