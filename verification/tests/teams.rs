use geoworker::status::Status;
use geoworker::store::{parse_object_id, Database};
use geoworker::teams::create::{create, create_under, create_with_id};
use geoworker::teams::invite::{invite, JoinPayload};
use geoworker::teams::join;
use geoworker::teams::my::{leave, members, my, user_teams_listable};
use geoworker::teams::team::{
    add_team_to_user, add_team_under, add_user_to_team, find_team_id, get_team_by_id, is_admin, is_member,
    lookup_team_id, remove_admin, Team,
};
use geoworker::user::register::register;
use geoworker::user::User;

fn user(name: &str) -> User {
    User { username: name.to_string(), password: "p".to_string() }
}

fn team(name: &str) -> Team {
    Team { name: name.to_string(), logo: format!("{}.png", name) }
}

fn payload(team_name: &str, invited: &str) -> JoinPayload {
    JoinPayload { team_name: team_name.to_string(), invited_username: invited.to_string() }
}

fn with_users(names: &[&str]) -> Database {
    let mut db = Database::new();
    for n in names {
        register(&mut db, user(n));
    }
    db
}

const ID_A: &str = "5f1e2d3c4b5a69788796a5b4";
const ID_B: &str = "0123456789abcdef01234567";

#[test]
fn team_payload() {
    let t = Team::from_data(br#"{"name": "BestTeam", "logo": "Killian"}"#).ok().unwrap();
    assert_eq!(t.name, "BestTeam");
    assert_eq!(t.logo, "Killian");
    assert_eq!(Team::from_data(br#"{"name": "BestTeam"}"#).err(), Some(Status::UnprocessableEntity));
    let p = JoinPayload::from_data(br#"{"team_name": "t", "invited_username": "bob"}"#).ok().unwrap();
    assert_eq!(p.team_name, "t");
    assert_eq!(p.invited_username, "bob");
    assert_eq!(JoinPayload::from_data(br#"{"team_name": "BestTeam"}"#).err(), Some(Status::BadRequest));
    assert_eq!(JoinPayload::from_data(br#"{"team_name": null, "invited_username": "b"}"#).err(), Some(Status::BadRequest));
    assert_eq!(JoinPayload::from_data(b"not json").err(), Some(Status::UnprocessableEntity));
    let q = join::JoinPayload::from_data(br#"{"team_name": "t"}"#);
    assert_eq!(q.err(), Some(Status::UnprocessableEntity));
}

#[test]
fn object_ids_are_24_hex_digits_read_in_lowercase() {
    assert_eq!(parse_object_id(ID_A), Some(ID_A.to_string()));
    assert_eq!(parse_object_id("5F1E2D3C4B5A69788796A5B4"), Some(ID_A.to_string()));
    assert_eq!(parse_object_id("Error"), None);
    assert_eq!(parse_object_id("5f1e2d3c4b5a69788796a5bg"), None);
    assert_eq!(parse_object_id("5f1e2d3c4b5a69788796a5b"), None);
}

#[test]
fn creating_a_team_makes_the_creator_admin_and_member() {
    let mut db = with_users(&["ann"]);
    assert_eq!(create(&mut db, team("red"), user("ann")), Status::Success);
    assert_eq!(db.teams.len(), 1);
    let id = db.teams[0].id.clone();
    assert_eq!(id.len(), 24);
    assert!(id.chars().all(|c| c.is_ascii_hexdigit() && !c.is_ascii_uppercase()));
    assert_eq!(db.teams[0].administrator, "ann");
    assert_eq!(db.teams[0].members, vec!["ann".to_string()]);
    assert_eq!(db.users[0].teams, vec![id.clone()]);
    assert!(is_admin(&db, "ann".to_string(), id.clone()));
    assert!(is_member(&db, "ann".to_string(), id.clone()));
    let shown = get_team_by_id(&db, id);
    assert_eq!(shown.name, "red");
    assert_eq!(shown.logo, "red.png");
}

#[test]
fn two_created_teams_get_different_ids() {
    let mut db = with_users(&["ann"]);
    create(&mut db, team("red"), user("ann"));
    create(&mut db, team("blue"), user("ann"));
    assert_ne!(db.teams[0].id, db.teams[1].id);
}

#[test]
fn finding_a_team_by_name() {
    let mut db = with_users(&["ann"]);
    assert_eq!(create_with_id(&mut db, team("red"), user("ann"), ID_A.to_string()), Status::Success);
    assert_eq!(create_with_id(&mut db, team("blue"), user("ann"), ID_B.to_string()), Status::Success);
    assert_eq!(find_team_id(&db, "ann".to_string(), "blue".to_string()), ID_B);
    assert_eq!(find_team_id(&db, "ann".to_string(), "green".to_string()), "Error");
    assert_eq!(lookup_team_id(&db, "ann".to_string(), "red".to_string()), Some(ID_A.to_string()));
    assert_eq!(lookup_team_id(&db, "ann".to_string(), "green".to_string()), None);
    assert_eq!(lookup_team_id(&db, "zed".to_string(), "red".to_string()), None);
}

#[test]
fn a_malformed_team_id_stops_the_lookup() {
    let mut db = with_users(&["ann"]);
    create_with_id(&mut db, team("red"), user("ann"), ID_A.to_string());
    db.users[0].teams.insert(0, "bogus".to_string());
    assert_eq!(lookup_team_id(&db, "ann".to_string(), "red".to_string()), None);
    db.users[0].teams.remove(0);
    db.users[0].teams.push("bogus".to_string());
    assert_eq!(lookup_team_id(&db, "ann".to_string(), "red".to_string()), Some(ID_A.to_string()));
}

#[test]
fn an_admin_invites_a_user() {
    let mut db = with_users(&["ann", "bob"]);
    create_with_id(&mut db, team("red"), user("ann"), ID_A.to_string());
    assert_eq!(invite(&mut db, payload("red", "bob"), user("ann")), Status::Success);
    assert_eq!(db.teams[0].members, vec!["ann".to_string(), "bob".to_string()]);
    assert_eq!(db.users[1].teams, vec![ID_A.to_string()]);
    assert!(is_member(&db, "bob".to_string(), ID_A.to_string()));
    assert!(!is_admin(&db, "bob".to_string(), ID_A.to_string()));
}

#[test]
fn a_member_who_is_not_admin_cannot_invite() {
    let mut db = with_users(&["ann", "bob", "cid"]);
    create_with_id(&mut db, team("red"), user("ann"), ID_A.to_string());
    invite(&mut db, payload("red", "bob"), user("ann"));
    assert_eq!(join::join(&mut db, join::JoinPayload {
        team_name: "red".to_string(),
        invited_username: "cid".to_string(),
    }, user("bob")), Status::Forbidden);
    assert_eq!(db.teams[0].members.len(), 2);
    assert!(db.users[2].teams.is_empty());
}

#[test]
fn listing_teams_and_members() {
    let mut db = with_users(&["ann", "bob"]);
    create_with_id(&mut db, team("red"), user("ann"), ID_A.to_string());
    create_with_id(&mut db, team("blue"), user("ann"), ID_B.to_string());
    invite(&mut db, payload("red", "bob"), user("ann"));
    assert!(user_teams_listable(&db, "ann".to_string()));
    let mine = my(&db, user("ann"));
    assert_eq!(mine.len(), 2);
    assert_eq!(mine[0].name, "red");
    assert_eq!(mine[1].logo, "blue.png");
    let listed = members(&db, "red".to_string(), user("bob")).ok().unwrap();
    assert_eq!(listed.len(), 2);
    assert_eq!(listed[0].username, "ann");
    assert_eq!(listed[1].username, "bob");
    assert_eq!(listed[1].location, "FI");
}

#[test]
fn members_of_a_team_one_left_is_forbidden() {
    let mut db = with_users(&["ann", "bob"]);
    create_with_id(&mut db, team("red"), user("ann"), ID_A.to_string());
    add_team_to_user(&mut db, ID_A.to_string(), "bob".to_string());
    assert_eq!(members(&db, "red".to_string(), user("bob")).err(), Some(Status::Forbidden));
    assert_eq!(leave(&mut db, "red".to_string(), user("bob")), Status::Forbidden);
    assert_eq!(db.users[1].teams, vec![ID_A.to_string()]);
}

#[test]
fn a_member_leaves() {
    let mut db = with_users(&["ann", "bob"]);
    create_with_id(&mut db, team("red"), user("ann"), ID_A.to_string());
    invite(&mut db, payload("red", "bob"), user("ann"));
    assert_eq!(leave(&mut db, "red".to_string(), user("bob")), Status::Success);
    assert!(db.users[1].teams.is_empty());
    assert_eq!(db.teams[0].members, vec!["ann".to_string()]);
    assert_eq!(db.teams[0].administrator, "ann");
}

#[test]
fn an_admin_who_leaves_hands_the_team_over() {
    let mut db = with_users(&["ann", "bob"]);
    create_with_id(&mut db, team("red"), user("ann"), ID_A.to_string());
    invite(&mut db, payload("red", "bob"), user("ann"));
    assert_eq!(leave(&mut db, "red".to_string(), user("ann")), Status::Success);
    assert_eq!(db.teams[0].administrator, "bob");
    assert_eq!(db.teams[0].members, vec!["bob".to_string()]);
    assert!(db.users[0].teams.is_empty());
}

#[test]
fn the_last_member_leaving_deletes_the_team() {
    let mut db = with_users(&["ann"]);
    create_with_id(&mut db, team("red"), user("ann"), ID_A.to_string());
    assert_eq!(leave(&mut db, "red".to_string(), user("ann")), Status::Success);
    assert!(db.teams.is_empty());
    assert!(db.users[0].teams.is_empty());
}

#[test]
fn remove_admin_hands_over_to_the_first_member() {
    let mut db = with_users(&["ann"]);
    create_with_id(&mut db, team("red"), user("ann"), ID_A.to_string());
    add_user_to_team(&mut db, "zoe".to_string(), ID_A.to_uppercase());
    assert_eq!(db.teams[0].members, vec!["ann".to_string(), "zoe".to_string()]);
    remove_admin(&mut db, ID_A.to_uppercase());
    assert_eq!(db.teams[0].administrator, "ann");
    let mut lone = with_users(&["ann"]);
    create_with_id(&mut lone, team("red"), user("ann"), ID_B.to_string());
    lone.teams[0].members.clear();
    remove_admin(&mut lone, ID_B.to_string());
    assert!(lone.teams.is_empty());
}

fn memberships_agree(db: &Database) -> bool {
    let accounts_ok = db.users.iter().all(|u| {
        u.teams.iter().all(|id| {
            db.teams.iter().any(|t| &t.id == id && t.members.contains(&u.username))
        })
    });
    let members_ok = db.teams.iter().all(|t| {
        t.members.iter().all(|m| {
            db.users.iter().any(|u| &u.username == m && u.teams.contains(&t.id))
        })
    });
    let admins_ok = db.teams.iter().all(|t| t.members.contains(&t.administrator));
    accounts_ok && members_ok && admins_ok
}

#[test]
fn team_lists_and_member_lists_stay_in_agreement() {
    let mut db = with_users(&["ann", "bob", "cid"]);
    assert!(memberships_agree(&db));
    create_with_id(&mut db, team("red"), user("ann"), ID_A.to_string());
    assert!(memberships_agree(&db));
    create_with_id(&mut db, team("blue"), user("bob"), ID_B.to_string());
    assert!(memberships_agree(&db));
    invite(&mut db, payload("red", "bob"), user("ann"));
    invite(&mut db, payload("red", "cid"), user("ann"));
    invite(&mut db, payload("blue", "ann"), user("bob"));
    assert!(memberships_agree(&db));
    assert_eq!(leave(&mut db, "red".to_string(), user("ann")), Status::Success);
    assert!(memberships_agree(&db));
    assert_eq!(db.teams[0].administrator, "bob");
    assert_eq!(leave(&mut db, "blue".to_string(), user("bob")), Status::Success);
    assert!(memberships_agree(&db));
    assert_eq!(leave(&mut db, "blue".to_string(), user("ann")), Status::Success);
    assert!(memberships_agree(&db));
    assert_eq!(db.teams.len(), 1);
}

#[test]
fn creating_under_a_taken_id_stores_nothing() {
    let mut db = with_users(&["ann"]);
    assert_eq!(create_under(&mut db, team("red"), user("ann"), ID_A.to_string()), Status::Success);
    assert_eq!(db.teams[0].id, ID_A);
    assert_eq!(db.users[0].teams, vec![ID_A.to_string()]);
    assert_eq!(create_under(&mut db, team("blue"), user("ann"), ID_A.to_string()), Status::InternalServerError);
    assert_eq!(db.teams.len(), 1);
    assert_eq!(db.teams[0].name, "red");
    assert_eq!(db.users[0].teams, vec![ID_A.to_string()]);
    assert_eq!(add_team_under(&mut db, &team("blue"), &user("ann"), ID_A.to_string()), None);
    assert_eq!(add_team_under(&mut db, &team("blue"), &user("ann"), ID_B.to_string()), Some(ID_B.to_string()));
    assert_eq!(db.teams[1].members, vec!["ann".to_string()]);
}
