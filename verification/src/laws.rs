//! Properties of the service that span several operations.
use vstd::prelude::*;

use crate::api::signed_in;
use crate::payload::{body_prefix, member_of, members_of};
use crate::status::Status;
use crate::user::login::refresh_accepts;
use crate::user::token::{claims_user, jwt_hs256_claims, token_expiry, token_secret};
use crate::store::{
    first_index, is_object_id, lemma_first_index, lemma_first_index_agree,
    lemma_object_id_key_of_stored, object_id_key, pull, differs_from, team_with_id, user_named, user_with_refresh_token,
    DatabaseView, UserDocumentView,
};
use crate::teams::create::{created, creation};
use crate::teams::invite::{invitation, invited_into};
use crate::teams::my::{leaving, left_team, listed_teams};
use crate::teams::team::{
    admin_removed, key_of, lemma_found_team_is_stored, member_profiles, named_team, names_stored_team,
    new_team_document, scan_team_ids, team_has_name, team_id_for, team_lookup_found, user_team_ids,
    with_new_team, TeamView,
};
use crate::text::{hex_digit, hex_lower, not_quote, without_quotes};
use crate::user::login::login_accepts;
use crate::user::register::{new_user_document, registered};
use crate::user::{password_hash, stored_user, username_for_token, UserExtendedView, UserView};

verus! {

/// Appending an element keeps an earlier first match, and otherwise the
/// appended element is the first match when it matches.
pub proof fn lemma_first_index_push<A>(s: Seq<A>, x: A, p: spec_fn(A) -> bool)
    ensures
        first_index(s.push(x), p) == (if first_index(s, p) != -1 {
            first_index(s, p)
        } else if p(x) {
            s.len() as int
        } else {
            -1
        }),
{
    let t = s.push(x);
    lemma_first_index(s, p);
    lemma_first_index(t, p);
    if first_index(s, p) != -1 {
        let i = first_index(s, p);
        assert(t[i] == s[i]);
        if first_index(t, p) != i {
            let k = first_index(t, p);
            if k < i {
                assert(t[k] == s[k]);
            } else {
                assert(!p(t[i]));
            }
        }
    } else if p(x) {
        assert(t[s.len() as int] == x);
        let k = first_index(t, p);
        if k != s.len() as int {
            assert(t[k] == s[k]);
        }
    } else {
        if first_index(t, p) != -1 {
            let k = first_index(t, p);
            if k < s.len() {
                assert(t[k] == s[k]);
            }
        }
    }
}

/// Filtering a sequence none of whose elements fails the predicate leaves
/// it unchanged.
pub proof fn lemma_filter_keeps_all<A>(s: Seq<A>, p: spec_fn(A) -> bool)
    requires
        forall|i: int| 0 <= i < s.len() ==> p(#[trigger] s[i]),
    ensures
        s.filter(p) == s,
    decreases s.len(),
{
    reveal(Seq::filter);
    if s.len() > 0 {
        lemma_filter_keeps_all(s.drop_last(), p);
        assert(s.drop_last().push(s.last()) =~= s);
    }
}

/// A hexadecimal digit is never a double quote.
pub proof fn lemma_hex_digit_not_quote(d: int)
    requires
        0 <= d < 16,
    ensures
        not_quote(hex_digit(d)),
{
    let c = hex_digit(d);
    if d < 10 {
        assert(c as u32 == 48 + d);
    } else {
        assert(c as u32 == 87 + d);
    }
    assert('"' as u32 == 34);
}

/// Hexadecimal text has no double quote, so removing quotes keeps it.
pub proof fn lemma_hex_has_no_quotes(bytes: Seq<u8>)
    ensures
        without_quotes(hex_lower(bytes)) == hex_lower(bytes),
{
    let h = hex_lower(bytes);
    assert forall|k: int| 0 <= k < h.len() implies (|c: char| not_quote(c))(#[trigger] h[k]) by {
        let b = bytes[k / 2] as int;
        if k % 2 == 0 {
            lemma_hex_digit_not_quote(b / 16);
        } else {
            lemma_hex_digit_not_quote(b % 16);
        }
    }
    lemma_filter_keeps_all(h, |c: char| not_quote(c));
}

/// After an account is registered under a free username, logging in with
/// that username is accepted exactly for passwords with the same hash as
/// the registered one (in particular for the registered password itself).
pub proof fn lemma_login_after_register(db: DatabaseView, username: Seq<char>, password: Seq<char>, attempt: Seq<char>)
    requires
        !db.has_user(username),
    ensures
        login_accepts(
            registered(db, UserView { username, password }),
            UserView { username, password: attempt },
        ) <==> password_hash(attempt) == password_hash(password),
        login_accepts(
            registered(db, UserView { username, password }),
            UserView { username, password },
        ),
{
    let after = registered(db, UserView { username, password });
    let doc = new_user_document(username, password);
    lemma_first_index_push(db.users, doc, user_named(username));
    assert(after.users == db.users.push(doc));
    assert(after.user_index(username) == db.users.len());
    assert(after.users[db.users.len() as int] == doc);
    lemma_hex_has_no_quotes(crate::user::sha256_digest(vstd::utf8::encode_utf8(password)));
    assert(stored_user(after, username).password == password_hash(password));
}

/// Once an account is registered, its username is taken: registering it
/// again changes nothing.
pub proof fn lemma_registration_takes_username(db: DatabaseView, user: UserView, again: UserView)
    requires
        again.username == user.username,
    ensures
        registered(db, user).has_user(user.username),
        registered(registered(db, user), again) == registered(db, user),
{
    if !db.has_user(user.username) {
        lemma_first_index_push(db.users, new_user_document(user.username, user.password), user_named(user.username));
    }
}

/// A pulled list no longer holds the pulled value.
pub proof fn lemma_pull_removes(s: Seq<Seq<char>>, x: Seq<char>)
    ensures
        !pull(s, x).contains(x),
{
    broadcast use vstd::seq_lib::group_filter_ensures;
    if pull(s, x).contains(x) {
        let k = choose|k: int| 0 <= k < pull(s, x).len() && pull(s, x)[k] == x;
        assert(differs_from(x)(pull(s, x)[k]));
    }
}

/// Changing account fields other than the username keeps the position of
/// every username.
pub proof fn lemma_user_index_kept(a: DatabaseView, b: DatabaseView, name: Seq<char>)
    requires
        a.users.len() == b.users.len(),
        forall|j: int| 0 <= j < a.users.len() ==> #[trigger] a.users[j].username == b.users[j].username,
    ensures
        a.user_index(name) == b.user_index(name),
{
    assert forall|j: int| 0 <= j < a.users.len() implies (#[trigger] user_named(name)(a.users[j]))
        == user_named(name)(b.users[j]) by {
        assert(a.users[j].username == b.users[j].username);
    }
    lemma_first_index_agree(a.users, b.users, user_named(name));
}

/// Changing team fields other than the id keeps the position of every id.
pub proof fn lemma_team_index_kept(a: DatabaseView, b: DatabaseView, key: Seq<char>)
    requires
        a.teams.len() == b.teams.len(),
        forall|j: int| 0 <= j < a.teams.len() ==> #[trigger] a.teams[j].id == b.teams[j].id,
    ensures
        a.team_index(key) == b.team_index(key),
{
    assert forall|j: int| 0 <= j < a.teams.len() implies (#[trigger] team_with_id(key)(a.teams[j]))
        == team_with_id(key)(b.teams[j]) by {
        assert(a.teams[j].id == b.teams[j].id);
    }
    lemma_first_index_agree(a.teams, b.teams, team_with_id(key));
}

/// Changes that keep every username and every team id keep the invariant.
pub proof fn lemma_same_keys_well_formed(a: DatabaseView, b: DatabaseView)
    requires
        a.well_formed(),
        a.users.len() == b.users.len(),
        forall|j: int| 0 <= j < a.users.len() ==> #[trigger] a.users[j].username == b.users[j].username,
        a.teams.len() == b.teams.len(),
        forall|j: int| 0 <= j < a.teams.len() ==> #[trigger] a.teams[j].id == b.teams[j].id,
    ensures
        b.well_formed(),
{
    assert forall|i: int, j: int| 0 <= i < j < b.users.len() implies #[trigger] b.users[i].username
        != #[trigger] b.users[j].username by {
        assert(a.users[i].username == b.users[i].username);
        assert(a.users[j].username == b.users[j].username);
    }
    assert forall|i: int, j: int| 0 <= i < j < b.teams.len() implies #[trigger] b.teams[i].id
        != #[trigger] b.teams[j].id by {
        assert(a.teams[i].id == b.teams[i].id);
        assert(a.teams[j].id == b.teams[j].id);
    }
    assert forall|i: int| 0 <= i < b.teams.len() implies is_object_id(#[trigger] b.teams[i].id) by {
        assert(a.teams[i].id == b.teams[i].id);
    }
}

/// Registration keeps the invariant: a new account only joins under a
/// free username.
pub proof fn lemma_registration_keeps_invariant(db: DatabaseView, user: UserView)
    requires
        db.well_formed(),
    ensures
        registered(db, user).well_formed(),
{
    if !db.has_user(user.username) {
        let after = registered(db, user);
        lemma_first_index(db.users, user_named(user.username));
        assert forall|i: int, j: int| 0 <= i < j < after.users.len() implies #[trigger] after.users[i].username
            != #[trigger] after.users[j].username by {
            if j == db.users.len() {
                assert(!user_named(user.username)(db.users[i]));
            } else {
                assert(after.users[i] == db.users[i]);
                assert(after.users[j] == db.users[j]);
            }
        }
    }
}

/// Creating a team under an unused object id keeps the invariant.
pub proof fn lemma_creation_keeps_invariant(db: DatabaseView, id: Seq<char>, team: TeamView, admin: Seq<char>)
    requires
        db.well_formed(),
        is_object_id(id),
        !db.has_team(id),
    ensures
        created(db, id, team, admin).well_formed(),
{
    let with_team = with_new_team(db, id, team, admin);
    lemma_first_index(db.teams, team_with_id(id));
    assert forall|i: int, j: int| 0 <= i < j < with_team.teams.len() implies #[trigger] with_team.teams[i].id
        != #[trigger] with_team.teams[j].id by {
        if j == db.teams.len() {
            assert(!team_with_id(id)(db.teams[i]));
        } else {
            assert(with_team.teams[i] == db.teams[i]);
            assert(with_team.teams[j] == db.teams[j]);
        }
    }
    assert forall|i: int| 0 <= i < with_team.teams.len() implies is_object_id(
        #[trigger] with_team.teams[i].id,
    ) by {
        if i < db.teams.len() {
            assert(with_team.teams[i] == db.teams[i]);
        }
    }
    let after = created(db, id, team, admin);
    lemma_first_index(with_team.users, user_named(admin));
    lemma_same_keys_well_formed(with_team, after);
}

/// A team created under an unused object id is administered by its creator,
/// whose only member is the creator, and it is listed for the creator.
pub proof fn lemma_creator_administers(db: DatabaseView, id: Seq<char>, team: TeamView, admin: Seq<char>)
    requires
        is_object_id(id),
        !db.has_team(id),
    ensures
        names_stored_team(created(db, id, team, admin), id),
        named_team(created(db, id, team, admin), id) == new_team_document(id, team, admin),
        db.has_user(admin) ==> user_team_ids(created(db, id, team, admin), admin).contains(id),
{
    lemma_object_id_key_of_stored(id);
    let with_team = with_new_team(db, id, team, admin);
    let after = created(db, id, team, admin);
    lemma_first_index_push(db.teams, new_team_document(id, team, admin), team_with_id(id));
    assert(with_team.team_index(id) == db.teams.len());
    assert(after.teams == with_team.teams);
    assert(with_team.users == db.users);
    if db.has_user(admin) {
        let ui = with_team.user_index(admin);
        lemma_first_index(with_team.users, user_named(admin));
        lemma_user_index_kept(with_team, after, admin);
        assert(after.users[ui].teams == with_team.users[ui].teams.push(id));
        assert(after.users[ui].teams[after.users[ui].teams.len() - 1] == id);
    }
}

/// An administrator's invitation makes the invited user a member of the
/// team, and lists the team for the invited user when that account exists.
pub proof fn lemma_invitation_makes_member(
    db: DatabaseView,
    inviter: Seq<char>,
    team_name: Seq<char>,
    invited: Seq<char>,
)
    requires
        team_lookup_found(db, inviter, team_name),
        named_team(db, team_id_for(db, inviter, team_name)).administrator == inviter,
    ensures
        ({
            let id = team_id_for(db, inviter, team_name);
            let after = invitation(db, inviter, team_name, invited).0;
            &&& names_stored_team(after, id)
            &&& named_team(after, id).members.contains(invited)
            &&& db.has_user(invited) ==> user_team_ids(after, invited).contains(id)
        }),
{
    let id = team_id_for(db, inviter, team_name);
    lemma_found_team_is_stored(db, inviter, team_name);
    let key = key_of(id);
    let with_team = db.push_user_team_at(db.user_index(invited), id);
    let after = invited_into(db, id, invited);
    assert(with_team.teams == db.teams);
    let ti = db.team_index(key);
    lemma_first_index(db.teams, team_with_id(key));
    assert(with_team.team_index(key) == ti);
    lemma_team_index_kept(with_team, after, key);
    assert(after.teams[ti].members == db.teams[ti].members.push(invited));
    assert(after.teams[ti].members[after.teams[ti].members.len() - 1] == invited);
    if db.has_user(invited) {
        let ui = db.user_index(invited);
        lemma_first_index(db.users, user_named(invited));
        lemma_user_index_kept(db, with_team, invited);
        assert(after.users == with_team.users);
        assert(with_team.users[ui].teams == db.users[ui].teams.push(id));
        assert(with_team.users[ui].teams[with_team.users[ui].teams.len() - 1] == id);
    }
}

/// Invitations keep the invariant.
pub proof fn lemma_invitation_keeps_invariant(
    db: DatabaseView,
    inviter: Seq<char>,
    team_name: Seq<char>,
    invited: Seq<char>,
)
    requires
        db.well_formed(),
    ensures
        invitation(db, inviter, team_name, invited).0.well_formed(),
{
    let id = team_id_for(db, inviter, team_name);
    let with_team = db.push_user_team_at(db.user_index(invited), id);
    lemma_first_index(db.users, user_named(invited));
    lemma_first_index(with_team.teams, team_with_id(key_of(id)));
    lemma_same_keys_well_formed(db, with_team);
    lemma_same_keys_well_formed(with_team, invited_into(db, id, invited));
}

/// Deleting a team keeps the invariant.
pub proof fn lemma_team_removal_keeps_invariant(db: DatabaseView, i: int)
    requires
        db.well_formed(),
        0 <= i < db.teams.len(),
    ensures
        (DatabaseView { teams: db.teams.remove(i), ..db }).well_formed(),
{
    let after = DatabaseView { teams: db.teams.remove(i), ..db };
    assert forall|a: int, b: int| 0 <= a < b < after.teams.len() implies #[trigger] after.teams[a].id
        != #[trigger] after.teams[b].id by {
        let a0 = if a < i { a } else { a + 1 };
        let b0 = if b < i { b } else { b + 1 };
        assert(after.teams[a] == db.teams[a0]);
        assert(after.teams[b] == db.teams[b0]);
    }
    assert forall|a: int| 0 <= a < after.teams.len() implies is_object_id(#[trigger] after.teams[a].id) by {
        let a0 = if a < i { a } else { a + 1 };
        assert(after.teams[a] == db.teams[a0]);
    }
}

/// Leaving a team keeps the invariant.
pub proof fn lemma_leaving_keeps_invariant(db: DatabaseView, username: Seq<char>, team_name: Seq<char>)
    requires
        db.well_formed(),
        team_lookup_found(db, username, team_name),
    ensures
        leaving(db, username, team_name).0.well_formed(),
{
    let id = team_id_for(db, username, team_name);
    if named_team(db, id).members.contains(username) {
        lemma_found_team_is_stored(db, username, team_name);
        let key = key_of(id);
        let without_team = db.pull_user_team_at(db.user_index(username), id);
        lemma_first_index(db.users, user_named(username));
        lemma_same_keys_well_formed(db, without_team);
        assert(without_team.teams == db.teams);
        let ti = without_team.team_index(key);
        lemma_first_index(without_team.teams, team_with_id(key));
        let without_member = without_team.pull_member_at(ti, username);
        lemma_same_keys_well_formed(without_team, without_member);
        if named_team(without_member, id).administrator == username {
            lemma_team_index_kept(without_team, without_member, key);
            let members = without_member.teams[ti].members;
            if members.len() > 0 {
                lemma_same_keys_well_formed(without_member, admin_removed(without_member, id));
            } else {
                lemma_team_removal_keeps_invariant(without_member, ti);
            }
        }
    }
}

/// A member who leaves a team no longer lists it, and is no longer among
/// the members of the team when the team survives.
pub proof fn lemma_leaving_ends_membership(db: DatabaseView, username: Seq<char>, team_name: Seq<char>)
    requires
        db.well_formed(),
        team_lookup_found(db, username, team_name),
        named_team(db, team_id_for(db, username, team_name)).members.contains(username),
    ensures
        ({
            let id = team_id_for(db, username, team_name);
            let after = leaving(db, username, team_name).0;
            &&& !user_team_ids(after, username).contains(id)
            &&& names_stored_team(after, id) ==> !named_team(after, id).members.contains(username)
        }),
{
    let id = team_id_for(db, username, team_name);
    lemma_found_team_is_stored(db, username, team_name);
    let key = key_of(id);
    let ui = db.user_index(username);
    lemma_first_index(db.users, user_named(username));
    let without_team = db.pull_user_team_at(ui, id);
    lemma_user_index_kept(db, without_team, username);
    assert(without_team.teams == db.teams);
    let ti = without_team.team_index(key);
    lemma_first_index(without_team.teams, team_with_id(key));
    let without_member = without_team.pull_member_at(ti, username);
    assert(without_member.users == without_team.users);
    lemma_team_index_kept(without_team, without_member, key);
    let after = left_team(db, id, username);
    assert(after.users == without_member.users);
    lemma_pull_removes(db.users[ui].teams, id);
    lemma_pull_removes(db.teams[ti].members, username);
    assert(without_member.teams[ti].members == pull(db.teams[ti].members, username));
    if named_team(without_member, id).administrator == username {
        let members = without_member.teams[ti].members;
        if members.len() > 0 {
            lemma_team_index_kept(without_member, after, key);
        } else {
            assert(after.teams == without_member.teams.remove(ti));
            lemma_first_index(after.teams, team_with_id(key));
            if after.has_team(key) {
                let j = after.team_index(key);
                let j0 = if j < ti { j } else { j + 1 };
                assert(after.teams[j] == without_member.teams[j0]);
                assert(without_member.teams[j0].id == db.teams[j0].id);
                assert(without_member.teams[ti].id == db.teams[ti].id);
                assert(db.teams[ti].id == key);
                if j0 < ti {
                    assert(db.teams[j0].id != db.teams[ti].id);
                } else {
                    assert(db.teams[ti].id != db.teams[j0].id);
                }
            }
        }
    }
}

/// Setting the refresh token, time, country code or picture of an account
/// keeps the invariant.
pub proof fn lemma_account_settings_keep_invariant(db: DatabaseView, i: int, value: Seq<char>)
    requires
        db.well_formed(),
        i == -1 || 0 <= i < db.users.len(),
    ensures
        db.set_refresh_token_at(i, value).well_formed(),
        db.set_time_at(i, value).well_formed(),
        db.set_country_code_at(i, value).well_formed(),
        db.set_picture_at(i, value).well_formed(),
{
    lemma_same_keys_well_formed(db, db.set_refresh_token_at(i, value));
    lemma_same_keys_well_formed(db, db.set_time_at(i, value));
    lemma_same_keys_well_formed(db, db.set_country_code_at(i, value));
    lemma_same_keys_well_formed(db, db.set_picture_at(i, value));
}

/// Deleting an account keeps the invariant.
pub proof fn lemma_account_removal_keeps_invariant(db: DatabaseView, i: int)
    requires
        db.well_formed(),
        0 <= i < db.users.len(),
    ensures
        (DatabaseView { users: db.users.remove(i), ..db }).well_formed(),
{
    let after = DatabaseView { users: db.users.remove(i), ..db };
    assert forall|a: int, b: int| 0 <= a < b < after.users.len() implies #[trigger] after.users[a].username
        != #[trigger] after.users[b].username by {
        let a0 = if a < i { a } else { a + 1 };
        let b0 = if b < i { b } else { b + 1 };
        assert(after.users[a] == db.users[a0]);
        assert(after.users[b] == db.users[b0]);
    }
}

/// Only the first `limit` bytes of a body are read: bytes appended after
/// them change nothing.
pub proof fn lemma_only_the_prefix_is_read(
    body: Seq<u8>,
    extra: Seq<u8>,
    limit: nat,
    k1: Seq<char>,
    k2: Seq<char>,
)
    requires
        body.len() >= limit,
    ensures
        members_of(body + extra, limit, k1, k2) == members_of(body, limit, k1, k2),
        member_of(body + extra, limit, k1) == member_of(body, limit, k1),
{
    assert((body + extra).take(limit as int) =~= body.take(limit as int));
    if body.len() == limit {
        assert(body =~= body.take(limit as int));
    }
    assert(body_prefix(body + extra, limit) == body_prefix(body, limit));
}

/// A refresh token just stored for an account is held by some account, so
/// exchanging it is not refused.
pub proof fn lemma_stored_refresh_token_is_held(db: DatabaseView, i: int, token: Seq<char>)
    requires
        0 <= i < db.users.len(),
    ensures
        db.set_refresh_token_at(i, token).refresh_token_index(token) != -1,
{
    let after = db.set_refresh_token_at(i, token);
    lemma_first_index(after.users, crate::store::user_with_refresh_token(token));
    assert(crate::store::user_with_refresh_token(token)(after.users[i]));
}

/// A token issued for `username` at time `issued` signs the holder in as
/// that user (with the stored credentials) at any time up to its expiry,
/// an hour later.
pub proof fn lemma_issued_token_signs_in(
    db: DatabaseView,
    token: Seq<char>,
    username: Seq<char>,
    issued: i64,
    now: i64,
)
    requires
        jwt_hs256_claims(token, token_secret()) == Some((Some(username), Some(token_expiry(issued)))),
        now <= token_expiry(issued),
    ensures
        signed_in(db, Some(token), now) == Ok::<UserView, Status>(stored_user(db, username)),
{
}

/// A refresh token is spent once exchanged: when no other account holds it,
/// after the exchange no account does, so a second exchange is refused.
pub proof fn lemma_refresh_token_single_use(db: DatabaseView, token: Seq<char>, fresh: Seq<char>)
    requires
        refresh_accepts(db, token),
        fresh != token,
        forall|j: int|
            0 <= j < db.users.len() && j != db.refresh_token_index(token) ==> #[trigger] db.users[j].refresh_token
                != token,
    ensures
        !refresh_accepts(db.set_refresh_token_at(db.refresh_token_index(token), fresh), token),
{
    let i = db.refresh_token_index(token);
    lemma_first_index(db.users, user_with_refresh_token(token));
    let after = db.set_refresh_token_at(i, fresh);
    lemma_first_index(after.users, user_with_refresh_token(token));
    if after.refresh_token_index(token) != -1 {
        let j = after.refresh_token_index(token);
        if j == i {
            assert(after.users[j].refresh_token == fresh);
        } else {
            assert(after.users[j] == db.users[j]);
        }
    }
}

/// The team with this id lists this member.
spec fn team_lists(db: DatabaseView, id: Seq<char>, name: Seq<char>) -> bool {
    exists|t: int|
        #![trigger db.teams[t]]
        0 <= t < db.teams.len() && db.teams[t].id == id && db.teams[t].members.contains(name)
}

/// The account with this name lists this team id.
spec fn account_lists(db: DatabaseView, name: Seq<char>, id: Seq<char>) -> bool {
    exists|u: int|
        #![trigger db.users[u]]
        0 <= u < db.users.len() && db.users[u].username == name && db.users[u].teams.contains(id)
}

/// Every team an account lists is a stored team that lists the account as
/// a member.
spec fn accounts_listed_as_members(db: DatabaseView) -> bool {
    forall|u: int, k: int|
        #![trigger db.users[u].teams[k]]
        0 <= u < db.users.len() && 0 <= k < db.users[u].teams.len() ==> team_lists(
            db,
            db.users[u].teams[k],
            db.users[u].username,
        )
}

/// Every member of a team is an account that lists the team.
spec fn members_list_their_teams(db: DatabaseView) -> bool {
    forall|t: int, k: int|
        #![trigger db.teams[t].members[k]]
        0 <= t < db.teams.len() && 0 <= k < db.teams[t].members.len() ==> account_lists(
            db,
            db.teams[t].members[k],
            db.teams[t].id,
        )
}

/// Every administrator is a member of the team.
spec fn admins_are_members(db: DatabaseView) -> bool {
    forall|t: int|
        #![trigger db.teams[t]]
        0 <= t < db.teams.len() ==> db.teams[t].members.contains(db.teams[t].administrator)
}

/// Team lists and member lists agree, and administrators are members.
spec fn memberships_consistent(db: DatabaseView) -> bool {
    &&& accounts_listed_as_members(db)
    &&& members_list_their_teams(db)
    &&& admins_are_members(db)
}

proof fn lemma_push_contains(s: Seq<Seq<char>>, x: Seq<char>, y: Seq<char>)
    ensures
        s.push(x).contains(x),
        s.contains(y) ==> s.push(x).contains(y),
{
    assert(s.push(x)[s.len() as int] == x);
    if s.contains(y) {
        let j = choose|j: int| 0 <= j < s.len() && s[j] == y;
        assert(s.push(x)[j] == y);
    }
}

proof fn lemma_contains_index(s: Seq<Seq<char>>, k: int)
    requires
        0 <= k < s.len(),
    ensures
        s.contains(s[k]),
{
}

/// In a well-formed store an account's name is found at its own position.
proof fn lemma_user_at_own_index(db: DatabaseView, u: int)
    requires
        db.well_formed(),
        0 <= u < db.users.len(),
    ensures
        db.user_index(db.users[u].username) == u,
{
    let name = db.users[u].username;
    lemma_first_index(db.users, user_named(name));
    assert(user_named(name)(db.users[u]));
    let i = db.user_index(name);
    if i != u {
        assert(db.users[i].username == name);
    }
}

/// In a well-formed store a team's id is found at its own position.
proof fn lemma_team_at_own_index(db: DatabaseView, t: int)
    requires
        db.well_formed(),
        0 <= t < db.teams.len(),
    ensures
        db.team_index(db.teams[t].id) == t,
{
    let id = db.teams[t].id;
    lemma_first_index(db.teams, team_with_id(id));
    assert(team_with_id(id)(db.teams[t]));
    let i = db.team_index(id);
    if i != t {
        assert(db.teams[i].id == id);
    }
}

/// Creating a team for an existing account keeps team lists and member
/// lists in agreement.
proof fn lemma_creation_keeps_memberships(db: DatabaseView, id: Seq<char>, team: TeamView, admin: Seq<char>)
    requires
        db.well_formed(),
        memberships_consistent(db),
        is_object_id(id),
        !db.has_team(id),
        db.has_user(admin),
    ensures
        memberships_consistent(created(db, id, team, admin)),
{
    let n = db.teams.len() as int;
    let with_team = with_new_team(db, id, team, admin);
    let after = created(db, id, team, admin);
    let ui = db.user_index(admin);
    lemma_first_index(db.users, user_named(admin));
    assert(with_team.users == db.users);
    assert(after.teams == with_team.teams);
    let old_list = db.users[ui].teams;
    assert(after.users[ui].teams == old_list.push(id));
    lemma_push_contains(old_list, id, id);
    assert(after.teams[n].members == seq![admin]);
    assert(after.teams[n].members[0] == admin);
    assert forall|u: int, k: int|
        0 <= u < after.users.len() && 0 <= k < after.users[u].teams.len() implies team_lists(
        after,
        #[trigger] after.users[u].teams[k],
        after.users[u].username,
    ) by {
        if u == ui && k == old_list.len() {
            assert(after.teams[n].id == id && after.teams[n].members.contains(admin));
        } else {
            assert(after.users[u].teams[k] == db.users[u].teams[k]);
            assert(after.users[u].username == db.users[u].username);
            assert(team_lists(db, db.users[u].teams[k], db.users[u].username));
            let t = choose|t: int|
                #![trigger db.teams[t]]
                0 <= t < db.teams.len() && db.teams[t].id == db.users[u].teams[k]
                    && db.teams[t].members.contains(db.users[u].username);
            assert(after.teams[t] == db.teams[t]);
        }
    }
    assert forall|t: int, k: int|
        0 <= t < after.teams.len() && 0 <= k < after.teams[t].members.len() implies account_lists(
        after,
        #[trigger] after.teams[t].members[k],
        after.teams[t].id,
    ) by {
        if t == n {
            assert(after.users[ui].username == admin && after.users[ui].teams.contains(id));
        } else {
            assert(after.teams[t] == db.teams[t]);
            assert(account_lists(db, db.teams[t].members[k], db.teams[t].id));
            let u = choose|u: int|
                #![trigger db.users[u]]
                0 <= u < db.users.len() && db.users[u].username == db.teams[t].members[k]
                    && db.users[u].teams.contains(db.teams[t].id);
            if u == ui {
                lemma_push_contains(old_list, id, db.teams[t].id);
            }
            assert(after.users[u].username == db.users[u].username);
            assert(after.users[u].teams.contains(db.teams[t].id));
        }
    }
    assert forall|t: int| 0 <= t < after.teams.len() implies (#[trigger] after.teams[t]).members.contains(
        after.teams[t].administrator,
    ) by {
        if t < n {
            assert(after.teams[t] == db.teams[t]);
        }
    }
}

/// What the scan finds is one of the scanned ids.
proof fn lemma_scan_result_listed(db: DatabaseView, ids: Seq<Seq<char>>, name: Seq<char>, k: nat)
    requires
        scan_team_ids(db, ids, name, k) is Some,
    ensures
        ids.contains(scan_team_ids(db, ids, name, k)->0),
    decreases ids.len() - k,
{
    let key = object_id_key(ids[k as int])->0;
    if team_has_name(db, key, name) {
        assert(ids[k as int] == scan_team_ids(db, ids, name, k)->0);
    } else {
        lemma_scan_result_listed(db, ids, name, k + 1);
    }
}

/// The team a lookup finds, in a store whose lists agree, is stored under
/// exactly the id the lookup answers.
proof fn lemma_found_team_position(db: DatabaseView, username: Seq<char>, team_name: Seq<char>)
    requires
        db.well_formed(),
        memberships_consistent(db),
        team_lookup_found(db, username, team_name),
    ensures
        is_object_id(team_id_for(db, username, team_name)),
        key_of(team_id_for(db, username, team_name)) == team_id_for(db, username, team_name),
        db.has_team(team_id_for(db, username, team_name)),
        0 <= db.team_index(team_id_for(db, username, team_name)) < db.teams.len(),
        db.teams[db.team_index(team_id_for(db, username, team_name))].id == team_id_for(
            db,
            username,
            team_name,
        ),
{
    let id = team_id_for(db, username, team_name);
    let ids = user_team_ids(db, username);
    lemma_scan_result_listed(db, ids, team_name, 0);
    let ui = db.user_index(username);
    lemma_first_index(db.users, user_named(username));
    let k = choose|k: int| 0 <= k < ids.len() && ids[k] == id;
    assert(db.users[ui].teams[k] == id);
    assert(team_lists(db, db.users[ui].teams[k], db.users[ui].username));
    let t = choose|t: int|
        #![trigger db.teams[t]]
        0 <= t < db.teams.len() && db.teams[t].id == id && db.teams[t].members.contains(username);
    assert(is_object_id(db.teams[t].id));
    lemma_object_id_key_of_stored(id);
    lemma_team_at_own_index(db, t);
}

/// An invitation of an existing account keeps team lists and member lists
/// in agreement.
proof fn lemma_invitation_keeps_memberships(
    db: DatabaseView,
    inviter: Seq<char>,
    team_name: Seq<char>,
    invited: Seq<char>,
)
    requires
        db.well_formed(),
        memberships_consistent(db),
        team_lookup_found(db, inviter, team_name),
        db.has_user(invited),
    ensures
        memberships_consistent(invitation(db, inviter, team_name, invited).0),
{
    let id = team_id_for(db, inviter, team_name);
    if named_team(db, id).administrator != inviter {
        return;
    }
    lemma_found_team_position(db, inviter, team_name);
    let ti = db.team_index(id);
    let ui = db.user_index(invited);
    lemma_first_index(db.users, user_named(invited));
    let with_team = db.push_user_team_at(ui, id);
    assert(with_team.teams == db.teams);
    let after = invited_into(db, id, invited);
    assert(after.users == with_team.users);
    let old_list = db.users[ui].teams;
    let old_members = db.teams[ti].members;
    assert(after.users[ui].teams == old_list.push(id));
    assert(after.teams[ti].members == old_members.push(invited));
    assert(after.teams[ti].id == id);
    lemma_push_contains(old_list, id, id);
    lemma_push_contains(old_members, invited, invited);
    assert forall|u: int, k: int|
        0 <= u < after.users.len() && 0 <= k < after.users[u].teams.len() implies team_lists(
        after,
        #[trigger] after.users[u].teams[k],
        after.users[u].username,
    ) by {
        assert(after.users[u].username == db.users[u].username);
        if u == ui && k == old_list.len() {
            assert(after.teams[ti].id == id && after.teams[ti].members.contains(invited));
        } else {
            assert(after.users[u].teams[k] == db.users[u].teams[k]);
            assert(team_lists(db, db.users[u].teams[k], db.users[u].username));
            let t = choose|t: int|
                #![trigger db.teams[t]]
                0 <= t < db.teams.len() && db.teams[t].id == db.users[u].teams[k]
                    && db.teams[t].members.contains(db.users[u].username);
            if t == ti {
                lemma_push_contains(old_members, invited, db.users[u].username);
            }
            assert(after.teams[t].id == db.teams[t].id);
            assert(after.teams[t].members.contains(db.users[u].username));
        }
    }
    assert forall|t: int, k: int|
        0 <= t < after.teams.len() && 0 <= k < after.teams[t].members.len() implies account_lists(
        after,
        #[trigger] after.teams[t].members[k],
        after.teams[t].id,
    ) by {
        assert(after.teams[t].id == db.teams[t].id);
        if t == ti && k == old_members.len() {
            assert(after.users[ui].username == invited && after.users[ui].teams.contains(id));
        } else {
            assert(after.teams[t].members[k] == db.teams[t].members[k]);
            assert(account_lists(db, db.teams[t].members[k], db.teams[t].id));
            let u = choose|u: int|
                #![trigger db.users[u]]
                0 <= u < db.users.len() && db.users[u].username == db.teams[t].members[k]
                    && db.users[u].teams.contains(db.teams[t].id);
            if u == ui {
                lemma_push_contains(old_list, id, db.teams[t].id);
            }
            assert(after.users[u].username == db.users[u].username);
            assert(after.users[u].teams.contains(db.teams[t].id));
        }
    }
    assert forall|t: int| 0 <= t < after.teams.len() implies (#[trigger] after.teams[t]).members.contains(
        after.teams[t].administrator,
    ) by {
        assert(db.teams[t].members.contains(db.teams[t].administrator));
        if t == ti {
            lemma_push_contains(old_members, invited, db.teams[t].administrator);
        }
    }
}

proof fn lemma_pull_keeps(s: Seq<Seq<char>>, x: Seq<char>, y: Seq<char>)
    requires
        s.contains(y),
        y != x,
    ensures
        pull(s, x).contains(y),
{
    let j = choose|j: int| 0 <= j < s.len() && s[j] == y;
    s.lemma_filter_contains(differs_from(x), j);
}

proof fn lemma_pull_element(s: Seq<Seq<char>>, x: Seq<char>, k: int)
    requires
        0 <= k < pull(s, x).len(),
    ensures
        pull(s, x)[k] != x,
        s.contains(pull(s, x)[k]),
{
    s.lemma_filter_pred(differs_from(x), k);
    assert(pull(s, x).contains(pull(s, x)[k]));
    s.lemma_filter_contains_rev(differs_from(x), pull(s, x)[k]);
}

/// The store after an account (at `ui`) drops a team id from its list and
/// the team (at `ti`) drops the account from its members.
pub open spec fn departed(db: DatabaseView, ui: int, ti: int, id: Seq<char>, name: Seq<char>) -> DatabaseView {
    db.set_user(ui, db.users[ui].with_teams(pull(db.users[ui].teams, id))).set_team(
        ti,
        db.teams[ti].with_members(pull(db.teams[ti].members, name)),
    )
}

/// Dropping an account from a team on both sides keeps the lists in
/// agreement; administrators stay members unless the account administered
/// that team.
proof fn lemma_departure_keeps_lists(db: DatabaseView, ui: int, ti: int, id: Seq<char>, name: Seq<char>)
    requires
        db.well_formed(),
        memberships_consistent(db),
        0 <= ui < db.users.len(),
        db.users[ui].username == name,
        0 <= ti < db.teams.len(),
        db.teams[ti].id == id,
    ensures
        accounts_listed_as_members(departed(db, ui, ti, id, name)),
        members_list_their_teams(departed(db, ui, ti, id, name)),
        forall|t: int|
            0 <= t < db.teams.len() && (t != ti || db.teams[ti].administrator != name) ==> (#[trigger] departed(
                db,
                ui,
                ti,
                id,
                name,
            ).teams[t]).members.contains(departed(db, ui, ti, id, name).teams[t].administrator),
{
    let after = departed(db, ui, ti, id, name);
    let old_list = db.users[ui].teams;
    let old_members = db.teams[ti].members;
    assert(after.users[ui].teams == pull(old_list, id));
    assert(after.teams[ti].members == pull(old_members, name));
    assert forall|u: int, k: int|
        0 <= u < after.users.len() && 0 <= k < after.users[u].teams.len() implies team_lists(
        after,
        #[trigger] after.users[u].teams[k],
        after.users[u].username,
    ) by {
        assert(after.users[u].username == db.users[u].username);
        if u == ui {
            let e = pull(old_list, id)[k];
            lemma_pull_element(old_list, id, k);
            let j = choose|j: int| 0 <= j < old_list.len() && old_list[j] == e;
            assert(db.users[ui].teams[j] == e);
            assert(team_lists(db, db.users[ui].teams[j], db.users[ui].username));
            let t = choose|t: int|
                #![trigger db.teams[t]]
                0 <= t < db.teams.len() && db.teams[t].id == e && db.teams[t].members.contains(name);
            assert(t != ti);
            assert(after.teams[t] == db.teams[t]);
        } else {
            let e = db.users[u].teams[k];
            assert(after.users[u].teams[k] == e);
            lemma_user_at_own_index(db, u);
            lemma_user_at_own_index(db, ui);
            assert(db.users[u].username != name);
            assert(team_lists(db, e, db.users[u].username));
            let t = choose|t: int|
                #![trigger db.teams[t]]
                0 <= t < db.teams.len() && db.teams[t].id == e && db.teams[t].members.contains(
                    db.users[u].username,
                );
            if t == ti {
                lemma_pull_keeps(old_members, name, db.users[u].username);
            }
            assert(after.teams[t].id == e);
            assert(after.teams[t].members.contains(db.users[u].username));
        }
    }
    assert forall|t: int, k: int|
        0 <= t < after.teams.len() && 0 <= k < after.teams[t].members.len() implies account_lists(
        after,
        #[trigger] after.teams[t].members[k],
        after.teams[t].id,
    ) by {
        assert(after.teams[t].id == db.teams[t].id);
        if t == ti {
            let m = pull(old_members, name)[k];
            lemma_pull_element(old_members, name, k);
            let j = choose|j: int| 0 <= j < old_members.len() && old_members[j] == m;
            assert(db.teams[ti].members[j] == m);
            assert(account_lists(db, db.teams[ti].members[j], id));
            let u = choose|u: int|
                #![trigger db.users[u]]
                0 <= u < db.users.len() && db.users[u].username == m && db.users[u].teams.contains(id);
            assert(u != ui);
            assert(after.users[u] == db.users[u]);
        } else {
            let m = db.teams[t].members[k];
            assert(after.teams[t].members[k] == m);
            assert(account_lists(db, m, db.teams[t].id));
            let u = choose|u: int|
                #![trigger db.users[u]]
                0 <= u < db.users.len() && db.users[u].username == m && db.users[u].teams.contains(
                    db.teams[t].id,
                );
            if u == ui {
                assert(db.teams[t].id != db.teams[ti].id);
                lemma_pull_keeps(old_list, id, db.teams[t].id);
            }
            assert(after.users[u].username == m);
            assert(after.users[u].teams.contains(db.teams[t].id));
        }
    }
    assert forall|t: int|
        0 <= t < db.teams.len() && (t != ti || db.teams[ti].administrator != name) implies (#[trigger] after.teams[t]).members.contains(
        after.teams[t].administrator,
    ) by {
        assert(db.teams[t].members.contains(db.teams[t].administrator));
        if t == ti {
            lemma_pull_keeps(old_members, name, db.teams[ti].administrator);
        }
    }
}

/// Leaving a team keeps team lists and member lists in agreement, and
/// keeps every administrator among the members of the team.
#[verifier::spinoff_prover]
#[verifier::rlimit(40)]
proof fn lemma_leaving_keeps_memberships(db: DatabaseView, username: Seq<char>, team_name: Seq<char>)
    requires
        db.well_formed(),
        memberships_consistent(db),
        team_lookup_found(db, username, team_name),
    ensures
        memberships_consistent(leaving(db, username, team_name).0),
{
    let id = team_id_for(db, username, team_name);
    if !named_team(db, id).members.contains(username) {
        return;
    }
    lemma_found_team_position(db, username, team_name);
    let key = key_of(id);
    let ti = db.team_index(id);
    let ui = db.user_index(username);
    lemma_first_index(db.users, user_named(username));
    let without_team = db.pull_user_team_at(ui, id);
    assert(without_team.teams == db.teams);
    let d = without_team.pull_member_at(ti, username);
    assert(d == departed(db, ui, ti, id, username));
    lemma_departure_keeps_lists(db, ui, ti, id, username);
    lemma_team_index_kept(db, d, key);
    assert(named_team(d, id) == d.teams[ti]);
    assert(d.teams[ti].administrator == db.teams[ti].administrator);
    let after = left_team(db, id, username);
    if d.teams[ti].administrator != username {
        assert(after == d);
        return;
    }
    let members = d.teams[ti].members;
    if members.len() > 0 {
        assert(after == d.set_team(ti, d.teams[ti].with_administrator(members[0])));
        assert(after.users == d.users);
        assert forall|u: int, k: int|
            0 <= u < after.users.len() && 0 <= k < after.users[u].teams.len() implies team_lists(
            after,
            #[trigger] after.users[u].teams[k],
            after.users[u].username,
        ) by {
            assert(team_lists(d, d.users[u].teams[k], d.users[u].username));
            let t = choose|t: int|
                #![trigger d.teams[t]]
                0 <= t < d.teams.len() && d.teams[t].id == d.users[u].teams[k]
                    && d.teams[t].members.contains(d.users[u].username);
            assert(after.teams[t].id == d.teams[t].id);
            assert(after.teams[t].members == d.teams[t].members);
        }
        assert forall|t: int, k: int|
            0 <= t < after.teams.len() && 0 <= k < after.teams[t].members.len() implies account_lists(
            after,
            #[trigger] after.teams[t].members[k],
            after.teams[t].id,
        ) by {
            assert(after.teams[t].members == d.teams[t].members);
            assert(after.teams[t].id == d.teams[t].id);
            assert(account_lists(d, d.teams[t].members[k], d.teams[t].id));
        }
        assert forall|t: int| 0 <= t < after.teams.len() implies (#[trigger] after.teams[t]).members.contains(
            after.teams[t].administrator,
        ) by {
            if t == ti {
                lemma_contains_index(members, 0);
            } else {
                assert(after.teams[t] == d.teams[t]);
                assert(d.teams[t].members.contains(d.teams[t].administrator));
            }
        }
    } else {
        assert(after.teams == d.teams.remove(ti));
        assert(after.users == d.users);
        assert forall|u: int, k: int|
            0 <= u < after.users.len() && 0 <= k < after.users[u].teams.len() implies team_lists(
            after,
            #[trigger] after.users[u].teams[k],
            after.users[u].username,
        ) by {
            assert(team_lists(d, d.users[u].teams[k], d.users[u].username));
            let t = choose|t: int|
                #![trigger d.teams[t]]
                0 <= t < d.teams.len() && d.teams[t].id == d.users[u].teams[k]
                    && d.teams[t].members.contains(d.users[u].username);
            assert(t != ti);
            let t1 = if t < ti { t } else { t - 1 };
            assert(after.teams[t1] == d.teams[t]);
        }
        assert forall|t: int, k: int|
            0 <= t < after.teams.len() && 0 <= k < after.teams[t].members.len() implies account_lists(
            after,
            #[trigger] after.teams[t].members[k],
            after.teams[t].id,
        ) by {
            let t0 = if t < ti { t } else { t + 1 };
            assert(after.teams[t] == d.teams[t0]);
            assert(account_lists(d, d.teams[t0].members[k], d.teams[t0].id));
        }
        assert forall|t: int| 0 <= t < after.teams.len() implies (#[trigger] after.teams[t]).members.contains(
            after.teams[t].administrator,
        ) by {
            let t0 = if t < ti { t } else { t + 1 };
            assert(after.teams[t] == d.teams[t0]);
            assert(d.teams[t0].members.contains(d.teams[t0].administrator));
        }
    }
}

/// The membership invariant: an account lists a team id exactly when a
/// stored team with that id lists the account among its members, and the
/// administrator of every team is one of its members.
pub open spec fn membership_invariant(db: DatabaseView) -> bool {
    &&& forall|name: Seq<char>, id: Seq<char>|
        #![trigger user_team_ids(db, name).contains(id)]
        #![trigger db.teams[db.team_index(id)].members.contains(name)]
        (db.has_user(name) && user_team_ids(db, name).contains(id)) <==> (db.has_team(id)
            && db.teams[db.team_index(id)].members.contains(name))
    &&& forall|t: int|
        0 <= t < db.teams.len() ==> (#[trigger] db.teams[t]).members.contains(db.teams[t].administrator)
}

/// In a well-formed store the membership invariant says the same as the
/// agreement of team lists and member lists, position by position.
proof fn lemma_membership_invariant_agrees(db: DatabaseView)
    requires
        db.well_formed(),
    ensures
        membership_invariant(db) <==> memberships_consistent(db),
{
    if memberships_consistent(db) {
        assert forall|name: Seq<char>, id: Seq<char>|
            #![trigger user_team_ids(db, name).contains(id)]
            #![trigger db.teams[db.team_index(id)].members.contains(name)]
            (db.has_user(name) && user_team_ids(db, name).contains(id)) <==> (db.has_team(id)
                && db.teams[db.team_index(id)].members.contains(name)) by {
            lemma_first_index(db.users, user_named(name));
            lemma_first_index(db.teams, team_with_id(id));
            if db.has_user(name) && user_team_ids(db, name).contains(id) {
                let u = db.user_index(name);
                let k = choose|k: int| 0 <= k < db.users[u].teams.len() && db.users[u].teams[k] == id;
                assert(team_lists(db, db.users[u].teams[k], db.users[u].username));
                let t = choose|t: int|
                    #![trigger db.teams[t]]
                    0 <= t < db.teams.len() && db.teams[t].id == id && db.teams[t].members.contains(name);
                lemma_team_at_own_index(db, t);
            }
            if db.has_team(id) && db.teams[db.team_index(id)].members.contains(name) {
                let t = db.team_index(id);
                let k = choose|k: int|
                    0 <= k < db.teams[t].members.len() && db.teams[t].members[k] == name;
                assert(account_lists(db, db.teams[t].members[k], db.teams[t].id));
                let u = choose|u: int|
                    #![trigger db.users[u]]
                    0 <= u < db.users.len() && db.users[u].username == name && db.users[u].teams.contains(id);
                lemma_user_at_own_index(db, u);
            }
        }
        assert(membership_invariant(db));
    }
    if membership_invariant(db) {
        assert forall|u: int, k: int|
            0 <= u < db.users.len() && 0 <= k < db.users[u].teams.len() implies team_lists(
            db,
            #[trigger] db.users[u].teams[k],
            db.users[u].username,
        ) by {
            let name = db.users[u].username;
            let id = db.users[u].teams[k];
            lemma_user_at_own_index(db, u);
            lemma_first_index(db.users, user_named(name));
            lemma_contains_index(db.users[u].teams, k);
            assert(user_team_ids(db, name).contains(id));
            lemma_first_index(db.teams, team_with_id(id));
            let t = db.team_index(id);
            assert(db.teams[t].id == id);
        }
        assert forall|t: int, k: int|
            0 <= t < db.teams.len() && 0 <= k < db.teams[t].members.len() implies account_lists(
            db,
            #[trigger] db.teams[t].members[k],
            db.teams[t].id,
        ) by {
            let name = db.teams[t].members[k];
            let id = db.teams[t].id;
            lemma_team_at_own_index(db, t);
            lemma_first_index(db.teams, team_with_id(id));
            lemma_contains_index(db.teams[t].members, k);
            assert(db.teams[db.team_index(id)].members.contains(name));
            lemma_first_index(db.users, user_named(name));
            let u = db.user_index(name);
            assert(user_team_ids(db, name).contains(id));
            assert(db.users[u].username == name);
        }
        assert(memberships_consistent(db));
    }
}

/// Creating a team for an existing account keeps the membership invariant,
/// whether the drawn id was free or taken.
pub proof fn lemma_create_keeps_membership_invariant(
    db: DatabaseView,
    id: Seq<char>,
    team: TeamView,
    admin: Seq<char>,
)
    requires
        db.well_formed(),
        membership_invariant(db),
        is_object_id(id),
        db.has_user(admin),
    ensures
        membership_invariant(creation(db, id, team, admin).0),
{
    if !db.has_team(id) {
        lemma_membership_invariant_agrees(db);
        lemma_creation_keeps_memberships(db, id, team, admin);
        lemma_creation_keeps_invariant(db, id, team, admin);
        lemma_membership_invariant_agrees(created(db, id, team, admin));
    }
}

/// Inviting an existing account into a team keeps the membership invariant.
pub proof fn lemma_invite_keeps_membership_invariant(
    db: DatabaseView,
    inviter: Seq<char>,
    team_name: Seq<char>,
    invited: Seq<char>,
)
    requires
        db.well_formed(),
        membership_invariant(db),
        team_lookup_found(db, inviter, team_name),
        db.has_user(invited),
    ensures
        membership_invariant(invitation(db, inviter, team_name, invited).0),
{
    lemma_membership_invariant_agrees(db);
    lemma_invitation_keeps_memberships(db, inviter, team_name, invited);
    lemma_invitation_keeps_invariant(db, inviter, team_name, invited);
    lemma_membership_invariant_agrees(invitation(db, inviter, team_name, invited).0);
}

/// Leaving a team keeps the membership invariant, including when the team
/// is handed over or deleted.
pub proof fn lemma_leave_keeps_membership_invariant(db: DatabaseView, username: Seq<char>, team_name: Seq<char>)
    requires
        db.well_formed(),
        membership_invariant(db),
        team_lookup_found(db, username, team_name),
    ensures
        membership_invariant(leaving(db, username, team_name).0),
{
    lemma_membership_invariant_agrees(db);
    lemma_leaving_keeps_memberships(db, username, team_name);
    lemma_leaving_keeps_invariant(db, username, team_name);
    lemma_membership_invariant_agrees(leaving(db, username, team_name).0);
}

/// A login is accepted exactly when the account with that username exists
/// and its stored password (quotes removed) is the hash of the given
/// password; nothing else stored with the account is looked at.
pub proof fn lemma_login_checks_only_the_password(db: DatabaseView, user: UserView, u: int)
    requires
        db.well_formed(),
        0 <= u < db.users.len(),
        db.users[u].username == user.username,
    ensures
        login_accepts(db, user) <==> without_quotes(db.users[u].password) == password_hash(
            user.password,
        ),
{
    lemma_user_at_own_index(db, u);
}

/// A login is refused when no account has that username.
pub proof fn lemma_login_needs_an_account(db: DatabaseView, user: UserView)
    requires
        forall|u: int| 0 <= u < db.users.len() ==> #[trigger] db.users[u].username != user.username,
    ensures
        !login_accepts(db, user),
{
    lemma_first_index(db.users, user_named(user.username));
}

/// Storing a refresh token on any account does not change whether a login
/// is accepted: in particular a login that succeeded (and stored a fresh
/// refresh token) succeeds again with the same credentials.
pub proof fn lemma_login_ignores_refresh_tokens(db: DatabaseView, user: UserView, i: int, token: Seq<char>)
    requires
        i == -1 || 0 <= i < db.users.len(),
    ensures
        login_accepts(db.set_refresh_token_at(i, token), user) == login_accepts(db, user),
{
    let after = db.set_refresh_token_at(i, token);
    lemma_user_index_kept(db, after, user.username);
    lemma_first_index(db.users, user_named(user.username));
}

/// The listing of a user's teams has one entry per id the user's account
/// lists, and the entry at position `k` is the name and logo of the stored
/// team whose id the `k`-th listed id denotes, wherever that team is stored.
pub proof fn lemma_listing_follows_the_account(
    db: DatabaseView,
    username: Seq<char>,
    u: int,
    k: int,
    t: int,
)
    requires
        db.well_formed(),
        0 <= u < db.users.len(),
        db.users[u].username == username,
        0 <= k < db.users[u].teams.len(),
        0 <= t < db.teams.len(),
        object_id_key(db.users[u].teams[k]) == Some(db.teams[t].id),
    ensures
        listed_teams(db, username).len() == db.users[u].teams.len(),
        listed_teams(db, username)[k] == (TeamView { name: db.teams[t].name, logo: db.teams[t].logo }),
{
    lemma_user_at_own_index(db, u);
    lemma_team_at_own_index(db, t);
    assert(user_team_ids(db, username) == db.users[u].teams);
    assert(named_team(db, db.users[u].teams[k]) == db.teams[t]);
}

/// The members listing of a team has one profile per member, and the
/// profile at position `k` carries the location and picture stored on the
/// account of the `k`-th member.
pub proof fn lemma_member_profiles_follow_accounts(
    db: DatabaseView,
    team_id: Seq<char>,
    t: int,
    k: int,
    u: int,
)
    requires
        db.well_formed(),
        0 <= t < db.teams.len(),
        object_id_key(team_id) == Some(db.teams[t].id),
        0 <= k < db.teams[t].members.len(),
        0 <= u < db.users.len(),
        db.users[u].username == db.teams[t].members[k],
    ensures
        member_profiles(db, team_id).len() == db.teams[t].members.len(),
        member_profiles(db, team_id)[k] == (UserExtendedView {
            username: db.teams[t].members[k],
            location: db.users[u].location,
            picture: db.users[u].picture,
        }),
{
    lemma_team_at_own_index(db, t);
    lemma_user_at_own_index(db, u);
    assert(named_team(db, team_id) == db.teams[t]);
}

/// Setting the picture, time or country code of the account named `name`
/// sets that field on that account and leaves every other account, and the
/// teams, as they were.
pub proof fn lemma_profile_settings_touch_only_the_account(
    db: DatabaseView,
    name: Seq<char>,
    value: Seq<char>,
    j: int,
)
    requires
        db.well_formed(),
        0 <= j < db.users.len(),
    ensures
        ({
            let i = db.user_index(name);
            let p = db.set_picture_at(i, value);
            let tm = db.set_time_at(i, value);
            let c = db.set_country_code_at(i, value);
            &&& p.users.len() == db.users.len() && p.teams == db.teams
            &&& tm.users.len() == db.users.len() && tm.teams == db.teams
            &&& c.users.len() == db.users.len() && c.teams == db.teams
            &&& db.users[j].username == name ==> p.users[j] == (UserDocumentView { picture: value, ..db.users[j] })
            &&& db.users[j].username == name ==> tm.users[j] == (UserDocumentView { time: Some(value), ..db.users[j] })
            &&& db.users[j].username == name ==> c.users[j] == (UserDocumentView {
                country_code: Some(value),
                ..db.users[j]
            })
            &&& db.users[j].username != name ==> p.users[j] == db.users[j]
            &&& db.users[j].username != name ==> tm.users[j] == db.users[j]
            &&& db.users[j].username != name ==> c.users[j] == db.users[j]
        }),
{
    lemma_first_index(db.users, user_named(name));
    if db.users[j].username == name {
        lemma_user_at_own_index(db, j);
    }
}

/// The access token answered by a refresh at clock reading `now` signs in
/// the account that held the old refresh token (the store after the
/// exchange), at every time up to an hour after `now`.
pub proof fn lemma_refreshed_token_signs_in_the_holder(
    db: DatabaseView,
    token: Seq<char>,
    refresh: Seq<char>,
    access: Seq<char>,
    now: i64,
    at: i64,
)
    requires
        db.well_formed(),
        refresh_accepts(db, token),
        jwt_hs256_claims(access, token_secret()) == Some(
            (Some(username_for_token(db, token)), Some(token_expiry(now))),
        ),
        at <= token_expiry(now),
    ensures
        ({
            let holder = db.users[db.refresh_token_index(token)];
            let after = db.set_refresh_token_at(db.refresh_token_index(token), refresh);
            &&& signed_in(after, Some(access), at) == Ok::<UserView, Status>(
                stored_user(db, without_quotes(holder.username)),
            )
            &&& without_quotes(holder.username) == holder.username ==> signed_in(after, Some(access), at)
                == Ok::<UserView, Status>(
                UserView { username: holder.username, password: without_quotes(holder.password) },
            )
        }),
{
    let i = db.refresh_token_index(token);
    lemma_first_index(db.users, user_with_refresh_token(token));
    let after = db.set_refresh_token_at(i, refresh);
    let kid = without_quotes(db.users[i].username);
    assert(username_for_token(db, token) == kid);
    lemma_user_index_kept(db, after, kid);
    let k = db.user_index(kid);
    if k != -1 {
        lemma_first_index(db.users, user_named(kid));
        assert(after.users[k].username == db.users[k].username);
        assert(after.users[k].password == db.users[k].password);
    }
    assert(stored_user(after, kid) == stored_user(db, kid));
    assert(signed_in(after, Some(access), at) == claims_user(after, Some(kid), Some(token_expiry(now)), at));
    if without_quotes(db.users[i].username) == db.users[i].username {
        lemma_user_at_own_index(db, i);
        let name = db.users[i].username;
        assert(without_quotes(name) == name);
    }
}

} // verus!
