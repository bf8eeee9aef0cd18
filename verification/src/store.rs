//! The document store: the `users` and `teams` collections, their documents,
//! and the update operators the service applies to them (`$set`, `$push`,
//! `$pull`, insert, first-match find and delete).
use vstd::prelude::*;

verus! {

/// The index of the first element at or after `i` that satisfies `p`, or -1.
pub open spec fn first_from<A>(s: Seq<A>, p: spec_fn(A) -> bool, i: nat) -> int
    decreases s.len() - i,
{
    if i >= s.len() {
        -1
    } else if p(s[i as int]) {
        i as int
    } else {
        first_from(s, p, i + 1)
    }
}

/// The index of the first element that satisfies `p`, or -1 when none does.
pub open spec fn first_index<A>(s: Seq<A>, p: spec_fn(A) -> bool) -> int {
    first_from(s, p, 0)
}

/// What the first match is: either nothing matches, or the index holds a
/// match and nothing before it does.
pub proof fn lemma_first_from<A>(s: Seq<A>, p: spec_fn(A) -> bool, i: nat)
    ensures
        first_from(s, p, i) == -1 <==> (forall|j: int| i <= j < s.len() ==> !p(#[trigger] s[j])),
        first_from(s, p, i) != -1 ==> {
            &&& i <= first_from(s, p, i) < s.len()
            &&& p(s[first_from(s, p, i)])
            &&& forall|j: int| i <= j < first_from(s, p, i) ==> !p(#[trigger] s[j])
        },
    decreases s.len() - i,
{
    if i < s.len() && !p(s[i as int]) {
        lemma_first_from(s, p, i + 1);
    }
}

/// The first-match index over the whole sequence.
pub proof fn lemma_first_index<A>(s: Seq<A>, p: spec_fn(A) -> bool)
    ensures
        first_index(s, p) == -1 <==> (forall|j: int| 0 <= j < s.len() ==> !p(#[trigger] s[j])),
        first_index(s, p) != -1 ==> {
            &&& 0 <= first_index(s, p) < s.len()
            &&& p(s[first_index(s, p)])
            &&& forall|j: int| 0 <= j < first_index(s, p) ==> !p(#[trigger] s[j])
        },
{
    lemma_first_from(s, p, 0);
}

/// Two sequences whose elements agree on `p` have the same first match.
pub proof fn lemma_first_index_agree<A>(s1: Seq<A>, s2: Seq<A>, p: spec_fn(A) -> bool)
    requires
        s1.len() == s2.len(),
        forall|j: int| 0 <= j < s1.len() ==> p(#[trigger] s1[j]) == p(s2[j]),
    ensures
        first_index(s1, p) == first_index(s2, p),
{
    lemma_first_from_agree(s1, s2, p, 0);
}

proof fn lemma_first_from_agree<A>(s1: Seq<A>, s2: Seq<A>, p: spec_fn(A) -> bool, i: nat)
    requires
        s1.len() == s2.len(),
        forall|j: int| 0 <= j < s1.len() ==> p(#[trigger] s1[j]) == p(s2[j]),
    ensures
        first_from(s1, p, i) == first_from(s2, p, i),
    decreases s1.len() - i,
{
    if i < s1.len() {
        assert(p(s1[i as int]) == p(s2[i as int]));
        lemma_first_from_agree(s1, s2, p, i + 1);
    }
}

/// The views of a list of strings.
pub open spec fn texts(v: Seq<String>) -> Seq<Seq<char>> {
    v.map_values(|s: String| s@)
}

/// The view of an optional string.
pub open spec fn opt_text(o: Option<String>) -> Option<Seq<char>> {
    match o {
        Some(s) => Some(s@),
        None => None,
    }
}

/// A list with every occurrence of `x` removed (the `$pull` operator).
pub open spec fn pull(s: Seq<Seq<char>>, x: Seq<char>) -> Seq<Seq<char>> {
    s.filter(differs_from(x))
}

/// Whether a value differs from `x`.
pub open spec fn differs_from(x: Seq<char>) -> spec_fn(Seq<char>) -> bool {
    |y: Seq<char>| y != x
}

/// A document of the `users` collection.
pub struct UserDocument {
    pub username: String,
    pub password: String,
    pub refresh_token: String,
    pub location: String,
    pub picture: String,
    pub teams: Vec<String>,
    pub time: Option<String>,
    pub country_code: Option<String>,
}

pub struct UserDocumentView {
    pub username: Seq<char>,
    pub password: Seq<char>,
    pub refresh_token: Seq<char>,
    pub location: Seq<char>,
    pub picture: Seq<char>,
    pub teams: Seq<Seq<char>>,
    pub time: Option<Seq<char>>,
    pub country_code: Option<Seq<char>>,
}

impl View for UserDocument {
    type V = UserDocumentView;

    open spec fn view(&self) -> UserDocumentView {
        UserDocumentView {
            username: self.username@,
            password: self.password@,
            refresh_token: self.refresh_token@,
            location: self.location@,
            picture: self.picture@,
            teams: texts(self.teams@),
            time: opt_text(self.time),
            country_code: opt_text(self.country_code),
        }
    }
}

/// A document of the `teams` collection. `id` is the hexadecimal text of
/// the document's object id.
pub struct TeamDocument {
    pub id: String,
    pub name: String,
    pub logo: String,
    pub administrator: String,
    pub members: Vec<String>,
}

pub struct TeamDocumentView {
    pub id: Seq<char>,
    pub name: Seq<char>,
    pub logo: Seq<char>,
    pub administrator: Seq<char>,
    pub members: Seq<Seq<char>>,
}

impl View for TeamDocument {
    type V = TeamDocumentView;

    open spec fn view(&self) -> TeamDocumentView {
        TeamDocumentView {
            id: self.id@,
            name: self.name@,
            logo: self.logo@,
            administrator: self.administrator@,
            members: texts(self.members@),
        }
    }
}

/// The two collections the service keeps, in insertion order.
pub struct Database {
    pub users: Vec<UserDocument>,
    pub teams: Vec<TeamDocument>,
}

pub struct DatabaseView {
    pub users: Seq<UserDocumentView>,
    pub teams: Seq<TeamDocumentView>,
}

impl View for Database {
    type V = DatabaseView;

    open spec fn view(&self) -> DatabaseView {
        DatabaseView {
            users: self.users@.map_values(|u: UserDocument| u@),
            teams: self.teams@.map_values(|t: TeamDocument| t@),
        }
    }
}

pub open spec fn user_named(name: Seq<char>) -> spec_fn(UserDocumentView) -> bool {
    |u: UserDocumentView| u.username == name
}

pub open spec fn user_with_refresh_token(token: Seq<char>) -> spec_fn(UserDocumentView) -> bool {
    |u: UserDocumentView| u.refresh_token == token
}

pub open spec fn team_with_id(id: Seq<char>) -> spec_fn(TeamDocumentView) -> bool {
    |t: TeamDocumentView| t.id == id
}

pub open spec fn team_with_id_and_name(id: Seq<char>, name: Seq<char>) -> spec_fn(
    TeamDocumentView,
) -> bool {
    |t: TeamDocumentView| t.id == id && t.name == name
}

impl UserDocumentView {
    pub open spec fn with_teams(self, teams: Seq<Seq<char>>) -> UserDocumentView {
        UserDocumentView { teams, ..self }
    }

    pub open spec fn with_refresh_token(self, token: Seq<char>) -> UserDocumentView {
        UserDocumentView { refresh_token: token, ..self }
    }

    pub open spec fn with_picture(self, picture: Seq<char>) -> UserDocumentView {
        UserDocumentView { picture, ..self }
    }

    pub open spec fn with_time(self, time: Seq<char>) -> UserDocumentView {
        UserDocumentView { time: Some(time), ..self }
    }

    pub open spec fn with_country_code(self, code: Seq<char>) -> UserDocumentView {
        UserDocumentView { country_code: Some(code), ..self }
    }
}

impl TeamDocumentView {
    pub open spec fn with_members(self, members: Seq<Seq<char>>) -> TeamDocumentView {
        TeamDocumentView { members, ..self }
    }

    pub open spec fn with_administrator(self, administrator: Seq<char>) -> TeamDocumentView {
        TeamDocumentView { administrator, ..self }
    }
}

impl DatabaseView {
    /// The position of the first user document with this username, or -1.
    pub open spec fn user_index(self, name: Seq<char>) -> int {
        first_index(self.users, user_named(name))
    }

    /// The position of the first user document with this refresh token, or -1.
    pub open spec fn refresh_token_index(self, token: Seq<char>) -> int {
        first_index(self.users, user_with_refresh_token(token))
    }

    /// The position of the first team document with this id, or -1.
    pub open spec fn team_index(self, id: Seq<char>) -> int {
        first_index(self.teams, team_with_id(id))
    }

    pub open spec fn has_user(self, name: Seq<char>) -> bool {
        self.user_index(name) != -1
    }

    pub open spec fn has_team(self, id: Seq<char>) -> bool {
        self.team_index(id) != -1
    }

    pub open spec fn set_user(self, i: int, u: UserDocumentView) -> DatabaseView {
        DatabaseView { users: self.users.update(i, u), ..self }
    }

    pub open spec fn set_team(self, i: int, t: TeamDocumentView) -> DatabaseView {
        DatabaseView { teams: self.teams.update(i, t), ..self }
    }

    /// `$set` of the refresh token of the user at `i`; no change when `i` is -1.
    pub open spec fn set_refresh_token_at(self, i: int, token: Seq<char>) -> DatabaseView {
        if i == -1 {
            self
        } else {
            self.set_user(i, self.users[i].with_refresh_token(token))
        }
    }

    /// `$set` of the picture of the user at `i`; no change when `i` is -1.
    pub open spec fn set_picture_at(self, i: int, picture: Seq<char>) -> DatabaseView {
        if i == -1 {
            self
        } else {
            self.set_user(i, self.users[i].with_picture(picture))
        }
    }

    /// `$set` of the time of the user at `i`; no change when `i` is -1.
    pub open spec fn set_time_at(self, i: int, time: Seq<char>) -> DatabaseView {
        if i == -1 {
            self
        } else {
            self.set_user(i, self.users[i].with_time(time))
        }
    }

    /// `$set` of the country code of the user at `i`; no change when `i` is -1.
    pub open spec fn set_country_code_at(self, i: int, code: Seq<char>) -> DatabaseView {
        if i == -1 {
            self
        } else {
            self.set_user(i, self.users[i].with_country_code(code))
        }
    }

    /// `$push` onto the teams of the user at `i`; no change when `i` is -1.
    pub open spec fn push_user_team_at(self, i: int, team_id: Seq<char>) -> DatabaseView {
        if i == -1 {
            self
        } else {
            self.set_user(i, self.users[i].with_teams(self.users[i].teams.push(team_id)))
        }
    }

    /// `$pull` from the teams of the user at `i`; no change when `i` is -1.
    pub open spec fn pull_user_team_at(self, i: int, team_id: Seq<char>) -> DatabaseView {
        if i == -1 {
            self
        } else {
            self.set_user(i, self.users[i].with_teams(pull(self.users[i].teams, team_id)))
        }
    }

    /// `$push` onto the members of the team at `i`; no change when `i` is -1.
    pub open spec fn push_member_at(self, i: int, username: Seq<char>) -> DatabaseView {
        if i == -1 {
            self
        } else {
            self.set_team(i, self.teams[i].with_members(self.teams[i].members.push(username)))
        }
    }

    /// `$pull` from the members of the team at `i`; no change when `i` is -1.
    pub open spec fn pull_member_at(self, i: int, username: Seq<char>) -> DatabaseView {
        if i == -1 {
            self
        } else {
            self.set_team(i, self.teams[i].with_members(pull(self.teams[i].members, username)))
        }
    }
}

impl DatabaseView {
    /// No two accounts share a username.
    pub open spec fn usernames_unique(self) -> bool {
        forall|i: int, j: int|
            0 <= i < j < self.users.len() ==> #[trigger] self.users[i].username
                != #[trigger] self.users[j].username
    }

    /// No two teams share an id, and every team id is a stored object id.
    pub open spec fn team_ids_sound(self) -> bool {
        &&& forall|i: int, j: int|
            0 <= i < j < self.teams.len() ==> #[trigger] self.teams[i].id != #[trigger] self.teams[j].id
        &&& forall|i: int| 0 <= i < self.teams.len() ==> is_object_id(#[trigger] self.teams[i].id)
    }

    /// The invariant the service keeps: unique usernames, unique and
    /// well-formed team ids.
    pub open spec fn well_formed(self) -> bool {
        self.usernames_unique() && self.team_ids_sound()
    }
}

impl Database {
    /// An empty store.
    pub fn new() -> (db: Database)
        ensures
            db@.users == Seq::<UserDocumentView>::empty(),
            db@.teams == Seq::<TeamDocumentView>::empty(),
    {
        let db = Database { users: Vec::new(), teams: Vec::new() };
        assert(db@.users =~= Seq::<UserDocumentView>::empty());
        assert(db@.teams =~= Seq::<TeamDocumentView>::empty());
        db
    }

    /// The position of the first user document with this username.
    pub fn find_user(&self, name: &str) -> (r: Option<usize>)
        ensures
            match r {
                Some(i) => i as int == self@.user_index(name@) && i < self.users@.len(),
                None => self@.user_index(name@) == -1,
            },
    {
        let n = self.users.len();
        let mut i: usize = 0;
        while i < n
            invariant
                n == self.users@.len(),
                i <= n,
                self@.user_index(name@) == first_from(self@.users, user_named(name@), i as nat),
            decreases n - i,
        {
            if same_string(&self.users[i].username, name) {
                return Some(i);
            }
            i = i + 1;
        }
        None
    }

    /// The position of the first user document with this refresh token.
    pub fn find_refresh_token(&self, token: &str) -> (r: Option<usize>)
        ensures
            match r {
                Some(i) => i as int == self@.refresh_token_index(token@) && i < self.users@.len(),
                None => self@.refresh_token_index(token@) == -1,
            },
    {
        let n = self.users.len();
        let mut i: usize = 0;
        while i < n
            invariant
                n == self.users@.len(),
                i <= n,
                self@.refresh_token_index(token@) == first_from(
                    self@.users,
                    user_with_refresh_token(token@),
                    i as nat,
                ),
            decreases n - i,
        {
            if same_string(&self.users[i].refresh_token, token) {
                return Some(i);
            }
            i = i + 1;
        }
        None
    }

    /// The position of the first team document with this id.
    pub fn find_team(&self, id: &str) -> (r: Option<usize>)
        ensures
            match r {
                Some(i) => i as int == self@.team_index(id@) && i < self.teams@.len(),
                None => self@.team_index(id@) == -1,
            },
    {
        let n = self.teams.len();
        let mut i: usize = 0;
        while i < n
            invariant
                n == self.teams@.len(),
                i <= n,
                self@.team_index(id@) == first_from(self@.teams, team_with_id(id@), i as nat),
            decreases n - i,
        {
            if same_string(&self.teams[i].id, id) {
                return Some(i);
            }
            i = i + 1;
        }
        None
    }

    /// Whether some team document has this id and this name.
    pub fn has_team_named(&self, id: &str, name: &str) -> (r: bool)
        ensures
            r == (first_index(self@.teams, team_with_id_and_name(id@, name@)) != -1),
    {
        let n = self.teams.len();
        let mut i: usize = 0;
        while i < n
            invariant
                n == self.teams@.len(),
                i <= n,
                first_index(self@.teams, team_with_id_and_name(id@, name@)) == first_from(
                    self@.teams,
                    team_with_id_and_name(id@, name@),
                    i as nat,
                ),
            decreases n - i,
        {
            if same_string(&self.teams[i].id, id) && same_string(&self.teams[i].name, name) {
                return true;
            }
            i = i + 1;
        }
        false
    }
}

/// The list with every string equal to `x` left out.
pub fn pull_strings(v: &Vec<String>, x: &str) -> (r: Vec<String>)
    ensures
        texts(r@) == pull(texts(v@), x@),
{
    let mut r: Vec<String> = Vec::new();
    let n = v.len();
    let ghost p = differs_from(x@);
    for i in 0..n
        invariant
            n == v@.len(),
            p == differs_from(x@),
            texts(r@) == texts(v@).take(i as int).filter(p),
    {
        proof {
            reveal(Seq::filter);
            assert(texts(v@).take(i + 1).drop_last() =~= texts(v@).take(i as int));
            assert(texts(v@).take(i + 1).last() == v@[i as int]@);
        }
        if !same_string(&v[i], x) {
            let ghost before = r@;
            r.push(v[i].clone());
            proof {
                assert(texts(r@) =~= texts(before).push(v@[i as int]@));
            }
        }
    }
    proof {
        assert(texts(v@).take(n as int) =~= texts(v@));
    }
    r
}

impl Database {
    fn take_user(&mut self, i: usize) -> (u: UserDocument)
        requires
            i < old(self).users@.len(),
        ensures
            u@ == old(self)@.users[i as int],
            final(self)@.users == old(self)@.users.remove(i as int),
            final(self)@.teams == old(self)@.teams,
    {
        let u = self.users.remove(i);
        proof {
            assert(self@.users =~= old(self)@.users.remove(i as int));
        }
        u
    }

    fn put_user(&mut self, i: usize, u: UserDocument)
        requires
            i <= old(self)@.users.len(),
        ensures
            final(self)@.users == old(self)@.users.insert(i as int, u@),
            final(self)@.teams == old(self)@.teams,
    {
        self.users.insert(i, u);
        proof {
            assert(self@.users =~= old(self)@.users.insert(i as int, u@));
        }
    }

    fn take_team(&mut self, i: usize) -> (t: TeamDocument)
        requires
            i < old(self).teams@.len(),
        ensures
            t@ == old(self)@.teams[i as int],
            final(self)@.teams == old(self)@.teams.remove(i as int),
            final(self)@.users == old(self)@.users,
    {
        let t = self.teams.remove(i);
        proof {
            assert(self@.teams =~= old(self)@.teams.remove(i as int));
        }
        t
    }

    fn put_team(&mut self, i: usize, t: TeamDocument)
        requires
            i <= old(self)@.teams.len(),
        ensures
            final(self)@.teams == old(self)@.teams.insert(i as int, t@),
            final(self)@.users == old(self)@.users,
    {
        self.teams.insert(i, t);
        proof {
            assert(self@.teams =~= old(self)@.teams.insert(i as int, t@));
        }
    }

    /// Replaces the user document at `i`.
    pub fn replace_user(&mut self, i: usize, u: UserDocument)
        requires
            i < old(self).users@.len(),
        ensures
            final(self)@ == old(self)@.set_user(i as int, u@),
    {
        let _ = self.take_user(i);
        self.put_user(i, u);
        proof {
            assert(self@.users =~= old(self)@.users.update(i as int, u@));
        }
    }

    /// Replaces the team document at `i`.
    pub fn replace_team(&mut self, i: usize, t: TeamDocument)
        requires
            i < old(self).teams@.len(),
        ensures
            final(self)@ == old(self)@.set_team(i as int, t@),
    {
        let _ = self.take_team(i);
        self.put_team(i, t);
        proof {
            assert(self@.teams =~= old(self)@.teams.update(i as int, t@));
        }
    }

    /// Adds a user document at the end of the collection.
    pub fn insert_user(&mut self, u: UserDocument)
        ensures
            final(self)@.users == old(self)@.users.push(u@),
            final(self)@.teams == old(self)@.teams,
    {
        self.users.push(u);
        proof {
            assert(self@.users =~= old(self)@.users.push(u@));
        }
    }

    /// Adds a team document at the end of the collection.
    pub fn insert_team(&mut self, t: TeamDocument)
        ensures
            final(self)@.teams == old(self)@.teams.push(t@),
            final(self)@.users == old(self)@.users,
    {
        self.teams.push(t);
        proof {
            assert(self@.teams =~= old(self)@.teams.push(t@));
        }
    }

    /// Deletes the user document at `i`.
    pub fn delete_user_at(&mut self, i: usize)
        requires
            i < old(self).users@.len(),
        ensures
            final(self)@.users == old(self)@.users.remove(i as int),
            final(self)@.teams == old(self)@.teams,
    {
        let _ = self.take_user(i);
    }

    /// Deletes the team document at `i`.
    pub fn delete_team_at(&mut self, i: usize)
        requires
            i < old(self).teams@.len(),
        ensures
            final(self)@.teams == old(self)@.teams.remove(i as int),
            final(self)@.users == old(self)@.users,
    {
        let _ = self.take_team(i);
    }

    /// `$push` of a team id onto the `teams` list of the user at `i`.
    pub fn push_user_team(&mut self, i: usize, team_id: String)
        requires
            i < old(self).users@.len(),
        ensures
            final(self)@ == old(self)@.set_user(
                i as int,
                old(self)@.users[i as int].with_teams(old(self)@.users[i as int].teams.push(team_id@)),
            ),
    {
        let mut u = self.take_user(i);
        let ghost before = u.teams@;
        u.teams.push(team_id);
        proof {
            assert(texts(u.teams@) =~= texts(before).push(team_id@));
        }
        self.put_user(i, u);
        proof {
            assert(self@.users =~= old(self)@.users.update(
                i as int,
                old(self)@.users[i as int].with_teams(old(self)@.users[i as int].teams.push(team_id@)),
            ));
        }
    }

    /// `$pull` of a team id from the `teams` list of the user at `i`.
    pub fn pull_user_team(&mut self, i: usize, team_id: &str)
        requires
            i < old(self).users@.len(),
        ensures
            final(self)@ == old(self)@.set_user(
                i as int,
                old(self)@.users[i as int].with_teams(pull(old(self)@.users[i as int].teams, team_id@)),
            ),
    {
        let mut u = self.take_user(i);
        u.teams = pull_strings(&u.teams, team_id);
        self.put_user(i, u);
        proof {
            assert(self@.users =~= old(self)@.users.update(
                i as int,
                old(self)@.users[i as int].with_teams(pull(old(self)@.users[i as int].teams, team_id@)),
            ));
        }
    }

    /// `$set` of the refresh token of the user at `i`.
    pub fn set_user_refresh_token(&mut self, i: usize, token: String)
        requires
            i < old(self).users@.len(),
        ensures
            final(self)@ == old(self)@.set_user(
                i as int,
                old(self)@.users[i as int].with_refresh_token(token@),
            ),
    {
        let mut u = self.take_user(i);
        u.refresh_token = token;
        self.put_user(i, u);
        proof {
            assert(self@.users =~= old(self)@.users.update(
                i as int,
                old(self)@.users[i as int].with_refresh_token(token@),
            ));
        }
    }

    /// `$set` of the picture of the user at `i`.
    pub fn set_user_picture(&mut self, i: usize, picture: String)
        requires
            i < old(self).users@.len(),
        ensures
            final(self)@ == old(self)@.set_user(
                i as int,
                old(self)@.users[i as int].with_picture(picture@),
            ),
    {
        let mut u = self.take_user(i);
        u.picture = picture;
        self.put_user(i, u);
        proof {
            assert(self@.users =~= old(self)@.users.update(
                i as int,
                old(self)@.users[i as int].with_picture(picture@),
            ));
        }
    }

    /// `$set` of the time of the user at `i`.
    pub fn set_user_time(&mut self, i: usize, time: String)
        requires
            i < old(self).users@.len(),
        ensures
            final(self)@ == old(self)@.set_user(
                i as int,
                old(self)@.users[i as int].with_time(time@),
            ),
    {
        let mut u = self.take_user(i);
        u.time = Some(time);
        self.put_user(i, u);
        proof {
            assert(self@.users =~= old(self)@.users.update(
                i as int,
                old(self)@.users[i as int].with_time(time@),
            ));
        }
    }

    /// `$set` of the country code of the user at `i`.
    pub fn set_user_country_code(&mut self, i: usize, code: String)
        requires
            i < old(self).users@.len(),
        ensures
            final(self)@ == old(self)@.set_user(
                i as int,
                old(self)@.users[i as int].with_country_code(code@),
            ),
    {
        let mut u = self.take_user(i);
        u.country_code = Some(code);
        self.put_user(i, u);
        proof {
            assert(self@.users =~= old(self)@.users.update(
                i as int,
                old(self)@.users[i as int].with_country_code(code@),
            ));
        }
    }

    /// `$push` of a username onto the `members` list of the team at `i`.
    pub fn push_team_member(&mut self, i: usize, username: String)
        requires
            i < old(self).teams@.len(),
        ensures
            final(self)@ == old(self)@.set_team(
                i as int,
                old(self)@.teams[i as int].with_members(old(self)@.teams[i as int].members.push(username@)),
            ),
    {
        let mut t = self.take_team(i);
        let ghost before = t.members@;
        t.members.push(username);
        proof {
            assert(texts(t.members@) =~= texts(before).push(username@));
        }
        self.put_team(i, t);
        proof {
            assert(self@.teams =~= old(self)@.teams.update(
                i as int,
                old(self)@.teams[i as int].with_members(old(self)@.teams[i as int].members.push(username@)),
            ));
        }
    }

    /// `$pull` of a username from the `members` list of the team at `i`.
    pub fn pull_team_member(&mut self, i: usize, username: &str)
        requires
            i < old(self).teams@.len(),
        ensures
            final(self)@ == old(self)@.set_team(
                i as int,
                old(self)@.teams[i as int].with_members(pull(old(self)@.teams[i as int].members, username@)),
            ),
    {
        let mut t = self.take_team(i);
        t.members = pull_strings(&t.members, username);
        self.put_team(i, t);
        proof {
            assert(self@.teams =~= old(self)@.teams.update(
                i as int,
                old(self)@.teams[i as int].with_members(pull(old(self)@.teams[i as int].members, username@)),
            ));
        }
    }

    /// `$set` of the administrator of the team at `i`.
    pub fn set_team_administrator(&mut self, i: usize, username: String)
        requires
            i < old(self).teams@.len(),
        ensures
            final(self)@ == old(self)@.set_team(
                i as int,
                old(self)@.teams[i as int].with_administrator(username@),
            ),
    {
        let mut t = self.take_team(i);
        t.administrator = username;
        self.put_team(i, t);
        proof {
            assert(self@.teams =~= old(self)@.teams.update(
                i as int,
                old(self)@.teams[i as int].with_administrator(username@),
            ));
        }
    }
}

pub open spec fn is_hex_char(c: char) -> bool {
    ('0' <= c && c <= '9') || ('a' <= c && c <= 'f') || ('A' <= c && c <= 'F')
}

pub open spec fn is_lower_hex_char(c: char) -> bool {
    ('0' <= c && c <= '9') || ('a' <= c && c <= 'f')
}

pub open spec fn lower_hex(c: char) -> char {
    if 'A' <= c && c <= 'F' {
        ((c as int) + 32) as char
    } else {
        c
    }
}

/// The text of an object id as it is stored: 24 lowercase hexadecimal digits.
pub open spec fn is_object_id(s: Seq<char>) -> bool {
    s.len() == 24 && forall|i: int| 0 <= i < 24 ==> is_lower_hex_char(#[trigger] s[i])
}

/// The object id that a text denotes, in stored form: the text must be 24
/// hexadecimal digits (of either case); the id compares as lowercase.
pub open spec fn object_id_key(s: Seq<char>) -> Option<Seq<char>> {
    if s.len() == 24 && forall|i: int| 0 <= i < 24 ==> is_hex_char(#[trigger] s[i]) {
        Some(s.map_values(|c: char| lower_hex(c)))
    } else {
        None
    }
}

/// A stored object id denotes itself.
pub proof fn lemma_object_id_key_of_stored(s: Seq<char>)
    requires
        is_object_id(s),
    ensures
        object_id_key(s) == Some(s),
{
    assert(forall|i: int| 0 <= i < 24 ==> is_hex_char(#[trigger] s[i]));
    assert(s.map_values(|c: char| lower_hex(c)) =~= s);
}

/// Reads the object id that a text denotes; `None` when the text is not
/// 24 hexadecimal digits.
pub fn parse_object_id(s: &str) -> (r: Option<String>)
    ensures
        opt_text(r) == object_id_key(s@),
{
    let cs = crate::text::chars_of(s);
    if cs.len() != 24 {
        return None;
    }
    let mut out = String::new();
    for i in 0..24
        invariant
            cs@ == s@,
            cs@.len() == 24,
            out@.len() == i,
            forall|k: int| 0 <= k < i ==> is_hex_char(#[trigger] cs@[k]),
            forall|k: int| 0 <= k < i ==> out@[k] == lower_hex(#[trigger] cs@[k]),
    {
        let c = cs[i];
        if ('0' <= c && c <= '9') || ('a' <= c && c <= 'f') {
            crate::text::push_char(&mut out, c);
        } else if 'A' <= c && c <= 'F' {
            let lowered = ((c as u32) + 32) as u8 as char;
            proof {
                assert(lowered == lower_hex(c));
            }
            crate::text::push_char(&mut out, lowered);
        } else {
            return None;
        }
    }
    proof {
        assert(out@ =~= s@.map_values(|c: char| lower_hex(c)));
    }
    Some(out)
}

/// Trusted: wraps `bson::oid::ObjectId::new` followed by `ObjectId::to_hex`.
/// The new id is built from the clock, the process and a counter, so
/// nothing ties it to earlier ids; what the source shows of every outcome is
/// that `to_hex` writes the 12 bytes as 24 lowercase hexadecimal digits.
#[verifier::external_body]
pub(crate) fn new_object_id() -> (r: String)
    ensures
        is_object_id(r@),
{
    bson::oid::ObjectId::new().to_hex()
}

/// Whether a stored string and a slice hold the same text.
pub fn same_string(a: &String, b: &str) -> (r: bool)
    ensures
        r == (a@ == b@),
{
    crate::text::same_text(a.as_str(), b)
}

} // verus!
