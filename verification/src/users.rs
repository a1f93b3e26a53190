use vstd::prelude::*;
use crate::db::{Database, DatabaseView};
use crate::errors::ApiError;
use crate::outside::{bcrypt_verify, hash_password, verify_password};
use crate::roles::Role;
use crate::seqs::{any, first, lemma_first, lemma_position, position};

verus! {

/// A user of the platform. `birth_date` counts days from the common era,
/// `created_at` microseconds since 1970-01-01 00:00:00; `password` holds a
/// bcrypt hash.
#[derive(Debug, PartialEq, Eq)]
pub struct User {
    pub user_id: String,
    pub fullname: String,
    pub profile_photo: String,
    pub email: String,
    pub password: String,
    pub birth_place: String,
    pub birth_date: i32,
    pub bio: String,
    pub status: String,
    pub created_at: i64,
}

/// The mathematical value of a [`User`].
pub ghost struct UserView {
    pub user_id: Seq<char>,
    pub fullname: Seq<char>,
    pub profile_photo: Seq<char>,
    pub email: Seq<char>,
    pub password: Seq<char>,
    pub birth_place: Seq<char>,
    pub birth_date: i32,
    pub bio: Seq<char>,
    pub status: Seq<char>,
    pub created_at: i64,
}

impl UserView {
    /// The role that the user's status names.
    pub open spec fn role(self) -> Option<Role> {
        Role::parse(self.status)
    }

    pub open spec fn is_student(self) -> bool {
        self.status == "student"@
    }

    pub open spec fn is_teacher(self) -> bool {
        self.status == "teacher"@
    }

    pub open spec fn is_admin(self) -> bool {
        self.status == "admin"@
    }

    /// The same user with another password hash.
    pub open spec fn with_password(self, hash: Seq<char>) -> UserView {
        UserView { password: hash, ..self }
    }

    /// The user after a profile update: name, photo, address, biography and
    /// birth data come from `update`, everything else stays.
    pub open spec fn with_profile(self, update: UserView) -> UserView {
        UserView {
            fullname: update.fullname,
            profile_photo: update.profile_photo,
            email: update.email,
            bio: update.bio,
            birth_place: update.birth_place,
            birth_date: update.birth_date,
            ..self
        }
    }

    /// What other users may see of this one.
    pub open spec fn summary(self) -> ResponseUserView {
        ResponseUserView {
            user_id: self.user_id,
            fullname: self.fullname,
            profile_photo: self.profile_photo,
        }
    }
}

impl View for User {
    type V = UserView;

    open spec fn view(&self) -> UserView {
        UserView {
            user_id: self.user_id@,
            fullname: self.fullname@,
            profile_photo: self.profile_photo@,
            email: self.email@,
            password: self.password@,
            birth_place: self.birth_place@,
            birth_date: self.birth_date,
            bio: self.bio@,
            status: self.status@,
            created_at: self.created_at,
        }
    }
}

impl DeepView for User {
    type V = UserView;

    open spec fn deep_view(&self) -> UserView {
        self@
    }
}

impl Clone for User {
    fn clone(&self) -> (r: Self)
        ensures
            r == *self,
    {
        User {
            user_id: self.user_id.clone(),
            fullname: self.fullname.clone(),
            profile_photo: self.profile_photo.clone(),
            email: self.email.clone(),
            password: self.password.clone(),
            birth_place: self.birth_place.clone(),
            birth_date: self.birth_date,
            bio: self.bio.clone(),
            status: self.status.clone(),
            created_at: self.created_at,
        }
    }
}

impl User {
    pub fn is_admin(&self) -> (r: bool)
        ensures
            r == self@.is_admin(),
    {
        self.status == "admin".to_owned()
    }

    pub fn is_teacher(&self) -> (r: bool)
        ensures
            r == self@.is_teacher(),
    {
        self.status == "teacher".to_owned()
    }

    pub fn is_student(&self) -> (r: bool)
        ensures
            r == self@.is_student(),
    {
        self.status == "student".to_owned()
    }
}

/// The public-safe summary of a user: identity, display name and photo,
/// never the password hash or the address.
#[derive(Debug, PartialEq, Eq)]
pub struct ResponseUser {
    pub user_id: String,
    pub fullname: String,
    pub profile_photo: String,
}

/// The mathematical value of a [`ResponseUser`].
pub ghost struct ResponseUserView {
    pub user_id: Seq<char>,
    pub fullname: Seq<char>,
    pub profile_photo: Seq<char>,
}

impl View for ResponseUser {
    type V = ResponseUserView;

    open spec fn view(&self) -> ResponseUserView {
        ResponseUserView {
            user_id: self.user_id@,
            fullname: self.fullname@,
            profile_photo: self.profile_photo@,
        }
    }
}

impl DeepView for ResponseUser {
    type V = ResponseUserView;

    open spec fn deep_view(&self) -> ResponseUserView {
        self@
    }
}

impl Clone for ResponseUser {
    fn clone(&self) -> (r: Self)
        ensures
            r == *self,
    {
        ResponseUser {
            user_id: self.user_id.clone(),
            fullname: self.fullname.clone(),
            profile_photo: self.profile_photo.clone(),
        }
    }
}

impl ResponseUser {
    /// The summary of `user`.
    pub fn from(user: &User) -> (r: ResponseUser)
        ensures
            r@ == user@.summary(),
    {
        ResponseUser {
            user_id: user.user_id.clone(),
            fullname: user.fullname.clone(),
            profile_photo: user.profile_photo.clone(),
        }
    }
}

/// What a sign-up form carries. `file_name` names the uploaded photo, if
/// there is one; `birth_date` counts days from the common era.
#[derive(Debug, PartialEq, Eq)]
pub struct InsertableUser {
    pub user_id: String,
    pub fullname: String,
    pub email: String,
    pub password: String,
    pub birth_place: String,
    pub birth_date: i32,
    pub bio: String,
    pub status: String,
    pub file_name: Option<String>,
}

impl InsertableUser {
    /// The user that the form describes, created at `created_at`: the photo
    /// is the one the form names, or none (the empty text).
    pub fn into_user(self, created_at: i64) -> (r: User)
        ensures
            r@ == (UserView {
                user_id: self.user_id@,
                fullname: self.fullname@,
                profile_photo: match self.file_name {
                    Some(name) => name@,
                    None => Seq::empty(),
                },
                email: self.email@,
                password: self.password@,
                birth_place: self.birth_place@,
                birth_date: self.birth_date,
                bio: self.bio@,
                status: self.status@,
                created_at,
            }),
    {
        User {
            user_id: self.user_id,
            fullname: self.fullname,
            profile_photo: match self.file_name {
                Some(name) => name,
                None => String::new(),
            },
            email: self.email,
            password: self.password,
            birth_place: self.birth_place,
            birth_date: self.birth_date,
            bio: self.bio,
            status: self.status,
            created_at,
        }
    }
}

/// What a profile form carries. `file_name` names the newly uploaded photo,
/// if there is one.
#[derive(Debug, PartialEq, Eq)]
pub struct UpdatableUser {
    pub fullname: String,
    pub email: String,
    pub birth_place: String,
    pub birth_date: i32,
    pub bio: String,
    pub file_name: Option<String>,
}

impl UpdatableUser {
    /// The user `current` with the profile of the form: the photo is the one
    /// the form names, or stays where it names none.
    pub fn onto(self, current: &User) -> (r: User)
        ensures
            r@ == (UserView {
                fullname: self.fullname@,
                profile_photo: match self.file_name {
                    Some(name) => name@,
                    None => current@.profile_photo,
                },
                email: self.email@,
                birth_place: self.birth_place@,
                birth_date: self.birth_date,
                bio: self.bio@,
                ..current@
            }),
    {
        User {
            user_id: current.user_id.clone(),
            fullname: self.fullname,
            profile_photo: match self.file_name {
                Some(name) => name,
                None => current.profile_photo.clone(),
            },
            email: self.email,
            password: current.password.clone(),
            birth_place: self.birth_place,
            birth_date: self.birth_date,
            bio: self.bio,
            status: current.status.clone(),
            created_at: current.created_at,
        }
    }
}

/// What a user gives to change the password: the old one and the new one.
#[derive(Debug, PartialEq, Eq)]
pub struct PasswordChange<'a> {
    pub user_id: &'a str,
    pub password: &'a str,
    pub new_password: &'a str,
}

/// The users with the identity `id`.
pub open spec fn with_user_id(id: Seq<char>) -> spec_fn(UserView) -> bool {
    |u: UserView| u.user_id == id
}

/// The users with the address `email`.
pub open spec fn with_email(email: Seq<char>) -> spec_fn(UserView) -> bool {
    |u: UserView| u.email == email
}

/// The table with the password hash `hash` on every row of user `id`.
pub open spec fn repassworded(users: Seq<UserView>, id: Seq<char>, hash: Seq<char>) -> Seq<UserView> {
    users.map_values(
        |u: UserView|
            if u.user_id == id {
                u.with_password(hash)
            } else {
                u
            },
    )
}

/// The table with the profile of `update` on every row of user `id`.
pub open spec fn reprofiled(users: Seq<UserView>, id: Seq<char>, update: UserView) -> Seq<UserView> {
    users.map_values(
        |u: UserView|
            if u.user_id == id {
                u.with_profile(update)
            } else {
                u
            },
    )
}

/// The index of the first user with the identity `uid`.
pub fn find_user_index(users: &Vec<User>, uid: &String) -> (r: Option<usize>)
    ensures
        match r {
            Some(i) => i < users.len() && i == position(users.deep_view(), with_user_id(uid@), 0),
            None => position(users.deep_view(), with_user_id(uid@), 0) == users.len(),
        },
        r is Some <==> any(users.deep_view(), with_user_id(uid@)),
{
    let ghost rows = users.deep_view();
    let ghost hit = with_user_id(uid@);
    proof {
        lemma_first(rows, hit);
    }
    let mut i: usize = 0;
    while i < users.len()
        invariant
            i <= users.len(),
            rows == users.deep_view(),
            hit == with_user_id(uid@),
            position(rows, hit, 0) == position(rows, hit, i as int),
        decreases users.len() - i,
    {
        if users[i].user_id == *uid {
            return Some(i);
        }
        i = i + 1;
    }
    None
}

/// The index of the first user with the address `email`.
pub fn find_email_index(users: &Vec<User>, email: &String) -> (r: Option<usize>)
    ensures
        match r {
            Some(i) => i < users.len() && i == position(users.deep_view(), with_email(email@), 0),
            None => position(users.deep_view(), with_email(email@), 0) == users.len(),
        },
{
    let ghost rows = users.deep_view();
    let ghost hit = with_email(email@);
    let mut i: usize = 0;
    while i < users.len()
        invariant
            i <= users.len(),
            rows == users.deep_view(),
            hit == with_email(email@),
            position(rows, hit, 0) == position(rows, hit, i as int),
        decreases users.len() - i,
    {
        if users[i].email == *email {
            return Some(i);
        }
        i = i + 1;
    }
    None
}

impl User {
    /// The user with the identity `uid`; `NotFound` where there is none.
    pub fn find_user(uid: &String, connection: &Database) -> (r: Result<User, ApiError>)
        ensures
            match first(connection@.users, with_user_id(uid@)) {
                Some(u) => r is Ok && r->Ok_0@ == u,
                None => r == Err::<User, ApiError>(ApiError::NotFound),
            },
    {
        match find_user_index(&connection.users, uid) {
            Some(i) => Ok(connection.users[i].clone()),
            None => Err(ApiError::NotFound),
        }
    }

    /// Hands the user on where the password was accepted (`matching` is
    /// `Some(true)`), and nobody where it was refused or could not be
    /// compared.
    pub fn grant(user: User, matching: Option<bool>) -> (r: Option<User>)
        ensures
            r == if matching == Some(true) {
                Some(user)
            } else {
                None::<User>
            },
    {
        match matching {
            Some(true) => Some(user),
            _ => None,
        }
    }

    /// The user `key_`, where there is one and bcrypt accepts `password_`
    /// against the stored hash.
    pub fn get_by_key(key_: &String, password_: String, connection: &Database) -> (r: Option<User>)
        ensures
            match first(connection@.users, with_user_id(key_@)) {
                Some(u) => if bcrypt_verify(password_@, u.password) == Some(true) {
                    r is Some && r->Some_0@ == u
                } else {
                    r is None
                },
                None => r is None,
            },
    {
        match User::find_user(key_, connection) {
            Ok(user) => {
                let matching = verify_password(password_.as_str(), user.password.as_str());
                User::grant(user, matching)
            },
            Err(_) => None,
        }
    }

    /// The role of user `key_`, read from the status text.
    pub fn get_role(key_: &String, connection: &Database) -> (r: Result<Role, String>)
        ensures
            match first(connection@.users, with_user_id(key_@)) {
                Some(u) => match Role::parse(u.status) {
                    Some(role) => r == Ok::<Role, String>(role),
                    None => r is Err && r->Err_0@ == "Invalid role"@,
                },
                None => r is Err && r->Err_0@ == "User does not exist"@,
            },
    {
        match find_user_index(&connection.users, key_) {
            Some(i) => Role::from_str(connection.users[i].status.as_str()),
            None => Err("User does not exist".to_owned()),
        }
    }

    /// The identity of the first user with the address `email`.
    pub fn get_id_from_email(email: &String, connection: &Database) -> (r: Result<String, String>)
        ensures
            match first(connection@.users, with_email(email@)) {
                Some(u) => r is Ok && r->Ok_0@ == u.user_id,
                None => r is Err && r->Err_0@ == "User does not exist"@,
            },
    {
        match find_email_index(&connection.users, email) {
            Some(i) => Ok(connection.users[i].user_id.clone()),
            None => Err("User does not exist".to_owned()),
        }
    }

    /// Stores `new_hashed` as this user's password hash where the old
    /// password was accepted (`matching` is `Some(true)`) and there is a new
    /// hash; else changes nothing and fails.
    pub fn store_password(
        &self,
        matching: Option<bool>,
        new_hashed: Option<String>,
        conn: &mut Database,
    ) -> (r: Result<(), ()>)
        ensures
            r is Ok <==> matching == Some(true) && new_hashed is Some,
            r is Ok ==> final(conn)@ == (DatabaseView {
                users: repassworded(old(conn)@.users, self@.user_id, new_hashed->Some_0@),
                ..old(conn)@
            }),
            r is Err ==> final(conn)@ == old(conn)@,
            old(conn)@.consistent() ==> final(conn)@.consistent(),
    {
        let hash = match (matching, new_hashed) {
            (Some(true), Some(hash)) => hash,
            _ => {
                return Err(());
            },
        };
        let ghost before = conn@;
        let ghost goal = repassworded(before.users, self@.user_id, hash@);
        let mut i: usize = 0;
        while i < conn.users.len()
            invariant
                i <= conn.users.len(),
                before == old(conn)@,
                conn@ == (DatabaseView { users: conn@.users, ..before }),
                conn@.users.len() == before.users.len(),
                goal == repassworded(before.users, self@.user_id, hash@),
                forall|j: int| 0 <= j < i ==> conn@.users[j] == goal[j],
                forall|j: int| i <= j < before.users.len() ==> conn@.users[j] == before.users[j],
            decreases conn.users.len() - i,
        {
            if conn.users[i].user_id == self.user_id {
                let mut row = conn.users[i].clone();
                row.password = hash.clone();
                conn.users.set(i, row);
            }
            i = i + 1;
        }
        proof {
            assert(conn@.users =~= goal);
            assert forall|a: int, b: int| 0 <= a < b < goal.len() && before.users_distinct() implies (
            #[trigger] goal[a]).user_id != (#[trigger] goal[b]).user_id by {
                assert(goal[a].user_id == before.users[a].user_id);
                assert(goal[b].user_id == before.users[b].user_id);
            }
        }
        Ok(())
    }

    /// Changes this user's password: hashes the new one, holds the old one
    /// against this user's hash, and stores the new hash where bcrypt
    /// accepted the old password. Fails, and changes nothing, where it did
    /// not, or where hashing failed.
    pub fn update_password(&self, data: PasswordChange, conn: &mut Database) -> (r: Result<(), ()>)
        ensures
            r is Ok ==> bcrypt_verify(data.password@, self@.password) == Some(true),
            r is Ok ==> exists|hash: Seq<char>|
                bcrypt_verify(data.new_password@, hash) == Some(true) && final(conn)@ == (
                DatabaseView {
                    users: #[trigger] repassworded(old(conn)@.users, self@.user_id, hash),
                    ..old(conn)@
                }),
            r is Err ==> final(conn)@ == old(conn)@,
            bcrypt_verify(data.password@, self@.password) != Some(true) ==> r is Err,
            old(conn)@.consistent() ==> final(conn)@.consistent(),
    {
        let new_hashed = hash_password(data.new_password);
        let matching = verify_password(data.password, self.password.as_str());
        let ghost hash = if new_hashed is Some { new_hashed->Some_0@ } else { Seq::empty() };
        let r = self.store_password(matching, new_hashed, conn);
        proof {
            if r is Ok {
                assert(conn@ == (DatabaseView {
                    users: repassworded(old(conn)@.users, self@.user_id, hash),
                    ..old(conn)@
                }));
            }
        }
        r
    }

    /// Stores a new user under the password hash `hashed`. `InternalError`,
    /// and no change, where there is no hash or the identity is in use.
    pub fn insert(new_data: User, hashed: Option<String>, conn: &mut Database) -> (r: Result<
        User,
        ApiError,
    >)
        ensures
            r is Ok <==> hashed is Some && !any(old(conn)@.users, with_user_id(new_data@.user_id)),
            r is Ok ==> r->Ok_0@ == new_data@.with_password(hashed->Some_0@) && final(conn)@ == (
            DatabaseView { users: old(conn)@.users.push(r->Ok_0@), ..old(conn)@ }),
            r is Err ==> r->Err_0 == ApiError::InternalError && final(conn)@ == old(conn)@,
            old(conn)@.consistent() ==> final(conn)@.consistent(),
    {
        let hash = match hashed {
            Some(hash) => hash,
            None => {
                return Err(ApiError::InternalError);
            },
        };
        if find_user_index(&conn.users, &new_data.user_id).is_some() {
            return Err(ApiError::InternalError);
        }
        let ghost before = conn@;
        let mut row = new_data;
        row.password = hash;
        let copy = row.clone();
        conn.users.push(row);
        proof {
            let next = before.users.push(copy@);
            assert(conn@.users =~= next);
            assert forall|a: int, b: int| 0 <= a < b < next.len() && before.users_distinct() implies (
            #[trigger] next[a]).user_id != (#[trigger] next[b]).user_id by {
                if b == before.users.len() {
                    assert(!with_user_id(copy@.user_id)(before.users[a]));
                } else {
                    assert(next[a] == before.users[a] && next[b] == before.users[b]);
                }
            }
        }
        Ok(copy)
    }

    /// Stores a new user, with the password replaced by its bcrypt hash.
    /// `InternalError`, and no change, where hashing fails or the identity
    /// is in use.
    pub fn create(new_data: User, conn: &mut Database) -> (r: Result<User, ApiError>)
        ensures
            any(old(conn)@.users, with_user_id(new_data@.user_id)) ==> r is Err,
            r is Ok ==> bcrypt_verify(new_data@.password, r->Ok_0@.password) == Some(true)
                && r->Ok_0@ == new_data@.with_password(r->Ok_0@.password) && final(conn)@ == (
            DatabaseView { users: old(conn)@.users.push(r->Ok_0@), ..old(conn)@ }),
            r is Err ==> r->Err_0 == ApiError::InternalError && final(conn)@ == old(conn)@,
            old(conn)@.consistent() ==> final(conn)@.consistent(),
    {
        let hashed = hash_password(new_data.password.as_str());
        User::insert(new_data, hashed, conn)
    }

    /// Replaces the profile of this user's rows by that of `update` and
    /// returns the updated row; `NotFound`, and no change, where the user
    /// has no row.
    pub fn update(&self, update: User, conn: &mut Database) -> (r: Result<User, ApiError>)
        ensures
            match first(old(conn)@.users, with_user_id(self@.user_id)) {
                Some(u) => r is Ok && r->Ok_0@ == u.with_profile(update@) && final(conn)@ == (
                DatabaseView {
                    users: reprofiled(old(conn)@.users, self@.user_id, update@),
                    ..old(conn)@
                }),
                None => r == Err::<User, ApiError>(ApiError::NotFound) && final(conn)@ == old(
                    conn,
                )@,
            },
            old(conn)@.consistent() ==> final(conn)@.consistent(),
    {
        let ghost before = conn@;
        let ghost hit = with_user_id(self@.user_id);
        let ghost goal = reprofiled(before.users, self@.user_id, update@);
        let found = match find_user_index(&conn.users, &self.user_id) {
            Some(found) => found,
            None => {
                return Err(ApiError::NotFound);
            },
        };
        let mut i: usize = 0;
        while i < conn.users.len()
            invariant
                i <= conn.users.len(),
                before == old(conn)@,
                conn@ == (DatabaseView { users: conn@.users, ..before }),
                conn@.users.len() == before.users.len(),
                goal == reprofiled(before.users, self@.user_id, update@),
                hit == with_user_id(self@.user_id),
                found < before.users.len(),
                found == position(before.users, hit, 0),
                forall|j: int| 0 <= j < i ==> conn@.users[j] == goal[j],
                forall|j: int| i <= j < before.users.len() ==> conn@.users[j] == before.users[j],
            decreases conn.users.len() - i,
        {
            if conn.users[i].user_id == self.user_id {
                let mut row = conn.users[i].clone();
                row.fullname = update.fullname.clone();
                row.profile_photo = update.profile_photo.clone();
                row.email = update.email.clone();
                row.bio = update.bio.clone();
                row.birth_place = update.birth_place.clone();
                row.birth_date = update.birth_date;
                conn.users.set(i, row);
            }
            i = i + 1;
        }
        proof {
            assert(conn@.users =~= goal);
            assert forall|a: int, b: int| 0 <= a < b < goal.len() && before.users_distinct() implies (
            #[trigger] goal[a]).user_id != (#[trigger] goal[b]).user_id by {
                assert(goal[a].user_id == before.users[a].user_id);
                assert(goal[b].user_id == before.users[b].user_id);
            }
            lemma_position(before.users, hit, 0);
            assert(hit(before.users[found as int]));
            assert(first(before.users, hit) == Some(before.users[found as int]));
            assert(goal[found as int] == before.users[found as int].with_profile(update@));
            assert(conn@.users[found as int] == goal[found as int]);
        }
        let row = conn.users[found].clone();
        assert(row@ == goal[found as int]);
        Ok(row)
    }

    /// Removes this user's row and returns it; `NotFound`, and no change,
    /// where the user has no row.
    pub fn delete(&self, conn: &mut Database) -> (r: Result<User, ApiError>)
        ensures
            match first(old(conn)@.users, with_user_id(self@.user_id)) {
                Some(u) => r is Ok && r->Ok_0@ == u && final(conn)@ == (DatabaseView {
                    users: old(conn)@.users.remove(
                        position(old(conn)@.users, with_user_id(self@.user_id), 0),
                    ),
                    ..old(conn)@
                }),
                None => r == Err::<User, ApiError>(ApiError::NotFound) && final(conn)@ == old(
                    conn,
                )@,
            },
            old(conn)@.consistent() ==> final(conn)@.consistent(),
    {
        let ghost before = conn@;
        match find_user_index(&conn.users, &self.user_id) {
            Some(i) => {
                let row = conn.users.remove(i);
                proof {
                    let next = before.users.remove(i as int);
                    assert(conn@.users =~= next);
                    assert forall|a: int, b: int|
                        0 <= a < b < next.len() && before.users_distinct() implies (
                    #[trigger] next[a]).user_id != (#[trigger] next[b]).user_id by {
                        let a0 = if a < i { a } else { a + 1 };
                        let b0 = if b < i { b } else { b + 1 };
                        assert(next[a] == before.users[a0] && next[b] == before.users[b0]);
                    }
                }
                Ok(row)
            },
            None => Err(ApiError::NotFound),
        }
    }

    /// All users, in the order of the table.
    pub fn get_all(conn: &Database) -> (r: Vec<User>)
        ensures
            r.deep_view() == conn@.users,
    {
        let mut out: Vec<User> = Vec::new();
        let mut i: usize = 0;
        while i < conn.users.len()
            invariant
                i <= conn.users.len(),
                out.len() == i,
                forall|j: int| 0 <= j < i ==> out[j]@ == conn.users[j]@,
            decreases conn.users.len() - i,
        {
            out.push(conn.users[i].clone());
            i = i + 1;
        }
        proof {
            assert(out.deep_view() =~= conn@.users);
        }
        out
    }
}

} // verus!
