use vstd::prelude::*;
use crate::db::{Database, DatabaseView};
use crate::errors::ApiError;
use crate::outside::local_now_micros;
use crate::records::{Admin, Teacher};
use crate::roster::{enrolment, matching, of_user, with_number};
use crate::seqs::{any, first, lemma_first, position};

verus! {

/// The index of the first enrolment as a teacher that agrees with each of the three
/// that is given: the user, the class, the number.
pub fn find_teacher(
    members: &Vec<Teacher>,
    user: Option<&String>,
    class: Option<&String>,
    number: Option<i32>,
) -> (r: Option<usize>)
    ensures
        match r {
            Some(i) => i < members.len() && i == position(
                members.deep_view(),
                matching(user.deep_view(), class.deep_view(), number),
                0,
            ),
            None => position(
                members.deep_view(),
                matching(user.deep_view(), class.deep_view(), number),
                0,
            ) == members.len(),
        },
        r is Some <==> any(
            members.deep_view(),
            matching(user.deep_view(), class.deep_view(), number),
        ),
{
    let ghost rows = members.deep_view();
    let ghost hit = matching(user.deep_view(), class.deep_view(), number);
    proof {
        lemma_first(rows, hit);
    }
    let mut i: usize = 0;
    while i < members.len()
        invariant
            i <= members.len(),
            rows == members.deep_view(),
            hit == matching(user.deep_view(), class.deep_view(), number),
            position(rows, hit, 0) == position(rows, hit, i as int),
        decreases members.len() - i,
    {
        let row = &members[i];
        let user_ok = match user {
            Some(u) => row.user_id == *u,
            None => true,
        };
        let class_ok = match class {
            Some(c) => row.class_id == *c,
            None => true,
        };
        let number_ok = match number {
            Some(n) => row.id == n,
            None => true,
        };
        if user_ok && class_ok && number_ok {
            return Some(i);
        }
        i = i + 1;
    }
    None
}

impl Teacher {
    /// Enrols the user as a teacher of the class at `created_at`, under the
    /// number `id`, and returns the user's first enrolment as a teacher.
    /// `InternalError`, and no change, where the number is in use.
    pub fn create_at(uid: &String, class_id: &String, id: i32, created_at: i64, conn: &mut Database) -> (r:
        Result<Teacher, ApiError>)
        ensures
            r is Ok <==> !any(old(conn)@.teachers, with_number(id)),
            r is Ok ==> final(conn)@ == (DatabaseView {
                teachers: old(conn)@.teachers.push(enrolment(id, uid@, class_id@, created_at)),
                ..old(conn)@
            }) && Some(r->Ok_0@) == first(final(conn)@.teachers, of_user(uid@)),
            r is Err ==> r->Err_0 == ApiError::InternalError && final(conn)@ == old(conn)@,
            old(conn)@.consistent() ==> final(conn)@.consistent(),
    {
        if find_teacher(&conn.teachers, None, None, Some(id)).is_some() {
            return Err(ApiError::InternalError);
        }
        let ghost before = conn@;
        let row = Teacher { id, user_id: uid.clone(), class_id: class_id.clone(), created_at };
        conn.teachers.push(row);
        proof {
            let next = before.teachers.push(enrolment(id, uid@, class_id@, created_at));
            assert(conn@.teachers =~= next);
            assert(of_user(uid@)(next[before.teachers.len() as int]));
            lemma_first(next, of_user(uid@));
        }
        match find_teacher(&conn.teachers, Some(uid), None, None) {
            Some(at) => Ok(conn.teachers[at].clone()),
            None => Err(ApiError::InternalError),
        }
    }

    /// Enrols the user as a teacher of the class now, under the number
    /// `id`, and returns the user's first enrolment as a teacher.
    /// `InternalError`, and no change, where the number is in use.
    pub fn create(uid: &String, class_id: &String, id: i32, conn: &mut Database) -> (r: Result<
        Teacher,
        ApiError,
    >)
        ensures
            r is Ok <==> !any(old(conn)@.teachers, with_number(id)),
            r is Ok ==> exists|created_at: i64|
                final(conn)@ == (DatabaseView {
                    teachers: old(conn)@.teachers.push(
                        #[trigger] enrolment(id, uid@, class_id@, created_at),
                    ),
                    ..old(conn)@
                }),
            r is Ok ==> Some(r->Ok_0@) == first(final(conn)@.teachers, of_user(uid@)),
            r is Err ==> r->Err_0 == ApiError::InternalError && final(conn)@ == old(conn)@,
            old(conn)@.consistent() ==> final(conn)@.consistent(),
    {
        let created_at = local_now_micros();
        Teacher::create_at(uid, class_id, id, created_at, conn)
    }
}

/// The index of the first enrolment as an administrator that agrees with each of the three
/// that is given: the user, the class, the number.
pub fn find_admin(
    members: &Vec<Admin>,
    user: Option<&String>,
    class: Option<&String>,
    number: Option<i32>,
) -> (r: Option<usize>)
    ensures
        match r {
            Some(i) => i < members.len() && i == position(
                members.deep_view(),
                matching(user.deep_view(), class.deep_view(), number),
                0,
            ),
            None => position(
                members.deep_view(),
                matching(user.deep_view(), class.deep_view(), number),
                0,
            ) == members.len(),
        },
        r is Some <==> any(
            members.deep_view(),
            matching(user.deep_view(), class.deep_view(), number),
        ),
{
    let ghost rows = members.deep_view();
    let ghost hit = matching(user.deep_view(), class.deep_view(), number);
    proof {
        lemma_first(rows, hit);
    }
    let mut i: usize = 0;
    while i < members.len()
        invariant
            i <= members.len(),
            rows == members.deep_view(),
            hit == matching(user.deep_view(), class.deep_view(), number),
            position(rows, hit, 0) == position(rows, hit, i as int),
        decreases members.len() - i,
    {
        let row = &members[i];
        let user_ok = match user {
            Some(u) => row.user_id == *u,
            None => true,
        };
        let class_ok = match class {
            Some(c) => row.class_id == *c,
            None => true,
        };
        let number_ok = match number {
            Some(n) => row.id == n,
            None => true,
        };
        if user_ok && class_ok && number_ok {
            return Some(i);
        }
        i = i + 1;
    }
    None
}

impl Admin {
    /// Enrols the user as an administrator of the class at `created_at`, under the
    /// number `id`, and returns the user's first enrolment as an administrator.
    /// `InternalError`, and no change, where the number is in use.
    pub fn create_at(uid: &String, class_id: &String, id: i32, created_at: i64, conn: &mut Database) -> (r:
        Result<Admin, ApiError>)
        ensures
            r is Ok <==> !any(old(conn)@.admins, with_number(id)),
            r is Ok ==> final(conn)@ == (DatabaseView {
                admins: old(conn)@.admins.push(enrolment(id, uid@, class_id@, created_at)),
                ..old(conn)@
            }) && Some(r->Ok_0@) == first(final(conn)@.admins, of_user(uid@)),
            r is Err ==> r->Err_0 == ApiError::InternalError && final(conn)@ == old(conn)@,
            old(conn)@.consistent() ==> final(conn)@.consistent(),
    {
        if find_admin(&conn.admins, None, None, Some(id)).is_some() {
            return Err(ApiError::InternalError);
        }
        let ghost before = conn@;
        let row = Admin { id, user_id: uid.clone(), class_id: class_id.clone(), created_at };
        conn.admins.push(row);
        proof {
            let next = before.admins.push(enrolment(id, uid@, class_id@, created_at));
            assert(conn@.admins =~= next);
            assert(of_user(uid@)(next[before.admins.len() as int]));
            lemma_first(next, of_user(uid@));
        }
        match find_admin(&conn.admins, Some(uid), None, None) {
            Some(at) => Ok(conn.admins[at].clone()),
            None => Err(ApiError::InternalError),
        }
    }

    /// Enrols the user as an administrator of the class now, under the number
    /// `id`, and returns the user's first enrolment as an administrator.
    /// `InternalError`, and no change, where the number is in use.
    pub fn create(uid: &String, class_id: &String, id: i32, conn: &mut Database) -> (r: Result<
        Admin,
        ApiError,
    >)
        ensures
            r is Ok <==> !any(old(conn)@.admins, with_number(id)),
            r is Ok ==> exists|created_at: i64|
                final(conn)@ == (DatabaseView {
                    admins: old(conn)@.admins.push(
                        #[trigger] enrolment(id, uid@, class_id@, created_at),
                    ),
                    ..old(conn)@
                }),
            r is Ok ==> Some(r->Ok_0@) == first(final(conn)@.admins, of_user(uid@)),
            r is Err ==> r->Err_0 == ApiError::InternalError && final(conn)@ == old(conn)@,
            old(conn)@.consistent() ==> final(conn)@.consistent(),
    {
        let created_at = local_now_micros();
        Admin::create_at(uid, class_id, id, created_at, conn)
    }
}

} // verus!
