use vstd::prelude::*;
use crate::db::{Database, DatabaseView};
use crate::errors::ApiError;
use crate::outside::local_now_micros;
use crate::records::{MembershipView, Student};
use crate::seqs::{any, first, lemma_filter_step, lemma_first, position};

verus! {

/// The enrolments that agree with each of the three that is given: the
/// user, the class, the number.
pub open spec fn matching(user: Option<Seq<char>>, class: Option<Seq<char>>, number: Option<i32>) -> spec_fn(
    MembershipView,
) -> bool {
    |m: MembershipView|
        (user matches Some(u) ==> m.user_id == u) && (class matches Some(c) ==> m.class_id == c) && (
        number matches Some(n) ==> m.id == n)
}

/// The enrolments in class `class`.
pub open spec fn in_class(class: Seq<char>) -> spec_fn(MembershipView) -> bool {
    matching(None, Some(class), None)
}

/// The enrolments of user `user`.
pub open spec fn of_user(user: Seq<char>) -> spec_fn(MembershipView) -> bool {
    matching(Some(user), None, None)
}

/// The enrolments of user `user` in class `class`.
pub open spec fn of_user_in_class(user: Seq<char>, class: Seq<char>) -> spec_fn(
    MembershipView,
) -> bool {
    matching(Some(user), Some(class), None)
}

/// The enrolments with the number `id`.
pub open spec fn with_number(id: i32) -> spec_fn(MembershipView) -> bool {
    matching(None, None, Some(id))
}

/// The roster of class `class`: the identities of its students, in the
/// order of enrolment.
pub open spec fn roster(students: Seq<MembershipView>, class: Seq<char>) -> Seq<Seq<char>> {
    students.filter(in_class(class)).map_values(|m: MembershipView| m.user_id)
}

/// The enrolment of `user` in `class` under the number `id`.
pub open spec fn enrolment(id: i32, user: Seq<char>, class: Seq<char>, created_at: i64) -> MembershipView {
    MembershipView { id, user_id: user, class_id: class, created_at }
}

/// The index of the first enrolment that agrees with each of the three
/// that is given: the user, the class, the number.
pub fn find_student(
    students: &Vec<Student>,
    user: Option<&String>,
    class: Option<&String>,
    number: Option<i32>,
) -> (r: Option<usize>)
    ensures
        match r {
            Some(i) => i < students.len() && i == position(
                students.deep_view(),
                matching(user.deep_view(), class.deep_view(), number),
                0,
            ),
            None => position(
                students.deep_view(),
                matching(user.deep_view(), class.deep_view(), number),
                0,
            ) == students.len(),
        },
        r is Some <==> any(
            students.deep_view(),
            matching(user.deep_view(), class.deep_view(), number),
        ),
{
    let ghost rows = students.deep_view();
    let ghost hit = matching(user.deep_view(), class.deep_view(), number);
    proof {
        lemma_first(rows, hit);
    }
    let mut i: usize = 0;
    while i < students.len()
        invariant
            i <= students.len(),
            rows == students.deep_view(),
            hit == matching(user.deep_view(), class.deep_view(), number),
            position(rows, hit, 0) == position(rows, hit, i as int),
        decreases students.len() - i,
    {
        let row = &students[i];
        let user_ok = match user {
            Some(u) => row.user_id == *u,
            None => true,
        };
        let class_ok = match class {
            Some(c) => row.class_id == *c,
            None => true,
        };
        let number_ok = match number {
            Some(n) => row.id == n,
            None => true,
        };
        if user_ok && class_ok && number_ok {
            return Some(i);
        }
        i = i + 1;
    }
    None
}

impl Student {
    /// The students of class `class_id`, in the order of enrolment.
    pub fn load_in_class(class_id: &String, conn: &Database) -> (r: Vec<Student>)
        ensures
            r.deep_view() == conn@.students.filter(in_class(class_id@)),
    {
        let ghost rows = conn@.students;
        let ghost keep = in_class(class_id@);
        let mut out: Vec<Student> = Vec::new();
        let mut i: usize = 0;
        proof {
            reveal(Seq::filter);
            assert(out.deep_view() =~= rows.take(0).filter(keep));
        }
        while i < conn.students.len()
            invariant
                i <= conn.students.len(),
                rows == conn@.students,
                keep == in_class(class_id@),
                out.deep_view() == rows.take(i as int).filter(keep),
            decreases conn.students.len() - i,
        {
            proof {
                lemma_filter_step(rows, keep, i as int);
            }
            if conn.students[i].class_id == *class_id {
                let ghost before = out.deep_view();
                out.push(conn.students[i].clone());
                assert(out.deep_view() =~= before.push(rows[i as int]));
            }
            i = i + 1;
        }
        proof {
            assert(rows.take(i as int) =~= rows);
        }
        out
    }

    /// The user is enrolled as a student of the class.
    pub fn is_enrolled(uid: &String, class_id: &String, conn: &Database) -> (r: bool)
        ensures
            r == any(conn@.students, of_user_in_class(uid@, class_id@)),
    {
        find_student(&conn.students, Some(uid), Some(class_id), None).is_some()
    }

    /// Enrols the user as a student of the class at `created_at`, under the
    /// number `id`, and returns the user's first enrolment as a student.
    /// `InternalError`, and no change, where the number is in use.
    pub fn create_at(uid: &String, class_id: &String, id: i32, created_at: i64, conn: &mut Database) -> (r:
        Result<Student, ApiError>)
        ensures
            r is Ok <==> !any(old(conn)@.students, with_number(id)),
            r is Ok ==> final(conn)@ == (DatabaseView {
                students: old(conn)@.students.push(enrolment(id, uid@, class_id@, created_at)),
                ..old(conn)@
            }) && Some(r->Ok_0@) == first(final(conn)@.students, of_user(uid@)),
            r is Err ==> r->Err_0 == ApiError::InternalError && final(conn)@ == old(conn)@,
            old(conn)@.consistent() ==> final(conn)@.consistent(),
    {
        if find_student(&conn.students, None, None, Some(id)).is_some() {
            return Err(ApiError::InternalError);
        }
        let ghost before = conn@;
        let row = Student { id, user_id: uid.clone(), class_id: class_id.clone(), created_at };
        conn.students.push(row);
        proof {
            let next = before.students.push(enrolment(id, uid@, class_id@, created_at));
            assert(conn@.students =~= next);
            assert(of_user(uid@)(next[before.students.len() as int]));
            lemma_first(next, of_user(uid@));
        }
        match find_student(&conn.students, Some(uid), None, None) {
            Some(at) => Ok(conn.students[at].clone()),
            None => Err(ApiError::InternalError),
        }
    }

    /// Enrols the user as a student of the class now, under the number
    /// `id`, and returns the user's first enrolment as a student.
    /// `InternalError`, and no change, where the number is in use.
    pub fn create(uid: &String, class_id: &String, id: i32, conn: &mut Database) -> (r: Result<
        Student,
        ApiError,
    >)
        ensures
            r is Ok <==> !any(old(conn)@.students, with_number(id)),
            r is Ok ==> exists|created_at: i64|
                final(conn)@ == (DatabaseView {
                    students: old(conn)@.students.push(
                        #[trigger] enrolment(id, uid@, class_id@, created_at),
                    ),
                    ..old(conn)@
                }),
            r is Ok ==> Some(r->Ok_0@) == first(final(conn)@.students, of_user(uid@)),
            r is Err ==> r->Err_0 == ApiError::InternalError && final(conn)@ == old(conn)@,
            old(conn)@.consistent() ==> final(conn)@.consistent(),
    {
        let created_at = local_now_micros();
        Student::create_at(uid, class_id, id, created_at, conn)
    }
}

/// The identities of the students of class `class_id`, in the order of
/// enrolment.
pub fn roster_of(class_id: &String, conn: &Database) -> (r: Vec<String>)
    ensures
        r.deep_view() == roster(conn@.students, class_id@),
{
    let students = Student::load_in_class(class_id, conn);
    let mut out: Vec<String> = Vec::new();
    let mut i: usize = 0;
    while i < students.len()
        invariant
            i <= students.len(),
            out.len() == i,
            forall|j: int| 0 <= j < i ==> (#[trigger] out[j])@ == students[j]@.user_id,
        decreases students.len() - i,
    {
        out.push(students[i].user_id.clone());
        i = i + 1;
    }
    proof {
        assert(out.deep_view() =~= roster(conn@.students, class_id@));
    }
    out
}

} // verus!
