use vstd::prelude::*;
use crate::access::{can_delete, can_draft, may_delete, may_draft, DeletePolicy};
use crate::attachments::{not_owned_by_assignment, Attachment};
use crate::db::{Database, DatabaseView};
use crate::errors::ApiError;
use crate::notify::{notifications, send_mail, Mail, MailView};
use crate::outside::local_now_micros;
use crate::records::{
    Assignment, AssignmentData, AssignmentView, FillableAssignments, FillableAssignmentsView,
};
use crate::roster::{roster, roster_of};
use crate::seqs::{any, first, lemma_first, lemma_position, lemma_position_agrees, position};
use crate::submissions::{
    fan_out, fanned_out, lemma_fan_out_distinct, lemma_fan_out_twice, of_assignment,
    roster_distinct,
};
use crate::text::copy_opt;
use crate::users::{find_user_index, with_user_id, UserView};

verus! {

/// The assignments with the identity `id`.
pub open spec fn with_assignment_id(id: Seq<char>) -> spec_fn(AssignmentView) -> bool {
    |a: AssignmentView| a.assignment_id == id
}

/// The index of the first assignment with the identity `id`.
pub fn find_assignment_index(assignments: &Vec<Assignment>, id: &String) -> (r: Option<usize>)
    ensures
        match r {
            Some(i) => i < assignments.len() && i == position(
                assignments.deep_view(),
                with_assignment_id(id@),
                0,
            ),
            None => position(assignments.deep_view(), with_assignment_id(id@), 0)
                == assignments.len(),
        },
        r is Some <==> any(assignments.deep_view(), with_assignment_id(id@)),
{
    let ghost rows = assignments.deep_view();
    let ghost hit = with_assignment_id(id@);
    proof {
        lemma_first(rows, hit);
    }
    let mut i: usize = 0;
    while i < assignments.len()
        invariant
            i <= assignments.len(),
            rows == assignments.deep_view(),
            hit == with_assignment_id(id@),
            position(rows, hit, 0) == position(rows, hit, i as int),
        decreases assignments.len() - i,
    {
        if assignments[i].assignment_id == *id {
            return Some(i);
        }
        i = i + 1;
    }
    None
}

impl Assignment {
    /// The assignment with the identity `id`; `NotFound` where there is
    /// none.
    pub fn get_by_id(id: &String, conn: &Database) -> (r: Result<Assignment, ApiError>)
        ensures
            match first(conn@.assignments, with_assignment_id(id@)) {
                Some(a) => r is Ok && r->Ok_0@ == a,
                None => r == Err::<Assignment, ApiError>(ApiError::NotFound),
            },
    {
        match find_assignment_index(&conn.assignments, id) {
            Some(i) => Ok(conn.assignments[i].clone()),
            None => Err(ApiError::NotFound),
        }
    }
}

/// An empty draft of class `class`.
pub open spec fn empty_draft(id: Seq<char>, class: Seq<char>, created_at: i64) -> AssignmentView {
    AssignmentView {
        assignment_id: id,
        class_id: class,
        assignment_name: None,
        instructions: None,
        draft: true,
        creator: None,
        created_at,
    }
}

/// Why a draft cannot be created, if it cannot: the actor is unknown
/// (`NotFound`), is neither teacher nor administrator (`Forbidden`), or the
/// identity is in use (`InternalError`).
pub open spec fn draft_error(db: DatabaseView, key: Seq<char>, id: Seq<char>) -> Option<ApiError> {
    match first(db.users, with_user_id(key)) {
        None => Some(ApiError::NotFound),
        Some(actor) => if !may_draft(actor) {
            Some(ApiError::Forbidden)
        } else if any(db.assignments, with_assignment_id(id)) {
            Some(ApiError::InternalError)
        } else {
            None
        },
    }
}

/// Creates an empty draft of the class at `created_at`, under the identity
/// `assignment_id`, and returns that identity. Nothing else changes: no
/// submission is made and nobody is notified.
pub fn draft_at(
    key: &String,
    class_id: &String,
    assignment_id: String,
    created_at: i64,
    conn: &mut Database,
) -> (r: Result<String, ApiError>)
    ensures
        match draft_error(old(conn)@, key@, assignment_id@) {
            Some(e) => r == Err::<String, ApiError>(e) && final(conn)@ == old(conn)@,
            None => r is Ok && r->Ok_0@ == assignment_id@ && final(conn)@ == (DatabaseView {
                assignments: old(conn)@.assignments.push(
                    empty_draft(assignment_id@, class_id@, created_at),
                ),
                ..old(conn)@
            }),
        },
        old(conn)@.consistent() ==> final(conn)@.consistent(),
{
    let actor = match find_user_index(&conn.users, key) {
        Some(actor) => actor,
        None => {
            return Err(ApiError::NotFound);
        },
    };
    if !can_draft(&conn.users[actor]) {
        return Err(ApiError::Forbidden);
    }
    if find_assignment_index(&conn.assignments, &assignment_id).is_some() {
        return Err(ApiError::InternalError);
    }
    let ghost before = conn@;
    let answer = assignment_id.clone();
    conn.assignments.push(
        Assignment {
            assignment_id,
            class_id: class_id.clone(),
            assignment_name: None,
            instructions: None,
            draft: true,
            creator: None,
            created_at,
        },
    );
    proof {
        let next = before.assignments.push(empty_draft(answer@, class_id@, created_at));
        assert(conn@.assignments =~= next);
        assert forall|a: int, b: int|
            0 <= a < b < next.len() && before.assignments_distinct() implies (
        #[trigger] next[a]).assignment_id != (#[trigger] next[b]).assignment_id by {
            if b == before.assignments.len() {
                assert(!with_assignment_id(answer@)(before.assignments[a]));
            } else {
                assert(next[a] == before.assignments[a] && next[b] == before.assignments[b]);
            }
        }
    }
    Ok(answer)
}

/// Creates an empty draft of the class now, under the identity
/// `assignment_id`, and returns that identity. Nothing else changes: no
/// submission is made and nobody is notified.
pub fn draft(key: &String, class_id: &String, assignment_id: String, conn: &mut Database) -> (r:
    Result<String, ApiError>)
    ensures
        match draft_error(old(conn)@, key@, assignment_id@) {
            Some(e) => r == Err::<String, ApiError>(e) && final(conn)@ == old(conn)@,
            None => r is Ok && r->Ok_0@ == assignment_id@ && exists|created_at: i64|
                final(conn)@ == (DatabaseView {
                    assignments: old(conn)@.assignments.push(
                        #[trigger] empty_draft(assignment_id@, class_id@, created_at),
                    ),
                    ..old(conn)@
                }),
        },
        old(conn)@.consistent() ==> final(conn)@.consistent(),
{
    let created_at = local_now_micros();
    draft_at(key, class_id, assignment_id, created_at, conn)
}

/// The assignment after a publish call by `actor`: a name and an
/// instruction text that the call sets replace the stored ones, the draft
/// flag is the call's, and the actor becomes the creator where there is
/// none yet.
pub open spec fn filled(
    assignment: AssignmentView,
    fields: FillableAssignmentsView,
    actor: Seq<char>,
) -> AssignmentView {
    AssignmentView {
        assignment_name: if fields.assignment_name is Some {
            fields.assignment_name
        } else {
            assignment.assignment_name
        },
        instructions: if fields.instructions is Some {
            fields.instructions
        } else {
            assignment.instructions
        },
        draft: fields.draft,
        creator: if assignment.creator is Some {
            assignment.creator
        } else {
            Some(actor)
        },
        ..assignment
    }
}

/// Computes [`filled`].
pub fn fill(assignment: &Assignment, fields: &FillableAssignments, actor: &String) -> (r: Assignment)
    ensures
        r@ == filled(assignment@, fields@, actor@),
{
    Assignment {
        assignment_id: assignment.assignment_id.clone(),
        class_id: assignment.class_id.clone(),
        assignment_name: if fields.assignment_name.is_some() {
            copy_opt(&fields.assignment_name)
        } else {
            copy_opt(&assignment.assignment_name)
        },
        instructions: if fields.instructions.is_some() {
            copy_opt(&fields.instructions)
        } else {
            copy_opt(&assignment.instructions)
        },
        draft: fields.draft,
        creator: if assignment.creator.is_some() {
            copy_opt(&assignment.creator)
        } else {
            Some(actor.clone())
        },
        created_at: assignment.created_at,
    }
}

/// An assignment that is no draft has a name, and not the empty one.
pub open spec fn publishable(assignment: AssignmentView) -> bool {
    assignment.draft || (assignment.assignment_name matches Some(name) && name.len() > 0)
}

/// Decides [`publishable`].
pub fn is_publishable(assignment: &Assignment) -> (r: bool)
    ensures
        r == publishable(assignment@),
{
    if assignment.draft {
        return true;
    }
    match &assignment.assignment_name {
        Some(name) => !name.as_str().is_empty(),
        None => false,
    }
}

/// Every student of the roster is a known user.
pub open spec fn all_known(users: Seq<UserView>, roster: Seq<Seq<char>>) -> bool {
    forall|i: int| 0 <= i < roster.len() ==> any(users, with_user_id(#[trigger] roster[i]))
}

/// The addresses of the students of the roster, in order.
pub open spec fn addresses(users: Seq<UserView>, roster: Seq<Seq<char>>) -> Seq<Seq<char>> {
    roster.map_values(|u: Seq<char>| first(users, with_user_id(u))->Some_0.email)
}

/// The addresses of the students of the roster, in order; `None` where one
/// of them is not a known user.
pub fn addresses_of(roster: &Vec<String>, conn: &Database) -> (r: Option<Vec<String>>)
    ensures
        r is Some <==> all_known(conn@.users, roster.deep_view()),
        r is Some ==> r->Some_0.deep_view() == addresses(conn@.users, roster.deep_view()),
{
    let ghost names = roster.deep_view();
    let mut out: Vec<String> = Vec::new();
    let mut i: usize = 0;
    while i < roster.len()
        invariant
            i <= roster.len(),
            names == roster.deep_view(),
            out.len() == i,
            forall|j: int| 0 <= j < i ==> any(conn@.users, with_user_id(#[trigger] names[j])),
            forall|j: int|
                0 <= j < i ==> (#[trigger] out[j])@ == first(
                    conn@.users,
                    with_user_id(names[j]),
                )->Some_0.email,
        decreases roster.len() - i,
    {
        match find_user_index(&conn.users, &roster[i]) {
            Some(at) => {
                out.push(conn.users[at].email.clone());
            },
            None => {
                proof {
                    assert(!any(conn@.users, with_user_id(names[i as int])));
                }
                return None;
            },
        }
        i = i + 1;
    }
    proof {
        assert(out.deep_view() =~= addresses(conn@.users, names));
    }
    Some(out)
}

/// The sender of the notifications of a publish call: the creator of the
/// assignment as the call leaves it.
pub open spec fn sender(
    db: DatabaseView,
    key: Seq<char>,
    id: Seq<char>,
    fields: FillableAssignmentsView,
) -> Option<UserView> {
    match first(db.assignments, with_assignment_id(id)) {
        Some(a) => first(db.users, with_user_id(filled(a, fields, key).creator->Some_0)),
        None => None,
    }
}

/// Why a publish call fails, if it does. `NotFound`: the assignment, the
/// actor, the creator or a student of the roster is unknown.
/// `ValidationError`: the call clears the draft flag and leaves the
/// assignment without a name. `InternalError`: a submission is needed and
/// its identity is missing or in use.
pub open spec fn publish_error(
    db: DatabaseView,
    key: Seq<char>,
    class: Seq<char>,
    id: Seq<char>,
    fields: FillableAssignmentsView,
    ids: Seq<Seq<char>>,
) -> Option<ApiError> {
    if first(db.assignments, with_assignment_id(id)) is None {
        Some(ApiError::NotFound)
    } else if first(db.users, with_user_id(key)) is None {
        Some(ApiError::NotFound)
    } else if !publishable(filled(first(db.assignments, with_assignment_id(id))->Some_0, fields, key)) {
        Some(ApiError::ValidationError)
    } else if sender(db, key, id, fields) is None {
        Some(ApiError::NotFound)
    } else if !all_known(db.users, roster(db.students, class)) {
        Some(ApiError::NotFound)
    } else if fanned_out(db.submissions, id, roster(db.students, class), ids) is None {
        Some(ApiError::InternalError)
    } else {
        None
    }
}

/// The store after a publish call that succeeds: the assignment filled in,
/// and one submission for each student of the roster.
pub open spec fn published(
    db: DatabaseView,
    key: Seq<char>,
    class: Seq<char>,
    id: Seq<char>,
    fields: FillableAssignmentsView,
    ids: Seq<Seq<char>>,
) -> DatabaseView {
    let at = position(db.assignments, with_assignment_id(id), 0);
    DatabaseView {
        assignments: db.assignments.update(at, filled(db.assignments[at], fields, key)),
        submissions: fanned_out(db.submissions, id, roster(db.students, class), ids)->Some_0,
        ..db
    }
}

/// The notifications of a publish call that succeeds: one to each student
/// of the roster, from the creator.
pub open spec fn publish_mails(
    db: DatabaseView,
    key: Seq<char>,
    class: Seq<char>,
    id: Seq<char>,
    fields: FillableAssignmentsView,
) -> Seq<MailView> {
    notifications(
        sender(db, key, id, fields)->Some_0,
        addresses(db.users, roster(db.students, class)),
        filled(first(db.assignments, with_assignment_id(id))->Some_0, fields, key),
    )
}

/// What a publish call hands back: the assignment as it now is, and the
/// notifications to send.
#[derive(Debug, PartialEq, Eq)]
pub struct Published {
    pub new_assignment: Assignment,
    pub mails: Vec<Mail>,
}

/// Publishes an assignment to a class, all or nothing: fills in the fields
/// (an assignment that leaves the draft state needs a name), makes the
/// actor the creator where there is none, makes sure that every
/// student of the class has a submission (a new one under the identity at
/// the student's place in `submission_ids`, in progress), and renders one
/// notification per student. On an error the store is as it was.
pub fn update_assignment(
    key: &String,
    class_id: &String,
    data: AssignmentData,
    submission_ids: &Vec<String>,
    conn: &mut Database,
) -> (r: Result<Published, ApiError>)
    ensures
        match publish_error(
            old(conn)@,
            key@,
            class_id@,
            data.id@,
            data.assignment@,
            submission_ids.deep_view(),
        ) {
            Some(e) => r == Err::<Published, ApiError>(e) && final(conn)@ == old(conn)@,
            None => r is Ok && final(conn)@ == published(
                old(conn)@,
                key@,
                class_id@,
                data.id@,
                data.assignment@,
                submission_ids.deep_view(),
            ) && Some(r->Ok_0.new_assignment@) == first(
                final(conn)@.assignments,
                with_assignment_id(data.id@),
            ) && r->Ok_0.mails.deep_view() == publish_mails(
                old(conn)@,
                key@,
                class_id@,
                data.id@,
                data.assignment@,
            ),
        },
        old(conn)@.consistent() ==> final(conn)@.consistent(),
{
    let ghost before = conn@;
    let ghost hit = with_assignment_id(data.id@);
    let at = match find_assignment_index(&conn.assignments, &data.id) {
        Some(at) => at,
        None => {
            return Err(ApiError::NotFound);
        },
    };
    if find_user_index(&conn.users, key).is_none() {
        return Err(ApiError::NotFound);
    }
    proof {
        lemma_position(before.assignments, hit, 0);
        lemma_first(before.users, with_user_id(key@));
    }
    let new = fill(&conn.assignments[at], &data.assignment, key);
    if !is_publishable(&new) {
        return Err(ApiError::ValidationError);
    }
    let creator = match &new.creator {
        Some(creator) => find_user_index(&conn.users, creator),
        None => None,
    };
    let creator = match creator {
        Some(creator) => creator,
        None => {
            return Err(ApiError::NotFound);
        },
    };
    let students = roster_of(class_id, conn);
    let emails = match addresses_of(&students, conn) {
        Some(emails) => emails,
        None => {
            return Err(ApiError::NotFound);
        },
    };
    if fan_out(&data.id, &students, submission_ids, conn).is_err() {
        return Err(ApiError::InternalError);
    }
    conn.assignments.set(at, new.clone());
    let mails = send_mail(&conn.users[creator], &emails, &new);
    proof {
        let next = before.assignments.update(at as int, new@);
        assert(conn@.assignments =~= next);
        assert forall|a: int, b: int|
            0 <= a < b < next.len() && before.assignments_distinct() implies (
        #[trigger] next[a]).assignment_id != (#[trigger] next[b]).assignment_id by {
            assert(next[a].assignment_id == before.assignments[a].assignment_id);
            assert(next[b].assignment_id == before.assignments[b].assignment_id);
        }
        if before.submissions_distinct() {
            lemma_fan_out_distinct(
                before.submissions,
                data.id@,
                students.deep_view(),
                submission_ids.deep_view(),
                0,
            );
        }
        assert forall|j: int| 0 <= j < at implies !hit(#[trigger] next[j]) by {
            assert(next[j] == before.assignments[j]);
        }
        assert(hit(next[at as int]));
        crate::seqs::lemma_first_at(next, hit, at as int);
    }
    Ok(Published { new_assignment: new, mails })
}

/// Publishing twice to the same roster gives one submission per student,
/// not two. Where the assignment has no submission yet and no student
/// stands twice in the roster, a publish call that succeeds leaves exactly
/// as many submissions for the assignment as the roster has students; the
/// same call again, whatever identities it brings, then succeeds too and
/// leaves the store as the first one made it.
pub proof fn lemma_publish_twice(
    db: DatabaseView,
    key: Seq<char>,
    class: Seq<char>,
    id: Seq<char>,
    fields: FillableAssignmentsView,
    ids: Seq<Seq<char>>,
    more_ids: Seq<Seq<char>>,
)
    requires
        publish_error(db, key, class, id, fields, ids) is None,
        !any(db.submissions, of_assignment(id)),
        roster_distinct(roster(db.students, class)),
    ensures
        ({
            let once = published(db, key, class, id, fields, ids);
            let twice = published(once, key, class, id, fields, more_ids);
            &&& once.submissions.filter(of_assignment(id)).len() == roster(db.students, class).len()
            &&& publish_error(once, key, class, id, fields, more_ids) is None
            &&& twice == once
        }),
{
    let hit = with_assignment_id(id);
    let once = published(db, key, class, id, fields, ids);
    let at = position(db.assignments, hit, 0);
    lemma_fan_out_twice(db.submissions, id, roster(db.students, class), ids, more_ids);
    lemma_position(db.assignments, hit, 0);
    assert forall|j: int| 0 <= j < db.assignments.len() implies hit(#[trigger] db.assignments[j])
        == hit(once.assignments[j]) by {}
    lemma_position_agrees(db.assignments, once.assignments, hit, 0);
    let filled_once = filled(db.assignments[at], fields, key);
    assert(first(once.assignments, hit) == Some(filled_once));
    assert(filled(filled_once, fields, key) == filled_once);
    let twice = published(once, key, class, id, fields, more_ids);
    assert(twice.assignments =~= once.assignments);
}

/// Why a delete call fails, if it does. `NotFound`: the actor or the
/// assignment is unknown. `Forbidden`: the actor is a student, or the
/// policy locks the actor out.
pub open spec fn delete_error(
    db: DatabaseView,
    key: Seq<char>,
    id: Seq<char>,
    policy: DeletePolicy,
) -> Option<ApiError> {
    match (first(db.users, with_user_id(key)), first(db.assignments, with_assignment_id(id))) {
        (Some(actor), Some(assignment)) => if may_delete(policy, actor, assignment) {
            None
        } else {
            Some(ApiError::Forbidden)
        },
        _ => Some(ApiError::NotFound),
    }
}

/// The store after a delete call that succeeds: without the assignment and
/// without the attachments that it owns. Submissions and comments stay.
pub open spec fn deleted(db: DatabaseView, id: Seq<char>) -> DatabaseView {
    DatabaseView {
        assignments: db.assignments.remove(position(db.assignments, with_assignment_id(id), 0)),
        attachments: db.attachments.filter(not_owned_by_assignment(id)),
        ..db
    }
}

/// Deletes an assignment and the attachments that it owns. Submissions and
/// comments of the assignment stay. On an error the store is as it was.
pub fn delete_assignment(
    key: &String,
    class_id: &String,
    assignment_id: String,
    policy: DeletePolicy,
    conn: &mut Database,
) -> (r: Result<(), ApiError>)
    ensures
        match delete_error(old(conn)@, key@, assignment_id@, policy) {
            Some(e) => r == Err::<(), ApiError>(e) && final(conn)@ == old(conn)@,
            None => r is Ok && final(conn)@ == deleted(old(conn)@, assignment_id@),
        },
        old(conn)@.consistent() ==> final(conn)@.consistent(),
{
    let ghost before = conn@;
    let actor = match find_user_index(&conn.users, key) {
        Some(actor) => actor,
        None => {
            return Err(ApiError::NotFound);
        },
    };
    let at = match find_assignment_index(&conn.assignments, &assignment_id) {
        Some(at) => at,
        None => {
            return Err(ApiError::NotFound);
        },
    };
    if !can_delete(policy, &conn.users[actor], &conn.assignments[at]) {
        return Err(ApiError::Forbidden);
    }
    let gone = conn.assignments.remove(at);
    Attachment::delete_by_assignment_id(&assignment_id, conn);
    proof {
        let next = before.assignments.remove(at as int);
        assert(conn@.assignments =~= next);
        assert forall|a: int, b: int|
            0 <= a < b < next.len() && before.assignments_distinct() implies (
        #[trigger] next[a]).assignment_id != (#[trigger] next[b]).assignment_id by {
            let a0 = if a < at { a } else { a + 1 };
            let b0 = if b < at { b } else { b + 1 };
            assert(next[a] == before.assignments[a0] && next[b] == before.assignments[b0]);
        }
    }
    Ok(())
}

} // verus!
