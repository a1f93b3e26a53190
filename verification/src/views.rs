use vstd::prelude::*;
use crate::access::{
    can_read_as_student, can_read_as_teacher, may_read_as_student, may_read_as_teacher,
    DeletePolicy,
};
use crate::assignments::{delete_error, with_assignment_id};
use crate::attachments::{
    get_attachments, owned_by_assignment, owned_by_submission, resolved_all, Attachment,
    ResolvedAttachment, ResolvedAttachmentView,
};
use crate::comments::{
    get_comments, owned_by, with_author, with_authors, UserComment, UserCommentView,
};
use crate::db::{Database, DatabaseView};
use crate::errors::ApiError;
use crate::records::{Assignment, AssignmentView, Comment, CommentView, PrivateComment};
use crate::seqs::{first, lemma_first};
use crate::submissions::{of_assignment, with_pair, SubmissionView, Submissions};
use crate::users::{find_user_index, with_user_id};

verus! {

/// The public comments on an assignment, each with the public summary of
/// its author; `NotFound` where an author is not a known user.
pub fn public_comments(assignment_id: &String, conn: &Database) -> (r: Result<
    Vec<UserComment<Comment>>,
    ApiError,
>)
    ensures
        match with_authors(conn@.comments.filter(owned_by(assignment_id@)), conn@.users) {
            Some(all) => r is Ok && r->Ok_0.deep_view() == all,
            None => r == Err::<Vec<UserComment<Comment>>, ApiError>(ApiError::NotFound),
        },
{
    let comments = Comment::load_by_assignment(assignment_id, conn);
    let ghost rows = comments.deep_view();
    let ghost raw = comments@;
    let r = get_comments(comments, conn);
    proof {
        assert forall|i: int| 0 <= i < raw.len() implies (#[trigger] raw[i]).user_id@
            == rows[i].user_id by {}
        if r is Ok {
            let out = r->Ok_0;
            assert forall|i: int| 0 <= i < rows.len() implies crate::seqs::any(
                conn@.users,
                with_user_id((#[trigger] rows[i]).user_id),
            ) by {
                assert(raw[i].user_id@ == rows[i].user_id);
            }
            assert forall|i: int| 0 <= i < rows.len() implies (#[trigger] out.deep_view()[i])
                == with_author(rows[i], conn@.users) by {
                assert(out[i].comment == raw[i]);
                lemma_first(conn@.users, with_user_id(rows[i].user_id));
            }
            assert(out.deep_view() =~= rows.map_values(
                |c: CommentView| with_author(c, conn@.users),
            ));
        } else {
            let i = choose|i: int|
                0 <= i < raw.len() && !crate::seqs::any(
                    conn@.users,
                    with_user_id((#[trigger] raw[i]).user_id@),
                );
            assert(rows[i].user_id == raw[i].user_id@);
        }
    }
    r
}

/// The private comments on a submission, each with the public summary of
/// its author; `NotFound` where an author is not a known user.
pub fn private_comments(submission_id: &String, conn: &Database) -> (r: Result<
    Vec<UserComment<PrivateComment>>,
    ApiError,
>)
    ensures
        match with_authors(conn@.private_comments.filter(owned_by(submission_id@)), conn@.users) {
            Some(all) => r is Ok && r->Ok_0.deep_view() == all,
            None => r == Err::<Vec<UserComment<PrivateComment>>, ApiError>(ApiError::NotFound),
        },
{
    let comments = PrivateComment::load_by_submission(submission_id, conn);
    let ghost rows = comments.deep_view();
    let ghost raw = comments@;
    let r = get_comments(comments, conn);
    proof {
        assert forall|i: int| 0 <= i < raw.len() implies (#[trigger] raw[i]).user_id@
            == rows[i].user_id by {}
        if r is Ok {
            let out = r->Ok_0;
            assert forall|i: int| 0 <= i < rows.len() implies crate::seqs::any(
                conn@.users,
                with_user_id((#[trigger] rows[i]).user_id),
            ) by {
                assert(raw[i].user_id@ == rows[i].user_id);
            }
            assert forall|i: int| 0 <= i < rows.len() implies (#[trigger] out.deep_view()[i])
                == with_author(rows[i], conn@.users) by {
                assert(out[i].comment == raw[i]);
                lemma_first(conn@.users, with_user_id(rows[i].user_id));
            }
            assert(out.deep_view() =~= rows.map_values(
                |c: CommentView| with_author(c, conn@.users),
            ));
        } else {
            let i = choose|i: int|
                0 <= i < raw.len() && !crate::seqs::any(
                    conn@.users,
                    with_user_id((#[trigger] raw[i]).user_id@),
                );
            assert(rows[i].user_id == raw[i].user_id@);
        }
    }
    r
}

/// What a student sees of an assignment.
#[derive(Debug, PartialEq, Eq)]
pub struct StudentAssignment {
    pub assignment: Assignment,
    pub submission: Submissions,
    pub assignment_attachments: Vec<ResolvedAttachment>,
    pub submission_attachments: Vec<ResolvedAttachment>,
    pub comments: Vec<UserComment<Comment>>,
    pub private_comments: Vec<UserComment<PrivateComment>>,
}

/// The mathematical value of a [`StudentAssignment`].
pub ghost struct StudentAssignmentView {
    pub assignment: AssignmentView,
    pub submission: SubmissionView,
    pub assignment_attachments: Seq<ResolvedAttachmentView>,
    pub submission_attachments: Seq<ResolvedAttachmentView>,
    pub comments: Seq<UserCommentView<CommentView>>,
    pub private_comments: Seq<UserCommentView<CommentView>>,
}

impl View for StudentAssignment {
    type V = StudentAssignmentView;

    open spec fn view(&self) -> StudentAssignmentView {
        StudentAssignmentView {
            assignment: self.assignment@,
            submission: self.submission@,
            assignment_attachments: self.assignment_attachments.deep_view(),
            submission_attachments: self.submission_attachments.deep_view(),
            comments: self.comments.deep_view(),
            private_comments: self.private_comments.deep_view(),
        }
    }
}

/// What a teacher sees of an assignment.
#[derive(Debug, PartialEq, Eq)]
pub struct TeacherAssignment {
    pub assignment: Assignment,
    pub submissions: Vec<Submissions>,
    pub assignment_attachments: Vec<ResolvedAttachment>,
}

/// The mathematical value of a [`TeacherAssignment`].
pub ghost struct TeacherAssignmentView {
    pub assignment: AssignmentView,
    pub submissions: Seq<SubmissionView>,
    pub assignment_attachments: Seq<ResolvedAttachmentView>,
}

impl View for TeacherAssignment {
    type V = TeacherAssignmentView;

    open spec fn view(&self) -> TeacherAssignmentView {
        TeacherAssignmentView {
            assignment: self.assignment@,
            submissions: self.submissions.deep_view(),
            assignment_attachments: self.assignment_attachments.deep_view(),
        }
    }
}

/// The attachments of an assignment with what they refer to.
pub open spec fn assignment_attachments(db: DatabaseView, id: Seq<char>) -> Option<
    Seq<ResolvedAttachmentView>,
> {
    resolved_all(db.attachments.filter(owned_by_assignment(id)), db.files, db.links)
}

/// The attachments of a submission with what they refer to.
pub open spec fn submission_attachments(db: DatabaseView, id: Seq<char>) -> Option<
    Seq<ResolvedAttachmentView>,
> {
    resolved_all(db.attachments.filter(owned_by_submission(id)), db.files, db.links)
}

/// What the student `key` sees of assignment `id`, where nothing that it
/// refers to is missing.
pub open spec fn student_view(db: DatabaseView, key: Seq<char>, id: Seq<char>) -> Option<
    StudentAssignmentView,
> {
    match (
        first(db.assignments, with_assignment_id(id)),
        first(db.submissions, with_pair(id, key)),
    ) {
        (Some(assignment), Some(submission)) => match (
            with_authors(db.comments.filter(owned_by(id)), db.users),
            with_authors(db.private_comments.filter(owned_by(submission.submission_id)), db.users),
            assignment_attachments(db, id),
            submission_attachments(db, submission.submission_id),
        ) {
            (Some(comments), Some(private_comments), Some(of_assignment), Some(of_submission)) => Some(
                StudentAssignmentView {
                    assignment,
                    submission,
                    assignment_attachments: of_assignment,
                    submission_attachments: of_submission,
                    comments,
                    private_comments,
                },
            ),
            _ => None,
        },
        _ => None,
    }
}

/// Why the student read view fails, if it does. `NotFound`: the actor is
/// unknown. `Forbidden`: the actor is no student, or is not enrolled in the
/// class. `NotFound`: the assignment, the actor's submission for it, or
/// something that they refer to is missing.
pub open spec fn student_view_error(
    db: DatabaseView,
    key: Seq<char>,
    class: Seq<char>,
    id: Seq<char>,
) -> Option<ApiError> {
    match first(db.users, with_user_id(key)) {
        None => Some(ApiError::NotFound),
        Some(actor) => if !may_read_as_student(actor, class, db.students) {
            Some(ApiError::Forbidden)
        } else if student_view(db, key, id) is None {
            Some(ApiError::NotFound)
        } else {
            None
        },
    }
}

/// The student read view: the assignment, the actor's own submission for
/// it, the attachments of both with their files and links, and the public
/// and the private comments with their authors.
pub fn students_assignment(key: &String, class_id: &String, assignment_id: &String, conn: &Database) -> (r:
    Result<StudentAssignment, ApiError>)
    ensures
        match student_view_error(conn@, key@, class_id@, assignment_id@) {
            Some(e) => r == Err::<StudentAssignment, ApiError>(e),
            None => r is Ok && Some(r->Ok_0@) == student_view(conn@, key@, assignment_id@),
        },
{
    let actor = match find_user_index(&conn.users, key) {
        Some(actor) => actor,
        None => {
            return Err(ApiError::NotFound);
        },
    };
    proof {
        lemma_first(conn@.users, with_user_id(key@));
        crate::seqs::lemma_position(conn@.users, with_user_id(key@), 0);
    }
    if !can_read_as_student(&conn.users[actor], class_id, conn) {
        return Err(ApiError::Forbidden);
    }
    let assignment = match Assignment::get_by_id(assignment_id, conn) {
        Ok(assignment) => assignment,
        Err(_) => {
            return Err(ApiError::NotFound);
        },
    };
    let comments = match public_comments(assignment_id, conn) {
        Ok(comments) => comments,
        Err(_) => {
            return Err(ApiError::NotFound);
        },
    };
    let submission = match Submissions::get_by_id(assignment_id, key, conn) {
        Ok(submission) => submission,
        Err(_) => {
            return Err(ApiError::NotFound);
        },
    };
    let private_comments = match private_comments(&submission.submission_id, conn) {
        Ok(private_comments) => private_comments,
        Err(_) => {
            return Err(ApiError::NotFound);
        },
    };
    let of_assignment = Attachment::load_by_assignment_id(assignment_id, conn);
    let of_submission = Attachment::load_by_submission_id(&submission.submission_id, conn);
    let assignment_attachments = match get_attachments(of_assignment, conn) {
        Ok(resolved) => resolved,
        Err(_) => {
            return Err(ApiError::NotFound);
        },
    };
    let submission_attachments = match get_attachments(of_submission, conn) {
        Ok(resolved) => resolved,
        Err(_) => {
            return Err(ApiError::NotFound);
        },
    };
    Ok(
        StudentAssignment {
            assignment,
            submission,
            assignment_attachments,
            submission_attachments,
            comments,
            private_comments,
        },
    )
}

/// What a teacher sees of assignment `id`, where nothing that it refers to
/// is missing: the assignment, all its submissions (there may be none), and
/// its attachments.
pub open spec fn teacher_view(db: DatabaseView, id: Seq<char>) -> Option<TeacherAssignmentView> {
    match (first(db.assignments, with_assignment_id(id)), assignment_attachments(db, id)) {
        (Some(assignment), Some(attachments)) => Some(
            TeacherAssignmentView {
                assignment,
                submissions: db.submissions.filter(of_assignment(id)),
                assignment_attachments: attachments,
            },
        ),
        _ => None,
    }
}

/// Why the teacher read view fails, if it does. `NotFound`: the actor is
/// unknown. `Forbidden`: the actor is a student. `NotFound`: the
/// assignment, or something that its attachments refer to, is missing.
pub open spec fn teacher_view_error(db: DatabaseView, key: Seq<char>, id: Seq<char>) -> Option<
    ApiError,
> {
    match first(db.users, with_user_id(key)) {
        None => Some(ApiError::NotFound),
        Some(actor) => if !may_read_as_teacher(actor) {
            Some(ApiError::Forbidden)
        } else if teacher_view(db, id) is None {
            Some(ApiError::NotFound)
        } else {
            None
        },
    }
}

/// The teacher read view: the assignment, all submissions for it, and its
/// attachments with their files and links.
pub fn teachers_assignment(key: &String, class_id: &String, assignment_id: &String, conn: &Database) -> (r:
    Result<TeacherAssignment, ApiError>)
    ensures
        match teacher_view_error(conn@, key@, assignment_id@) {
            Some(e) => r == Err::<TeacherAssignment, ApiError>(e),
            None => r is Ok && Some(r->Ok_0@) == teacher_view(conn@, assignment_id@),
        },
{
    let actor = match find_user_index(&conn.users, key) {
        Some(actor) => actor,
        None => {
            return Err(ApiError::NotFound);
        },
    };
    proof {
        lemma_first(conn@.users, with_user_id(key@));
        crate::seqs::lemma_position(conn@.users, with_user_id(key@), 0);
    }
    if !can_read_as_teacher(&conn.users[actor]) {
        return Err(ApiError::Forbidden);
    }
    let assignment = match Assignment::get_by_id(assignment_id, conn) {
        Ok(assignment) => assignment,
        Err(_) => {
            return Err(ApiError::NotFound);
        },
    };
    let submissions = Submissions::load_by_assignment(assignment_id, conn);
    let of_assignment = Attachment::load_by_assignment_id(assignment_id, conn);
    let assignment_attachments = match get_attachments(of_assignment, conn) {
        Ok(resolved) => resolved,
        Err(_) => {
            return Err(ApiError::NotFound);
        },
    };
    Ok(TeacherAssignment { assignment, submissions, assignment_attachments })
}

/// The role gate: a student is refused the teacher read view of every
/// assignment, and the deletion of every assignment that exists, whoever
/// created it and whatever the policy.
pub proof fn lemma_students_are_refused(
    db: DatabaseView,
    key: Seq<char>,
    id: Seq<char>,
    policy: DeletePolicy,
)
    requires
        first(db.users, with_user_id(key)) matches Some(actor) && actor.is_student(),
    ensures
        teacher_view_error(db, key, id) == Some(ApiError::Forbidden),
        first(db.assignments, with_assignment_id(id)) is Some ==> delete_error(db, key, id, policy)
            == Some(ApiError::Forbidden),
{
}

/// A student who is not enrolled in the class is refused the student read
/// view of every assignment.
pub proof fn lemma_outsiders_are_refused(
    db: DatabaseView,
    key: Seq<char>,
    class: Seq<char>,
    id: Seq<char>,
)
    requires
        first(db.users, with_user_id(key)) is Some,
        !crate::seqs::any(db.students, crate::roster::of_user_in_class(key, class)),
    ensures
        student_view_error(db, key, class, id) == Some(ApiError::Forbidden),
{
    lemma_first(db.users, with_user_id(key));
}

} // verus!
