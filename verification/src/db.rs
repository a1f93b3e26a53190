use vstd::prelude::*;
use crate::attachments::{Attachment, AttachmentView};
use crate::content::{Link, LinkView, UploadedFile, UploadedFileView};
use crate::records::{
    Admin, Assignment, AssignmentView, Comment, CommentView, MembershipView, PrivateComment,
    Student, Teacher,
};
use crate::submissions::{SubmissionView, Submissions};
use crate::users::{User, UserView};

verus! {

/// An in-memory image of the data store: one table per kind of row, each in
/// the order in which the rows were stored.
#[derive(Debug, PartialEq, Eq)]
pub struct Database {
    pub users: Vec<User>,
    pub students: Vec<Student>,
    pub teachers: Vec<Teacher>,
    pub admins: Vec<Admin>,
    pub assignments: Vec<Assignment>,
    pub submissions: Vec<Submissions>,
    pub attachments: Vec<Attachment>,
    pub files: Vec<UploadedFile>,
    pub links: Vec<Link>,
    pub comments: Vec<Comment>,
    pub private_comments: Vec<PrivateComment>,
}

/// The mathematical value of a [`Database`].
pub ghost struct DatabaseView {
    pub users: Seq<UserView>,
    pub students: Seq<MembershipView>,
    pub teachers: Seq<MembershipView>,
    pub admins: Seq<MembershipView>,
    pub assignments: Seq<AssignmentView>,
    pub submissions: Seq<SubmissionView>,
    pub attachments: Seq<AttachmentView>,
    pub files: Seq<UploadedFileView>,
    pub links: Seq<LinkView>,
    pub comments: Seq<CommentView>,
    pub private_comments: Seq<CommentView>,
}

impl View for Database {
    type V = DatabaseView;

    open spec fn view(&self) -> DatabaseView {
        DatabaseView {
            users: self.users.deep_view(),
            students: self.students.deep_view(),
            teachers: self.teachers.deep_view(),
            admins: self.admins.deep_view(),
            assignments: self.assignments.deep_view(),
            submissions: self.submissions.deep_view(),
            attachments: self.attachments.deep_view(),
            files: self.files.deep_view(),
            links: self.links.deep_view(),
            comments: self.comments.deep_view(),
            private_comments: self.private_comments.deep_view(),
        }
    }
}

impl DatabaseView {
    /// No two users share an identity.
    pub open spec fn users_distinct(self) -> bool {
        forall|i: int, j: int|
            0 <= i < j < self.users.len() ==> (#[trigger] self.users[i]).user_id != (
            #[trigger] self.users[j]).user_id
    }

    /// No two assignments share an identity.
    pub open spec fn assignments_distinct(self) -> bool {
        forall|i: int, j: int|
            0 <= i < j < self.assignments.len() ==> (#[trigger] self.assignments[i]).assignment_id
                != (#[trigger] self.assignments[j]).assignment_id
    }

    /// No two submissions share an identity, and no two are of the same
    /// student for the same assignment.
    pub open spec fn submissions_distinct(self) -> bool {
        crate::submissions::distinct(self.submissions)
    }

    /// Every attachment has exactly one owner and at most one of file and
    /// link.
    pub open spec fn attachments_well_formed(self) -> bool {
        forall|i: int|
            0 <= i < self.attachments.len() ==> (#[trigger] self.attachments[i]).well_formed()
    }

    /// The invariant of the store.
    pub open spec fn consistent(self) -> bool {
        &&& self.users_distinct()
        &&& self.assignments_distinct()
        &&& self.submissions_distinct()
        &&& self.attachments_well_formed()
    }
}

/// No two users of the table share an identity.
fn users_are_distinct(users: &Vec<User>) -> (r: bool)
    ensures
        r == forall|i: int, j: int|
            0 <= i < j < users.len() ==> (#[trigger] users[i]).user_id@ != (
            #[trigger] users[j]).user_id@,
{
    let mut j: usize = 0;
    while j < users.len()
        invariant
            j <= users.len(),
            forall|a: int, b: int|
                0 <= a < b < j ==> (#[trigger] users[a]).user_id@ != (#[trigger] users[b]).user_id@,
        decreases users.len() - j,
    {
        let mut i: usize = 0;
        while i < j
            invariant
                i <= j < users.len(),
                forall|a: int| 0 <= a < i ==> (#[trigger] users[a]).user_id@ != users[j as int].user_id@,
            decreases j - i,
        {
            if users[i].user_id == users[j].user_id {
                return false;
            }
            i = i + 1;
        }
        j = j + 1;
    }
    true
}

/// No two assignments of the table share an identity.
fn assignments_are_distinct(assignments: &Vec<Assignment>) -> (r: bool)
    ensures
        r == forall|i: int, j: int|
            0 <= i < j < assignments.len() ==> (#[trigger] assignments[i]).assignment_id@ != (
            #[trigger] assignments[j]).assignment_id@,
{
    let mut j: usize = 0;
    while j < assignments.len()
        invariant
            j <= assignments.len(),
            forall|a: int, b: int|
                0 <= a < b < j ==> (#[trigger] assignments[a]).assignment_id@ != (
                #[trigger] assignments[b]).assignment_id@,
        decreases assignments.len() - j,
    {
        let mut i: usize = 0;
        while i < j
            invariant
                i <= j < assignments.len(),
                forall|a: int|
                    0 <= a < i ==> (#[trigger] assignments[a]).assignment_id@
                        != assignments[j as int].assignment_id@,
            decreases j - i,
        {
            if assignments[i].assignment_id == assignments[j].assignment_id {
                return false;
            }
            i = i + 1;
        }
        j = j + 1;
    }
    true
}

/// No two submissions of the table share an identity, and no two are of
/// the same student for the same assignment.
fn submissions_are_distinct(subs: &Vec<Submissions>) -> (r: bool)
    ensures
        r == crate::submissions::distinct(subs.deep_view()),
{
    let ghost rows = subs.deep_view();
    let mut j: usize = 0;
    while j < subs.len()
        invariant
            j <= subs.len(),
            rows == subs.deep_view(),
            forall|a: int, b: int|
                0 <= a < b < j ==> {
                    &&& (#[trigger] rows[a]).submission_id != (#[trigger] rows[b]).submission_id
                    &&& !(rows[a].assignment_id == rows[b].assignment_id && rows[a].user_id
                        == rows[b].user_id)
                },
        decreases subs.len() - j,
    {
        let mut i: usize = 0;
        while i < j
            invariant
                i <= j < subs.len(),
                rows == subs.deep_view(),
                forall|a: int|
                    0 <= a < i ==> {
                        &&& (#[trigger] rows[a]).submission_id != rows[j as int].submission_id
                        &&& !(rows[a].assignment_id == rows[j as int].assignment_id
                            && rows[a].user_id == rows[j as int].user_id)
                    },
            decreases j - i,
        {
            if subs[i].submission_id == subs[j].submission_id || (subs[i].assignment_id
                == subs[j].assignment_id && subs[i].user_id == subs[j].user_id) {
                proof {
                    assert(rows[i as int] == subs[i as int]@ && rows[j as int] == subs[j as int]@);
                }
                return false;
            }
            i = i + 1;
        }
        j = j + 1;
    }
    true
}

/// Every attachment of the table is well formed.
fn attachments_are_well_formed(attachments: &Vec<Attachment>) -> (r: bool)
    ensures
        r == forall|i: int|
            0 <= i < attachments.len() ==> (#[trigger] attachments[i])@.well_formed(),
{
    let mut i: usize = 0;
    while i < attachments.len()
        invariant
            i <= attachments.len(),
            forall|a: int| 0 <= a < i ==> (#[trigger] attachments[a])@.well_formed(),
        decreases attachments.len() - i,
    {
        if !attachments[i].is_well_formed() {
            return false;
        }
        i = i + 1;
    }
    true
}

impl Database {
    /// Decides the invariant of the store. Every operation of the library
    /// keeps it; tables that were filled by hand can be held to it here.
    pub fn is_consistent(&self) -> (r: bool)
        ensures
            r == self@.consistent(),
    {
        let users = users_are_distinct(&self.users);
        let assignments = assignments_are_distinct(&self.assignments);
        let submissions = submissions_are_distinct(&self.submissions);
        let attachments = attachments_are_well_formed(&self.attachments);
        proof {
            let db = self@;
            if users {
                assert forall|i: int, j: int| 0 <= i < j < db.users.len() implies (
                #[trigger] db.users[i]).user_id != (#[trigger] db.users[j]).user_id by {
                    assert(self.users[i].user_id@ != self.users[j].user_id@);
                }
            } else {
                let (i, j) = choose|i: int, j: int|
                    0 <= i < j < self.users.len() && (#[trigger] self.users[i]).user_id@ == (
                    #[trigger] self.users[j]).user_id@;
                assert(db.users[i].user_id == db.users[j].user_id);
            }
            if assignments {
                assert forall|i: int, j: int| 0 <= i < j < db.assignments.len() implies (
                #[trigger] db.assignments[i]).assignment_id != (
                #[trigger] db.assignments[j]).assignment_id by {
                    assert(self.assignments[i].assignment_id@ != self.assignments[j].assignment_id@);
                }
            } else {
                let (i, j) = choose|i: int, j: int|
                    0 <= i < j < self.assignments.len() && (
                    #[trigger] self.assignments[i]).assignment_id@ == (
                    #[trigger] self.assignments[j]).assignment_id@;
                assert(db.assignments[i].assignment_id == db.assignments[j].assignment_id);
            }
            if attachments {
                assert forall|i: int| 0 <= i < db.attachments.len() implies (
                #[trigger] db.attachments[i]).well_formed() by {
                    assert(self.attachments[i]@.well_formed());
                }
            } else {
                let i = choose|i: int|
                    0 <= i < self.attachments.len() && !(#[trigger] self.attachments[i])@.well_formed();
                assert(!db.attachments[i].well_formed());
            }
        }
        users && assignments && submissions && attachments
    }

    /// The empty store.
    pub fn new() -> (r: Database)
        ensures
            r@.users.len() == 0,
            r@.students.len() == 0,
            r@.teachers.len() == 0,
            r@.admins.len() == 0,
            r@.assignments.len() == 0,
            r@.submissions.len() == 0,
            r@.attachments.len() == 0,
            r@.files.len() == 0,
            r@.links.len() == 0,
            r@.comments.len() == 0,
            r@.private_comments.len() == 0,
            r@.consistent(),
    {
        Database {
            users: Vec::new(),
            students: Vec::new(),
            teachers: Vec::new(),
            admins: Vec::new(),
            assignments: Vec::new(),
            submissions: Vec::new(),
            attachments: Vec::new(),
            files: Vec::new(),
            links: Vec::new(),
            comments: Vec::new(),
            private_comments: Vec::new(),
        }
    }
}

} // verus!
