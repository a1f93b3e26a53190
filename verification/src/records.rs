use vstd::prelude::*;
use crate::text::copy_opt;

verus! {

/// An assignment of a class. While it is a draft, name, instructions and
/// creator may be unset. `created_at` counts microseconds since
/// 1970-01-01 00:00:00.
#[derive(Debug, PartialEq, Eq)]
pub struct Assignment {
    pub assignment_id: String,
    pub class_id: String,
    pub assignment_name: Option<String>,
    pub instructions: Option<String>,
    pub draft: bool,
    pub creator: Option<String>,
    pub created_at: i64,
}

/// The mathematical value of an [`Assignment`].
pub ghost struct AssignmentView {
    pub assignment_id: Seq<char>,
    pub class_id: Seq<char>,
    pub assignment_name: Option<Seq<char>>,
    pub instructions: Option<Seq<char>>,
    pub draft: bool,
    pub creator: Option<Seq<char>>,
    pub created_at: i64,
}

impl View for Assignment {
    type V = AssignmentView;

    open spec fn view(&self) -> AssignmentView {
        AssignmentView {
            assignment_id: self.assignment_id@,
            class_id: self.class_id@,
            assignment_name: self.assignment_name.deep_view(),
            instructions: self.instructions.deep_view(),
            draft: self.draft,
            creator: self.creator.deep_view(),
            created_at: self.created_at,
        }
    }
}

impl DeepView for Assignment {
    type V = AssignmentView;

    open spec fn deep_view(&self) -> AssignmentView {
        self@
    }
}

impl Clone for Assignment {
    fn clone(&self) -> (r: Self)
        ensures
            r == *self,
    {
        Assignment {
            assignment_id: self.assignment_id.clone(),
            class_id: self.class_id.clone(),
            assignment_name: copy_opt(&self.assignment_name),
            instructions: copy_opt(&self.instructions),
            draft: self.draft,
            creator: copy_opt(&self.creator),
            created_at: self.created_at,
        }
    }
}

/// The fields that a publish call may set. An unset name or an unset
/// instruction text leaves the stored one as it is.
#[derive(Debug, PartialEq, Eq)]
pub struct FillableAssignments {
    pub assignment_name: Option<String>,
    pub instructions: Option<String>,
    pub draft: bool,
}

/// The mathematical value of a [`FillableAssignments`].
pub ghost struct FillableAssignmentsView {
    pub assignment_name: Option<Seq<char>>,
    pub instructions: Option<Seq<char>>,
    pub draft: bool,
}

impl View for FillableAssignments {
    type V = FillableAssignmentsView;

    open spec fn view(&self) -> FillableAssignmentsView {
        FillableAssignmentsView {
            assignment_name: self.assignment_name.deep_view(),
            instructions: self.instructions.deep_view(),
            draft: self.draft,
        }
    }
}

/// A publish request: which assignment, and its new fields.
#[derive(Debug, PartialEq, Eq)]
pub struct AssignmentData {
    pub id: String,
    pub assignment: FillableAssignments,
}

/// A comment that everyone in the class may read, owned by an assignment.
#[derive(Debug, PartialEq, Eq)]
pub struct Comment {
    pub comment_id: String,
    pub assignment_id: String,
    pub user_id: String,
    pub body: String,
    pub created_at: i64,
}

/// A comment between a student and the teachers, owned by a submission.
#[derive(Debug, PartialEq, Eq)]
pub struct PrivateComment {
    pub comment_id: String,
    pub submission_id: String,
    pub user_id: String,
    pub body: String,
    pub created_at: i64,
}

/// The mathematical value of a [`Comment`] or a [`PrivateComment`]: `owner`
/// is the assignment of the one, the submission of the other.
pub ghost struct CommentView {
    pub comment_id: Seq<char>,
    pub owner: Seq<char>,
    pub user_id: Seq<char>,
    pub body: Seq<char>,
    pub created_at: i64,
}

impl View for Comment {
    type V = CommentView;

    open spec fn view(&self) -> CommentView {
        CommentView {
            comment_id: self.comment_id@,
            owner: self.assignment_id@,
            user_id: self.user_id@,
            body: self.body@,
            created_at: self.created_at,
        }
    }
}

impl DeepView for Comment {
    type V = CommentView;

    open spec fn deep_view(&self) -> CommentView {
        self@
    }
}

impl Clone for Comment {
    fn clone(&self) -> (r: Self)
        ensures
            r == *self,
    {
        Comment {
            comment_id: self.comment_id.clone(),
            assignment_id: self.assignment_id.clone(),
            user_id: self.user_id.clone(),
            body: self.body.clone(),
            created_at: self.created_at,
        }
    }
}

impl View for PrivateComment {
    type V = CommentView;

    open spec fn view(&self) -> CommentView {
        CommentView {
            comment_id: self.comment_id@,
            owner: self.submission_id@,
            user_id: self.user_id@,
            body: self.body@,
            created_at: self.created_at,
        }
    }
}

impl DeepView for PrivateComment {
    type V = CommentView;

    open spec fn deep_view(&self) -> CommentView {
        self@
    }
}

impl Clone for PrivateComment {
    fn clone(&self) -> (r: Self)
        ensures
            r == *self,
    {
        PrivateComment {
            comment_id: self.comment_id.clone(),
            submission_id: self.submission_id.clone(),
            user_id: self.user_id.clone(),
            body: self.body.clone(),
            created_at: self.created_at,
        }
    }
}

/// The enrolment of a user as a student of a class.
#[derive(Debug, PartialEq, Eq)]
pub struct Student {
    pub id: i32,
    pub user_id: String,
    pub class_id: String,
    pub created_at: i64,
}

/// The enrolment of a user as a teacher of a class.
#[derive(Debug, PartialEq, Eq)]
pub struct Teacher {
    pub id: i32,
    pub user_id: String,
    pub class_id: String,
    pub created_at: i64,
}

/// The enrolment of a user as an administrator of a class.
#[derive(Debug, PartialEq, Eq)]
pub struct Admin {
    pub id: i32,
    pub user_id: String,
    pub class_id: String,
    pub created_at: i64,
}

/// The mathematical value of an enrolment, whatever the role.
pub ghost struct MembershipView {
    pub id: i32,
    pub user_id: Seq<char>,
    pub class_id: Seq<char>,
    pub created_at: i64,
}

impl View for Student {
    type V = MembershipView;

    open spec fn view(&self) -> MembershipView {
        MembershipView {
            id: self.id,
            user_id: self.user_id@,
            class_id: self.class_id@,
            created_at: self.created_at,
        }
    }
}

impl DeepView for Student {
    type V = MembershipView;

    open spec fn deep_view(&self) -> MembershipView {
        self@
    }
}

impl Clone for Student {
    fn clone(&self) -> (r: Self)
        ensures
            r == *self,
    {
        Student {
            id: self.id,
            user_id: self.user_id.clone(),
            class_id: self.class_id.clone(),
            created_at: self.created_at,
        }
    }
}

impl View for Teacher {
    type V = MembershipView;

    open spec fn view(&self) -> MembershipView {
        MembershipView {
            id: self.id,
            user_id: self.user_id@,
            class_id: self.class_id@,
            created_at: self.created_at,
        }
    }
}

impl DeepView for Teacher {
    type V = MembershipView;

    open spec fn deep_view(&self) -> MembershipView {
        self@
    }
}

impl Clone for Teacher {
    fn clone(&self) -> (r: Self)
        ensures
            r == *self,
    {
        Teacher {
            id: self.id,
            user_id: self.user_id.clone(),
            class_id: self.class_id.clone(),
            created_at: self.created_at,
        }
    }
}

impl View for Admin {
    type V = MembershipView;

    open spec fn view(&self) -> MembershipView {
        MembershipView {
            id: self.id,
            user_id: self.user_id@,
            class_id: self.class_id@,
            created_at: self.created_at,
        }
    }
}

impl DeepView for Admin {
    type V = MembershipView;

    open spec fn deep_view(&self) -> MembershipView {
        self@
    }
}

impl Clone for Admin {
    fn clone(&self) -> (r: Self)
        ensures
            r == *self,
    {
        Admin {
            id: self.id,
            user_id: self.user_id.clone(),
            class_id: self.class_id.clone(),
            created_at: self.created_at,
        }
    }
}

} // verus!
