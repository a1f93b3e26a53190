use vstd::prelude::*;
use crate::db::Database;
use crate::records::{Assignment, AssignmentView, MembershipView};
use crate::roster::of_user_in_class;
use crate::seqs::any;
use crate::users::{User, UserView};

verus! {

/// Which teachers may not delete a published assignment. The rule as it was
/// observed locks the creator out of deleting what they published; the
/// other reading locks out every teacher but the creator. Drafts are never
/// locked, and administrators never are.
#[derive(Clone, Copy, Debug, PartialEq, Eq, Structural)]
pub enum DeletePolicy {
    /// The teacher who created a published assignment may not delete it.
    CreatorLocked,
    /// Only the teacher who created a published assignment may delete it.
    OthersLocked,
}

/// The actor may create a draft: teachers and administrators.
pub open spec fn may_draft(actor: UserView) -> bool {
    actor.is_teacher() || actor.is_admin()
}

/// The policy locks this teacher out of deleting this published assignment.
pub open spec fn delete_locked(policy: DeletePolicy, actor: UserView, assignment: AssignmentView) -> bool {
    &&& !assignment.draft
    &&& actor.is_teacher()
    &&& match policy {
        DeletePolicy::CreatorLocked => assignment.creator == Some(actor.user_id),
        DeletePolicy::OthersLocked => assignment.creator != Some(actor.user_id),
    }
}

/// The actor may delete the assignment: never a student, and nobody whom
/// the policy locks out.
pub open spec fn may_delete(policy: DeletePolicy, actor: UserView, assignment: AssignmentView) -> bool {
    !actor.is_student() && !delete_locked(policy, actor, assignment)
}

/// The actor may read as a student of the class: a student who is enrolled
/// in it.
pub open spec fn may_read_as_student(
    actor: UserView,
    class: Seq<char>,
    students: Seq<MembershipView>,
) -> bool {
    actor.is_student() && any(students, of_user_in_class(actor.user_id, class))
}

/// The actor may read as a teacher: everyone but students.
pub open spec fn may_read_as_teacher(actor: UserView) -> bool {
    !actor.is_student()
}

/// Decides [`may_draft`].
pub fn can_draft(actor: &User) -> (r: bool)
    ensures
        r == may_draft(actor@),
{
    actor.is_teacher() || actor.is_admin()
}

/// Decides [`may_delete`].
pub fn can_delete(policy: DeletePolicy, actor: &User, assignment: &Assignment) -> (r: bool)
    ensures
        r == may_delete(policy, actor@, assignment@),
{
    if actor.is_student() {
        return false;
    }
    if assignment.draft || !actor.is_teacher() {
        return true;
    }
    let own = match &assignment.creator {
        Some(creator) => *creator == actor.user_id,
        None => false,
    };
    match policy {
        DeletePolicy::CreatorLocked => !own,
        DeletePolicy::OthersLocked => own,
    }
}

/// Decides [`may_read_as_student`].
pub fn can_read_as_student(actor: &User, class_id: &String, conn: &Database) -> (r: bool)
    ensures
        r == may_read_as_student(actor@, class_id@, conn@.students),
{
    actor.is_student() && crate::records::Student::is_enrolled(&actor.user_id, class_id, conn)
}

/// Decides [`may_read_as_teacher`].
pub fn can_read_as_teacher(actor: &User) -> (r: bool)
    ensures
        r == may_read_as_teacher(actor@),
{
    !actor.is_student()
}

} // verus!
