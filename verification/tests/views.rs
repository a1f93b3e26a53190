use classroom::access::{
    can_delete, can_draft, can_read_as_student, can_read_as_teacher, DeletePolicy,
};
use classroom::attachments::{Attachment, FillableAttachment};
use classroom::comments::{get_comments, Commenter, UserComment};
use classroom::content::{Link, UploadedFile};
use classroom::db::Database;
use classroom::errors::ApiError;
use classroom::records::{Assignment, Comment, PrivateComment, Student};
use classroom::submissions::Submissions;
use classroom::users::{ResponseUser, User};
use classroom::views::{private_comments, public_comments, students_assignment, teachers_assignment};

fn s(text: &str) -> String {
    text.to_string()
}

fn user(id: &str, name: &str, status: &str) -> User {
    User {
        user_id: s(id),
        fullname: s(name),
        profile_photo: format!("{}.png", id),
        email: format!("{}@school.test", id),
        password: s("$2b$12$secret"),
        birth_place: s("Here"),
        birth_date: 730_000,
        bio: String::new(),
        status: s(status),
        created_at: 1,
    }
}

fn summary(id: &str, name: &str) -> ResponseUser {
    ResponseUser { user_id: s(id), fullname: s(name), profile_photo: format!("{}.png", id) }
}

fn attach(db: &mut Database, id: &str, file: Option<&str>, link: Option<&str>, a: Option<&str>, sub: Option<&str>) {
    let data = FillableAttachment {
        file_id: file,
        link_id: link,
        assignment_id: a,
        submission_id: sub,
        announcement_id: None,
        uploader: "t1",
    };
    Attachment::create_at(data, s(id), 9, db).unwrap();
}

/// Class C1 with a published assignment "abc123", students s1 and s2 with
/// their submissions, attachments and comments; s9 is a student of C2.
fn school() -> Database {
    let mut db = Database::new();
    db.users.push(user("t1", "Ms Teacher", "teacher"));
    db.users.push(user("a1", "Admin", "admin"));
    db.users.push(user("s1", "Stu One", "student"));
    db.users.push(user("s2", "Stu Two", "student"));
    db.users.push(user("s9", "Stu Nine", "student"));
    db.students.push(Student { id: 1, user_id: s("s1"), class_id: s("C1"), created_at: 2 });
    db.students.push(Student { id: 2, user_id: s("s2"), class_id: s("C1"), created_at: 2 });
    db.students.push(Student { id: 3, user_id: s("s9"), class_id: s("C2"), created_at: 2 });
    db.assignments.push(Assignment {
        assignment_id: s("abc123"),
        class_id: s("C1"),
        assignment_name: Some(s("HW1")),
        instructions: Some(s("Read ch1")),
        draft: false,
        creator: Some(s("t1")),
        created_at: 5,
    });
    db.assignments.push(Assignment {
        assignment_id: s("empty"),
        class_id: s("C1"),
        assignment_name: None,
        instructions: None,
        draft: true,
        creator: None,
        created_at: 6,
    });
    for (id, who) in [("sub1", "s1"), ("sub2", "s2")] {
        db.submissions.push(Submissions {
            submission_id: s(id),
            assignment_id: s("abc123"),
            user_id: s(who),
            status: s("in progress"),
        });
    }
    db.files.push(UploadedFile { file_id: s("f1"), file_name: s("notes.pdf"), path: s("/f/1") });
    db.links.push(Link { link_id: s("l1"), url: s("https://example.test/a") });
    attach(&mut db, "at1", Some("f1"), None, Some("abc123"), None);
    attach(&mut db, "at2", None, Some("l1"), None, Some("sub1"));
    attach(&mut db, "at3", None, None, None, Some("sub2"));
    db.comments.push(Comment {
        comment_id: s("c1"),
        assignment_id: s("abc123"),
        user_id: s("s2"),
        body: s("When is it due?"),
        created_at: 10,
    });
    db.comments.push(Comment {
        comment_id: s("c2"),
        assignment_id: s("abc123"),
        user_id: s("t1"),
        body: s("Friday."),
        created_at: 11,
    });
    db.comments.push(Comment {
        comment_id: s("c3"),
        assignment_id: s("empty"),
        user_id: s("t1"),
        body: s("Not yet."),
        created_at: 12,
    });
    db.private_comments.push(PrivateComment {
        comment_id: s("pc1"),
        submission_id: s("sub1"),
        user_id: s("s1"),
        body: s("I need more time."),
        created_at: 13,
    });
    db.private_comments.push(PrivateComment {
        comment_id: s("pc2"),
        submission_id: s("sub2"),
        user_id: s("s2"),
        body: s("Done."),
        created_at: 14,
    });
    db
}

#[test]
fn the_student_view_shows_the_students_own_work() {
    let db = school();
    let got = students_assignment(&s("s1"), &s("C1"), &s("abc123"), &db).unwrap();
    assert_eq!(got.assignment, db.assignments[0]);
    assert_eq!(got.submission, db.submissions[0]);
    assert_eq!(got.assignment_attachments.len(), 1);
    assert_eq!(got.assignment_attachments[0].attachment.attachment_id, "at1");
    assert_eq!(got.assignment_attachments[0].file.as_ref().unwrap().file_name, "notes.pdf");
    assert_eq!(got.assignment_attachments[0].link, None);
    assert_eq!(got.submission_attachments.len(), 1);
    assert_eq!(got.submission_attachments[0].attachment.attachment_id, "at2");
    assert_eq!(got.submission_attachments[0].file, None);
    assert_eq!(got.submission_attachments[0].link.as_ref().unwrap().link_id, "l1");
    assert_eq!(
        got.comments,
        vec![
            UserComment { commenter: summary("s2", "Stu Two"), comment: db.comments[0].clone() },
            UserComment { commenter: summary("t1", "Ms Teacher"), comment: db.comments[1].clone() },
        ]
    );
    assert_eq!(
        got.private_comments,
        vec![UserComment {
            commenter: summary("s1", "Stu One"),
            comment: db.private_comments[0].clone(),
        }]
    );
}

#[test]
fn a_student_of_another_class_is_forbidden() {
    let db = school();
    assert_eq!(
        students_assignment(&s("s9"), &s("C1"), &s("abc123"), &db),
        Err(ApiError::Forbidden)
    );
    assert_eq!(
        students_assignment(&s("s1"), &s("C2"), &s("abc123"), &db),
        Err(ApiError::Forbidden)
    );
}

#[test]
fn the_student_view_is_for_students() {
    let db = school();
    assert_eq!(
        students_assignment(&s("t1"), &s("C1"), &s("abc123"), &db),
        Err(ApiError::Forbidden)
    );
    assert_eq!(
        students_assignment(&s("a1"), &s("C1"), &s("abc123"), &db),
        Err(ApiError::Forbidden)
    );
    assert_eq!(
        students_assignment(&s("ghost"), &s("C1"), &s("abc123"), &db),
        Err(ApiError::NotFound)
    );
}

#[test]
fn the_student_view_needs_assignment_and_submission() {
    let db = school();
    assert_eq!(students_assignment(&s("s1"), &s("C1"), &s("nope"), &db), Err(ApiError::NotFound));
    // The draft exists, but nobody has a submission for it.
    assert_eq!(students_assignment(&s("s1"), &s("C1"), &s("empty"), &db), Err(ApiError::NotFound));
}

#[test]
fn the_student_view_needs_what_it_refers_to() {
    let mut db = school();
    db.comments[1].user_id = s("gone");
    assert_eq!(
        students_assignment(&s("s1"), &s("C1"), &s("abc123"), &db),
        Err(ApiError::NotFound)
    );
    let mut db = school();
    db.private_comments[0].user_id = s("gone");
    assert_eq!(
        students_assignment(&s("s1"), &s("C1"), &s("abc123"), &db),
        Err(ApiError::NotFound)
    );
    assert!(students_assignment(&s("s2"), &s("C1"), &s("abc123"), &db).is_ok());
    let mut db = school();
    db.links.clear();
    assert_eq!(
        students_assignment(&s("s1"), &s("C1"), &s("abc123"), &db),
        Err(ApiError::NotFound)
    );
    assert!(students_assignment(&s("s2"), &s("C1"), &s("abc123"), &db).is_ok());
}

#[test]
fn the_teacher_view_shows_all_submissions() {
    let db = school();
    for who in ["t1", "a1"] {
        let got = teachers_assignment(&s(who), &s("C1"), &s("abc123"), &db).unwrap();
        assert_eq!(got.assignment, db.assignments[0]);
        assert_eq!(got.submissions, db.submissions);
        assert_eq!(got.assignment_attachments.len(), 1);
        assert_eq!(got.assignment_attachments[0].attachment.attachment_id, "at1");
        assert_eq!(got.assignment_attachments[0].file.as_ref().unwrap().file_id, "f1");
    }
}

#[test]
fn the_teacher_view_tolerates_no_submissions() {
    let db = school();
    let got = teachers_assignment(&s("t1"), &s("C1"), &s("empty"), &db).unwrap();
    assert_eq!(got.assignment, db.assignments[1]);
    assert!(got.submissions.is_empty());
    assert!(got.assignment_attachments.is_empty());
}

#[test]
fn the_teacher_view_is_forbidden_to_students() {
    let db = school();
    for who in ["s1", "s2", "s9"] {
        for id in ["abc123", "empty", "nope"] {
            assert_eq!(
                teachers_assignment(&s(who), &s("C1"), &s(id), &db),
                Err(ApiError::Forbidden)
            );
        }
    }
}

#[test]
fn the_teacher_view_needs_actor_assignment_and_files() {
    let mut db = school();
    assert_eq!(teachers_assignment(&s("ghost"), &s("C1"), &s("abc123"), &db), Err(ApiError::NotFound));
    assert_eq!(teachers_assignment(&s("t1"), &s("C1"), &s("nope"), &db), Err(ApiError::NotFound));
    db.files.clear();
    assert_eq!(teachers_assignment(&s("t1"), &s("C1"), &s("abc123"), &db), Err(ApiError::NotFound));
}

#[test]
fn comments_of_both_kinds_get_their_authors() {
    let db = school();
    let public = get_comments(db.comments.clone(), &db).unwrap();
    assert_eq!(public.len(), 3);
    assert_eq!(public[0].commenter, summary("s2", "Stu Two"));
    assert_eq!(public[2].commenter, summary("t1", "Ms Teacher"));
    assert_eq!(public[2].comment, db.comments[2]);
    let private = get_comments(db.private_comments.clone(), &db).unwrap();
    assert_eq!(private.len(), 2);
    assert_eq!(private[1].commenter, summary("s2", "Stu Two"));
    assert_eq!(private[1].comment, db.private_comments[1]);
    assert_eq!(db.comments[0].get_user_id(), "s2");
    assert_eq!(db.private_comments[0].get_user_id(), "s1");
    let none: Vec<Comment> = Vec::new();
    assert_eq!(get_comments(none, &db), Ok(Vec::new()));
}

#[test]
fn a_comment_of_an_unknown_author_is_not_found() {
    let db = school();
    let mut comments = db.comments.clone();
    comments[2].user_id = s("gone");
    assert_eq!(get_comments(comments, &db), Err(ApiError::NotFound));
}

#[test]
fn comments_are_loaded_by_owner() {
    let db = school();
    let got = public_comments(&s("empty"), &db).unwrap();
    assert_eq!(got.len(), 1);
    assert_eq!(got[0].comment.comment_id, "c3");
    assert_eq!(Comment::load_by_assignment(&s("abc123"), &db).len(), 2);
    assert!(Comment::load_by_assignment(&s("sub1"), &db).is_empty());
    let got = private_comments(&s("sub2"), &db).unwrap();
    assert_eq!(got.len(), 1);
    assert_eq!(got[0].comment.comment_id, "pc2");
    assert_eq!(PrivateComment::load_by_submission(&s("sub1"), &db), vec![db.private_comments[0].clone()]);
    assert!(private_comments(&s("abc123"), &db).unwrap().is_empty());
}

#[test]
fn the_gate_decides_by_role_policy_and_enrolment() {
    let db = school();
    let teacher = user("t1", "Ms Teacher", "teacher");
    let other = user("t2", "Mr Other", "teacher");
    let admin = user("a1", "Admin", "admin");
    let student = user("s1", "Stu One", "student");
    let outsider = user("s9", "Stu Nine", "student");
    let published = &db.assignments[0];
    let draft = &db.assignments[1];

    assert!(can_draft(&teacher) && can_draft(&admin) && !can_draft(&student));

    assert!(!can_delete(DeletePolicy::CreatorLocked, &teacher, published));
    assert!(can_delete(DeletePolicy::CreatorLocked, &other, published));
    assert!(can_delete(DeletePolicy::OthersLocked, &teacher, published));
    assert!(!can_delete(DeletePolicy::OthersLocked, &other, published));
    for policy in [DeletePolicy::CreatorLocked, DeletePolicy::OthersLocked] {
        assert!(can_delete(policy, &admin, published));
        assert!(can_delete(policy, &teacher, draft));
        assert!(can_delete(policy, &other, draft));
        assert!(!can_delete(policy, &student, published));
        assert!(!can_delete(policy, &student, draft));
    }

    assert!(can_read_as_student(&student, &s("C1"), &db));
    assert!(!can_read_as_student(&outsider, &s("C1"), &db));
    assert!(can_read_as_student(&outsider, &s("C2"), &db));
    assert!(!can_read_as_student(&teacher, &s("C1"), &db));

    assert!(can_read_as_teacher(&teacher) && can_read_as_teacher(&admin));
    assert!(!can_read_as_teacher(&student));
}
