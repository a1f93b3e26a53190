use classroom::access::DeletePolicy;
use classroom::assignments::{delete_assignment, draft, draft_at, update_assignment, Published};
use classroom::attachments::{Attachment, FillableAttachment};
use classroom::db::Database;
use classroom::errors::ApiError;
use classroom::notify::{send_mail, Mail};
use classroom::records::{
    Assignment, AssignmentData, Comment, FillableAssignments, PrivateComment, Student,
};
use classroom::roster::roster_of;
use classroom::submissions::{fan_out, FillableSubmissions, Submissions};
use classroom::users::User;

fn user(id: &str, name: &str, status: &str) -> User {
    User {
        user_id: id.to_string(),
        fullname: name.to_string(),
        profile_photo: format!("{}.png", id),
        email: format!("{}@school.test", id),
        password: String::new(),
        birth_place: "Here".to_string(),
        birth_date: 730_000,
        bio: String::new(),
        status: status.to_string(),
        created_at: 1,
    }
}

fn student(id: i32, user_id: &str, class_id: &str) -> Student {
    Student { id, user_id: user_id.to_string(), class_id: class_id.to_string(), created_at: 2 }
}

/// Class C1 with teacher t1, administrator a1 and students s1, s2; student
/// s9 is enrolled in C2 only.
fn school() -> Database {
    let mut db = Database::new();
    db.users.push(user("t1", "Ms Teacher", "teacher"));
    db.users.push(user("t2", "Mr Other", "teacher"));
    db.users.push(user("a1", "Admin", "admin"));
    db.users.push(user("s1", "Stu One", "student"));
    db.users.push(user("s2", "Stu Two", "student"));
    db.users.push(user("s9", "Stu Nine", "student"));
    db.students.push(student(1, "s1", "C1"));
    db.students.push(student(2, "s2", "C1"));
    db.students.push(student(3, "s9", "C2"));
    db
}

fn fields(name: &str, instructions: &str, draft: bool) -> FillableAssignments {
    FillableAssignments {
        assignment_name: Some(name.to_string()),
        instructions: Some(instructions.to_string()),
        draft,
    }
}

fn request(id: &str, name: &str, instructions: &str, draft: bool) -> AssignmentData {
    AssignmentData { id: id.to_string(), assignment: fields(name, instructions, draft) }
}

fn ids(names: &[&str]) -> Vec<String> {
    names.iter().map(|s| s.to_string()).collect()
}

fn s(text: &str) -> String {
    text.to_string()
}

fn expected_html(sender: &str, name: &str, instructions: &str) -> String {
    format!(
        "<!DOCTYPE html>\n<html lang=\"en\">\n<head>\n    <meta charset=\"UTF-8\">\n    <meta name=\"viewport\" content=\"width=device-width, initial-scale=1.0\">\n    <title>Hello from Lettre!</title>\n</head>\n<body>\n    <div style=\"display: block; align-items: center;\">\n        <h2 style=\"font-family: Arial, Helvetica, sans-serif;\">New Assignment from {}: {}</h2>\n        <br>\n        <h4 style=\"font-family: Arial, Helvetica, sans-serif;\">{}</h4>\n    </div>\n</body>\n</html>",
        sender, name, instructions
    )
}

fn publish_hw1(db: &mut Database, key: &str, new_ids: &[&str]) -> Result<Published, ApiError> {
    update_assignment(&s(key), &s("C1"), request("abc123", "HW1", "Read ch1", false), &ids(new_ids), db)
}

#[test]
fn draft_creates_an_empty_assignment() {
    let mut db = school();
    let got = draft_at(&s("t1"), &s("C1"), s("abc123"), 77, &mut db);
    assert_eq!(got, Ok(s("abc123")));
    assert_eq!(
        db.assignments,
        vec![Assignment {
            assignment_id: s("abc123"),
            class_id: s("C1"),
            assignment_name: None,
            instructions: None,
            draft: true,
            creator: None,
            created_at: 77,
        }]
    );
    assert!(db.submissions.is_empty());
    assert!(db.attachments.is_empty());
}

#[test]
fn draft_takes_the_time_from_the_clock() {
    let mut db = school();
    assert_eq!(draft(&s("a1"), &s("C1"), s("abc123"), &mut db), Ok(s("abc123")));
    assert_eq!(db.assignments.len(), 1);
    assert!(db.assignments[0].draft);
    // Later than 2020-01-01, in microseconds.
    assert!(db.assignments[0].created_at > 1_577_836_800_000_000);
}

#[test]
fn draft_is_refused_to_students_and_strangers() {
    let mut db = school();
    let before = school();
    assert_eq!(draft_at(&s("s1"), &s("C1"), s("abc123"), 1, &mut db), Err(ApiError::Forbidden));
    assert_eq!(draft_at(&s("nobody"), &s("C1"), s("abc123"), 1, &mut db), Err(ApiError::NotFound));
    assert_eq!(db, before);
}

#[test]
fn draft_refuses_an_identity_in_use() {
    let mut db = school();
    assert_eq!(draft_at(&s("t1"), &s("C1"), s("abc123"), 1, &mut db), Ok(s("abc123")));
    let before = db.assignments.clone();
    assert_eq!(
        draft_at(&s("t1"), &s("C1"), s("abc123"), 2, &mut db),
        Err(ApiError::InternalError)
    );
    assert_eq!(db.assignments, before);
}

#[test]
fn publish_scenario() {
    let mut db = school();
    assert_eq!(draft_at(&s("t1"), &s("C1"), s("abc123"), 5, &mut db), Ok(s("abc123")));
    let out = publish_hw1(&mut db, "t1", &["sub1", "sub2"]).unwrap();
    assert!(!out.new_assignment.draft);
    assert_eq!(out.new_assignment.creator, Some(s("t1")));
    assert_eq!(out.new_assignment.assignment_name, Some(s("HW1")));
    assert_eq!(out.new_assignment.instructions, Some(s("Read ch1")));
    assert_eq!(out.new_assignment.assignment_id, "abc123");
    assert_eq!(out.new_assignment.class_id, "C1");
    assert_eq!(out.new_assignment.created_at, 5);
    assert_eq!(db.assignments, vec![out.new_assignment.clone()]);
    assert_eq!(
        db.submissions,
        vec![
            Submissions {
                submission_id: s("sub1"),
                assignment_id: s("abc123"),
                user_id: s("s1"),
                status: s("in progress"),
            },
            Submissions {
                submission_id: s("sub2"),
                assignment_id: s("abc123"),
                user_id: s("s2"),
                status: s("in progress"),
            },
        ]
    );
    let html = expected_html("Ms Teacher", "HW1", "Read ch1");
    assert_eq!(
        out.mails,
        vec![
            Mail {
                to: s("s1@school.test"),
                subject: s("New Assignment from Ms Teacher: HW1"),
                html: html.clone(),
            },
            Mail {
                to: s("s2@school.test"),
                subject: s("New Assignment from Ms Teacher: HW1"),
                html,
            },
        ]
    );
}

#[test]
fn publish_twice_gives_one_submission_per_student() {
    let mut db = school();
    draft_at(&s("t1"), &s("C1"), s("abc123"), 5, &mut db).unwrap();
    publish_hw1(&mut db, "t1", &["sub1", "sub2"]).unwrap();
    let once = db.submissions.clone();
    assert_eq!(once.len(), 2);
    let again = publish_hw1(&mut db, "t1", &["sub3", "sub4"]).unwrap();
    assert_eq!(db.submissions, once);
    assert_eq!(again.mails.len(), 2);
    // Without fresh identities a second run needs none.
    publish_hw1(&mut db, "t1", &[]).unwrap();
    assert_eq!(db.submissions, once);
}

#[test]
fn publish_keeps_the_first_creator() {
    let mut db = school();
    draft_at(&s("t1"), &s("C1"), s("abc123"), 5, &mut db).unwrap();
    publish_hw1(&mut db, "t1", &["sub1", "sub2"]).unwrap();
    let out = update_assignment(
        &s("t2"),
        &s("C1"),
        AssignmentData {
            id: s("abc123"),
            assignment: FillableAssignments {
                assignment_name: None,
                instructions: Some(s("Read ch2")),
                draft: false,
            },
        },
        &ids(&[]),
        &mut db,
    )
    .unwrap();
    assert_eq!(out.new_assignment.creator, Some(s("t1")));
    assert_eq!(out.new_assignment.assignment_name, Some(s("HW1")));
    assert_eq!(out.new_assignment.instructions, Some(s("Read ch2")));
    assert_eq!(out.mails[0].subject, "New Assignment from Ms Teacher: HW1");
}

#[test]
fn publish_creates_only_missing_submissions() {
    let mut db = school();
    draft_at(&s("t1"), &s("C1"), s("abc123"), 5, &mut db).unwrap();
    db.submissions.push(Submissions {
        submission_id: s("old"),
        assignment_id: s("abc123"),
        user_id: s("s1"),
        status: s("handed in"),
    });
    publish_hw1(&mut db, "t1", &["sub1", "sub2"]).unwrap();
    assert_eq!(db.submissions.len(), 2);
    assert_eq!(db.submissions[0].submission_id, "old");
    assert_eq!(db.submissions[0].status, "handed in");
    assert_eq!(db.submissions[1].submission_id, "sub2");
    assert_eq!(db.submissions[1].user_id, "s2");
    assert_eq!(db.submissions[1].status, "in progress");
}

#[test]
fn publish_of_an_unknown_assignment_is_not_found() {
    let mut db = school();
    let before = school();
    assert_eq!(publish_hw1(&mut db, "t1", &["sub1", "sub2"]), Err(ApiError::NotFound));
    assert_eq!(db, before);
}

#[test]
fn publish_by_an_unknown_actor_is_not_found() {
    let mut db = school();
    draft_at(&s("t1"), &s("C1"), s("abc123"), 5, &mut db).unwrap();
    let before = db.assignments.clone();
    assert_eq!(publish_hw1(&mut db, "ghost", &["sub1", "sub2"]), Err(ApiError::NotFound));
    assert_eq!(db.assignments, before);
    assert!(db.submissions.is_empty());
}

#[test]
fn publish_with_an_unknown_student_is_not_found() {
    let mut db = school();
    db.students.push(student(4, "s404", "C1"));
    draft_at(&s("t1"), &s("C1"), s("abc123"), 5, &mut db).unwrap();
    assert_eq!(publish_hw1(&mut db, "t1", &["sub1", "sub2", "sub3"]), Err(ApiError::NotFound));
    assert!(db.submissions.is_empty());
    assert!(db.assignments[0].draft);
}

#[test]
fn publish_rolls_back_when_an_identity_is_in_use() {
    let mut db = school();
    draft_at(&s("t1"), &s("C1"), s("abc123"), 5, &mut db).unwrap();
    db.submissions.push(Submissions {
        submission_id: s("sub2"),
        assignment_id: s("other"),
        user_id: s("s2"),
        status: s("in progress"),
    });
    let before_db = db.submissions.clone();
    assert_eq!(publish_hw1(&mut db, "t1", &["sub1", "sub2"]), Err(ApiError::InternalError));
    assert_eq!(db.submissions, before_db);
    assert!(db.assignments[0].draft);
    assert_eq!(db.assignments[0].creator, None);
}

#[test]
fn publish_fails_when_identities_run_out() {
    let mut db = school();
    draft_at(&s("t1"), &s("C1"), s("abc123"), 5, &mut db).unwrap();
    assert_eq!(publish_hw1(&mut db, "t1", &["sub1"]), Err(ApiError::InternalError));
    assert!(db.submissions.is_empty());
}

#[test]
fn publish_to_an_empty_class_sends_nothing() {
    let mut db = school();
    draft_at(&s("t1"), &s("C3"), s("abc123"), 5, &mut db).unwrap();
    let out = update_assignment(
        &s("t1"),
        &s("C3"),
        request("abc123", "HW1", "Read ch1", false),
        &ids(&[]),
        &mut db,
    )
    .unwrap();
    assert!(out.mails.is_empty());
    assert!(db.submissions.is_empty());
    assert!(!db.assignments[0].draft);
}

#[test]
fn fan_out_skips_a_student_who_stands_twice() {
    let mut db = school();
    let roster = ids(&["s1", "s2", "s1"]);
    assert_eq!(fan_out(&s("abc123"), &roster, &ids(&["i1", "i2", "i3"]), &mut db), Ok(()));
    assert_eq!(db.submissions.len(), 2);
    assert_eq!(db.submissions[0].user_id, "s1");
    assert_eq!(db.submissions[0].submission_id, "i1");
    assert_eq!(db.submissions[1].user_id, "s2");
    assert_eq!(db.submissions[1].submission_id, "i2");
}

#[test]
fn fan_out_refuses_one_identity_for_two_students() {
    let mut db = school();
    let roster = ids(&["s1", "s2"]);
    assert_eq!(
        fan_out(&s("abc123"), &roster, &ids(&["same", "same"]), &mut db),
        Err(ApiError::InternalError)
    );
    assert!(db.submissions.is_empty());
}

#[test]
fn create_submission_is_an_upsert() {
    let mut db = school();
    let first = Submissions::create(
        FillableSubmissions { assignment_id: s("abc123"), user_id: s("s1") },
        s("i1"),
        &mut db,
    )
    .unwrap();
    assert_eq!(first.status, "in progress");
    assert_eq!(first.submission_id, "i1");
    let second = Submissions::create(
        FillableSubmissions { assignment_id: s("abc123"), user_id: s("s1") },
        s("i2"),
        &mut db,
    )
    .unwrap();
    assert_eq!(second, first);
    assert_eq!(db.submissions.len(), 1);
    let clash = Submissions::create(
        FillableSubmissions { assignment_id: s("abc123"), user_id: s("s2") },
        s("i1"),
        &mut db,
    );
    assert_eq!(clash, Err(ApiError::InternalError));
    assert_eq!(db.submissions.len(), 1);
}

#[test]
fn submissions_are_found_by_pair_and_by_assignment() {
    let mut db = school();
    fan_out(&s("abc123"), &ids(&["s1", "s2"]), &ids(&["i1", "i2"]), &mut db).unwrap();
    fan_out(&s("zzz"), &ids(&["s1"]), &ids(&["i3"]), &mut db).unwrap();
    assert_eq!(Submissions::get_by_id(&s("abc123"), &s("s2"), &db).unwrap().submission_id, "i2");
    assert_eq!(Submissions::get_by_id(&s("zzz"), &s("s2"), &db), Err(ApiError::NotFound));
    let all = Submissions::load_by_assignment(&s("abc123"), &db);
    assert_eq!(all.len(), 2);
    assert_eq!(all[0].submission_id, "i1");
    assert_eq!(all[1].submission_id, "i2");
    assert!(Submissions::load_by_assignment(&s("none"), &db).is_empty());
}

#[test]
fn roster_lists_the_students_of_the_class_in_order() {
    let db = school();
    assert_eq!(roster_of(&s("C1"), &db), ids(&["s1", "s2"]));
    assert_eq!(roster_of(&s("C2"), &db), ids(&["s9"]));
    assert!(roster_of(&s("C3"), &db).is_empty());
}

fn attach(db: &mut Database, id: &str, assignment: Option<&str>, submission: Option<&str>) {
    let data = FillableAttachment {
        file_id: None,
        link_id: None,
        assignment_id: assignment,
        submission_id: submission,
        announcement_id: None,
        uploader: "t1",
    };
    Attachment::create_at(data, s(id), 9, db).unwrap();
}

#[test]
fn delete_scenario() {
    let mut db = school();
    draft_at(&s("t1"), &s("C1"), s("abc123"), 5, &mut db).unwrap();
    draft_at(&s("t1"), &s("C1"), s("keep"), 6, &mut db).unwrap();
    attach(&mut db, "at1", Some("abc123"), None);
    attach(&mut db, "at2", Some("keep"), None);
    attach(&mut db, "at3", Some("abc123"), None);
    attach(&mut db, "at4", None, Some("sub1"));
    db.submissions.push(Submissions {
        submission_id: s("sub1"),
        assignment_id: s("abc123"),
        user_id: s("s1"),
        status: s("in progress"),
    });
    db.comments.push(Comment {
        comment_id: s("c1"),
        assignment_id: s("abc123"),
        user_id: s("s1"),
        body: s("hello"),
        created_at: 3,
    });
    db.private_comments.push(PrivateComment {
        comment_id: s("pc1"),
        submission_id: s("sub1"),
        user_id: s("s1"),
        body: s("psst"),
        created_at: 4,
    });
    let got = delete_assignment(&s("t1"), &s("C1"), s("abc123"), DeletePolicy::CreatorLocked, &mut db);
    assert_eq!(got, Ok(()));
    assert_eq!(db.assignments.len(), 1);
    assert_eq!(db.assignments[0].assignment_id, "keep");
    let left: Vec<&str> = db.attachments.iter().map(|a| a.attachment_id.as_str()).collect();
    assert_eq!(left, vec!["at2", "at4"]);
    assert_eq!(db.submissions.len(), 1);
    assert_eq!(db.comments.len(), 1);
    assert_eq!(db.private_comments.len(), 1);
}

#[test]
fn delete_is_forbidden_to_students() {
    let mut db = school();
    draft_at(&s("t1"), &s("C1"), s("abc123"), 5, &mut db).unwrap();
    let before = db.assignments.clone();
    for policy in [DeletePolicy::CreatorLocked, DeletePolicy::OthersLocked] {
        assert_eq!(
            delete_assignment(&s("s1"), &s("C1"), s("abc123"), policy, &mut db),
            Err(ApiError::Forbidden)
        );
    }
    publish_hw1(&mut db, "t1", &["sub1", "sub2"]).unwrap();
    for policy in [DeletePolicy::CreatorLocked, DeletePolicy::OthersLocked] {
        assert_eq!(
            delete_assignment(&s("s1"), &s("C1"), s("abc123"), policy, &mut db),
            Err(ApiError::Forbidden)
        );
    }
    assert_eq!(db.assignments.len(), before.len());
}

#[test]
fn delete_of_something_unknown_is_not_found() {
    let mut db = school();
    draft_at(&s("t1"), &s("C1"), s("abc123"), 5, &mut db).unwrap();
    assert_eq!(
        delete_assignment(&s("t1"), &s("C1"), s("nope"), DeletePolicy::CreatorLocked, &mut db),
        Err(ApiError::NotFound)
    );
    assert_eq!(
        delete_assignment(&s("s1"), &s("C1"), s("nope"), DeletePolicy::CreatorLocked, &mut db),
        Err(ApiError::NotFound)
    );
    assert_eq!(
        delete_assignment(&s("ghost"), &s("C1"), s("abc123"), DeletePolicy::CreatorLocked, &mut db),
        Err(ApiError::NotFound)
    );
    assert_eq!(db.assignments.len(), 1);
}

#[test]
fn delete_policy_that_locks_the_creator() {
    let policy = DeletePolicy::CreatorLocked;
    let mut db = school();
    draft_at(&s("t1"), &s("C1"), s("abc123"), 5, &mut db).unwrap();
    publish_hw1(&mut db, "t1", &["sub1", "sub2"]).unwrap();
    assert_eq!(
        delete_assignment(&s("t1"), &s("C1"), s("abc123"), policy, &mut db),
        Err(ApiError::Forbidden)
    );
    assert_eq!(db.assignments.len(), 1);
    assert_eq!(delete_assignment(&s("t2"), &s("C1"), s("abc123"), policy, &mut db), Ok(()));
    assert!(db.assignments.is_empty());
}

#[test]
fn delete_policy_that_locks_the_others() {
    let policy = DeletePolicy::OthersLocked;
    let mut db = school();
    draft_at(&s("t1"), &s("C1"), s("abc123"), 5, &mut db).unwrap();
    publish_hw1(&mut db, "t1", &["sub1", "sub2"]).unwrap();
    assert_eq!(
        delete_assignment(&s("t2"), &s("C1"), s("abc123"), policy, &mut db),
        Err(ApiError::Forbidden)
    );
    assert_eq!(db.assignments.len(), 1);
    assert_eq!(delete_assignment(&s("t1"), &s("C1"), s("abc123"), policy, &mut db), Ok(()));
    assert!(db.assignments.is_empty());
}

#[test]
fn administrators_and_drafts_are_never_locked() {
    for policy in [DeletePolicy::CreatorLocked, DeletePolicy::OthersLocked] {
        let mut db = school();
        draft_at(&s("t1"), &s("C1"), s("abc123"), 5, &mut db).unwrap();
        publish_hw1(&mut db, "t1", &["sub1", "sub2"]).unwrap();
        assert_eq!(delete_assignment(&s("a1"), &s("C1"), s("abc123"), policy, &mut db), Ok(()));

        let mut db = school();
        draft_at(&s("t1"), &s("C1"), s("abc123"), 5, &mut db).unwrap();
        update_assignment(
            &s("t1"),
            &s("C1"),
            request("abc123", "HW1", "Read ch1", true),
            &ids(&["sub1", "sub2"]),
            &mut db,
        )
        .unwrap();
        assert_eq!(db.assignments[0].creator, Some(s("t1")));
        assert_eq!(delete_assignment(&s("t1"), &s("C1"), s("abc123"), policy, &mut db), Ok(()));

        let mut db = school();
        draft_at(&s("t1"), &s("C1"), s("abc123"), 5, &mut db).unwrap();
        assert_eq!(delete_assignment(&s("t2"), &s("C1"), s("abc123"), policy, &mut db), Ok(()));
    }
}

#[test]
fn mails_are_rendered_one_per_address() {
    let sender = user("t1", "Ms Teacher", "teacher");
    let assignment = Assignment {
        assignment_id: s("abc123"),
        class_id: s("C1"),
        assignment_name: Some(s("HW1")),
        instructions: Some(s("Read ch1")),
        draft: false,
        creator: Some(s("t1")),
        created_at: 5,
    };
    let mails = send_mail(&sender, &ids(&["a@x.test", "b@x.test", "a@x.test"]), &assignment);
    assert_eq!(mails.len(), 3);
    assert_eq!(mails[0].to, "a@x.test");
    assert_eq!(mails[1].to, "b@x.test");
    assert_eq!(mails[2].to, "a@x.test");
    for mail in &mails {
        assert_eq!(mail.subject, "New Assignment from Ms Teacher: HW1");
        assert_eq!(mail.html, expected_html("Ms Teacher", "HW1", "Read ch1"));
    }
    assert!(send_mail(&sender, &ids(&[]), &assignment).is_empty());
}

#[test]
fn mails_render_unset_texts_as_empty() {
    let sender = user("t1", "Ms Teacher", "teacher");
    let assignment = Assignment {
        assignment_id: s("abc123"),
        class_id: s("C1"),
        assignment_name: None,
        instructions: None,
        draft: true,
        creator: None,
        created_at: 5,
    };
    let mails = send_mail(&sender, &ids(&["a@x.test"]), &assignment);
    assert_eq!(mails[0].subject, "New Assignment from Ms Teacher: ");
    assert_eq!(mails[0].html, expected_html("Ms Teacher", "", ""));
}

#[test]
fn the_operations_keep_the_store_consistent() {
    let mut db = school();
    assert!(db.is_consistent());
    draft_at(&s("t1"), &s("C1"), s("abc123"), 5, &mut db).unwrap();
    attach(&mut db, "at1", Some("abc123"), None);
    publish_hw1(&mut db, "t1", &["sub1", "sub2"]).unwrap();
    publish_hw1(&mut db, "t1", &["sub3", "sub4"]).unwrap();
    assert!(db.is_consistent());
    delete_assignment(&s("a1"), &s("C1"), s("abc123"), DeletePolicy::CreatorLocked, &mut db).unwrap();
    assert!(db.is_consistent());
}

#[test]
fn inconsistent_tables_are_recognised() {
    let mut db = school();
    db.users.push(user("s1", "Twin", "teacher"));
    assert!(!db.is_consistent());

    let mut db = school();
    draft_at(&s("t1"), &s("C1"), s("abc123"), 5, &mut db).unwrap();
    let twin = db.assignments[0].clone();
    db.assignments.push(twin);
    assert!(!db.is_consistent());

    let row = |id: &str, a: &str, u: &str| Submissions {
        submission_id: s(id),
        assignment_id: s(a),
        user_id: s(u),
        status: s("in progress"),
    };
    let mut db = school();
    db.submissions.push(row("i1", "a", "s1"));
    db.submissions.push(row("i2", "a", "s2"));
    db.submissions.push(row("i3", "b", "s1"));
    assert!(db.is_consistent());
    db.submissions.push(row("i4", "a", "s2"));
    assert!(!db.is_consistent());
    db.submissions.pop();
    db.submissions.push(row("i1", "c", "s9"));
    assert!(!db.is_consistent());

    let mut db = school();
    attach(&mut db, "at1", Some("abc123"), None);
    assert!(db.attachments[0].is_well_formed());
    db.attachments[0].submission_id = Some(s("sub1"));
    assert!(!db.attachments[0].is_well_formed());
    assert!(!db.is_consistent());
    db.attachments[0].submission_id = None;
    db.attachments[0].assignment_id = None;
    assert!(!db.is_consistent());
    db.attachments[0].announcement_id = Some(s("n1"));
    assert!(db.is_consistent());
    db.attachments[0].file_id = Some(s("f1"));
    db.attachments[0].link_id = Some(s("l1"));
    assert!(!db.is_consistent());
}

#[test]
fn publishing_needs_a_name() {
    let mut db = school();
    draft_at(&s("t1"), &s("C1"), s("abc123"), 5, &mut db).unwrap();
    let before = db.assignments.clone();
    let unnamed = |name: Option<&str>, draft: bool| AssignmentData {
        id: s("abc123"),
        assignment: FillableAssignments {
            assignment_name: name.map(s),
            instructions: Some(s("Read ch1")),
            draft,
        },
    };
    let all = ids(&["sub1", "sub2"]);
    assert_eq!(
        update_assignment(&s("t1"), &s("C1"), unnamed(None, false), &all, &mut db),
        Err(ApiError::ValidationError)
    );
    assert_eq!(
        update_assignment(&s("t1"), &s("C1"), unnamed(Some(""), false), &all, &mut db),
        Err(ApiError::ValidationError)
    );
    assert_eq!(db.assignments, before);
    assert!(db.submissions.is_empty());
    // A draft may be saved without a name.
    let saved = update_assignment(&s("t1"), &s("C1"), unnamed(None, true), &all, &mut db).unwrap();
    assert!(saved.new_assignment.draft);
    assert_eq!(saved.new_assignment.assignment_name, None);
    assert_eq!(saved.new_assignment.instructions, Some(s("Read ch1")));
    assert_eq!(saved.mails[0].subject, "New Assignment from Ms Teacher: ");
    assert_eq!(db.submissions.len(), 2);
}
