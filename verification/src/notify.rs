use vstd::prelude::*;
use vstd::string::*;
use crate::records::{Assignment, AssignmentView};
use crate::users::{User, UserView};

verus! {

/// What stands in a notification before the sender's name.
pub const MAIL_HEAD: &'static str =
    "<!DOCTYPE html>\n<html lang=\"en\">\n<head>\n    <meta charset=\"UTF-8\">\n    <meta name=\"viewport\" content=\"width=device-width, initial-scale=1.0\">\n    <title>Hello from Lettre!</title>\n</head>\n<body>\n    <div style=\"display: block; align-items: center;\">\n        <h2 style=\"font-family: Arial, Helvetica, sans-serif;\">";

/// What stands between the heading and the instructions.
pub const MAIL_MIDDLE: &'static str =
    "</h2>\n        <br>\n        <h4 style=\"font-family: Arial, Helvetica, sans-serif;\">";

/// What stands after the instructions.
pub const MAIL_TAIL: &'static str = "</h4>\n    </div>\n</body>\n</html>";

/// One notification for one recipient.
#[derive(Debug, PartialEq, Eq)]
pub struct Mail {
    pub to: String,
    pub subject: String,
    pub html: String,
}

/// The mathematical value of a [`Mail`].
pub ghost struct MailView {
    pub to: Seq<char>,
    pub subject: Seq<char>,
    pub html: Seq<char>,
}

impl View for Mail {
    type V = MailView;

    open spec fn view(&self) -> MailView {
        MailView { to: self.to@, subject: self.subject@, html: self.html@ }
    }
}

impl DeepView for Mail {
    type V = MailView;

    open spec fn deep_view(&self) -> MailView {
        self@
    }
}

/// An optional text, or the empty text where it is unset.
pub open spec fn or_empty(text: Option<Seq<char>>) -> Seq<char> {
    match text {
        Some(s) => s,
        None => Seq::empty(),
    }
}

/// The heading of a notification: who publishes what.
pub open spec fn heading(sender: UserView, assignment: AssignmentView) -> Seq<char> {
    "New Assignment from "@ + sender.fullname + ": "@ + or_empty(assignment.assignment_name)
}

/// The body of a notification: the heading and the instructions in the
/// fixed page.
pub open spec fn body(sender: UserView, assignment: AssignmentView) -> Seq<char> {
    MAIL_HEAD@ + heading(sender, assignment) + MAIL_MIDDLE@ + or_empty(assignment.instructions)
        + MAIL_TAIL@
}

/// The notification of one recipient.
pub open spec fn mail_for(to: Seq<char>, sender: UserView, assignment: AssignmentView) -> MailView {
    MailView { to, subject: heading(sender, assignment), html: body(sender, assignment) }
}

/// One notification per address, in the order of the addresses.
pub open spec fn notifications(
    sender: UserView,
    emails: Seq<Seq<char>>,
    assignment: AssignmentView,
) -> Seq<MailView> {
    emails.map_values(|to: Seq<char>| mail_for(to, sender, assignment))
}

/// Appends an optional text, and nothing where it is unset.
fn append_opt(text: &mut String, part: &Option<String>)
    ensures
        final(text)@ == old(text)@ + or_empty(part.deep_view()),
{
    match part {
        Some(s) => {
            text.append(s.as_str());
        },
        None => {
            assert(text@ + Seq::<char>::empty() =~= text@);
        },
    }
}

/// Renders the notifications of a published assignment: one per address, in
/// order, all with the same subject and body. An unset name or instruction
/// text is rendered as the empty text. Nothing is sent here.
pub fn send_mail(user: &User, emails: &Vec<String>, assignment: &Assignment) -> (r: Vec<Mail>)
    ensures
        r.deep_view() == notifications(user@, emails.deep_view(), assignment@),
{
    let mut subject = "New Assignment from ".to_owned();
    subject.append(user.fullname.as_str());
    subject.append(": ");
    append_opt(&mut subject, &assignment.assignment_name);
    let mut html = MAIL_HEAD.to_owned();
    html.append(subject.as_str());
    html.append(MAIL_MIDDLE);
    append_opt(&mut html, &assignment.instructions);
    html.append(MAIL_TAIL);
    let mut out: Vec<Mail> = Vec::new();
    let mut i: usize = 0;
    while i < emails.len()
        invariant
            i <= emails.len(),
            out.len() == i,
            subject@ == heading(user@, assignment@),
            html@ == body(user@, assignment@),
            forall|j: int|
                0 <= j < i ==> (#[trigger] out[j])@ == mail_for(emails[j]@, user@, assignment@),
        decreases emails.len() - i,
    {
        out.push(Mail { to: emails[i].clone(), subject: subject.clone(), html: html.clone() });
        i = i + 1;
    }
    proof {
        assert(out.deep_view() =~= notifications(user@, emails.deep_view(), assignment@));
    }
    out
}

} // verus!
