use vstd::prelude::*;
use crate::content::{with_file_id, with_link_id, Link, LinkView, UploadedFile, UploadedFileView};
use crate::db::{Database, DatabaseView};
use crate::errors::ApiError;
use crate::outside::local_now_micros;
use crate::seqs::{any, first, lemma_filter_step, lemma_first, position};
use crate::text::{copy_opt, own_opt};

verus! {

/// A file or a link attached to an assignment, a submission or an
/// announcement. A well-formed attachment has exactly one owner and at most
/// one of file and link.
#[derive(Debug, PartialEq, Eq)]
pub struct Attachment {
    pub attachment_id: String,
    pub file_id: Option<String>,
    pub link_id: Option<String>,
    pub assignment_id: Option<String>,
    pub submission_id: Option<String>,
    pub announcement_id: Option<String>,
    pub uploader: String,
    pub created_at: i64,
}

/// The mathematical value of an [`Attachment`].
pub ghost struct AttachmentView {
    pub attachment_id: Seq<char>,
    pub file_id: Option<Seq<char>>,
    pub link_id: Option<Seq<char>>,
    pub assignment_id: Option<Seq<char>>,
    pub submission_id: Option<Seq<char>>,
    pub announcement_id: Option<Seq<char>>,
    pub uploader: Seq<char>,
    pub created_at: i64,
}

/// How many of three optional owner references are set.
pub open spec fn owners_set(
    assignment: Option<Seq<char>>,
    submission: Option<Seq<char>>,
    announcement: Option<Seq<char>>,
) -> nat {
    (if assignment is Some { 1nat } else { 0nat })
        + (if submission is Some { 1nat } else { 0nat })
        + (if announcement is Some { 1nat } else { 0nat })
}

impl AttachmentView {
    /// How many owner references are set.
    pub open spec fn owner_count(self) -> nat {
        owners_set(self.assignment_id, self.submission_id, self.announcement_id)
    }

    /// Exactly one owner, and not both a file and a link.
    pub open spec fn well_formed(self) -> bool {
        self.owner_count() == 1 && !(self.file_id is Some && self.link_id is Some)
    }
}

impl View for Attachment {
    type V = AttachmentView;

    open spec fn view(&self) -> AttachmentView {
        AttachmentView {
            attachment_id: self.attachment_id@,
            file_id: self.file_id.deep_view(),
            link_id: self.link_id.deep_view(),
            assignment_id: self.assignment_id.deep_view(),
            submission_id: self.submission_id.deep_view(),
            announcement_id: self.announcement_id.deep_view(),
            uploader: self.uploader@,
            created_at: self.created_at,
        }
    }
}

impl DeepView for Attachment {
    type V = AttachmentView;

    open spec fn deep_view(&self) -> AttachmentView {
        self@
    }
}

impl Clone for Attachment {
    fn clone(&self) -> (r: Self)
        ensures
            r == *self,
    {
        Attachment {
            attachment_id: self.attachment_id.clone(),
            file_id: copy_opt(&self.file_id),
            link_id: copy_opt(&self.link_id),
            assignment_id: copy_opt(&self.assignment_id),
            submission_id: copy_opt(&self.submission_id),
            announcement_id: copy_opt(&self.announcement_id),
            uploader: self.uploader.clone(),
            created_at: self.created_at,
        }
    }
}

/// What a caller gives to attach something.
#[derive(Debug, PartialEq, Eq)]
pub struct FillableAttachment<'a> {
    pub file_id: Option<&'a str>,
    pub link_id: Option<&'a str>,
    pub assignment_id: Option<&'a str>,
    pub submission_id: Option<&'a str>,
    pub announcement_id: Option<&'a str>,
    pub uploader: &'a str,
}

/// The mathematical value of a [`FillableAttachment`].
pub ghost struct FillableAttachmentView {
    pub file_id: Option<Seq<char>>,
    pub link_id: Option<Seq<char>>,
    pub assignment_id: Option<Seq<char>>,
    pub submission_id: Option<Seq<char>>,
    pub announcement_id: Option<Seq<char>>,
    pub uploader: Seq<char>,
}

impl<'a> View for FillableAttachment<'a> {
    type V = FillableAttachmentView;

    open spec fn view(&self) -> FillableAttachmentView {
        FillableAttachmentView {
            file_id: self.file_id.deep_view(),
            link_id: self.link_id.deep_view(),
            assignment_id: self.assignment_id.deep_view(),
            submission_id: self.submission_id.deep_view(),
            announcement_id: self.announcement_id.deep_view(),
            uploader: self.uploader@,
        }
    }
}

impl FillableAttachmentView {
    /// The attachment that these data make under an identity and a time of
    /// creation.
    pub open spec fn attachment(self, id: Seq<char>, created_at: i64) -> AttachmentView {
        AttachmentView {
            attachment_id: id,
            file_id: self.file_id,
            link_id: self.link_id,
            assignment_id: self.assignment_id,
            submission_id: self.submission_id,
            announcement_id: self.announcement_id,
            uploader: self.uploader,
            created_at,
        }
    }

    /// Exactly one owner, and not both a file and a link.
    pub open spec fn well_formed(self) -> bool {
        owners_set(self.assignment_id, self.submission_id, self.announcement_id) == 1 && !(
        self.file_id is Some && self.link_id is Some)
    }
}

/// The attachments with the identity `id`.
pub open spec fn with_attachment_id(id: Seq<char>) -> spec_fn(AttachmentView) -> bool {
    |a: AttachmentView| a.attachment_id == id
}

/// The attachments that assignment `id` owns.
pub open spec fn owned_by_assignment(id: Seq<char>) -> spec_fn(AttachmentView) -> bool {
    |a: AttachmentView| a.assignment_id == Some(id)
}

/// The attachments that submission `id` owns.
pub open spec fn owned_by_submission(id: Seq<char>) -> spec_fn(AttachmentView) -> bool {
    |a: AttachmentView| a.submission_id == Some(id)
}

/// The attachments that assignment `id` does not own.
pub open spec fn not_owned_by_assignment(id: Seq<char>) -> spec_fn(AttachmentView) -> bool {
    |a: AttachmentView| a.assignment_id != Some(id)
}

/// Why an attachment cannot be created, if it cannot: the data are
/// malformed (`ValidationError`), or the identity is in use
/// (`InternalError`).
pub open spec fn creation_error(
    attachments: Seq<AttachmentView>,
    data: FillableAttachmentView,
    id: Seq<char>,
) -> Option<ApiError> {
    if !data.well_formed() {
        Some(ApiError::ValidationError)
    } else if any(attachments, with_attachment_id(id)) {
        Some(ApiError::InternalError)
    } else {
        None
    }
}

/// An optional text is this text.
pub fn is_text(field: &Option<String>, text: &String) -> (r: bool)
    ensures
        r == (field.deep_view() == Some(text@)),
{
    match field {
        Some(s) => *s == *text,
        None => false,
    }
}

/// The index of the first attachment with the identity `id`.
pub fn find_attachment_index(attachments: &Vec<Attachment>, id: &String) -> (r: Option<usize>)
    ensures
        match r {
            Some(i) => i < attachments.len() && i == position(
                attachments.deep_view(),
                with_attachment_id(id@),
                0,
            ),
            None => position(attachments.deep_view(), with_attachment_id(id@), 0)
                == attachments.len(),
        },
        r is Some <==> any(attachments.deep_view(), with_attachment_id(id@)),
{
    let ghost rows = attachments.deep_view();
    let ghost hit = with_attachment_id(id@);
    proof {
        lemma_first(rows, hit);
    }
    let mut i: usize = 0;
    while i < attachments.len()
        invariant
            i <= attachments.len(),
            rows == attachments.deep_view(),
            hit == with_attachment_id(id@),
            position(rows, hit, 0) == position(rows, hit, i as int),
        decreases attachments.len() - i,
    {
        if attachments[i].attachment_id == *id {
            return Some(i);
        }
        i = i + 1;
    }
    None
}

impl Attachment {
    /// Exactly one owner, and not both a file and a link.
    pub fn is_well_formed(&self) -> (r: bool)
        ensures
            r == self@.well_formed(),
    {
        let mut owners: u8 = 0;
        if self.assignment_id.is_some() {
            owners = owners + 1;
        }
        if self.submission_id.is_some() {
            owners = owners + 1;
        }
        if self.announcement_id.is_some() {
            owners = owners + 1;
        }
        owners == 1 && !(self.file_id.is_some() && self.link_id.is_some())
    }

    /// Stores a new attachment, created at `created_at`, and returns it.
    /// `ValidationError` where the data do not name exactly one owner, or
    /// name both a file and a link; `InternalError` where the identity is in
    /// use. No change on either.
    pub fn create_at(
        new_data: FillableAttachment,
        attachment_id: String,
        created_at: i64,
        conn: &mut Database,
    ) -> (r: Result<Attachment, ApiError>)
        ensures
            match creation_error(old(conn)@.attachments, new_data@, attachment_id@) {
                Some(e) => r == Err::<Attachment, ApiError>(e) && final(conn)@ == old(conn)@,
                None => r is Ok && r->Ok_0@ == new_data@.attachment(attachment_id@, created_at)
                    && final(conn)@ == (DatabaseView {
                    attachments: old(conn)@.attachments.push(r->Ok_0@),
                    ..old(conn)@
                }),
            },
            old(conn)@.consistent() ==> final(conn)@.consistent(),
    {
        let mut owners: u8 = 0;
        if new_data.assignment_id.is_some() {
            owners = owners + 1;
        }
        if new_data.submission_id.is_some() {
            owners = owners + 1;
        }
        if new_data.announcement_id.is_some() {
            owners = owners + 1;
        }
        if owners != 1 || (new_data.file_id.is_some() && new_data.link_id.is_some()) {
            return Err(ApiError::ValidationError);
        }
        let ghost before = conn@;
        if find_attachment_index(&conn.attachments, &attachment_id).is_some() {
            return Err(ApiError::InternalError);
        }
        let row = Attachment {
            attachment_id,
            file_id: own_opt(new_data.file_id),
            link_id: own_opt(new_data.link_id),
            assignment_id: own_opt(new_data.assignment_id),
            submission_id: own_opt(new_data.submission_id),
            announcement_id: own_opt(new_data.announcement_id),
            uploader: new_data.uploader.to_owned(),
            created_at,
        };
        let copy = row.clone();
        conn.attachments.push(row);
        proof {
            assert(conn@.attachments =~= before.attachments.push(copy@));
        }
        Ok(copy)
    }

    /// Stores a new attachment, created now, and returns it.
    /// `ValidationError` where the data do not name exactly one owner, or
    /// name both a file and a link; `InternalError` where the identity is in
    /// use. No change on either.
    pub fn create(new_data: FillableAttachment, attachment_id: String, conn: &mut Database) -> (r:
        Result<Attachment, ApiError>)
        ensures
            match creation_error(old(conn)@.attachments, new_data@, attachment_id@) {
                Some(e) => r == Err::<Attachment, ApiError>(e) && final(conn)@ == old(conn)@,
                None => r is Ok && r->Ok_0@ == new_data@.attachment(
                    attachment_id@,
                    r->Ok_0@.created_at,
                ) && final(conn)@ == (DatabaseView {
                    attachments: old(conn)@.attachments.push(r->Ok_0@),
                    ..old(conn)@
                }),
            },
            old(conn)@.consistent() ==> final(conn)@.consistent(),
    {
        let created_at = local_now_micros();
        Attachment::create_at(new_data, attachment_id, created_at, conn)
    }

    /// The attachments that assignment `assignment_id` owns, in the order
    /// of the table.
    pub fn load_by_assignment_id(assignment_id: &String, conn: &Database) -> (r: Vec<Attachment>)
        ensures
            r.deep_view() == conn@.attachments.filter(owned_by_assignment(assignment_id@)),
    {
        let ghost rows = conn@.attachments;
        let ghost keep = owned_by_assignment(assignment_id@);
        let mut out: Vec<Attachment> = Vec::new();
        let mut i: usize = 0;
        proof {
            reveal(Seq::filter);
            assert(out.deep_view() =~= rows.take(0).filter(keep));
        }
        while i < conn.attachments.len()
            invariant
                i <= conn.attachments.len(),
                rows == conn@.attachments,
                keep == owned_by_assignment(assignment_id@),
                out.deep_view() == rows.take(i as int).filter(keep),
            decreases conn.attachments.len() - i,
        {
            proof {
                lemma_filter_step(rows, keep, i as int);
            }
            if is_text(&conn.attachments[i].assignment_id, assignment_id) {
                let ghost before = out.deep_view();
                out.push(conn.attachments[i].clone());
                assert(out.deep_view() =~= before.push(rows[i as int]));
            }
            i = i + 1;
        }
        proof {
            assert(rows.take(i as int) =~= rows);
        }
        out
    }

    /// The attachments that submission `submission_id` owns, in the order
    /// of the table.
    pub fn load_by_submission_id(submission_id: &String, conn: &Database) -> (r: Vec<Attachment>)
        ensures
            r.deep_view() == conn@.attachments.filter(owned_by_submission(submission_id@)),
    {
        let ghost rows = conn@.attachments;
        let ghost keep = owned_by_submission(submission_id@);
        let mut out: Vec<Attachment> = Vec::new();
        let mut i: usize = 0;
        proof {
            reveal(Seq::filter);
            assert(out.deep_view() =~= rows.take(0).filter(keep));
        }
        while i < conn.attachments.len()
            invariant
                i <= conn.attachments.len(),
                rows == conn@.attachments,
                keep == owned_by_submission(submission_id@),
                out.deep_view() == rows.take(i as int).filter(keep),
            decreases conn.attachments.len() - i,
        {
            proof {
                lemma_filter_step(rows, keep, i as int);
            }
            if is_text(&conn.attachments[i].submission_id, submission_id) {
                let ghost before = out.deep_view();
                out.push(conn.attachments[i].clone());
                assert(out.deep_view() =~= before.push(rows[i as int]));
            }
            i = i + 1;
        }
        proof {
            assert(rows.take(i as int) =~= rows);
        }
        out
    }
}

impl Attachment {
    /// Removes every attachment that assignment `assignment_id` owns.
    pub fn delete_by_assignment_id(assignment_id: &String, conn: &mut Database)
        ensures
            final(conn)@ == (DatabaseView {
                attachments: old(conn)@.attachments.filter(
                    not_owned_by_assignment(assignment_id@),
                ),
                ..old(conn)@
            }),
            old(conn)@.consistent() ==> final(conn)@.consistent(),
    {
        let ghost before = conn@;
        let ghost rows = before.attachments;
        let ghost keep = not_owned_by_assignment(assignment_id@);
        let mut all: Vec<Attachment> = Vec::new();
        core::mem::swap(&mut conn.attachments, &mut all);
        proof {
            reveal(Seq::filter);
            assert(conn@.attachments =~= rows.take(0).filter(keep));
            assert(all.deep_view() == rows);
        }
        let ghost taken = all@;
        for row in it: all.into_iter()
            invariant
                before == old(conn)@,
                rows == before.attachments,
                keep == not_owned_by_assignment(assignment_id@),
                it.seq() == taken,
                taken.len() == rows.len(),
                forall|j: int| 0 <= j < taken.len() ==> (#[trigger] taken[j])@ == rows[j],
                conn@ == (DatabaseView { attachments: conn@.attachments, ..before }),
                conn@.attachments == rows.take(it.index() as int).filter(keep),
        {
            proof {
                lemma_filter_step(rows, keep, it.index() as int);
            }
            if !is_text(&row.assignment_id, assignment_id) {
                let ghost kept = conn@.attachments;
                conn.attachments.push(row);
                assert(conn@.attachments =~= kept.push(rows[it.index() as int]));
            }
        }
        proof {
            assert(rows.take(rows.len() as int) =~= rows);
            let next = rows.filter(keep);
            assert forall|j: int| 0 <= j < next.len() && before.attachments_well_formed() implies (
            #[trigger] next[j]).well_formed() by {
                assert(next.contains(next[j]));
                rows.lemma_filter_contains_rev(keep, next[j]);
            }
        }
    }
}

/// An attachment together with the file and the link that it refers to.
#[derive(Debug, PartialEq, Eq)]
pub struct ResolvedAttachment {
    pub attachment: Attachment,
    pub file: Option<UploadedFile>,
    pub link: Option<Link>,
}

/// The mathematical value of a [`ResolvedAttachment`].
pub ghost struct ResolvedAttachmentView {
    pub attachment: AttachmentView,
    pub file: Option<UploadedFileView>,
    pub link: Option<LinkView>,
}

impl View for ResolvedAttachment {
    type V = ResolvedAttachmentView;

    open spec fn view(&self) -> ResolvedAttachmentView {
        ResolvedAttachmentView {
            attachment: self.attachment@,
            file: self.file.deep_view(),
            link: self.link.deep_view(),
        }
    }
}

impl DeepView for ResolvedAttachment {
    type V = ResolvedAttachmentView;

    open spec fn deep_view(&self) -> ResolvedAttachmentView {
        self@
    }
}

/// The stored file that an attachment refers to.
pub open spec fn file_of(attachment: AttachmentView, files: Seq<UploadedFileView>) -> Option<
    UploadedFileView,
> {
    match attachment.file_id {
        Some(id) => first(files, with_file_id(id)),
        None => None,
    }
}

/// The link that an attachment refers to.
pub open spec fn link_of(attachment: AttachmentView, links: Seq<LinkView>) -> Option<LinkView> {
    match attachment.link_id {
        Some(id) => first(links, with_link_id(id)),
        None => None,
    }
}

/// Every reference that the attachment sets leads to a stored row.
pub open spec fn resolvable(
    attachment: AttachmentView,
    files: Seq<UploadedFileView>,
    links: Seq<LinkView>,
) -> bool {
    &&& attachment.file_id is Some ==> file_of(attachment, files) is Some
    &&& attachment.link_id is Some ==> link_of(attachment, links) is Some
}

/// The attachment with what it refers to.
pub open spec fn resolved(
    attachment: AttachmentView,
    files: Seq<UploadedFileView>,
    links: Seq<LinkView>,
) -> ResolvedAttachmentView {
    ResolvedAttachmentView {
        attachment,
        file: file_of(attachment, files),
        link: link_of(attachment, links),
    }
}

/// All attachments with what they refer to, where each can be resolved.
pub open spec fn resolved_all(
    attachments: Seq<AttachmentView>,
    files: Seq<UploadedFileView>,
    links: Seq<LinkView>,
) -> Option<Seq<ResolvedAttachmentView>> {
    if forall|i: int|
        0 <= i < attachments.len() ==> resolvable(#[trigger] attachments[i], files, links) {
        Some(attachments.map_values(|a: AttachmentView| resolved(a, files, links)))
    } else {
        None
    }
}

/// Resolves one attachment: its file where it names one, its link where it
/// names one. `NotFound` where it names a file or a link that is not
/// stored.
pub fn resolve(attachment: &Attachment, conn: &Database) -> (r: Result<ResolvedAttachment, ApiError>)
    ensures
        if resolvable(attachment@, conn@.files, conn@.links) {
            r is Ok && r->Ok_0@ == resolved(attachment@, conn@.files, conn@.links)
        } else {
            r == Err::<ResolvedAttachment, ApiError>(ApiError::NotFound)
        },
{
    let file = match &attachment.file_id {
        Some(id) => match UploadedFile::receive(id, conn) {
            Ok(f) => Some(f),
            Err(_) => {
                return Err(ApiError::NotFound);
            },
        },
        None => None,
    };
    let link = match &attachment.link_id {
        Some(id) => match Link::receive(id, conn) {
            Ok(l) => Some(l),
            Err(_) => {
                return Err(ApiError::NotFound);
            },
        },
        None => None,
    };
    Ok(ResolvedAttachment { attachment: attachment.clone(), file, link })
}

/// Resolves each attachment, in order. `NotFound` where one of them names a
/// file or a link that is not stored.
pub fn get_attachments(vec: Vec<Attachment>, conn: &Database) -> (r: Result<
    Vec<ResolvedAttachment>,
    ApiError,
>)
    ensures
        match resolved_all(vec.deep_view(), conn@.files, conn@.links) {
            Some(all) => r is Ok && r->Ok_0.deep_view() == all,
            None => r == Err::<Vec<ResolvedAttachment>, ApiError>(ApiError::NotFound),
        },
{
    let ghost rows = vec.deep_view();
    let mut res: Vec<ResolvedAttachment> = Vec::new();
    let mut i: usize = 0;
    while i < vec.len()
        invariant
            i <= vec.len(),
            rows == vec.deep_view(),
            res.len() == i,
            forall|j: int| 0 <= j < i ==> resolvable(#[trigger] rows[j], conn@.files, conn@.links),
            forall|j: int|
                0 <= j < i ==> (#[trigger] res[j])@ == resolved(rows[j], conn@.files, conn@.links),
        decreases vec.len() - i,
    {
        match resolve(&vec[i], conn) {
            Ok(resp) => {
                res.push(resp);
            },
            Err(_) => {
                proof {
                    assert(!resolvable(rows[i as int], conn@.files, conn@.links));
                }
                return Err(ApiError::NotFound);
            },
        }
        i = i + 1;
    }
    proof {
        assert(res.deep_view() =~= rows.map_values(
            |a: AttachmentView| resolved(a, conn@.files, conn@.links),
        ));
    }
    Ok(res)
}

/// In a resolved attachment the file is present exactly where the
/// attachment names one, the link exactly where it names one, and, the
/// attachment being well formed, never both.
pub proof fn lemma_resolution(
    attachment: AttachmentView,
    files: Seq<UploadedFileView>,
    links: Seq<LinkView>,
)
    requires
        resolvable(attachment, files, links),
    ensures
        resolved(attachment, files, links).attachment == attachment,
        resolved(attachment, files, links).file is Some <==> attachment.file_id is Some,
        resolved(attachment, files, links).link is Some <==> attachment.link_id is Some,
        attachment.well_formed() ==> !(resolved(attachment, files, links).file is Some && resolved(
            attachment,
            files,
            links,
        ).link is Some),
{
}

/// Data with no owner, or with two or three, are rejected, whatever the
/// store holds; what is created has exactly one owner.
pub proof fn lemma_one_owner(
    attachments: Seq<AttachmentView>,
    data: FillableAttachmentView,
    id: Seq<char>,
    created_at: i64,
)
    ensures
        owners_set(data.assignment_id, data.submission_id, data.announcement_id) != 1
            ==> creation_error(attachments, data, id) == Some(ApiError::ValidationError),
        creation_error(attachments, data, id) is None ==> data.attachment(
            id,
            created_at,
        ).owner_count() == 1,
{
}

} // verus!
