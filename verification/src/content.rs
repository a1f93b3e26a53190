use vstd::prelude::*;
use crate::db::Database;
use crate::errors::ApiError;
use crate::seqs::{first, position};

verus! {

/// What the file store knows of a stored file.
#[derive(Debug, PartialEq, Eq)]
pub struct UploadedFile {
    pub file_id: String,
    pub file_name: String,
    pub path: String,
}

/// The mathematical value of an [`UploadedFile`].
pub ghost struct UploadedFileView {
    pub file_id: Seq<char>,
    pub file_name: Seq<char>,
    pub path: Seq<char>,
}

impl View for UploadedFile {
    type V = UploadedFileView;

    open spec fn view(&self) -> UploadedFileView {
        UploadedFileView { file_id: self.file_id@, file_name: self.file_name@, path: self.path@ }
    }
}

impl DeepView for UploadedFile {
    type V = UploadedFileView;

    open spec fn deep_view(&self) -> UploadedFileView {
        self@
    }
}

impl Clone for UploadedFile {
    fn clone(&self) -> (r: Self)
        ensures
            r == *self,
    {
        UploadedFile {
            file_id: self.file_id.clone(),
            file_name: self.file_name.clone(),
            path: self.path.clone(),
        }
    }
}

/// What the link store knows of a link.
#[derive(Debug, PartialEq, Eq)]
pub struct Link {
    pub link_id: String,
    pub url: String,
}

/// The mathematical value of a [`Link`].
pub ghost struct LinkView {
    pub link_id: Seq<char>,
    pub url: Seq<char>,
}

impl View for Link {
    type V = LinkView;

    open spec fn view(&self) -> LinkView {
        LinkView { link_id: self.link_id@, url: self.url@ }
    }
}

impl DeepView for Link {
    type V = LinkView;

    open spec fn deep_view(&self) -> LinkView {
        self@
    }
}

impl Clone for Link {
    fn clone(&self) -> (r: Self)
        ensures
            r == *self,
    {
        Link { link_id: self.link_id.clone(), url: self.url.clone() }
    }
}

/// The files with the identity `id`.
pub open spec fn with_file_id(id: Seq<char>) -> spec_fn(UploadedFileView) -> bool {
    |f: UploadedFileView| f.file_id == id
}

/// The links with the identity `id`.
pub open spec fn with_link_id(id: Seq<char>) -> spec_fn(LinkView) -> bool {
    |l: LinkView| l.link_id == id
}

impl UploadedFile {
    /// The stored file with the identity `id`; `NotFound` where there is
    /// none.
    pub fn receive(id: &String, conn: &Database) -> (r: Result<UploadedFile, ApiError>)
        ensures
            match first(conn@.files, with_file_id(id@)) {
                Some(f) => r is Ok && r->Ok_0@ == f,
                None => r == Err::<UploadedFile, ApiError>(ApiError::NotFound),
            },
    {
        let ghost rows = conn@.files;
        let ghost hit = with_file_id(id@);
        let mut i: usize = 0;
        while i < conn.files.len()
            invariant
                i <= conn.files.len(),
                rows == conn@.files,
                hit == with_file_id(id@),
                position(rows, hit, 0) == position(rows, hit, i as int),
            decreases conn.files.len() - i,
        {
            if conn.files[i].file_id == *id {
                return Ok(conn.files[i].clone());
            }
            i = i + 1;
        }
        Err(ApiError::NotFound)
    }
}

impl Link {
    /// The link with the identity `id`; `NotFound` where there is none.
    pub fn receive(id: &String, conn: &Database) -> (r: Result<Link, ApiError>)
        ensures
            match first(conn@.links, with_link_id(id@)) {
                Some(l) => r is Ok && r->Ok_0@ == l,
                None => r == Err::<Link, ApiError>(ApiError::NotFound),
            },
    {
        let ghost rows = conn@.links;
        let ghost hit = with_link_id(id@);
        let mut i: usize = 0;
        while i < conn.links.len()
            invariant
                i <= conn.links.len(),
                rows == conn@.links,
                hit == with_link_id(id@),
                position(rows, hit, 0) == position(rows, hit, i as int),
            decreases conn.links.len() - i,
        {
            if conn.links[i].link_id == *id {
                return Ok(conn.links[i].clone());
            }
            i = i + 1;
        }
        Err(ApiError::NotFound)
    }
}

} // verus!
