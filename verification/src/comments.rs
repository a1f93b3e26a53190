use vstd::prelude::*;
use crate::db::Database;
use crate::errors::ApiError;
use crate::records::{Comment, CommentView, PrivateComment};
use crate::seqs::{any, first, lemma_filter_step};
use crate::users::{find_user_index, with_user_id, ResponseUser, ResponseUserView, UserView};

verus! {

/// A record that names its author.
pub trait Commenter: Sized {
    /// The identity of the author.
    spec fn author(&self) -> Seq<char>;

    /// The identity of the author.
    fn get_user_id(&self) -> (r: &String)
        ensures
            r@ == self.author(),
    ;
}

impl Commenter for Comment {
    open spec fn author(&self) -> Seq<char> {
        self.user_id@
    }

    fn get_user_id(&self) -> (r: &String) {
        &self.user_id
    }
}

impl Commenter for PrivateComment {
    open spec fn author(&self) -> Seq<char> {
        self.user_id@
    }

    fn get_user_id(&self) -> (r: &String) {
        &self.user_id
    }
}

/// A comment together with the public summary of its author.
#[derive(Debug, PartialEq, Eq)]
pub struct UserComment<T: Commenter> {
    pub commenter: ResponseUser,
    pub comment: T,
}

/// The mathematical value of a [`UserComment`] over comments of value `C`.
pub ghost struct UserCommentView<C> {
    pub commenter: ResponseUserView,
    pub comment: C,
}

impl<T: Commenter + DeepView> DeepView for UserComment<T> {
    type V = UserCommentView<T::V>;

    open spec fn deep_view(&self) -> UserCommentView<T::V> {
        UserCommentView { commenter: self.commenter@, comment: self.comment.deep_view() }
    }
}

/// The comments that assignment or submission `owner` owns.
pub open spec fn owned_by(owner: Seq<char>) -> spec_fn(CommentView) -> bool {
    |c: CommentView| c.owner == owner
}

/// The author of every comment is a known user.
pub open spec fn authors_known(comments: Seq<CommentView>, users: Seq<UserView>) -> bool {
    forall|i: int|
        0 <= i < comments.len() ==> any(users, with_user_id((#[trigger] comments[i]).user_id))
}

/// The comment with the public summary of its author, who is known.
pub open spec fn with_author(comment: CommentView, users: Seq<UserView>) -> UserCommentView<
    CommentView,
> {
    UserCommentView {
        commenter: first(users, with_user_id(comment.user_id))->Some_0.summary(),
        comment,
    }
}

/// All comments with their authors, where every author is known.
pub open spec fn with_authors(comments: Seq<CommentView>, users: Seq<UserView>) -> Option<
    Seq<UserCommentView<CommentView>>,
> {
    if authors_known(comments, users) {
        Some(comments.map_values(|c: CommentView| with_author(c, users)))
    } else {
        None
    }
}

/// Pairs each comment with the public summary of its author, in order:
/// identity, display name and photo, never the password hash or the
/// address. `NotFound` where an author is not a known user.
pub fn get_comments<T: Commenter>(vec: Vec<T>, conn: &Database) -> (r: Result<
    Vec<UserComment<T>>,
    ApiError,
>)
    ensures
        r is Ok <==> forall|i: int|
            0 <= i < vec.len() ==> any(conn@.users, with_user_id((#[trigger] vec[i]).author())),
        r is Err ==> r->Err_0 == ApiError::NotFound,
        r is Ok ==> r->Ok_0.len() == vec.len() && forall|i: int|
            0 <= i < vec.len() ==> (#[trigger] r->Ok_0[i]).comment == vec[i] && Some(
                r->Ok_0[i].commenter@,
            ) == match first(conn@.users, with_user_id(vec[i].author())) {
                Some(u) => Some(u.summary()),
                None => None,
            },
{
    let ghost rows = vec@;
    let mut res: Vec<UserComment<T>> = Vec::new();
    for thing in it: vec.into_iter()
        invariant
            it.seq() == rows,
            res.len() == it.index(),
            forall|j: int|
                0 <= j < it.index() ==> any(
                    conn@.users,
                    with_user_id((#[trigger] rows[j]).author()),
                ),
            forall|j: int|
                0 <= j < it.index() ==> (#[trigger] res[j]).comment == rows[j] && Some(
                    res[j].commenter@,
                ) == match first(conn@.users, with_user_id(rows[j].author())) {
                    Some(u) => Some(u.summary()),
                    None => None,
                },
    {
        match find_user_index(&conn.users, thing.get_user_id()) {
            Some(at) => {
                let resp = UserComment { commenter: ResponseUser::from(&conn.users[at]), comment: thing };
                res.push(resp);
            },
            None => {
                return Err(ApiError::NotFound);
            },
        }
    }
    Ok(res)
}

impl Comment {
    /// The public comments on assignment `assignment_id`, in the order of
    /// the table.
    pub fn load_by_assignment(assignment_id: &String, conn: &Database) -> (r: Vec<Comment>)
        ensures
            r.deep_view() == conn@.comments.filter(owned_by(assignment_id@)),
    {
        let ghost rows = conn@.comments;
        let ghost keep = owned_by(assignment_id@);
        let mut out: Vec<Comment> = Vec::new();
        let mut i: usize = 0;
        proof {
            reveal(Seq::filter);
            assert(out.deep_view() =~= rows.take(0).filter(keep));
        }
        while i < conn.comments.len()
            invariant
                i <= conn.comments.len(),
                rows == conn@.comments,
                keep == owned_by(assignment_id@),
                out.deep_view() == rows.take(i as int).filter(keep),
            decreases conn.comments.len() - i,
        {
            proof {
                lemma_filter_step(rows, keep, i as int);
            }
            if conn.comments[i].assignment_id == *assignment_id {
                let ghost before = out.deep_view();
                out.push(conn.comments[i].clone());
                assert(out.deep_view() =~= before.push(rows[i as int]));
            }
            i = i + 1;
        }
        proof {
            assert(rows.take(i as int) =~= rows);
        }
        out
    }
}

impl PrivateComment {
    /// The private comments on submission `submission_id`, in the order of
    /// the table.
    pub fn load_by_submission(submission_id: &String, conn: &Database) -> (r: Vec<PrivateComment>)
        ensures
            r.deep_view() == conn@.private_comments.filter(owned_by(submission_id@)),
    {
        let ghost rows = conn@.private_comments;
        let ghost keep = owned_by(submission_id@);
        let mut out: Vec<PrivateComment> = Vec::new();
        let mut i: usize = 0;
        proof {
            reveal(Seq::filter);
            assert(out.deep_view() =~= rows.take(0).filter(keep));
        }
        while i < conn.private_comments.len()
            invariant
                i <= conn.private_comments.len(),
                rows == conn@.private_comments,
                keep == owned_by(submission_id@),
                out.deep_view() == rows.take(i as int).filter(keep),
            decreases conn.private_comments.len() - i,
        {
            proof {
                lemma_filter_step(rows, keep, i as int);
            }
            if conn.private_comments[i].submission_id == *submission_id {
                let ghost before = out.deep_view();
                out.push(conn.private_comments[i].clone());
                assert(out.deep_view() =~= before.push(rows[i as int]));
            }
            i = i + 1;
        }
        proof {
            assert(rows.take(i as int) =~= rows);
        }
        out
    }
}

} // verus!
