use vstd::prelude::*;
use crate::db::{Database, DatabaseView};
use crate::errors::ApiError;
use crate::seqs::{any, first, lemma_filter_step, lemma_first, lemma_position, position};

verus! {

/// One student's submission for one assignment.
#[derive(Debug, PartialEq, Eq)]
pub struct Submissions {
    pub submission_id: String,
    pub assignment_id: String,
    pub user_id: String,
    pub status: String,
}

/// The mathematical value of a [`Submissions`] row.
pub ghost struct SubmissionView {
    pub submission_id: Seq<char>,
    pub assignment_id: Seq<char>,
    pub user_id: Seq<char>,
    pub status: Seq<char>,
}

impl View for Submissions {
    type V = SubmissionView;

    open spec fn view(&self) -> SubmissionView {
        SubmissionView {
            submission_id: self.submission_id@,
            assignment_id: self.assignment_id@,
            user_id: self.user_id@,
            status: self.status@,
        }
    }
}

impl DeepView for Submissions {
    type V = SubmissionView;

    open spec fn deep_view(&self) -> SubmissionView {
        self@
    }
}

impl Clone for Submissions {
    fn clone(&self) -> (r: Self)
        ensures
            r == *self,
    {
        Submissions {
            submission_id: self.submission_id.clone(),
            assignment_id: self.assignment_id.clone(),
            user_id: self.user_id.clone(),
            status: self.status.clone(),
        }
    }
}

/// The natural key of a submission still to be created.
#[derive(Debug, PartialEq, Eq)]
pub struct FillableSubmissions {
    pub assignment_id: String,
    pub user_id: String,
}

/// The submissions of student `user` for assignment `assignment`.
pub open spec fn with_pair(assignment: Seq<char>, user: Seq<char>) -> spec_fn(
    SubmissionView,
) -> bool {
    |s: SubmissionView| s.assignment_id == assignment && s.user_id == user
}

/// The submissions with the identity `id`.
pub open spec fn with_id(id: Seq<char>) -> spec_fn(SubmissionView) -> bool {
    |s: SubmissionView| s.submission_id == id
}

/// The submissions for assignment `assignment`.
pub open spec fn of_assignment(assignment: Seq<char>) -> spec_fn(SubmissionView) -> bool {
    |s: SubmissionView| s.assignment_id == assignment
}

/// A submission as it is first created.
pub open spec fn in_progress(id: Seq<char>, assignment: Seq<char>, user: Seq<char>) -> SubmissionView {
    SubmissionView {
        submission_id: id,
        assignment_id: assignment,
        user_id: user,
        status: "in progress"@,
    }
}

/// The table after making sure that `user` has a submission for
/// `assignment`: unchanged where there is one, else with a new row under the
/// identity `id`. `None` where a row is needed and `id` is already in use.
pub open spec fn ensured(
    subs: Seq<SubmissionView>,
    id: Seq<char>,
    assignment: Seq<char>,
    user: Seq<char>,
) -> Option<Seq<SubmissionView>> {
    if any(subs, with_pair(assignment, user)) {
        Some(subs)
    } else if any(subs, with_id(id)) {
        None
    } else {
        Some(subs.push(in_progress(id, assignment, user)))
    }
}

/// The table after the fan-out over the roster from index `i` on. The
/// student at `roster[j]` gets a row only where there is none yet, under the
/// identity `ids[j]`. `None` where a row is needed and there is no such
/// identity or it is already in use.
pub open spec fn fanned_out_from(
    subs: Seq<SubmissionView>,
    assignment: Seq<char>,
    roster: Seq<Seq<char>>,
    ids: Seq<Seq<char>>,
    i: int,
) -> Option<Seq<SubmissionView>>
    decreases roster.len() - i,
{
    if i < 0 || i >= roster.len() {
        Some(subs)
    } else if any(subs, with_pair(assignment, roster[i])) {
        fanned_out_from(subs, assignment, roster, ids, i + 1)
    } else if i >= ids.len() || any(subs, with_id(ids[i])) {
        None
    } else {
        fanned_out_from(
            subs.push(in_progress(ids[i], assignment, roster[i])),
            assignment,
            roster,
            ids,
            i + 1,
        )
    }
}

/// The table after the fan-out over the whole roster.
pub open spec fn fanned_out(
    subs: Seq<SubmissionView>,
    assignment: Seq<char>,
    roster: Seq<Seq<char>>,
    ids: Seq<Seq<char>>,
) -> Option<Seq<SubmissionView>> {
    fanned_out_from(subs, assignment, roster, ids, 0)
}

/// The index of the first submission of `user` for `assignment`.
pub fn find_pair(subs: &Vec<Submissions>, assignment: &String, user: &String) -> (r: Option<usize>)
    ensures
        match r {
            Some(i) => i < subs.len() && i == position(
                subs.deep_view(),
                with_pair(assignment@, user@),
                0,
            ),
            None => position(subs.deep_view(), with_pair(assignment@, user@), 0) == subs.len(),
        },
        r is Some <==> any(subs.deep_view(), with_pair(assignment@, user@)),
{
    let ghost rows = subs.deep_view();
    let ghost hit = with_pair(assignment@, user@);
    proof {
        lemma_first(rows, hit);
    }
    let mut i: usize = 0;
    while i < subs.len()
        invariant
            i <= subs.len(),
            rows == subs.deep_view(),
            hit == with_pair(assignment@, user@),
            position(rows, hit, 0) == position(rows, hit, i as int),
        decreases subs.len() - i,
    {
        if subs[i].assignment_id == *assignment && subs[i].user_id == *user {
            return Some(i);
        }
        i = i + 1;
    }
    None
}

/// The index of the first submission with the identity `id`.
pub fn find_id(subs: &Vec<Submissions>, id: &String) -> (r: Option<usize>)
    ensures
        match r {
            Some(i) => i < subs.len() && i == position(subs.deep_view(), with_id(id@), 0),
            None => position(subs.deep_view(), with_id(id@), 0) == subs.len(),
        },
        r is Some <==> any(subs.deep_view(), with_id(id@)),
{
    let ghost rows = subs.deep_view();
    let ghost hit = with_id(id@);
    proof {
        lemma_first(rows, hit);
    }
    let mut i: usize = 0;
    while i < subs.len()
        invariant
            i <= subs.len(),
            rows == subs.deep_view(),
            hit == with_id(id@),
            position(rows, hit, 0) == position(rows, hit, i as int),
        decreases subs.len() - i,
    {
        if subs[i].submission_id == *id {
            return Some(i);
        }
        i = i + 1;
    }
    None
}

impl Submissions {
    /// The submission of `user_id` for `assignment_id`; `NotFound` where
    /// there is none.
    pub fn get_by_id(assignment_id: &String, user_id: &String, conn: &Database) -> (r: Result<
        Submissions,
        ApiError,
    >)
        ensures
            match first(conn@.submissions, with_pair(assignment_id@, user_id@)) {
                Some(row) => r is Ok && r->Ok_0@ == row,
                None => r == Err::<Submissions, ApiError>(ApiError::NotFound),
            },
    {
        match find_pair(&conn.submissions, assignment_id, user_id) {
            Some(i) => Ok(conn.submissions[i].clone()),
            None => Err(ApiError::NotFound),
        }
    }

    /// All submissions for `assignment_id`, in the order of the table.
    pub fn load_by_assignment(assignment_id: &String, conn: &Database) -> (r: Vec<Submissions>)
        ensures
            r.deep_view() == conn@.submissions.filter(of_assignment(assignment_id@)),
    {
        let ghost rows = conn@.submissions;
        let ghost keep = of_assignment(assignment_id@);
        let mut out: Vec<Submissions> = Vec::new();
        let mut i: usize = 0;
        proof {
            assert(rows.take(0) =~= Seq::<SubmissionView>::empty());
            reveal(Seq::filter);
            assert(out.deep_view() =~= rows.take(0).filter(keep));
        }
        while i < conn.submissions.len()
            invariant
                i <= conn.submissions.len(),
                rows == conn@.submissions,
                keep == of_assignment(assignment_id@),
                out.deep_view() == rows.take(i as int).filter(keep),
            decreases conn.submissions.len() - i,
        {
            proof {
                lemma_filter_step(rows, keep, i as int);
            }
            if conn.submissions[i].assignment_id == *assignment_id {
                let ghost before = out.deep_view();
                let row = conn.submissions[i].clone();
                out.push(row);
                assert(out.deep_view() =~= before.push(rows[i as int]));
            }
            i = i + 1;
        }
        proof {
            assert(rows.take(i as int) =~= rows);
        }
        out
    }

    /// Makes sure that the student has a submission for the assignment and
    /// returns it. A new row gets the identity `submission_id` and the status
    /// "in progress"; an existing row is left as it is. `InternalError`, and
    /// no change, where a row is needed and the identity is already in use.
    pub fn create(new_data: FillableSubmissions, submission_id: String, conn: &mut Database) -> (r:
        Result<Submissions, ApiError>)
        ensures
            match ensured(
                old(conn)@.submissions,
                submission_id@,
                new_data.assignment_id@,
                new_data.user_id@,
            ) {
                Some(next) => r is Ok && final(conn)@ == (DatabaseView {
                    submissions: next,
                    ..old(conn)@
                }) && Some(r->Ok_0@) == first(
                    next,
                    with_pair(new_data.assignment_id@, new_data.user_id@),
                ),
                None => r == Err::<Submissions, ApiError>(ApiError::InternalError) && final(conn)@
                    == old(conn)@,
            },
    {
        let ghost rows = conn@.submissions;
        let ghost hit = with_pair(new_data.assignment_id@, new_data.user_id@);
        if let Some(i) = find_pair(&conn.submissions, &new_data.assignment_id, &new_data.user_id) {
            return Ok(conn.submissions[i].clone());
        }
        if find_id(&conn.submissions, &submission_id).is_some() {
            return Err(ApiError::InternalError);
        }
        let row = Submissions {
            submission_id,
            assignment_id: new_data.assignment_id,
            user_id: new_data.user_id,
            status: "in progress".to_owned(),
        };
        let copy = row.clone();
        conn.submissions.push(row);
        proof {
            let next = rows.push(copy@);
            assert(conn@.submissions =~= next);
            lemma_position(rows, hit, 0);
            assert forall|j: int| 0 <= j < rows.len() implies !hit(#[trigger] next[j]) by {
                assert(next[j] == rows[j]);
            }
            assert(hit(next[rows.len() as int]));
            crate::seqs::lemma_first_at(next, hit, rows.len() as int);
        }
        Ok(copy)
    }
}

/// Makes sure that every student of the roster has a submission for the
/// assignment. The student at `roster[j]` gets a new row only where there is
/// none yet, under the identity `ids[j]`. `InternalError`, and no change at
/// all, where a row is needed and there is no such identity or it is in use.
pub fn fan_out(assignment_id: &String, roster: &Vec<String>, ids: &Vec<String>, conn: &mut Database) -> (r:
    Result<(), ApiError>)
    ensures
        match fanned_out(
            old(conn)@.submissions,
            assignment_id@,
            roster.deep_view(),
            ids.deep_view(),
        ) {
            Some(next) => r is Ok && final(conn)@ == (DatabaseView {
                submissions: next,
                ..old(conn)@
            }),
            None => r == Err::<(), ApiError>(ApiError::InternalError) && final(conn)@ == old(
                conn,
            )@,
        },
{
    let ghost before = conn@;
    let ghost names = roster.deep_view();
    let ghost fresh = ids.deep_view();
    let start = conn.submissions.len();
    let mut i: usize = 0;
    while i < roster.len()
        invariant
            i <= roster.len(),
            names == roster.deep_view(),
            fresh == ids.deep_view(),
            before == old(conn)@,
            start == before.submissions.len(),
            start <= conn.submissions.len(),
            conn@.submissions.take(start as int) == before.submissions,
            conn@ == (DatabaseView { submissions: conn@.submissions, ..before }),
            fanned_out_from(before.submissions, assignment_id@, names, fresh, 0) == fanned_out_from(
                conn@.submissions,
                assignment_id@,
                names,
                fresh,
                i as int,
            ),
        decreases roster.len() - i,
    {
        if find_pair(&conn.submissions, assignment_id, &roster[i]).is_none() {
            let ghost rows = conn@.submissions;
            if i >= ids.len() || find_id(&conn.submissions, &ids[i]).is_some() {
                proof {
                    assert(fanned_out_from(rows, assignment_id@, names, fresh, i as int) is None);
                }
                conn.submissions.truncate(start);
                proof {
                    assert(conn@.submissions =~= rows.take(start as int));
                }
                return Err(ApiError::InternalError);
            }
            let row = Submissions {
                submission_id: ids[i].clone(),
                assignment_id: assignment_id.clone(),
                user_id: roster[i].clone(),
                status: "in progress".to_owned(),
            };
            conn.submissions.push(row);
            proof {
                assert(conn@.submissions =~= rows.push(
                    in_progress(fresh[i as int], assignment_id@, names[i as int]),
                ));
                assert(conn@.submissions.take(start as int) =~= rows.take(start as int));
            }
        }
        i = i + 1;
    }
    Ok(())
}

/// No two rows share an identity, and no two are of the same student for the
/// same assignment.
pub open spec fn distinct(subs: Seq<SubmissionView>) -> bool {
    forall|i: int, j: int|
        0 <= i < j < subs.len() ==> {
            &&& (#[trigger] subs[i]).submission_id != (#[trigger] subs[j]).submission_id
            &&& !(subs[i].assignment_id == subs[j].assignment_id && subs[i].user_id
                == subs[j].user_id)
        }
}

/// No student stands twice in the roster.
pub open spec fn roster_distinct(roster: Seq<Seq<char>>) -> bool {
    forall|i: int, j: int| 0 <= i < j < roster.len() ==> #[trigger] roster[i] != #[trigger] roster[j]
}

/// A new row for a pair that has none, under an identity that is not in
/// use, keeps the rows distinct.
pub proof fn lemma_push_distinct(
    subs: Seq<SubmissionView>,
    id: Seq<char>,
    assignment: Seq<char>,
    user: Seq<char>,
)
    requires
        distinct(subs),
        !any(subs, with_pair(assignment, user)),
        !any(subs, with_id(id)),
    ensures
        distinct(subs.push(in_progress(id, assignment, user))),
{
    let next = subs.push(in_progress(id, assignment, user));
    assert forall|i: int, j: int| 0 <= i < j < next.len() implies {
        &&& (#[trigger] next[i]).submission_id != (#[trigger] next[j]).submission_id
        &&& !(next[i].assignment_id == next[j].assignment_id && next[i].user_id == next[j].user_id)
    } by {
        if j == subs.len() {
            assert(!with_id(id)(subs[i]));
            assert(!with_pair(assignment, user)(subs[i]));
        } else {
            assert(next[i] == subs[i] && next[j] == subs[j]);
        }
    }
}

/// `row` is a submission in progress for the assignment, of a student who
/// stands in the roster at or after index `i`, under that student's identity
/// from `ids`.
pub open spec fn created_for(
    row: SubmissionView,
    assignment: Seq<char>,
    roster: Seq<Seq<char>>,
    ids: Seq<Seq<char>>,
    i: int,
) -> bool {
    exists|j: int|
        i <= j < roster.len() && j < ids.len() && row == #[trigger] in_progress(
            ids[j],
            assignment,
            roster[j],
        )
}

/// The fan-out only appends: the rows that were there stay where they are,
/// and each new row is a submission in progress for the assignment, of a
/// student of the roster, under that student's identity from `ids`.
pub proof fn lemma_fan_out_appends(
    subs: Seq<SubmissionView>,
    assignment: Seq<char>,
    roster: Seq<Seq<char>>,
    ids: Seq<Seq<char>>,
    i: int,
)
    requires
        0 <= i,
        fanned_out_from(subs, assignment, roster, ids, i) is Some,
    ensures
        ({
            let next = fanned_out_from(subs, assignment, roster, ids, i)->Some_0;
            &&& subs.len() <= next.len()
            &&& next.take(subs.len() as int) == subs
            &&& forall|k: int|
                subs.len() <= k < next.len() ==> created_for(
                    #[trigger] next[k],
                    assignment,
                    roster,
                    ids,
                    i,
                )
        }),
    decreases roster.len() - i,
{
    let next = fanned_out_from(subs, assignment, roster, ids, i)->Some_0;
    if i >= roster.len() {
        assert(next.take(subs.len() as int) =~= subs);
    } else if any(subs, with_pair(assignment, roster[i])) {
        lemma_fan_out_appends(subs, assignment, roster, ids, i + 1);
        assert forall|k: int| subs.len() <= k < next.len() implies created_for(
            #[trigger] next[k],
            assignment,
            roster,
            ids,
            i,
        ) by {
            assert(created_for(next[k], assignment, roster, ids, i + 1));
            let j = choose|j: int|
                i + 1 <= j < roster.len() && j < ids.len() && next[k] == #[trigger] in_progress(
                    ids[j],
                    assignment,
                    roster[j],
                );
            assert(next[k] == in_progress(ids[j], assignment, roster[j]));
        }
    } else {
        let row = in_progress(ids[i], assignment, roster[i]);
        let grown = subs.push(row);
        lemma_fan_out_appends(grown, assignment, roster, ids, i + 1);
        assert(next.take(subs.len() as int) =~= grown.take(subs.len() as int));
        assert(grown.take(subs.len() as int) =~= subs);
        assert forall|k: int| subs.len() <= k < next.len() implies created_for(
            #[trigger] next[k],
            assignment,
            roster,
            ids,
            i,
        ) by {
            if k == subs.len() {
                assert(next.take(grown.len() as int)[k] == grown[k]);
                assert(next[k] == in_progress(ids[i], assignment, roster[i]));
            } else {
                assert(created_for(next[k], assignment, roster, ids, i + 1));
                let j = choose|j: int|
                    i + 1 <= j < roster.len() && j < ids.len() && next[k] == #[trigger] in_progress(
                        ids[j],
                        assignment,
                        roster[j],
                    );
                assert(next[k] == in_progress(ids[j], assignment, roster[j]));
            }
        }
    }
}

/// What holds of some row before the fan-out holds of some row after it.
pub proof fn lemma_fan_out_keeps(
    subs: Seq<SubmissionView>,
    assignment: Seq<char>,
    roster: Seq<Seq<char>>,
    ids: Seq<Seq<char>>,
    i: int,
    hit: spec_fn(SubmissionView) -> bool,
)
    requires
        0 <= i,
        fanned_out_from(subs, assignment, roster, ids, i) is Some,
        any(subs, hit),
    ensures
        any(fanned_out_from(subs, assignment, roster, ids, i)->Some_0, hit),
{
    let next = fanned_out_from(subs, assignment, roster, ids, i)->Some_0;
    lemma_fan_out_appends(subs, assignment, roster, ids, i);
    let k = choose|k: int| 0 <= k < subs.len() && hit(#[trigger] subs[k]);
    assert(next.take(subs.len() as int)[k] == next[k]);
    assert(hit(next[k]));
}

/// After the fan-out every student of the roster has a submission for the
/// assignment.
pub proof fn lemma_fan_out_covers(
    subs: Seq<SubmissionView>,
    assignment: Seq<char>,
    roster: Seq<Seq<char>>,
    ids: Seq<Seq<char>>,
    i: int,
)
    requires
        0 <= i,
        fanned_out_from(subs, assignment, roster, ids, i) is Some,
    ensures
        forall|j: int|
            i <= j < roster.len() ==> any(
                fanned_out_from(subs, assignment, roster, ids, i)->Some_0,
                with_pair(assignment, #[trigger] roster[j]),
            ),
    decreases roster.len() - i,
{
    let next = fanned_out_from(subs, assignment, roster, ids, i)->Some_0;
    if i < roster.len() {
        if any(subs, with_pair(assignment, roster[i])) {
            lemma_fan_out_covers(subs, assignment, roster, ids, i + 1);
            lemma_fan_out_keeps(subs, assignment, roster, ids, i + 1, with_pair(assignment, roster[i]));
        } else {
            let grown = subs.push(in_progress(ids[i], assignment, roster[i]));
            lemma_fan_out_covers(grown, assignment, roster, ids, i + 1);
            assert(with_pair(assignment, roster[i])(grown[subs.len() as int]));
            lemma_fan_out_keeps(
                grown,
                assignment,
                roster,
                ids,
                i + 1,
                with_pair(assignment, roster[i]),
            );
        }
    }
}

/// Where every student of the roster has a submission already, the fan-out
/// changes nothing, whatever identities it is offered.
pub proof fn lemma_fan_out_settled(
    subs: Seq<SubmissionView>,
    assignment: Seq<char>,
    roster: Seq<Seq<char>>,
    ids: Seq<Seq<char>>,
    i: int,
)
    requires
        0 <= i,
        forall|j: int|
            i <= j < roster.len() ==> any(subs, with_pair(assignment, #[trigger] roster[j])),
    ensures
        fanned_out_from(subs, assignment, roster, ids, i) == Some(subs),
    decreases roster.len() - i,
{
    if i < roster.len() {
        assert(any(subs, with_pair(assignment, roster[i])));
        lemma_fan_out_settled(subs, assignment, roster, ids, i + 1);
    }
}

/// The fan-out is idempotent: run again over the same roster on its own
/// result, it succeeds and adds nothing, whatever identities it is offered.
pub proof fn lemma_fan_out_idempotent(
    subs: Seq<SubmissionView>,
    assignment: Seq<char>,
    roster: Seq<Seq<char>>,
    ids: Seq<Seq<char>>,
    more_ids: Seq<Seq<char>>,
)
    requires
        fanned_out(subs, assignment, roster, ids) is Some,
    ensures
        fanned_out(fanned_out(subs, assignment, roster, ids)->Some_0, assignment, roster, more_ids)
            == fanned_out(subs, assignment, roster, ids),
{
    lemma_fan_out_covers(subs, assignment, roster, ids, 0);
    lemma_fan_out_settled(
        fanned_out(subs, assignment, roster, ids)->Some_0,
        assignment,
        roster,
        more_ids,
        0,
    );
}

/// The fan-out keeps the rows distinct: afterwards there is still at most
/// one submission per student and assignment, and no identity is used twice.
pub proof fn lemma_fan_out_distinct(
    subs: Seq<SubmissionView>,
    assignment: Seq<char>,
    roster: Seq<Seq<char>>,
    ids: Seq<Seq<char>>,
    i: int,
)
    requires
        0 <= i,
        distinct(subs),
        fanned_out_from(subs, assignment, roster, ids, i) is Some,
    ensures
        distinct(fanned_out_from(subs, assignment, roster, ids, i)->Some_0),
    decreases roster.len() - i,
{
    if i < roster.len() {
        if any(subs, with_pair(assignment, roster[i])) {
            lemma_fan_out_distinct(subs, assignment, roster, ids, i + 1);
        } else {
            lemma_push_distinct(subs, ids[i], assignment, roster[i]);
            lemma_fan_out_distinct(
                subs.push(in_progress(ids[i], assignment, roster[i])),
                assignment,
                roster,
                ids,
                i + 1,
            );
        }
    }
}

/// Where no student of the roster from index `i` on has a submission yet and
/// none of them stands twice, the fan-out adds one row for each of them.
pub proof fn lemma_fan_out_count_from(
    subs: Seq<SubmissionView>,
    assignment: Seq<char>,
    roster: Seq<Seq<char>>,
    ids: Seq<Seq<char>>,
    i: int,
)
    requires
        0 <= i <= roster.len(),
        roster_distinct(roster),
        forall|j: int|
            i <= j < roster.len() ==> !any(subs, with_pair(assignment, #[trigger] roster[j])),
        fanned_out_from(subs, assignment, roster, ids, i) is Some,
    ensures
        fanned_out_from(subs, assignment, roster, ids, i)->Some_0.filter(
            of_assignment(assignment),
        ).len() == subs.filter(of_assignment(assignment)).len() + roster.len() - i,
    decreases roster.len() - i,
{
    if i < roster.len() {
        assert(!any(subs, with_pair(assignment, roster[i])));
        let row = in_progress(ids[i], assignment, roster[i]);
        let grown = subs.push(row);
        assert forall|j: int| i + 1 <= j < roster.len() implies !any(
            grown,
            with_pair(assignment, #[trigger] roster[j]),
        ) by {
            if any(grown, with_pair(assignment, roster[j])) {
                let k = choose|k: int|
                    0 <= k < grown.len() && with_pair(assignment, roster[j])(#[trigger] grown[k]);
                if k < subs.len() {
                    assert(with_pair(assignment, roster[j])(subs[k]));
                    assert(any(subs, with_pair(assignment, roster[j])));
                } else {
                    assert(roster[i] != roster[j]);
                }
            }
        }
        lemma_fan_out_count_from(grown, assignment, roster, ids, i + 1);
        subs.lemma_filter_push(row, of_assignment(assignment));
    }
}

/// Publishing twice to the same roster gives one submission per student, not
/// two: where the assignment has no submission yet and no student stands
/// twice in the roster, the first fan-out leaves exactly as many submissions
/// for the assignment as the roster has students, and a second fan-out over
/// the same roster leaves the table as the first one made it.
pub proof fn lemma_fan_out_twice(
    subs: Seq<SubmissionView>,
    assignment: Seq<char>,
    roster: Seq<Seq<char>>,
    ids: Seq<Seq<char>>,
    more_ids: Seq<Seq<char>>,
)
    requires
        !any(subs, of_assignment(assignment)),
        roster_distinct(roster),
        fanned_out(subs, assignment, roster, ids) is Some,
    ensures
        ({
            let once = fanned_out(subs, assignment, roster, ids)->Some_0;
            let twice = fanned_out(once, assignment, roster, more_ids);
            &&& once.filter(of_assignment(assignment)).len() == roster.len()
            &&& twice == Some(once)
        }),
{
    assert forall|j: int| 0 <= j < roster.len() implies !any(
        subs,
        with_pair(assignment, #[trigger] roster[j]),
    ) by {
        if any(subs, with_pair(assignment, roster[j])) {
            let k = choose|k: int|
                0 <= k < subs.len() && with_pair(assignment, roster[j])(#[trigger] subs[k]);
            assert(of_assignment(assignment)(subs[k]));
        }
    }
    lemma_fan_out_count_from(subs, assignment, roster, ids, 0);
    subs.lemma_all_neg_filter_empty(of_assignment(assignment));
    lemma_fan_out_idempotent(subs, assignment, roster, ids, more_ids);
}

} // verus!
