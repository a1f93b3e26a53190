use vstd::prelude::*;

verus! {

/// The least index at or after `from` whose row satisfies `hit`, or the
/// length of `rows` where there is none.
pub open spec fn position<T>(rows: Seq<T>, hit: spec_fn(T) -> bool, from: int) -> int
    decreases rows.len() - from,
{
    if from < 0 || from >= rows.len() {
        rows.len() as int
    } else if hit(rows[from]) {
        from
    } else {
        position(rows, hit, from + 1)
    }
}

/// The first row that satisfies `hit`.
pub open spec fn first<T>(rows: Seq<T>, hit: spec_fn(T) -> bool) -> Option<T> {
    let i = position(rows, hit, 0);
    if i < rows.len() {
        Some(rows[i])
    } else {
        None
    }
}

/// Some row satisfies `hit`.
pub open spec fn any<T>(rows: Seq<T>, hit: spec_fn(T) -> bool) -> bool {
    exists|i: int| 0 <= i < rows.len() && hit(#[trigger] rows[i])
}

/// The predicate that holds where `hit` does not.
pub open spec fn not<T>(hit: spec_fn(T) -> bool) -> spec_fn(T) -> bool {
    |row: T| !hit(row)
}

/// `position` lies between `from` and the length, points at a hit where it
/// is an index, and skips no hit.
pub proof fn lemma_position<T>(rows: Seq<T>, hit: spec_fn(T) -> bool, from: int)
    requires
        0 <= from <= rows.len(),
    ensures
        from <= position(rows, hit, from) <= rows.len(),
        position(rows, hit, from) < rows.len() ==> hit(rows[position(rows, hit, from)]),
        forall|j: int| from <= j < position(rows, hit, from) ==> !hit(#[trigger] rows[j]),
    decreases rows.len() - from,
{
    if from < rows.len() && !hit(rows[from]) {
        lemma_position(rows, hit, from + 1);
    }
}

/// A first row exists exactly where some row is a hit, and it is a hit.
pub proof fn lemma_first<T>(rows: Seq<T>, hit: spec_fn(T) -> bool)
    ensures
        first(rows, hit) is Some <==> any(rows, hit),
        first(rows, hit) matches Some(row) ==> hit(row) && rows.contains(row),
{
    lemma_position(rows, hit, 0);
    let p = position(rows, hit, 0);
    if p < rows.len() {
        assert(hit(rows[p]));
    }
}

/// Where no row is a hit before index `i` and the row at `i` is one, that
/// row is the first.
pub proof fn lemma_first_at<T>(rows: Seq<T>, hit: spec_fn(T) -> bool, i: int)
    requires
        0 <= i < rows.len(),
        hit(rows[i]),
        forall|j: int| 0 <= j < i ==> !hit(#[trigger] rows[j]),
    ensures
        position(rows, hit, 0) == i,
        first(rows, hit) == Some(rows[i]),
{
    lemma_position(rows, hit, 0);
    let p = position(rows, hit, 0);
    if p < i {
        assert(hit(rows[p]));
    }
}

/// Filtering one row more either appends that row or changes nothing.
pub proof fn lemma_filter_step<T>(rows: Seq<T>, keep: spec_fn(T) -> bool, i: int)
    requires
        0 <= i < rows.len(),
    ensures
        rows.take(i + 1).filter(keep) == if keep(rows[i]) {
            rows.take(i).filter(keep).push(rows[i])
        } else {
            rows.take(i).filter(keep)
        },
{
    assert(rows.take(i + 1) =~= rows.take(i).push(rows[i]));
    rows.take(i).lemma_filter_push(rows[i], keep);
}

/// Two sequences of one length whose rows agree on `hit` have their first
/// hit at the same index.
pub proof fn lemma_position_agrees<T>(a: Seq<T>, b: Seq<T>, hit: spec_fn(T) -> bool, from: int)
    requires
        a.len() == b.len(),
        forall|j: int| 0 <= j < a.len() ==> hit(#[trigger] a[j]) == hit(b[j]),
    ensures
        position(a, hit, from) == position(b, hit, from),
    decreases a.len() - from,
{
    if 0 <= from < a.len() {
        assert(hit(a[from]) == hit(b[from]));
        if !hit(a[from]) {
            lemma_position_agrees(a, b, hit, from + 1);
        }
    }
}

} // verus!
