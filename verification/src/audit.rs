//! The order audit log: which signals it marks as already submitted, how an
//! entry is deleted, and the order in which its history is listed.
//!
//! The log is a file of JSON lines read and written outside the library,
//! which hands in each parsed line as an `AuditRow`.
use vstd::prelude::*;
use crate::outcomes::{listed_before, newest_first, sort_newest_first};
use crate::text::{owned, str_eq, views};

verus! {

broadcast use vstd::string::group_string_axioms;

/// The error code of an order whose submission could not be confirmed.
pub const SUBMISSION_UNCONFIRMED: &'static str = "SUBMISSION_UNCONFIRMED";

/// One line of the audit log, as far as deduplication, deletion and
/// listing read it.
#[derive(Debug)]
pub struct AuditRow {
    /// The entry id (empty when the line has none).
    pub id: String,
    /// When the entry was written (0 when the line has none).
    pub ts_ms: i64,
    /// Whether the order reached the venue.
    pub submitted: bool,
    /// The entry's error code, when it has one.
    pub error_code: Option<String>,
    /// Whether the entry is a deletion tombstone.
    pub deleted: bool,
    /// The signal the order was placed for, when recorded.
    pub signal_id: Option<String>,
}

/// A row marks its signal as seen when the order was submitted, or its
/// submission could not be confirmed, and the signal is recorded.
pub open spec fn marks_seen(r: AuditRow) -> bool {
    (r.submitted || (r.error_code matches Some(c) && c@ == "SUBMISSION_UNCONFIRMED"@)) && r.signal_id is Some
}

/// The signals the log marks as seen, in log order.
pub open spec fn seen_ids(rows: Seq<AuditRow>) -> Seq<Seq<char>>
    decreases rows.len(),
{
    if rows.len() == 0 {
        Seq::empty()
    } else if marks_seen(rows.last()) {
        seen_ids(rows.drop_last()).push(rows.last().signal_id->0@)
    } else {
        seen_ids(rows.drop_last())
    }
}

/// Whether the row's signal counts as seen.
fn row_marks_seen(r: &AuditRow) -> (b: bool)
    ensures
        b == marks_seen(*r),
{
    proof {
        reveal_strlit("SUBMISSION_UNCONFIRMED");
    }
    let unconfirmed = match &r.error_code {
        Some(c) => str_eq(c.as_str(), SUBMISSION_UNCONFIRMED),
        None => false,
    };
    (r.submitted || unconfirmed) && r.signal_id.is_some()
}

/// The signals the audit log marks as already submitted, in log order.
pub fn seen_signal_ids(rows: &Vec<AuditRow>) -> (r: Vec<String>)
    ensures
        views(r@) == seen_ids(rows@),
{
    let mut out: Vec<String> = Vec::new();
    let mut i: usize = 0;
    while i < rows.len()
        invariant
            0 <= i <= rows.len(),
            views(out@) == seen_ids(rows@.take(i as int)),
        decreases rows.len() - i,
    {
        proof {
            assert(rows@.take(i + 1).drop_last() =~= rows@.take(i as int));
        }
        if row_marks_seen(&rows[i]) {
            match &rows[i].signal_id {
                Some(s) => {
                    let ghost before = out@;
                    out.push(owned(s.as_str()));
                    proof {
                        assert(views(out@) =~= views(before).push(s@));
                    }
                },
                None => {},
            }
        }
        i += 1;
    }
    proof {
        assert(rows@.take(rows.len() as int) =~= rows@);
    }
    out
}

// ---------------------------------------------------------------------------
// Deleting an entry.
// ---------------------------------------------------------------------------

/// Whether the row is a live (not deleted) entry with the given id.
pub open spec fn live_match(r: AuditRow, id: Seq<char>) -> bool {
    r.id@ == id && !r.deleted
}

/// How a deletion changes the log: the row at `index` goes, replaced by a
/// tombstone when its order was submitted.
#[derive(Debug, Clone, Copy)]
pub struct AuditDeletion {
    pub index: usize,
    pub tombstone: bool,
}

/// What deleting `entry_id` does: the first live row with that id is
/// removed, or replaced by a tombstone when its order was submitted; an
/// empty id or an id with no live row deletes nothing.
pub open spec fn spec_plan_deletion(rows: Seq<AuditRow>, entry_id: Seq<char>, r: Option<AuditDeletion>) -> bool {
    match r {
        Some(p) => {
            &&& entry_id.len() > 0
            &&& p.index < rows.len()
            &&& live_match(rows[p.index as int], entry_id)
            &&& forall|j: int| 0 <= j < p.index ==> !live_match(#[trigger] rows[j], entry_id)
            &&& p.tombstone == rows[p.index as int].submitted
        },
        None => entry_id.len() == 0 || forall|j: int| 0 <= j < rows.len() ==> !live_match(#[trigger] rows[j], entry_id),
    }
}

/// The tombstone left for a submitted entry: its id, time and signal, marked
/// submitted and deleted, with no error code.
pub open spec fn tombstone_of(r: AuditRow) -> AuditRow {
    AuditRow { id: r.id, ts_ms: r.ts_ms, submitted: true, error_code: None, deleted: true, signal_id: r.signal_id }
}

/// The log after a deletion.
pub open spec fn spec_apply_deletion(rows: Seq<AuditRow>, p: AuditDeletion) -> Seq<AuditRow> {
    if p.tombstone {
        rows.update(p.index as int, tombstone_of(rows[p.index as int]))
    } else {
        rows.remove(p.index as int)
    }
}

/// Finds what deleting the entry `entry_id` does to the log.
pub fn plan_audit_deletion(rows: &Vec<AuditRow>, entry_id: &str) -> (r: Option<AuditDeletion>)
    ensures
        spec_plan_deletion(rows@, entry_id@, r),
{
    if entry_id.is_empty() {
        return None;
    }
    let mut i: usize = 0;
    while i < rows.len()
        invariant
            0 <= i <= rows.len(),
            entry_id@.len() > 0,
            forall|j: int| 0 <= j < i ==> !live_match(#[trigger] rows@[j], entry_id@),
        decreases rows.len() - i,
    {
        if !rows[i].deleted && str_eq(rows[i].id.as_str(), entry_id) {
            return Some(AuditDeletion { index: i, tombstone: rows[i].submitted });
        }
        i += 1;
    }
    None
}

/// Applies a deletion to the log.
pub fn apply_audit_deletion(rows: &mut Vec<AuditRow>, plan: &AuditDeletion)
    requires
        plan.index < old(rows).len(),
    ensures
        final(rows)@ == spec_apply_deletion(old(rows)@, *plan),
{
    let row = rows.remove(plan.index);
    if plan.tombstone {
        let t = AuditRow {
            id: row.id,
            ts_ms: row.ts_ms,
            submitted: true,
            error_code: None,
            deleted: true,
            signal_id: row.signal_id,
        };
        rows.insert(plan.index, t);
        proof {
            assert(rows@ =~= old(rows)@.update(plan.index as int, tombstone_of(old(rows)@[plan.index as int])));
        }
    }
}

/// Two logs that agree, row by row, on which rows mark a signal and on the
/// signal they mark, mark the same signals.
proof fn lemma_seen_ids_agree(a: Seq<AuditRow>, b: Seq<AuditRow>)
    requires
        a.len() == b.len(),
        forall|k: int| 0 <= k < a.len() ==> marks_seen(#[trigger] a[k]) == marks_seen(b[k]),
        forall|k: int| 0 <= k < a.len() && marks_seen(#[trigger] a[k]) ==> a[k].signal_id->0@ == b[k].signal_id->0@,
    ensures
        seen_ids(a) == seen_ids(b),
    decreases a.len(),
{
    if a.len() > 0 {
        lemma_seen_ids_agree(a.drop_last(), b.drop_last());
        assert(marks_seen(a[a.len() - 1]) == marks_seen(b[b.len() - 1]));
    }
}

/// Removing a row that marks no signal leaves the seen signals unchanged.
proof fn lemma_seen_ids_remove(rows: Seq<AuditRow>, i: int)
    requires
        0 <= i < rows.len(),
        !marks_seen(rows[i]),
    ensures
        seen_ids(rows.remove(i)) == seen_ids(rows),
    decreases rows.len(),
{
    if i == rows.len() - 1 {
        assert(rows.remove(i) =~= rows.drop_last());
    } else {
        lemma_seen_ids_remove(rows.drop_last(), i);
        assert(rows.remove(i).drop_last() =~= rows.drop_last().remove(i));
        assert(rows.remove(i).last() == rows.last());
    }
}

/// Deleting an entry never lets a submitted signal be submitted again: the
/// signals the log marks as seen are the same before and after, unless the
/// deleted row was an unconfirmed submission (which the deletion forgets).
pub proof fn law_deletion_keeps_seen_signals(rows: Seq<AuditRow>, entry_id: Seq<char>, p: AuditDeletion)
    requires
        spec_plan_deletion(rows, entry_id, Some(p)),
        rows[p.index as int].submitted || !marks_seen(rows[p.index as int]),
    ensures
        seen_ids(spec_apply_deletion(rows, p)) == seen_ids(rows),
{
    if p.tombstone {
        let after = spec_apply_deletion(rows, p);
        assert forall|k: int| 0 <= k < rows.len() implies marks_seen(#[trigger] after[k]) == marks_seen(rows[k]) by {
            if k == p.index {
                assert(after[k] == tombstone_of(rows[k]));
            }
        }
        lemma_seen_ids_agree(after, rows);
    } else {
        lemma_seen_ids_remove(rows, p.index as int);
    }
}

// ---------------------------------------------------------------------------
// Listing the history.
// ---------------------------------------------------------------------------

/// The indices of the rows that are not deletion tombstones, in log order.
pub open spec fn live_indices(rows: Seq<AuditRow>) -> Seq<usize>
    decreases rows.len(),
{
    if rows.len() == 0 {
        Seq::empty()
    } else if !rows.last().deleted {
        live_indices(rows.drop_last()).push((rows.len() - 1) as usize)
    } else {
        live_indices(rows.drop_last())
    }
}

/// The write times of the live rows, in log order.
pub open spec fn live_times(rows: Seq<AuditRow>) -> Seq<i64> {
    live_indices(rows).map_values(|k: usize| rows[k as int].ts_ms)
}

/// The history listing: the live rows newest first (ties in log order),
/// cut to `limit` entries, as indices into the log.
pub open spec fn history_listing(rows: Seq<AuditRow>, order: Seq<usize>, limit: int) -> Seq<usize> {
    let all = order.map_values(|k: usize| live_indices(rows)[k as int]);
    if all.len() > limit {
        all.take(limit)
    } else {
        all
    }
}

/// Every live index points at a row below the length that is not deleted.
proof fn lemma_live_indices(rows: Seq<AuditRow>)
    requires
        rows.len() <= usize::MAX,
    ensures
        forall|k: int| 0 <= k < live_indices(rows).len() ==> #[trigger] live_indices(rows)[k] < rows.len()
            && !rows[live_indices(rows)[k] as int].deleted,
    decreases rows.len(),
{
    if rows.len() > 0 {
        lemma_live_indices(rows.drop_last());
    }
}

/// The order the history lists the log in: the rows that are not deletion
/// tombstones, newest first (ties in log order), at most `limit` of them.
pub fn audit_history_order(rows: &Vec<AuditRow>, limit: usize) -> (r: Vec<usize>)
    ensures
        exists|order: Seq<usize>| #[trigger] newest_first(live_times(rows@), order) && r@ == history_listing(
            rows@,
            order,
            limit as int,
        ),
{
    let mut live: Vec<usize> = Vec::new();
    let mut keys: Vec<i64> = Vec::new();
    let mut i: usize = 0;
    while i < rows.len()
        invariant
            0 <= i <= rows.len(),
            live@ == live_indices(rows@.take(i as int)),
            keys@ == live@.map_values(|k: usize| rows@[k as int].ts_ms),
            forall|k: int| 0 <= k < live.len() ==> #[trigger] live@[k] < i,
        decreases rows.len() - i,
    {
        proof {
            assert(rows@.take(i + 1).drop_last() =~= rows@.take(i as int));
        }
        if !rows[i].deleted {
            live.push(i);
            keys.push(rows[i].ts_ms);
            proof {
                assert(keys@ =~= live@.map_values(|k: usize| rows@[k as int].ts_ms));
            }
        }
        i += 1;
    }
    proof {
        assert(rows@.take(rows.len() as int) =~= rows@);
        assert(keys@ == live_times(rows@));
    }
    let order = sort_newest_first(&keys);
    let m: usize = if order.len() > limit {
        limit
    } else {
        order.len()
    };
    let mut r: Vec<usize> = Vec::new();
    let mut j: usize = 0;
    while j < m
        invariant
            m <= order.len(),
            order.len() == keys.len(),
            keys.len() == live.len(),
            live@ == live_indices(rows@),
            forall|k: int| 0 <= k < order.len() ==> #[trigger] order@[k] < keys.len(),
            0 <= j <= m,
            r@ == order@.map_values(|k: usize| live_indices(rows@)[k as int]).take(j as int),
        decreases m - j,
    {
        r.push(live[order[j]]);
        proof {
            assert(r@ =~= order@.map_values(|k: usize| live_indices(rows@)[k as int]).take(j + 1));
        }
        j += 1;
    }
    proof {
        let all = order@.map_values(|k: usize| live_indices(rows@)[k as int]);
        if all.len() <= limit {
            assert(all.take(m as int) =~= all);
        }
        assert(newest_first(live_times(rows@), order@));
    }
    r
}

/// The history never lists a deleted entry, never lists an entry twice,
/// and lists newer entries first.
pub proof fn law_history_lists_live_rows_newest_first(rows: Seq<AuditRow>, order: Seq<usize>, limit: int, i: int, j: int)
    requires
        rows.len() <= usize::MAX,
        newest_first(live_times(rows), order),
        0 <= limit,
        0 <= i < j < history_listing(rows, order, limit).len(),
    ensures
        !rows[history_listing(rows, order, limit)[i] as int].deleted,
        history_listing(rows, order, limit)[i] != history_listing(rows, order, limit)[j],
        rows[history_listing(rows, order, limit)[i] as int].ts_ms >= rows[history_listing(rows, order, limit)[j] as int].ts_ms,
{
    lemma_live_indices(rows);
    let live = live_indices(rows);
    let h = history_listing(rows, order, limit);
    assert(h[i] == live[order[i] as int]);
    assert(h[j] == live[order[j] as int]);
    assert(order[i] < live.len());
    assert(listed_before(live_times(rows), order[i] as int, order[j] as int));
    assert(live_times(rows)[order[i] as int] == rows[live[order[i] as int] as int].ts_ms);
    assert(live_times(rows)[order[j] as int] == rows[live[order[j] as int] as int].ts_ms);
    lemma_live_indices_increasing(rows, order[i] as int, order[j] as int);
}

/// Live indices are strictly increasing, hence distinct.
proof fn lemma_live_indices_increasing(rows: Seq<AuditRow>, a: int, b: int)
    requires
        rows.len() <= usize::MAX,
        0 <= a < live_indices(rows).len(),
        0 <= b < live_indices(rows).len(),
        a != b,
    ensures
        live_indices(rows)[a] != live_indices(rows)[b],
    decreases rows.len(),
{
    lemma_live_indices(rows);
    if rows.len() > 0 {
        let prev = live_indices(rows.drop_last());
        lemma_live_indices(rows.drop_last());
        if !rows.last().deleted {
            if a < prev.len() && b < prev.len() {
                lemma_live_indices_increasing(rows.drop_last(), a, b);
            } else if a < prev.len() {
                assert(prev[a] < rows.len() - 1);
            } else if b < prev.len() {
                assert(prev[b] < rows.len() - 1);
            }
        } else {
            lemma_live_indices_increasing(rows.drop_last(), a, b);
        }
    }
}

} // verus!
