//! How long activities are kept, and how many are shown.

use crate::time;
use crate::time::Timestamp;
use vstd::prelude::*;

verus! {

/// How many of the newest activities are kept.
pub const HISTORY_LIMIT: usize = 100;

/// For how long completed activities are kept.
pub const HISTORY_SECONDS: i64 = 2_592_000;

/// A stored activity: whether it is completed, and when it was created in milliseconds since 1970.
#[derive(Debug, Clone, Copy, PartialEq, Eq, Structural)]
pub struct HistoryRow {
    pub completed: bool,
    pub created_at: i64,
}

/// The oldest creation time that is kept, in milliseconds since 1970.
pub open spec fn cutoff(now: Timestamp) -> int {
    now.millis() - HISTORY_SECONDS * 1000
}

/// The row at position `i`, counted from the newest, goes: it is completed, and all completed ones
/// go, or it is too old, or there are enough newer ones.
pub open spec fn goes(row: HistoryRow, i: int, clear: bool, oldest: int) -> bool {
    row.completed && (clear || row.created_at < oldest || i >= HISTORY_LIMIT)
}

/// The positions, from the newest on, of those of the first `n` rows that go.
pub open spec fn going(rows: Seq<HistoryRow>, n: nat, clear: bool, oldest: int) -> Seq<int>
    decreases n,
{
    if n == 0 {
        Seq::empty()
    } else {
        let rest = going(rows, (n - 1) as nat, clear, oldest);
        if goes(rows[n - 1], n - 1, clear, oldest) {
            rest.push(n - 1)
        } else {
            rest
        }
    }
}

/// The positions of the rows that are to be deleted; `rows` begins with the newest. With `clear`
/// all completed activities go.
pub fn expired(rows: &[HistoryRow], clear: bool, now: Timestamp) -> (r: Vec<usize>)
    requires
        now.wf(),
        time::MIN_SECONDS + HISTORY_SECONDS <= now.seconds,
    ensures
        r@.map_values(|i: usize| i as int) == going(rows@, rows@.len(), clear, cutoff(now)),
{
    let oldest: i64 = now.timestamp_millis() - HISTORY_SECONDS * 1000;
    let mut found: Vec<usize> = Vec::new();
    let mut i: usize = 0;
    while i < rows.len()
        invariant
            i <= rows@.len(),
            oldest == cutoff(now),
            found@.map_values(|k: usize| k as int) == going(rows@, i as nat, clear, cutoff(now)),
        decreases rows@.len() - i,
    {
        if rows[i].completed && (clear || rows[i].created_at < oldest || i >= HISTORY_LIMIT) {
            let ghost before = found@.map_values(|k: usize| k as int);
            found.push(i);
            assert(found@.map_values(|k: usize| k as int) =~= before.push(i as int));
        }
        i = i + 1;
    }
    found
}

/// How many activities a request for `limit` shows.
pub open spec fn shown(limit: int) -> int {
    if limit < 1 {
        1
    } else if limit > 100 {
        100
    } else {
        limit
    }
}

/// How many activities a request for `limit` shows.
pub fn page_size(limit: u32) -> (r: u32)
    ensures
        1 <= r <= 100,
        1 <= limit <= 100 ==> r == limit,
        limit < 1 ==> r == 1,
        limit > 100 ==> r == 100,
        r == shown(limit as int),
{
    if limit < 1 {
        1
    } else if limit > 100 {
        100
    } else {
        limit
    }
}

/// A row is deleted exactly where it goes.
pub proof fn law_deleted_rows(rows: Seq<HistoryRow>, n: nat, clear: bool, oldest: int, i: int)
    requires
        n <= rows.len(),
        0 <= i < n,
    ensures
        going(rows, n, clear, oldest).contains(i) <==> goes(rows[i], i, clear, oldest),
    decreases n,
{
    let all = going(rows, n, clear, oldest);
    let rest = going(rows, (n - 1) as nat, clear, oldest);
    lemma_positions(rows, (n - 1) as nat, clear, oldest);
    if i < n - 1 {
        law_deleted_rows(rows, (n - 1) as nat, clear, oldest, i);
        if rest.contains(i) {
            let k = choose|k: int| 0 <= k < rest.len() && rest[k] == i;
            assert(all[k] == i);
        }
        if all.contains(i) {
            let k = choose|k: int| 0 <= k < all.len() && all[k] == i;
            assert(k < rest.len());
            assert(rest[k] == i);
        }
    } else {
        if goes(rows[i], i, clear, oldest) {
            assert(all[all.len() - 1] == i);
        } else if all.contains(i) {
            let k = choose|k: int| 0 <= k < all.len() && all[k] == i;
            assert(rest[k] < n - 1);
        }
    }
}

proof fn lemma_positions(rows: Seq<HistoryRow>, n: nat, clear: bool, oldest: int)
    requires
        n <= rows.len(),
    ensures
        forall|k: int|
            0 <= k < going(rows, n, clear, oldest).len() ==> #[trigger] going(
                rows,
                n,
                clear,
                oldest,
            )[k] < n,
    decreases n,
{
    if n > 0 {
        let rest = going(rows, (n - 1) as nat, clear, oldest);
        let all = going(rows, n, clear, oldest);
        lemma_positions(rows, (n - 1) as nat, clear, oldest);
        assert forall|k: int| 0 <= k < all.len() implies #[trigger] all[k] < n by {
            if k < rest.len() {
                assert(all[k] == rest[k]);
            }
        }
    }
}

/// Activities that are not completed, pending confirmations among them, are never deleted.
pub proof fn law_pending_activities_are_kept(
    rows: Seq<HistoryRow>,
    clear: bool,
    now: Timestamp,
    i: int,
)
    requires
        0 <= i < rows.len(),
        !rows[i].completed,
    ensures
        !going(rows, rows.len(), clear, cutoff(now)).contains(i),
{
    law_deleted_rows(rows, rows.len(), clear, cutoff(now), i);
}

/// A completed activity that is kept is one of the newest and not too old, and clearing keeps none.
pub proof fn law_history_is_bounded(rows: Seq<HistoryRow>, clear: bool, now: Timestamp, i: int)
    requires
        0 <= i < rows.len(),
        rows[i].completed,
    ensures
        !going(rows, rows.len(), clear, cutoff(now)).contains(i) <==> !clear && i
            < HISTORY_LIMIT && rows[i].created_at >= cutoff(now),
{
    law_deleted_rows(rows, rows.len(), clear, cutoff(now), i);
}

/// Of the stored activities, the newest first, a completed one is deleted exactly where all are
/// cleared, where it is older than thirty days, or where a hundred are newer; one that is not
/// completed never is. The positions are reported each once and in order.
pub proof fn law_what_is_deleted(rows: Seq<HistoryRow>, clear: bool, now: Timestamp)
    ensures
        ({
            let gone = going(rows, rows.len(), clear, cutoff(now));
            let oldest = now.seconds * 1000 + now.nanos as int / 1_000_000 - 2_592_000_000;
            &&& forall|i: int|
                0 <= i < rows.len() ==> (gone.contains(i) <==> (#[trigger] rows[i]).completed && (
                clear || rows[i].created_at < oldest || i >= 100))
            &&& forall|k: int| 0 <= k < gone.len() ==> 0 <= #[trigger] gone[k] < rows.len()
            &&& forall|k: int, l: int|
                0 <= k < l < gone.len() ==> #[trigger] gone[k] < #[trigger] gone[l]
        }),
{
    let gone = going(rows, rows.len(), clear, cutoff(now));
    assert forall|i: int| 0 <= i < rows.len() implies (gone.contains(i) <==> goes(
        #[trigger] rows[i],
        i,
        clear,
        cutoff(now),
    )) by {
        law_deleted_rows(rows, rows.len(), clear, cutoff(now), i);
    }
    lemma_increasing(rows, rows.len(), clear, cutoff(now));
}

proof fn lemma_increasing(rows: Seq<HistoryRow>, n: nat, clear: bool, oldest: int)
    requires
        n <= rows.len(),
    ensures
        forall|k: int|
            0 <= k < going(rows, n, clear, oldest).len() ==> 0 <= #[trigger] going(
                rows,
                n,
                clear,
                oldest,
            )[k] < n,
        forall|k: int, l: int|
            0 <= k < l < going(rows, n, clear, oldest).len() ==> #[trigger] going(
                rows,
                n,
                clear,
                oldest,
            )[k] < #[trigger] going(rows, n, clear, oldest)[l],
    decreases n,
{
    if n > 0 {
        lemma_increasing(rows, (n - 1) as nat, clear, oldest);
        let rest = going(rows, (n - 1) as nat, clear, oldest);
        let all = going(rows, n, clear, oldest);
        assert forall|k: int| 0 <= k < all.len() implies 0 <= #[trigger] all[k] < n by {
            if k < rest.len() {
                assert(all[k] == rest[k]);
            }
        }
        assert forall|k: int, l: int| 0 <= k < l < all.len() implies #[trigger] all[k]
            < #[trigger] all[l] by {
            assert(all[k] == rest[k]);
            if l < rest.len() {
                assert(all[l] == rest[l]);
            }
        }
    }
}

/// A request for activities shows as many as it asks for, but at least one and at most a hundred, and
/// one that asks for more never shows fewer.
pub proof fn law_pages(limit: int, more: int)
    requires
        limit <= more,
    ensures
        1 <= shown(limit) <= 100,
        1 <= limit <= 100 ==> shown(limit) == limit,
        shown(limit) <= shown(more),
{
}

} // verus!
