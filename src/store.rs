use crate::instant::Instant;
use crate::stream::{IterState, Phase, Step};
use crate::trade::{normalized, TradeRow};
use vstd::prelude::*;

verus! {

/// The rows of a store in id order: the ids strictly increase, and the times
/// never go back as the ids grow.
pub open spec fn store_ordered(store: Seq<TradeRow>) -> bool {
    &&& forall|i: int, j: int|
        0 <= i < j < store.len() ==> #[trigger] store[i].id < #[trigger] store[j].id
    &&& forall|i: int, j: int|
        0 <= i < j < store.len() ==> (#[trigger] store[i]).time.spec_le((#[trigger] store[j]).time)
}

/// `k` indexes the first row of `store` whose time is at or after `since`:
/// the row whose id resolves the start of a scan.
pub open spec fn first_at_or_after(store: Seq<TradeRow>, since: Instant, k: int) -> bool {
    &&& 0 <= k < store.len()
    &&& !store[k].time.spec_lt(since)
    &&& forall|j: int| 0 <= j < k ==> (#[trigger] store[j]).time.spec_lt(since)
}

/// In an ordered store, a row's id passes another's exactly when it stands
/// after it: the rows at or above one past a row's id are the rows after it.
pub proof fn lemma_ids_follow_positions(store: Seq<TradeRow>, k: int, i: int)
    requires
        store_ordered(store),
        0 <= k < store.len(),
        0 <= i < store.len(),
    ensures
        store[k].id < store[i].id <==> k < i,
        store[k].id == store[i].id <==> k == i,
{
    if i < k {
        assert(store[i].id < store[k].id);
    } else if k < i {
        assert(store[k].id < store[i].id);
    }
}

/// In an ordered store, every row whose id is at least the resolved start id
/// has a time at or after `since`.
pub proof fn lemma_rows_from_start_follow_since(
    store: Seq<TradeRow>,
    since: Instant,
    k: int,
    i: int,
)
    requires
        store_ordered(store),
        first_at_or_after(store, since, k),
        0 <= i < store.len(),
        store[k].id <= store[i].id,
    ensures
        !store[i].time.spec_lt(since),
{
    lemma_ids_follow_positions(store, k, i);
    if k < i {
        assert(store[k].time.spec_le(store[i].time));
    }
}

/// The scan stands at index `p` of the store: its buffer holds the rows from
/// `p` on, and the rows at or above its cursor are exactly those from `p` on.
pub open spec fn at_position(s: IterState, store: Seq<TradeRow>, p: int) -> bool {
    &&& 0 <= p <= store.len()
    &&& p + s.buffer.len() <= store.len()
    &&& s.buffer == store.subrange(p, p + s.buffer.len())
    &&& forall|j: int| 0 <= j < store.len() ==> (s.cursor <= #[trigger] store[j].id <==> p <= j)
}

/// What an ordered store answers to a request for at most `limit` rows with id
/// at or above the cursor of a scan standing at index `p`.
pub open spec fn page_answer(store: Seq<TradeRow>, p: int, limit: usize) -> Seq<TradeRow> {
    store.subrange(p, if p + limit <= store.len() { p + limit } else { store.len() as int })
}

/// Resolving to the id of the first row at or after `since` sets the scan at
/// that row's index.
pub proof fn lemma_resolve_sets_position(s: IterState, store: Seq<TradeRow>, k: int)
    requires
        s.phase == Phase::Resolving,
        store_ordered(store),
        first_at_or_after(store, s.since, k),
    ensures
        at_position(s.resolved(Some(store[k].id)), store, k),
        s.resolved(Some(store[k].id)).phase == Phase::Paging,
{
    let r = s.resolved(Some(store[k].id));
    assert forall|j: int| 0 <= j < store.len() implies (r.cursor <= #[trigger] store[j].id <==> k
        <= j) by {
        lemma_ids_follow_positions(store, k, j);
    }
    assert(r.buffer =~= store.subrange(k, k));
}

/// A scan at index `p` with nothing buffered asks for the page from `p` on;
/// that page is accepted, keeps the scan at `p`, and ends it exactly when no
/// row is left.
pub proof fn lemma_refill_keeps_position(s: IterState, store: Seq<TradeRow>, p: int)
    requires
        s.well_formed(),
        s.phase == Phase::Paging,
        s.buffer.len() == 0,
        store_ordered(store),
        at_position(s, store, p),
        p < store.len(),
    ensures
        s.step() == (s, Step::FetchPage { from_id: s.cursor as i32, limit: s.page_size }),
        s.page_error(page_answer(store, p, s.page_size)) is None,
        at_position(s.page_loaded(page_answer(store, p, s.page_size)), store, p),
        (s.page_loaded(page_answer(store, p, s.page_size)).phase == Phase::Exhausted) <==> (
        s.page_size == 0),
{
    assert(s.cursor <= store[p].id);
    let rows = page_answer(store, p, s.page_size);
    assert forall|i: int| 0 <= i < rows.len() implies s.cursor <= #[trigger] rows[i].id by {
        assert(rows[i] == store[p + i]);
    }
    assert forall|i: int, j: int| 0 <= i < j < rows.len() implies #[trigger] rows[i].id
        < #[trigger] rows[j].id by {
        assert(rows[i] == store[p + i]);
        assert(rows[j] == store[p + j]);
    }
    if rows.len() == 0 {
        assert(s.page_loaded(rows).buffer =~= store.subrange(p, p));
    }
}

/// A scan at index `p` of an ordered store with nothing left at or above its
/// cursor ends once its buffer runs out.
pub proof fn lemma_store_end_exhausts(s: IterState, store: Seq<TradeRow>)
    requires
        s.well_formed(),
        s.phase == Phase::Paging,
        s.buffer.len() == 0,
        at_position(s, store, store.len() as int),
        s.cursor <= i32::MAX,
    ensures
        s.page_error(page_answer(store, store.len() as int, s.page_size)) is None,
        s.page_loaded(page_answer(store, store.len() as int, s.page_size)).phase
            == Phase::Exhausted,
{
}

/// A scan at index `p` with a row buffered hands out that row's trade and
/// moves to `p + 1`, unless the row's time reaches `until`, which ends it.
/// So across page boundaries the trades are those of consecutive rows,
/// with none skipped and none repeated.
pub proof fn lemma_yield_advances_position(s: IterState, store: Seq<TradeRow>, p: int)
    requires
        s.well_formed(),
        s.phase == Phase::Paging,
        s.buffer.len() > 0,
        store_ordered(store),
        at_position(s, store, p),
    ensures
        p < store.len(),
        store[p].time.spec_lt(s.until) ==> s.step().1 == Step::Yield(normalized(store[p]))
            && at_position(s.step().0, store, p + 1),
        !store[p].time.spec_lt(s.until) ==> s.step().1 == Step::End && s.step().0.phase
            == Phase::Exhausted,
{
    assert(s.buffer[0] == store[p]);
    let n = s.step().0;
    if store[p].time.spec_lt(s.until) {
        assert forall|j: int| 0 <= j < store.len() implies (n.cursor <= #[trigger] store[j].id
            <==> p + 1 <= j) by {
            lemma_ids_follow_positions(store, p, j);
        }
        assert(n.buffer =~= store.subrange(p + 1, p + 1 + n.buffer.len()));
    }
}

/// A scan at an index at or past the first row at or after `since` hands out
/// only trades with `since <= timestamp < until`.
pub proof fn lemma_yield_within_window(s: IterState, store: Seq<TradeRow>, k: int, p: int)
    requires
        s.well_formed(),
        store_ordered(store),
        first_at_or_after(store, s.since, k),
        at_position(s, store, p),
        k <= p,
    ensures
        s.step().1 matches Step::Yield(t) ==> !t.timestamp.spec_lt(s.since) && t.timestamp.spec_lt(
            s.until,
        ),
{
    if s.step().1 is Yield {
        assert(s.buffer[0] == store[p]);
        lemma_ids_follow_positions(store, k, p);
        lemma_rows_from_start_follow_since(store, s.since, k, p);
    }
}

} // verus!
