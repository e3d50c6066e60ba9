use crate::instant::Instant;
use crate::trade::{normalized, Trade, TradeRow};
use vstd::prelude::*;

verus! {

/// Rows asked of the store in one round trip unless a caller picks otherwise.
pub const DEFAULT_PAGE_SIZE: usize = 10000;

/// Where a scan stands.
#[derive(Clone, Copy, Debug, PartialEq, Eq, Structural)]
pub enum Phase {
    /// Waiting for the id of the first row at or after `since`.
    Resolving,
    /// Handing out buffered rows, and fetching the next page once they run out.
    Paging,
    /// Done for good.
    Exhausted,
}

/// What the driver of a scan is to do next.
#[derive(Clone, Copy, Debug, PartialEq, Eq, Structural)]
pub enum Step {
    /// Look up the smallest id of a row whose time is at or after the instant,
    /// and report it with `on_resolved`.
    Resolve(Instant),
    /// Load at most `limit` rows with id at or above `from_id`, in ascending
    /// id order, and report them with `on_page`.
    FetchPage { from_id: i32, limit: usize },
    /// The next trade of the stream.
    Yield(Trade),
    /// The stream has ended.
    End,
}

/// Why a page was refused.
#[derive(Clone, Copy, Debug, PartialEq, Eq, Structural)]
pub enum PageError {
    /// No page was asked for.
    NotAwaitingPage,
    /// The page holds more rows than were asked for.
    TooManyRows,
    /// A row lies below the cursor, or the ids do not strictly increase.
    OutOfOrder,
}

/// The abstract state of a scan.
pub struct IterState {
    pub since: Instant,
    pub until: Instant,
    pub page_size: usize,
    pub phase: Phase,
    /// The id from which the next page is fetched: one past the last row
    /// taken out of the buffer.
    pub cursor: int,
    /// Rows fetched and not yet handed out, in the order they came.
    pub buffer: Seq<TradeRow>,
}

/// Each row's id is at least `cursor`, and the ids strictly increase.
pub open spec fn ordered_from(rows: Seq<TradeRow>, cursor: int) -> bool {
    &&& forall|i: int| 0 <= i < rows.len() ==> cursor <= #[trigger] rows[i].id
    &&& forall|i: int, j: int|
        0 <= i < j < rows.len() ==> #[trigger] rows[i].id < #[trigger] rows[j].id
}

impl IterState {
    /// A scan of `[since, until)` that has not looked anything up yet.
    pub open spec fn start(since: Instant, until: Instant, page_size: usize) -> IterState {
        IterState {
            since,
            until,
            page_size,
            phase: Phase::Resolving,
            cursor: 0,
            buffer: Seq::empty(),
        }
    }

    pub open spec fn well_formed(self) -> bool {
        &&& i32::MIN <= self.cursor <= i32::MAX + 1
        &&& ordered_from(self.buffer, self.cursor)
        &&& self.phase != Phase::Paging ==> self.buffer.len() == 0
    }

    /// The same scan, exhausted, with the cursor at `cursor`.
    pub open spec fn exhausted_at(self, cursor: int) -> IterState {
        IterState {
            since: self.since,
            until: self.until,
            page_size: self.page_size,
            phase: Phase::Exhausted,
            cursor,
            buffer: Seq::empty(),
        }
    }

    /// The state after one step, and what the driver is to do.
    pub open spec fn step(self) -> (IterState, Step) {
        match self.phase {
            Phase::Resolving => (self, Step::Resolve(self.since)),
            Phase::Exhausted => (self, Step::End),
            Phase::Paging => if self.buffer.len() == 0 {
                if self.cursor > i32::MAX {
                    (self.exhausted_at(self.cursor), Step::End)
                } else {
                    (self, Step::FetchPage { from_id: self.cursor as i32, limit: self.page_size })
                }
            } else {
                let row = self.buffer[0];
                let trade = normalized(row);
                if trade.timestamp.spec_lt(self.until) {
                    (
                        IterState {
                            since: self.since,
                            until: self.until,
                            page_size: self.page_size,
                            phase: Phase::Paging,
                            cursor: row.id + 1,
                            buffer: self.buffer.drop_first(),
                        },
                        Step::Yield(trade),
                    )
                } else {
                    (self.exhausted_at(row.id + 1), Step::End)
                }
            },
        }
    }

    /// The state once the first id at or after `since` is known; `None` says
    /// that no row is at or after it. Outside `Resolving` nothing changes.
    pub open spec fn resolved(self, start: Option<i32>) -> IterState {
        if self.phase == Phase::Resolving {
            match start {
                Some(id) => IterState {
                    since: self.since,
                    until: self.until,
                    page_size: self.page_size,
                    phase: Phase::Paging,
                    cursor: id as int,
                    buffer: Seq::empty(),
                },
                None => self.exhausted_at(self.cursor),
            }
        } else {
            self
        }
    }

    /// Why `rows` cannot be taken as the page last asked for, if they cannot.
    pub open spec fn page_error(self, rows: Seq<TradeRow>) -> Option<PageError> {
        if self.phase != Phase::Paging || self.buffer.len() != 0 || self.cursor > i32::MAX {
            Some(PageError::NotAwaitingPage)
        } else if rows.len() > self.page_size {
            Some(PageError::TooManyRows)
        } else if !ordered_from(rows, self.cursor) {
            Some(PageError::OutOfOrder)
        } else {
            None
        }
    }

    /// The state once `rows` came back for a page: an empty page ends the scan.
    pub open spec fn page_loaded(self, rows: Seq<TradeRow>) -> IterState {
        if rows.len() == 0 {
            self.exhausted_at(self.cursor)
        } else {
            IterState {
                since: self.since,
                until: self.until,
                page_size: self.page_size,
                phase: Phase::Paging,
                cursor: self.cursor,
                buffer: rows,
            }
        }
    }
}

/// A scan over the trades of `[since, until)`. It does no I/O itself: each
/// call of `next_step` says what its driver is to do, and the driver reports
/// what the store answered with `on_resolved` and `on_page`.
pub struct TradeIter {
    since: Instant,
    until: Instant,
    page_size: usize,
    phase: Phase,
    cursor: i64,
    page: Vec<TradeRow>,
    pos: usize,
}

impl View for TradeIter {
    type V = IterState;

    closed spec fn view(&self) -> IterState {
        IterState {
            since: self.since,
            until: self.until,
            page_size: self.page_size,
            phase: self.phase,
            cursor: self.cursor as int,
            buffer: self.page@.subrange(self.pos as int, self.page@.len() as int),
        }
    }
}

impl Trade {
    /// A scan of the trades with `since <= timestamp < until`, fetching pages
    /// of `DEFAULT_PAGE_SIZE` rows.
    pub fn fetch(since: Instant, until: Instant) -> (r: TradeIter)
        ensures
            r.wf(),
            r@ == IterState::start(since, until, DEFAULT_PAGE_SIZE),
    {
        TradeIter::with_page_size(since, until, DEFAULT_PAGE_SIZE)
    }
}

impl TradeIter {
    pub closed spec fn wf(&self) -> bool {
        &&& self.pos <= self.page@.len()
        &&& self@.well_formed()
    }

    /// A scan of the trades with `since <= timestamp < until`, fetching pages
    /// of `page_size` rows.
    pub fn with_page_size(since: Instant, until: Instant, page_size: usize) -> (r: TradeIter)
        ensures
            r.wf(),
            r@ == IterState::start(since, until, page_size),
    {
        let r = TradeIter {
            since,
            until,
            page_size,
            phase: Phase::Resolving,
            cursor: 0,
            page: Vec::new(),
            pos: 0,
        };
        assert(r@.buffer =~= Seq::<TradeRow>::empty());
        r
    }

    pub fn phase(&self) -> (r: Phase)
        ensures
            r == self@.phase,
    {
        self.phase
    }

    fn finish(&mut self)
        requires
            i32::MIN <= old(self).cursor <= i32::MAX + 1,
        ensures
            final(self).wf(),
            final(self)@ == old(self)@.exhausted_at(old(self)@.cursor),
    {
        self.phase = Phase::Exhausted;
        self.page = Vec::new();
        self.pos = 0;
        assert(self@.buffer =~= Seq::<TradeRow>::empty());
    }

    /// Takes one step of the scan and says what its driver is to do.
    pub fn next_step(&mut self) -> (s: Step)
        requires
            old(self).wf(),
        ensures
            final(self).wf(),
            (final(self)@, s) == old(self)@.step(),
    {
        match self.phase {
            Phase::Resolving => Step::Resolve(self.since),
            Phase::Exhausted => Step::End,
            Phase::Paging => {
                if self.pos >= self.page.len() {
                    if self.cursor > i32::MAX as i64 {
                        self.finish();
                        Step::End
                    } else {
                        Step::FetchPage { from_id: self.cursor as i32, limit: self.page_size }
                    }
                } else {
                    let ghost before = self@;
                    let row = self.page[self.pos];
                    assert(row == before.buffer[0]);
                    self.pos = self.pos + 1;
                    self.cursor = row.id as i64 + 1;
                    assert(self@.buffer =~= before.buffer.drop_first());
                    let trade = Trade::from_row(&row);
                    if trade.timestamp.is_before(&self.until) {
                        Step::Yield(trade)
                    } else {
                        self.finish();
                        Step::End
                    }
                }
            },
        }
    }

    /// Reports the smallest id of a row at or after `since`, or `None` where
    /// no row is.
    pub fn on_resolved(&mut self, start: Option<i32>)
        requires
            old(self).wf(),
        ensures
            final(self).wf(),
            final(self)@ == old(self)@.resolved(start),
    {
        if self.phase == Phase::Resolving {
            match start {
                Some(id) => {
                    self.phase = Phase::Paging;
                    self.cursor = id as i64;
                    self.page = Vec::new();
                    self.pos = 0;
                    assert(self@.buffer =~= Seq::<TradeRow>::empty());
                },
                None => self.finish(),
            }
        }
    }

    /// Reports the rows that came back for the page last asked for.
    pub fn on_page(&mut self, rows: Vec<TradeRow>) -> (r: Result<(), PageError>)
        requires
            old(self).wf(),
        ensures
            final(self).wf(),
            match old(self)@.page_error(rows@) {
                Some(e) => r == Err::<(), PageError>(e) && final(self)@ == old(self)@,
                None => r == Ok::<(), PageError>(()) && final(self)@ == old(self)@.page_loaded(
                    rows@,
                ),
            },
    {
        if self.phase != Phase::Paging || self.pos < self.page.len() || self.cursor > i32::MAX
            as i64 {
            return Err(PageError::NotAwaitingPage);
        }
        if rows.len() > self.page_size {
            return Err(PageError::TooManyRows);
        }
        let mut prev: i64 = self.cursor - 1;
        let mut i: usize = 0;
        while i < rows.len()
            invariant
                i <= rows@.len(),
                *self == *old(self),
                old(self).wf(),
                old(self)@.page_error(rows@) is None || old(self)@.page_error(rows@) == Some(
                    PageError::OutOfOrder,
                ),
                i32::MIN <= self.cursor <= i32::MAX,
                i == 0 ==> prev == self.cursor - 1,
                i > 0 ==> prev == rows@[i - 1].id,
                forall|k: int| 0 <= k < i ==> self.cursor <= #[trigger] rows@[k].id,
                forall|k: int| 0 <= k < i ==> #[trigger] rows@[k].id <= prev,
                forall|a: int, b: int|
                    0 <= a < b < i ==> #[trigger] rows@[a].id < #[trigger] rows@[b].id,
            decreases rows@.len() - i,
        {
            let id = rows[i].id as i64;
            if id <= prev {
                assert(!ordered_from(rows@, self.cursor as int)) by {
                    if i > 0 {
                        assert(rows@[i - 1].id >= rows@[i as int].id);
                    } else {
                        assert(rows@[0].id < self.cursor);
                    }
                }
                return Err(PageError::OutOfOrder);
            }
            prev = id;
            i = i + 1;
        }
        assert(ordered_from(rows@, self.cursor as int));
        if rows.len() == 0 {
            self.finish();
        } else {
            self.page = rows;
            self.pos = 0;
            assert(self@.buffer =~= rows@);
        }
        Ok(())
    }
}

/// Every transition keeps a well-formed state well-formed.
pub proof fn lemma_transitions_keep_well_formed(
    s: IterState,
    start: Option<i32>,
    rows: Seq<TradeRow>,
)
    requires
        s.well_formed(),
    ensures
        s.step().0.well_formed(),
        s.resolved(start).well_formed(),
        s.page_error(rows) is None ==> s.page_loaded(rows).well_formed(),
{
    if s.phase == Phase::Paging && s.buffer.len() > 0 {
        let rest = s.buffer.drop_first();
        assert forall|i: int| 0 <= i < rest.len() implies s.buffer[0].id + 1 <= #[trigger] rest[i].id by {
            assert(s.buffer[0].id < s.buffer[i + 1].id);
        }
        assert forall|i: int, j: int| 0 <= i < j < rest.len() implies #[trigger] rest[i].id
            < #[trigger] rest[j].id by {
            assert(s.buffer[i + 1].id < s.buffer[j + 1].id);
        }
    }
}

/// A trade is handed out only while its timestamp lies before `until`.
pub proof fn lemma_yield_before_until(s: IterState)
    requires
        s.well_formed(),
    ensures
        s.step().1 matches Step::Yield(t) ==> t.timestamp.spec_lt(s.until),
{
}

/// A trade handed out comes from the front row of the buffer, whose id is at
/// least the cursor; the cursor moves one past that id at once, and every row
/// left behind in the buffer has a larger id.
pub proof fn lemma_yield_takes_front_row(s: IterState)
    requires
        s.well_formed(),
        s.step().1 is Yield,
    ensures
        s.buffer.len() > 0,
        s.step().1 == Step::Yield(normalized(s.buffer[0])),
        s.cursor <= s.buffer[0].id,
        s.step().0.cursor == s.buffer[0].id + 1,
        forall|i: int|
            0 <= i < s.step().0.buffer.len() ==> s.buffer[0].id < #[trigger] s.step().0.buffer[i].id,
{
    let rest = s.step().0.buffer;
    assert forall|i: int| 0 <= i < rest.len() implies s.buffer[0].id < #[trigger] rest[i].id by {
        assert(rest[i] == s.buffer[i + 1]);
    }
}

/// Once a scan has left `Resolving`, no transition moves its cursor back, and
/// every row it can still hand out has an id at least the cursor. With the
/// lemma above, the ids of the rows behind successive trades strictly
/// increase, and no row is handed out twice.
pub proof fn lemma_cursor_never_decreases(s: IterState, start: Option<i32>, rows: Seq<TradeRow>)
    requires
        s.well_formed(),
        s.phase != Phase::Resolving,
    ensures
        s.step().0.cursor >= s.cursor,
        s.step().0.phase != Phase::Resolving,
        s.resolved(start) == s,
        s.page_error(rows) is None ==> s.page_loaded(rows).cursor == s.cursor
            && s.page_loaded(rows).phase != Phase::Resolving,
        forall|i: int| 0 <= i < s.buffer.len() ==> s.cursor <= #[trigger] s.buffer[i].id,
{
}

/// Successive trades come from rows with strictly increasing ids: once `s`
/// hands out the trade of row `r`, any later state of the same scan (its
/// cursor at or past the one `s` moved to, as the transitions keep it) hands
/// out only rows with larger ids.
pub proof fn lemma_later_yields_have_larger_ids(s: IterState, later: IterState)
    requires
        s.well_formed(),
        s.step().1 is Yield,
        later.well_formed(),
        later.phase != Phase::Resolving,
        s.step().0.cursor <= later.cursor,
    ensures
        later.step().1 is Yield ==> s.buffer[0].id < later.buffer[0].id,
{
    lemma_yield_takes_front_row(s);
    if later.step().1 is Yield {
        lemma_yield_takes_front_row(later);
    }
}

/// An exhausted scan stays so: it only ever ends, ignores a resolved id, and
/// refuses every page.
pub proof fn lemma_exhausted_is_terminal(s: IterState, start: Option<i32>, rows: Seq<TradeRow>)
    requires
        s.phase == Phase::Exhausted,
    ensures
        s.step() == (s, Step::End),
        s.resolved(start) == s,
        s.page_error(rows) == Some(PageError::NotAwaitingPage),
{
}

/// A paging scan ends exactly when the store has no rows left at or above the
/// cursor (an empty page, or a cursor past every id), or when the next row's
/// timestamp reaches `until`; either way it is exhausted afterwards.
pub proof fn lemma_paging_ends(s: IterState, rows: Seq<TradeRow>)
    requires
        s.well_formed(),
        s.phase == Phase::Paging,
    ensures
        s.step().1 == Step::End <==> (s.buffer.len() == 0 && s.cursor > i32::MAX) || (
        s.buffer.len() > 0 && !s.buffer[0].time.spec_lt(s.until)),
        s.step().1 == Step::End ==> s.step().0.phase == Phase::Exhausted,
        s.page_error(rows) is None && rows.len() == 0 ==> s.page_loaded(rows).phase
            == Phase::Exhausted,
{
}

/// The last row of a page, once handed out, is followed by a fetch from one
/// past its id: a page boundary skips no row and repeats none.
pub proof fn lemma_refill_follows_last_row(s: IterState)
    requires
        s.well_formed(),
        s.phase == Phase::Paging,
        s.buffer.len() == 1,
        s.buffer[0].time.spec_lt(s.until),
        s.buffer[0].id < i32::MAX,
    ensures
        s.step().1 == Step::Yield(normalized(s.buffer[0])),
        s.step().0.step() == (
            s.step().0,
            Step::FetchPage { from_id: (s.buffer[0].id + 1) as i32, limit: s.page_size },
        ),
{
}

} // verus!
