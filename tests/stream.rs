use trade_stream::{Instant, PageError, Phase, Step, Trade, TradeIter, TradeRow, DEFAULT_PAGE_SIZE};

const JAN_1_2021: i64 = 1_609_459_200;

fn at(secs: i64) -> Instant {
    Instant::new(secs, 0)
}

fn row(id: i32, secs: i64, side: bool) -> TradeRow {
    TradeRow {
        id,
        liquidation: false,
        price_bits: 731.25f32.to_bits(),
        side,
        size_bits: 0.5f32.to_bits(),
        time: at(secs),
    }
}

/// Runs a scan against rows held in memory, answering its requests as an
/// id-ordered store would. Returns the trades and the ids that pages were
/// fetched from.
fn drive(store: &[TradeRow], mut it: TradeIter) -> (Vec<Trade>, Vec<i32>) {
    let mut trades = Vec::new();
    let mut fetches = Vec::new();
    loop {
        match it.next_step() {
            Step::Resolve(since) => {
                let start = store.iter().find(|r| !r.time.is_before(&since)).map(|r| r.id);
                it.on_resolved(start);
            }
            Step::FetchPage { from_id, limit } => {
                fetches.push(from_id);
                let page: Vec<TradeRow> =
                    store.iter().filter(|r| r.id >= from_id).take(limit).copied().collect();
                assert_eq!(it.on_page(page), Ok(()));
            }
            Step::Yield(t) => trades.push(t),
            Step::End => break,
        }
    }
    (trades, fetches)
}

#[test]
fn window_scenario_stops_at_until() {
    let mut store: Vec<TradeRow> = (1..=4).map(|id| row(id, JAN_1_2021 + 60 * (id as i64 - 1), true)).collect();
    store.push(row(5, JAN_1_2021 + 86_401, true));
    let it = TradeIter::with_page_size(at(JAN_1_2021), at(JAN_1_2021 + 86_400), 2);
    let (trades, fetches) = drive(&store, it);
    let times: Vec<i64> = trades.iter().map(|t| t.timestamp.secs).collect();
    assert_eq!(times, vec![JAN_1_2021, JAN_1_2021 + 60, JAN_1_2021 + 120, JAN_1_2021 + 180]);
    assert_eq!(fetches, vec![1, 3, 5]);
}

#[test]
fn no_row_after_since_gives_empty_stream() {
    let store = vec![row(1, 100, true), row(2, 200, false)];
    let mut it = Trade::fetch(at(300), at(400));
    assert_eq!(it.next_step(), Step::Resolve(at(300)));
    it.on_resolved(None);
    assert_eq!(it.phase(), Phase::Exhausted);
    assert_eq!(it.next_step(), Step::End);
    let (trades, fetches) = drive(&store, Trade::fetch(at(300), at(400)));
    assert!(trades.is_empty());
    assert!(fetches.is_empty());
}

#[test]
fn page_boundary_skips_and_repeats_nothing() {
    let store: Vec<TradeRow> = (10..14).map(|id| row(id, id as i64, id % 2 == 0)).collect();
    let it = TradeIter::with_page_size(at(0), at(1000), 3);
    let (trades, fetches) = drive(&store, it);
    let times: Vec<i64> = trades.iter().map(|t| t.timestamp.secs).collect();
    assert_eq!(times, vec![10, 11, 12, 13]);
    assert_eq!(fetches, vec![10, 13, 14]);
}

#[test]
fn window_is_half_open() {
    let store: Vec<TradeRow> = (1..=6).map(|id| row(id, 10 * id as i64, true)).collect();
    let (trades, _) = drive(&store, Trade::fetch(at(20), at(50)));
    let times: Vec<i64> = trades.iter().map(|t| t.timestamp.secs).collect();
    assert_eq!(times, vec![20, 30, 40]);
    for t in &trades {
        assert!(!t.timestamp.is_before(&at(20)));
        assert!(t.timestamp.is_before(&at(50)));
    }
}

#[test]
fn default_page_size_is_asked_for() {
    let mut it = Trade::fetch(at(0), at(10));
    it.on_resolved(Some(7));
    assert_eq!(it.next_step(), Step::FetchPage { from_id: 7, limit: DEFAULT_PAGE_SIZE });
    assert_eq!(DEFAULT_PAGE_SIZE, 10000);
}

#[test]
fn side_becomes_sign_of_amount() {
    let buy = Trade::from_row(&row(1, 0, true));
    let sell = Trade::from_row(&row(2, 0, false));
    assert_eq!(f32::from_bits(buy.amount_bits), 0.5);
    assert_eq!(f32::from_bits(sell.amount_bits), -0.5);
    assert!(buy.is_buy() && !buy.is_sell());
    assert!(sell.is_sell() && !sell.is_buy());
    assert_eq!(f32::from_bits(sell.price_bits), 731.25);
    assert_eq!(sell.timestamp, at(0));
    assert_eq!(Trade::from(row(2, 0, false)), sell);
}

#[test]
fn zero_size_is_neither_buy_nor_sell() {
    let mut r = row(1, 0, false);
    r.size_bits = 0.0f32.to_bits();
    let t = Trade::from_row(&r);
    assert!(!t.is_buy());
    assert!(!t.is_sell());
    r.side = true;
    let t = Trade::from_row(&r);
    assert!(!t.is_buy());
    assert!(!t.is_sell());
}

#[test]
fn nan_amount_is_neither_buy_nor_sell() {
    let mut r = row(1, 0, true);
    r.size_bits = f32::NAN.to_bits();
    assert!(!Trade::from_row(&r).is_buy());
    r.side = false;
    assert!(!Trade::from_row(&r).is_sell());
}

#[test]
fn exhausted_scan_stays_exhausted() {
    let store = vec![row(1, 5, true), row(2, 50, true)];
    let mut it = Trade::fetch(at(0), at(10));
    let (trades, _) = drive(&store, Trade::fetch(at(0), at(10)));
    assert_eq!(trades.len(), 1);
    it.on_resolved(Some(1));
    assert!(matches!(it.next_step(), Step::FetchPage { from_id: 1, .. }));
    assert_eq!(it.on_page(store.clone()), Ok(()));
    assert!(matches!(it.next_step(), Step::Yield(_)));
    assert_eq!(it.next_step(), Step::End);
    assert_eq!(it.phase(), Phase::Exhausted);
    assert_eq!(it.next_step(), Step::End);
    it.on_resolved(Some(1));
    assert_eq!(it.next_step(), Step::End);
    assert_eq!(it.on_page(store), Err(PageError::NotAwaitingPage));
}

#[test]
fn empty_page_ends_scan() {
    let mut it = Trade::fetch(at(0), at(10));
    it.on_resolved(Some(3));
    assert_eq!(it.on_page(Vec::new()), Ok(()));
    assert_eq!(it.phase(), Phase::Exhausted);
    assert_eq!(it.next_step(), Step::End);
}

#[test]
fn page_before_resolving_is_refused() {
    let mut it = Trade::fetch(at(0), at(10));
    assert_eq!(it.on_page(vec![row(1, 1, true)]), Err(PageError::NotAwaitingPage));
    assert_eq!(it.phase(), Phase::Resolving);
}

#[test]
fn oversized_page_is_refused() {
    let mut it = TradeIter::with_page_size(at(0), at(10), 1);
    it.on_resolved(Some(1));
    assert_eq!(it.on_page(vec![row(1, 1, true), row(2, 2, true)]), Err(PageError::TooManyRows));
    assert_eq!(it.on_page(vec![row(1, 1, true)]), Ok(()));
}

#[test]
fn unordered_page_is_refused() {
    let mut it = Trade::fetch(at(0), at(10));
    it.on_resolved(Some(5));
    assert_eq!(it.on_page(vec![row(4, 1, true)]), Err(PageError::OutOfOrder));
    assert_eq!(it.on_page(vec![row(5, 1, true), row(5, 2, true)]), Err(PageError::OutOfOrder));
    assert_eq!(it.on_page(vec![row(6, 1, true), row(5, 2, true)]), Err(PageError::OutOfOrder));
    assert_eq!(it.on_page(vec![row(5, 1, true), row(9, 2, true)]), Ok(()));
}

#[test]
fn row_at_largest_id_ends_without_fetch() {
    let mut it = Trade::fetch(at(0), at(10));
    it.on_resolved(Some(i32::MAX));
    assert_eq!(it.on_page(vec![row(i32::MAX, 1, true)]), Ok(()));
    assert!(matches!(it.next_step(), Step::Yield(_)));
    assert_eq!(it.next_step(), Step::End);
    assert_eq!(it.phase(), Phase::Exhausted);
}

#[test]
fn partly_consumed_page_is_not_fetched_again() {
    let store: Vec<TradeRow> = (1..=3).map(|id| row(id, id as i64, true)).collect();
    let mut it = TradeIter::with_page_size(at(0), at(100), 2);
    it.on_resolved(Some(1));
    assert_eq!(it.next_step(), Step::FetchPage { from_id: 1, limit: 2 });
    assert_eq!(it.on_page(store[..2].to_vec()), Ok(()));
    assert!(matches!(it.next_step(), Step::Yield(t) if t.timestamp == at(1)));
    assert_eq!(it.on_page(store[..2].to_vec()), Err(PageError::NotAwaitingPage));
    assert!(matches!(it.next_step(), Step::Yield(t) if t.timestamp == at(2)));
    assert_eq!(it.next_step(), Step::FetchPage { from_id: 3, limit: 2 });
}

#[test]
fn instants_order_by_seconds_then_nanos() {
    assert!(Instant::new(1, 999_999_999).is_before(&Instant::new(2, 0)));
    assert!(Instant::new(1, 5).is_before(&Instant::new(1, 6)));
    assert!(!Instant::new(1, 6).is_before(&Instant::new(1, 6)));
    assert!(Instant::new(59, 1_500_000_000).is_before(&Instant::new(60, 0)));
    assert!(Instant::new(-1, 0).is_before(&Instant::new(0, 0)));
}
