use polygonio_rs::crypto_data::{
    accumulate_or_close, aggregate, create_candle_from_trades, get_candles_for_trading_day,
    AggregationError, Candle, Trade, Trades,
};
use polygonio_rs::decimal::ExactDecimal;
use rust_decimal::Decimal;

fn exact(d: Decimal) -> ExactDecimal {
    ExactDecimal::new(d.mantissa(), d.scale()).unwrap()
}

fn decimal(e: ExactDecimal) -> Decimal {
    Decimal::from_i128_with_scale(e.mantissa(), e.scale())
}

fn trade(timestamp: u64, price: i64) -> Trade {
    Trade::new(
        vec![1],
        1,
        Some(format!("t{}", timestamp)),
        timestamp,
        exact(Decimal::from(price)),
        exact(Decimal::from(1)),
    )
    .unwrap()
}

fn priced(timestamp: u64, mantissa: i128, scale: u32) -> Trade {
    Trade::new(
        vec![],
        7,
        None,
        timestamp,
        ExactDecimal::new(mantissa, scale).unwrap(),
        exact(Decimal::from(2)),
    )
    .unwrap()
}

fn ohlc(c: &Candle) -> (Decimal, Decimal, Decimal, Decimal) {
    (decimal(c.open()), decimal(c.high()), decimal(c.low()), decimal(c.close()))
}

fn stamps(trades: &Vec<Trade>) -> Vec<u64> {
    let mut out: Vec<u64> = Vec::new();
    for t in trades {
        out.push(t.participant_timestamp());
    }
    out
}

const SECOND: u64 = 1_000_000_000;

#[test]
fn test_create_candle_from_trades() {
    println!("Starting candle test...");
    let mut sample_trades = Vec::<Trade>::new();
    let trade_one = Trade::new(
        vec![1],
        1,
        Some(String::from("123")),
        9237019287301928370,
        exact(Decimal::from(1)),
        exact(Decimal::from(1)),
    )
    .unwrap();
    let trade_two = Trade::new(
        vec![1],
        1,
        Some(String::from("124")),
        9237019287301928380,
        exact(Decimal::from(2)),
        exact(Decimal::from(1)),
    )
    .unwrap();
    let trade_three = Trade::new(
        vec![1],
        1,
        Some(String::from("125")),
        9237019287301928390,
        exact(Decimal::from(3)),
        exact(Decimal::from(1)),
    )
    .unwrap();
    sample_trades.push(trade_one);
    sample_trades.push(trade_two);
    sample_trades.push(trade_three);

    let test_candle = create_candle_from_trades(&sample_trades).unwrap();
    println!("{:?}", test_candle);

    assert_eq!(decimal(test_candle.open()), Decimal::from(1));
    assert_eq!(decimal(test_candle.close()), Decimal::from(3));
    assert_eq!(decimal(test_candle.low()), Decimal::from(1));
    assert_eq!(decimal(test_candle.high()), Decimal::from(3));
}

#[test]
fn candle_of_empty_window_is_an_error() {
    let none: Vec<Trade> = Vec::new();
    assert_eq!(create_candle_from_trades(&none), Err(AggregationError::EmptyWindow));
}

#[test]
fn candle_extremes_are_found_inside_the_window() {
    let window = vec![trade(50, 4), trade(40, 9), trade(30, 2), trade(20, 7)];
    let c = create_candle_from_trades(&window).unwrap();
    assert_eq!(
        ohlc(&c),
        (Decimal::from(4), Decimal::from(9), Decimal::from(2), Decimal::from(7))
    );
}

#[test]
fn candle_compares_prices_by_value_across_scales() {
    // 1.5, 1.25, 1.375 and 0.9 written at four different scales
    let window = vec![
        priced(40, 15, 1),
        priced(30, 125, 2),
        priced(20, 1375, 3),
        priced(10, 9000, 4),
    ];
    let c = create_candle_from_trades(&window).unwrap();
    assert_eq!(c.open(), ExactDecimal::new(15, 1).unwrap());
    assert_eq!(c.high(), ExactDecimal::new(15, 1).unwrap());
    assert_eq!(c.low(), ExactDecimal::new(9000, 4).unwrap());
    assert_eq!(c.close(), ExactDecimal::new(9000, 4).unwrap());
}

#[test]
fn candle_keeps_the_first_of_equal_extremes() {
    // 2.0 and 2.00 are the same number: the earlier representation stays
    let window = vec![priced(30, 20, 1), priced(20, 200, 2), priced(10, 2, 0)];
    let c = create_candle_from_trades(&window).unwrap();
    assert_eq!(c.high(), ExactDecimal::new(20, 1).unwrap());
    assert_eq!(c.low(), ExactDecimal::new(20, 1).unwrap());
    assert_eq!(c.close(), ExactDecimal::new(2, 0).unwrap());
}

#[test]
fn candle_with_negative_prices() {
    // -0.5 is below -0.01
    let window = vec![priced(30, -1, 2), priced(20, -5, 1), priced(10, 0, 0)];
    let c = create_candle_from_trades(&window).unwrap();
    assert_eq!(c.low(), ExactDecimal::new(-5, 1).unwrap());
    assert_eq!(c.high(), ExactDecimal::new(0, 0).unwrap());
}

#[test]
fn aggregate_of_nothing_is_nothing() {
    let none: Vec<Trade> = Vec::new();
    let (candles, pending) = aggregate(&none, 30).unwrap();
    assert!(candles.is_empty());
    assert!(pending.is_empty());
    let (candles, pending) = aggregate(&none, 0).unwrap();
    assert!(candles.is_empty());
    assert!(pending.is_empty());
}

#[test]
fn aggregate_closes_one_window_and_keeps_the_rest_pending() {
    let trades = vec![trade(300, 1), trade(290, 2), trade(280, 3), trade(100, 4), trade(90, 5)];
    let (candles, pending) = aggregate(&trades, 30).unwrap();
    assert_eq!(candles.len(), 1);
    assert_eq!(
        ohlc(&candles[0]),
        (Decimal::from(1), Decimal::from(3), Decimal::from(1), Decimal::from(3))
    );
    assert_eq!(stamps(&pending), vec![100, 90]);
    assert_eq!(decimal(pending[0].price()), Decimal::from(4));
    assert_eq!(decimal(pending[1].price()), Decimal::from(5));
}

#[test]
fn aggregate_example_in_seconds() {
    let trades = vec![
        trade(300 * SECOND, 1),
        trade(290 * SECOND, 2),
        trade(280 * SECOND, 3),
        trade(100 * SECOND, 4),
        trade(90 * SECOND, 5),
    ];
    let page = Trades::new(trades, String::from("OK"), String::from("r1"), None, None);
    let (pending, candles) = get_candles_for_trading_day(30, &page).unwrap();
    assert_eq!(candles.len(), 1);
    assert_eq!(
        ohlc(&candles[0]),
        (Decimal::from(1), Decimal::from(3), Decimal::from(1), Decimal::from(3))
    );
    assert_eq!(stamps(&pending), vec![100 * SECOND, 90 * SECOND]);
}

#[test]
fn seconds_are_compared_exactly() {
    // half a second beyond the window closes it
    let trades = vec![trade(40 * SECOND, 1), trade(10 * SECOND, 2), trade(10 * SECOND - SECOND / 2, 3)];
    let page = Trades::new(trades, String::from("OK"), String::from("r2"), None, None);
    let (pending, candles) = get_candles_for_trading_day(30, &page).unwrap();
    assert_eq!(candles.len(), 1);
    assert_eq!(
        ohlc(&candles[0]),
        (Decimal::from(1), Decimal::from(2), Decimal::from(1), Decimal::from(2))
    );
    assert_eq!(stamps(&pending), vec![10 * SECOND - SECOND / 2]);
}

#[test]
fn a_duration_beyond_all_timestamps_never_closes() {
    let trades = vec![trade(u64::MAX, 1), trade(5, 2), trade(0, 3)];
    let page = Trades::new(trades, String::from("OK"), String::from("r3"), None, None);
    let (pending, candles) = get_candles_for_trading_day(u64::MAX, &page).unwrap();
    assert!(candles.is_empty());
    assert_eq!(stamps(&pending), vec![u64::MAX, 5, 0]);
}

#[test]
fn window_boundary_is_inclusive() {
    // elapsed 30 stays, elapsed 31 closes
    let trades = vec![trade(100, 1), trade(70, 2), trade(69, 3)];
    let (candles, pending) = aggregate(&trades, 30).unwrap();
    assert_eq!(candles.len(), 1);
    assert_eq!(
        ohlc(&candles[0]),
        (Decimal::from(1), Decimal::from(2), Decimal::from(1), Decimal::from(2))
    );
    assert_eq!(stamps(&pending), vec![69]);
}

#[test]
fn the_closing_trade_anchors_the_next_window() {
    // 60 closes the first window and anchors the second, which 25 closes
    let trades = vec![trade(100, 5), trade(60, 6), trade(35, 7), trade(25, 8)];
    let (candles, pending) = aggregate(&trades, 30).unwrap();
    assert_eq!(candles.len(), 2);
    assert_eq!(
        ohlc(&candles[0]),
        (Decimal::from(5), Decimal::from(5), Decimal::from(5), Decimal::from(5))
    );
    assert_eq!(
        ohlc(&candles[1]),
        (Decimal::from(6), Decimal::from(7), Decimal::from(6), Decimal::from(7))
    );
    assert_eq!(stamps(&pending), vec![25]);
}

#[test]
fn a_trade_newer_than_the_anchor_is_a_violation() {
    let trades = vec![trade(300, 1), trade(290, 2), trade(301, 3), trade(100, 4)];
    assert_eq!(aggregate(&trades, 30).err(), Some(AggregationError::OrderingViolation));
    let rising = vec![trade(1, 1), trade(2, 2)];
    assert_eq!(aggregate(&rising, 0).err(), Some(AggregationError::OrderingViolation));
}

#[test]
fn a_trade_newer_than_its_predecessor_but_not_the_anchor_is_taken() {
    let trades = vec![trade(300, 1), trade(280, 2), trade(290, 3)];
    let (candles, pending) = aggregate(&trades, 30).unwrap();
    assert!(candles.is_empty());
    assert_eq!(stamps(&pending), vec![300, 280, 290]);
}

#[test]
fn a_violation_after_a_closed_window_is_measured_from_the_new_anchor() {
    // 100 anchors the second window; 150 is newer than 100
    let trades = vec![trade(300, 1), trade(100, 2), trade(150, 3)];
    assert_eq!(aggregate(&trades, 30).err(), Some(AggregationError::OrderingViolation));
}

#[test]
fn zero_duration_gives_each_trade_its_own_window() {
    let trades = vec![trade(50, 5), trade(40, 4), trade(30, 3), trade(20, 2)];
    let (mut candles, pending) = aggregate(&trades, 0).unwrap();
    assert_eq!(candles.len(), 3);
    assert_eq!(stamps(&pending), vec![20]);
    candles.push(create_candle_from_trades(&pending).unwrap());
    assert_eq!(candles.len(), 4);
    let prices = [5, 4, 3, 2];
    for i in 0..4 {
        let p = Decimal::from(prices[i]);
        assert_eq!(ohlc(&candles[i]), (p, p, p, p));
    }
}

#[test]
fn zero_duration_keeps_equal_timestamps_together() {
    let trades = vec![trade(50, 5), trade(50, 6), trade(40, 1)];
    let (candles, pending) = aggregate(&trades, 0).unwrap();
    assert_eq!(candles.len(), 1);
    assert_eq!(
        ohlc(&candles[0]),
        (Decimal::from(5), Decimal::from(6), Decimal::from(5), Decimal::from(6))
    );
    assert_eq!(stamps(&pending), vec![40]);
}

#[test]
fn replay_gives_the_same_result() {
    let trades = vec![trade(900, 3), trade(880, 9), trade(850, 1), trade(500, 4), trade(100, 2)];
    let first = aggregate(&trades, 40).unwrap();
    let second = aggregate(&trades, 40).unwrap();
    assert_eq!(first.0, second.0);
    assert_eq!(stamps(&first.1), stamps(&second.1));
    assert_eq!(first.0.len(), 3);
    assert_eq!(stamps(&first.1), vec![100]);
}

#[test]
fn windows_and_pending_cover_the_input() {
    let trades = vec![
        trade(1000, 1),
        trade(990, 2),
        trade(950, 3),
        trade(949, 4),
        trade(900, 5),
        trade(700, 6),
        trade(690, 7),
    ];
    // replay the windows trade by trade and collect what each closed
    let mut window: Vec<Trade> = Vec::new();
    let mut seen: Vec<u64> = Vec::new();
    let mut closed = 0;
    for t in &trades {
        let before = stamps(&window);
        if let Some(_) = accumulate_or_close(&mut window, t, 45).unwrap() {
            seen.extend(before);
            closed += 1;
        }
    }
    let (candles, pending) = aggregate(&trades, 45).unwrap();
    assert_eq!(candles.len(), closed);
    assert_eq!(stamps(&pending), stamps(&window));
    seen.extend(stamps(&pending));
    assert_eq!(seen, stamps(&trades));
    assert_eq!(candles.len(), 3);
    assert_eq!(stamps(&pending), vec![700, 690]);
}

#[test]
fn closed_windows_stay_within_the_duration() {
    let trades = vec![trade(1000, 1), trade(960, 2), trade(955, 3), trade(900, 4), trade(850, 5)];
    let mut window: Vec<Trade> = Vec::new();
    for t in &trades {
        let before = stamps(&window);
        if accumulate_or_close(&mut window, t, 45).unwrap().is_some() {
            assert!(before[0] - before[before.len() - 1] <= 45);
            assert!(before[0] - t.participant_timestamp() > 45);
        }
    }
}

#[test]
fn pending_carries_over_to_the_next_page() {
    let page_one = vec![trade(500, 1), trade(490, 2), trade(400, 3), trade(395, 4)];
    let page_two = vec![trade(390, 5), trade(300, 6), trade(295, 7)];
    let (mut candles, pending) = aggregate(&page_one, 20).unwrap();
    let mut joined = pending;
    joined.extend(page_two.iter().cloned());
    let (more, rest) = aggregate(&joined, 20).unwrap();
    candles.extend(more);

    let mut whole = page_one.clone();
    whole.extend(page_two.iter().cloned());
    let (all, all_rest) = aggregate(&whole, 20).unwrap();
    assert_eq!(candles, all);
    assert_eq!(stamps(&rest), stamps(&all_rest));
    assert_eq!(all.len(), 2);
    assert_eq!(
        ohlc(&all[1]),
        (Decimal::from(3), Decimal::from(5), Decimal::from(3), Decimal::from(5))
    );
}

#[test]
fn step_starts_joins_closes_and_rejects() {
    let mut window: Vec<Trade> = Vec::new();
    assert_eq!(accumulate_or_close(&mut window, &trade(100, 1), 10), Ok(None));
    assert_eq!(stamps(&window), vec![100]);
    assert_eq!(accumulate_or_close(&mut window, &trade(90, 2), 10), Ok(None));
    assert_eq!(stamps(&window), vec![100, 90]);
    assert_eq!(
        accumulate_or_close(&mut window, &trade(101, 3), 10),
        Err(AggregationError::OrderingViolation)
    );
    assert_eq!(stamps(&window), vec![100, 90]);
    let closed = accumulate_or_close(&mut window, &trade(89, 4), 10).unwrap().unwrap();
    assert_eq!(
        ohlc(&closed),
        (Decimal::from(1), Decimal::from(2), Decimal::from(1), Decimal::from(2))
    );
    assert_eq!(stamps(&window), vec![89]);
}

#[test]
fn cloned_trade_keeps_every_part() {
    let t = Trade::new(
        vec![3, -4, 5],
        -9,
        Some(String::from("abc")),
        77,
        ExactDecimal::new(-12345, 3).unwrap(),
        ExactDecimal::new(1, 28).unwrap(),
    )
    .unwrap();
    let c = t.clone();
    assert_eq!(c.conditions(), &vec![3, -4, 5]);
    assert_eq!(c.exchange(), -9);
    assert_eq!(c.id(), &Some(String::from("abc")));
    assert_eq!(c.participant_timestamp(), 77);
    assert_eq!(c.price(), ExactDecimal::new(-12345, 3).unwrap());
    assert_eq!(c.size(), ExactDecimal::new(1, 28).unwrap());
}

#[test]
fn pending_trades_keep_their_metadata() {
    let t = Trade::new(
        vec![8, 9],
        4,
        Some(String::from("keep")),
        10,
        exact(Decimal::from(6)),
        exact(Decimal::new(25, 1)),
    )
    .unwrap();
    let (_, pending) = aggregate(&vec![t], 5).unwrap();
    assert_eq!(pending.len(), 1);
    assert_eq!(pending[0].conditions(), &vec![8, 9]);
    assert_eq!(pending[0].exchange(), 4);
    assert_eq!(pending[0].id(), &Some(String::from("keep")));
    assert_eq!(decimal(pending[0].size()), Decimal::new(25, 1));
}

#[test]
fn a_trade_needs_a_positive_size() {
    let one = exact(Decimal::from(1));
    assert!(Trade::new(vec![], 0, None, 1, one, ExactDecimal::new(0, 0).unwrap()).is_none());
    assert!(Trade::new(vec![], 0, None, 1, one, ExactDecimal::new(0, 5).unwrap()).is_none());
    assert!(Trade::new(vec![], 0, None, 1, one, ExactDecimal::new(-1, 0).unwrap()).is_none());
    assert!(Trade::new(vec![], 0, None, 1, one, ExactDecimal::new(1, 28).unwrap()).is_some());
}

#[test]
fn trades_page_hands_back_its_parts() {
    let page = Trades::new(
        vec![trade(2, 1), trade(1, 2)],
        String::from("OK"),
        String::from("req-7"),
        Some(String::from("https://next")),
        None,
    );
    assert_eq!(stamps(page.results()), vec![2, 1]);
    assert_eq!(page.status(), "OK");
    assert_eq!(page.request_id(), "req-7");
    assert_eq!(page.next_url, Some(String::from("https://next")));
    assert_eq!(page.previous_url(), &None);
}

#[test]
fn candle_from_prices_checks_the_order() {
    let d = |n: i64| exact(Decimal::from(n));
    let c = Candle::from_prices(d(2), d(3), d(1), d(4)).unwrap();
    assert_eq!(
        ohlc(&c),
        (Decimal::from(2), Decimal::from(4), Decimal::from(1), Decimal::from(3))
    );
    assert!(Candle::from_prices(d(2), d(2), d(2), d(2)).is_some());
    assert!(Candle::from_prices(d(0), d(3), d(1), d(4)).is_none());
    assert!(Candle::from_prices(d(5), d(3), d(1), d(4)).is_none());
    assert!(Candle::from_prices(d(2), d(0), d(1), d(4)).is_none());
    assert!(Candle::from_prices(d(2), d(5), d(1), d(4)).is_none());
    // 1.0 and 1.00 are the same number
    let low = ExactDecimal::new(100, 2).unwrap();
    let open = ExactDecimal::new(10, 1).unwrap();
    assert!(Candle::from_prices(open, d(1), low, d(1)).is_some());
}
