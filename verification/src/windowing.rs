//! The mathematical model of windowing: which trades form a window, which
//! windows are closed, and the candle that summarises a window.
use crate::crypto_data::{AggregationError, CandleView, TradeView};
use crate::decimal::DecimalView;
use vstd::prelude::*;

verus! {

/// The price of the first trade in `window` whose price no other trade of the
/// window exceeds.
pub open spec fn highest_price(window: Seq<TradeView>) -> DecimalView
    recommends
        window.len() > 0,
    decreases window.len(),
{
    if window.len() <= 1 {
        window[0].price
    } else {
        let best = highest_price(window.drop_last());
        if best.units() < window.last().price.units() {
            window.last().price
        } else {
            best
        }
    }
}

/// The price of the first trade in `window` whose price no other trade of the
/// window undercuts.
pub open spec fn lowest_price(window: Seq<TradeView>) -> DecimalView
    recommends
        window.len() > 0,
    decreases window.len(),
{
    if window.len() <= 1 {
        window[0].price
    } else {
        let best = lowest_price(window.drop_last());
        if window.last().price.units() < best.units() {
            window.last().price
        } else {
            best
        }
    }
}

/// The candle of a non-empty window: first price, last price, and the two
/// extremes.
pub open spec fn candle_of(window: Seq<TradeView>) -> CandleView
    recommends
        window.len() > 0,
{
    CandleView {
        open: window[0].price,
        close: window.last().price,
        low: lowest_price(window),
        high: highest_price(window),
    }
}

/// The candles of a sequence of windows, in order.
pub open spec fn candles_of(windows: Seq<Seq<TradeView>>) -> Seq<CandleView> {
    Seq::new(windows.len(), |j: int| candle_of(windows[j]))
}

/// Time from trade `to` back to trade `from`; negative when `to` is the newer.
pub open spec fn elapsed(trades: Seq<TradeView>, from: int, to: int) -> int {
    trades[from].participant_timestamp - trades[to].participant_timestamp
}

/// The index of the trade that anchors the window to which trade `i`
/// belongs. Trade 0 anchors the first window; a later trade joins the window
/// of its predecessor unless more than `window_duration` has elapsed since
/// that window's anchor, in which case it anchors a window of its own.
pub open spec fn anchor_index(trades: Seq<TradeView>, window_duration: int, i: int) -> int
    decreases i,
{
    if i <= 0 {
        0
    } else {
        let a = anchor_index(trades, window_duration, i - 1);
        if elapsed(trades, a, i) > window_duration {
            i
        } else {
            a
        }
    }
}

/// Trade `i` is newer than the anchor of its window.
pub open spec fn out_of_order_at(trades: Seq<TradeView>, window_duration: int, i: int) -> bool {
    elapsed(trades, anchor_index(trades, window_duration, i), i) < 0
}

/// Some trade is newer than the anchor of its window.
pub open spec fn ordering_violated(trades: Seq<TradeView>, window_duration: int) -> bool {
    exists|i: int| 0 <= i < trades.len() && #[trigger] out_of_order_at(trades, window_duration, i)
}

/// The windows that the first `n` trades have closed, oldest window first. A
/// window closes when the trade after it anchors a new one.
pub open spec fn closed_windows(trades: Seq<TradeView>, window_duration: int, n: int) -> Seq<
    Seq<TradeView>,
>
    decreases n,
{
    if n <= 1 {
        Seq::empty()
    } else {
        let earlier = closed_windows(trades, window_duration, n - 1);
        if anchor_index(trades, window_duration, n - 1) == n - 1 {
            earlier.push(trades.subrange(anchor_index(trades, window_duration, n - 2), n - 1))
        } else {
            earlier
        }
    }
}

/// The window that is still open once all trades are consumed: the trades
/// from the last anchor on. Empty only when there are no trades.
pub open spec fn pending_window(trades: Seq<TradeView>, window_duration: int) -> Seq<TradeView> {
    if trades.len() == 0 {
        Seq::empty()
    } else {
        trades.subrange(
            anchor_index(trades, window_duration, trades.len() - 1),
            trades.len() as int,
        )
    }
}

/// Offering `trade` to `window` is refused: the window has an anchor and the
/// trade is newer than it.
pub open spec fn step_rejects(window: Seq<TradeView>, trade: TradeView) -> bool {
    window.len() > 0 && trade.participant_timestamp > window[0].participant_timestamp
}

/// Offering `trade` to `window` closes the window: more than
/// `window_duration` has elapsed between the window's anchor and the trade.
pub open spec fn step_closes(window: Seq<TradeView>, trade: TradeView, window_duration: int) -> bool {
    window.len() > 0 && window[0].participant_timestamp - trade.participant_timestamp
        > window_duration
}

/// What aggregating `trades` yields: the candles of the closed windows and
/// the pending window, or the ordering error when some trade is newer than
/// the anchor of its window.
pub open spec fn aggregation(trades: Seq<TradeView>, window_duration: int) -> Result<
    (Seq<CandleView>, Seq<TradeView>),
    AggregationError,
> {
    if ordering_violated(trades, window_duration) {
        Err(AggregationError::OrderingViolation)
    } else {
        Ok(
            (
                candles_of(closed_windows(trades, window_duration, trades.len() as int)),
                pending_window(trades, window_duration),
            ),
        )
    }
}

/// An anchor never lies after the trade it anchors.
pub proof fn lemma_anchor_index_bounds(trades: Seq<TradeView>, window_duration: int, i: int)
    requires
        0 <= i,
    ensures
        0 <= anchor_index(trades, window_duration, i) <= i,
    decreases i,
{
    if i > 0 {
        lemma_anchor_index_bounds(trades, window_duration, i - 1);
    }
}

} // verus!
