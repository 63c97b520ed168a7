//! What holds of every aggregation: the windows cover the input, every
//! closed window stays within the duration, a candle's extremes are the true
//! extremes of its window, and disorder is always reported.
use crate::crypto_data::{AggregationError, CandleView, TradeView};
use crate::decimal::DecimalView;
use crate::windowing::{
    aggregation, anchor_index, candle_of, candles_of, closed_windows, elapsed, highest_price,
    lemma_anchor_index_bounds, lowest_price, ordering_violated, out_of_order_at, pending_window,
};
use vstd::prelude::*;

verus! {

/// No trade is older than a trade that comes after it.
pub open spec fn newest_first(trades: Seq<TradeView>) -> bool {
    forall|i: int, j: int|
        0 <= i <= j < trades.len() ==> trades[i].participant_timestamp
            >= trades[j].participant_timestamp
}

/// Every trade is strictly newer than the trade that comes after it.
pub open spec fn strictly_newest_first(trades: Seq<TradeView>) -> bool {
    forall|i: int, j: int|
        0 <= i < j < trades.len() ==> trades[i].participant_timestamp
            > trades[j].participant_timestamp
}

/// The highest price of a window is the price of one of its trades, and no
/// trade of the window has a higher one.
pub proof fn lemma_highest_price_is_maximum(window: Seq<TradeView>)
    requires
        window.len() > 0,
    ensures
        forall|k: int|
            0 <= k < window.len() ==> (#[trigger] window[k]).price.units() <= highest_price(
                window,
            ).units(),
        exists|k: int| 0 <= k < window.len() && (#[trigger] window[k]).price == highest_price(window),
    decreases window.len(),
{
    if window.len() > 1 {
        let front = window.drop_last();
        lemma_highest_price_is_maximum(front);
        let k0 = choose|k: int| 0 <= k < front.len() && (#[trigger] front[k]).price == highest_price(front);
        assert(window[k0] == front[k0]);
        assert(window[window.len() - 1] == window.last());
        assert forall|k: int| 0 <= k < window.len() implies (#[trigger] window[k]).price.units()
            <= highest_price(window).units() by {
            if k < window.len() - 1 {
                assert(window[k] == front[k]);
            }
        }
    } else {
        assert(window[0].price == highest_price(window));
    }
}

/// The lowest price of a window is the price of one of its trades, and no
/// trade of the window has a lower one.
pub proof fn lemma_lowest_price_is_minimum(window: Seq<TradeView>)
    requires
        window.len() > 0,
    ensures
        forall|k: int|
            0 <= k < window.len() ==> lowest_price(window).units() <= (#[trigger] window[k]).price.units(),
        exists|k: int| 0 <= k < window.len() && (#[trigger] window[k]).price == lowest_price(window),
    decreases window.len(),
{
    if window.len() > 1 {
        let front = window.drop_last();
        lemma_lowest_price_is_minimum(front);
        let k0 = choose|k: int| 0 <= k < front.len() && (#[trigger] front[k]).price == lowest_price(front);
        assert(window[k0] == front[k0]);
        assert(window[window.len() - 1] == window.last());
        assert forall|k: int| 0 <= k < window.len() implies lowest_price(window).units() <= (
        #[trigger] window[k]).price.units() by {
            if k < window.len() - 1 {
                assert(window[k] == front[k]);
            }
        }
    } else {
        assert(window[0].price == lowest_price(window));
    }
}

/// The candle's low and high are prices of trades of the window, every
/// price of the window lies between them, and so do the open and the close.
pub open spec fn has_true_extremes(candle: CandleView, window: Seq<TradeView>) -> bool {
    &&& candle.ordered()
    &&& forall|k: int|
        0 <= k < window.len() ==> candle.low.units() <= (#[trigger] window[k]).price.units()
            <= candle.high.units()
    &&& exists|k: int| 0 <= k < window.len() && (#[trigger] window[k]).price == candle.high
    &&& exists|k: int| 0 <= k < window.len() && (#[trigger] window[k]).price == candle.low
}

/// Extremes of a candle: the candle of a window has the true extremes of the
/// window.
pub proof fn lemma_candle_extremes(window: Seq<TradeView>)
    requires
        window.len() > 0,
    ensures
        has_true_extremes(candle_of(window), window),
{
    lemma_highest_price_is_maximum(window);
    lemma_lowest_price_is_minimum(window);
    assert(window[0].price == candle_of(window).open);
    assert(window[window.len() - 1].price == candle_of(window).close);
}

/// All trades from an anchor up to a trade it anchors share that anchor.
pub proof fn lemma_anchor_index_stable(
    trades: Seq<TradeView>,
    window_duration: int,
    i: int,
    j: int,
)
    requires
        0 <= i,
        anchor_index(trades, window_duration, i) <= j <= i,
    ensures
        anchor_index(trades, window_duration, j) == anchor_index(trades, window_duration, i),
    decreases i,
{
    if i > 0 && j < i {
        lemma_anchor_index_bounds(trades, window_duration, i - 1);
        lemma_anchor_index_stable(trades, window_duration, i - 1, j);
    }
}

/// No trade lies more than the window duration after its anchor.
pub proof fn lemma_elapsed_within_duration(trades: Seq<TradeView>, window_duration: int, i: int)
    requires
        0 <= i,
        0 <= window_duration,
    ensures
        elapsed(trades, anchor_index(trades, window_duration, i), i) <= window_duration,
{
}

/// A trade anchors a window of its own only when more than the window
/// duration has elapsed since the anchor of the window before it.
pub proof fn lemma_new_anchor_is_beyond_duration(
    trades: Seq<TradeView>,
    window_duration: int,
    i: int,
)
    requires
        0 < i,
        anchor_index(trades, window_duration, i) == i,
    ensures
        elapsed(trades, anchor_index(trades, window_duration, i - 1), i) > window_duration,
{
    lemma_anchor_index_bounds(trades, window_duration, i - 1);
}

/// The window has a trade, and between its first trade and any trade of it
/// no more than `window_duration` has elapsed.
pub open spec fn within_duration(window: Seq<TradeView>, window_duration: int) -> bool {
    &&& window.len() > 0
    &&& forall|k: int| 0 <= k < window.len() ==> #[trigger] elapsed(window, 0, k) <= window_duration
}

/// No trade of the window is newer than its first trade.
pub open spec fn anchored_at_newest(window: Seq<TradeView>) -> bool {
    forall|k: int| 0 <= k < window.len() ==> 0 <= #[trigger] elapsed(window, 0, k)
}

/// The trades from the anchor of trade `i` up to trade `i` stay within the
/// duration, and none of them is newer than the anchor unless the ordering
/// is violated.
proof fn lemma_run_within_duration(trades: Seq<TradeView>, window_duration: int, i: int)
    requires
        0 <= i < trades.len(),
        0 <= window_duration,
    ensures
        within_duration(
            trades.subrange(anchor_index(trades, window_duration, i), i + 1),
            window_duration,
        ),
        !ordering_violated(trades, window_duration) ==> anchored_at_newest(
            trades.subrange(anchor_index(trades, window_duration, i), i + 1),
        ),
{
    let a = anchor_index(trades, window_duration, i);
    lemma_anchor_index_bounds(trades, window_duration, i);
    let w = trades.subrange(a, i + 1);
    assert(w[0] == trades[a]);
    assert forall|k: int| 0 <= k < w.len() implies #[trigger] elapsed(w, 0, k)
        <= window_duration by {
        lemma_anchor_index_stable(trades, window_duration, i, a + k);
        lemma_elapsed_within_duration(trades, window_duration, a + k);
        assert(w[k] == trades[a + k]);
    }
    if !ordering_violated(trades, window_duration) {
        assert forall|k: int| 0 <= k < w.len() implies 0 <= #[trigger] elapsed(w, 0, k) by {
            lemma_anchor_index_stable(trades, window_duration, i, a + k);
            assert(w[k] == trades[a + k]);
            assert(!out_of_order_at(trades, window_duration, a + k));
        }
    }
}

/// Window bound: every closed window has at least one trade, and between its
/// first trade and any trade of it no more than the window duration has
/// elapsed; unless the ordering is violated, no trade of it is newer than
/// its first.
pub proof fn lemma_closed_windows_within_duration(
    trades: Seq<TradeView>,
    window_duration: int,
    n: int,
)
    requires
        0 <= n <= trades.len(),
        0 <= window_duration,
    ensures
        forall|j: int|
            0 <= j < closed_windows(trades, window_duration, n).len() ==> within_duration(
                #[trigger] closed_windows(trades, window_duration, n)[j],
                window_duration,
            ),
        !ordering_violated(trades, window_duration) ==> forall|j: int|
            0 <= j < closed_windows(trades, window_duration, n).len() ==> anchored_at_newest(
                #[trigger] closed_windows(trades, window_duration, n)[j],
            ),
    decreases n,
{
    if n > 1 {
        lemma_closed_windows_within_duration(trades, window_duration, n - 1);
        let earlier = closed_windows(trades, window_duration, n - 1);
        if anchor_index(trades, window_duration, n - 1) == n - 1 {
            lemma_run_within_duration(trades, window_duration, n - 2);
            let all = closed_windows(trades, window_duration, n);
            assert forall|j: int| 0 <= j < all.len() implies within_duration(
                #[trigger] all[j],
                window_duration,
            ) by {
                if j < earlier.len() {
                    assert(all[j] == earlier[j]);
                }
            }
            if !ordering_violated(trades, window_duration) {
                assert forall|j: int| 0 <= j < all.len() implies anchored_at_newest(
                    #[trigger] all[j],
                ) by {
                    if j < earlier.len() {
                        assert(all[j] == earlier[j]);
                    }
                }
            }
        }
    }
}

/// Every candle that an aggregation yields belongs to one closed window, in
/// the same order, and has the true extremes of that window.
pub proof fn lemma_closed_candles_have_true_extremes(trades: Seq<TradeView>, window_duration: int)
    requires
        0 <= window_duration,
    ensures
        candles_of(closed_windows(trades, window_duration, trades.len() as int)).len()
            == closed_windows(trades, window_duration, trades.len() as int).len(),
        forall|j: int|
            0 <= j < closed_windows(trades, window_duration, trades.len() as int).len()
                ==> has_true_extremes(
                #[trigger] candles_of(
                    closed_windows(trades, window_duration, trades.len() as int),
                )[j],
                closed_windows(trades, window_duration, trades.len() as int)[j],
            ),
{
    let windows = closed_windows(trades, window_duration, trades.len() as int);
    lemma_closed_windows_within_duration(trades, window_duration, trades.len() as int);
    assert forall|j: int| 0 <= j < windows.len() implies has_true_extremes(
        #[trigger] candles_of(windows)[j],
        windows[j],
    ) by {
        assert(within_duration(windows[j], window_duration));
        lemma_candle_extremes(windows[j]);
    }
}

/// The pending window obeys the same bound as the closed ones.
pub proof fn lemma_pending_window_within_duration(trades: Seq<TradeView>, window_duration: int)
    requires
        0 < trades.len(),
        0 <= window_duration,
    ensures
        within_duration(pending_window(trades, window_duration), window_duration),
        !ordering_violated(trades, window_duration) ==> anchored_at_newest(
            pending_window(trades, window_duration),
        ),
{
    lemma_run_within_duration(trades, window_duration, trades.len() - 1);
}

/// The windows closed by the first `n` trades, one after the other, followed
/// by the trades from the running anchor on, are the first `n` trades.
proof fn lemma_prefix_covered(trades: Seq<TradeView>, window_duration: int, n: int)
    requires
        1 <= n <= trades.len(),
    ensures
        closed_windows(trades, window_duration, n).flatten_alt() + trades.subrange(
            anchor_index(trades, window_duration, n - 1),
            n,
        ) =~= trades.subrange(0, n),
    decreases n,
{
    if n > 1 {
        lemma_prefix_covered(trades, window_duration, n - 1);
        lemma_anchor_index_bounds(trades, window_duration, n - 2);
        let earlier = closed_windows(trades, window_duration, n - 1);
        let a = anchor_index(trades, window_duration, n - 2);
        if anchor_index(trades, window_duration, n - 1) == n - 1 {
            let all = earlier.push(trades.subrange(a, n - 1));
            assert(all.drop_last() =~= earlier);
            assert(all.last() == trades.subrange(a, n - 1));
            assert(all.flatten_alt() =~= earlier.flatten_alt() + trades.subrange(a, n - 1));
        }
    } else {
        assert(closed_windows(trades, window_duration, 1).flatten_alt() =~= Seq::<TradeView>::empty());
    }
}

/// Coverage: the closed windows in order, followed by the pending window,
/// are exactly the input. No trade is lost and none occurs twice.
pub proof fn lemma_windows_cover_input(trades: Seq<TradeView>, window_duration: int)
    ensures
        closed_windows(trades, window_duration, trades.len() as int).flatten() + pending_window(
            trades,
            window_duration,
        ) == trades,
{
    let windows = closed_windows(trades, window_duration, trades.len() as int);
    windows.lemma_flatten_and_flatten_alt_are_equivalent();
    if trades.len() > 0 {
        lemma_prefix_covered(trades, window_duration, trades.len() as int);
        assert(trades.subrange(0, trades.len() as int) =~= trades);
    } else {
        assert(windows.flatten_alt() =~= Seq::<TradeView>::empty());
    }
    assert(windows.flatten() + pending_window(trades, window_duration) =~= trades);
}

/// Trades given newest first never violate the ordering, so their
/// aggregation succeeds.
pub proof fn lemma_newest_first_is_accepted(trades: Seq<TradeView>, window_duration: int)
    requires
        newest_first(trades),
    ensures
        !ordering_violated(trades, window_duration),
        aggregation(trades, window_duration) is Ok,
{
    assert forall|i: int| 0 <= i < trades.len() implies !#[trigger] out_of_order_at(
        trades,
        window_duration,
        i,
    ) by {
        lemma_anchor_index_bounds(trades, window_duration, i);
    }
}

/// Ordering enforcement: a trade that is newer than the anchor of the window
/// running when it arrives makes the whole aggregation fail with the
/// ordering error.
pub proof fn lemma_newer_than_anchor_is_rejected(
    trades: Seq<TradeView>,
    window_duration: int,
    i: int,
)
    requires
        0 < i < trades.len(),
        0 <= window_duration,
        trades[i].participant_timestamp > trades[anchor_index(
            trades,
            window_duration,
            i - 1,
        )].participant_timestamp,
    ensures
        ordering_violated(trades, window_duration),
        aggregation(trades, window_duration) == Err::<
            (Seq<CandleView>, Seq<TradeView>),
            AggregationError,
        >(AggregationError::OrderingViolation),
{
    assert(out_of_order_at(trades, window_duration, i));
}

/// A trade that is newer than every trade before it is newer than any
/// anchor, and so makes the aggregation fail with the ordering error.
pub proof fn lemma_newer_than_all_before_is_rejected(
    trades: Seq<TradeView>,
    window_duration: int,
    i: int,
)
    requires
        0 < i < trades.len(),
        0 <= window_duration,
        forall|j: int|
            0 <= j < i ==> trades[i].participant_timestamp > (
            #[trigger] trades[j]).participant_timestamp,
    ensures
        aggregation(trades, window_duration) == Err::<
            (Seq<CandleView>, Seq<TradeView>),
            AggregationError,
        >(AggregationError::OrderingViolation),
{
    lemma_anchor_index_bounds(trades, window_duration, i - 1);
    let a = anchor_index(trades, window_duration, i - 1);
    assert(trades[i].participant_timestamp > trades[a].participant_timestamp);
    lemma_newer_than_anchor_is_rejected(trades, window_duration, i);
}

/// Replay: two aggregations of the same trades with the same duration agree
/// in their candles and in their pending trades; on trades given newest
/// first both succeed.
pub proof fn lemma_replay_agrees(
    trades: Seq<TradeView>,
    window_duration: int,
    first: Result<(Seq<CandleView>, Seq<TradeView>), AggregationError>,
    second: Result<(Seq<CandleView>, Seq<TradeView>), AggregationError>,
)
    requires
        first == aggregation(trades, window_duration),
        second == aggregation(trades, window_duration),
    ensures
        first == second,
        newest_first(trades) ==> first is Ok && second is Ok,
{
    if newest_first(trades) {
        lemma_newest_first_is_accepted(trades, window_duration);
    }
}

/// The candle whose open, close, low and high are all `price`.
pub open spec fn flat_candle(price: DecimalView) -> CandleView {
    CandleView { open: price, close: price, low: price, high: price }
}

/// The candle of a window of one trade is flat at that trade's price.
pub proof fn lemma_single_trade_candle(trade: TradeView)
    ensures
        candle_of(seq![trade]) == flat_candle(trade.price),
{
    assert(seq![trade][0] == trade);
    assert(seq![trade].last() == trade);
}

/// With a duration of zero and strictly descending timestamps every trade
/// anchors its own window, so each of the first `n` trades but the last has
/// closed a window of its own.
proof fn lemma_zero_duration_prefix(trades: Seq<TradeView>, n: int)
    requires
        strictly_newest_first(trades),
        1 <= n <= trades.len(),
    ensures
        anchor_index(trades, 0, n - 1) == n - 1,
        closed_windows(trades, 0, n) =~= Seq::new((n - 1) as nat, |i: int| seq![trades[i]]),
    decreases n,
{
    if n > 1 {
        lemma_zero_duration_prefix(trades, n - 1);
        assert(elapsed(trades, n - 2, n - 1) > 0);
        assert(trades.subrange(n - 2, n - 1) =~= seq![trades[n - 2]]);
    }
}

/// Zero duration: on trades with strictly descending timestamps, a window
/// duration of zero gives every trade but the last a flat candle of its own,
/// in input order, and leaves the last trade pending; closing the pending
/// window gives the last trade its flat candle too.
pub proof fn lemma_zero_duration_one_candle_per_trade(trades: Seq<TradeView>)
    requires
        strictly_newest_first(trades),
        trades.len() > 0,
    ensures
        aggregation(trades, 0) == Ok::<(Seq<CandleView>, Seq<TradeView>), AggregationError>(
            (
                Seq::new((trades.len() - 1) as nat, |i: int| flat_candle(trades[i].price)),
                seq![trades.last()],
            ),
        ),
        candle_of(pending_window(trades, 0)) == flat_candle(trades.last().price),
{
    let n = trades.len() as int;
    lemma_zero_duration_prefix(trades, n);
    assert(newest_first(trades)) by {
        assert forall|i: int, j: int| 0 <= i <= j < trades.len() implies trades[i].participant_timestamp
            >= trades[j].participant_timestamp by {
            if i < j {
            }
        }
    }
    lemma_newest_first_is_accepted(trades, 0);
    let windows = closed_windows(trades, 0, n);
    assert(candles_of(windows) =~= Seq::new((n - 1) as nat, |i: int| flat_candle(trades[i].price)))
        by {
        assert forall|i: int| 0 <= i < n - 1 implies candles_of(windows)[i] == flat_candle(
            trades[i].price,
        ) by {
            lemma_single_trade_candle(trades[i]);
        }
    }
    assert(pending_window(trades, 0) =~= seq![trades.last()]);
    lemma_single_trade_candle(trades.last());
}

/// Anchors depend only on the trades up to the one anchored: two sequences
/// that agree on their first `n` trades agree on the anchors of those.
proof fn lemma_anchor_index_of_prefix(
    trades: Seq<TradeView>,
    longer: Seq<TradeView>,
    window_duration: int,
    n: int,
    i: int,
)
    requires
        0 <= i < n <= trades.len(),
        n <= longer.len(),
        forall|k: int| 0 <= k < n ==> trades[k] == longer[k],
    ensures
        anchor_index(trades, window_duration, i) == anchor_index(longer, window_duration, i),
    decreases i,
{
    if i > 0 {
        lemma_anchor_index_of_prefix(trades, longer, window_duration, n, i - 1);
        lemma_anchor_index_bounds(trades, window_duration, i - 1);
    }
}

/// Closed windows depend only on the trades that closed them.
proof fn lemma_closed_windows_of_prefix(
    trades: Seq<TradeView>,
    longer: Seq<TradeView>,
    window_duration: int,
    n: int,
    m: int,
)
    requires
        0 <= m <= n <= trades.len(),
        n <= longer.len(),
        forall|k: int| 0 <= k < n ==> trades[k] == longer[k],
    ensures
        closed_windows(trades, window_duration, m) == closed_windows(longer, window_duration, m),
    decreases m,
{
    if m > 1 {
        lemma_closed_windows_of_prefix(trades, longer, window_duration, n, m - 1);
        lemma_anchor_index_of_prefix(trades, longer, window_duration, n, m - 1);
        lemma_anchor_index_of_prefix(trades, longer, window_duration, n, m - 2);
        lemma_anchor_index_bounds(trades, window_duration, m - 2);
        let a = anchor_index(trades, window_duration, m - 2);
        assert(trades.subrange(a, m - 1) =~= longer.subrange(a, m - 1));
    }
}

/// From an anchor on, anchors are those of the trades that start at it,
/// moved by its index.
proof fn lemma_anchor_index_from_anchor(
    trades: Seq<TradeView>,
    window_duration: int,
    a: int,
    i: int,
)
    requires
        0 <= a <= i < trades.len(),
        anchor_index(trades, window_duration, a) == a,
    ensures
        anchor_index(trades, window_duration, i) == a + anchor_index(
            trades.subrange(a, trades.len() as int),
            window_duration,
            i - a,
        ),
    decreases i,
{
    if i > a {
        let rest = trades.subrange(a, trades.len() as int);
        lemma_anchor_index_from_anchor(trades, window_duration, a, i - 1);
        lemma_anchor_index_bounds(rest, window_duration, i - 1 - a);
        let b = anchor_index(rest, window_duration, i - 1 - a);
        assert(rest[b] == trades[a + b]);
        assert(rest[i - a] == trades[i]);
    }
}

/// From an anchor on, the windows closed are those that the trades before
/// the anchor closed, followed by those that the trades from the anchor on
/// close by themselves.
proof fn lemma_closed_windows_from_anchor(
    trades: Seq<TradeView>,
    window_duration: int,
    a: int,
    n: int,
)
    requires
        0 <= a < n <= trades.len(),
        anchor_index(trades, window_duration, a) == a,
    ensures
        closed_windows(trades, window_duration, n) == closed_windows(
            trades,
            window_duration,
            a + 1,
        ) + closed_windows(trades.subrange(a, trades.len() as int), window_duration, n - a),
    decreases n,
{
    let rest = trades.subrange(a, trades.len() as int);
    let before = closed_windows(trades, window_duration, a + 1);
    if n > a + 1 {
        lemma_closed_windows_from_anchor(trades, window_duration, a, n - 1);
        lemma_anchor_index_from_anchor(trades, window_duration, a, n - 1);
        lemma_anchor_index_from_anchor(trades, window_duration, a, n - 2);
        lemma_anchor_index_bounds(rest, window_duration, n - 2 - a);
        let b = anchor_index(rest, window_duration, n - 2 - a);
        assert(rest.subrange(b, n - 1 - a) =~= trades.subrange(a + b, n - 1));
        let earlier = closed_windows(rest, window_duration, n - 1 - a);
        if anchor_index(trades, window_duration, n - 1) == n - 1 {
            let w = trades.subrange(a + b, n - 1);
            assert(before + earlier.push(w) =~= (before + earlier).push(w));
        }
    } else {
        assert(before + closed_windows(rest, window_duration, 1) =~= before);
    }
}

/// The candles of two runs of windows, one after the other, are the candles
/// of the run that joins them.
proof fn lemma_candles_of_joined(first: Seq<Seq<TradeView>>, second: Seq<Seq<TradeView>>)
    ensures
        candles_of(first + second) == candles_of(first) + candles_of(second),
{
    assert(candles_of(first + second) =~= candles_of(first) + candles_of(second));
}

/// Continuation: when a page of trades has been aggregated without error,
/// putting its pending trades in front of the next page and aggregating that
/// gives what aggregating both pages as one would have given: the same
/// error, or the candles that continue those of the first page and the same
/// pending trades. No window is cut at the seam.
pub proof fn lemma_pending_continues_on_next_page(
    page: Seq<TradeView>,
    next: Seq<TradeView>,
    window_duration: int,
)
    requires
        !ordering_violated(page, window_duration),
    ensures
        aggregation(page + next, window_duration) == match aggregation(
            pending_window(page, window_duration) + next,
            window_duration,
        ) {
            Ok(rest) => Ok(
                (
                    candles_of(closed_windows(page, window_duration, page.len() as int)) + rest.0,
                    rest.1,
                ),
            ),
            Err(e) => Err(e),
        },
{
    let d = window_duration;
    let whole = page + next;
    let n1 = page.len() as int;
    let n = whole.len() as int;
    let carried = pending_window(page, d) + next;
    if n1 == 0 {
        assert(whole =~= next);
        assert(carried =~= next);
        assert(candles_of(closed_windows(page, d, 0)) =~= Seq::<CandleView>::empty());
        if aggregation(next, d) is Ok {
            let rest = aggregation(next, d)->Ok_0;
            assert(Seq::<CandleView>::empty() + rest.0 =~= rest.0);
        }
    } else {
        let a = anchor_index(page, d, n1 - 1);
        lemma_anchor_index_bounds(page, d, n1 - 1);
        lemma_anchor_index_stable(page, d, n1 - 1, a);
        assert forall|k: int| 0 <= k < n1 implies page[k] == whole[k] by {}
        lemma_anchor_index_of_prefix(page, whole, d, n1, a);
        assert(carried =~= whole.subrange(a, n));

        // the windows
        lemma_closed_windows_from_anchor(whole, d, a, n);
        lemma_closed_windows_from_anchor(page, d, a, n1);
        lemma_closed_windows_of_prefix(page, whole, d, n1, a + 1);
        assert(closed_windows(page.subrange(a, n1), d, n1 - a) =~= Seq::<Seq<TradeView>>::empty())
            by {
            lemma_no_window_closes_in_pending(page, d, n1 - a);
        }
        assert(closed_windows(page, d, n1) =~= closed_windows(page, d, a + 1));
        lemma_candles_of_joined(closed_windows(page, d, n1), closed_windows(carried, d, n - a));

        // the pending trades
        lemma_anchor_index_from_anchor(whole, d, a, n - 1);
        lemma_anchor_index_bounds(carried, d, n - 1 - a);
        assert(pending_window(whole, d) =~= pending_window(carried, d));

        // the ordering
        if ordering_violated(whole, d) {
            let i = choose|i: int| 0 <= i < whole.len() && #[trigger] out_of_order_at(whole, d, i);
            if i < n1 {
                lemma_anchor_index_of_prefix(page, whole, d, n1, i);
                lemma_anchor_index_bounds(page, d, i);
                assert(page[i] == whole[i]);
                assert(page[anchor_index(page, d, i)] == whole[anchor_index(page, d, i)]);
                assert(out_of_order_at(page, d, i));
            }
            lemma_anchor_index_from_anchor(whole, d, a, i);
            lemma_anchor_index_bounds(carried, d, i - a);
            assert(carried[i - a] == whole[i]);
            assert(carried[anchor_index(carried, d, i - a)] == whole[a + anchor_index(
                carried,
                d,
                i - a,
            )]);
            assert(out_of_order_at(carried, d, i - a));
        }
        if ordering_violated(carried, d) {
            let j = choose|j: int| 0 <= j < carried.len() && #[trigger] out_of_order_at(carried, d, j);
            lemma_anchor_index_from_anchor(whole, d, a, a + j);
            lemma_anchor_index_bounds(carried, d, j);
            assert(carried[j] == whole[a + j]);
            assert(carried[anchor_index(carried, d, j)] == whole[a + anchor_index(carried, d, j)]);
            assert(out_of_order_at(whole, d, a + j));
        }
    }
}

/// The trades of a pending window close no window among themselves.
proof fn lemma_no_window_closes_in_pending(trades: Seq<TradeView>, window_duration: int, m: int)
    requires
        0 < trades.len(),
        0 <= m <= trades.len() - anchor_index(trades, window_duration, trades.len() - 1),
    ensures
        closed_windows(
            trades.subrange(
                anchor_index(trades, window_duration, trades.len() - 1),
                trades.len() as int,
            ),
            window_duration,
            m,
        ) == Seq::<Seq<TradeView>>::empty(),
    decreases m,
{
    let n = trades.len() as int;
    let a = anchor_index(trades, window_duration, n - 1);
    lemma_anchor_index_bounds(trades, window_duration, n - 1);
    if m > 1 {
        lemma_no_window_closes_in_pending(trades, window_duration, m - 1);
        lemma_anchor_index_stable(trades, window_duration, n - 1, a);
        lemma_anchor_index_stable(trades, window_duration, n - 1, a + m - 1);
        lemma_anchor_index_from_anchor(trades, window_duration, a, a + m - 1);
    }
}

/// The trades as one window: nothing closed, everything pending, and the
/// ordering violated exactly when some trade is newer than the first.
pub open spec fn one_window(trades: Seq<TradeView>) -> Result<
    (Seq<CandleView>, Seq<TradeView>),
    AggregationError,
> {
    if exists|i: int| 0 <= i < trades.len() && #[trigger] elapsed(trades, 0, i) < 0 {
        Err(AggregationError::OrderingViolation)
    } else {
        Ok((Seq::empty(), trades))
    }
}

/// The first trade anchors every trade when the duration is no shorter than
/// the range of the timestamps.
proof fn lemma_long_duration_anchor(trades: Seq<TradeView>, window_duration: int, i: int)
    requires
        u64::MAX <= window_duration,
        0 <= i,
    ensures
        anchor_index(trades, window_duration, i) == 0,
        closed_windows(trades, window_duration, i) == Seq::<Seq<TradeView>>::empty(),
    decreases i,
{
    if i > 0 {
        lemma_long_duration_anchor(trades, window_duration, i - 1);
    }
}

/// A duration that no two timestamps can be apart never closes a window:
/// all trades stay pending in one window.
pub proof fn lemma_long_duration_is_one_window(trades: Seq<TradeView>, window_duration: int)
    requires
        u64::MAX <= window_duration,
    ensures
        aggregation(trades, window_duration) == one_window(trades),
{
    let n = trades.len() as int;
    lemma_long_duration_anchor(trades, window_duration, n);
    if n > 0 {
        lemma_long_duration_anchor(trades, window_duration, n - 1);
        assert(pending_window(trades, window_duration) =~= trades);
    } else {
        assert(pending_window(trades, window_duration) =~= trades);
    }
    assert(candles_of(Seq::<Seq<TradeView>>::empty()) =~= Seq::<CandleView>::empty());
    if ordering_violated(trades, window_duration) {
        let i = choose|i: int| 0 <= i < trades.len() && #[trigger] out_of_order_at(trades, window_duration, i);
        lemma_long_duration_anchor(trades, window_duration, i);
        assert(elapsed(trades, 0, i) < 0);
    }
    if exists|i: int| 0 <= i < trades.len() && #[trigger] elapsed(trades, 0, i) < 0 {
        let i = choose|i: int| 0 <= i < trades.len() && #[trigger] elapsed(trades, 0, i) < 0;
        lemma_long_duration_anchor(trades, window_duration, i);
        assert(out_of_order_at(trades, window_duration, i));
    }
}

} // verus!
