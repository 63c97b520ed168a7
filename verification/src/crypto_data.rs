//! Trade records, candles, and the aggregation of trades into candles.
use crate::decimal::{DecimalView, ExactDecimal};
use crate::window_laws::{
    has_true_extremes, lemma_candle_extremes, lemma_long_duration_is_one_window,
};
use crate::windowing::{
    aggregation, anchor_index, candle_of, candles_of, closed_windows, highest_price,
    lemma_anchor_index_bounds, lowest_price, ordering_violated, out_of_order_at, step_closes, step_rejects,
};
use vstd::prelude::*;

verus! {

/// Why an aggregation step or a candle derivation failed.
#[derive(Clone, Copy, Debug, PartialEq, Eq, Structural)]
pub enum AggregationError {
    /// A trade is newer than the anchor of the window it was offered to.
    OrderingViolation,
    /// A candle was asked of a window without trades.
    EmptyWindow,
}

/// What a [`Candle`] holds, as mathematical values.
pub ghost struct CandleView {
    pub open: DecimalView,
    pub close: DecimalView,
    pub low: DecimalView,
    pub high: DecimalView,
}

/// The open, close, low and high price of one window of trades.
#[derive(Clone, Copy, Debug, PartialEq, Eq, Structural)]
pub struct Candle {
    open: ExactDecimal,
    close: ExactDecimal,
    low: ExactDecimal,
    high: ExactDecimal,
}

impl View for Candle {
    type V = CandleView;

    closed spec fn view(&self) -> CandleView {
        CandleView { open: self.open@, close: self.close@, low: self.low@, high: self.high@ }
    }
}

impl CandleView {
    /// The open and the close lie between the low and the high.
    pub open spec fn ordered(self) -> bool {
        &&& self.low.units() <= self.open.units() <= self.high.units()
        &&& self.low.units() <= self.close.units() <= self.high.units()
    }
}

impl Candle {
    /// In every candle the open and the close lie between the low and the
    /// high.
    #[verifier::type_invariant]
    pub closed spec fn wf(self) -> bool {
        self@.ordered()
    }

    /// The candle of the four prices, or `None` when the open or the close
    /// does not lie between the low and the high.
    pub fn from_prices(
        open: ExactDecimal,
        close: ExactDecimal,
        low: ExactDecimal,
        high: ExactDecimal,
    ) -> (r: Option<Candle>)
        ensures
            r.is_some() == (CandleView { open: open@, close: close@, low: low@, high: high@ }).ordered(),
            r.is_some() ==> r.unwrap()@ == (CandleView {
                open: open@,
                close: close@,
                low: low@,
                high: high@,
            }),
    {
        if open.less_than(&low) || high.less_than(&open) || close.less_than(&low) || high.less_than(
            &close,
        ) {
            None
        } else {
            Some(Candle { open, close, low, high })
        }
    }

    /// Two candles with the same view are the same candle.
    pub proof fn lemma_view_is_injective(self, other: Candle)
        requires
            self@ == other@,
        ensures
            self == other,
    {
        self.open.lemma_view_is_injective(other.open);
        self.close.lemma_view_is_injective(other.close);
        self.low.lemma_view_is_injective(other.low);
        self.high.lemma_view_is_injective(other.high);
    }

    /// The price of the first trade of the window.
    pub fn open(&self) -> (r: ExactDecimal)
        ensures
            r@ == self@.open,
    {
        self.open
    }

    /// The price of the last trade of the window.
    pub fn close(&self) -> (r: ExactDecimal)
        ensures
            r@ == self@.close,
    {
        self.close
    }

    /// The lowest price of the window, which neither the open nor the close
    /// undercuts.
    pub fn low(&self) -> (r: ExactDecimal)
        ensures
            r@ == self@.low,
            self@.ordered(),
    {
        proof {
            use_type_invariant(self);
        }
        self.low
    }

    /// The highest price of the window, which neither the open nor the close
    /// exceeds.
    pub fn high(&self) -> (r: ExactDecimal)
        ensures
            r@ == self@.high,
            self@.ordered(),
    {
        proof {
            use_type_invariant(self);
        }
        self.high
    }
}

/// What a [`Trade`] holds, as mathematical values.
pub ghost struct TradeView {
    pub conditions: Seq<i64>,
    pub exchange: i64,
    pub id: Option<Seq<char>>,
    pub participant_timestamp: u64,
    pub price: DecimalView,
    pub size: DecimalView,
}

/// One executed trade.
///
/// The timestamp counts nanoseconds since an epoch and serves only as an
/// ordering key. `conditions`, `exchange` and `id` are carried through
/// untouched. The size of a trade is always positive.
#[derive(Debug)]
pub struct Trade {
    conditions: Vec<i64>,
    exchange: i64,
    id: Option<String>,
    participant_timestamp: u64,
    price: ExactDecimal,
    size: ExactDecimal,
}

/// The view of an optional string.
pub open spec fn text_view(s: Option<String>) -> Option<Seq<char>> {
    match s {
        Some(t) => Some(t@),
        None => None,
    }
}

impl View for Trade {
    type V = TradeView;

    closed spec fn view(&self) -> TradeView {
        TradeView {
            conditions: self.conditions@,
            exchange: self.exchange,
            id: text_view(self.id),
            participant_timestamp: self.participant_timestamp,
            price: self.price@,
            size: self.size@,
        }
    }
}

impl Trade {
    /// A trade has a positive size.
    #[verifier::type_invariant]
    pub closed spec fn wf(self) -> bool {
        self.size@.mantissa > 0
    }

    /// A trade record of the given parts, or `None` when `size` is zero or
    /// negative.
    pub fn new(
        conditions: Vec<i64>,
        exchange: i64,
        id: Option<String>,
        participant_timestamp: u64,
        price: ExactDecimal,
        size: ExactDecimal,
    ) -> (r: Option<Trade>)
        ensures
            r.is_some() == (size@.mantissa > 0),
            r.is_some() ==> r.unwrap()@ == (TradeView {
                conditions: conditions@,
                exchange,
                id: text_view(id),
                participant_timestamp,
                price: price@,
                size: size@,
            }),
    {
        if size.mantissa() > 0 {
            Some(Trade { conditions, exchange, id, participant_timestamp, price, size })
        } else {
            None
        }
    }
}

impl Trade {
    /// The condition codes of the trade.
    pub fn conditions(&self) -> (r: &Vec<i64>)
        ensures
            r@ == self@.conditions,
    {
        &self.conditions
    }

    /// The exchange on which the trade took place.
    pub fn exchange(&self) -> (r: i64)
        ensures
            r == self@.exchange,
    {
        self.exchange
    }

    /// The identifier of the trade, where it has one.
    pub fn id(&self) -> (r: &Option<String>)
        ensures
            text_view(*r) == self@.id,
    {
        &self.id
    }

    /// The time of the trade in nanoseconds since the epoch.
    pub fn participant_timestamp(&self) -> (r: u64)
        ensures
            r == self@.participant_timestamp,
    {
        self.participant_timestamp
    }

    /// The price at which the trade took place.
    pub fn price(&self) -> (r: ExactDecimal)
        ensures
            r@ == self@.price,
    {
        self.price
    }

    /// The traded volume, which is positive.
    pub fn size(&self) -> (r: ExactDecimal)
        ensures
            r@ == self@.size,
            r@.mantissa > 0,
    {
        proof {
            use_type_invariant(self);
        }
        self.size
    }
}

impl Clone for Trade {
    fn clone(&self) -> (r: Trade)
        ensures
            r@ == self@,
    {
        proof {
            use_type_invariant(self);
        }
        let conditions = self.conditions.clone();
        let id = self.id.clone();
        assert(conditions@ =~= self.conditions@);
        Trade {
            conditions,
            exchange: self.exchange,
            id,
            participant_timestamp: self.participant_timestamp,
            price: self.price,
            size: self.size,
        }
    }
}

/// What a [`Trades`] page holds, as mathematical values.
pub ghost struct TradesView {
    pub results: Seq<TradeView>,
    pub status: Seq<char>,
    pub request_id: Seq<char>,
    pub next_url: Option<Seq<char>>,
    pub previous_url: Option<Seq<char>>,
}

/// One page of trades as the service answers it, newest trade first, with
/// the links to the pages next to it.
#[derive(Debug)]
pub struct Trades {
    results: Vec<Trade>,
    status: String,
    request_id: String,
    pub next_url: Option<String>,
    previous_url: Option<String>,
}

impl View for Trades {
    type V = TradesView;

    closed spec fn view(&self) -> TradesView {
        TradesView {
            results: trade_views(self.results@),
            status: self.status@,
            request_id: self.request_id@,
            next_url: text_view(self.next_url),
            previous_url: text_view(self.previous_url),
        }
    }
}

impl Trades {
    /// A page of the given parts.
    pub fn new(
        results: Vec<Trade>,
        status: String,
        request_id: String,
        next_url: Option<String>,
        previous_url: Option<String>,
    ) -> (r: Trades)
        ensures
            r@ == (TradesView {
                results: trade_views(results@),
                status: status@,
                request_id: request_id@,
                next_url: text_view(next_url),
                previous_url: text_view(previous_url),
            }),
    {
        Trades { results, status, request_id, next_url, previous_url }
    }

    /// The trades of the page.
    pub fn results(&self) -> (r: &Vec<Trade>)
        ensures
            trade_views(r@) == self@.results,
    {
        &self.results
    }

    /// The status that the service reported.
    pub fn status(&self) -> (r: &String)
        ensures
            r@ == self@.status,
    {
        &self.status
    }

    /// The identifier of the request that this page answers.
    pub fn request_id(&self) -> (r: &String)
        ensures
            r@ == self@.request_id,
    {
        &self.request_id
    }

    /// The link to the page before this one, where there is one.
    pub fn previous_url(&self) -> (r: &Option<String>)
        ensures
            text_view(*r) == self@.previous_url,
    {
        &self.previous_url
    }
}

/// The views of a sequence of trades, in order.
pub open spec fn trade_views(trades: Seq<Trade>) -> Seq<TradeView> {
    Seq::new(trades.len(), |i: int| trades[i]@)
}

/// The views of a sequence of candles, in order.
pub open spec fn candle_views(candles: Seq<Candle>) -> Seq<CandleView> {
    Seq::new(candles.len(), |i: int| candles[i]@)
}

/// Derives the candle of one window: the first and last price in input
/// order, and the lowest and highest price of the window.
///
/// Fails with [`AggregationError::EmptyWindow`] exactly when `trades` is
/// empty.
pub fn create_candle_from_trades(trades: &Vec<Trade>) -> (r: Result<Candle, AggregationError>)
    ensures
        trades@.len() == 0 ==> r == Err::<Candle, AggregationError>(AggregationError::EmptyWindow),
        trades@.len() > 0 ==> r is Ok && (r->Ok_0)@ == candle_of(trade_views(trades@)),
        r is Ok ==> has_true_extremes((r->Ok_0)@, trade_views(trades@)),
{
    let n: usize = trades.len();
    if n == 0 {
        return Err(AggregationError::EmptyWindow);
    }
    let ghost views = trade_views(trades@);
    let mut high: ExactDecimal = trades[0].price;
    let mut low: ExactDecimal = trades[0].price;
    let mut i: usize = 1;
    while i < n
        invariant
            n == trades@.len(),
            views == trade_views(trades@),
            1 <= i <= n,
            high@ == highest_price(views.subrange(0, i as int)),
            low@ == lowest_price(views.subrange(0, i as int)),
        decreases n - i,
    {
        let price: ExactDecimal = trades[i].price;
        proof {
            assert(views.subrange(0, i + 1).drop_last() =~= views.subrange(0, i as int));
            assert(views.subrange(0, i + 1).last() == views[i as int]);
        }
        if high.less_than(&price) {
            high = price;
        }
        if price.less_than(&low) {
            low = price;
        }
        i += 1;
    }
    proof {
        assert(views.subrange(0, n as int) =~= views);
        assert(views[0] == trades@[0]@);
        assert(views.last() == trades@[n - 1]@);
        lemma_candle_extremes(views);
    }
    Ok(Candle { open: trades[0].price, close: trades[n - 1].price, low, high })
}

/// Offers one trade to the running window.
///
/// An empty window takes the trade as its anchor. Otherwise the trade must
/// not be newer than the anchor, the first trade of the window: if it is,
/// the call fails with [`AggregationError::OrderingViolation`] and leaves
/// the window as it was. A trade within `window_duration` of the anchor
/// joins the window. A later one closes it: the window's candle is
/// returned, and the window restarts with the trade as its only member.
pub fn accumulate_or_close(window: &mut Vec<Trade>, trade: &Trade, window_duration: u64) -> (r:
    Result<Option<Candle>, AggregationError>)
    ensures
        step_rejects(trade_views(old(window)@), trade@) ==> {
            &&& r == Err::<Option<Candle>, AggregationError>(AggregationError::OrderingViolation)
            &&& trade_views(final(window)@) == trade_views(old(window)@)
        },
        !step_rejects(trade_views(old(window)@), trade@) && step_closes(
            trade_views(old(window)@),
            trade@,
            window_duration as int,
        ) ==> {
            &&& r is Ok
            &&& r->Ok_0 is Some
            &&& (r->Ok_0->Some_0)@ == candle_of(trade_views(old(window)@))
            &&& trade_views(final(window)@) == seq![trade@]
        },
        !step_rejects(trade_views(old(window)@), trade@) && !step_closes(
            trade_views(old(window)@),
            trade@,
            window_duration as int,
        ) ==> {
            &&& r == Ok::<Option<Candle>, AggregationError>(None)
            &&& trade_views(final(window)@) == trade_views(old(window)@).push(trade@)
        },
{
    let ghost before = trade_views(window@);
    if window.len() == 0 {
        window.push(trade.clone());
        assert(trade_views(window@) =~= before.push(trade@));
        return Ok(None);
    }
    let anchor: u64 = window[0].participant_timestamp;
    let stamp: u64 = trade.participant_timestamp;
    if stamp > anchor {
        return Err(AggregationError::OrderingViolation);
    }
    if anchor - stamp <= window_duration {
        window.push(trade.clone());
        assert(trade_views(window@) =~= before.push(trade@));
        Ok(None)
    } else {
        let candle = match create_candle_from_trades(window) {
            Ok(c) => c,
            Err(e) => {
                return Err(e);
            },
        };
        window.clear();
        window.push(trade.clone());
        assert(trade_views(window@) =~= seq![trade@]);
        Ok(Some(candle))
    }
}

/// An aggregation result as mathematical values.
pub open spec fn aggregation_view(r: Result<(Vec<Candle>, Vec<Trade>), AggregationError>) -> Result<
    (Seq<CandleView>, Seq<TradeView>),
    AggregationError,
> {
    match r {
        Ok(p) => Ok((candle_views(p.0@), trade_views(p.1@))),
        Err(e) => Err(e),
    }
}

/// Cuts `trades`, given newest first, into windows of `window_duration`
/// nanoseconds and returns the candle of every closed window together with
/// the trades of the window that is still open at the end of the input.
///
/// The first trade anchors the first window. A trade belongs to the running
/// window while no more than `window_duration` has elapsed between the
/// anchor and the trade; the first trade beyond that closes the window and
/// anchors the next. The last window is never closed here: its trades come
/// back as the second component, so that the caller can put them in front of
/// the next page of trades, or close them with
/// [`create_candle_from_trades`] when no more trades will come.
///
/// No trades give no candles and no pending trades. A trade newer than the
/// anchor of its window fails the call with
/// [`AggregationError::OrderingViolation`].
pub fn aggregate(trades: &Vec<Trade>, window_duration: u64) -> (r: Result<
    (Vec<Candle>, Vec<Trade>),
    AggregationError,
>)
    ensures
        aggregation_view(r) == aggregation(trade_views(trades@), window_duration as int),
        trades@.len() == 0 ==> r is Ok && (r->Ok_0).0@.len() == 0 && (r->Ok_0).1@.len() == 0,
        r is Err <==> ordering_violated(trade_views(trades@), window_duration as int),
        r is Err ==> r->Err_0 == AggregationError::OrderingViolation,
{
    let ghost views = trade_views(trades@);
    let ghost d = window_duration as int;
    let n: usize = trades.len();
    let mut candles: Vec<Candle> = Vec::new();
    let mut window: Vec<Trade> = Vec::new();
    let mut i: usize = 0;
    while i < n
        invariant
            n == trades@.len(),
            views == trade_views(trades@),
            d == window_duration as int,
            0 <= i <= n,
            forall|j: int| 0 <= j < i ==> !#[trigger] out_of_order_at(views, d, j),
            candle_views(candles@) =~= candles_of(closed_windows(views, d, i as int)),
            i == 0 ==> window@.len() == 0,
            i > 0 ==> trade_views(window@) =~= views.subrange(
                anchor_index(views, d, i - 1),
                i as int,
            ),
        decreases n - i,
    {
        let ghost before = trade_views(window@);
        let ghost earlier = candle_views(candles@);
        proof {
            if i > 0 {
                lemma_anchor_index_bounds(views, d, i - 1);
                assert(before[0] == views[anchor_index(views, d, i - 1)]);
            }
            assert(views[i as int] == trades@[i as int]@);
        }
        match accumulate_or_close(&mut window, &trades[i], window_duration) {
            Ok(Some(candle)) => {
                candles.push(candle);
                proof {
                    assert(candle_views(candles@) =~= earlier.push(candle@));
                    assert(trade_views(window@) =~= views.subrange(i as int, i + 1));
                }
            },
            Ok(None) => {
                proof {
                    if i > 0 {
                        assert(trade_views(window@) =~= views.subrange(
                            anchor_index(views, d, i - 1),
                            i + 1,
                        ));
                    } else {
                        assert(trade_views(window@) =~= views.subrange(0, 1));
                    }
                }
            },
            Err(e) => {
                proof {
                    assert(out_of_order_at(views, d, i as int));
                }
                return Err(e);
            },
        }
        i += 1;
    }
    proof {
        if n == 0 {
            assert(trade_views(window@) =~= Seq::<TradeView>::empty());
        }
    }
    Ok((candles, window))
}

/// The number of nanoseconds in a second.
pub const NANOS_PER_SECOND: u64 = 1_000_000_000;

/// An aggregation result with the pending trades first, as mathematical
/// values with the candles first.
pub open spec fn pending_first_view(
    r: Result<(Vec<Trade>, Vec<Candle>), AggregationError>,
) -> Result<(Seq<CandleView>, Seq<TradeView>), AggregationError> {
    match r {
        Ok(p) => Ok((candle_views(p.1@), trade_views(p.0@))),
        Err(e) => Err(e),
    }
}

/// Aggregates one page of trades into candles of `num_seconds` seconds, as
/// [`aggregate`] does, and returns the pending trades before the candles.
pub fn get_candles_for_trading_day(num_seconds: u64, trades: &Trades) -> (r: Result<
    (Vec<Trade>, Vec<Candle>),
    AggregationError,
>)
    ensures
        pending_first_view(r) == aggregation(trades@.results, num_seconds * NANOS_PER_SECOND),
{
    let window_duration: u64 = match num_seconds.checked_mul(NANOS_PER_SECOND) {
        Some(nanos) => nanos,
        None => u64::MAX,
    };
    proof {
        if num_seconds * NANOS_PER_SECOND > u64::MAX {
            lemma_long_duration_is_one_window(trades@.results, u64::MAX as int);
            lemma_long_duration_is_one_window(trades@.results, num_seconds * NANOS_PER_SECOND);
        }
    }
    match aggregate(&trades.results, window_duration) {
        Ok((candles, pending)) => Ok((pending, candles)),
        Err(e) => Err(e),
    }
}

} // verus!
