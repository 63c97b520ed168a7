//! Request parameters of the market-data service and the URLs built from
//! them.
use std::ops::Index;
use vstd::prelude::*;
use vstd::string::*;

verus! {

/// The endpoints of the service.
#[derive(Debug)]
pub enum Route {
    AggregatesBars,
    GroupedDaily,
    DailyOpenClose,
    PrevClose,
    Trades,
    LastTradeForPairCrypto,
    SnapShots,
    TechnicalIndicators,
}

/// The unit of an aggregate's time window.
#[derive(Debug)]
pub enum Timespan {
    Minute,
    Hour,
    Day,
    Week,
    Month,
    Quarter,
    Year,
}

/// The word by which the service knows a timespan.
pub open spec fn timespan_name(timespan: Timespan) -> Seq<char> {
    match timespan {
        Timespan::Minute => "minute"@,
        Timespan::Hour => "hour"@,
        Timespan::Day => "day"@,
        Timespan::Week => "week"@,
        Timespan::Month => "month"@,
        Timespan::Quarter => "quarter"@,
        Timespan::Year => "year"@,
    }
}

/// The parameters of one request.
#[derive(Debug)]
pub struct QueryParams<'a> {
    /// url for polygon feature endpoint
    pub base_url: &'a str,
    /// coin to currency conversion type that you'd like data for
    pub crypto_ticker: &'a str,
    /// the size of the timespan multiplier
    pub multiplier: &'a str,
    /// the size of the time window
    pub timespan: Timespan,
    /// the start of the time window formatted YYYY-MM-DD
    pub from: &'a str,
    /// the end of the time window formatted YYYY-MM-DD
    pub to: &'a str,
    /// beginning date of grouped daily bars window formatted YYYY-MM-DD
    pub date: &'a str,
    /// date timestamp YYYY-MM-DD
    pub timestamp: &'a str,
    /// whether or not the results are adjusted for splits
    pub adjusted: &'a str,
    /// order the data in ascending (asc) or descending (desc)
    pub order: &'a str,
    /// the number of results per paginated response
    pub limit: &'a str,
    /// sort the results by X
    pub sort: &'a str,
    /// from currency symbol for price conversion
    pub from_symbol: &'a str,
    /// to currency symbol to be converted
    pub to_symbol: &'a str,
}

/// The number of positions that a [`QueryParams`] can be indexed at.
pub const PARAM_COUNT: usize = 14;

impl<'a> QueryParams<'a> {
    /// The text found at position `index`: the fields in declaration order,
    /// the timespan by its name.
    pub open spec fn param(self, index: int) -> Seq<char>
        recommends
            0 <= index < PARAM_COUNT,
    {
        if index == 0 {
            self.base_url@
        } else if index == 1 {
            self.crypto_ticker@
        } else if index == 2 {
            self.multiplier@
        } else if index == 3 {
            timespan_name(self.timespan)
        } else if index == 4 {
            self.from@
        } else if index == 5 {
            self.to@
        } else if index == 6 {
            self.date@
        } else if index == 7 {
            self.timestamp@
        } else if index == 8 {
            self.adjusted@
        } else if index == 9 {
            self.order@
        } else if index == 10 {
            self.limit@
        } else if index == 11 {
            self.sort@
        } else if index == 12 {
            self.from_symbol@
        } else {
            self.to_symbol@
        }
    }
}

impl<'a> QueryParams<'a> {
    /// Parameters with a multiplier of one, a timespan of a day and every
    /// other text empty.
    pub fn new() -> (r: Self)
        ensures
            r.multiplier@ == "1"@,
            r.timespan == Timespan::Day,
            forall|index: int|
                0 <= index < PARAM_COUNT && index != 2 && index != 3 ==> (#[trigger] r.param(
                    index,
                )).len() == 0,
    {
        proof {
            reveal_strlit("");
        }
        QueryParams {
            base_url: "",
            crypto_ticker: "",
            multiplier: "1",
            timespan: Timespan::Day,
            from: "",
            to: "",
            date: "",
            timestamp: "",
            adjusted: "",
            order: "",
            limit: "",
            sort: "",
            from_symbol: "",
            to_symbol: "",
        }
    }

    /// The same parameters with the endpoint URL replaced.
    pub fn add_base_url(self, url: &'a str) -> (r: Self)
        ensures
            r == (QueryParams { base_url: url, ..self }),
    {
        QueryParams { base_url: url, ..self }
    }

    /// The same parameters with the ticker replaced.
    pub fn add_crypto_ticker(self, ticker: &'a str) -> (r: Self)
        ensures
            r == (QueryParams { crypto_ticker: ticker, ..self }),
    {
        QueryParams { crypto_ticker: ticker, ..self }
    }

    /// The same parameters with the timespan multiplier replaced.
    pub fn add_multiplier(self, mutliplier: &'a str) -> (r: Self)
        ensures
            r == (QueryParams { multiplier: mutliplier, ..self }),
    {
        QueryParams { multiplier: mutliplier, ..self }
    }

    /// The same parameters with the timespan replaced.
    pub fn add_timespan(self, timespan: Timespan) -> (r: Self)
        ensures
            r == (QueryParams { timespan, ..self }),
    {
        QueryParams { timespan, ..self }
    }

    /// The same parameters with the start of the time window replaced.
    pub fn add_from(self, from_date: &'a str) -> (r: Self)
        ensures
            r == (QueryParams { from: from_date, ..self }),
    {
        QueryParams { from: from_date, ..self }
    }

    /// The same parameters with the end of the time window replaced.
    pub fn add_to(self, to_date: &'a str) -> (r: Self)
        ensures
            r == (QueryParams { to: to_date, ..self }),
    {
        QueryParams { to: to_date, ..self }
    }

    /// The same parameters with the date of the grouped daily bars replaced.
    pub fn add_date(self, date: &'a str) -> (r: Self)
        ensures
            r == (QueryParams { date, ..self }),
    {
        QueryParams { date, ..self }
    }

    /// The same parameters with the timestamp replaced.
    pub fn add_timestamp(self, timestamp: &'a str) -> (r: Self)
        ensures
            r == (QueryParams { timestamp, ..self }),
    {
        QueryParams { timestamp, ..self }
    }

    /// The same parameters with the adjustment flag replaced.
    pub fn add_adjusted(self, adj: &'a str) -> (r: Self)
        ensures
            r == (QueryParams { adjusted: adj, ..self }),
    {
        QueryParams { adjusted: adj, ..self }
    }

    /// The same parameters with the order of the results replaced.
    pub fn add_order(self, order: &'a str) -> (r: Self)
        ensures
            r == (QueryParams { order, ..self }),
    {
        QueryParams { order, ..self }
    }

    /// The same parameters with the number of results per page replaced.
    pub fn add_limit(self, results_per_page: &'a str) -> (r: Self)
        ensures
            r == (QueryParams { limit: results_per_page, ..self }),
    {
        QueryParams { limit: results_per_page, ..self }
    }

    /// The same parameters with the sort key replaced.
    pub fn add_sort(self, sort_method: &'a str) -> (r: Self)
        ensures
            r == (QueryParams { sort: sort_method, ..self }),
    {
        QueryParams { sort: sort_method, ..self }
    }

    /// The same parameters with the symbol converted from replaced.
    pub fn add_from_symbol(self, symbol: &'a str) -> (r: Self)
        ensures
            r == (QueryParams { from_symbol: symbol, ..self }),
    {
        QueryParams { from_symbol: symbol, ..self }
    }

    /// The same parameters with the symbol converted to replaced.
    pub fn add_to_symbol(self, symbol: &'a str) -> (r: Self)
        ensures
            r == (QueryParams { to_symbol: symbol, ..self }),
    {
        QueryParams { to_symbol: symbol, ..self }
    }
}

impl<'a> vstd::std_specs::core::IndexSpecImpl<usize> for QueryParams<'a> {
    open spec fn index_req(&self, index: &usize) -> bool {
        *index < PARAM_COUNT
    }
}

impl<'a> Index<usize> for QueryParams<'a> {
    type Output = str;

    /// The parameter at position `index`, which must be below
    /// [`PARAM_COUNT`].
    fn index(&self, index: usize) -> (r: &str)
        ensures
            r@ == self.param(index as int),
    {
        match index {
            0 => self.base_url,
            1 => self.crypto_ticker,
            2 => self.multiplier,
            3 => {
                match self.timespan {
                    Timespan::Day => "day",
                    Timespan::Hour => "hour",
                    Timespan::Minute => "minute",
                    Timespan::Week => "week",
                    Timespan::Month => "month",
                    Timespan::Quarter => "quarter",
                    Timespan::Year => "year",
                }
            },
            4 => self.from,
            5 => self.to,
            6 => self.date,
            7 => self.timestamp,
            8 => self.adjusted,
            9 => self.order,
            10 => self.limit,
            11 => self.sort,
            12 => self.from_symbol,
            _ => self.to_symbol,
        }
    }
}

/// A parameter as it stands in a query: followed by `&` unless it is empty.
pub open spec fn query_part(text: Seq<char>) -> Seq<char> {
    if text.len() > 0 {
        text + seq!['&']
    } else {
        text
    }
}

/// The URL of the request that `params` describe, signed with `api_key`:
/// endpoint and ticker, then `?` and the query made of multiplier, timespan
/// and start of the window, then the key.
pub open spec fn request_url(params: QueryParams, api_key: Seq<char>) -> Seq<char> {
    params.base_url@ + params.crypto_ticker@ + seq!['?'] + query_part(params.multiplier@)
        + query_part(timespan_name(params.timespan)) + query_part(params.from@) + "apiKey="@
        + api_key
}

/// The number of leading positions that go into a request URL.
pub const URL_PARAM_COUNT: usize = 5;

/// The piece of a request URL that position `index` contributes: the
/// parameter itself, led by `?` at position 2, where the query begins, and
/// followed by `&` when it belongs to the query and is not empty.
spec fn url_piece(params: QueryParams, index: int) -> Seq<char> {
    let lead = if index == 2 {
        seq!['?']
    } else {
        Seq::<char>::empty()
    };
    let trail = if index > 1 && params.param(index).len() > 0 {
        seq!['&']
    } else {
        Seq::<char>::empty()
    };
    lead + params.param(index) + trail
}

/// The pieces of the positions below `count`, one after the other.
spec fn url_pieces(params: QueryParams, count: int) -> Seq<char>
    decreases count,
{
    if count <= 0 {
        Seq::<char>::empty()
    } else {
        url_pieces(params, count - 1) + url_piece(params, count - 1)
    }
}

/// The pieces of all positions that go into a URL, followed by the key
/// parameter, are the request URL.
proof fn lemma_url_pieces_make_request_url(params: QueryParams, api_key: Seq<char>)
    ensures
        url_pieces(params, URL_PARAM_COUNT as int) + "apiKey="@ + api_key == request_url(
            params,
            api_key,
        ),
{
    reveal_with_fuel(url_pieces, 6);
    assert(url_pieces(params, URL_PARAM_COUNT as int) + "apiKey="@ + api_key =~= request_url(
        params,
        api_key,
    ));
}

/// The endpoint that reports the last trade of the pair `from`/`to`.
pub fn last_trade_url(from: &str, to: &str) -> (r: String)
    ensures
        r@ == "https://api.polygon.io/v1/last/crypto/"@ + from@ + seq!['/'] + to@,
{
    let mut url = String::from_str("https://api.polygon.io/v1/last/crypto/");
    url.append(from);
    proof {
        reveal_strlit("/");
    }
    url.append("/");
    url.append(to);
    assert(url@ =~= "https://api.polygon.io/v1/last/crypto/"@ + from@ + seq!['/'] + to@);
    url
}

/// The holder of the key that signs requests to the service.
#[derive(Debug)]
pub struct Polygon {
    polygon_api_key: Option<String>,
}

impl View for Polygon {
    type V = Option<Seq<char>>;

    closed spec fn view(&self) -> Option<Seq<char>> {
        match self.polygon_api_key {
            Some(key) => Some(key@),
            None => None,
        }
    }
}

impl Polygon {
    /// A holder of the given key, or of none.
    pub fn new(polygon_api_key: Option<String>) -> (r: Self)
        ensures
            r@ == match polygon_api_key {
                Some(key) => Some(key@),
                None => None,
            },
    {
        Polygon { polygon_api_key }
    }

    /// The key, where one is held.
    pub fn api_key(&self) -> (r: &Option<String>)
        ensures
            self@ == match *r {
                Some(key) => Some(key@),
                None => None,
            },
    {
        &self.polygon_api_key
    }

    /// The URL of the request that `params` describe, signed with the key.
    /// A key must be present.
    pub fn querify_paramters(&self, params: &QueryParams<'_>) -> (r: String)
        requires
            self@ is Some,
        ensures
            r@ == request_url(*params, self@->Some_0),
    {
        let mut full_url = String::new();
        let mut i: usize = 0;
        while i < URL_PARAM_COUNT
            invariant
                0 <= i <= URL_PARAM_COUNT,
                full_url@ == url_pieces(*params, i as int),
            decreases URL_PARAM_COUNT - i,
        {
            let ghost before = full_url@;
            if i == 2 {
                proof {
                    reveal_strlit("?");
                }
                full_url.append("?");
            }
            full_url.append(&params[i]);
            if i > 1 && !params[i].is_empty() {
                proof {
                    reveal_strlit("&");
                }
                full_url.append("&");
            }
            assert(full_url@ =~= before + url_piece(*params, i as int));
            i += 1;
        }
        full_url.append("apiKey=");
        match &self.polygon_api_key {
            Some(key) => {
                full_url.append(key.as_str());
            },
            None => {},
        }
        proof {
            lemma_url_pieces_make_request_url(*params, self@->Some_0);
        }
        full_url
    }
}

} // verus!
