//! Orders: wire enumerations, the order model, and the builders that
//! assemble order-placement and order-listing requests.

use vstd::prelude::*;

use crate::decimal::{spec_format, Decimal};
use crate::http::{form_map, HttpRequest, Method};
use crate::market::{pair_code, TradingPair};
use crate::text::{spec_udigits, str_eq, u64_string};
use crate::error::LunoError;
use crate::json::{
    jget, jview, spec_bool_field, spec_decimal_field, spec_parse_json, spec_string_field, spec_u64_field,
    status_ok, Json, SpecJson,
};
use crate::urls::{lemma_query_map_append, query_map, qview, render_query, url_text, Url};

verus! {

/// The side of a limit order.
#[derive(Clone, Copy, Debug, PartialEq, Eq, Structural)]
pub enum LimitOrderType {
    ASK,
    BID,
}

/// The exact wire form of a limit order side.
pub open spec fn limit_type_code(t: LimitOrderType) -> Seq<char> {
    match t {
        LimitOrderType::ASK => "ASK"@,
        LimitOrderType::BID => "BID"@,
    }
}

/// The limit order side a string denotes, if any.
pub open spec fn spec_limit_type_of(s: Seq<char>) -> Option<LimitOrderType> {
    if s == "ASK"@ {
        Some(LimitOrderType::ASK)
    } else if s == "BID"@ {
        Some(LimitOrderType::BID)
    } else {
        None
    }
}

impl LimitOrderType {
    /// The wire form of this side.
    pub fn as_str(&self) -> (r: &'static str)
        ensures
            r@ == limit_type_code(*self),
    {
        match self {
            LimitOrderType::ASK => "ASK",
            LimitOrderType::BID => "BID",
        }
    }

    /// Reads a side, case-sensitively; everything else is refused.
    pub fn parse(s: &str) -> (r: Option<LimitOrderType>)
        ensures
            r == spec_limit_type_of(s@),
    {
        if str_eq(s, "ASK") {
            Some(LimitOrderType::ASK)
        } else if str_eq(s, "BID") {
            Some(LimitOrderType::BID)
        } else {
            None
        }
    }
}

/// Law: limit order sides round-trip through their wire form.
pub proof fn lemma_limit_type_round_trip(t: LimitOrderType, s: Seq<char>)
    ensures
        spec_limit_type_of(limit_type_code(t)) == Some(t),
        spec_limit_type_of(s) == Some(t) ==> limit_type_code(t) == s,
{
    reveal_strlit("ASK");
    reveal_strlit("BID");
    assert("ASK"@.len() == 3 && "ASK"@[0] == 'A' && "ASK"@[1] == 'S' && "ASK"@[2] == 'K');
    assert("BID"@.len() == 3 && "BID"@[0] == 'B' && "BID"@[1] == 'I' && "BID"@[2] == 'D');
    match t {
        LimitOrderType::ASK => {
            assert(spec_limit_type_of(limit_type_code(LimitOrderType::ASK)) == Some(
                LimitOrderType::ASK,
            ));
        },
        LimitOrderType::BID => {
            assert(spec_limit_type_of(limit_type_code(LimitOrderType::BID)) == Some(
                LimitOrderType::BID,
            ));
        },
    }
}

/// The side of a market order.
#[derive(Clone, Copy, Debug, PartialEq, Eq, Structural)]
pub enum MarketOrderType {
    BUY,
    SELL,
}

/// The exact wire form of a market order side.
pub open spec fn market_type_code(t: MarketOrderType) -> Seq<char> {
    match t {
        MarketOrderType::BUY => "BUY"@,
        MarketOrderType::SELL => "SELL"@,
    }
}

/// The market order side a string denotes, if any.
pub open spec fn spec_market_type_of(s: Seq<char>) -> Option<MarketOrderType> {
    if s == "BUY"@ {
        Some(MarketOrderType::BUY)
    } else if s == "SELL"@ {
        Some(MarketOrderType::SELL)
    } else {
        None
    }
}

impl MarketOrderType {
    /// The wire form of this side.
    pub fn as_str(&self) -> (r: &'static str)
        ensures
            r@ == market_type_code(*self),
    {
        match self {
            MarketOrderType::BUY => "BUY",
            MarketOrderType::SELL => "SELL",
        }
    }

    /// Reads a side, case-sensitively; everything else is refused.
    pub fn parse(s: &str) -> (r: Option<MarketOrderType>)
        ensures
            r == spec_market_type_of(s@),
    {
        if str_eq(s, "BUY") {
            Some(MarketOrderType::BUY)
        } else if str_eq(s, "SELL") {
            Some(MarketOrderType::SELL)
        } else {
            None
        }
    }
}

/// Law: market order sides round-trip through their wire form.
pub proof fn lemma_market_type_round_trip(t: MarketOrderType, s: Seq<char>)
    ensures
        spec_market_type_of(market_type_code(t)) == Some(t),
        spec_market_type_of(s) == Some(t) ==> market_type_code(t) == s,
{
    reveal_strlit("BUY");
    reveal_strlit("SELL");
    assert("BUY"@.len() == 3 && "BUY"@[0] == 'B' && "BUY"@[1] == 'U' && "BUY"@[2] == 'Y');
    assert("SELL"@.len() == 4 && "SELL"@[0] == 'S' && "SELL"@[1] == 'E' && "SELL"@[2] == 'L'
        && "SELL"@[3] == 'L');
    match t {
        MarketOrderType::BUY => {
            assert(spec_market_type_of(market_type_code(MarketOrderType::BUY)) == Some(
                MarketOrderType::BUY,
            ));
        },
        MarketOrderType::SELL => {
            assert(spec_market_type_of(market_type_code(MarketOrderType::SELL)) == Some(
                MarketOrderType::SELL,
            ));
        },
    }
}

/// The state of an order, exactly as the exchange reported it; the
/// client never transitions it locally.
#[derive(Clone, Copy, Debug, PartialEq, Eq, Structural)]
pub enum OrderState {
    COMPLETE,
    PENDING,
}

/// The exact wire form of an order state.
pub open spec fn state_code(t: OrderState) -> Seq<char> {
    match t {
        OrderState::COMPLETE => "COMPLETE"@,
        OrderState::PENDING => "PENDING"@,
    }
}

/// The order state a string denotes, if any.
pub open spec fn spec_state_of(s: Seq<char>) -> Option<OrderState> {
    if s == "COMPLETE"@ {
        Some(OrderState::COMPLETE)
    } else if s == "PENDING"@ {
        Some(OrderState::PENDING)
    } else {
        None
    }
}

impl OrderState {
    /// The wire form of this state.
    pub fn as_str(&self) -> (r: &'static str)
        ensures
            r@ == state_code(*self),
    {
        match self {
            OrderState::COMPLETE => "COMPLETE",
            OrderState::PENDING => "PENDING",
        }
    }

    /// Reads a state, case-sensitively; everything else is refused.
    pub fn parse(s: &str) -> (r: Option<OrderState>)
        ensures
            r == spec_state_of(s@),
    {
        if str_eq(s, "COMPLETE") {
            Some(OrderState::COMPLETE)
        } else if str_eq(s, "PENDING") {
            Some(OrderState::PENDING)
        } else {
            None
        }
    }
}

/// Law: order states round-trip through their wire form.
pub proof fn lemma_state_round_trip(t: OrderState, s: Seq<char>)
    ensures
        spec_state_of(state_code(t)) == Some(t),
        spec_state_of(s) == Some(t) ==> state_code(t) == s,
{
    reveal_strlit("COMPLETE");
    reveal_strlit("PENDING");
    assert("COMPLETE"@.len() == 8 && "COMPLETE"@[0] == 'C' && "COMPLETE"@[1] == 'O');
    assert("PENDING"@.len() == 7 && "PENDING"@[0] == 'P' && "PENDING"@[1] == 'E');
    match t {
        OrderState::COMPLETE => {
            assert(spec_state_of(state_code(OrderState::COMPLETE)) == Some(OrderState::COMPLETE));
        },
        OrderState::PENDING => {
            assert(spec_state_of(state_code(OrderState::PENDING)) == Some(OrderState::PENDING));
        },
    }
}

/// The price-crossing condition that activates a stop order.
#[derive(Clone, Copy, Debug, PartialEq, Eq, Structural)]
#[allow(non_camel_case_types)]
pub enum StopDirection {
    BELOW,
    ABOVE,
    /// Infers the direction from the last trade price: if it is less
    /// than the stop price the direction is ABOVE, otherwise BELOW.
    RELATIVE_LAST_TRADE,
}

/// The exact wire form of a stop direction.
pub open spec fn stop_direction_code(t: StopDirection) -> Seq<char> {
    match t {
        StopDirection::BELOW => "BELOW"@,
        StopDirection::ABOVE => "ABOVE"@,
        StopDirection::RELATIVE_LAST_TRADE => "RELATIVE_LAST_TRADE"@,
    }
}

/// The stop direction a string denotes, if any.
pub open spec fn spec_stop_direction_of(s: Seq<char>) -> Option<StopDirection> {
    if s == "BELOW"@ {
        Some(StopDirection::BELOW)
    } else if s == "ABOVE"@ {
        Some(StopDirection::ABOVE)
    } else if s == "RELATIVE_LAST_TRADE"@ {
        Some(StopDirection::RELATIVE_LAST_TRADE)
    } else {
        None
    }
}

impl StopDirection {
    /// The wire form of this direction.
    pub fn as_str(&self) -> (r: &'static str)
        ensures
            r@ == stop_direction_code(*self),
    {
        match self {
            StopDirection::BELOW => "BELOW",
            StopDirection::ABOVE => "ABOVE",
            StopDirection::RELATIVE_LAST_TRADE => "RELATIVE_LAST_TRADE",
        }
    }

    /// Reads a direction, case-sensitively; everything else is refused.
    pub fn parse(s: &str) -> (r: Option<StopDirection>)
        ensures
            r == spec_stop_direction_of(s@),
    {
        if str_eq(s, "BELOW") {
            Some(StopDirection::BELOW)
        } else if str_eq(s, "ABOVE") {
            Some(StopDirection::ABOVE)
        } else if str_eq(s, "RELATIVE_LAST_TRADE") {
            Some(StopDirection::RELATIVE_LAST_TRADE)
        } else {
            None
        }
    }
}

/// Law: stop directions round-trip through their wire form.
pub proof fn lemma_stop_direction_round_trip(t: StopDirection, s: Seq<char>)
    ensures
        spec_stop_direction_of(stop_direction_code(t)) == Some(t),
        spec_stop_direction_of(s) == Some(t) ==> stop_direction_code(t) == s,
{
    reveal_strlit("BELOW");
    reveal_strlit("ABOVE");
    reveal_strlit("RELATIVE_LAST_TRADE");
    assert("BELOW"@.len() == 5 && "BELOW"@[0] == 'B');
    assert("ABOVE"@.len() == 5 && "ABOVE"@[0] == 'A');
    assert("RELATIVE_LAST_TRADE"@.len() == 19 && "RELATIVE_LAST_TRADE"@[0] == 'R');
    match t {
        StopDirection::BELOW => {
            assert(spec_stop_direction_of(stop_direction_code(StopDirection::BELOW)) == Some(
                StopDirection::BELOW,
            ));
        },
        StopDirection::ABOVE => {
            assert(spec_stop_direction_of(stop_direction_code(StopDirection::ABOVE)) == Some(
                StopDirection::ABOVE,
            ));
        },
        StopDirection::RELATIVE_LAST_TRADE => {
            assert(spec_stop_direction_of(
                stop_direction_code(StopDirection::RELATIVE_LAST_TRADE),
            ) == Some(StopDirection::RELATIVE_LAST_TRADE));
        },
    }
}

/// An order as the exchange reports it.
#[derive(Clone, Debug)]
pub struct Order {
    /// The amount of base currency moved by this order.
    pub base: Decimal,
    /// The amount of counter currency moved by this order.
    pub counter: Decimal,
    /// The UNIX timestamp of creation of the order.
    pub creation_timestamp: u64,
    /// The UNIX timestamp of expiration of this order.
    pub expiration_timestamp: u64,
    /// The UNIX timestamp of completion of this order.
    pub completed_timestamp: u64,
    /// The base fee debited after the trade principal amount.
    pub fee_base: Decimal,
    /// The counter fee debited after the trade principal amount.
    pub fee_counter: Decimal,
    /// The limit price of this order.
    pub limit_price: Decimal,
    /// The limit volume of this order.
    pub limit_volume: Decimal,
    /// The ID of the order.
    pub order_id: String,
    /// The market trading pair.
    pub pair: TradingPair,
    /// The state of the order.
    pub state: OrderState,
    /// The side of the order.
    pub order_type: LimitOrderType,
}

/// A limit order as submitted, all fields in wire form.
#[derive(Clone, Debug)]
pub struct LimitOrder {
    pub pair: String,
    pub order_type: LimitOrderType,
    pub volume: String,
    pub price: String,
    pub stop_price: String,
    pub stop_direction: String,
    pub base_account_id: String,
    pub counter_account_id: String,
    pub post_only: bool,
}

/// The exchange's answer to an order placement: an order id on
/// success, or the exchange's own error message.
#[derive(Clone, Debug)]
pub struct PostOrderResponse {
    pub order_id: Option<String>,
    pub error: Option<String>,
}

/// The exchange's answer to a cancellation request.
#[derive(Clone, Copy, Debug, PartialEq, Eq, Structural)]
pub struct StopOrderResponse {
    pub success: bool,
}

/// The orders returned by a list query.
#[derive(Clone, Debug)]
pub struct ListOrdersResponse {
    pub orders: Vec<Order>,
}

/// A builder for the order-list query: each filter records one optional
/// parameter; the terminal request applies exactly the parameters set.
#[derive(Clone, Debug)]
pub struct ListOrdersBuilder {
    pub state: Option<OrderState>,
    pub pair: Option<TradingPair>,
    pub created_before: Option<u64>,
    pub limit: Option<u64>,
    pub url: Url,
}

/// The optional query pairs a list-orders builder has accumulated, in
/// the order the request writes them.
pub open spec fn list_orders_params(b: ListOrdersBuilder) -> Seq<(Seq<char>, Seq<char>)> {
    (match b.state {
        Some(st) => seq![("state"@, state_code(st))],
        None => Seq::<(Seq<char>, Seq<char>)>::empty(),
    }) + (match b.pair {
        Some(p) => seq![("pair"@, pair_code(p))],
        None => Seq::<(Seq<char>, Seq<char>)>::empty(),
    }) + (match b.created_before {
        Some(t) => seq![("created_before"@, spec_udigits(t as nat))],
        None => Seq::<(Seq<char>, Seq<char>)>::empty(),
    }) + (match b.limit {
        Some(l) => seq![("limit"@, spec_udigits(l as nat))],
        None => Seq::<(Seq<char>, Seq<char>)>::empty(),
    })
}

/// The effective optional-parameter set of a list-orders builder: one
/// entry per filter that was called, nothing else.
pub open spec fn list_orders_param_map(b: ListOrdersBuilder) -> Map<Seq<char>, Seq<char>> {
    let m0 = Map::<Seq<char>, Seq<char>>::empty();
    let m1 = match b.state {
        Some(st) => m0.insert("state"@, state_code(st)),
        None => m0,
    };
    let m2 = match b.pair {
        Some(p) => m1.insert("pair"@, pair_code(p)),
        None => m1,
    };
    let m3 = match b.created_before {
        Some(t) => m2.insert("created_before"@, spec_udigits(t as nat)),
        None => m2,
    };
    match b.limit {
        Some(l) => m3.insert("limit"@, spec_udigits(l as nat)),
        None => m3,
    }
}

impl ListOrdersBuilder {
    /// A fresh builder with no optional filters set.
    pub fn new(url: Url) -> (r: ListOrdersBuilder)
        ensures
            r.state is None,
            r.pair is None,
            r.created_before is None,
            r.limit is None,
            r.url == url,
    {
        ListOrdersBuilder { state: None, pair: None, created_before: None, limit: None, url }
    }

    /// Records the state filter; every other setting is kept.
    pub fn filter_state(self, state: OrderState) -> (r: ListOrdersBuilder)
        ensures
            r == (ListOrdersBuilder { state: Some(state), ..self }),
    {
        ListOrdersBuilder { state: Some(state), ..self }
    }

    /// Records the pair filter; every other setting is kept.
    pub fn filter_pair(self, pair: TradingPair) -> (r: ListOrdersBuilder)
        ensures
            r == (ListOrdersBuilder { pair: Some(pair), ..self }),
    {
        ListOrdersBuilder { pair: Some(pair), ..self }
    }

    /// Records the creation-time bound; every other setting is kept.
    pub fn filter_created_before(self, timestamp: u64) -> (r: ListOrdersBuilder)
        ensures
            r == (ListOrdersBuilder { created_before: Some(timestamp), ..self }),
    {
        ListOrdersBuilder { created_before: Some(timestamp), ..self }
    }

    /// Records the row limit; every other setting is kept.
    pub fn filter_limit(self, limit: u64) -> (r: ListOrdersBuilder)
        ensures
            r == (ListOrdersBuilder { limit: Some(limit), ..self }),
    {
        ListOrdersBuilder { limit: Some(limit), ..self }
    }

    /// The one GET request of the query: the list-orders address with
    /// exactly the filters that were set, in a fixed order.
    pub fn list_request(&self) -> (r: HttpRequest)
        ensures
            r.method == Method::Get,
            r.form@.len() == 0,
            r.url@ == self.url.base@ + render_query(
                qview(self.url.query@) + list_orders_params(*self),
            ),
    {
        let ghost base_params = qview(self.url.query@);
        let mut url = self.url.duplicate();
        if let Some(st) = self.state {
            url = url.with_pair("state", st.as_str().to_owned());
        }
        if let Some(p) = self.pair {
            url = url.with_pair("pair", p.as_str().to_owned());
        }
        if let Some(t) = self.created_before {
            url = url.with_pair("created_before", u64_string(t));
        }
        if let Some(l) = self.limit {
            url = url.with_pair("limit", u64_string(l));
        }
        proof {
            assert(qview(url.query@) =~= base_params + list_orders_params(*self));
        }
        let text = url.to_text();
        HttpRequest { method: Method::Get, url: text, form: Vec::new() }
    }
}

/// Law: a builder with no optional filters set requests no optional
/// parameters, and each filter call contributes exactly its own
/// parameter to the effective set, leaving the others as they were.
pub proof fn lemma_list_orders_filters(b: ListOrdersBuilder, st: OrderState)
    ensures
        b.state is None && b.pair is None && b.created_before is None && b.limit is None
            ==> list_orders_params(b) =~= Seq::<(Seq<char>, Seq<char>)>::empty(),
        query_map(list_orders_params(b)) =~= list_orders_param_map(b),
{
    let ps = list_orders_params(b);
    lemma_query_map_concat(b);
}

/// The effective set of the written pairs is the per-filter map.
proof fn lemma_query_map_concat(b: ListOrdersBuilder)
    ensures
        query_map(list_orders_params(b)) =~= list_orders_param_map(b),
{
    let e = Seq::<(Seq<char>, Seq<char>)>::empty();
    let s1 = match b.state {
        Some(st) => seq![("state"@, state_code(st))],
        None => e,
    };
    let s2 = match b.pair {
        Some(p) => seq![("pair"@, pair_code(p))],
        None => e,
    };
    let s3 = match b.created_before {
        Some(t) => seq![("created_before"@, spec_udigits(t as nat))],
        None => e,
    };
    let s4 = match b.limit {
        Some(l) => seq![("limit"@, spec_udigits(l as nat))],
        None => e,
    };
    lemma_query_map_append(s1 + s2 + s3, s4);
    lemma_query_map_append(s1 + s2, s3);
    lemma_query_map_append(s1, s2);
    assert(query_map(e) =~= Map::<Seq<char>, Seq<char>>::empty());
    assert(query_map(s1) =~= (match b.state {
        Some(st) => Map::<Seq<char>, Seq<char>>::empty().insert("state"@, state_code(st)),
        None => Map::<Seq<char>, Seq<char>>::empty(),
    })) by {
        if b.state is Some {
            assert(s1.drop_last() =~= e);
            assert(query_map(e) =~= Map::<Seq<char>, Seq<char>>::empty());
        }
    }
}


/// A builder for placing one limit order: the mandatory parameters are
/// seeded at construction, each `with` call records one more form
/// parameter, and the terminal request carries exactly what was set.
#[derive(Debug)]
pub struct PostLimitOrderBuilder {
    pub url: Url,
    pub params: Vec<(String, String)>,
}

impl PostLimitOrderBuilder {
    /// Records the account to debit; everything already set is kept.
    pub fn with_base_account(self, id: &str) -> (r: PostLimitOrderBuilder)
        ensures
            r.url == self.url,
            qview(r.params@) == qview(self.params@).push(("base_account_id"@, id@)),
    {
        push_param(self, "base_account_id", id.to_owned())
    }

    /// Records the account to credit; everything already set is kept.
    pub fn with_counter_account(self, id: &str) -> (r: PostLimitOrderBuilder)
        ensures
            r.url == self.url,
            qview(r.params@) == qview(self.params@).push(("counter_account_id"@, id@)),
    {
        push_param(self, "counter_account_id", id.to_owned())
    }

    /// Asks the exchange to reject rather than take liquidity.
    pub fn post_only(self) -> (r: PostLimitOrderBuilder)
        ensures
            r.url == self.url,
            qview(r.params@) == qview(self.params@).push(("post_only"@, "true"@)),
    {
        proof {
            reveal_strlit("true");
            assert(crate::text::spec_bool_chars(true) == "true"@);
        }
        push_param(self, "post_only", crate::text::bool_string(true))
    }

    /// Records the stop price; everything already set is kept.
    pub fn with_stop_price(self, price: Decimal) -> (r: PostLimitOrderBuilder)
        ensures
            r.url == self.url,
            qview(r.params@) == qview(self.params@).push(("stop_price"@, spec_format(price))),
    {
        let text = price.format();
        push_param(self, "stop_price", text)
    }

    /// Records the stop direction; everything already set is kept.
    pub fn with_stop_direction(self, direction: StopDirection) -> (r: PostLimitOrderBuilder)
        ensures
            r.url == self.url,
            qview(r.params@) == qview(self.params@).push(
                ("stop_direction"@, stop_direction_code(direction)),
            ),
    {
        push_param(self, "stop_direction", direction.as_str().to_owned())
    }

    /// The one POST of the placement: the order endpoint with exactly
    /// the accumulated form parameters as the body.
    pub fn post_request(self) -> (r: HttpRequest)
        ensures
            r.method == Method::Post,
            r.url@ == url_text(self.url),
            r.form@ == self.params@,
    {
        let text = self.url.to_text();
        HttpRequest { method: Method::Post, url: text, form: self.params }
    }
}

/// Appends one form parameter to a limit-order builder.
fn push_param(b: PostLimitOrderBuilder, key: &str, value: String) -> (r: PostLimitOrderBuilder)
    ensures
        r.url == b.url,
        qview(r.params@) == qview(b.params@).push((key@, value@)),
{
    let mut params = b.params;
    let ghost before = params@;
    params.push((key.to_owned(), value));
    proof {
        assert(qview(params@) =~= qview(before).push((key@, value@)));
    }
    PostLimitOrderBuilder { url: b.url, params }
}

/// A builder for placing one market order.
#[derive(Debug)]
pub struct PostMarketOrderBuilder {
    pub url: Url,
    pub params: Vec<(String, String)>,
}

impl PostMarketOrderBuilder {
    /// Records the account to debit; everything already set is kept.
    pub fn with_base_account(self, id: &str) -> (r: PostMarketOrderBuilder)
        ensures
            r.url == self.url,
            qview(r.params@) == qview(self.params@).push(("base_account_id"@, id@)),
    {
        let mut params = self.params;
        let ghost before = params@;
        params.push(("base_account_id".to_owned(), id.to_owned()));
        proof {
            assert(qview(params@) =~= qview(before).push(("base_account_id"@, id@)));
        }
        PostMarketOrderBuilder { url: self.url, params }
    }

    /// Records the account to credit; everything already set is kept.
    pub fn with_counter_account(self, id: &str) -> (r: PostMarketOrderBuilder)
        ensures
            r.url == self.url,
            qview(r.params@) == qview(self.params@).push(("counter_account_id"@, id@)),
    {
        let mut params = self.params;
        let ghost before = params@;
        params.push(("counter_account_id".to_owned(), id.to_owned()));
        proof {
            assert(qview(params@) =~= qview(before).push(("counter_account_id"@, id@)));
        }
        PostMarketOrderBuilder { url: self.url, params }
    }

    /// The one POST of the placement.
    pub fn post_request(self) -> (r: HttpRequest)
        ensures
            r.method == Method::Post,
            r.url@ == url_text(self.url),
            r.form@ == self.params@,
    {
        let text = self.url.to_text();
        HttpRequest { method: Method::Post, url: text, form: self.params }
    }
}

/// The form parameters a fresh market-order builder is seeded with: the
/// pair, the side, and the volume under the parameter the side demands.
/// A BUY spends the counter currency, so its volume is submitted as
/// `counter_volume`; a SELL sells the base currency, so its volume is
/// submitted as `base_volume`. The other name is never present.
pub open spec fn market_order_params(
    pair: TradingPair,
    order_type: MarketOrderType,
    volume: Decimal,
) -> Seq<(Seq<char>, Seq<char>)> {
    seq![("pair"@, pair_code(pair)), ("type"@, market_type_code(order_type))] + (
    match order_type {
        MarketOrderType::BUY => seq![("counter_volume"@, spec_format(volume))],
        MarketOrderType::SELL => seq![("base_volume"@, spec_format(volume))],
    })
}

/// Law: a request whose form was seeded for a BUY market order submits
/// its volume as `counter_volume` and never as `base_volume`; one
/// seeded for a SELL submits it as `base_volume` and never as
/// `counter_volume`.
pub proof fn lemma_market_order_volume_param(
    pair: TradingPair,
    order_type: MarketOrderType,
    volume: Decimal,
    r: HttpRequest,
)
    requires
        qview(r.form@) == market_order_params(pair, order_type, volume),
    ensures
        ({
            let m = form_map(r);
            match order_type {
                MarketOrderType::BUY => m.contains_pair("counter_volume"@, spec_format(volume))
                    && !m.dom().contains("base_volume"@),
                MarketOrderType::SELL => m.contains_pair("base_volume"@, spec_format(volume))
                    && !m.dom().contains("counter_volume"@),
            }
        }),
{
    reveal_strlit("pair");
    reveal_strlit("type");
    reveal_strlit("counter_volume");
    reveal_strlit("base_volume");
    let ps = market_order_params(pair, order_type, volume);
    let head = seq![("pair"@, pair_code(pair)), ("type"@, market_type_code(order_type))];
    let tailkey: Seq<char> = match order_type {
        MarketOrderType::BUY => "counter_volume"@,
        MarketOrderType::SELL => "base_volume"@,
    };
    let otherkey: Seq<char> = match order_type {
        MarketOrderType::BUY => "base_volume"@,
        MarketOrderType::SELL => "counter_volume"@,
    };
    lemma_query_map_append(head, seq![(tailkey, spec_format(volume))]);
    assert(query_map(ps) == query_map(head).insert(tailkey, spec_format(volume))) by {
        assert(ps =~= head + seq![(tailkey, spec_format(volume))]);
    }
    assert(head.drop_last() =~= seq![("pair"@, pair_code(pair))]);
    assert(seq![("pair"@, pair_code(pair))].drop_last() =~= Seq::<(Seq<char>, Seq<char>)>::empty());
    assert(query_map(Seq::<(Seq<char>, Seq<char>)>::empty()) =~= Map::<Seq<char>, Seq<char>>::empty());
    assert("pair"@.len() == 4 && "pair"@[0] == 'p');
    assert("type"@.len() == 4 && "type"@[0] == 't');
    assert("counter_volume"@.len() == 14 && "counter_volume"@[0] == 'c');
    assert("base_volume"@.len() == 11 && "base_volume"@[0] == 'b');
    assert(query_map(seq![("pair"@, pair_code(pair))]) =~= Map::<Seq<char>, Seq<char>>::empty()
        .insert("pair"@, pair_code(pair)));
    assert(query_map(head) =~= Map::<Seq<char>, Seq<char>>::empty().insert(
        "pair"@,
        pair_code(pair),
    ).insert("type"@, market_type_code(order_type)));
    assert(!query_map(head).dom().contains(otherkey));
}


/// The market symbol a string field denotes.
pub open spec fn spec_pair_field(v: SpecJson, key: Seq<char>) -> Option<TradingPair> {
    match spec_string_field(v, key) {
        Some(t) => crate::market::spec_pair_of(t),
        None => None,
    }
}

/// The limit order side a string field denotes.
pub open spec fn spec_limit_type_field(v: SpecJson, key: Seq<char>) -> Option<LimitOrderType> {
    match spec_string_field(v, key) {
        Some(t) => spec_limit_type_of(t),
        None => None,
    }
}

/// The market order side a string field denotes.
pub open spec fn spec_market_type_field(v: SpecJson, key: Seq<char>) -> Option<MarketOrderType> {
    match spec_string_field(v, key) {
        Some(t) => spec_market_type_of(t),
        None => None,
    }
}

/// The order state a string field denotes.
pub open spec fn spec_state_field(v: SpecJson, key: Seq<char>) -> Option<OrderState> {
    match spec_string_field(v, key) {
        Some(t) => spec_state_of(t),
        None => None,
    }
}

/// An order read correctly from a response value: every field comes
/// from its own key, decimals parsed exactly, enums case-sensitively.
pub open spec fn order_matches(v: SpecJson, o: Order) -> bool {
    &&& spec_decimal_field(v, "base"@) == Some(o.base)
    &&& spec_decimal_field(v, "counter"@) == Some(o.counter)
    &&& spec_u64_field(v, "creation_timestamp"@) == Some(o.creation_timestamp)
    &&& spec_u64_field(v, "expiration_timestamp"@) == Some(o.expiration_timestamp)
    &&& spec_u64_field(v, "completed_timestamp"@) == Some(o.completed_timestamp)
    &&& spec_decimal_field(v, "fee_base"@) == Some(o.fee_base)
    &&& spec_decimal_field(v, "fee_counter"@) == Some(o.fee_counter)
    &&& spec_decimal_field(v, "limit_price"@) == Some(o.limit_price)
    &&& spec_decimal_field(v, "limit_volume"@) == Some(o.limit_volume)
    &&& spec_string_field(v, "order_id"@) == Some(o.order_id@)
    &&& spec_pair_field(v, "pair"@) == Some(o.pair)
    &&& spec_state_field(v, "state"@) == Some(o.state)
    &&& spec_limit_type_field(v, "type"@) == Some(o.order_type)
}

/// Every field of an order is present and well-formed.
pub open spec fn order_shape_ok(v: SpecJson) -> bool {
    &&& spec_decimal_field(v, "base"@) is Some
    &&& spec_decimal_field(v, "counter"@) is Some
    &&& spec_u64_field(v, "creation_timestamp"@) is Some
    &&& spec_u64_field(v, "expiration_timestamp"@) is Some
    &&& spec_u64_field(v, "completed_timestamp"@) is Some
    &&& spec_decimal_field(v, "fee_base"@) is Some
    &&& spec_decimal_field(v, "fee_counter"@) is Some
    &&& spec_decimal_field(v, "limit_price"@) is Some
    &&& spec_decimal_field(v, "limit_volume"@) is Some
    &&& spec_string_field(v, "order_id"@) is Some
    &&& spec_pair_field(v, "pair"@) is Some
    &&& spec_state_field(v, "state"@) is Some
    &&& spec_limit_type_field(v, "type"@) is Some
}

/// Reads one market symbol field.
pub(crate) fn pair_field(v: &Json, key: &str) -> (r: Result<TradingPair, LunoError>)
    ensures
        match r {
            Ok(p) => spec_pair_field(v@, key@) == Some(p),
            Err(e) => e is Decode && spec_pair_field(v@, key@) is None,
        },
{
    let t = v.get_string(key)?;
    match TradingPair::parse(t.as_str()) {
        Some(p) => Ok(p),
        None => Err(LunoError::Decode("not a market symbol: ".to_owned().concat(key))),
    }
}

/// Reads one order from a response value.
pub fn order_from_json(v: &Json) -> (r: Result<Order, LunoError>)
    ensures
        match r {
            Ok(o) => order_matches(v@, o),
            Err(e) => e is Decode,
        },
        r is Ok <==> order_shape_ok(v@),
{
    let base = v.get_decimal("base")?;
    let counter = v.get_decimal("counter")?;
    let creation_timestamp = v.get_u64("creation_timestamp")?;
    let expiration_timestamp = v.get_u64("expiration_timestamp")?;
    let completed_timestamp = v.get_u64("completed_timestamp")?;
    let fee_base = v.get_decimal("fee_base")?;
    let fee_counter = v.get_decimal("fee_counter")?;
    let limit_price = v.get_decimal("limit_price")?;
    let limit_volume = v.get_decimal("limit_volume")?;
    let order_id = v.get_string("order_id")?;
    let pair = pair_field(v, "pair")?;
    let state_text = v.get_string("state")?;
    let state = match OrderState::parse(state_text.as_str()) {
        Some(st) => st,
        None => {
            return Err(LunoError::Decode("not an order state: state".to_owned()));
        },
    };
    let type_text = v.get_string("type")?;
    let order_type = match LimitOrderType::parse(type_text.as_str()) {
        Some(t) => t,
        None => {
            return Err(LunoError::Decode("not an order side: type".to_owned()));
        },
    };
    Ok(
        Order {
            base,
            counter,
            creation_timestamp,
            expiration_timestamp,
            completed_timestamp,
            fee_base,
            fee_counter,
            limit_price,
            limit_volume,
            order_id,
            pair,
            state,
            order_type,
        },
    )
}

/// Every element of a list is a well-formed order.
pub open spec fn all_orders_shape_ok(items: Seq<SpecJson>) -> bool {
    forall|i: int| 0 <= i < items.len() ==> order_shape_ok(#[trigger] items[i])
}

/// Each element read correctly, in order.
pub open spec fn orders_match(items: Seq<SpecJson>, os: Seq<Order>) -> bool {
    os.len() == items.len() && (forall|i: int|
        0 <= i < items.len() ==> order_matches(#[trigger] items[i], os[i]))
}

/// Reads the orders of a list response: a missing `orders` key means
/// no orders were found and gives the empty sequence, never an error.
pub fn orders_from_json(v: &Json) -> (r: Result<Vec<Order>, LunoError>)
    ensures
        match r {
            Ok(os) => match jget(v@, "orders"@) {
                None => os@.len() == 0,
                Some(SpecJson::Arr(items)) => orders_match(items, os@),
                Some(_) => false,
            },
            Err(e) => e is Decode,
        },
        r is Ok <==> match jget(v@, "orders"@) {
            None => true,
            Some(SpecJson::Arr(items)) => all_orders_shape_ok(items),
            Some(_) => false,
        },
{
    match v.get("orders") {
        None => Ok(Vec::new()),
        Some(Json::Arr(items)) => {
            let ghost itemsv = jget(v@, "orders"@).unwrap()->Arr_0;
            proof {
                assert(forall|q: int|
                    0 <= q < itemsv.len() ==> #[trigger] itemsv[q] == jview(items@[q]));
            }
            let n = items.len();
            let mut out: Vec<Order> = Vec::new();
            let mut i: usize = 0;
            while i < n
                invariant
                    n == items@.len(),
                    i <= n,
                    itemsv.len() == n,
                    jget(v@, "orders"@) == Some(SpecJson::Arr(itemsv)),
                    forall|q: int|
                        0 <= q < itemsv.len() ==> #[trigger] itemsv[q] == jview(items@[q]),
                    out@.len() == i,
                    forall|q: int| 0 <= q < i ==> order_matches(itemsv[q], #[trigger] out@[q]),
                    forall|q: int| 0 <= q < i ==> order_shape_ok(#[trigger] itemsv[q]),
                decreases n - i,
            {
                proof {
                    assert(itemsv[i as int] == jview(items@[i as int]));
                }
                let o = match order_from_json(&items[i]) {
                    Ok(o) => o,
                    Err(e) => {
                        proof {
                            assert(itemsv[i as int] == jview(items@[i as int]));
                            assert(!order_shape_ok(itemsv[i as int]));
                            assert(!all_orders_shape_ok(itemsv));
                        }
                        return Err(e);
                    },
                };
                out.push(o);
                i += 1;
            }
            proof {
                assert(all_orders_shape_ok(itemsv));
                assert(orders_match(itemsv, out@));
            }
            Ok(out)
        },
        Some(other) => {
            proof {
                assert(!(jview(*other) is Arr)) by {
                    match other {
                        Json::Null => {},
                        Json::Bool(_) => {},
                        Json::Num(_) => {},
                        Json::Str(_) => {},
                        Json::Arr(_) => {
                            assert(false);
                        },
                        Json::Obj(_) => {},
                    }
                }
            }
            Err(LunoError::Decode("orders is not an array".to_owned()))
        },
    }
}

/// Parses the body of a list-orders response: the orders under the
/// `orders` key, or the empty sequence when the key is absent.
pub fn parse_list_orders_response(status: u16, body: &str) -> (r: Result<Vec<Order>, LunoError>)
    ensures
        match r {
            Ok(os) => status_ok(status) && (match spec_parse_json(body@) {
                Some(v) => match jget(v, "orders"@) {
                    None => os@.len() == 0,
                    Some(SpecJson::Arr(items)) => orders_match(items, os@),
                    Some(_) => false,
                },
                None => false,
            }),
            Err(e) => !(e is Config || e is Transport),
        },
        r is Ok <==> status_ok(status) && (match spec_parse_json(body@) {
            Some(v) => match jget(v, "orders"@) {
                None => true,
                Some(SpecJson::Arr(items)) => all_orders_shape_ok(items),
                Some(_) => false,
            },
            None => false,
        }),
{
    let v = crate::json::response_value(status, body)?;
    orders_from_json(&v)
}

/// Parses the body of an order-placement response. The exchange may
/// answer a placement with a `200` body that carries only an `error`
/// message; that answer is a remote rejection carrying the message,
/// never a successful response.
pub fn parse_post_order_response(status: u16, body: &str) -> (r: Result<
    PostOrderResponse,
    LunoError,
>)
    ensures
        match r {
            Ok(p) => {
                &&& status_ok(status)
                &&& p.error is None
                &&& match spec_parse_json(body@) {
                    Some(v) => spec_string_field(v, "error"@) is None && match p.order_id {
                        Some(t) => spec_string_field(v, "order_id"@) == Some(t@),
                        None => jget(v, "order_id"@) is None,
                    },
                    None => false,
                }
            },
            Err(e) => !(e is Config || e is Transport),
        },
        r is Ok <==> status_ok(status) && (match spec_parse_json(body@) {
            Some(v) => jget(v, "error"@) is None && (jget(v, "order_id"@) is None
                || spec_string_field(v, "order_id"@) is Some),
            None => false,
        }),
        (status_ok(status) && (match spec_parse_json(body@) {
            Some(v) => spec_string_field(v, "error"@) is Some,
            None => false,
        })) ==> (r matches Err(e) && e is Remote && (match spec_parse_json(body@) {
            Some(v) => match e {
                LunoError::Remote(m) => Some(m@) == spec_string_field(v, "error"@),
                _ => false,
            },
            None => false,
        })),
{
    let v = crate::json::response_value(status, body)?;
    match v.get("error") {
        Some(Json::Str(m)) => Err(LunoError::Remote(m.clone())),
        Some(_) => Err(LunoError::Decode("error is not a string".to_owned())),
        None => {
            let order_id = v.get_opt_string("order_id")?;
            Ok(PostOrderResponse { order_id, error: None })
        },
    }
}

/// Parses the body of a cancellation response.
pub fn parse_stop_order_response(status: u16, body: &str) -> (r: Result<
    StopOrderResponse,
    LunoError,
>)
    ensures
        match r {
            Ok(p) => status_ok(status) && (match spec_parse_json(body@) {
                Some(v) => spec_bool_field(v, "success"@) == Some(p.success),
                None => false,
            }),
            Err(e) => !(e is Config || e is Transport),
        },
        r is Ok <==> status_ok(status) && (match spec_parse_json(body@) {
            Some(v) => spec_bool_field(v, "success"@) is Some,
            None => false,
        }),
{
    let v = crate::json::response_value(status, body)?;
    let success = v.get_bool("success")?;
    Ok(StopOrderResponse { success })
}

} // verus!
