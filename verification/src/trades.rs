//! The account's own trades and fee information.

use vstd::prelude::*;

use crate::decimal::Decimal;
use crate::error::LunoError;
use crate::http::{HttpRequest, Method};
use crate::json::{
    jget, jview, spec_decimal_field, spec_parse_json, spec_string_field, spec_u64_field,
    status_ok, Json, SpecJson,
};
use crate::market::TradingPair;
use crate::orders::{spec_limit_type_field, spec_pair_field, LimitOrderType};
use crate::text::{spec_bool_chars, spec_udigits, u64_string};
use crate::urls::{lemma_query_map_append, query_map, qview, render_query, Url};

verus! {

/// One of the account's own trades.
#[derive(Clone, Debug)]
pub struct OwnTrade {
    pub base: Decimal,
    pub counter: Decimal,
    pub fee_base: Decimal,
    pub is_buy: bool,
    pub order_id: String,
    pub pair: TradingPair,
    pub price: Decimal,
    pub timestamp: u64,
    pub order_type: LimitOrderType,
    pub volume: Decimal,
}

/// The trades returned by a list query.
#[derive(Clone, Debug)]
pub struct ListOwnTradesResponse {
    pub trades: Vec<OwnTrade>,
}

/// The fees and rolling thirty-day volume for one pair.
#[derive(Clone, Copy, Debug, PartialEq, Eq, Structural)]
pub struct FeeInfo {
    pub maker_fee: Decimal,
    pub taker_fee: Decimal,
    pub thirty_day_volume: Decimal,
}

/// A builder for the own-trades query: each call records one optional
/// parameter; the terminal request applies exactly the parameters set.
#[derive(Clone, Debug)]
pub struct ListOwnTradesBuilder {
    pub since: Option<u64>,
    pub limit: Option<u64>,
    pub before: Option<u64>,
    pub after_seq: Option<u64>,
    pub before_seq: Option<u64>,
    pub sort_desc: Option<bool>,
    pub url: Url,
}

/// The optional query pairs an own-trades builder has accumulated, in
/// the order the request writes them.
pub open spec fn own_trades_params(b: ListOwnTradesBuilder) -> Seq<(Seq<char>, Seq<char>)> {
    (match b.since {
        Some(t) => seq![("since"@, spec_udigits(t as nat))],
        None => Seq::<(Seq<char>, Seq<char>)>::empty(),
    }) + (match b.limit {
        Some(c) => seq![("limit"@, spec_udigits(c as nat))],
        None => Seq::<(Seq<char>, Seq<char>)>::empty(),
    }) + (match b.before {
        Some(t) => seq![("before"@, spec_udigits(t as nat))],
        None => Seq::<(Seq<char>, Seq<char>)>::empty(),
    }) + (match b.after_seq {
        Some(q) => seq![("after_seq"@, spec_udigits(q as nat))],
        None => Seq::<(Seq<char>, Seq<char>)>::empty(),
    }) + (match b.before_seq {
        Some(q) => seq![("before_seq"@, spec_udigits(q as nat))],
        None => Seq::<(Seq<char>, Seq<char>)>::empty(),
    }) + (match b.sort_desc {
        Some(sorted) => seq![("sort_desc"@, spec_bool_chars(sorted))],
        None => Seq::<(Seq<char>, Seq<char>)>::empty(),
    })
}

impl ListOwnTradesBuilder {
    /// A fresh builder with no optional parameters set.
    pub fn new(url: Url) -> (r: ListOwnTradesBuilder)
        ensures
            r.since is None,
            r.limit is None,
            r.before is None,
            r.after_seq is None,
            r.before_seq is None,
            r.sort_desc is None,
            r.url == url,
    {
        ListOwnTradesBuilder {
            since: None,
            limit: None,
            before: None,
            after_seq: None,
            before_seq: None,
            sort_desc: None,
            url,
        }
    }

    /// Records the lower time bound; every other setting is kept.
    pub fn since(self, timestamp: u64) -> (r: ListOwnTradesBuilder)
        ensures
            r == (ListOwnTradesBuilder { since: Some(timestamp), ..self }),
    {
        ListOwnTradesBuilder { since: Some(timestamp), ..self }
    }

    /// Records the row limit; every other setting is kept.
    pub fn limit(self, count: u64) -> (r: ListOwnTradesBuilder)
        ensures
            r == (ListOwnTradesBuilder { limit: Some(count), ..self }),
    {
        ListOwnTradesBuilder { limit: Some(count), ..self }
    }

    /// Records the upper time bound; every other setting is kept.
    pub fn before(self, timestamp: u64) -> (r: ListOwnTradesBuilder)
        ensures
            r == (ListOwnTradesBuilder { before: Some(timestamp), ..self }),
    {
        ListOwnTradesBuilder { before: Some(timestamp), ..self }
    }

    /// Records the lower sequence bound; every other setting is kept.
    pub fn after_seq(self, seq_no: u64) -> (r: ListOwnTradesBuilder)
        ensures
            r == (ListOwnTradesBuilder { after_seq: Some(seq_no), ..self }),
    {
        ListOwnTradesBuilder { after_seq: Some(seq_no), ..self }
    }

    /// Records the upper sequence bound; every other setting is kept.
    pub fn before_seq(self, seq_no: u64) -> (r: ListOwnTradesBuilder)
        ensures
            r == (ListOwnTradesBuilder { before_seq: Some(seq_no), ..self }),
    {
        ListOwnTradesBuilder { before_seq: Some(seq_no), ..self }
    }

    /// Records the sort direction; every other setting is kept.
    pub fn sort_desc(self, sorted: bool) -> (r: ListOwnTradesBuilder)
        ensures
            r == (ListOwnTradesBuilder { sort_desc: Some(sorted), ..self }),
    {
        ListOwnTradesBuilder { sort_desc: Some(sorted), ..self }
    }

    /// The one GET request of the query: the own-trades address with
    /// exactly the parameters that were set, in a fixed order.
    pub fn list_request(&self) -> (r: HttpRequest)
        ensures
            r.method == Method::Get,
            r.form@.len() == 0,
            r.url@ == self.url.base@ + render_query(
                qview(self.url.query@) + own_trades_params(*self),
            ),
    {
        let ghost base_params = qview(self.url.query@);
        let mut url = self.url.duplicate();
        if let Some(t) = self.since {
            url = url.with_pair("since", u64_string(t));
        }
        if let Some(c) = self.limit {
            url = url.with_pair("limit", u64_string(c));
        }
        if let Some(t) = self.before {
            url = url.with_pair("before", u64_string(t));
        }
        if let Some(q) = self.after_seq {
            url = url.with_pair("after_seq", u64_string(q));
        }
        if let Some(q) = self.before_seq {
            url = url.with_pair("before_seq", u64_string(q));
        }
        if let Some(sorted) = self.sort_desc {
            url = url.with_pair("sort_desc", crate::text::bool_string(sorted));
        }
        proof {
            assert(qview(url.query@) =~= base_params + own_trades_params(*self));
        }
        let text = url.to_text();
        HttpRequest { method: Method::Get, url: text, form: Vec::new() }
    }
}

/// The effective optional-parameter set of an own-trades builder: one
/// entry per call that was made, nothing else.
pub open spec fn own_trades_param_map(b: ListOwnTradesBuilder) -> Map<Seq<char>, Seq<char>> {
    let m0 = Map::<Seq<char>, Seq<char>>::empty();
    let m1 = match b.since {
        Some(t) => m0.insert("since"@, spec_udigits(t as nat)),
        None => m0,
    };
    let m2 = match b.limit {
        Some(c) => m1.insert("limit"@, spec_udigits(c as nat)),
        None => m1,
    };
    let m3 = match b.before {
        Some(t) => m2.insert("before"@, spec_udigits(t as nat)),
        None => m2,
    };
    let m4 = match b.after_seq {
        Some(q) => m3.insert("after_seq"@, spec_udigits(q as nat)),
        None => m3,
    };
    let m5 = match b.before_seq {
        Some(q) => m4.insert("before_seq"@, spec_udigits(q as nat)),
        None => m4,
    };
    match b.sort_desc {
        Some(sorted) => m5.insert("sort_desc"@, spec_bool_chars(sorted)),
        None => m5,
    }
}

/// Law: a builder with nothing set requests no optional parameters,
/// and each call contributes exactly its own parameter to the
/// effective set, leaving the others as they were.
pub proof fn lemma_own_trades_filters(b: ListOwnTradesBuilder)
    ensures
        b.since is None && b.limit is None && b.before is None && b.after_seq is None
            && b.before_seq is None && b.sort_desc is None ==> own_trades_params(b)
            =~= Seq::<(Seq<char>, Seq<char>)>::empty(),
        query_map(own_trades_params(b)) =~= own_trades_param_map(b),
{
    let e = Seq::<(Seq<char>, Seq<char>)>::empty();
    let s1 = match b.since {
        Some(t) => seq![("since"@, spec_udigits(t as nat))],
        None => e,
    };
    let s2 = match b.limit {
        Some(c) => seq![("limit"@, spec_udigits(c as nat))],
        None => e,
    };
    let s3 = match b.before {
        Some(t) => seq![("before"@, spec_udigits(t as nat))],
        None => e,
    };
    let s4 = match b.after_seq {
        Some(q) => seq![("after_seq"@, spec_udigits(q as nat))],
        None => e,
    };
    let s5 = match b.before_seq {
        Some(q) => seq![("before_seq"@, spec_udigits(q as nat))],
        None => e,
    };
    let s6 = match b.sort_desc {
        Some(sorted) => seq![("sort_desc"@, spec_bool_chars(sorted))],
        None => e,
    };
    lemma_query_map_append(s1 + s2 + s3 + s4 + s5, s6);
    lemma_query_map_append(s1 + s2 + s3 + s4, s5);
    lemma_query_map_append(s1 + s2 + s3, s4);
    lemma_query_map_append(s1 + s2, s3);
    lemma_query_map_append(s1, s2);
    assert(query_map(e) =~= Map::<Seq<char>, Seq<char>>::empty());
    assert(query_map(s1) =~= (match b.since {
        Some(t) => Map::<Seq<char>, Seq<char>>::empty().insert("since"@, spec_udigits(t as nat)),
        None => Map::<Seq<char>, Seq<char>>::empty(),
    })) by {
        if b.since is Some {
            assert(s1.drop_last() =~= e);
            assert(query_map(e) =~= Map::<Seq<char>, Seq<char>>::empty());
        }
    }
}

/// One of the account's own trades, read correctly from a response
/// value.
pub open spec fn own_trade_matches(v: SpecJson, t: OwnTrade) -> bool {
    &&& spec_decimal_field(v, "base"@) == Some(t.base)
    &&& spec_decimal_field(v, "counter"@) == Some(t.counter)
    &&& spec_decimal_field(v, "fee_base"@) == Some(t.fee_base)
    &&& crate::json::spec_bool_field(v, "is_buy"@) == Some(t.is_buy)
    &&& spec_string_field(v, "order_id"@) == Some(t.order_id@)
    &&& spec_pair_field(v, "pair"@) == Some(t.pair)
    &&& spec_decimal_field(v, "price"@) == Some(t.price)
    &&& spec_u64_field(v, "timestamp"@) == Some(t.timestamp)
    &&& spec_limit_type_field(v, "type"@) == Some(t.order_type)
    &&& spec_decimal_field(v, "volume"@) == Some(t.volume)
}

/// Every field of an own trade is present and well-formed.
pub open spec fn own_trade_shape_ok(v: SpecJson) -> bool {
    &&& spec_decimal_field(v, "base"@) is Some
    &&& spec_decimal_field(v, "counter"@) is Some
    &&& spec_decimal_field(v, "fee_base"@) is Some
    &&& crate::json::spec_bool_field(v, "is_buy"@) is Some
    &&& spec_string_field(v, "order_id"@) is Some
    &&& spec_pair_field(v, "pair"@) is Some
    &&& spec_decimal_field(v, "price"@) is Some
    &&& spec_u64_field(v, "timestamp"@) is Some
    &&& spec_limit_type_field(v, "type"@) is Some
    &&& spec_decimal_field(v, "volume"@) is Some
}

/// Every element of a list is a well-formed own trade.
pub open spec fn all_own_trades_shape_ok(items: Seq<SpecJson>) -> bool {
    forall|i: int| 0 <= i < items.len() ==> own_trade_shape_ok(#[trigger] items[i])
}

/// Each element read correctly, in order.
pub open spec fn own_trades_match(items: Seq<SpecJson>, ts: Seq<OwnTrade>) -> bool {
    ts.len() == items.len() && (forall|i: int|
        0 <= i < items.len() ==> own_trade_matches(#[trigger] items[i], ts[i]))
}

/// Reads one own trade from a response value.
pub fn own_trade_from_json(v: &Json) -> (r: Result<OwnTrade, LunoError>)
    ensures
        match r {
            Ok(t) => own_trade_matches(v@, t),
            Err(e) => e is Decode,
        },
        r is Ok <==> own_trade_shape_ok(v@),
{
    let base = v.get_decimal("base")?;
    let counter = v.get_decimal("counter")?;
    let fee_base = v.get_decimal("fee_base")?;
    let is_buy = v.get_bool("is_buy")?;
    let order_id = v.get_string("order_id")?;
    let pair = crate::orders::pair_field(v, "pair")?;
    let price = v.get_decimal("price")?;
    let timestamp = v.get_u64("timestamp")?;
    let type_text = v.get_string("type")?;
    let order_type = match LimitOrderType::parse(type_text.as_str()) {
        Some(t) => t,
        None => {
            return Err(LunoError::Decode("not an order side: type".to_owned()));
        },
    };
    let volume = v.get_decimal("volume")?;
    Ok(
        OwnTrade {
            base,
            counter,
            fee_base,
            is_buy,
            order_id,
            pair,
            price,
            timestamp,
            order_type,
            volume,
        },
    )
}

/// Parses the body of an own-trades response: the trades under the
/// `trades` key, or the empty sequence when the key is absent.
pub fn parse_list_own_trades_response(status: u16, body: &str) -> (r: Result<
    Vec<OwnTrade>,
    LunoError,
>)
    ensures
        match r {
            Ok(ts) => status_ok(status) && (match spec_parse_json(body@) {
                Some(v) => match jget(v, "trades"@) {
                    None => ts@.len() == 0,
                    Some(SpecJson::Arr(items)) => own_trades_match(items, ts@),
                    Some(_) => false,
                },
                None => false,
            }),
            Err(e) => !(e is Config || e is Transport),
        },
        r is Ok <==> status_ok(status) && (match spec_parse_json(body@) {
            Some(v) => match jget(v, "trades"@) {
                None => true,
                Some(SpecJson::Arr(items)) => all_own_trades_shape_ok(items),
                Some(_) => false,
            },
            None => false,
        }),
{
    let v = crate::json::response_value(status, body)?;
    match v.get("trades") {
        None => Ok(Vec::new()),
        Some(Json::Arr(items)) => {
            let ghost itemsv = jget(v@, "trades"@).unwrap()->Arr_0;
            proof {
                assert(forall|q: int|
                    0 <= q < itemsv.len() ==> #[trigger] itemsv[q] == jview(items@[q]));
            }
            let n = items.len();
            let mut out: Vec<OwnTrade> = Vec::new();
            let mut i: usize = 0;
            while i < n
                invariant
                    n == items@.len(),
                    i <= n,
                    itemsv.len() == n,
                    jget(v@, "trades"@) == Some(SpecJson::Arr(itemsv)),
                    forall|q: int|
                        0 <= q < itemsv.len() ==> #[trigger] itemsv[q] == jview(items@[q]),
                    spec_parse_json(body@) == Some(v@),
                    status_ok(status),
                    out@.len() == i,
                    forall|q: int| 0 <= q < i ==> own_trade_matches(itemsv[q], #[trigger] out@[q]),
                    forall|q: int| 0 <= q < i ==> own_trade_shape_ok(#[trigger] itemsv[q]),
                decreases n - i,
            {
                proof {
                    assert(itemsv[i as int] == jview(items@[i as int]));
                }
                let t = match own_trade_from_json(&items[i]) {
                    Ok(t) => t,
                    Err(e) => {
                        proof {
                            assert(!own_trade_shape_ok(itemsv[i as int]));
                            assert(!all_own_trades_shape_ok(itemsv));
                        }
                        return Err(e);
                    },
                };
                out.push(t);
                i += 1;
            }
            proof {
                assert(own_trades_match(itemsv, out@));
                assert(all_own_trades_shape_ok(itemsv));
            }
            Ok(out)
        },
        Some(other) => {
            proof {
                assert(!(jview(*other) is Arr)) by {
                    match other {
                        Json::Null => {},
                        Json::Bool(_) => {},
                        Json::Num(_) => {},
                        Json::Str(_) => {},
                        Json::Arr(_) => {
                            assert(false);
                        },
                        Json::Obj(_) => {},
                    }
                }
            }
            Err(LunoError::Decode("trades is not an array".to_owned()))
        },
    }
}

/// The fee information read correctly from a response value.
pub open spec fn fee_info_matches(v: SpecJson, f: FeeInfo) -> bool {
    &&& spec_decimal_field(v, "maker_fee"@) == Some(f.maker_fee)
    &&& spec_decimal_field(v, "taker_fee"@) == Some(f.taker_fee)
    &&& spec_decimal_field(v, "thirty_day_volume"@) == Some(f.thirty_day_volume)
}

/// Every field of the fee information is present and well-formed.
pub open spec fn fee_info_shape_ok(v: SpecJson) -> bool {
    &&& spec_decimal_field(v, "maker_fee"@) is Some
    &&& spec_decimal_field(v, "taker_fee"@) is Some
    &&& spec_decimal_field(v, "thirty_day_volume"@) is Some
}

/// Parses the body of a fee-information response.
pub fn parse_fee_info_response(status: u16, body: &str) -> (r: Result<FeeInfo, LunoError>)
    ensures
        match r {
            Ok(f) => status_ok(status) && (match spec_parse_json(body@) {
                Some(v) => fee_info_matches(v, f),
                None => false,
            }),
            Err(e) => !(e is Config || e is Transport),
        },
        r is Ok <==> status_ok(status) && (match spec_parse_json(body@) {
            Some(v) => fee_info_shape_ok(v),
            None => false,
        }),
{
    let v = crate::json::response_value(status, body)?;
    let maker_fee = v.get_decimal("maker_fee")?;
    let taker_fee = v.get_decimal("taker_fee")?;
    let thirty_day_volume = v.get_decimal("thirty_day_volume")?;
    Ok(FeeInfo { maker_fee, taker_fee, thirty_day_volume })
}

} // verus!
