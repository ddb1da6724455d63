//! Quotes: time-bounded, price-locked offers to exchange a fixed
//! amount, exercised or discarded entirely server-side.

use vstd::prelude::*;

use crate::decimal::Decimal;
use crate::error::LunoError;
use crate::http::{HttpRequest, Method};
use crate::json::{
    spec_bool_field, spec_decimal_field, spec_parse_json, spec_string_field, spec_u64_field,
    status_ok, SpecJson,
};
use crate::market::TradingPair;
use crate::orders::{spec_market_type_field, MarketOrderType};
use crate::urls::{qview, url_text, Url};

verus! {

/// A quote as the exchange reports it; the client only relays what the
/// last response said.
#[derive(Clone, Debug)]
pub struct Quote {
    pub base_amount: Decimal,
    pub counter_amount: Decimal,
    pub created_at: u64,
    pub discarded: bool,
    pub exercised: bool,
    pub expires_at: u64,
    pub id: String,
    pub pair: TradingPair,
    pub order_type: MarketOrderType,
}

/// A builder for creating one quote: the mandatory parameters are
/// seeded at construction, optional accounts may follow, and the
/// terminal request carries exactly what was set.
#[derive(Debug)]
pub struct CreateQuoteBuilder {
    pub url: Url,
    pub params: Vec<(String, String)>,
}

impl CreateQuoteBuilder {
    /// Records the account to debit; everything already set is kept.
    pub fn with_base_account(self, id: &str) -> (r: CreateQuoteBuilder)
        ensures
            r.url == self.url,
            qview(r.params@) == qview(self.params@).push(("base_account_id"@, id@)),
    {
        let mut params = self.params;
        let ghost before = params@;
        params.push(("base_account_id".to_owned(), id.to_owned()));
        proof {
            assert(qview(params@) =~= qview(before).push(("base_account_id"@, id@)));
        }
        CreateQuoteBuilder { url: self.url, params }
    }

    /// Records the account to credit; everything already set is kept.
    pub fn with_counter_account(self, id: &str) -> (r: CreateQuoteBuilder)
        ensures
            r.url == self.url,
            qview(r.params@) == qview(self.params@).push(("counter_account_id"@, id@)),
    {
        let mut params = self.params;
        let ghost before = params@;
        params.push(("counter_account_id".to_owned(), id.to_owned()));
        proof {
            assert(qview(params@) =~= qview(before).push(("counter_account_id"@, id@)));
        }
        CreateQuoteBuilder { url: self.url, params }
    }

    /// The one POST of the creation.
    pub fn post_request(self) -> (r: HttpRequest)
        ensures
            r.method == Method::Post,
            r.url@ == url_text(self.url),
            r.form@ == self.params@,
    {
        let text = self.url.to_text();
        HttpRequest { method: Method::Post, url: text, form: self.params }
    }
}

/// A quote read correctly from a response value.
pub open spec fn quote_matches(v: SpecJson, q: Quote) -> bool {
    &&& spec_decimal_field(v, "base_amount"@) == Some(q.base_amount)
    &&& spec_decimal_field(v, "counter_amount"@) == Some(q.counter_amount)
    &&& spec_u64_field(v, "created_at"@) == Some(q.created_at)
    &&& spec_bool_field(v, "discarded"@) == Some(q.discarded)
    &&& spec_bool_field(v, "exercised"@) == Some(q.exercised)
    &&& spec_u64_field(v, "expires_at"@) == Some(q.expires_at)
    &&& spec_string_field(v, "id"@) == Some(q.id@)
    &&& crate::orders::spec_pair_field(v, "pair"@) == Some(q.pair)
    &&& spec_market_type_field(v, "type"@) == Some(q.order_type)
}

/// Every field of a quote is present and well-formed.
pub open spec fn quote_shape_ok(v: SpecJson) -> bool {
    &&& spec_decimal_field(v, "base_amount"@) is Some
    &&& spec_decimal_field(v, "counter_amount"@) is Some
    &&& spec_u64_field(v, "created_at"@) is Some
    &&& spec_bool_field(v, "discarded"@) is Some
    &&& spec_bool_field(v, "exercised"@) is Some
    &&& spec_u64_field(v, "expires_at"@) is Some
    &&& spec_string_field(v, "id"@) is Some
    &&& crate::orders::spec_pair_field(v, "pair"@) is Some
    &&& spec_market_type_field(v, "type"@) is Some
}

/// Parses the body of any quote response: creation, lookup, exercise
/// and discard all answer with the quote's current state.
pub fn parse_quote_response(status: u16, body: &str) -> (r: Result<Quote, LunoError>)
    ensures
        match r {
            Ok(q) => status_ok(status) && (match spec_parse_json(body@) {
                Some(v) => quote_matches(v, q),
                None => false,
            }),
            Err(e) => !(e is Config || e is Transport),
        },
        r is Ok <==> status_ok(status) && (match spec_parse_json(body@) {
            Some(v) => quote_shape_ok(v),
            None => false,
        }),
{
    let v = crate::json::response_value(status, body)?;
    let base_amount = v.get_decimal("base_amount")?;
    let counter_amount = v.get_decimal("counter_amount")?;
    let created_at = v.get_u64("created_at")?;
    let discarded = v.get_bool("discarded")?;
    let exercised = v.get_bool("exercised")?;
    let expires_at = v.get_u64("expires_at")?;
    let id = v.get_string("id")?;
    let pair = crate::orders::pair_field(&v, "pair")?;
    let type_text = v.get_string("type")?;
    let order_type = match MarketOrderType::parse(type_text.as_str()) {
        Some(t) => t,
        None => {
            return Err(LunoError::Decode("not a market order side: type".to_owned()));
        },
    };
    Ok(
        Quote {
            base_amount,
            counter_amount,
            created_at,
            discarded,
            exercised,
            expires_at,
            id,
            pair,
            order_type,
        },
    )
}

} // verus!
