//! The client facade: owns the credentials and the URL builder, and
//! turns each operation into exactly one request value.
//!
//! The caller sends each request over its own transport, attaching HTTP
//! Basic authentication from `credentials` (the key as the user name,
//! the secret as the password) on every call; nothing is cached between
//! calls. The matching `parse_*_response` function of each operation's
//! module maps the status and body back into typed values.

use vstd::prelude::*;

use crate::accounts::ListBalancesBuilder;
use crate::credentials::Credentials;
use crate::decimal::{spec_format, Decimal};
use crate::error::LunoError;
use crate::http::{HttpRequest, Method};
use crate::lightning::{LightningReceiveBuilder, LightningSendBuilder};
use crate::market::{currency_code, pair_code, Currency, TradingPair};
use crate::orders::{
    market_order_params, market_type_code, limit_type_code, LimitOrderType, ListOrdersBuilder,
    MarketOrderType, PostLimitOrderBuilder, PostMarketOrderBuilder,
};
use crate::quotes::CreateQuoteBuilder;
use crate::text::spec_idigits;
use crate::trades::ListOwnTradesBuilder;
use crate::urls::{enc_str, qview, render_query, url_text, valid_base, Url, UrlMaker};

verus! {

/// The fixed production origin of the API.
pub const API_BASE: &'static str = "https://api.luno.com/api/1/";

/// The top level client: read-only after construction, so calls may be
/// issued concurrently without any locking here.
#[derive(Debug)]
pub struct LunoClient {
    pub credentials: Credentials,
    pub url_maker: UrlMaker,
}

impl LunoClient {
    /// A client against the production origin. The origin is a checked
    /// constant, so construction cannot fail.
    pub fn new(key: &str, secret: &str) -> (r: LunoClient)
        ensures
            r.credentials.key@ == key@,
            r.credentials.secret@ == secret@,
            r.url_maker.api_base@ == API_BASE@,
    {
        proof {
            reveal_strlit("https://api.luno.com/api/1/");
            reveal_strlit("https://");
            assert(API_BASE@.take(8) =~= "https://"@);
            assert(API_BASE@.last() == '/');
        }
        let credentials = Credentials::new(key, secret);
        let maker = UrlMaker::new(API_BASE);
        LunoClient { credentials, url_maker: maker.unwrap() }
    }

    /// A client against a caller-chosen origin, for testing against a
    /// mock endpoint; a malformed origin is refused here, never at
    /// call time.
    pub fn with_base_url(api_base: &str, key: &str, secret: &str) -> (r: Result<
        LunoClient,
        LunoError,
    >)
        ensures
            match r {
                Ok(c) => valid_base(api_base@) && c.url_maker.api_base@ == api_base@
                    && c.credentials.key@ == key@ && c.credentials.secret@ == secret@,
                Err(e) => e is Config && !valid_base(api_base@),
            },
    {
        match UrlMaker::new(api_base) {
            Some(maker) => Ok(
                LunoClient { credentials: Credentials::new(key, secret), url_maker: maker },
            ),
            None => Err(LunoError::Config("malformed API origin".to_owned())),
        }
    }

    /// The GET request for the latest ticker of one pair.
    pub fn get_ticker_request(&self, pair: TradingPair) -> (r: HttpRequest)
        ensures
            r.method == Method::Get,
            r.form@.len() == 0,
            r.url@ == self.url_maker.api_base@ + "ticker"@ + render_query(
                seq![("pair"@, pair_code(pair))],
            ),
    {
        let r = get_request(self.url_maker.ticker(pair));
        proof {
            assert(r.url@ =~= self.url_maker.api_base@ + "ticker"@ + render_query(seq![("pair"@, pair_code(pair))]));
        }
        r
    }

    /// The GET request for the tickers of all active markets.
    pub fn list_tickers_request(&self) -> (r: HttpRequest)
        ensures
            r.method == Method::Get,
            r.form@.len() == 0,
            r.url@ == self.url_maker.api_base@ + "tickers"@,
    {
        let r = get_request(self.url_maker.tickers());
        proof {
            assert(r.url@ =~= self.url_maker.api_base@ + "tickers"@);
        }
        r
    }

    /// The GET request for the aggregated top of the order book.
    pub fn get_orderbook_top_request(&self, pair: TradingPair) -> (r: HttpRequest)
        ensures
            r.method == Method::Get,
            r.form@.len() == 0,
            r.url@ == self.url_maker.api_base@ + "orderbook_top"@ + render_query(
                seq![("pair"@, pair_code(pair))],
            ),
    {
        let r = get_request(self.url_maker.orderbook_top(pair));
        proof {
            assert(r.url@ =~= self.url_maker.api_base@ + "orderbook_top"@ + render_query(seq![("pair"@, pair_code(pair))]));
        }
        r
    }

    /// The GET request for the full order book.
    pub fn get_orderbook_request(&self, pair: TradingPair) -> (r: HttpRequest)
        ensures
            r.method == Method::Get,
            r.form@.len() == 0,
            r.url@ == self.url_maker.api_base@ + "orderbook"@ + render_query(
                seq![("pair"@, pair_code(pair))],
            ),
    {
        let r = get_request(self.url_maker.orderbook(pair));
        proof {
            assert(r.url@ =~= self.url_maker.api_base@ + "orderbook"@ + render_query(seq![("pair"@, pair_code(pair))]));
        }
        r
    }

    /// The GET request for the recent public trades of one pair.
    pub fn list_trades_request(&self, pair: TradingPair) -> (r: HttpRequest)
        ensures
            r.method == Method::Get,
            r.form@.len() == 0,
            r.url@ == self.url_maker.api_base@ + "trades"@ + render_query(
                seq![("pair"@, pair_code(pair))],
            ),
    {
        let r = get_request(self.url_maker.trades(pair));
        proof {
            assert(r.url@ =~= self.url_maker.api_base@ + "trades"@ + render_query(seq![("pair"@, pair_code(pair))]));
        }
        r
    }

    /// The POST request that creates an account for a currency.
    pub fn create_account_request(&self, currency: Currency, name: &str) -> (r: HttpRequest)
        ensures
            r.method == Method::Post,
            r.url@ == self.url_maker.api_base@ + "accounts"@,
            qview(r.form@) == seq![("currency"@, currency_code(currency)), ("name"@, name@)],
    {
        let url = self.url_maker.accounts();
        let text = url.to_text();
        let mut form: Vec<(String, String)> = Vec::new();
        form.push(("currency".to_owned(), currency.as_str().to_owned()));
        form.push(("name".to_owned(), name.to_owned()));
        proof {
            assert(text@ =~= self.url_maker.api_base@ + "accounts"@);
            assert(qview(form@) =~= seq![
                ("currency"@, currency_code(currency)),
                ("name"@, name@),
            ]);
        }
        HttpRequest { method: Method::Post, url: text, form }
    }

    /// The PUT request that renames an account.
    pub fn update_account_name_request(&self, account_id: &str, name: &str) -> (r: HttpRequest)
        ensures
            r.method == Method::Put,
            r.form@.len() == 0,
            r.url@ == self.url_maker.api_base@ + "accounts"@ + seq!['/'] + enc_str(account_id@)
                + render_query(seq![("name"@, name@)]),
    {
        let url = self.url_maker.account_name(account_id, name);
        let text = url.to_text();
        HttpRequest { method: Method::Put, url: text, form: Vec::new() }
    }

    /// The balance query, refinable by asset before execution.
    pub fn balances(&self) -> (r: ListBalancesBuilder)
        ensures
            r.assets is None,
            r.url.base@ == self.url_maker.api_base@ + "balance"@,
            r.url.query@.len() == 0,
    {
        ListBalancesBuilder::new(self.url_maker.balance())
    }

    /// The GET request for a numbered transaction range.
    pub fn list_transactions_request(&self, account_id: &str, min_row: i64, max_row: i64) -> (r:
        HttpRequest)
        ensures
            r.method == Method::Get,
            r.form@.len() == 0,
            r.url@ == self.url_maker.api_base@ + "accounts"@ + seq!['/'] + enc_str(account_id@)
                + seq!['/'] + enc_str("transactions"@) + render_query(
                seq![
                    ("min_row"@, spec_idigits(min_row as int)),
                    ("max_row"@, spec_idigits(max_row as int)),
                ],
            ),
    {
        let r = get_request(self.url_maker.transactions(account_id, min_row, max_row));
        proof {
            assert(r.url@ =~= self.url_maker.api_base@ + "accounts"@ + seq!['/'] + enc_str(account_id@) + seq!['/'] + enc_str("transactions"@) + render_query(seq![("min_row"@, spec_idigits(min_row as int)), ("max_row"@, spec_idigits(max_row as int))]));
        }
        r
    }

    /// The GET request for the pending transactions of an account.
    pub fn list_pending_transactions_request(&self, account_id: &str) -> (r: HttpRequest)
        ensures
            r.method == Method::Get,
            r.form@.len() == 0,
            r.url@ == self.url_maker.api_base@ + "accounts"@ + seq!['/'] + enc_str(account_id@)
                + seq!['/'] + enc_str("pending"@),
    {
        let r = get_request(self.url_maker.pending_transactions(account_id));
        proof {
            assert(r.url@ =~= self.url_maker.api_base@ + "accounts"@ + seq!['/'] + enc_str(
                account_id@,
            ) + seq!['/'] + enc_str("pending"@));
        }
        r
    }

    /// The GET request for the beneficiary list.
    pub fn list_beneficiaries_request(&self) -> (r: HttpRequest)
        ensures
            r.method == Method::Get,
            r.form@.len() == 0,
            r.url@ == self.url_maker.api_base@ + "beneficiaries"@,
    {
        let r = get_request(self.url_maker.beneficiaries());
        proof {
            assert(r.url@ =~= self.url_maker.api_base@ + "beneficiaries"@);
        }
        r
    }

    /// The order-list query, refinable by state, pair, creation time
    /// and row limit before execution.
    pub fn orders(&self) -> (r: ListOrdersBuilder)
        ensures
            r.state is None,
            r.pair is None,
            r.created_before is None,
            r.limit is None,
            r.url.base@ == self.url_maker.api_base@ + "listorders"@,
            r.url.query@.len() == 0,
    {
        ListOrdersBuilder::new(self.url_maker.list_orders())
    }

    /// A limit-order placement, seeded with the pair, the side, the
    /// volume and the price, each rendered exactly.
    pub fn limit_order(
        &self,
        pair: TradingPair,
        order_type: LimitOrderType,
        volume: Decimal,
        price: Decimal,
    ) -> (r: PostLimitOrderBuilder)
        ensures
            r.url.base@ == self.url_maker.api_base@ + "postorder"@,
            r.url.query@.len() == 0,
            qview(r.params@) == seq![
                ("pair"@, pair_code(pair)),
                ("type"@, limit_type_code(order_type)),
                ("volume"@, spec_format(volume)),
                ("price"@, spec_format(price)),
            ],
    {
        let url = self.url_maker.post_order();
        let mut params: Vec<(String, String)> = Vec::new();
        params.push(("pair".to_owned(), pair.as_str().to_owned()));
        params.push(("type".to_owned(), order_type.as_str().to_owned()));
        params.push(("volume".to_owned(), volume.format()));
        params.push(("price".to_owned(), price.format()));
        proof {
            assert(qview(params@) =~= seq![
                ("pair"@, pair_code(pair)),
                ("type"@, limit_type_code(order_type)),
                ("volume"@, spec_format(volume)),
                ("price"@, spec_format(price)),
            ]);
        }
        PostLimitOrderBuilder { url, params }
    }

    /// A market-order placement, seeded with the pair, the side and
    /// the volume under the parameter name the side demands: a BUY
    /// spends counter currency, a SELL sells base currency.
    pub fn market_order(
        &self,
        pair: TradingPair,
        order_type: MarketOrderType,
        volume: Decimal,
    ) -> (r: PostMarketOrderBuilder)
        ensures
            r.url.base@ == self.url_maker.api_base@ + "marketorder"@,
            r.url.query@.len() == 0,
            qview(r.params@) == market_order_params(pair, order_type, volume),
    {
        let url = self.url_maker.market_order();
        let mut params: Vec<(String, String)> = Vec::new();
        params.push(("pair".to_owned(), pair.as_str().to_owned()));
        params.push(("type".to_owned(), order_type.as_str().to_owned()));
        match order_type {
            MarketOrderType::BUY => {
                params.push(("counter_volume".to_owned(), volume.format()));
            },
            MarketOrderType::SELL => {
                params.push(("base_volume".to_owned(), volume.format()));
            },
        }
        proof {
            assert(qview(params@) =~= market_order_params(pair, order_type, volume));
        }
        PostMarketOrderBuilder { url, params }
    }

    /// The POST request that cancels an order.
    pub fn cancel_order_request(&self, order_id: &str) -> (r: HttpRequest)
        ensures
            r.method == Method::Post,
            r.url@ == self.url_maker.api_base@ + "stoporder"@,
            qview(r.form@) == seq![("order_id"@, order_id@)],
    {
        let url = self.url_maker.stop_order();
        let text = url.to_text();
        let mut form: Vec<(String, String)> = Vec::new();
        form.push(("order_id".to_owned(), order_id.to_owned()));
        proof {
            assert(text@ =~= self.url_maker.api_base@ + "stoporder"@);
            assert(qview(form@) =~= seq![("order_id"@, order_id@)]);
        }
        HttpRequest { method: Method::Post, url: text, form }
    }

    /// The GET request for one order.
    pub fn get_order_request(&self, order_id: &str) -> (r: HttpRequest)
        ensures
            r.method == Method::Get,
            r.form@.len() == 0,
            r.url@ == self.url_maker.api_base@ + "orders"@ + seq!['/'] + enc_str(order_id@),
    {
        let r = get_request(self.url_maker.orders(order_id));
        proof {
            assert(r.url@ =~= self.url_maker.api_base@ + "orders"@ + seq!['/'] + enc_str(
                order_id@,
            ));
        }
        r
    }

    /// The own-trades query for one pair, refinable before execution.
    pub fn list_own_trades(&self, pair: TradingPair) -> (r: ListOwnTradesBuilder)
        ensures
            r.since is None,
            r.limit is None,
            r.before is None,
            r.after_seq is None,
            r.before_seq is None,
            r.sort_desc is None,
            r.url.base@ == self.url_maker.api_base@ + "listtrades"@,
            qview(r.url.query@) == seq![("pair"@, pair_code(pair))],
    {
        ListOwnTradesBuilder::new(self.url_maker.list_trades(pair))
    }

    /// The GET request for the fee information of one pair.
    pub fn get_fee_info_request(&self, pair: TradingPair) -> (r: HttpRequest)
        ensures
            r.method == Method::Get,
            r.form@.len() == 0,
            r.url@ == self.url_maker.api_base@ + "fee_info"@ + render_query(
                seq![("pair"@, pair_code(pair))],
            ),
    {
        let r = get_request(self.url_maker.fee_info(pair));
        proof {
            assert(r.url@ =~= self.url_maker.api_base@ + "fee_info"@ + render_query(seq![("pair"@, pair_code(pair))]));
        }
        r
    }

    /// A quote creation, seeded with the side, the exact base amount
    /// and the pair.
    pub fn quote(
        &self,
        order_type: MarketOrderType,
        base_amount: Decimal,
        pair: TradingPair,
    ) -> (r: CreateQuoteBuilder)
        ensures
            r.url.base@ == self.url_maker.api_base@ + "quotes"@,
            r.url.query@.len() == 0,
            qview(r.params@) == seq![
                ("type"@, market_type_code(order_type)),
                ("base_amount"@, spec_format(base_amount)),
                ("pair"@, pair_code(pair)),
            ],
    {
        let url = self.url_maker.quotes();
        let mut params: Vec<(String, String)> = Vec::new();
        params.push(("type".to_owned(), order_type.as_str().to_owned()));
        params.push(("base_amount".to_owned(), base_amount.format()));
        params.push(("pair".to_owned(), pair.as_str().to_owned()));
        proof {
            assert(qview(params@) =~= seq![
                ("type"@, market_type_code(order_type)),
                ("base_amount"@, spec_format(base_amount)),
                ("pair"@, pair_code(pair)),
            ]);
        }
        CreateQuoteBuilder { url, params }
    }

    /// The GET request for the latest state of one quote.
    pub fn get_quote_request(&self, id: &str) -> (r: HttpRequest)
        ensures
            r.method == Method::Get,
            r.form@.len() == 0,
            r.url@ == self.url_maker.api_base@ + "quotes"@ + seq!['/'] + enc_str(id@),
    {
        let r = get_request(self.url_maker.quote_action(id));
        proof {
            assert(r.url@ =~= self.url_maker.api_base@ + "quotes"@ + seq!['/'] + enc_str(id@));
        }
        r
    }

    /// The PUT request that exercises one quote.
    pub fn exercise_quote_request(&self, id: &str) -> (r: HttpRequest)
        ensures
            r.method == Method::Put,
            r.form@.len() == 0,
            r.url@ == self.url_maker.api_base@ + "quotes"@ + seq!['/'] + enc_str(id@),
    {
        let url = self.url_maker.quote_action(id);
        let text = url.to_text();
        proof {
            assert(text@ =~= self.url_maker.api_base@ + "quotes"@ + seq!['/'] + enc_str(id@));
        }
        HttpRequest { method: Method::Put, url: text, form: Vec::new() }
    }

    /// The DELETE request that discards one quote.
    pub fn discard_quote_request(&self, id: &str) -> (r: HttpRequest)
        ensures
            r.method == Method::Delete,
            r.form@.len() == 0,
            r.url@ == self.url_maker.api_base@ + "quotes"@ + seq!['/'] + enc_str(id@),
    {
        let url = self.url_maker.quote_action(id);
        let text = url.to_text();
        proof {
            assert(text@ =~= self.url_maker.api_base@ + "quotes"@ + seq!['/'] + enc_str(id@));
        }
        HttpRequest { method: Method::Delete, url: text, form: Vec::new() }
    }

    /// A lightning payment to the given invoice, refinable before
    /// execution.
    pub fn lightning_send(&self, payment_request: &str) -> (r: LightningSendBuilder)
        ensures
            r.url.base@ == self.url_maker.api_base@ + "lightning/send"@,
            r.url.query@.len() == 0,
            qview(r.params@) == seq![("payment_request"@, payment_request@)],
    {
        let url = self.url_maker.lightning_send();
        let mut params: Vec<(String, String)> = Vec::new();
        params.push(("payment_request".to_owned(), payment_request.to_owned()));
        proof {
            assert(qview(params@) =~= seq![("payment_request"@, payment_request@)]);
        }
        LightningSendBuilder::new(url, params)
    }

    /// A lightning invoice for the given amount, refinable before
    /// execution.
    pub fn lightning_receive(&self, amount: Decimal) -> (r: LightningReceiveBuilder)
        ensures
            r.url.base@ == self.url_maker.api_base@ + "lightning/receive"@,
            r.url.query@.len() == 0,
            qview(r.params@) == seq![("amount"@, spec_format(amount))],
    {
        let url = self.url_maker.lightning_receive();
        let mut params: Vec<(String, String)> = Vec::new();
        params.push(("amount".to_owned(), amount.format()));
        proof {
            assert(qview(params@) =~= seq![("amount"@, spec_format(amount))]);
        }
        LightningReceiveBuilder::new(url, params)
    }
}

/// A bare GET of an address.
fn get_request(url: Url) -> (r: HttpRequest)
    ensures
        r.method == Method::Get,
        r.form@.len() == 0,
        r.url@ == url_text(url),
{
    let text = url.to_text();
    HttpRequest { method: Method::Get, url: text, form: Vec::new() }
}

} // verus!
