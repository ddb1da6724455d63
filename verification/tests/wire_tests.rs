use luno::{Currency, Decimal, LunoClient, Method, OrderState, StopDirection, TradingPair};
use luno::orders::{LimitOrderType, MarketOrderType};

fn client() -> LunoClient {
    LunoClient::new("TEST_KEY", "TEST_SECRET")
}

fn pairs(form: &[(String, String)]) -> Vec<(&str, &str)> {
    form.iter().map(|p| (p.0.as_str(), p.1.as_str())).collect()
}

#[test]
fn currency_round_trip() {
    let all = [
        Currency::AUD, Currency::BCH, Currency::BTC, Currency::ETH, Currency::EUR,
        Currency::GBP, Currency::IDR, Currency::LTC, Currency::MYR, Currency::NGN,
        Currency::UGX, Currency::XBT, Currency::XRP, Currency::ZAR, Currency::ZMW,
    ];
    for c in all {
        assert_eq!(Currency::parse(c.as_str()), Some(c));
    }
    assert_eq!(Currency::parse("DOGE"), None);
    assert_eq!(Currency::parse("btc"), None);
    assert_eq!(Currency::parse(""), None);
}

#[test]
fn trading_pair_round_trip() {
    let all = [
        TradingPair::BCHXBT, TradingPair::ETHAUD, TradingPair::ETHEUR, TradingPair::ETHGBP,
        TradingPair::ETHIDR, TradingPair::ETHMYR, TradingPair::ETHNGN, TradingPair::ETHXBT,
        TradingPair::ETHZAR, TradingPair::LTCMYR, TradingPair::LTCXBT, TradingPair::LTCNGN,
        TradingPair::LTCZAR, TradingPair::XBTAUD, TradingPair::XBTEUR, TradingPair::XBTGBP,
        TradingPair::XBTIDR, TradingPair::XBTMYR, TradingPair::XBTNGN, TradingPair::XBTSGD,
        TradingPair::XBTUGX, TradingPair::XBTZAR, TradingPair::XBTZMW, TradingPair::XRPMYR,
        TradingPair::XRPNGN, TradingPair::XRPXBT, TradingPair::XRPZAR,
    ];
    for p in all {
        assert_eq!(TradingPair::parse(p.as_str()), Some(p));
    }
    assert_eq!(TradingPair::parse("XBTUSD"), None);
    assert_eq!(TradingPair::parse("xbtzar"), None);
}

#[test]
fn small_enums_round_trip() {
    assert_eq!(LimitOrderType::parse("ASK"), Some(LimitOrderType::ASK));
    assert_eq!(LimitOrderType::parse("BID"), Some(LimitOrderType::BID));
    assert_eq!(LimitOrderType::parse("ask"), None);
    assert_eq!(MarketOrderType::parse("BUY"), Some(MarketOrderType::BUY));
    assert_eq!(MarketOrderType::parse("SELL"), Some(MarketOrderType::SELL));
    assert_eq!(MarketOrderType::parse("HOLD"), None);
    assert_eq!(OrderState::parse("COMPLETE"), Some(OrderState::COMPLETE));
    assert_eq!(OrderState::parse("PENDING"), Some(OrderState::PENDING));
    assert_eq!(OrderState::parse("DONE"), None);
    assert_eq!(StopDirection::parse("BELOW"), Some(StopDirection::BELOW));
    assert_eq!(StopDirection::parse("ABOVE"), Some(StopDirection::ABOVE));
    assert_eq!(
        StopDirection::parse("RELATIVE_LAST_TRADE"),
        Some(StopDirection::RELATIVE_LAST_TRADE)
    );
    assert_eq!(StopDirection::parse("SIDEWAYS"), None);
}

#[test]
fn ticker_url_is_deterministic() {
    let c = client();
    let r1 = c.get_ticker_request(TradingPair::XBTZAR);
    let r2 = c.get_ticker_request(TradingPair::XBTZAR);
    assert_eq!(r1.url, "https://api.luno.com/api/1/ticker?pair=XBTZAR");
    assert_eq!(r1.url, r2.url);
    assert_eq!(r1.method, Method::Get);
    assert!(r1.form.is_empty());
}

#[test]
fn simple_get_urls() {
    let c = client();
    assert_eq!(c.list_tickers_request().url, "https://api.luno.com/api/1/tickers");
    assert_eq!(
        c.get_orderbook_top_request(TradingPair::ETHZAR).url,
        "https://api.luno.com/api/1/orderbook_top?pair=ETHZAR"
    );
    assert_eq!(
        c.get_orderbook_request(TradingPair::ETHZAR).url,
        "https://api.luno.com/api/1/orderbook?pair=ETHZAR"
    );
    assert_eq!(
        c.list_trades_request(TradingPair::XBTEUR).url,
        "https://api.luno.com/api/1/trades?pair=XBTEUR"
    );
    assert_eq!(
        c.get_fee_info_request(TradingPair::XBTZAR).url,
        "https://api.luno.com/api/1/fee_info?pair=XBTZAR"
    );
    assert_eq!(
        c.list_beneficiaries_request().url,
        "https://api.luno.com/api/1/beneficiaries"
    );
}

#[test]
fn resource_urls_encode_identifiers() {
    let c = client();
    assert_eq!(
        c.get_order_request("BXMC2CJ7HNB88U4").url,
        "https://api.luno.com/api/1/orders/BXMC2CJ7HNB88U4"
    );
    assert_eq!(
        c.get_order_request("id with space/slash").url,
        "https://api.luno.com/api/1/orders/id%20with%20space%2Fslash"
    );
    assert_eq!(
        c.get_quote_request("q1").url,
        "https://api.luno.com/api/1/quotes/q1"
    );
    // Characters outside ASCII are written as the percent-encoded
    // bytes of their UTF-8 form.
    assert_eq!(
        c.get_order_request("id\u{00e9}\u{20ac}").url,
        "https://api.luno.com/api/1/orders/id%C3%A9%E2%82%AC"
    );
    assert_eq!(
        c.get_order_request("a+b&c=d").url,
        "https://api.luno.com/api/1/orders/a%2Bb%26c%3Dd"
    );
    let r = c.exercise_quote_request("q1");
    assert_eq!(r.method, Method::Put);
    let r = c.discard_quote_request("q1");
    assert_eq!(r.method, Method::Delete);
}

#[test]
fn transactions_url_takes_signed_rows() {
    let c = client();
    assert_eq!(
        c.list_transactions_request("acct1", -100, 0).url,
        "https://api.luno.com/api/1/accounts/acct1/transactions?min_row=-100&max_row=0"
    );
    assert_eq!(
        c.list_pending_transactions_request("acct1").url,
        "https://api.luno.com/api/1/accounts/acct1/pending"
    );
}

#[test]
fn account_requests() {
    let c = client();
    let r = c.create_account_request(Currency::XBT, "savings");
    assert_eq!(r.method, Method::Post);
    assert_eq!(r.url, "https://api.luno.com/api/1/accounts");
    assert_eq!(
        pairs(&r.form),
        vec![("currency", "XBT"), ("name", "savings")]
    );
    let r = c.update_account_name_request("a1", "new name");
    assert_eq!(r.method, Method::Put);
    assert_eq!(
        r.url,
        "https://api.luno.com/api/1/accounts/a1?name=new%20name"
    );
}

#[test]
fn list_orders_with_no_filters_has_no_query() {
    let c = client();
    let r = c.orders().list_request();
    assert_eq!(r.url, "https://api.luno.com/api/1/listorders");
    assert_eq!(r.method, Method::Get);
}

#[test]
fn list_orders_filters_add_one_parameter_each() {
    let c = client();
    let b = c.orders().filter_state(OrderState::COMPLETE);
    assert_eq!(
        b.clone().list_request().url,
        "https://api.luno.com/api/1/listorders?state=COMPLETE"
    );
    let b = b.filter_created_before(1390168800000);
    assert_eq!(
        b.list_request().url,
        "https://api.luno.com/api/1/listorders?state=COMPLETE&created_before=1390168800000"
    );
    let full = c
        .orders()
        .filter_state(OrderState::PENDING)
        .filter_pair(TradingPair::XBTZAR)
        .filter_created_before(7)
        .filter_limit(5);
    assert_eq!(
        full.list_request().url,
        "https://api.luno.com/api/1/listorders?state=PENDING&pair=XBTZAR&created_before=7&limit=5"
    );
}

#[test]
fn own_trades_builder_applies_set_filters_only() {
    let c = client();
    let b = c.list_own_trades(TradingPair::XBTZAR);
    assert_eq!(
        b.clone().list_request().url,
        "https://api.luno.com/api/1/listtrades?pair=XBTZAR"
    );
    let b = b.since(100).limit(5).before(900).after_seq(1).before_seq(9).sort_desc(true);
    assert_eq!(
        b.list_request().url,
        "https://api.luno.com/api/1/listtrades?pair=XBTZAR&since=100&limit=5&before=900&after_seq=1&before_seq=9&sort_desc=true"
    );
}

#[test]
fn balances_builder_joins_assets() {
    let c = client();
    assert_eq!(
        c.balances().list_request().url,
        "https://api.luno.com/api/1/balance"
    );
    let r = c
        .balances()
        .with_assets(vec![Currency::XBT, Currency::ZAR, Currency::ETH])
        .list_request();
    assert_eq!(
        r.url,
        "https://api.luno.com/api/1/balance?assets=XBT%2CZAR%2CETH"
    );
}

#[test]
fn market_order_buy_submits_counter_volume() {
    let c = client();
    let v = Decimal::parse("0.5").unwrap();
    let r = c
        .market_order(TradingPair::XBTZAR, MarketOrderType::BUY, v)
        .post_request();
    assert_eq!(r.method, Method::Post);
    assert_eq!(r.url, "https://api.luno.com/api/1/marketorder");
    let form = pairs(&r.form);
    assert_eq!(
        form,
        vec![("pair", "XBTZAR"), ("type", "BUY"), ("counter_volume", "0.5")]
    );
    assert!(!form.iter().any(|p| p.0 == "base_volume"));
}

#[test]
fn market_order_sell_submits_base_volume() {
    let c = client();
    let v = Decimal::parse("0.5").unwrap();
    let r = c
        .market_order(TradingPair::XBTZAR, MarketOrderType::SELL, v)
        .post_request();
    let form = pairs(&r.form);
    assert_eq!(
        form,
        vec![("pair", "XBTZAR"), ("type", "SELL"), ("base_volume", "0.5")]
    );
    assert!(!form.iter().any(|p| p.0 == "counter_volume"));
}

#[test]
fn limit_order_scenario_posts_all_form_fields() {
    let c = client();
    let volume = Decimal::parse("0.0005").unwrap();
    let price = Decimal::parse("211000").unwrap();
    let stop = Decimal::parse("210000").unwrap();
    let r = c
        .limit_order(TradingPair::XBTZAR, LimitOrderType::ASK, volume, price)
        .with_stop_price(stop)
        .with_stop_direction(StopDirection::RELATIVE_LAST_TRADE)
        .post_only()
        .post_request();
    assert_eq!(r.method, Method::Post);
    assert_eq!(r.url, "https://api.luno.com/api/1/postorder");
    assert_eq!(
        pairs(&r.form),
        vec![
            ("pair", "XBTZAR"),
            ("type", "ASK"),
            ("volume", "0.0005"),
            ("price", "211000"),
            ("stop_price", "210000"),
            ("stop_direction", "RELATIVE_LAST_TRADE"),
            ("post_only", "true"),
        ]
    );
}

#[test]
fn limit_order_accounts_are_recorded() {
    let c = client();
    let volume = Decimal::parse("1").unwrap();
    let price = Decimal::parse("2").unwrap();
    let r = c
        .limit_order(TradingPair::ETHZAR, LimitOrderType::BID, volume, price)
        .with_base_account("b1")
        .with_counter_account("c1")
        .post_request();
    let form = pairs(&r.form);
    assert!(form.contains(&("base_account_id", "b1")));
    assert!(form.contains(&("counter_account_id", "c1")));
}

#[test]
fn cancel_order_posts_the_id() {
    let c = client();
    let r = c.cancel_order_request("BX123");
    assert_eq!(r.method, Method::Post);
    assert_eq!(r.url, "https://api.luno.com/api/1/stoporder");
    assert_eq!(pairs(&r.form), vec![("order_id", "BX123")]);
}

#[test]
fn quote_builder_seeds_mandatory_params() {
    let c = client();
    let amount = Decimal::parse("0.1").unwrap();
    let r = c
        .quote(MarketOrderType::BUY, amount, TradingPair::XBTZAR)
        .with_base_account("b9")
        .post_request();
    assert_eq!(r.url, "https://api.luno.com/api/1/quotes");
    assert_eq!(
        pairs(&r.form),
        vec![
            ("type", "BUY"),
            ("base_amount", "0.1"),
            ("pair", "XBTZAR"),
            ("base_account_id", "b9"),
        ]
    );
}

#[test]
fn lightning_builders_accumulate_parameters() {
    let c = client();
    let r = c
        .lightning_send("lnbc1...")
        .with_currency(Currency::BTC)
        .with_description("rent")
        .with_external_id("x1")
        .send_request();
    assert_eq!(r.url, "https://api.luno.com/api/1/lightning/send");
    assert_eq!(
        pairs(&r.form),
        vec![
            ("payment_request", "lnbc1..."),
            ("currency", "BTC"),
            ("description", "rent"),
            ("external_id", "x1"),
        ]
    );
    let amount = Decimal::parse("0.01").unwrap();
    let r = c
        .lightning_receive(amount)
        .with_currency(Currency::BTC)
        .with_expires_at(1700000000000)
        .create_request();
    assert_eq!(r.url, "https://api.luno.com/api/1/lightning/receive");
    assert_eq!(
        pairs(&r.form),
        vec![
            ("amount", "0.01"),
            ("currency", "BTC"),
            ("expires_at", "1700000000000"),
        ]
    );
}

#[test]
fn malformed_base_origin_fails_at_construction() {
    assert!(LunoClient::with_base_url("ftp://nope/", "k", "s").is_err());
    assert!(LunoClient::with_base_url("https://no-slash", "k", "s").is_err());
    let c = LunoClient::with_base_url("http://localhost:8080/api/1/", "k", "s").unwrap();
    assert_eq!(
        c.get_ticker_request(TradingPair::XBTZAR).url,
        "http://localhost:8080/api/1/ticker?pair=XBTZAR"
    );
}
