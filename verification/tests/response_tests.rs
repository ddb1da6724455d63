use luno::decimal::Decimal;
use luno::error::LunoError;
use luno::market::{parse_list_tickers_response, parse_list_trades_response,
    parse_orderbook_response, parse_ticker_response, TradingPair};
use luno::orders::{parse_list_orders_response, parse_post_order_response,
    parse_stop_order_response, LimitOrderType, MarketOrderType, OrderState};
use luno::accounts::parse_list_balances_response;
use luno::accounts::{parse_account_response, parse_update_account_name_response};
use luno::beneficiaries::parse_list_beneficiaries_response;
use luno::quotes::parse_quote_response;
use luno::trades::{parse_fee_info_response, parse_list_own_trades_response};
use luno::transactions::{parse_list_pending_transactions_response,
    parse_list_transactions_response};
use luno::lightning::{parse_lightning_invoice_lookup_response,
    parse_lightning_receive_response, parse_lightning_withdrawal_response};

fn dec(s: &str) -> Decimal {
    Decimal::parse(s).unwrap()
}

#[test]
fn ticker_body_parses_with_exact_decimals() {
    let body = r#"{
        "ask": "211000.00000001",
        "bid": "210999.5",
        "last_trade": "211000",
        "pair": "XBTZAR",
        "rolling_24_hour_volume": "12.345600",
        "timestamp": 1390168800000
    }"#;
    let t = parse_ticker_response(200, body).unwrap();
    assert_eq!(t.ask, dec("211000.00000001"));
    assert_eq!(t.ask.format(), "211000.00000001");
    assert_eq!(t.bid, dec("210999.5"));
    assert_eq!(t.pair, TradingPair::XBTZAR);
    assert_eq!(t.rolling_24_hour_volume.format(), "12.345600");
    assert_eq!(t.timestamp, 1390168800000);
}

#[test]
fn ticker_accepts_numeric_decimals() {
    let body = r#"{"ask": 211000.75, "bid": 1, "last_trade": 2, "pair": "ETHZAR",
                   "rolling_24_hour_volume": 0.5, "timestamp": 1}"#;
    let t = parse_ticker_response(200, body).unwrap();
    assert_eq!(t.ask.format(), "211000.75");
}

#[test]
fn ticker_missing_field_is_decode_error() {
    let body = r#"{"ask": "1", "bid": "2", "pair": "XBTZAR"}"#;
    match parse_ticker_response(200, body) {
        Err(LunoError::Decode(_)) => {}
        other => panic!("expected a decode error, got {:?}", other),
    }
}

#[test]
fn ticker_bad_pair_is_decode_error() {
    let body = r#"{"ask": "1", "bid": "2", "last_trade": "3", "pair": "XBTUSD",
                   "rolling_24_hour_volume": "4", "timestamp": 5}"#;
    assert!(matches!(
        parse_ticker_response(200, body),
        Err(LunoError::Decode(_))
    ));
}

#[test]
fn non_success_status_is_remote_error() {
    let body = r#"{"error":"permission denied"}"#;
    match parse_ticker_response(403, body) {
        Err(LunoError::Remote(m)) => assert_eq!(m, "permission denied"),
        other => panic!("expected a remote error, got {:?}", other),
    }
    // A non-JSON failure body is carried whole.
    match parse_ticker_response(502, "bad gateway") {
        Err(LunoError::Remote(m)) => assert_eq!(m, "bad gateway"),
        other => panic!("expected a remote error, got {:?}", other),
    }
}

#[test]
fn malformed_json_is_decode_error() {
    assert!(matches!(
        parse_ticker_response(200, "{\"ask\":"),
        Err(LunoError::Decode(_))
    ));
}

#[test]
fn list_tickers_absent_key_is_empty() {
    assert!(parse_list_tickers_response(200, "{}").unwrap().is_empty());
}

#[test]
fn orderbook_preserves_arrival_order() {
    let body = r#"{
        "timestamp": 7,
        "asks": [{"price": "100", "volume": "1"}, {"price": "101", "volume": "2"}],
        "bids": [{"price": "99", "volume": "3"}, {"price": "98", "volume": "4"}]
    }"#;
    let ob = parse_orderbook_response(200, body).unwrap();
    assert_eq!(ob.timestamp, 7);
    assert_eq!(ob.asks.len(), 2);
    assert_eq!(ob.asks[0].price, dec("100"));
    assert_eq!(ob.asks[1].price, dec("101"));
    assert_eq!(ob.bids[0].price, dec("99"));
    assert_eq!(ob.bids[1].volume, dec("4"));
}

#[test]
fn public_trades_parse() {
    let body = r#"{"trades": [
        {"is_buy": true, "price": "100.5", "timestamp": 1, "volume": "0.25"},
        {"is_buy": false, "price": "100.4", "timestamp": 2, "volume": "1"}
    ]}"#;
    let ts = parse_list_trades_response(200, body).unwrap();
    assert_eq!(ts.len(), 2);
    assert!(ts[0].is_buy);
    assert_eq!(ts[1].price, dec("100.4"));
}

#[test]
fn list_orders_scenario_parses_order_array() {
    let body = r#"{"orders": [{
        "base": "0.1",
        "counter": "21100.5",
        "creation_timestamp": 1390168800000,
        "expiration_timestamp": 0,
        "completed_timestamp": 1390168900000,
        "fee_base": "0.0001",
        "fee_counter": "0",
        "limit_price": "211000.00000001",
        "limit_volume": "0.1",
        "order_id": "BXMC2CJ7HNB88U4",
        "pair": "XBTZAR",
        "state": "COMPLETE",
        "type": "ASK"
    }]}"#;
    let os = parse_list_orders_response(200, body).unwrap();
    assert_eq!(os.len(), 1);
    let o = &os[0];
    assert_eq!(o.order_id, "BXMC2CJ7HNB88U4");
    assert_eq!(o.pair, TradingPair::XBTZAR);
    assert_eq!(o.state, OrderState::COMPLETE);
    assert_eq!(o.order_type, LimitOrderType::ASK);
    assert_eq!(o.limit_price.format(), "211000.00000001");
    assert_eq!(o.creation_timestamp, 1390168800000);
}

#[test]
fn list_orders_absent_key_is_empty() {
    assert!(parse_list_orders_response(200, "{}").unwrap().is_empty());
}

#[test]
fn list_orders_bad_item_is_decode_error() {
    let body = r#"{"orders": [{"order_id": "x"}]}"#;
    assert!(matches!(
        parse_list_orders_response(200, body),
        Err(LunoError::Decode(_))
    ));
}

#[test]
fn post_order_success_carries_the_id() {
    let body = r#"{"order_id": "BX1"}"#;
    let p = parse_post_order_response(200, body).unwrap();
    assert_eq!(p.order_id.as_deref(), Some("BX1"));
    assert!(p.error.is_none());
}

#[test]
fn post_order_error_body_is_remote_rejection() {
    let body = r#"{"error":"insufficient balance"}"#;
    match parse_post_order_response(200, body) {
        Err(LunoError::Remote(m)) => assert_eq!(m, "insufficient balance"),
        other => panic!("expected a remote rejection, got {:?}", other),
    }
}

#[test]
fn stop_order_response_parses() {
    let p = parse_stop_order_response(200, r#"{"success": true}"#).unwrap();
    assert!(p.success);
}

#[test]
fn balances_parse_and_absent_key_is_empty() {
    let body = r#"{"balance": [{
        "account_id": "a1", "asset": "XBT", "balance": "1.5",
        "reserved": "0.5", "unconfirmed": "0", "name": "main"
    }]}"#;
    let bs = parse_list_balances_response(200, body).unwrap();
    assert_eq!(bs.len(), 1);
    assert_eq!(bs[0].asset, luno::Currency::XBT);
    assert_eq!(bs[0].balance, dec("1.5"));
    assert!(parse_list_balances_response(200, "{}").unwrap().is_empty());
}

#[test]
fn account_responses_parse() {
    let a = parse_account_response(200, r#"{"id":"a1","currency":"ZAR","name":"main"}"#).unwrap();
    assert_eq!(a.id, "a1");
    assert_eq!(a.currency, luno::Currency::ZAR);
    let u = parse_update_account_name_response(200, r#"{"success": true}"#).unwrap();
    assert!(u.success);
}

#[test]
fn transactions_parse_with_optional_rows() {
    let body = r#"{"id": "a1", "transactions": [{
        "row_index": 1, "timestamp": 5, "balance": "10", "available": "9",
        "balance_delta": "1", "available_delta": "0", "currency": "ZAR",
        "description": "trade"
    }]}"#;
    let p = parse_list_transactions_response(200, body).unwrap();
    assert_eq!(p.id, "a1");
    assert_eq!(p.transactions.len(), 1);
    assert_eq!(p.transactions[0].row_index, Some(1));
    let empty = parse_list_transactions_response(200, r#"{"id": "a1"}"#).unwrap();
    assert!(empty.transactions.is_empty());
    let body = r#"{"id": "a1", "pending": [{
        "timestamp": 5, "balance": "10", "available": "9",
        "balance_delta": "1", "available_delta": "0", "currency": "ZAR",
        "description": "deposit"
    }]}"#;
    let p = parse_list_pending_transactions_response(200, body).unwrap();
    assert_eq!(p.pending[0].row_index, None);
}

#[test]
fn beneficiaries_parse() {
    let body = r#"{"beneficiaries": [{
        "bank_account_branch": "001", "bank_account_number": "123",
        "bank_account_type": "cheque", "bank_country": "ZA",
        "bank_name": "First Bank", "bank_recipient": "A. Person",
        "created_at": 1, "id": "b1"
    }]}"#;
    let bs = parse_list_beneficiaries_response(200, body).unwrap();
    assert_eq!(bs.len(), 1);
    assert_eq!(bs[0].bank_name, "First Bank");
    assert!(parse_list_beneficiaries_response(200, "{}").unwrap().is_empty());
}

#[test]
fn own_trades_parse() {
    let body = r#"{"trades": [{
        "base": "0.1", "counter": "21000", "fee_base": "0.0001", "is_buy": true,
        "order_id": "BX1", "pair": "XBTZAR", "price": "210000", "timestamp": 3,
        "type": "BID", "volume": "0.1"
    }]}"#;
    let ts = parse_list_own_trades_response(200, body).unwrap();
    assert_eq!(ts.len(), 1);
    assert_eq!(ts[0].order_type, LimitOrderType::BID);
    assert!(parse_list_own_trades_response(200, "{}").unwrap().is_empty());
    let f = parse_fee_info_response(
        200,
        r#"{"maker_fee": "0.001", "taker_fee": "0.002", "thirty_day_volume": "12"}"#,
    )
    .unwrap();
    assert_eq!(f.taker_fee, dec("0.002"));
}

#[test]
fn quote_parses() {
    let body = r#"{"base_amount": "0.1", "counter_amount": "21000", "created_at": 1,
        "discarded": false, "exercised": true, "expires_at": 99, "id": "q1",
        "pair": "XBTZAR", "type": "BUY"}"#;
    let q = parse_quote_response(200, body).unwrap();
    assert_eq!(q.id, "q1");
    assert!(q.exercised);
    assert!(!q.discarded);
    assert_eq!(q.order_type, MarketOrderType::BUY);
}

#[test]
fn lightning_responses_parse() {
    let w = parse_lightning_withdrawal_response(
        200,
        r#"{"invoice_id": "i1", "payment_request": "lnbc1"}"#,
    )
    .unwrap();
    assert_eq!(w.invoice_id, "i1");
    let r = parse_lightning_receive_response(
        200,
        r#"{"invoice_id": "i2", "payment_request": "lnbc2"}"#,
    )
    .unwrap();
    assert_eq!(r.payment_request, "lnbc2");
    let l = parse_lightning_invoice_lookup_response(
        200,
        r#"{"payment_request": "lnbc3", "settled_amount": "0.01", "status": "SETTLED"}"#,
    )
    .unwrap();
    assert_eq!(l.status, "SETTLED");
}

#[test]
fn json_strings_unescape() {
    let body = r#"{"id": "a1", "transactions": [{
        "row_index": 2, "timestamp": 5, "balance": "10", "available": "9",
        "balance_delta": "1", "available_delta": "0", "currency": "ZAR",
        "description": "line\nbreak \"quoted\" back\\slash"
    }]}"#;
    let p = luno::transactions::parse_list_transactions_response(200, body).unwrap();
    assert_eq!(
        p.transactions[0].description,
        "line\nbreak \"quoted\" back\\slash"
    );
}

#[test]
fn json_rejects_trailing_garbage_and_unicode_escapes() {
    assert!(matches!(
        parse_ticker_response(200, "{} extra"),
        Err(LunoError::Decode(_))
    ));
    let body = "{\"id\": \"\\u0041\"}";
    assert!(matches!(
        luno::transactions::parse_list_transactions_response(200, body),
        Err(LunoError::Decode(_))
    ));
}


#[test]
fn error_kind_helpers_branch_on_failure_class() {
    let remote = parse_post_order_response(200, r#"{"error":"nope"}"#).unwrap_err();
    assert!(remote.is_remote());
    assert!(!remote.is_decode());
    assert_eq!(remote.message(), "nope");
    let decode = parse_ticker_response(200, "{").unwrap_err();
    assert!(decode.is_decode());
    assert!(!decode.is_remote());
}

#[test]
fn response_wrappers_carry_their_collections() {
    let orders = parse_list_orders_response(200, "{}").unwrap();
    let wrapped = luno::ListOrdersResponse { orders };
    assert!(wrapped.orders.is_empty());
    let tickers = parse_list_tickers_response(200, "{}").unwrap();
    assert!(luno::ListTickersResponse { tickers }.tickers.is_empty());
    let trades = parse_list_trades_response(200, "{}").unwrap();
    assert!(luno::ListTradesResponse { trades }.trades.is_empty());
    let trades = parse_list_own_trades_response(200, "{}").unwrap();
    assert!(luno::ListOwnTradesResponse { trades }.trades.is_empty());
    let balance = parse_list_balances_response(200, "{}").unwrap();
    assert!(luno::ListBalancesResponse { balance }.balance.is_empty());
    let beneficiaries = parse_list_beneficiaries_response(200, "{}").unwrap();
    assert!(
        luno::ListBeneficiariesResponse { beneficiaries }
            .beneficiaries
            .is_empty()
    );
}

#[test]
fn limit_order_record_holds_wire_fields() {
    let record = luno::LimitOrder {
        pair: "XBTZAR".to_string(),
        order_type: LimitOrderType::ASK,
        volume: "0.0005".to_string(),
        price: "211000".to_string(),
        stop_price: "210000".to_string(),
        stop_direction: "RELATIVE_LAST_TRADE".to_string(),
        base_account_id: "b1".to_string(),
        counter_account_id: "c1".to_string(),
        post_only: true,
    };
    assert_eq!(record.pair, "XBTZAR");
    assert!(record.post_only);
}
