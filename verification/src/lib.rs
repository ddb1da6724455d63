//! A typed client library for the Luno exchange REST API.
//!
//! The crate builds authenticated HTTP requests (paths, query strings and
//! form bodies) for the exchange's operations and maps the JSON responses
//! into typed domain values with exact decimal arithmetic. Sending the
//! requests over the network is left to the caller; every function here is
//! a pure computation with a verified contract.

pub mod accounts;
pub mod beneficiaries;
pub mod client;
pub mod credentials;
pub mod decimal;
pub mod error;
pub mod http;
pub mod json;
pub mod lightning;
pub mod market;
pub mod orders;
pub mod quotes;
pub mod text;
pub mod trades;
pub mod transactions;
pub mod urls;

pub use accounts::{Account, Balance, ListBalancesBuilder, ListBalancesResponse,
    UpdateAccountNameResponse};
pub use beneficiaries::{Beneficiary, ListBeneficiariesResponse};
pub use client::LunoClient;
pub use credentials::Credentials;
pub use decimal::Decimal;
pub use error::LunoError;
pub use http::{HttpRequest, Method};
pub use json::Json;
pub use lightning::{LightningInvoiceLookupResponse, LightningReceiveBuilder,
    LightningReceiveRequest, LightningSendBuilder, LightningWithdrawal};
pub use market::{Ask, Bid, Currency, ListTickersResponse, ListTradesResponse, Orderbook, Ticker,
    Trade, TradingPair};
pub use orders::{LimitOrder, LimitOrderType, ListOrdersBuilder, ListOrdersResponse,
    MarketOrderType, Order, OrderState, PostLimitOrderBuilder, PostMarketOrderBuilder,
    PostOrderResponse, StopDirection, StopOrderResponse};
pub use quotes::{CreateQuoteBuilder, Quote};
pub use trades::{FeeInfo, ListOwnTradesBuilder, ListOwnTradesResponse, OwnTrade};
pub use transactions::{ListPendingTransactionsResponse, ListTransactionsResponse, Transaction};
pub use urls::{Url, UrlMaker};
