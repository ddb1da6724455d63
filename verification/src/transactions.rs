//! Transaction ledger entries, numbered and pending.

use vstd::prelude::*;

use crate::decimal::Decimal;
use crate::error::LunoError;
use crate::json::{
    jget, jview, spec_decimal_field, spec_parse_json, spec_string_field, spec_u64_field,
    status_ok, Json, SpecJson,
};

verus! {

/// One ledger entry. Numbered entries carry a stable row index;
/// pending entries carry none and may be reordered or removed between
/// calls, so identity must not be assumed across polls.
#[derive(Clone, Debug)]
pub struct Transaction {
    pub row_index: Option<u64>,
    pub timestamp: u64,
    pub balance: Decimal,
    pub available: Decimal,
    pub balance_delta: Decimal,
    pub available_delta: Decimal,
    pub currency: String,
    pub description: String,
}

/// The numbered entries of one account.
#[derive(Clone, Debug)]
pub struct ListTransactionsResponse {
    pub id: String,
    pub transactions: Vec<Transaction>,
}

/// The pending entries of one account.
#[derive(Clone, Debug)]
pub struct ListPendingTransactionsResponse {
    pub id: String,
    pub pending: Vec<Transaction>,
}

/// A ledger entry read correctly from a response value.
pub open spec fn transaction_matches(v: SpecJson, t: Transaction) -> bool {
    &&& match t.row_index {
        Some(n) => spec_u64_field(v, "row_index"@) == Some(n),
        None => jget(v, "row_index"@) is None,
    }
    &&& spec_u64_field(v, "timestamp"@) == Some(t.timestamp)
    &&& spec_decimal_field(v, "balance"@) == Some(t.balance)
    &&& spec_decimal_field(v, "available"@) == Some(t.available)
    &&& spec_decimal_field(v, "balance_delta"@) == Some(t.balance_delta)
    &&& spec_decimal_field(v, "available_delta"@) == Some(t.available_delta)
    &&& spec_string_field(v, "currency"@) == Some(t.currency@)
    &&& spec_string_field(v, "description"@) == Some(t.description@)
}

/// Every field of a ledger entry is present and well-formed; the row
/// index may be absent.
pub open spec fn transaction_shape_ok(v: SpecJson) -> bool {
    &&& (jget(v, "row_index"@) is None || spec_u64_field(v, "row_index"@) is Some)
    &&& spec_u64_field(v, "timestamp"@) is Some
    &&& spec_decimal_field(v, "balance"@) is Some
    &&& spec_decimal_field(v, "available"@) is Some
    &&& spec_decimal_field(v, "balance_delta"@) is Some
    &&& spec_decimal_field(v, "available_delta"@) is Some
    &&& spec_string_field(v, "currency"@) is Some
    &&& spec_string_field(v, "description"@) is Some
}

/// Every element of a list is a well-formed ledger entry.
pub open spec fn all_transactions_shape_ok(items: Seq<SpecJson>) -> bool {
    forall|i: int| 0 <= i < items.len() ==> transaction_shape_ok(#[trigger] items[i])
}

/// Each element read correctly, in order.
pub open spec fn transactions_match(items: Seq<SpecJson>, ts: Seq<Transaction>) -> bool {
    ts.len() == items.len() && (forall|i: int|
        0 <= i < items.len() ==> transaction_matches(#[trigger] items[i], ts[i]))
}

/// Reads one ledger entry from a response value.
pub fn transaction_from_json(v: &Json) -> (r: Result<Transaction, LunoError>)
    ensures
        match r {
            Ok(t) => transaction_matches(v@, t),
            Err(e) => e is Decode,
        },
        r is Ok <==> transaction_shape_ok(v@),
{
    let row_index = v.get_opt_u64("row_index")?;
    let timestamp = v.get_u64("timestamp")?;
    let balance = v.get_decimal("balance")?;
    let available = v.get_decimal("available")?;
    let balance_delta = v.get_decimal("balance_delta")?;
    let available_delta = v.get_decimal("available_delta")?;
    let currency = v.get_string("currency")?;
    let description = v.get_string("description")?;
    Ok(
        Transaction {
            row_index,
            timestamp,
            balance,
            available,
            balance_delta,
            available_delta,
            currency,
            description,
        },
    )
}

/// Reads the entries under a key, absent meaning none.
fn transactions_under(v: &Json, key: &str) -> (r: Result<Vec<Transaction>, LunoError>)
    ensures
        match r {
            Ok(ts) => match jget(v@, key@) {
                None => ts@.len() == 0,
                Some(SpecJson::Arr(items)) => transactions_match(items, ts@),
                Some(_) => false,
            },
            Err(e) => e is Decode,
        },
        r is Ok <==> match jget(v@, key@) {
            None => true,
            Some(SpecJson::Arr(items)) => all_transactions_shape_ok(items),
            Some(_) => false,
        },
{
    match v.get(key) {
        None => Ok(Vec::new()),
        Some(Json::Arr(items)) => {
            let ghost itemsv = jget(v@, key@).unwrap()->Arr_0;
            proof {
                assert(forall|q: int|
                    0 <= q < itemsv.len() ==> #[trigger] itemsv[q] == jview(items@[q]));
            }
            let n = items.len();
            let mut out: Vec<Transaction> = Vec::new();
            let mut i: usize = 0;
            while i < n
                invariant
                    n == items@.len(),
                    i <= n,
                    itemsv.len() == n,
                    forall|q: int|
                        0 <= q < itemsv.len() ==> #[trigger] itemsv[q] == jview(items@[q]),
                    jget(v@, key@) == Some(SpecJson::Arr(itemsv)),
                    out@.len() == i,
                    forall|q: int|
                        0 <= q < i ==> transaction_matches(itemsv[q], #[trigger] out@[q]),
                    forall|q: int| 0 <= q < i ==> transaction_shape_ok(#[trigger] itemsv[q]),
                decreases n - i,
            {
                proof {
                    assert(itemsv[i as int] == jview(items@[i as int]));
                }
                let t = match transaction_from_json(&items[i]) {
                    Ok(t) => t,
                    Err(e) => {
                        proof {
                            assert(!transaction_shape_ok(itemsv[i as int]));
                            assert(!all_transactions_shape_ok(itemsv));
                        }
                        return Err(e);
                    },
                };
                out.push(t);
                i += 1;
            }
            proof {
                assert(transactions_match(itemsv, out@));
                assert(all_transactions_shape_ok(itemsv));
            }
            Ok(out)
        },
        Some(other) => {
            proof {
                assert(!(jview(*other) is Arr)) by {
                    match other {
                        Json::Null => {},
                        Json::Bool(_) => {},
                        Json::Num(_) => {},
                        Json::Str(_) => {},
                        Json::Arr(_) => {
                            assert(false);
                        },
                        Json::Obj(_) => {},
                    }
                }
            }
            Err(LunoError::Decode("not an array of transactions".to_owned()))
        },
    }
}

/// Parses the body of a numbered-transactions response: the account id
/// and the entries under `transactions`, an absent key meaning none.
pub fn parse_list_transactions_response(status: u16, body: &str) -> (r: Result<
    ListTransactionsResponse,
    LunoError,
>)
    ensures
        match r {
            Ok(p) => status_ok(status) && (match spec_parse_json(body@) {
                Some(v) => spec_string_field(v, "id"@) == Some(p.id@) && (match jget(
                    v,
                    "transactions"@,
                ) {
                    None => p.transactions@.len() == 0,
                    Some(SpecJson::Arr(items)) => transactions_match(items, p.transactions@),
                    Some(_) => false,
                }),
                None => false,
            }),
            Err(e) => !(e is Config || e is Transport),
        },
        r is Ok <==> status_ok(status) && (match spec_parse_json(body@) {
            Some(v) => spec_string_field(v, "id"@) is Some && (match jget(v, "transactions"@) {
                None => true,
                Some(SpecJson::Arr(items)) => all_transactions_shape_ok(items),
                Some(_) => false,
            }),
            None => false,
        }),
{
    let v = crate::json::response_value(status, body)?;
    let id = v.get_string("id")?;
    let transactions = transactions_under(&v, "transactions")?;
    Ok(ListTransactionsResponse { id, transactions })
}

/// Parses the body of a pending-transactions response: the account id
/// and the entries under `pending`, an absent key meaning none.
pub fn parse_list_pending_transactions_response(status: u16, body: &str) -> (r: Result<
    ListPendingTransactionsResponse,
    LunoError,
>)
    ensures
        match r {
            Ok(p) => status_ok(status) && (match spec_parse_json(body@) {
                Some(v) => spec_string_field(v, "id"@) == Some(p.id@) && (match jget(
                    v,
                    "pending"@,
                ) {
                    None => p.pending@.len() == 0,
                    Some(SpecJson::Arr(items)) => transactions_match(items, p.pending@),
                    Some(_) => false,
                }),
                None => false,
            }),
            Err(e) => !(e is Config || e is Transport),
        },
        r is Ok <==> status_ok(status) && (match spec_parse_json(body@) {
            Some(v) => spec_string_field(v, "id"@) is Some && (match jget(v, "pending"@) {
                None => true,
                Some(SpecJson::Arr(items)) => all_transactions_shape_ok(items),
                Some(_) => false,
            }),
            None => false,
        }),
{
    let v = crate::json::response_value(status, body)?;
    let id = v.get_string("id")?;
    let pending = transactions_under(&v, "pending")?;
    Ok(ListPendingTransactionsResponse { id, pending })
}

} // verus!
