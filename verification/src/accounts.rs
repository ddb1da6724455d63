//! Accounts and balances.

use vstd::prelude::*;

use crate::decimal::Decimal;
use crate::error::LunoError;
use crate::http::{HttpRequest, Method};
use crate::json::{
    jget, jview, spec_decimal_field, spec_parse_json, spec_string_field, status_ok, Json,
    SpecJson,
};
use crate::market::{currency_code, spec_currency_of, Currency};
use crate::urls::{qview, render_query, Url};

verus! {

/// One account of the requesting user.
#[derive(Clone, Debug)]
pub struct Account {
    pub id: String,
    pub currency: Currency,
    pub name: String,
}

/// The balance of one account.
#[derive(Clone, Debug)]
pub struct Balance {
    pub account_id: String,
    pub asset: Currency,
    pub balance: Decimal,
    pub reserved: Decimal,
    pub unconfirmed: Decimal,
    pub name: String,
}

/// The balances returned by a list query.
#[derive(Clone, Debug)]
pub struct ListBalancesResponse {
    pub balance: Vec<Balance>,
}

/// The exchange's answer to an account rename.
#[derive(Clone, Copy, Debug, PartialEq, Eq, Structural)]
pub struct UpdateAccountNameResponse {
    pub success: bool,
}

/// The comma-separated wire form of a list of asset codes.
pub open spec fn currency_csv(cs: Seq<Currency>) -> Seq<char>
    decreases cs.len(),
{
    if cs.len() == 0 {
        Seq::<char>::empty()
    } else if cs.len() == 1 {
        currency_code(cs[0])
    } else {
        currency_csv(cs.drop_last()) + seq![','] + currency_code(cs.last())
    }
}

/// A builder for the balance query: the one optional parameter narrows
/// the assets; the terminal request applies it only when set.
#[derive(Clone, Debug)]
pub struct ListBalancesBuilder {
    pub assets: Option<Vec<Currency>>,
    pub url: Url,
}

/// The optional query pairs a balance builder has accumulated.
pub open spec fn balances_params(b: ListBalancesBuilder) -> Seq<(Seq<char>, Seq<char>)> {
    match b.assets {
        Some(cs) => seq![("assets"@, currency_csv(cs@))],
        None => Seq::<(Seq<char>, Seq<char>)>::empty(),
    }
}

impl ListBalancesBuilder {
    /// A fresh builder asking for every asset.
    pub fn new(url: Url) -> (r: ListBalancesBuilder)
        ensures
            r.assets is None,
            r.url == url,
    {
        ListBalancesBuilder { assets: None, url }
    }

    /// Narrows the query to the given assets.
    pub fn with_assets(self, assets: Vec<Currency>) -> (r: ListBalancesBuilder)
        ensures
            r.assets == Some(assets),
            r.url == self.url,
    {
        ListBalancesBuilder { assets: Some(assets), url: self.url }
    }

    /// The one GET request of the query: the balance address, with the
    /// chosen assets as one comma-separated parameter when set.
    pub fn list_request(&self) -> (r: HttpRequest)
        ensures
            r.method == Method::Get,
            r.form@.len() == 0,
            r.url@ == self.url.base@ + render_query(
                qview(self.url.query@) + balances_params(*self),
            ),
    {
        let ghost base_params = qview(self.url.query@);
        let mut url = self.url.duplicate();
        if let Some(cs) = &self.assets {
            let joined = currency_csv_string(cs);
            url = url.with_pair("assets", joined);
        }
        proof {
            assert(qview(url.query@) =~= base_params + balances_params(*self));
        }
        let text = url.to_text();
        HttpRequest { method: Method::Get, url: text, form: Vec::new() }
    }
}

/// Joins asset codes with commas, exactly as `currency_csv` spells it.
fn currency_csv_string(cs: &Vec<Currency>) -> (r: String)
    ensures
        r@ == currency_csv(cs@),
{
    proof {
        reveal_strlit(",");
    }
    let n = cs.len();
    let mut out = String::new();
    let mut i: usize = 0;
    while i < n
        invariant
            n == cs@.len(),
            i <= n,
            out@ == currency_csv(cs@.take(i as int)),
        decreases n - i,
    {
        proof {
            reveal_strlit(",");
            assert(cs@.take(i + 1).drop_last() =~= cs@.take(i as int));
            assert(cs@.take(i + 1).last() == cs@[i as int]);
        }
        if i == 0 {
            out = out.concat(cs[i].as_str());
            proof {
                assert(out@ =~= currency_csv(cs@.take(1)));
            }
        } else {
            out = out.concat(",").concat(cs[i].as_str());
            proof {
                assert(out@ =~= currency_csv(cs@.take(i + 1)));
            }
        }
        i += 1;
    }
    proof {
        assert(cs@.take(n as int) =~= cs@);
    }
    out
}

/// The asset code a string field denotes.
pub open spec fn spec_currency_field(v: SpecJson, key: Seq<char>) -> Option<Currency> {
    match spec_string_field(v, key) {
        Some(t) => spec_currency_of(t),
        None => None,
    }
}

/// Reads one asset code field.
pub(crate) fn currency_field(v: &Json, key: &str) -> (r: Result<Currency, LunoError>)
    ensures
        match r {
            Ok(c) => spec_currency_field(v@, key@) == Some(c),
            Err(e) => e is Decode && spec_currency_field(v@, key@) is None,
        },
{
    let t = v.get_string(key)?;
    match Currency::parse(t.as_str()) {
        Some(c) => Ok(c),
        None => Err(LunoError::Decode("not an asset code: ".to_owned().concat(key))),
    }
}

/// An account read correctly from a response value.
pub open spec fn account_matches(v: SpecJson, a: Account) -> bool {
    &&& spec_string_field(v, "id"@) == Some(a.id@)
    &&& spec_currency_field(v, "currency"@) == Some(a.currency)
    &&& spec_string_field(v, "name"@) == Some(a.name@)
}

/// Every field of an account is present and well-formed.
pub open spec fn account_shape_ok(v: SpecJson) -> bool {
    &&& spec_string_field(v, "id"@) is Some
    &&& spec_currency_field(v, "currency"@) is Some
    &&& spec_string_field(v, "name"@) is Some
}

/// Parses the body of an account-creation response.
pub fn parse_account_response(status: u16, body: &str) -> (r: Result<Account, LunoError>)
    ensures
        match r {
            Ok(a) => status_ok(status) && (match spec_parse_json(body@) {
                Some(v) => account_matches(v, a),
                None => false,
            }),
            Err(e) => !(e is Config || e is Transport),
        },
        r is Ok <==> status_ok(status) && (match spec_parse_json(body@) {
            Some(v) => account_shape_ok(v),
            None => false,
        }),
{
    let v = crate::json::response_value(status, body)?;
    let id = v.get_string("id")?;
    let currency = currency_field(&v, "currency")?;
    let name = v.get_string("name")?;
    Ok(Account { id, currency, name })
}

/// Parses the body of a rename response.
pub fn parse_update_account_name_response(status: u16, body: &str) -> (r: Result<
    UpdateAccountNameResponse,
    LunoError,
>)
    ensures
        match r {
            Ok(p) => status_ok(status) && (match spec_parse_json(body@) {
                Some(v) => crate::json::spec_bool_field(v, "success"@) == Some(p.success),
                None => false,
            }),
            Err(e) => !(e is Config || e is Transport),
        },
        r is Ok <==> status_ok(status) && (match spec_parse_json(body@) {
            Some(v) => crate::json::spec_bool_field(v, "success"@) is Some,
            None => false,
        }),
{
    let v = crate::json::response_value(status, body)?;
    let success = v.get_bool("success")?;
    Ok(UpdateAccountNameResponse { success })
}

/// A balance read correctly from a response value.
pub open spec fn balance_matches(v: SpecJson, b: Balance) -> bool {
    &&& spec_string_field(v, "account_id"@) == Some(b.account_id@)
    &&& spec_currency_field(v, "asset"@) == Some(b.asset)
    &&& spec_decimal_field(v, "balance"@) == Some(b.balance)
    &&& spec_decimal_field(v, "reserved"@) == Some(b.reserved)
    &&& spec_decimal_field(v, "unconfirmed"@) == Some(b.unconfirmed)
    &&& spec_string_field(v, "name"@) == Some(b.name@)
}

/// Every field of a balance is present and well-formed.
pub open spec fn balance_shape_ok(v: SpecJson) -> bool {
    &&& spec_string_field(v, "account_id"@) is Some
    &&& spec_currency_field(v, "asset"@) is Some
    &&& spec_decimal_field(v, "balance"@) is Some
    &&& spec_decimal_field(v, "reserved"@) is Some
    &&& spec_decimal_field(v, "unconfirmed"@) is Some
    &&& spec_string_field(v, "name"@) is Some
}

/// Every element of a list is a well-formed balance.
pub open spec fn all_balances_shape_ok(items: Seq<SpecJson>) -> bool {
    forall|i: int| 0 <= i < items.len() ==> balance_shape_ok(#[trigger] items[i])
}

/// Each element read correctly, in order.
pub open spec fn balances_match(items: Seq<SpecJson>, bs: Seq<Balance>) -> bool {
    bs.len() == items.len() && (forall|i: int|
        0 <= i < items.len() ==> balance_matches(#[trigger] items[i], bs[i]))
}

/// Reads one balance from a response value.
pub fn balance_from_json(v: &Json) -> (r: Result<Balance, LunoError>)
    ensures
        match r {
            Ok(b) => balance_matches(v@, b),
            Err(e) => e is Decode,
        },
        r is Ok <==> balance_shape_ok(v@),
{
    let account_id = v.get_string("account_id")?;
    let asset = currency_field(v, "asset")?;
    let balance = v.get_decimal("balance")?;
    let reserved = v.get_decimal("reserved")?;
    let unconfirmed = v.get_decimal("unconfirmed")?;
    let name = v.get_string("name")?;
    Ok(Balance { account_id, asset, balance, reserved, unconfirmed, name })
}

/// Parses the body of a balance-list response: the balances under the
/// `balance` key, or the empty sequence when the key is absent.
pub fn parse_list_balances_response(status: u16, body: &str) -> (r: Result<Vec<Balance>, LunoError>)
    ensures
        match r {
            Ok(bs) => status_ok(status) && (match spec_parse_json(body@) {
                Some(v) => match jget(v, "balance"@) {
                    None => bs@.len() == 0,
                    Some(SpecJson::Arr(items)) => balances_match(items, bs@),
                    Some(_) => false,
                },
                None => false,
            }),
            Err(e) => !(e is Config || e is Transport),
        },
        r is Ok <==> status_ok(status) && (match spec_parse_json(body@) {
            Some(v) => match jget(v, "balance"@) {
                None => true,
                Some(SpecJson::Arr(items)) => all_balances_shape_ok(items),
                Some(_) => false,
            },
            None => false,
        }),
{
    let v = crate::json::response_value(status, body)?;
    match v.get("balance") {
        None => Ok(Vec::new()),
        Some(Json::Arr(items)) => {
            let ghost itemsv = jget(v@, "balance"@).unwrap()->Arr_0;
            proof {
                assert(forall|q: int|
                    0 <= q < itemsv.len() ==> #[trigger] itemsv[q] == jview(items@[q]));
            }
            let n = items.len();
            let mut out: Vec<Balance> = Vec::new();
            let mut i: usize = 0;
            while i < n
                invariant
                    n == items@.len(),
                    i <= n,
                    itemsv.len() == n,
                    forall|q: int|
                        0 <= q < itemsv.len() ==> #[trigger] itemsv[q] == jview(items@[q]),
                    jget(v@, "balance"@) == Some(SpecJson::Arr(itemsv)),
                    spec_parse_json(body@) == Some(v@),
                    status_ok(status),
                    out@.len() == i,
                    forall|q: int| 0 <= q < i ==> balance_matches(itemsv[q], #[trigger] out@[q]),
                    forall|q: int| 0 <= q < i ==> balance_shape_ok(#[trigger] itemsv[q]),
                decreases n - i,
            {
                proof {
                    assert(itemsv[i as int] == jview(items@[i as int]));
                }
                let b = match balance_from_json(&items[i]) {
                    Ok(b) => b,
                    Err(e) => {
                        proof {
                            assert(!balance_shape_ok(itemsv[i as int]));
                            assert(!all_balances_shape_ok(itemsv));
                        }
                        return Err(e);
                    },
                };
                out.push(b);
                i += 1;
            }
            proof {
                assert(balances_match(itemsv, out@));
                assert(all_balances_shape_ok(itemsv));
            }
            Ok(out)
        },
        Some(other) => {
            proof {
                assert(!(jview(*other) is Arr)) by {
                    match other {
                        Json::Null => {},
                        Json::Bool(_) => {},
                        Json::Num(_) => {},
                        Json::Str(_) => {},
                        Json::Arr(_) => {
                            assert(false);
                        },
                        Json::Obj(_) => {},
                    }
                }
            }
            Err(LunoError::Decode("balance is not an array".to_owned()))
        },
    }
}

} // verus!
