//! Bank beneficiaries.

use vstd::prelude::*;

use crate::error::LunoError;
use crate::json::{
    jget, jview, spec_parse_json, spec_string_field, spec_u64_field, status_ok, Json, SpecJson,
};

verus! {

/// One bank beneficiary of the account.
#[derive(Clone, Debug)]
pub struct Beneficiary {
    pub bank_account_branch: String,
    pub bank_account_number: String,
    pub bank_account_type: String,
    pub bank_country: String,
    pub bank_name: String,
    pub bank_recipient: String,
    pub created_at: u64,
    pub id: String,
}

/// The beneficiaries returned by a list query.
#[derive(Clone, Debug)]
pub struct ListBeneficiariesResponse {
    pub beneficiaries: Vec<Beneficiary>,
}

/// A beneficiary read correctly from a response value.
pub open spec fn beneficiary_matches(v: SpecJson, b: Beneficiary) -> bool {
    &&& spec_string_field(v, "bank_account_branch"@) == Some(b.bank_account_branch@)
    &&& spec_string_field(v, "bank_account_number"@) == Some(b.bank_account_number@)
    &&& spec_string_field(v, "bank_account_type"@) == Some(b.bank_account_type@)
    &&& spec_string_field(v, "bank_country"@) == Some(b.bank_country@)
    &&& spec_string_field(v, "bank_name"@) == Some(b.bank_name@)
    &&& spec_string_field(v, "bank_recipient"@) == Some(b.bank_recipient@)
    &&& spec_u64_field(v, "created_at"@) == Some(b.created_at)
    &&& spec_string_field(v, "id"@) == Some(b.id@)
}

/// Every field of a beneficiary is present and well-formed.
pub open spec fn beneficiary_shape_ok(v: SpecJson) -> bool {
    &&& spec_string_field(v, "bank_account_branch"@) is Some
    &&& spec_string_field(v, "bank_account_number"@) is Some
    &&& spec_string_field(v, "bank_account_type"@) is Some
    &&& spec_string_field(v, "bank_country"@) is Some
    &&& spec_string_field(v, "bank_name"@) is Some
    &&& spec_string_field(v, "bank_recipient"@) is Some
    &&& spec_u64_field(v, "created_at"@) is Some
    &&& spec_string_field(v, "id"@) is Some
}

/// Every element of a list is a well-formed beneficiary.
pub open spec fn all_beneficiaries_shape_ok(items: Seq<SpecJson>) -> bool {
    forall|i: int| 0 <= i < items.len() ==> beneficiary_shape_ok(#[trigger] items[i])
}

/// Each element read correctly, in order.
pub open spec fn beneficiaries_match(items: Seq<SpecJson>, bs: Seq<Beneficiary>) -> bool {
    bs.len() == items.len() && (forall|i: int|
        0 <= i < items.len() ==> beneficiary_matches(#[trigger] items[i], bs[i]))
}

/// Reads one beneficiary from a response value.
pub fn beneficiary_from_json(v: &Json) -> (r: Result<Beneficiary, LunoError>)
    ensures
        match r {
            Ok(b) => beneficiary_matches(v@, b),
            Err(e) => e is Decode,
        },
        r is Ok <==> beneficiary_shape_ok(v@),
{
    let bank_account_branch = v.get_string("bank_account_branch")?;
    let bank_account_number = v.get_string("bank_account_number")?;
    let bank_account_type = v.get_string("bank_account_type")?;
    let bank_country = v.get_string("bank_country")?;
    let bank_name = v.get_string("bank_name")?;
    let bank_recipient = v.get_string("bank_recipient")?;
    let created_at = v.get_u64("created_at")?;
    let id = v.get_string("id")?;
    Ok(
        Beneficiary {
            bank_account_branch,
            bank_account_number,
            bank_account_type,
            bank_country,
            bank_name,
            bank_recipient,
            created_at,
            id,
        },
    )
}

/// Parses the body of a beneficiary-list response: the entries under
/// the `beneficiaries` key, or the empty sequence when the key is
/// absent.
pub fn parse_list_beneficiaries_response(status: u16, body: &str) -> (r: Result<
    Vec<Beneficiary>,
    LunoError,
>)
    ensures
        match r {
            Ok(bs) => status_ok(status) && (match spec_parse_json(body@) {
                Some(v) => match jget(v, "beneficiaries"@) {
                    None => bs@.len() == 0,
                    Some(SpecJson::Arr(items)) => beneficiaries_match(items, bs@),
                    Some(_) => false,
                },
                None => false,
            }),
            Err(e) => !(e is Config || e is Transport),
        },
        r is Ok <==> status_ok(status) && (match spec_parse_json(body@) {
            Some(v) => match jget(v, "beneficiaries"@) {
                None => true,
                Some(SpecJson::Arr(items)) => all_beneficiaries_shape_ok(items),
                Some(_) => false,
            },
            None => false,
        }),
{
    let v = crate::json::response_value(status, body)?;
    match v.get("beneficiaries") {
        None => Ok(Vec::new()),
        Some(Json::Arr(items)) => {
            let ghost itemsv = jget(v@, "beneficiaries"@).unwrap()->Arr_0;
            proof {
                assert(forall|q: int|
                    0 <= q < itemsv.len() ==> #[trigger] itemsv[q] == jview(items@[q]));
            }
            let n = items.len();
            let mut out: Vec<Beneficiary> = Vec::new();
            let mut i: usize = 0;
            while i < n
                invariant
                    n == items@.len(),
                    i <= n,
                    itemsv.len() == n,
                    forall|q: int|
                        0 <= q < itemsv.len() ==> #[trigger] itemsv[q] == jview(items@[q]),
                    jget(v@, "beneficiaries"@) == Some(SpecJson::Arr(itemsv)),
                    spec_parse_json(body@) == Some(v@),
                    status_ok(status),
                    out@.len() == i,
                    forall|q: int|
                        0 <= q < i ==> beneficiary_matches(itemsv[q], #[trigger] out@[q]),
                    forall|q: int| 0 <= q < i ==> beneficiary_shape_ok(#[trigger] itemsv[q]),
                decreases n - i,
            {
                proof {
                    assert(itemsv[i as int] == jview(items@[i as int]));
                }
                let b = match beneficiary_from_json(&items[i]) {
                    Ok(b) => b,
                    Err(e) => {
                        proof {
                            assert(!beneficiary_shape_ok(itemsv[i as int]));
                            assert(!all_beneficiaries_shape_ok(itemsv));
                        }
                        return Err(e);
                    },
                };
                out.push(b);
                i += 1;
            }
            proof {
                assert(beneficiaries_match(itemsv, out@));
                assert(all_beneficiaries_shape_ok(itemsv));
            }
            Ok(out)
        },
        Some(other) => {
            proof {
                assert(!(jview(*other) is Arr)) by {
                    match other {
                        Json::Null => {},
                        Json::Bool(_) => {},
                        Json::Num(_) => {},
                        Json::Str(_) => {},
                        Json::Arr(_) => {
                            assert(false);
                        },
                        Json::Obj(_) => {},
                    }
                }
            }
            Err(LunoError::Decode("beneficiaries is not an array".to_owned()))
        },
    }
}

} // verus!
