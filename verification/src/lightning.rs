//! Lightning payments: sending to an invoice and creating invoices.

use vstd::prelude::*;

use crate::error::LunoError;
use crate::http::{HttpRequest, Method};
use crate::json::{spec_parse_json, spec_string_field, status_ok, SpecJson};
use crate::market::{currency_code, Currency};
use crate::text::{spec_udigits, u64_string};
use crate::urls::{qview, url_text, Url};

verus! {

/// The exchange's answer to a lightning send.
#[derive(Clone, Debug)]
pub struct LightningWithdrawal {
    pub invoice_id: String,
    pub payment_request: String,
}

/// The exchange's answer to an invoice creation.
#[derive(Clone, Debug)]
pub struct LightningReceiveRequest {
    pub invoice_id: String,
    pub payment_request: String,
}

/// The state of one lightning invoice.
#[derive(Clone, Debug)]
pub struct LightningInvoiceLookupResponse {
    pub payment_request: String,
    pub settled_amount: String,
    pub status: String,
}

/// A builder for sending a lightning payment: fluent calls accumulate
/// form parameters; the terminal request carries exactly what was set.
#[derive(Debug)]
pub struct LightningSendBuilder {
    pub url: Url,
    pub params: Vec<(String, String)>,
}

impl LightningSendBuilder {
    /// A fresh builder for the given address and seeded parameters.
    pub fn new(url: Url, params: Vec<(String, String)>) -> (r: LightningSendBuilder)
        ensures
            r.url == url,
            r.params == params,
    {
        LightningSendBuilder { url, params }
    }

    /// Records the currency to pay in; everything already set is kept.
    pub fn with_currency(self, currency: Currency) -> (r: LightningSendBuilder)
        ensures
            r.url == self.url,
            qview(r.params@) == qview(self.params@).push(("currency"@, currency_code(currency))),
    {
        let mut params = self.params;
        let ghost before = params@;
        params.push(("currency".to_owned(), currency.as_str().to_owned()));
        proof {
            assert(qview(params@) =~= qview(before).push(("currency"@, currency_code(currency))));
        }
        LightningSendBuilder { url: self.url, params }
    }

    /// Records a free-form description; everything already set is kept.
    pub fn with_description(self, description: &str) -> (r: LightningSendBuilder)
        ensures
            r.url == self.url,
            qview(r.params@) == qview(self.params@).push(("description"@, description@)),
    {
        let mut params = self.params;
        let ghost before = params@;
        params.push(("description".to_owned(), description.to_owned()));
        proof {
            assert(qview(params@) =~= qview(before).push(("description"@, description@)));
        }
        LightningSendBuilder { url: self.url, params }
    }

    /// Records the caller's own id for the payment.
    pub fn with_external_id(self, external_id: &str) -> (r: LightningSendBuilder)
        ensures
            r.url == self.url,
            qview(r.params@) == qview(self.params@).push(("external_id"@, external_id@)),
    {
        let mut params = self.params;
        let ghost before = params@;
        params.push(("external_id".to_owned(), external_id.to_owned()));
        proof {
            assert(qview(params@) =~= qview(before).push(("external_id"@, external_id@)));
        }
        LightningSendBuilder { url: self.url, params }
    }

    /// The one POST of the payment.
    pub fn send_request(self) -> (r: HttpRequest)
        ensures
            r.method == Method::Post,
            r.url@ == url_text(self.url),
            r.form@ == self.params@,
    {
        let text = self.url.to_text();
        HttpRequest { method: Method::Post, url: text, form: self.params }
    }
}

/// A builder for creating a lightning invoice.
#[derive(Debug)]
pub struct LightningReceiveBuilder {
    pub url: Url,
    pub params: Vec<(String, String)>,
}

impl LightningReceiveBuilder {
    /// A fresh builder for the given address and seeded parameters.
    pub fn new(url: Url, params: Vec<(String, String)>) -> (r: LightningReceiveBuilder)
        ensures
            r.url == url,
            r.params == params,
    {
        LightningReceiveBuilder { url, params }
    }

    /// Records the currency to receive; everything already set is kept.
    pub fn with_currency(self, currency: Currency) -> (r: LightningReceiveBuilder)
        ensures
            r.url == self.url,
            qview(r.params@) == qview(self.params@).push(("currency"@, currency_code(currency))),
    {
        let mut params = self.params;
        let ghost before = params@;
        params.push(("currency".to_owned(), currency.as_str().to_owned()));
        proof {
            assert(qview(params@) =~= qview(before).push(("currency"@, currency_code(currency))));
        }
        LightningReceiveBuilder { url: self.url, params }
    }

    /// Records a free-form description; everything already set is kept.
    pub fn with_description(self, description: &str) -> (r: LightningReceiveBuilder)
        ensures
            r.url == self.url,
            qview(r.params@) == qview(self.params@).push(("description"@, description@)),
    {
        let mut params = self.params;
        let ghost before = params@;
        params.push(("description".to_owned(), description.to_owned()));
        proof {
            assert(qview(params@) =~= qview(before).push(("description"@, description@)));
        }
        LightningReceiveBuilder { url: self.url, params }
    }

    /// Records the invoice expiry time; everything already set is kept.
    pub fn with_expires_at(self, expires_at: u64) -> (r: LightningReceiveBuilder)
        ensures
            r.url == self.url,
            qview(r.params@) == qview(self.params@).push(
                ("expires_at"@, spec_udigits(expires_at as nat)),
            ),
    {
        let mut params = self.params;
        let ghost before = params@;
        params.push(("expires_at".to_owned(), u64_string(expires_at)));
        proof {
            assert(qview(params@) =~= qview(before).push(
                ("expires_at"@, spec_udigits(expires_at as nat)),
            ));
        }
        LightningReceiveBuilder { url: self.url, params }
    }

    /// The one POST of the creation.
    pub fn create_request(self) -> (r: HttpRequest)
        ensures
            r.method == Method::Post,
            r.url@ == url_text(self.url),
            r.form@ == self.params@,
    {
        let text = self.url.to_text();
        HttpRequest { method: Method::Post, url: text, form: self.params }
    }
}

/// Parses the body of a lightning-send response.
pub fn parse_lightning_withdrawal_response(status: u16, body: &str) -> (r: Result<
    LightningWithdrawal,
    LunoError,
>)
    ensures
        match r {
            Ok(w) => status_ok(status) && (match spec_parse_json(body@) {
                Some(v) => spec_string_field(v, "invoice_id"@) == Some(w.invoice_id@)
                    && spec_string_field(v, "payment_request"@) == Some(w.payment_request@),
                None => false,
            }),
            Err(e) => !(e is Config || e is Transport),
        },
        r is Ok <==> status_ok(status) && (match spec_parse_json(body@) {
            Some(v) => spec_string_field(v, "invoice_id"@) is Some && spec_string_field(
                v,
                "payment_request"@,
            ) is Some,
            None => false,
        }),
{
    let v = crate::json::response_value(status, body)?;
    let invoice_id = v.get_string("invoice_id")?;
    let payment_request = v.get_string("payment_request")?;
    Ok(LightningWithdrawal { invoice_id, payment_request })
}

/// Parses the body of an invoice-creation response.
pub fn parse_lightning_receive_response(status: u16, body: &str) -> (r: Result<
    LightningReceiveRequest,
    LunoError,
>)
    ensures
        match r {
            Ok(w) => status_ok(status) && (match spec_parse_json(body@) {
                Some(v) => spec_string_field(v, "invoice_id"@) == Some(w.invoice_id@)
                    && spec_string_field(v, "payment_request"@) == Some(w.payment_request@),
                None => false,
            }),
            Err(e) => !(e is Config || e is Transport),
        },
        r is Ok <==> status_ok(status) && (match spec_parse_json(body@) {
            Some(v) => spec_string_field(v, "invoice_id"@) is Some && spec_string_field(
                v,
                "payment_request"@,
            ) is Some,
            None => false,
        }),
{
    let v = crate::json::response_value(status, body)?;
    let invoice_id = v.get_string("invoice_id")?;
    let payment_request = v.get_string("payment_request")?;
    Ok(LightningReceiveRequest { invoice_id, payment_request })
}

/// Parses the body of an invoice lookup.
pub fn parse_lightning_invoice_lookup_response(status: u16, body: &str) -> (r: Result<
    LightningInvoiceLookupResponse,
    LunoError,
>)
    ensures
        match r {
            Ok(w) => status_ok(status) && (match spec_parse_json(body@) {
                Some(v) => spec_string_field(v, "payment_request"@) == Some(w.payment_request@)
                    && spec_string_field(v, "settled_amount"@) == Some(w.settled_amount@)
                    && spec_string_field(v, "status"@) == Some(w.status@),
                None => false,
            }),
            Err(e) => !(e is Config || e is Transport),
        },
        r is Ok <==> status_ok(status) && (match spec_parse_json(body@) {
            Some(v) => spec_string_field(v, "payment_request"@) is Some && spec_string_field(
                v,
                "settled_amount"@,
            ) is Some && spec_string_field(v, "status"@) is Some,
            None => false,
        }),
{
    let v = crate::json::response_value(status, body)?;
    let payment_request = v.get_string("payment_request")?;
    let settled_amount = v.get_string("settled_amount")?;
    let status_text = v.get_string("status")?;
    Ok(
        LightningInvoiceLookupResponse {
            payment_request,
            settled_amount,
            status: status_text,
        },
    )
}

} // verus!
