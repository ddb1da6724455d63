//! Market data: asset codes, trading pairs and their exact wire forms,
//! plus tickers, order books and public trades.
//!
//! Each enumeration serializes to its exact uppercase identifier and
//! parses back case-sensitively; parsing and formatting are verified
//! inverses, and every string outside the code set is rejected.

use vstd::prelude::*;

use crate::decimal::Decimal;
use crate::error::LunoError;
use crate::json::{
    jget, jview, spec_decimal_field, spec_parse_json, spec_string_field, spec_u64_field,
    status_ok, Json, SpecJson,
};
use crate::text::str_eq;

verus! {

/// Supported asset codes.
#[derive(Clone, Copy, Debug, PartialEq, Eq, Structural)]
pub enum Currency {
    AUD,
    BCH,
    BTC,
    ETH,
    EUR,
    GBP,
    IDR,
    LTC,
    MYR,
    NGN,
    UGX,
    XBT,
    XRP,
    ZAR,
    ZMW,
}

/// The exact wire form of an asset code.
pub open spec fn currency_code(c: Currency) -> Seq<char> {
    match c {
        Currency::AUD => "AUD"@,
        Currency::BCH => "BCH"@,
        Currency::BTC => "BTC"@,
        Currency::ETH => "ETH"@,
        Currency::EUR => "EUR"@,
        Currency::GBP => "GBP"@,
        Currency::IDR => "IDR"@,
        Currency::LTC => "LTC"@,
        Currency::MYR => "MYR"@,
        Currency::NGN => "NGN"@,
        Currency::UGX => "UGX"@,
        Currency::XBT => "XBT"@,
        Currency::XRP => "XRP"@,
        Currency::ZAR => "ZAR"@,
        Currency::ZMW => "ZMW"@,
    }
}

/// The asset code a string denotes, if any: the inverse of
/// `currency_code`, with every other string refused.
pub open spec fn spec_currency_of(s: Seq<char>) -> Option<Currency> {
    if s == "AUD"@ {
        Some(Currency::AUD)
    } else if s == "BCH"@ {
        Some(Currency::BCH)
    } else if s == "BTC"@ {
        Some(Currency::BTC)
    } else if s == "ETH"@ {
        Some(Currency::ETH)
    } else if s == "EUR"@ {
        Some(Currency::EUR)
    } else if s == "GBP"@ {
        Some(Currency::GBP)
    } else if s == "IDR"@ {
        Some(Currency::IDR)
    } else if s == "LTC"@ {
        Some(Currency::LTC)
    } else if s == "MYR"@ {
        Some(Currency::MYR)
    } else if s == "NGN"@ {
        Some(Currency::NGN)
    } else if s == "UGX"@ {
        Some(Currency::UGX)
    } else if s == "XBT"@ {
        Some(Currency::XBT)
    } else if s == "XRP"@ {
        Some(Currency::XRP)
    } else if s == "ZAR"@ {
        Some(Currency::ZAR)
    } else if s == "ZMW"@ {
        Some(Currency::ZMW)
    } else {
        None
    }
}

impl Currency {
    /// The wire form of this asset code.
    pub fn as_str(&self) -> (r: &'static str)
        ensures
            r@ == currency_code(*self),
    {
        match self {
            Currency::AUD => "AUD",
            Currency::BCH => "BCH",
            Currency::BTC => "BTC",
            Currency::ETH => "ETH",
            Currency::EUR => "EUR",
            Currency::GBP => "GBP",
            Currency::IDR => "IDR",
            Currency::LTC => "LTC",
            Currency::MYR => "MYR",
            Currency::NGN => "NGN",
            Currency::UGX => "UGX",
            Currency::XBT => "XBT",
            Currency::XRP => "XRP",
            Currency::ZAR => "ZAR",
            Currency::ZMW => "ZMW",
        }
    }

    /// Reads an asset code, case-sensitively; any string outside the
    /// code set gives `None`.
    pub fn parse(s: &str) -> (r: Option<Currency>)
        ensures
            r == spec_currency_of(s@),
    {
        if str_eq(s, "AUD") {
            Some(Currency::AUD)
        } else if str_eq(s, "BCH") {
            Some(Currency::BCH)
        } else if str_eq(s, "BTC") {
            Some(Currency::BTC)
        } else if str_eq(s, "ETH") {
            Some(Currency::ETH)
        } else if str_eq(s, "EUR") {
            Some(Currency::EUR)
        } else if str_eq(s, "GBP") {
            Some(Currency::GBP)
        } else if str_eq(s, "IDR") {
            Some(Currency::IDR)
        } else if str_eq(s, "LTC") {
            Some(Currency::LTC)
        } else if str_eq(s, "MYR") {
            Some(Currency::MYR)
        } else if str_eq(s, "NGN") {
            Some(Currency::NGN)
        } else if str_eq(s, "UGX") {
            Some(Currency::UGX)
        } else if str_eq(s, "XBT") {
            Some(Currency::XBT)
        } else if str_eq(s, "XRP") {
            Some(Currency::XRP)
        } else if str_eq(s, "ZAR") {
            Some(Currency::ZAR)
        } else if str_eq(s, "ZMW") {
            Some(Currency::ZMW)
        } else {
            None
        }
    }
}

/// Law: every asset code round-trips through its wire form, and a
/// parsed code renders back to the very string that was parsed.
pub proof fn lemma_currency_round_trip(c: Currency, s: Seq<char>)
    ensures
        spec_currency_of(currency_code(c)) == Some(c),
        spec_currency_of(s) == Some(c) ==> currency_code(c) == s,
{
    reveal_strlit("AUD");
    reveal_strlit("BCH");
    reveal_strlit("BTC");
    reveal_strlit("ETH");
    reveal_strlit("EUR");
    reveal_strlit("GBP");
    reveal_strlit("IDR");
    reveal_strlit("LTC");
    reveal_strlit("MYR");
    reveal_strlit("NGN");
    reveal_strlit("UGX");
    reveal_strlit("XBT");
    reveal_strlit("XRP");
    reveal_strlit("ZAR");
    reveal_strlit("ZMW");
    assert("AUD"@.len() == 3 && "AUD"@[0] == 'A' && "AUD"@[1] == 'U' && "AUD"@[2] == 'D');
    assert("BCH"@.len() == 3 && "BCH"@[0] == 'B' && "BCH"@[1] == 'C' && "BCH"@[2] == 'H');
    assert("BTC"@.len() == 3 && "BTC"@[0] == 'B' && "BTC"@[1] == 'T' && "BTC"@[2] == 'C');
    assert("ETH"@.len() == 3 && "ETH"@[0] == 'E' && "ETH"@[1] == 'T' && "ETH"@[2] == 'H');
    assert("EUR"@.len() == 3 && "EUR"@[0] == 'E' && "EUR"@[1] == 'U' && "EUR"@[2] == 'R');
    assert("GBP"@.len() == 3 && "GBP"@[0] == 'G' && "GBP"@[1] == 'B' && "GBP"@[2] == 'P');
    assert("IDR"@.len() == 3 && "IDR"@[0] == 'I' && "IDR"@[1] == 'D' && "IDR"@[2] == 'R');
    assert("LTC"@.len() == 3 && "LTC"@[0] == 'L' && "LTC"@[1] == 'T' && "LTC"@[2] == 'C');
    assert("MYR"@.len() == 3 && "MYR"@[0] == 'M' && "MYR"@[1] == 'Y' && "MYR"@[2] == 'R');
    assert("NGN"@.len() == 3 && "NGN"@[0] == 'N' && "NGN"@[1] == 'G' && "NGN"@[2] == 'N');
    assert("UGX"@.len() == 3 && "UGX"@[0] == 'U' && "UGX"@[1] == 'G' && "UGX"@[2] == 'X');
    assert("XBT"@.len() == 3 && "XBT"@[0] == 'X' && "XBT"@[1] == 'B' && "XBT"@[2] == 'T');
    assert("XRP"@.len() == 3 && "XRP"@[0] == 'X' && "XRP"@[1] == 'R' && "XRP"@[2] == 'P');
    assert("ZAR"@.len() == 3 && "ZAR"@[0] == 'Z' && "ZAR"@[1] == 'A' && "ZAR"@[2] == 'R');
    assert("ZMW"@.len() == 3 && "ZMW"@[0] == 'Z' && "ZMW"@[1] == 'M' && "ZMW"@[2] == 'W');
    match c {
        Currency::AUD => {
            assert(spec_currency_of(currency_code(Currency::AUD)) == Some(Currency::AUD));
        },
        Currency::BCH => {
            assert(spec_currency_of(currency_code(Currency::BCH)) == Some(Currency::BCH));
        },
        Currency::BTC => {
            assert(spec_currency_of(currency_code(Currency::BTC)) == Some(Currency::BTC));
        },
        Currency::ETH => {
            assert(spec_currency_of(currency_code(Currency::ETH)) == Some(Currency::ETH));
        },
        Currency::EUR => {
            assert(spec_currency_of(currency_code(Currency::EUR)) == Some(Currency::EUR));
        },
        Currency::GBP => {
            assert(spec_currency_of(currency_code(Currency::GBP)) == Some(Currency::GBP));
        },
        Currency::IDR => {
            assert(spec_currency_of(currency_code(Currency::IDR)) == Some(Currency::IDR));
        },
        Currency::LTC => {
            assert(spec_currency_of(currency_code(Currency::LTC)) == Some(Currency::LTC));
        },
        Currency::MYR => {
            assert(spec_currency_of(currency_code(Currency::MYR)) == Some(Currency::MYR));
        },
        Currency::NGN => {
            assert(spec_currency_of(currency_code(Currency::NGN)) == Some(Currency::NGN));
        },
        Currency::UGX => {
            assert(spec_currency_of(currency_code(Currency::UGX)) == Some(Currency::UGX));
        },
        Currency::XBT => {
            assert(spec_currency_of(currency_code(Currency::XBT)) == Some(Currency::XBT));
        },
        Currency::XRP => {
            assert(spec_currency_of(currency_code(Currency::XRP)) == Some(Currency::XRP));
        },
        Currency::ZAR => {
            assert(spec_currency_of(currency_code(Currency::ZAR)) == Some(Currency::ZAR));
        },
        Currency::ZMW => {
            assert(spec_currency_of(currency_code(Currency::ZMW)) == Some(Currency::ZMW));
        },
    }
}

/// Supported market symbols.
#[derive(Clone, Copy, Debug, PartialEq, Eq, Structural)]
#[allow(non_camel_case_types)]
pub enum TradingPair {
    BCHXBT,
    ETHAUD,
    ETHEUR,
    ETHGBP,
    ETHIDR,
    ETHMYR,
    ETHNGN,
    ETHXBT,
    ETHZAR,
    LTCMYR,
    LTCXBT,
    LTCNGN,
    LTCZAR,
    XBTAUD,
    XBTEUR,
    XBTGBP,
    XBTIDR,
    XBTMYR,
    XBTNGN,
    XBTSGD,
    XBTUGX,
    XBTZAR,
    XBTZMW,
    XRPMYR,
    XRPNGN,
    XRPXBT,
    XRPZAR,
}

/// The exact wire form of a market symbol.
pub open spec fn pair_code(p: TradingPair) -> Seq<char> {
    match p {
        TradingPair::BCHXBT => "BCHXBT"@,
        TradingPair::ETHAUD => "ETHAUD"@,
        TradingPair::ETHEUR => "ETHEUR"@,
        TradingPair::ETHGBP => "ETHGBP"@,
        TradingPair::ETHIDR => "ETHIDR"@,
        TradingPair::ETHMYR => "ETHMYR"@,
        TradingPair::ETHNGN => "ETHNGN"@,
        TradingPair::ETHXBT => "ETHXBT"@,
        TradingPair::ETHZAR => "ETHZAR"@,
        TradingPair::LTCMYR => "LTCMYR"@,
        TradingPair::LTCXBT => "LTCXBT"@,
        TradingPair::LTCNGN => "LTCNGN"@,
        TradingPair::LTCZAR => "LTCZAR"@,
        TradingPair::XBTAUD => "XBTAUD"@,
        TradingPair::XBTEUR => "XBTEUR"@,
        TradingPair::XBTGBP => "XBTGBP"@,
        TradingPair::XBTIDR => "XBTIDR"@,
        TradingPair::XBTMYR => "XBTMYR"@,
        TradingPair::XBTNGN => "XBTNGN"@,
        TradingPair::XBTSGD => "XBTSGD"@,
        TradingPair::XBTUGX => "XBTUGX"@,
        TradingPair::XBTZAR => "XBTZAR"@,
        TradingPair::XBTZMW => "XBTZMW"@,
        TradingPair::XRPMYR => "XRPMYR"@,
        TradingPair::XRPNGN => "XRPNGN"@,
        TradingPair::XRPXBT => "XRPXBT"@,
        TradingPair::XRPZAR => "XRPZAR"@,
    }
}

/// The market symbol a string denotes, if any: the inverse of
/// `pair_code`, with every other string refused.
pub open spec fn spec_pair_of(s: Seq<char>) -> Option<TradingPair> {
    if s == "BCHXBT"@ {
        Some(TradingPair::BCHXBT)
    } else if s == "ETHAUD"@ {
        Some(TradingPair::ETHAUD)
    } else if s == "ETHEUR"@ {
        Some(TradingPair::ETHEUR)
    } else if s == "ETHGBP"@ {
        Some(TradingPair::ETHGBP)
    } else if s == "ETHIDR"@ {
        Some(TradingPair::ETHIDR)
    } else if s == "ETHMYR"@ {
        Some(TradingPair::ETHMYR)
    } else if s == "ETHNGN"@ {
        Some(TradingPair::ETHNGN)
    } else if s == "ETHXBT"@ {
        Some(TradingPair::ETHXBT)
    } else if s == "ETHZAR"@ {
        Some(TradingPair::ETHZAR)
    } else if s == "LTCMYR"@ {
        Some(TradingPair::LTCMYR)
    } else if s == "LTCXBT"@ {
        Some(TradingPair::LTCXBT)
    } else if s == "LTCNGN"@ {
        Some(TradingPair::LTCNGN)
    } else if s == "LTCZAR"@ {
        Some(TradingPair::LTCZAR)
    } else if s == "XBTAUD"@ {
        Some(TradingPair::XBTAUD)
    } else if s == "XBTEUR"@ {
        Some(TradingPair::XBTEUR)
    } else if s == "XBTGBP"@ {
        Some(TradingPair::XBTGBP)
    } else if s == "XBTIDR"@ {
        Some(TradingPair::XBTIDR)
    } else if s == "XBTMYR"@ {
        Some(TradingPair::XBTMYR)
    } else if s == "XBTNGN"@ {
        Some(TradingPair::XBTNGN)
    } else if s == "XBTSGD"@ {
        Some(TradingPair::XBTSGD)
    } else if s == "XBTUGX"@ {
        Some(TradingPair::XBTUGX)
    } else if s == "XBTZAR"@ {
        Some(TradingPair::XBTZAR)
    } else if s == "XBTZMW"@ {
        Some(TradingPair::XBTZMW)
    } else if s == "XRPMYR"@ {
        Some(TradingPair::XRPMYR)
    } else if s == "XRPNGN"@ {
        Some(TradingPair::XRPNGN)
    } else if s == "XRPXBT"@ {
        Some(TradingPair::XRPXBT)
    } else if s == "XRPZAR"@ {
        Some(TradingPair::XRPZAR)
    } else {
        None
    }
}

impl TradingPair {
    /// The wire form of this market symbol.
    pub fn as_str(&self) -> (r: &'static str)
        ensures
            r@ == pair_code(*self),
    {
        match self {
            TradingPair::BCHXBT => "BCHXBT",
            TradingPair::ETHAUD => "ETHAUD",
            TradingPair::ETHEUR => "ETHEUR",
            TradingPair::ETHGBP => "ETHGBP",
            TradingPair::ETHIDR => "ETHIDR",
            TradingPair::ETHMYR => "ETHMYR",
            TradingPair::ETHNGN => "ETHNGN",
            TradingPair::ETHXBT => "ETHXBT",
            TradingPair::ETHZAR => "ETHZAR",
            TradingPair::LTCMYR => "LTCMYR",
            TradingPair::LTCXBT => "LTCXBT",
            TradingPair::LTCNGN => "LTCNGN",
            TradingPair::LTCZAR => "LTCZAR",
            TradingPair::XBTAUD => "XBTAUD",
            TradingPair::XBTEUR => "XBTEUR",
            TradingPair::XBTGBP => "XBTGBP",
            TradingPair::XBTIDR => "XBTIDR",
            TradingPair::XBTMYR => "XBTMYR",
            TradingPair::XBTNGN => "XBTNGN",
            TradingPair::XBTSGD => "XBTSGD",
            TradingPair::XBTUGX => "XBTUGX",
            TradingPair::XBTZAR => "XBTZAR",
            TradingPair::XBTZMW => "XBTZMW",
            TradingPair::XRPMYR => "XRPMYR",
            TradingPair::XRPNGN => "XRPNGN",
            TradingPair::XRPXBT => "XRPXBT",
            TradingPair::XRPZAR => "XRPZAR",
        }
    }

    /// Reads a market symbol, case-sensitively; any string outside the
    /// code set gives `None`.
    pub fn parse(s: &str) -> (r: Option<TradingPair>)
        ensures
            r == spec_pair_of(s@),
    {
        if str_eq(s, "BCHXBT") {
            Some(TradingPair::BCHXBT)
        } else if str_eq(s, "ETHAUD") {
            Some(TradingPair::ETHAUD)
        } else if str_eq(s, "ETHEUR") {
            Some(TradingPair::ETHEUR)
        } else if str_eq(s, "ETHGBP") {
            Some(TradingPair::ETHGBP)
        } else if str_eq(s, "ETHIDR") {
            Some(TradingPair::ETHIDR)
        } else if str_eq(s, "ETHMYR") {
            Some(TradingPair::ETHMYR)
        } else if str_eq(s, "ETHNGN") {
            Some(TradingPair::ETHNGN)
        } else if str_eq(s, "ETHXBT") {
            Some(TradingPair::ETHXBT)
        } else if str_eq(s, "ETHZAR") {
            Some(TradingPair::ETHZAR)
        } else if str_eq(s, "LTCMYR") {
            Some(TradingPair::LTCMYR)
        } else if str_eq(s, "LTCXBT") {
            Some(TradingPair::LTCXBT)
        } else if str_eq(s, "LTCNGN") {
            Some(TradingPair::LTCNGN)
        } else if str_eq(s, "LTCZAR") {
            Some(TradingPair::LTCZAR)
        } else if str_eq(s, "XBTAUD") {
            Some(TradingPair::XBTAUD)
        } else if str_eq(s, "XBTEUR") {
            Some(TradingPair::XBTEUR)
        } else if str_eq(s, "XBTGBP") {
            Some(TradingPair::XBTGBP)
        } else if str_eq(s, "XBTIDR") {
            Some(TradingPair::XBTIDR)
        } else if str_eq(s, "XBTMYR") {
            Some(TradingPair::XBTMYR)
        } else if str_eq(s, "XBTNGN") {
            Some(TradingPair::XBTNGN)
        } else if str_eq(s, "XBTSGD") {
            Some(TradingPair::XBTSGD)
        } else if str_eq(s, "XBTUGX") {
            Some(TradingPair::XBTUGX)
        } else if str_eq(s, "XBTZAR") {
            Some(TradingPair::XBTZAR)
        } else if str_eq(s, "XBTZMW") {
            Some(TradingPair::XBTZMW)
        } else if str_eq(s, "XRPMYR") {
            Some(TradingPair::XRPMYR)
        } else if str_eq(s, "XRPNGN") {
            Some(TradingPair::XRPNGN)
        } else if str_eq(s, "XRPXBT") {
            Some(TradingPair::XRPXBT)
        } else if str_eq(s, "XRPZAR") {
            Some(TradingPair::XRPZAR)
        } else {
            None
        }
    }
}

/// Law: every market symbol round-trips through its wire form, and a
/// parsed symbol renders back to the very string that was parsed.
pub proof fn lemma_pair_round_trip(p: TradingPair, s: Seq<char>)
    ensures
        spec_pair_of(pair_code(p)) == Some(p),
        spec_pair_of(s) == Some(p) ==> pair_code(p) == s,
{
    reveal_strlit("BCHXBT");
    reveal_strlit("ETHAUD");
    reveal_strlit("ETHEUR");
    reveal_strlit("ETHGBP");
    reveal_strlit("ETHIDR");
    reveal_strlit("ETHMYR");
    reveal_strlit("ETHNGN");
    reveal_strlit("ETHXBT");
    reveal_strlit("ETHZAR");
    reveal_strlit("LTCMYR");
    reveal_strlit("LTCXBT");
    reveal_strlit("LTCNGN");
    reveal_strlit("LTCZAR");
    reveal_strlit("XBTAUD");
    reveal_strlit("XBTEUR");
    reveal_strlit("XBTGBP");
    reveal_strlit("XBTIDR");
    reveal_strlit("XBTMYR");
    reveal_strlit("XBTNGN");
    reveal_strlit("XBTSGD");
    reveal_strlit("XBTUGX");
    reveal_strlit("XBTZAR");
    reveal_strlit("XBTZMW");
    reveal_strlit("XRPMYR");
    reveal_strlit("XRPNGN");
    reveal_strlit("XRPXBT");
    reveal_strlit("XRPZAR");
    assert("BCHXBT"@.len() == 6 && "BCHXBT"@[0] == 'B' && "BCHXBT"@[1] == 'C' && "BCHXBT"@[2] == 'H' && "BCHXBT"@[3] == 'X' && "BCHXBT"@[4] == 'B' && "BCHXBT"@[5] == 'T');
    assert("ETHAUD"@.len() == 6 && "ETHAUD"@[0] == 'E' && "ETHAUD"@[1] == 'T' && "ETHAUD"@[2] == 'H' && "ETHAUD"@[3] == 'A' && "ETHAUD"@[4] == 'U' && "ETHAUD"@[5] == 'D');
    assert("ETHEUR"@.len() == 6 && "ETHEUR"@[0] == 'E' && "ETHEUR"@[1] == 'T' && "ETHEUR"@[2] == 'H' && "ETHEUR"@[3] == 'E' && "ETHEUR"@[4] == 'U' && "ETHEUR"@[5] == 'R');
    assert("ETHGBP"@.len() == 6 && "ETHGBP"@[0] == 'E' && "ETHGBP"@[1] == 'T' && "ETHGBP"@[2] == 'H' && "ETHGBP"@[3] == 'G' && "ETHGBP"@[4] == 'B' && "ETHGBP"@[5] == 'P');
    assert("ETHIDR"@.len() == 6 && "ETHIDR"@[0] == 'E' && "ETHIDR"@[1] == 'T' && "ETHIDR"@[2] == 'H' && "ETHIDR"@[3] == 'I' && "ETHIDR"@[4] == 'D' && "ETHIDR"@[5] == 'R');
    assert("ETHMYR"@.len() == 6 && "ETHMYR"@[0] == 'E' && "ETHMYR"@[1] == 'T' && "ETHMYR"@[2] == 'H' && "ETHMYR"@[3] == 'M' && "ETHMYR"@[4] == 'Y' && "ETHMYR"@[5] == 'R');
    assert("ETHNGN"@.len() == 6 && "ETHNGN"@[0] == 'E' && "ETHNGN"@[1] == 'T' && "ETHNGN"@[2] == 'H' && "ETHNGN"@[3] == 'N' && "ETHNGN"@[4] == 'G' && "ETHNGN"@[5] == 'N');
    assert("ETHXBT"@.len() == 6 && "ETHXBT"@[0] == 'E' && "ETHXBT"@[1] == 'T' && "ETHXBT"@[2] == 'H' && "ETHXBT"@[3] == 'X' && "ETHXBT"@[4] == 'B' && "ETHXBT"@[5] == 'T');
    assert("ETHZAR"@.len() == 6 && "ETHZAR"@[0] == 'E' && "ETHZAR"@[1] == 'T' && "ETHZAR"@[2] == 'H' && "ETHZAR"@[3] == 'Z' && "ETHZAR"@[4] == 'A' && "ETHZAR"@[5] == 'R');
    assert("LTCMYR"@.len() == 6 && "LTCMYR"@[0] == 'L' && "LTCMYR"@[1] == 'T' && "LTCMYR"@[2] == 'C' && "LTCMYR"@[3] == 'M' && "LTCMYR"@[4] == 'Y' && "LTCMYR"@[5] == 'R');
    assert("LTCXBT"@.len() == 6 && "LTCXBT"@[0] == 'L' && "LTCXBT"@[1] == 'T' && "LTCXBT"@[2] == 'C' && "LTCXBT"@[3] == 'X' && "LTCXBT"@[4] == 'B' && "LTCXBT"@[5] == 'T');
    assert("LTCNGN"@.len() == 6 && "LTCNGN"@[0] == 'L' && "LTCNGN"@[1] == 'T' && "LTCNGN"@[2] == 'C' && "LTCNGN"@[3] == 'N' && "LTCNGN"@[4] == 'G' && "LTCNGN"@[5] == 'N');
    assert("LTCZAR"@.len() == 6 && "LTCZAR"@[0] == 'L' && "LTCZAR"@[1] == 'T' && "LTCZAR"@[2] == 'C' && "LTCZAR"@[3] == 'Z' && "LTCZAR"@[4] == 'A' && "LTCZAR"@[5] == 'R');
    assert("XBTAUD"@.len() == 6 && "XBTAUD"@[0] == 'X' && "XBTAUD"@[1] == 'B' && "XBTAUD"@[2] == 'T' && "XBTAUD"@[3] == 'A' && "XBTAUD"@[4] == 'U' && "XBTAUD"@[5] == 'D');
    assert("XBTEUR"@.len() == 6 && "XBTEUR"@[0] == 'X' && "XBTEUR"@[1] == 'B' && "XBTEUR"@[2] == 'T' && "XBTEUR"@[3] == 'E' && "XBTEUR"@[4] == 'U' && "XBTEUR"@[5] == 'R');
    assert("XBTGBP"@.len() == 6 && "XBTGBP"@[0] == 'X' && "XBTGBP"@[1] == 'B' && "XBTGBP"@[2] == 'T' && "XBTGBP"@[3] == 'G' && "XBTGBP"@[4] == 'B' && "XBTGBP"@[5] == 'P');
    assert("XBTIDR"@.len() == 6 && "XBTIDR"@[0] == 'X' && "XBTIDR"@[1] == 'B' && "XBTIDR"@[2] == 'T' && "XBTIDR"@[3] == 'I' && "XBTIDR"@[4] == 'D' && "XBTIDR"@[5] == 'R');
    assert("XBTMYR"@.len() == 6 && "XBTMYR"@[0] == 'X' && "XBTMYR"@[1] == 'B' && "XBTMYR"@[2] == 'T' && "XBTMYR"@[3] == 'M' && "XBTMYR"@[4] == 'Y' && "XBTMYR"@[5] == 'R');
    assert("XBTNGN"@.len() == 6 && "XBTNGN"@[0] == 'X' && "XBTNGN"@[1] == 'B' && "XBTNGN"@[2] == 'T' && "XBTNGN"@[3] == 'N' && "XBTNGN"@[4] == 'G' && "XBTNGN"@[5] == 'N');
    assert("XBTSGD"@.len() == 6 && "XBTSGD"@[0] == 'X' && "XBTSGD"@[1] == 'B' && "XBTSGD"@[2] == 'T' && "XBTSGD"@[3] == 'S' && "XBTSGD"@[4] == 'G' && "XBTSGD"@[5] == 'D');
    assert("XBTUGX"@.len() == 6 && "XBTUGX"@[0] == 'X' && "XBTUGX"@[1] == 'B' && "XBTUGX"@[2] == 'T' && "XBTUGX"@[3] == 'U' && "XBTUGX"@[4] == 'G' && "XBTUGX"@[5] == 'X');
    assert("XBTZAR"@.len() == 6 && "XBTZAR"@[0] == 'X' && "XBTZAR"@[1] == 'B' && "XBTZAR"@[2] == 'T' && "XBTZAR"@[3] == 'Z' && "XBTZAR"@[4] == 'A' && "XBTZAR"@[5] == 'R');
    assert("XBTZMW"@.len() == 6 && "XBTZMW"@[0] == 'X' && "XBTZMW"@[1] == 'B' && "XBTZMW"@[2] == 'T' && "XBTZMW"@[3] == 'Z' && "XBTZMW"@[4] == 'M' && "XBTZMW"@[5] == 'W');
    assert("XRPMYR"@.len() == 6 && "XRPMYR"@[0] == 'X' && "XRPMYR"@[1] == 'R' && "XRPMYR"@[2] == 'P' && "XRPMYR"@[3] == 'M' && "XRPMYR"@[4] == 'Y' && "XRPMYR"@[5] == 'R');
    assert("XRPNGN"@.len() == 6 && "XRPNGN"@[0] == 'X' && "XRPNGN"@[1] == 'R' && "XRPNGN"@[2] == 'P' && "XRPNGN"@[3] == 'N' && "XRPNGN"@[4] == 'G' && "XRPNGN"@[5] == 'N');
    assert("XRPXBT"@.len() == 6 && "XRPXBT"@[0] == 'X' && "XRPXBT"@[1] == 'R' && "XRPXBT"@[2] == 'P' && "XRPXBT"@[3] == 'X' && "XRPXBT"@[4] == 'B' && "XRPXBT"@[5] == 'T');
    assert("XRPZAR"@.len() == 6 && "XRPZAR"@[0] == 'X' && "XRPZAR"@[1] == 'R' && "XRPZAR"@[2] == 'P' && "XRPZAR"@[3] == 'Z' && "XRPZAR"@[4] == 'A' && "XRPZAR"@[5] == 'R');
    match p {
        TradingPair::BCHXBT => {
            assert(spec_pair_of(pair_code(TradingPair::BCHXBT)) == Some(TradingPair::BCHXBT));
        },
        TradingPair::ETHAUD => {
            assert(spec_pair_of(pair_code(TradingPair::ETHAUD)) == Some(TradingPair::ETHAUD));
        },
        TradingPair::ETHEUR => {
            assert(spec_pair_of(pair_code(TradingPair::ETHEUR)) == Some(TradingPair::ETHEUR));
        },
        TradingPair::ETHGBP => {
            assert(spec_pair_of(pair_code(TradingPair::ETHGBP)) == Some(TradingPair::ETHGBP));
        },
        TradingPair::ETHIDR => {
            assert(spec_pair_of(pair_code(TradingPair::ETHIDR)) == Some(TradingPair::ETHIDR));
        },
        TradingPair::ETHMYR => {
            assert(spec_pair_of(pair_code(TradingPair::ETHMYR)) == Some(TradingPair::ETHMYR));
        },
        TradingPair::ETHNGN => {
            assert(spec_pair_of(pair_code(TradingPair::ETHNGN)) == Some(TradingPair::ETHNGN));
        },
        TradingPair::ETHXBT => {
            assert(spec_pair_of(pair_code(TradingPair::ETHXBT)) == Some(TradingPair::ETHXBT));
        },
        TradingPair::ETHZAR => {
            assert(spec_pair_of(pair_code(TradingPair::ETHZAR)) == Some(TradingPair::ETHZAR));
        },
        TradingPair::LTCMYR => {
            assert(spec_pair_of(pair_code(TradingPair::LTCMYR)) == Some(TradingPair::LTCMYR));
        },
        TradingPair::LTCXBT => {
            assert(spec_pair_of(pair_code(TradingPair::LTCXBT)) == Some(TradingPair::LTCXBT));
        },
        TradingPair::LTCNGN => {
            assert(spec_pair_of(pair_code(TradingPair::LTCNGN)) == Some(TradingPair::LTCNGN));
        },
        TradingPair::LTCZAR => {
            assert(spec_pair_of(pair_code(TradingPair::LTCZAR)) == Some(TradingPair::LTCZAR));
        },
        TradingPair::XBTAUD => {
            assert(spec_pair_of(pair_code(TradingPair::XBTAUD)) == Some(TradingPair::XBTAUD));
        },
        TradingPair::XBTEUR => {
            assert(spec_pair_of(pair_code(TradingPair::XBTEUR)) == Some(TradingPair::XBTEUR));
        },
        TradingPair::XBTGBP => {
            assert(spec_pair_of(pair_code(TradingPair::XBTGBP)) == Some(TradingPair::XBTGBP));
        },
        TradingPair::XBTIDR => {
            assert(spec_pair_of(pair_code(TradingPair::XBTIDR)) == Some(TradingPair::XBTIDR));
        },
        TradingPair::XBTMYR => {
            assert(spec_pair_of(pair_code(TradingPair::XBTMYR)) == Some(TradingPair::XBTMYR));
        },
        TradingPair::XBTNGN => {
            assert(spec_pair_of(pair_code(TradingPair::XBTNGN)) == Some(TradingPair::XBTNGN));
        },
        TradingPair::XBTSGD => {
            assert(spec_pair_of(pair_code(TradingPair::XBTSGD)) == Some(TradingPair::XBTSGD));
        },
        TradingPair::XBTUGX => {
            assert(spec_pair_of(pair_code(TradingPair::XBTUGX)) == Some(TradingPair::XBTUGX));
        },
        TradingPair::XBTZAR => {
            assert(spec_pair_of(pair_code(TradingPair::XBTZAR)) == Some(TradingPair::XBTZAR));
        },
        TradingPair::XBTZMW => {
            assert(spec_pair_of(pair_code(TradingPair::XBTZMW)) == Some(TradingPair::XBTZMW));
        },
        TradingPair::XRPMYR => {
            assert(spec_pair_of(pair_code(TradingPair::XRPMYR)) == Some(TradingPair::XRPMYR));
        },
        TradingPair::XRPNGN => {
            assert(spec_pair_of(pair_code(TradingPair::XRPNGN)) == Some(TradingPair::XRPNGN));
        },
        TradingPair::XRPXBT => {
            assert(spec_pair_of(pair_code(TradingPair::XRPXBT)) == Some(TradingPair::XRPXBT));
        },
        TradingPair::XRPZAR => {
            assert(spec_pair_of(pair_code(TradingPair::XRPZAR)) == Some(TradingPair::XRPZAR));
        },
    }
}

/// A snapshot of the latest market indicators for one pair; created
/// fresh per call and never cached.
#[derive(Clone, Copy, Debug, PartialEq, Eq, Structural)]
pub struct Ticker {
    pub ask: Decimal,
    pub bid: Decimal,
    pub last_trade: Decimal,
    pub pair: TradingPair,
    pub rolling_24_hour_volume: Decimal,
    pub timestamp: u64,
}

/// One resting bid: a price and the volume offered at it.
#[derive(Clone, Copy, Debug, PartialEq, Eq, Structural)]
pub struct Bid {
    pub price: Decimal,
    pub volume: Decimal,
}

/// One resting ask: a price and the volume offered at it.
#[derive(Clone, Copy, Debug, PartialEq, Eq, Structural)]
pub struct Ask {
    pub price: Decimal,
    pub volume: Decimal,
}

/// The order book as the exchange sent it: asks ascending and bids
/// descending by price; the order of arrival is preserved, never
/// re-sorted locally.
#[derive(Clone, Debug)]
pub struct Orderbook {
    pub asks: Vec<Ask>,
    pub bids: Vec<Bid>,
    pub timestamp: u64,
}

/// One public market trade.
#[derive(Clone, Copy, Debug, PartialEq, Eq, Structural)]
pub struct Trade {
    pub is_buy: bool,
    pub price: Decimal,
    pub timestamp: u64,
    pub volume: Decimal,
}

/// The tickers of all active markets.
#[derive(Clone, Debug)]
pub struct ListTickersResponse {
    pub tickers: Vec<Ticker>,
}

/// The most recent public trades of one market.
#[derive(Clone, Debug)]
pub struct ListTradesResponse {
    pub trades: Vec<Trade>,
}


/// A ticker read correctly from a response value.
pub open spec fn ticker_matches(v: SpecJson, t: Ticker) -> bool {
    &&& spec_decimal_field(v, "ask"@) == Some(t.ask)
    &&& spec_decimal_field(v, "bid"@) == Some(t.bid)
    &&& spec_decimal_field(v, "last_trade"@) == Some(t.last_trade)
    &&& (match spec_string_field(v, "pair"@) {
        Some(code) => spec_pair_of(code) == Some(t.pair),
        None => false,
    })
    &&& spec_decimal_field(v, "rolling_24_hour_volume"@) == Some(t.rolling_24_hour_volume)
    &&& spec_u64_field(v, "timestamp"@) == Some(t.timestamp)
}

/// Every field of a ticker is present and well-formed.
pub open spec fn ticker_shape_ok(v: SpecJson) -> bool {
    &&& spec_decimal_field(v, "ask"@) is Some
    &&& spec_decimal_field(v, "bid"@) is Some
    &&& spec_decimal_field(v, "last_trade"@) is Some
    &&& (match spec_string_field(v, "pair"@) {
        Some(code) => spec_pair_of(code) is Some,
        None => false,
    })
    &&& spec_decimal_field(v, "rolling_24_hour_volume"@) is Some
    &&& spec_u64_field(v, "timestamp"@) is Some
}

/// Every element of a list is a well-formed ticker.
pub open spec fn all_tickers_shape_ok(items: Seq<SpecJson>) -> bool {
    forall|i: int| 0 <= i < items.len() ==> ticker_shape_ok(#[trigger] items[i])
}

/// Each element read correctly, in order.
pub open spec fn tickers_match(items: Seq<SpecJson>, ts: Seq<Ticker>) -> bool {
    ts.len() == items.len() && (forall|i: int|
        0 <= i < items.len() ==> ticker_matches(#[trigger] items[i], ts[i]))
}

/// Reads one ticker from a response value.
pub fn ticker_from_json(v: &Json) -> (r: Result<Ticker, LunoError>)
    ensures
        match r {
            Ok(t) => ticker_matches(v@, t),
            Err(e) => e is Decode,
        },
        r is Ok <==> ticker_shape_ok(v@),
{
    let ask = v.get_decimal("ask")?;
    let bid = v.get_decimal("bid")?;
    let last_trade = v.get_decimal("last_trade")?;
    let pair_text = v.get_string("pair")?;
    let pair = match TradingPair::parse(pair_text.as_str()) {
        Some(p) => p,
        None => {
            return Err(LunoError::Decode("not a market symbol: pair".to_owned()));
        },
    };
    let rolling_24_hour_volume = v.get_decimal("rolling_24_hour_volume")?;
    let timestamp = v.get_u64("timestamp")?;
    Ok(Ticker { ask, bid, last_trade, pair, rolling_24_hour_volume, timestamp })
}

/// Parses the body of a ticker response.
pub fn parse_ticker_response(status: u16, body: &str) -> (r: Result<Ticker, LunoError>)
    ensures
        match r {
            Ok(t) => status_ok(status) && (match spec_parse_json(body@) {
                Some(v) => ticker_matches(v, t),
                None => false,
            }),
            Err(e) => !(e is Config || e is Transport),
        },
        r is Ok <==> status_ok(status) && (match spec_parse_json(body@) {
            Some(v) => ticker_shape_ok(v),
            None => false,
        }),
{
    let v = crate::json::response_value(status, body)?;
    ticker_from_json(&v)
}

/// Parses the body of an all-markets ticker response: the tickers
/// under the `tickers` key, or the empty sequence when it is absent.
pub fn parse_list_tickers_response(status: u16, body: &str) -> (r: Result<Vec<Ticker>, LunoError>)
    ensures
        match r {
            Ok(ts) => status_ok(status) && (match spec_parse_json(body@) {
                Some(v) => match jget(v, "tickers"@) {
                    None => ts@.len() == 0,
                    Some(SpecJson::Arr(items)) => tickers_match(items, ts@),
                    Some(_) => false,
                },
                None => false,
            }),
            Err(e) => !(e is Config || e is Transport),
        },
        r is Ok <==> status_ok(status) && (match spec_parse_json(body@) {
            Some(v) => match jget(v, "tickers"@) {
                None => true,
                Some(SpecJson::Arr(items)) => all_tickers_shape_ok(items),
                Some(_) => false,
            },
            None => false,
        }),
{
    let v = crate::json::response_value(status, body)?;
    match v.get("tickers") {
        None => Ok(Vec::new()),
        Some(Json::Arr(items)) => {
            let ghost itemsv = jget(v@, "tickers"@).unwrap()->Arr_0;
            proof {
                assert(forall|q: int|
                    0 <= q < itemsv.len() ==> #[trigger] itemsv[q] == jview(items@[q]));
            }
            let n = items.len();
            let mut out: Vec<Ticker> = Vec::new();
            let mut i: usize = 0;
            while i < n
                invariant
                    n == items@.len(),
                    i <= n,
                    itemsv.len() == n,
                    forall|q: int|
                        0 <= q < itemsv.len() ==> #[trigger] itemsv[q] == jview(items@[q]),
                    jget(v@, "tickers"@) == Some(SpecJson::Arr(itemsv)),
                    spec_parse_json(body@) == Some(v@),
                    status_ok(status),
                    out@.len() == i,
                    forall|q: int| 0 <= q < i ==> ticker_matches(itemsv[q], #[trigger] out@[q]),
                    forall|q: int| 0 <= q < i ==> ticker_shape_ok(#[trigger] itemsv[q]),
                decreases n - i,
            {
                proof {
                    assert(itemsv[i as int] == jview(items@[i as int]));
                }
                let t = match ticker_from_json(&items[i]) {
                    Ok(t) => t,
                    Err(e) => {
                        proof {
                            assert(itemsv[i as int] == jview(items@[i as int]));
                            assert(!ticker_shape_ok(itemsv[i as int]));
                            assert(!all_tickers_shape_ok(itemsv));
                        }
                        return Err(e);
                    },
                };
                out.push(t);
                i += 1;
            }
            proof {
                assert(tickers_match(itemsv, out@));
                assert(all_tickers_shape_ok(itemsv));
            }
            Ok(out)
        },
        Some(other) => {
            proof {
                assert(!(jview(*other) is Arr)) by {
                    match other {
                        Json::Null => {},
                        Json::Bool(_) => {},
                        Json::Num(_) => {},
                        Json::Str(_) => {},
                        Json::Arr(_) => {
                            assert(false);
                        },
                        Json::Obj(_) => {},
                    }
                }
            }
            Err(LunoError::Decode("tickers is not an array".to_owned()))
        },
    }
}

/// A price level read correctly from a response value.
pub open spec fn level_matches(v: SpecJson, price: Decimal, volume: Decimal) -> bool {
    &&& spec_decimal_field(v, "price"@) == Some(price)
    &&& spec_decimal_field(v, "volume"@) == Some(volume)
}

/// A price level is present and well-formed.
pub open spec fn level_shape_ok(v: SpecJson) -> bool {
    spec_decimal_field(v, "price"@) is Some && spec_decimal_field(v, "volume"@) is Some
}

/// Every element of a list is a well-formed price level.
pub open spec fn all_levels_shape_ok(items: Seq<SpecJson>) -> bool {
    forall|i: int| 0 <= i < items.len() ==> level_shape_ok(#[trigger] items[i])
}

/// One side of the book is absent, or an array of well-formed levels.
pub open spec fn side_shape_ok(v: SpecJson, key: Seq<char>) -> bool {
    match jget(v, key) {
        None => true,
        Some(SpecJson::Arr(items)) => all_levels_shape_ok(items),
        Some(_) => false,
    }
}

/// Each ask read correctly, in order.
pub open spec fn asks_match(items: Seq<SpecJson>, xs: Seq<Ask>) -> bool {
    xs.len() == items.len() && (forall|i: int|
        0 <= i < items.len() ==> level_matches(#[trigger] items[i], xs[i].price, xs[i].volume))
}

/// Each bid read correctly, in order.
pub open spec fn bids_match(items: Seq<SpecJson>, xs: Seq<Bid>) -> bool {
    xs.len() == items.len() && (forall|i: int|
        0 <= i < items.len() ==> level_matches(#[trigger] items[i], xs[i].price, xs[i].volume))
}

/// Parses the body of an order-book response: asks and bids in the
/// exchange's own order, never re-sorted; an absent side is empty.
pub fn parse_orderbook_response(status: u16, body: &str) -> (r: Result<Orderbook, LunoError>)
    ensures
        match r {
            Ok(ob) => status_ok(status) && (match spec_parse_json(body@) {
                Some(v) => {
                    &&& spec_u64_field(v, "timestamp"@) == Some(ob.timestamp)
                    &&& match jget(v, "asks"@) {
                        None => ob.asks@.len() == 0,
                        Some(SpecJson::Arr(items)) => asks_match(items, ob.asks@),
                        Some(_) => false,
                    }
                    &&& match jget(v, "bids"@) {
                        None => ob.bids@.len() == 0,
                        Some(SpecJson::Arr(items)) => bids_match(items, ob.bids@),
                        Some(_) => false,
                    }
                },
                None => false,
            }),
            Err(e) => !(e is Config || e is Transport),
        },
        r is Ok <==> status_ok(status) && (match spec_parse_json(body@) {
            Some(v) => spec_u64_field(v, "timestamp"@) is Some && side_shape_ok(v, "asks"@)
                && side_shape_ok(v, "bids"@),
            None => false,
        }),
{
    let v = crate::json::response_value(status, body)?;
    let timestamp = v.get_u64("timestamp")?;
    let asks: Vec<Ask> = match v.get("asks") {
        None => Vec::new(),
        Some(Json::Arr(items)) => {
            let ghost itemsv = jget(v@, "asks"@).unwrap()->Arr_0;
            proof {
                assert(forall|q: int|
                    0 <= q < itemsv.len() ==> #[trigger] itemsv[q] == jview(items@[q]));
            }
            let n = items.len();
            let mut out: Vec<Ask> = Vec::new();
            let mut i: usize = 0;
            while i < n
                invariant
                    n == items@.len(),
                    i <= n,
                    itemsv.len() == n,
                    forall|q: int|
                        0 <= q < itemsv.len() ==> #[trigger] itemsv[q] == jview(items@[q]),
                    jget(v@, "asks"@) == Some(SpecJson::Arr(itemsv)),
                    spec_parse_json(body@) == Some(v@),
                    status_ok(status),
                    out@.len() == i,
                    forall|q: int|
                        0 <= q < i ==> level_matches(
                            itemsv[q],
                            #[trigger] out@[q].price,
                            out@[q].volume,
                        ),
                    forall|q: int| 0 <= q < i ==> level_shape_ok(#[trigger] itemsv[q]),
                decreases n - i,
            {
                proof {
                    assert(itemsv[i as int] == jview(items@[i as int]));
                }
                let price = match items[i].get_decimal("price") {
                    Ok(d) => d,
                    Err(e) => {
                        proof {
                            assert(!level_shape_ok(itemsv[i as int]));
                            assert(!all_levels_shape_ok(itemsv));
                        }
                        return Err(e);
                    },
                };
                let volume = match items[i].get_decimal("volume") {
                    Ok(d) => d,
                    Err(e) => {
                        proof {
                            assert(!level_shape_ok(itemsv[i as int]));
                            assert(!all_levels_shape_ok(itemsv));
                        }
                        return Err(e);
                    },
                };
                out.push(Ask { price, volume });
                i += 1;
            }
            proof {
                assert(asks_match(itemsv, out@));
                assert(all_levels_shape_ok(itemsv));
            }
            out
        },
        Some(other) => {
            proof {
                assert(!(jview(*other) is Arr)) by {
                    match other {
                        Json::Null => {},
                        Json::Bool(_) => {},
                        Json::Num(_) => {},
                        Json::Str(_) => {},
                        Json::Arr(_) => {
                            assert(false);
                        },
                        Json::Obj(_) => {},
                    }
                }
            }
            return Err(LunoError::Decode("asks is not an array".to_owned()));
        },
    };
    let bids: Vec<Bid> = match v.get("bids") {
        None => Vec::new(),
        Some(Json::Arr(items)) => {
            let ghost itemsv = jget(v@, "bids"@).unwrap()->Arr_0;
            proof {
                assert(forall|q: int|
                    0 <= q < itemsv.len() ==> #[trigger] itemsv[q] == jview(items@[q]));
            }
            let n = items.len();
            let mut out: Vec<Bid> = Vec::new();
            let mut i: usize = 0;
            while i < n
                invariant
                    n == items@.len(),
                    i <= n,
                    itemsv.len() == n,
                    forall|q: int|
                        0 <= q < itemsv.len() ==> #[trigger] itemsv[q] == jview(items@[q]),
                    jget(v@, "bids"@) == Some(SpecJson::Arr(itemsv)),
                    spec_parse_json(body@) == Some(v@),
                    status_ok(status),
                    jget(v@, "asks"@) is None || (jget(v@, "asks"@) matches Some(
                        SpecJson::Arr(asks_items),
                    ) && all_levels_shape_ok(asks_items)),
                    out@.len() == i,
                    forall|q: int|
                        0 <= q < i ==> level_matches(
                            itemsv[q],
                            #[trigger] out@[q].price,
                            out@[q].volume,
                        ),
                    forall|q: int| 0 <= q < i ==> level_shape_ok(#[trigger] itemsv[q]),
                decreases n - i,
            {
                proof {
                    assert(itemsv[i as int] == jview(items@[i as int]));
                }
                let price = match items[i].get_decimal("price") {
                    Ok(d) => d,
                    Err(e) => {
                        proof {
                            assert(!level_shape_ok(itemsv[i as int]));
                            assert(!all_levels_shape_ok(itemsv));
                        }
                        return Err(e);
                    },
                };
                let volume = match items[i].get_decimal("volume") {
                    Ok(d) => d,
                    Err(e) => {
                        proof {
                            assert(!level_shape_ok(itemsv[i as int]));
                            assert(!all_levels_shape_ok(itemsv));
                        }
                        return Err(e);
                    },
                };
                out.push(Bid { price, volume });
                i += 1;
            }
            proof {
                assert(bids_match(itemsv, out@));
                assert(all_levels_shape_ok(itemsv));
            }
            out
        },
        Some(other) => {
            proof {
                assert(!(jview(*other) is Arr)) by {
                    match other {
                        Json::Null => {},
                        Json::Bool(_) => {},
                        Json::Num(_) => {},
                        Json::Str(_) => {},
                        Json::Arr(_) => {
                            assert(false);
                        },
                        Json::Obj(_) => {},
                    }
                }
            }
            return Err(LunoError::Decode("bids is not an array".to_owned()));
        },
    };
    Ok(Orderbook { asks, bids, timestamp })
}

/// A public trade read correctly from a response value.
pub open spec fn trade_matches(v: SpecJson, t: Trade) -> bool {
    &&& crate::json::spec_bool_field(v, "is_buy"@) == Some(t.is_buy)
    &&& spec_decimal_field(v, "price"@) == Some(t.price)
    &&& spec_u64_field(v, "timestamp"@) == Some(t.timestamp)
    &&& spec_decimal_field(v, "volume"@) == Some(t.volume)
}

/// Every field of a public trade is present and well-formed.
pub open spec fn trade_shape_ok(v: SpecJson) -> bool {
    &&& crate::json::spec_bool_field(v, "is_buy"@) is Some
    &&& spec_decimal_field(v, "price"@) is Some
    &&& spec_u64_field(v, "timestamp"@) is Some
    &&& spec_decimal_field(v, "volume"@) is Some
}

/// Every element of a list is a well-formed public trade.
pub open spec fn all_trades_shape_ok(items: Seq<SpecJson>) -> bool {
    forall|i: int| 0 <= i < items.len() ==> trade_shape_ok(#[trigger] items[i])
}

/// Each element read correctly, in order.
pub open spec fn trades_match(items: Seq<SpecJson>, ts: Seq<Trade>) -> bool {
    ts.len() == items.len() && (forall|i: int|
        0 <= i < items.len() ==> trade_matches(#[trigger] items[i], ts[i]))
}

/// Parses the body of a public-trades response: the trades under the
/// `trades` key, or the empty sequence when the key is absent.
pub fn parse_list_trades_response(status: u16, body: &str) -> (r: Result<Vec<Trade>, LunoError>)
    ensures
        match r {
            Ok(ts) => status_ok(status) && (match spec_parse_json(body@) {
                Some(v) => match jget(v, "trades"@) {
                    None => ts@.len() == 0,
                    Some(SpecJson::Arr(items)) => trades_match(items, ts@),
                    Some(_) => false,
                },
                None => false,
            }),
            Err(e) => !(e is Config || e is Transport),
        },
        r is Ok <==> status_ok(status) && (match spec_parse_json(body@) {
            Some(v) => match jget(v, "trades"@) {
                None => true,
                Some(SpecJson::Arr(items)) => all_trades_shape_ok(items),
                Some(_) => false,
            },
            None => false,
        }),
{
    let v = crate::json::response_value(status, body)?;
    match v.get("trades") {
        None => Ok(Vec::new()),
        Some(Json::Arr(items)) => {
            let ghost itemsv = jget(v@, "trades"@).unwrap()->Arr_0;
            proof {
                assert(forall|q: int|
                    0 <= q < itemsv.len() ==> #[trigger] itemsv[q] == jview(items@[q]));
            }
            let n = items.len();
            let mut out: Vec<Trade> = Vec::new();
            let mut i: usize = 0;
            while i < n
                invariant
                    n == items@.len(),
                    i <= n,
                    itemsv.len() == n,
                    forall|q: int|
                        0 <= q < itemsv.len() ==> #[trigger] itemsv[q] == jview(items@[q]),
                    jget(v@, "trades"@) == Some(SpecJson::Arr(itemsv)),
                    spec_parse_json(body@) == Some(v@),
                    status_ok(status),
                    out@.len() == i,
                    forall|q: int| 0 <= q < i ==> trade_matches(itemsv[q], #[trigger] out@[q]),
                    forall|q: int| 0 <= q < i ==> trade_shape_ok(#[trigger] itemsv[q]),
                decreases n - i,
            {
                proof {
                    assert(itemsv[i as int] == jview(items@[i as int]));
                }
                let t = match trade_from_json(&items[i]) {
                    Ok(t) => t,
                    Err(e) => {
                        proof {
                            assert(!trade_shape_ok(itemsv[i as int]));
                            assert(!all_trades_shape_ok(itemsv));
                        }
                        return Err(e);
                    },
                };
                out.push(t);
                i += 1;
            }
            proof {
                assert(trades_match(itemsv, out@));
                assert(all_trades_shape_ok(itemsv));
            }
            Ok(out)
        },
        Some(other) => {
            proof {
                assert(!(jview(*other) is Arr)) by {
                    match other {
                        Json::Null => {},
                        Json::Bool(_) => {},
                        Json::Num(_) => {},
                        Json::Str(_) => {},
                        Json::Arr(_) => {
                            assert(false);
                        },
                        Json::Obj(_) => {},
                    }
                }
            }
            Err(LunoError::Decode("trades is not an array".to_owned()))
        },
    }
}

/// Reads one public trade from a response value.
pub fn trade_from_json(v: &Json) -> (r: Result<Trade, LunoError>)
    ensures
        match r {
            Ok(t) => trade_matches(v@, t),
            Err(e) => e is Decode,
        },
        r is Ok <==> trade_shape_ok(v@),
{
    let is_buy = v.get_bool("is_buy")?;
    let price = v.get_decimal("price")?;
    let timestamp = v.get_u64("timestamp")?;
    let volume = v.get_decimal("volume")?;
    Ok(Trade { is_buy, price, timestamp, volume })
}

} // verus!
