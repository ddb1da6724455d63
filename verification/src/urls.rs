//! Endpoint URL construction.
//!
//! A `Url` is built from a validated API origin, fixed endpoint paths,
//! percent-encoded path segments for resource identifiers, and a query
//! string of percent-encoded key/value pairs. Rendering is a pure
//! function of the parts, so the same operation and parameters always
//! produce the same address.
//!
//! Encoding follows RFC 3986: unreserved characters (letters, digits,
//! `-`, `.`, `_`, `~`) pass through; every other character is written
//! as the percent-encoded bytes of its UTF-8 form, with uppercase hex.

use vstd::prelude::*;

use crate::market::{pair_code, TradingPair};
use crate::text::{digit_char, digit_str, str_eq};

verus! {

/// The character for one hex digit value, uppercase.
pub open spec fn hex_char(d: nat) -> char {
    if d % 16 < 10 {
        digit_char(d % 16)
    } else if d % 16 == 10 {
        'A'
    } else if d % 16 == 11 {
        'B'
    } else if d % 16 == 12 {
        'C'
    } else if d % 16 == 13 {
        'D'
    } else if d % 16 == 14 {
        'E'
    } else {
        'F'
    }
}

/// String slice for one hex digit value, uppercase.
pub fn hex_str(d: u8) -> (r: &'static str)
    requires
        d < 16,
    ensures
        r@ == seq![hex_char(d as nat)],
{
    proof {
        reveal_strlit("A");
        reveal_strlit("B");
        reveal_strlit("C");
        reveal_strlit("D");
        reveal_strlit("E");
        reveal_strlit("F");
    }
    if d < 10 {
        digit_str(d)
    } else {
        match d {
            10 => "A",
            11 => "B",
            12 => "C",
            13 => "D",
            14 => "E",
            _ => "F",
        }
    }
}

/// The UTF-8 bytes of a code point.
pub open spec fn utf8_bytes(u: nat) -> Seq<u8> {
    if u < 0x80 {
        seq![u as u8]
    } else if u < 0x800 {
        seq![(0xC0 + u / 64) as u8, (0x80 + u % 64) as u8]
    } else if u < 0x10000 {
        seq![(0xE0 + u / 4096) as u8, (0x80 + (u / 64) % 64) as u8, (0x80 + u % 64) as u8]
    } else {
        seq![
            (0xF0 + u / 262144) as u8,
            (0x80 + (u / 4096) % 64) as u8,
            (0x80 + (u / 64) % 64) as u8,
            (0x80 + u % 64) as u8,
        ]
    }
}

/// The percent-encoded form of a byte sequence: `%XX` for each byte.
pub open spec fn pct_of_bytes(bs: Seq<u8>) -> Seq<char>
    decreases bs.len(),
{
    if bs.len() == 0 {
        Seq::<char>::empty()
    } else {
        seq!['%', hex_char((bs[0] / 16) as nat), hex_char((bs[0] % 16) as nat)] + pct_of_bytes(
            bs.drop_first(),
        )
    }
}

/// Characters that pass through unencoded: RFC 3986 unreserved.
pub open spec fn is_unreserved(c: char) -> bool {
    ||| 0x41 <= (c as u32) <= 0x5A
    ||| 0x61 <= (c as u32) <= 0x7A
    ||| 0x30 <= (c as u32) <= 0x39
    ||| c == '-'
    ||| c == '.'
    ||| c == '_'
    ||| c == '~'
}

/// The encoding of one character.
pub open spec fn enc_char(c: char) -> Seq<char> {
    if is_unreserved(c) {
        seq![c]
    } else {
        pct_of_bytes(utf8_bytes((c as u32) as nat))
    }
}

/// The encoding of a whole string, character by character.
pub open spec fn enc_str(s: Seq<char>) -> Seq<char>
    decreases s.len(),
{
    if s.len() == 0 {
        Seq::<char>::empty()
    } else {
        enc_char(s[0]) + enc_str(s.drop_first())
    }
}

/// Encoding distributes over concatenation.
pub proof fn lemma_enc_str_concat(a: Seq<char>, b: Seq<char>)
    ensures
        enc_str(a + b) == enc_str(a) + enc_str(b),
    decreases a.len(),
{
    if a.len() == 0 {
        assert(a + b =~= b);
        assert(enc_str(Seq::<char>::empty()) + enc_str(b) =~= enc_str(b));
    } else {
        lemma_enc_str_concat(a.drop_first(), b);
        assert((a + b).drop_first() =~= a.drop_first() + b);
        assert((a + b)[0] == a[0]);
        assert(enc_char(a[0]) + (enc_str(a.drop_first()) + enc_str(b)) =~= (enc_char(a[0])
            + enc_str(a.drop_first())) + enc_str(b));
    }
}

/// Appends the `%XX` form of one byte.
fn push_pct_byte(out: String, b: u8) -> (r: String)
    ensures
        r@ == out@ + seq!['%', hex_char((b / 16) as nat), hex_char((b % 16) as nat)],
{
    proof {
        reveal_strlit("%");
    }
    let r = out.concat("%").concat(hex_str(b / 16)).concat(hex_str(b % 16));
    proof {
        assert(r@ =~= out@ + seq!['%', hex_char((b / 16) as nat), hex_char((b % 16) as nat)]);
    }
    r
}

/// Executable test for `is_unreserved`.
fn unreserved_char(c: char) -> (r: bool)
    ensures
        r == is_unreserved(c),
{
    let u = c as u32;
    (0x41 <= u && u <= 0x5A) || (0x61 <= u && u <= 0x7A) || (0x30 <= u && u <= 0x39) || c == '-'
        || c == '.' || c == '_' || c == '~'
}

/// Appends the percent-encoded UTF-8 bytes of one character.
#[verifier::rlimit(100)]
fn push_pct_char(out: String, c: char) -> (r: String)
    requires
        !is_unreserved(c),
    ensures
        r@ == out@ + enc_char(c),
{
    let u = c as u32;
    if u < 0x80 {
        let r = push_pct_byte(out, u as u8);
        proof {
            reveal_with_fuel(pct_of_bytes, 6);
            assert(utf8_bytes(u as nat) =~= seq![u as u8]);
            assert(utf8_bytes(u as nat).drop_first() =~= Seq::<u8>::empty());
            assert(r@ =~= out@ + enc_char(c));
        }
        r
    } else if u < 0x800 {
        let b0: u8 = (0xC0 + u / 64) as u8;
        let b1: u8 = (0x80 + u % 64) as u8;
        proof {
            assert(u / 64 < 32) by (nonlinear_arith)
                requires
                    u < 0x800,
            ;
        }
        let r = push_pct_byte(push_pct_byte(out, b0), b1);
        proof {
            reveal_with_fuel(pct_of_bytes, 6);
            let bs = utf8_bytes(u as nat);
            assert(bs.len() == 2 && bs[0] == b0);
            assert(bs.drop_first() =~= seq![b1]);
            assert(seq![b1].drop_first() =~= Seq::<u8>::empty());
            assert(pct_of_bytes(seq![b1]) =~= seq![
                '%',
                hex_char((b1 / 16) as nat),
                hex_char((b1 % 16) as nat),
            ]);
            assert(pct_of_bytes(bs) =~= seq![
                '%',
                hex_char((b0 / 16) as nat),
                hex_char((b0 % 16) as nat),
            ] + pct_of_bytes(seq![b1]));
            assert(r@ =~= out@ + enc_char(c));
        }
        r
    } else if u < 0x10000 {
        let b0: u8 = (0xE0 + u / 4096) as u8;
        let b1: u8 = (0x80 + (u / 64) % 64) as u8;
        let b2: u8 = (0x80 + u % 64) as u8;
        proof {
            assert(u / 4096 < 16) by (nonlinear_arith)
                requires
                    u < 0x10000,
            ;
        }
        let r = push_pct_byte(push_pct_byte(push_pct_byte(out, b0), b1), b2);
        proof {
            reveal_with_fuel(pct_of_bytes, 6);
            let bs = utf8_bytes(u as nat);
            assert(bs.len() == 3 && bs[0] == b0);
            assert(bs.drop_first() =~= seq![b1, b2]);
            assert(seq![b1, b2].drop_first() =~= seq![b2]);
            assert(seq![b2].drop_first() =~= Seq::<u8>::empty());
            assert(pct_of_bytes(seq![b2]) =~= seq![
                '%',
                hex_char((b2 / 16) as nat),
                hex_char((b2 % 16) as nat),
            ]);
            assert(pct_of_bytes(seq![b1, b2]) =~= seq![
                '%',
                hex_char((b1 / 16) as nat),
                hex_char((b1 % 16) as nat),
            ] + pct_of_bytes(seq![b2]));
            assert(pct_of_bytes(bs) =~= seq![
                '%',
                hex_char((b0 / 16) as nat),
                hex_char((b0 % 16) as nat),
            ] + pct_of_bytes(seq![b1, b2]));
            assert(r@ =~= out@ + enc_char(c));
        }
        r
    } else {
        let b0: u8 = (0xF0 + u / 262144) as u8;
        let b1: u8 = (0x80 + (u / 4096) % 64) as u8;
        let b2: u8 = (0x80 + (u / 64) % 64) as u8;
        let b3: u8 = (0x80 + u % 64) as u8;
        proof {
            vstd::utf8::char_is_scalar(c);
            assert(u / 262144 < 16) by (nonlinear_arith)
                requires
                    u <= 0x10FFFF,
            ;
        }
        let r = push_pct_byte(push_pct_byte(push_pct_byte(push_pct_byte(out, b0), b1), b2), b3);
        proof {
            reveal_with_fuel(pct_of_bytes, 6);
            let bs = utf8_bytes(u as nat);
            assert(bs.len() == 4 && bs[0] == b0);
            assert(bs.drop_first() =~= seq![b1, b2, b3]);
            assert(seq![b1, b2, b3].drop_first() =~= seq![b2, b3]);
            assert(seq![b2, b3].drop_first() =~= seq![b3]);
            assert(seq![b3].drop_first() =~= Seq::<u8>::empty());
            assert(pct_of_bytes(seq![b3]) =~= seq![
                '%',
                hex_char((b3 / 16) as nat),
                hex_char((b3 % 16) as nat),
            ]);
            assert(pct_of_bytes(seq![b2, b3]) =~= seq![
                '%',
                hex_char((b2 / 16) as nat),
                hex_char((b2 % 16) as nat),
            ] + pct_of_bytes(seq![b3]));
            assert(pct_of_bytes(seq![b1, b2, b3]) =~= seq![
                '%',
                hex_char((b1 / 16) as nat),
                hex_char((b1 % 16) as nat),
            ] + pct_of_bytes(seq![b2, b3]));
            assert(pct_of_bytes(bs) =~= seq![
                '%',
                hex_char((b0 / 16) as nat),
                hex_char((b0 % 16) as nat),
            ] + pct_of_bytes(seq![b1, b2, b3]));
            assert(r@ =~= out@ + enc_char(c));
        }
        r
    }
}

/// Percent-encodes a string for use as a path segment or a query
/// component.
pub fn percent_encode(s: &str) -> (r: String)
    ensures
        r@ == enc_str(s@),
{
    let n = s.unicode_len();
    let mut out = String::new();
    let mut i: usize = 0;
    while i < n
        invariant
            n == s@.len(),
            i <= n,
            out@ == enc_str(s@.take(i as int)),
        decreases n - i,
    {
        let c = s.get_char(i);
        let ghost pre = s@.take(i as int);
        proof {
            assert(s@.take(i + 1) =~= pre + seq![c]);
            lemma_enc_str_concat(pre, seq![c]);
            assert(seq![c].drop_first() =~= Seq::<char>::empty());
            assert(enc_str(seq![c]) =~= enc_char(c) + enc_str(Seq::<char>::empty()));
            assert(enc_str(seq![c]) =~= enc_char(c));
        }
        if unreserved_char(c) {
            let piece = s.substring_char(i, i + 1);
            out = out.concat(piece);
            proof {
                assert(piece@ =~= seq![c]);
                assert(enc_char(c) =~= seq![c]);
                assert(out@ =~= enc_str(s@.take(i + 1)));
            }
        } else {
            out = push_pct_char(out, c);
            proof {
                assert(out@ =~= enc_str(s@.take(i + 1)));
            }
        }
        i += 1;
    }
    proof {
        assert(s@.take(n as int) =~= s@);
    }
    out
}

/// A request address under construction: the scheme, host and path as
/// rendered text, plus query pairs still to be encoded.
#[derive(Clone, Debug)]
pub struct Url {
    pub base: String,
    pub query: Vec<(String, String)>,
}

/// The views of the query pairs.
pub open spec fn qview(q: Seq<(String, String)>) -> Seq<(Seq<char>, Seq<char>)> {
    q.map_values(|p: (String, String)| (p.0@, p.1@))
}

/// The effective parameter set of a query: later pairs win, though the
/// builders never repeat a key.
pub open spec fn query_map(q: Seq<(Seq<char>, Seq<char>)>) -> Map<Seq<char>, Seq<char>>
    decreases q.len(),
{
    if q.len() == 0 {
        Map::<Seq<char>, Seq<char>>::empty()
    } else {
        query_map(q.drop_last()).insert(q.last().0, q.last().1)
    }
}

/// Appending at most one pair extends the effective set by it.
pub proof fn lemma_query_map_append(a: Seq<(Seq<char>, Seq<char>)>, b: Seq<(Seq<char>, Seq<char>)>)
    requires
        b.len() <= 1,
    ensures
        b.len() == 0 ==> query_map(a + b) == query_map(a),
        b.len() == 1 ==> query_map(a + b) == query_map(a).insert(b[0].0, b[0].1),
{
    if b.len() == 0 {
        assert(a + b =~= a);
    } else {
        assert((a + b).drop_last() =~= a);
        assert((a + b).last() == b[0]);
    }
}

/// The rendered query string: empty without pairs, else `?k=v&k=v...`
/// with every component percent-encoded.
pub open spec fn render_query(q: Seq<(Seq<char>, Seq<char>)>) -> Seq<char>
    decreases q.len(),
{
    if q.len() == 0 {
        Seq::<char>::empty()
    } else {
        let sep = if q.len() == 1 {
            '?'
        } else {
            '&'
        };
        render_query(q.drop_last()) + seq![sep] + enc_str(q.last().0) + seq!['='] + enc_str(
            q.last().1,
        )
    }
}

/// The full rendered address of a `Url`.
pub open spec fn url_text(u: Url) -> Seq<char> {
    u.base@ + render_query(qview(u.query@))
}

impl Url {
    /// A bare address with no query.
    pub fn from_base(base: String) -> (r: Url)
        ensures
            r.base@ == base@,
            r.query@.len() == 0,
    {
        Url { base, query: Vec::new() }
    }

    /// Appends one query pair; everything already set is kept.
    pub fn with_pair(self, key: &str, value: String) -> (r: Url)
        ensures
            r.base@ == self.base@,
            qview(r.query@) == qview(self.query@).push((key@, value@)),
    {
        let mut query = self.query;
        let ghost before = query@;
        query.push((key.to_owned(), value));
        proof {
            assert(qview(query@) =~= qview(before).push((key@, value@)));
        }
        Url { base: self.base, query }
    }

    /// Appends one percent-encoded path segment after a `/`.
    pub fn push_segment(self, segment: &str) -> (r: Url)
        ensures
            r.base@ == self.base@ + seq!['/'] + enc_str(segment@),
            r.query@ == self.query@,
    {
        proof {
            reveal_strlit("/");
        }
        let encoded = percent_encode(segment);
        let base = self.base.concat("/").concat(encoded.as_str());
        proof {
            assert(base@ =~= self.base@ + seq!['/'] + enc_str(segment@));
        }
        Url { base, query: self.query }
    }

    /// An exact copy, field for field.
    pub fn duplicate(&self) -> (r: Url)
        ensures
            r.base@ == self.base@,
            qview(r.query@) == qview(self.query@),
    {
        let mut query: Vec<(String, String)> = Vec::new();
        let n = self.query.len();
        let mut i: usize = 0;
        while i < n
            invariant
                n == self.query@.len(),
                i <= n,
                qview(query@) =~= qview(self.query@).take(i as int),
            decreases n - i,
        {
            let pair = &self.query[i];
            let ghost before = query@;
            query.push((pair.0.clone(), pair.1.clone()));
            proof {
                assert(qview(query@) =~= qview(before).push(
                    (self.query@[i as int].0@, self.query@[i as int].1@),
                ));
                assert(qview(query@) =~= qview(self.query@).take(i + 1));
            }
            i += 1;
        }
        proof {
            assert(qview(self.query@).take(n as int) =~= qview(self.query@));
        }
        Url { base: self.base.clone(), query }
    }

    /// Renders the address: the base text followed by the query string.
    pub fn to_text(&self) -> (r: String)
        ensures
            r@ == url_text(*self),
    {
        proof {
            reveal_strlit("?");
            reveal_strlit("&");
            reveal_strlit("=");
        }
        let ghost qv = qview(self.query@);
        let mut out = self.base.clone();
        let n = self.query.len();
        let mut i: usize = 0;
        while i < n
            invariant
                n == self.query@.len(),
                i <= n,
                qv == qview(self.query@),
                out@ == self.base@ + render_query(qv.take(i as int)),
            decreases n - i,
        {
            let pair = &self.query[i];
            let sep: &str = if i == 0 {
                "?"
            } else {
                "&"
            };
            let ek = percent_encode(pair.0.as_str());
            let ev = percent_encode(pair.1.as_str());
            out = out.concat(sep).concat(ek.as_str()).concat("=").concat(ev.as_str());
            proof {
                reveal_strlit("?");
                reveal_strlit("&");
                reveal_strlit("=");
                assert(qv.take(i + 1).drop_last() =~= qv.take(i as int));
                assert(qv.take(i + 1).last() == qv[i as int]);
                assert(qv[i as int] == (self.query@[i as int].0@, self.query@[i as int].1@));
                assert(out@ =~= self.base@ + render_query(qv.take(i + 1)));
            }
            i += 1;
        }
        proof {
            assert(qv.take(n as int) =~= qv);
        }
        out
    }
}

/// A string begins with the given prefix.
pub open spec fn starts_with(s: Seq<char>, prefix: Seq<char>) -> bool {
    s.len() >= prefix.len() && s.take(prefix.len() as int) == prefix
}

/// An acceptable API origin: an `http` or `https` address ending in `/`,
/// so that endpoint paths can be appended directly.
pub open spec fn valid_base(s: Seq<char>) -> bool {
    &&& (starts_with(s, "https://"@) || starts_with(s, "http://"@))
    &&& s.len() >= 1
    &&& s.last() == '/'
}

/// Builds the address of each endpoint from the configured origin.
#[derive(Clone, Debug)]
pub struct UrlMaker {
    pub api_base: String,
}

impl UrlMaker {
    /// Validates the origin once, at construction: an unusable origin is
    /// refused here and never surfaces at call time.
    pub fn new(api_base: &str) -> (r: Option<UrlMaker>)
        ensures
            r matches Some(m) ==> m.api_base@ == api_base@ && valid_base(api_base@),
            r is None <==> !valid_base(api_base@),
    {
        let n = api_base.unicode_len();
        let https_ok = n >= 8 && str_eq(api_base.substring_char(0, 8), "https://");
        let http_ok = n >= 7 && str_eq(api_base.substring_char(0, 7), "http://");
        let slash_ok = n >= 1 && api_base.get_char(n - 1) == '/';
        proof {
            reveal_strlit("https://");
            reveal_strlit("http://");
        }
        if (https_ok || http_ok) && slash_ok {
            Some(UrlMaker { api_base: api_base.to_owned() })
        } else {
            None
        }
    }

    /// The origin with a fixed endpoint path appended.
    fn build_url(&self, path: &str) -> (r: Url)
        ensures
            r.base@ == self.api_base@ + path@,
            r.query@.len() == 0,
    {
        Url::from_base(self.api_base.clone().concat(path))
    }

    /// Address of the latest ticker for one pair.
    pub fn ticker(&self, pair: TradingPair) -> (r: Url)
        ensures
            r.base@ == self.api_base@ + "ticker"@,
            qview(r.query@) == seq![("pair"@, pair_code(pair))],
    {
        let r = self.build_url("ticker").with_pair("pair", pair.as_str().to_owned());
        proof {
            assert(qview(r.query@) =~= seq![("pair"@, pair_code(pair))]);
        }
        r
    }

    /// Address of the tickers of all active markets.
    pub fn tickers(&self) -> (r: Url)
        ensures
            r.base@ == self.api_base@ + "tickers"@,
            r.query@.len() == 0,
    {
        self.build_url("tickers")
    }

    /// Address of the aggregated top of the order book.
    pub fn orderbook_top(&self, pair: TradingPair) -> (r: Url)
        ensures
            r.base@ == self.api_base@ + "orderbook_top"@,
            qview(r.query@) == seq![("pair"@, pair_code(pair))],
    {
        let r = self.build_url("orderbook_top").with_pair("pair", pair.as_str().to_owned());
        proof {
            assert(qview(r.query@) =~= seq![("pair"@, pair_code(pair))]);
        }
        r
    }

    /// Address of the full order book.
    pub fn orderbook(&self, pair: TradingPair) -> (r: Url)
        ensures
            r.base@ == self.api_base@ + "orderbook"@,
            qview(r.query@) == seq![("pair"@, pair_code(pair))],
    {
        let r = self.build_url("orderbook").with_pair("pair", pair.as_str().to_owned());
        proof {
            assert(qview(r.query@) =~= seq![("pair"@, pair_code(pair))]);
        }
        r
    }

    /// Address of the recent public trades of one pair.
    pub fn trades(&self, pair: TradingPair) -> (r: Url)
        ensures
            r.base@ == self.api_base@ + "trades"@,
            qview(r.query@) == seq![("pair"@, pair_code(pair))],
    {
        let r = self.build_url("trades").with_pair("pair", pair.as_str().to_owned());
        proof {
            assert(qview(r.query@) =~= seq![("pair"@, pair_code(pair))]);
        }
        r
    }

    /// Address of the account collection.
    pub fn accounts(&self) -> (r: Url)
        ensures
            r.base@ == self.api_base@ + "accounts"@,
            r.query@.len() == 0,
    {
        self.build_url("accounts")
    }

    /// Address for renaming one account.
    pub fn account_name(&self, account_id: &str, name: &str) -> (r: Url)
        ensures
            r.base@ == self.api_base@ + "accounts"@ + seq!['/'] + enc_str(account_id@),
            qview(r.query@) == seq![("name"@, name@)],
    {
        let r = self.accounts().push_segment(account_id).with_pair("name", name.to_owned());
        proof {
            assert(qview(r.query@) =~= seq![("name"@, name@)]);
        }
        r
    }

    /// Address of all balances.
    pub fn balance(&self) -> (r: Url)
        ensures
            r.base@ == self.api_base@ + "balance"@,
            r.query@.len() == 0,
    {
        self.build_url("balance")
    }

    /// Address of a numbered transaction range of one account.
    pub fn transactions(&self, account_id: &str, min_row: i64, max_row: i64) -> (r: Url)
        ensures
            r.base@ == self.api_base@ + "accounts"@ + seq!['/'] + enc_str(account_id@)
                + seq!['/'] + enc_str("transactions"@),
            qview(r.query@) == seq![
                ("min_row"@, crate::text::spec_idigits(min_row as int)),
                ("max_row"@, crate::text::spec_idigits(max_row as int)),
            ],
    {
        let r = self
            .accounts()
            .push_segment(account_id)
            .push_segment("transactions")
            .with_pair("min_row", crate::text::i64_string(min_row))
            .with_pair("max_row", crate::text::i64_string(max_row));
        proof {
            assert(qview(r.query@) =~= seq![
                ("min_row"@, crate::text::spec_idigits(min_row as int)),
                ("max_row"@, crate::text::spec_idigits(max_row as int)),
            ]);
        }
        r
    }

    /// Address of the pending transactions of one account.
    pub fn pending_transactions(&self, account_id: &str) -> (r: Url)
        ensures
            r.base@ == self.api_base@ + "accounts"@ + seq!['/'] + enc_str(account_id@)
                + seq!['/'] + enc_str("pending"@),
            r.query@.len() == 0,
    {
        self.accounts().push_segment(account_id).push_segment("pending")
    }

    /// Address of the beneficiary list.
    pub fn beneficiaries(&self) -> (r: Url)
        ensures
            r.base@ == self.api_base@ + "beneficiaries"@,
            r.query@.len() == 0,
    {
        self.build_url("beneficiaries")
    }

    /// Address of the order list.
    pub fn list_orders(&self) -> (r: Url)
        ensures
            r.base@ == self.api_base@ + "listorders"@,
            r.query@.len() == 0,
    {
        self.build_url("listorders")
    }

    /// Address for placing a limit order.
    pub fn post_order(&self) -> (r: Url)
        ensures
            r.base@ == self.api_base@ + "postorder"@,
            r.query@.len() == 0,
    {
        self.build_url("postorder")
    }

    /// Address for placing a market order.
    pub fn market_order(&self) -> (r: Url)
        ensures
            r.base@ == self.api_base@ + "marketorder"@,
            r.query@.len() == 0,
    {
        self.build_url("marketorder")
    }

    /// Address for stopping an order.
    pub fn stop_order(&self) -> (r: Url)
        ensures
            r.base@ == self.api_base@ + "stoporder"@,
            r.query@.len() == 0,
    {
        self.build_url("stoporder")
    }

    /// Address of one order.
    pub fn orders(&self, order_id: &str) -> (r: Url)
        ensures
            r.base@ == self.api_base@ + "orders"@ + seq!['/'] + enc_str(order_id@),
            r.query@.len() == 0,
    {
        self.build_url("orders").push_segment(order_id)
    }

    /// Address of the account's own trades for one pair.
    pub fn list_trades(&self, pair: TradingPair) -> (r: Url)
        ensures
            r.base@ == self.api_base@ + "listtrades"@,
            qview(r.query@) == seq![("pair"@, pair_code(pair))],
    {
        let r = self.build_url("listtrades").with_pair("pair", pair.as_str().to_owned());
        proof {
            assert(qview(r.query@) =~= seq![("pair"@, pair_code(pair))]);
        }
        r
    }

    /// Address of the fee information for one pair.
    pub fn fee_info(&self, pair: TradingPair) -> (r: Url)
        ensures
            r.base@ == self.api_base@ + "fee_info"@,
            qview(r.query@) == seq![("pair"@, pair_code(pair))],
    {
        let r = self.build_url("fee_info").with_pair("pair", pair.as_str().to_owned());
        proof {
            assert(qview(r.query@) =~= seq![("pair"@, pair_code(pair))]);
        }
        r
    }

    /// Address of the quote collection.
    pub fn quotes(&self) -> (r: Url)
        ensures
            r.base@ == self.api_base@ + "quotes"@,
            r.query@.len() == 0,
    {
        self.build_url("quotes")
    }

    /// Address for sending a lightning payment.
    pub fn lightning_send(&self) -> (r: Url)
        ensures
            r.base@ == self.api_base@ + "lightning/send"@,
            r.query@.len() == 0,
    {
        self.build_url("lightning/send")
    }

    /// Address for creating a lightning invoice.
    pub fn lightning_receive(&self) -> (r: Url)
        ensures
            r.base@ == self.api_base@ + "lightning/receive"@,
            r.query@.len() == 0,
    {
        self.build_url("lightning/receive")
    }

    /// Address of one quote.
    pub fn quote_action(&self, id: &str) -> (r: Url)
        ensures
            r.base@ == self.api_base@ + "quotes"@ + seq!['/'] + enc_str(id@),
            r.query@.len() == 0,
    {
        self.quotes().push_segment(id)
    }
}

} // verus!
