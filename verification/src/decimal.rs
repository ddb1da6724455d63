//! Exact decimal numbers for monetary quantities.
//!
//! Prices, volumes, balances and fees are represented as a sign, an
//! integer mantissa and a decimal scale, never as binary floating point,
//! so that every value the exchange sends can be held and echoed back
//! without rounding. Parsing and formatting are verified inverses.

use vstd::prelude::*;

use crate::text::{digit_char, digit_str, spec_udigits, u128_string};

verus! {

/// An exact decimal number: `mantissa / 10^scale`, negated when
/// `negative` is set. The scale is preserved, so `1.10` and `1.1` are
/// distinct values and each prints back exactly as it was read.
#[derive(Clone, Copy, Debug, PartialEq, Eq, Structural)]
pub struct Decimal {
    pub negative: bool,
    pub mantissa: u128,
    pub scale: u32,
}

/// Ten to the given power.
pub open spec fn pow10(e: nat) -> nat
    decreases e,
{
    if e == 0 {
        1
    } else {
        10 * pow10((e - 1) as nat)
    }
}

/// Limit on the digits a decimal may carry: the mantissa stays under
/// `10^38`, which fits a `u128` with room to parse one digit at a time,
/// and the scale leaves room for at least one integer digit.
pub open spec fn dec_wf(d: Decimal) -> bool {
    (d.mantissa as nat) < pow10(38) && d.scale <= 37
}

/// Digit characters only.
pub open spec fn all_digits(s: Seq<char>) -> bool {
    forall|i: int| 0 <= i < s.len() ==> is_digit_char(#[trigger] s[i])
}

pub open spec fn is_digit_char(c: char) -> bool {
    0x30 <= (c as u32) <= 0x39
}

pub open spec fn digit_val(c: char) -> nat {
    ((c as u32) - 0x30) as nat
}

/// The number a digit string denotes, most significant digit first.
pub open spec fn digits_val(s: Seq<char>) -> nat
    decreases s.len(),
{
    if s.len() == 0 {
        0
    } else {
        digits_val(s.drop_last()) * 10 + digit_val(s.last())
    }
}

/// An integer part on the wire: digits, and no leading zero unless the
/// part is exactly `0`.
pub open spec fn int_part_ok(s: Seq<char>) -> bool {
    &&& s.len() >= 1
    &&& all_digits(s)
    &&& (s.len() > 1 ==> s[0] != '0')
}

/// Renders a number in exactly `width` digits, zero-padded on the left;
/// only the low `width` digits are kept.
pub open spec fn spec_padded(n: nat, width: nat) -> Seq<char>
    decreases width,
{
    if width == 0 {
        Seq::<char>::empty()
    } else {
        spec_padded(n / 10, (width - 1) as nat).push(digit_char(n % 10))
    }
}

/// The magnitude with a decimal point `scale` digits from the right; the
/// recursion peels frac digits off the mantissa one at a time.
pub open spec fn spec_mag(m: nat, scale: nat) -> Seq<char>
    decreases scale,
{
    if scale == 0 {
        spec_udigits(m) + seq!['.']
    } else {
        spec_mag(m / 10, (scale - 1) as nat).push(digit_char(m % 10))
    }
}

/// The canonical rendering of a decimal: optional minus sign, integer
/// part without leading zeros, and, when the scale is positive, a point
/// followed by exactly `scale` fractional digits.
pub open spec fn spec_format(d: Decimal) -> Seq<char> {
    let mag = if d.scale == 0 {
        spec_udigits(d.mantissa as nat)
    } else {
        spec_mag(d.mantissa as nat, d.scale as nat)
    };
    if d.negative {
        seq!['-'] + mag
    } else {
        mag
    }
}

impl Decimal {
    /// A decimal with no fractional digits.
    pub fn from_u64(n: u64) -> (r: Decimal)
        ensures
            r == (Decimal { negative: false, mantissa: n as u128, scale: 0 }),
            dec_wf(r),
    {
        proof {
            lemma_pow10_increases(20, 38);
            lemma_u64_below_pow10(n);
        }
        Decimal { negative: false, mantissa: n as u128, scale: 0 }
    }

    /// A decimal scaled down from an integer: `units / 10^scale`.
    pub fn from_scaled(units: u64, scale: u32) -> (r: Decimal)
        requires
            scale <= 37,
        ensures
            r == (Decimal { negative: false, mantissa: units as u128, scale }),
            dec_wf(r),
    {
        proof {
            lemma_pow10_increases(20, 38);
            lemma_u64_below_pow10(units);
        }
        Decimal { negative: false, mantissa: units as u128, scale }
    }

    /// Renders the decimal exactly as specified by `spec_format`.
    pub fn format(&self) -> (r: String)
        ensures
            r@ == spec_format(*self),
    {
        let mag = if self.scale == 0 {
            u128_string(self.mantissa)
        } else {
            mag_string(self.mantissa, self.scale)
        };
        if self.negative {
            let r = "-".to_owned().concat(mag.as_str());
            proof {
                reveal_strlit("-");
                assert(r@ =~= spec_format(*self));
            }
            r
        } else {
            mag
        }
    }
}

/// Executable mirror of `spec_mag`.
fn mag_string(m: u128, scale: u32) -> (r: String)
    ensures
        r@ == spec_mag(m as nat, scale as nat),
    decreases scale,
{
    if scale == 0 {
        let r = u128_string(m).concat(".");
        proof {
            reveal_strlit(".");
            assert(r@ =~= spec_mag(m as nat, 0));
        }
        r
    } else {
        let prefix = mag_string(m / 10, scale - 1);
        let r = prefix.concat(digit_str((m % 10) as u8));
        proof {
            assert(r@ =~= spec_mag(m as nat, scale as nat));
        }
        r
    }
}

/// `pow10` never decreases with the exponent.
pub proof fn lemma_pow10_increases(i: nat, j: nat)
    requires
        i <= j,
    ensures
        pow10(i) <= pow10(j),
    decreases j,
{
    if i < j {
        lemma_pow10_increases(i, (j - 1) as nat);
    }
}

/// Splitting an exponent multiplies the powers.
pub proof fn lemma_pow10_add(i: nat, j: nat)
    ensures
        pow10(i + j) == pow10(i) * pow10(j),
    decreases i,
{
    if i == 0 {
        assert(pow10(0) == 1);
        assert(i + j == j);
        assert(pow10(i + j) == pow10(i) * pow10(j));
    } else {
        let k = (i - 1) as nat;
        lemma_pow10_add(k, j);
        assert(pow10(i + j) == 10 * pow10(k + j));
        assert(pow10(i + j) == 10 * (pow10(k) * pow10(j)));
        assert(pow10(i) == 10 * pow10(k));
        assert(pow10(i + j) == pow10(i) * pow10(j)) by (nonlinear_arith)
            requires
                pow10(i + j) == 10 * (pow10(k) * pow10(j)),
                pow10(i) == 10 * pow10(k),
        ;
    }
}

/// Every `u64` value stays under `10^20`.
proof fn lemma_u64_below_pow10(n: u64)
    ensures
        (n as nat) < pow10(20),
{
    lemma_pow10_value();
    assert((n as nat) <= u64::MAX);
}

/// The concrete value of `10^38`, by unwinding the recursion.
pub proof fn lemma_pow10_value()
    ensures
        pow10(38) == 100_000_000_000_000_000_000_000_000_000_000_000_000,
        pow10(20) == 100_000_000_000_000_000_000,
{
    reveal_with_fuel(pow10, 40);
}

/// Position of the first `.` in the string, or -1 when there is none.
pub open spec fn first_dot(s: Seq<char>) -> int
    decreases s.len(),
{
    if s.len() == 0 {
        -1
    } else if s[0] == '.' {
        0
    } else if first_dot(s.drop_first()) == -1 {
        -1
    } else {
        1 + first_dot(s.drop_first())
    }
}

/// The digit budget: at most 38 digits in all, so the mantissa fits.
pub open spec fn sig_ok(ip: Seq<char>, fp: Seq<char>) -> bool {
    ip.len() + fp.len() <= 38
}

/// The decimal grammar and its value: an optional minus sign, an integer
/// part with no superfluous leading zero, and an optional point followed
/// by at least one fractional digit; at most 38 digits in all. The scale
/// records exactly how many fractional digits were written, so trailing
/// zeros are preserved.
pub open spec fn spec_parse(s: Seq<char>) -> Option<Decimal> {
    let neg = s.len() > 0 && s[0] == '-';
    let t = if neg {
        s.drop_first()
    } else {
        s
    };
    let p = first_dot(t);
    if p == -1 {
        if int_part_ok(t) && t.len() <= 38 {
            Some(Decimal { negative: neg, mantissa: digits_val(t) as u128, scale: 0 })
        } else {
            None
        }
    } else {
        let ip = t.take(p);
        let fp = t.skip(p + 1);
        if int_part_ok(ip) && fp.len() >= 1 && all_digits(fp) && sig_ok(ip, fp) {
            Some(
                Decimal {
                    negative: neg,
                    mantissa: digits_val(ip + fp) as u128,
                    scale: fp.len() as u32,
                },
            )
        } else {
            None
        }
    }
}

proof fn lemma_digit_char_val(d: nat)
    requires
        d < 10,
    ensures
        is_digit_char(digit_char(d)),
        digit_val(digit_char(d)) == d,
        digit_char(d) != '.',
        digit_char(d) != '-',
        d != 0 ==> digit_char(d) != '0',
{
}

/// Distinct code points give distinct characters and conversely.
proof fn lemma_char_code_ne(a: char, b: char)
    ensures
        (a == b) == ((a as u32) == (b as u32)),
{
    if (a as u32) == (b as u32) {
        vstd::utf8::char_u32_cast(a, a as u32);
        vstd::utf8::char_u32_cast(b, b as u32);
    }
}

/// A digit character is recovered from its value.
proof fn lemma_digit_char_of_val(c: char)
    requires
        is_digit_char(c),
    ensures
        digit_char(digit_val(c)) == c,
        digit_val(c) < 10,
{
    vstd::utf8::char_u32_cast(c, c as u32);
    lemma_char_code_ne(digit_char(digit_val(c)), c);
}

/// The canonical digits of a number: value, digits and shape.
proof fn lemma_udigits_props(n: nat)
    ensures
        digits_val(spec_udigits(n)) == n,
        all_digits(spec_udigits(n)),
        int_part_ok(spec_udigits(n)),
        spec_udigits(n).len() >= 1,
        forall|j: int| 0 <= j < spec_udigits(n).len() ==> #[trigger] spec_udigits(n)[j] != '.',
    decreases n,
{
    if n < 10 {
        lemma_digit_char_val(n);
        let s = spec_udigits(n);
        assert(s.drop_last() =~= Seq::<char>::empty());
        assert(s.last() == digit_char(n));
        assert(digits_val(Seq::<char>::empty()) == 0);
        assert(digits_val(s) == digits_val(s.drop_last()) * 10 + digit_val(s.last()));
        assert(s[0] == digit_char(n));
    } else {
        lemma_udigits_props(n / 10);
        lemma_digit_char_val(n % 10);
        let s = spec_udigits(n);
        let prefix = spec_udigits(n / 10);
        assert(s.drop_last() =~= prefix);
        assert(s.last() == digit_char(n % 10));
        assert(digits_val(s) == digits_val(prefix) * 10 + digit_val(digit_char(n % 10)));
        vstd::arithmetic::div_mod::lemma_fundamental_div_mod(n as int, 10);
        assert(s[0] == prefix[0]);
        assert(forall|j: int| 0 <= j < s.len() ==> is_digit_char(#[trigger] s[j])) by {
            assert(forall|j: int| 0 <= j < s.len() - 1 ==> s[j] == prefix[j]);
            assert(s[s.len() - 1] == digit_char(n % 10));
        }
        assert(n / 10 >= 1);
        assert(prefix[0] != '0') by {
            if prefix.len() == 1 {
                assert(prefix.drop_last() =~= Seq::<char>::empty());
                assert(digits_val(Seq::<char>::empty()) == 0);
                assert(digits_val(prefix) == digits_val(prefix.drop_last()) * 10 + digit_val(
                    prefix.last(),
                ));
                assert(prefix.last() == prefix[0]);
                assert(digit_val('0') == 0);
            }
        }
    }
}

/// A number below `10^k` needs at most `k` digits.
proof fn lemma_udigits_len(n: nat, k: nat)
    requires
        n < pow10(k),
        k >= 1,
    ensures
        spec_udigits(n).len() <= k,
    decreases k,
{
    if n < 10 {
    } else {
        assert(pow10(k) == 10 * pow10((k - 1) as nat));
        assert(n / 10 < pow10((k - 1) as nat)) by {
            vstd::arithmetic::div_mod::lemma_fundamental_div_mod(n as int, 10);
        }
        assert(k - 1 >= 1) by {
            if k == 1 {
                assert(pow10(1) == 10);
            }
        }
        lemma_udigits_len(n / 10, (k - 1) as nat);
    }
}

/// Concatenating digit strings combines their values positionally.
proof fn lemma_digits_val_concat(a: Seq<char>, b: Seq<char>)
    ensures
        digits_val(a + b) == digits_val(a) * pow10(b.len()) + digits_val(b),
    decreases b.len(),
{
    if b.len() == 0 {
        assert(a + b =~= a);
        assert(pow10(0) == 1);
    } else {
        lemma_digits_val_concat(a, b.drop_last());
        assert((a + b).drop_last() =~= a + b.drop_last());
        assert((a + b).last() == b.last());
        let va = digits_val(a);
        let vp = digits_val(b.drop_last());
        let k = (b.len() - 1) as nat;
        assert(digits_val(a + b) == (va * pow10(k) + vp) * 10 + digit_val(b.last()));
        assert((va * pow10(k) + vp) * 10 == va * (pow10(k) * 10) + vp * 10) by (nonlinear_arith);
        assert(pow10(k) * 10 == pow10(b.len()));
        assert(digits_val(b) == vp * 10 + digit_val(b.last()));
        assert(digits_val(a + b) == va * pow10(b.len()) + digits_val(b));
    }
}

/// A digit string with a nonzero leading digit is at least `10^(len-1)`.
proof fn lemma_digits_val_lower(s: Seq<char>)
    requires
        all_digits(s),
        s.len() >= 1,
        s[0] != '0',
    ensures
        digits_val(s) >= pow10((s.len() - 1) as nat),
    decreases s.len(),
{
    assert(is_digit_char(s[0]));
    if s.len() == 1 {
        assert(s.drop_last() =~= Seq::<char>::empty());
        assert(digits_val(s.drop_last()) == 0);
        lemma_char_code_ne(s[0], '0');
        assert(digit_val(s[0]) >= 1);
        assert(s.last() == s[0]);
        assert(pow10(0) == 1);
    } else {
        lemma_digits_val_lower(s.drop_last());
        assert(s.drop_last()[0] == s[0]);
        let k = (s.len() - 2) as nat;
        assert(digits_val(s.drop_last()) >= pow10(k));
        assert(digits_val(s) >= pow10(k) * 10);
    }
}

/// The canonical digits of a digit string's value are the string itself,
/// provided there is no superfluous leading zero.
proof fn lemma_val_udigits(s: Seq<char>)
    requires
        int_part_ok(s),
    ensures
        spec_udigits(digits_val(s)) == s,
    decreases s.len(),
{
    let v = digits_val(s);
    if s.len() == 1 {
        assert(s.drop_last() =~= Seq::<char>::empty());
        assert(s.last() == s[0]);
        assert(digits_val(Seq::<char>::empty()) == 0);
        assert(v == digits_val(s.drop_last()) * 10 + digit_val(s.last()));
        assert(v == digit_val(s[0]));
        lemma_digit_char_of_val(s[0]);
        assert(v < 10);
        assert(digit_char(v) == s[0]);
        assert(spec_udigits(v) =~= s);
    } else {
        let prefix = s.drop_last();
        assert(prefix[0] == s[0]);
        assert(all_digits(prefix));
        lemma_digits_val_lower(prefix);
        assert(digits_val(prefix) >= 1) by {
            lemma_pow10_increases(0, (prefix.len() - 1) as nat);
        }
        assert(v == digits_val(prefix) * 10 + digit_val(s.last()));
        assert(v >= 10);
        assert(digit_val(s.last()) < 10);
        vstd::arithmetic::div_mod::lemma_fundamental_div_mod_converse(
            v as int,
            10,
            digits_val(prefix) as int,
            digit_val(s.last()) as int,
        );
        assert(v / 10 == digits_val(prefix));
        assert(v % 10 == digit_val(s.last()));
        lemma_val_udigits(prefix);
        lemma_digit_char_of_val(s.last());
        assert(digit_char(digit_val(s.last())) == s.last());
        assert(spec_udigits(v) =~= s);
    }
}

/// Zero-padded rendering: value, digits and exact length.
proof fn lemma_padded_props(n: nat, w: nat)
    requires
        n < pow10(w),
    ensures
        digits_val(spec_padded(n, w)) == n,
        all_digits(spec_padded(n, w)),
        spec_padded(n, w).len() == w,
        forall|j: int| 0 <= j < w ==> #[trigger] spec_padded(n, w)[j] != '.',
    decreases w,
{
    if w == 0 {
        assert(pow10(0) == 1);
    } else {
        assert(pow10(w) == 10 * pow10((w - 1) as nat));
        assert(n / 10 < pow10((w - 1) as nat)) by {
            vstd::arithmetic::div_mod::lemma_fundamental_div_mod(n as int, 10);
        }
        lemma_padded_props(n / 10, (w - 1) as nat);
        lemma_digit_char_val(n % 10);
        let s = spec_padded(n, w);
        assert(s.drop_last() =~= spec_padded(n / 10, (w - 1) as nat));
        assert(digits_val(s) == (n / 10) * 10 + n % 10);
        vstd::arithmetic::div_mod::lemma_fundamental_div_mod(n as int, 10);
    }
}

/// Zero-padding the value of a digit string gives back the string.
proof fn lemma_padded_of_val(s: Seq<char>)
    requires
        all_digits(s),
    ensures
        spec_padded(digits_val(s), s.len()) == s,
    decreases s.len(),
{
    if s.len() == 0 {
        assert(spec_padded(0, 0) =~= s);
    } else {
        let prefix = s.drop_last();
        let v = digits_val(s);
        assert(v == digits_val(prefix) * 10 + digit_val(s.last()));
        assert(digit_val(s.last()) < 10);
        vstd::arithmetic::div_mod::lemma_fundamental_div_mod_converse(
            v as int,
            10,
            digits_val(prefix) as int,
            digit_val(s.last()) as int,
        );
        lemma_padded_of_val(prefix);
        lemma_digit_char_of_val(s.last());
        assert(digit_char(digit_val(s.last())) == s.last());
        assert(spec_padded(v, s.len()) =~= s);
    }
}

/// The rendered magnitude in closed form: the whole part's digits, the
/// point, then the fractional digits zero-padded to the scale.
proof fn lemma_mag_form(m: nat, sc: nat)
    ensures
        spec_mag(m, sc) == spec_udigits(m / pow10(sc)) + seq!['.'] + spec_padded(
            m % pow10(sc),
            sc,
        ),
    decreases sc,
{
    if sc == 0 {
        assert(pow10(0) == 1);
        assert(m / 1 == m);
        assert(m % 1 == 0);
        assert(spec_padded(0, 0) =~= Seq::<char>::empty());
        assert(spec_mag(m, 0) =~= spec_udigits(m) + seq!['.'] + spec_padded(m % pow10(0), 0));
    } else {
        let k = (sc - 1) as nat;
        lemma_mag_form(m / 10, k);
        assert(pow10(sc) == 10 * pow10(k));
        assert(pow10(0) == 1);
        lemma_pow10_increases(0, k);
        vstd::arithmetic::div_mod::lemma_mod_breakdown(m as int, 10, pow10(k) as int);
        assert(m % pow10(sc) == 10 * ((m / 10) % pow10(k)) + m % 10);
        vstd::arithmetic::div_mod::lemma_div_denominator(m as int, 10, pow10(k) as int);
        assert((m / 10) / pow10(k) == m / pow10(sc));
        let rest = m % pow10(sc);
        assert(rest / 10 == (m / 10) % pow10(k) && rest % 10 == m % 10) by {
            vstd::arithmetic::div_mod::lemma_fundamental_div_mod_converse(
                rest as int,
                10,
                ((m / 10) % pow10(k)) as int,
                (m % 10) as int,
            );
            assert(0 <= m % 10 < 10) by {
                vstd::arithmetic::div_mod::lemma_fundamental_div_mod(m as int, 10);
            }
        }
        assert(spec_padded(rest, sc).drop_last() =~= spec_padded(rest / 10, k));
        assert(spec_mag(m, sc) == spec_mag(m / 10, k).push(digit_char(m % 10)));
        assert(spec_mag(m, sc) =~= spec_udigits(m / pow10(sc)) + seq!['.'] + spec_padded(
            rest,
            sc,
        ));
    }
}

proof fn lemma_first_dot_char(s: Seq<char>)
    requires
        first_dot(s) != -1,
    ensures
        0 <= first_dot(s) < s.len(),
        s[first_dot(s)] == '.',
    decreases s.len(),
{
    if s.len() > 0 && s[0] != '.' && first_dot(s.drop_first()) != -1 {
        lemma_first_dot_char(s.drop_first());
    }
}

proof fn lemma_first_dot_at(s: Seq<char>, p: int)
    requires
        0 <= p < s.len(),
        s[p] == '.',
        forall|j: int| 0 <= j < p ==> s[j] != '.',
    ensures
        first_dot(s) == p,
    decreases p,
{
    if p > 0 {
        lemma_first_dot_at(s.drop_first(), p - 1);
    }
}

proof fn lemma_first_dot_none(s: Seq<char>)
    requires
        forall|j: int| 0 <= j < s.len() ==> s[j] != '.',
    ensures
        first_dot(s) == -1,
    decreases s.len(),
{
    if s.len() > 0 {
        lemma_first_dot_none(s.drop_first());
    }
}

/// A digit string's value stays under ten to its length.
pub proof fn lemma_digits_val_bound(s: Seq<char>)
    requires
        all_digits(s),
    ensures
        digits_val(s) < pow10(s.len()),
    decreases s.len(),
{
    if s.len() > 0 {
        assert(is_digit_char(s[s.len() - 1]));
        lemma_digits_val_bound(s.drop_last());
    }
}

/// Executable mirror of `is_digit_char`.
pub fn is_digit(c: char) -> (r: bool)
    ensures
        r == is_digit_char(c),
{
    let u = c as u32;
    0x30 <= u && u <= 0x39
}

/// The numeric value of one digit character.
fn digit_value(c: char) -> (r: u128)
    requires
        is_digit_char(c),
    ensures
        r == digit_val(c),
        r <= 9,
{
    ((c as u32) - 0x30) as u128
}

/// Law: parsing a rendered decimal gives back exactly the same value,
/// sign, mantissa and scale included.
pub proof fn lemma_parse_format(d: Decimal)
    requires
        dec_wf(d),
    ensures
        spec_parse(spec_format(d)) == Some(d),
{
    lemma_pow10_value();
    let m = d.mantissa as nat;
    let sc = d.scale as nat;
    let s = spec_format(d);
    if sc == 0 {
        let mag = spec_udigits(m);
        lemma_udigits_props(m);
        lemma_udigits_len(m, 38);
        let t = if d.negative {
            s.drop_first()
        } else {
            s
        };
        if d.negative {
            assert(s == seq!['-'] + mag);
            assert(s[0] == '-');
            assert(t =~= mag);
        } else {
            assert(s == mag);
            lemma_char_code_ne(s[0], '-');
            assert(s[0] != '-');
        }
        lemma_first_dot_none(t);
        assert(digits_val(t) == m);
    } else {
        let mag = spec_mag(m, sc);
        lemma_mag_form(m, sc);
        let q = m / pow10(sc);
        let r = m % pow10(sc);
        assert(pow10(0) == 1);
        lemma_pow10_increases(0, sc);
        vstd::arithmetic::div_mod::lemma_fundamental_div_mod(m as int, pow10(sc) as int);
        assert(0 <= r < pow10(sc));
        lemma_udigits_props(q);
        lemma_padded_props(r, sc);
        let ipd = spec_udigits(q);
        let fpd = spec_padded(r, sc);
        assert(mag == ipd + seq!['.'] + fpd);
        let p = ipd.len() as int;
        assert(mag[p] == '.');
        assert(forall|j: int| 0 <= j < p ==> mag[j] == ipd[j] && mag[j] != '.');
        assert(forall|j: int| p < j < mag.len() ==> mag[j] == fpd[j - p - 1]);
        let t = if d.negative {
            s.drop_first()
        } else {
            s
        };
        if d.negative {
            assert(s == seq!['-'] + mag);
            assert(s[0] == '-');
            assert(t =~= mag);
        } else {
            assert(s == mag);
            assert(s[0] == ipd[0]);
            lemma_char_code_ne(s[0], '-');
            assert(s[0] != '-');
        }
        lemma_first_dot_at(t, p);
        assert(t.take(p) =~= ipd);
        assert(t.skip(p + 1) =~= fpd);
        // The digit budget: the whole part needs at most 38 - scale digits.
        assert(q < pow10((38 - sc) as nat)) by {
            lemma_pow10_add((38 - sc) as nat, sc);
            assert(m < pow10((38 - sc) as nat) * pow10(sc));
            assert(q < pow10((38 - sc) as nat)) by (nonlinear_arith)
                requires
                    m < pow10((38 - sc) as nat) * pow10(sc),
                    q == m / pow10(sc),
                    pow10(sc) > 0,
            ;
        }
        lemma_udigits_len(q, (38 - sc) as nat);
        assert(sig_ok(ipd, fpd));
        lemma_digits_val_concat(ipd, fpd);
        assert(digits_val(ipd + fpd) == q * pow10(sc) + r);
        assert(q * pow10(sc) + r == m);
    }
}

/// Law: rendering a parsed decimal reproduces the input string exactly,
/// leading sign, scale and trailing zeros included.
pub proof fn lemma_format_parse(s: Seq<char>)
    requires
        spec_parse(s) is Some,
    ensures
        match spec_parse(s) {
            Some(d) => dec_wf(d) && spec_format(d) == s,
            None => false,
        },
{
    lemma_pow10_value();
    let neg = s.len() > 0 && s[0] == '-';
    let t = if neg {
        s.drop_first()
    } else {
        s
    };
    let p = first_dot(t);
    if p == -1 {
        let v = digits_val(t);
        lemma_digits_val_bound(t);
        lemma_pow10_increases(t.len(), 38);
        lemma_val_udigits(t);
        let d = Decimal { negative: neg, mantissa: v as u128, scale: 0 };
        assert(spec_parse(s) == Some(d));
        assert(spec_udigits(d.mantissa as nat) == t);
        if neg {
            assert(spec_format(d) =~= s);
        } else {
            assert(spec_format(d) == t);
        }
    } else {
        let ip = t.take(p);
        let fp = t.skip(p + 1);
        let q = digits_val(ip);
        let r = digits_val(fp);
        let sc = fp.len() as nat;
        let m = digits_val(ip + fp);
        lemma_digits_val_concat(ip, fp);
        lemma_digits_val_bound(fp);
        lemma_digits_val_bound(ip + fp);
        lemma_pow10_increases((ip + fp).len(), 38);
        assert(m == q * pow10(sc) + r);
        vstd::arithmetic::div_mod::lemma_fundamental_div_mod_converse(
            m as int,
            pow10(sc) as int,
            q as int,
            r as int,
        );
        assert(m / pow10(sc) == q);
        assert(m % pow10(sc) == r);
        let d = Decimal { negative: neg, mantissa: m as u128, scale: sc as u32 };
        assert(spec_parse(s) == Some(d));
        lemma_mag_form(m, sc);
        lemma_val_udigits(ip);
        lemma_padded_of_val(fp);
        let mag = spec_mag(d.mantissa as nat, sc);
        assert(mag == ip + seq!['.'] + fp);
        lemma_first_dot_char(t);
        assert(t[p] == '.');
        assert(mag =~= t);
        if neg {
            assert(spec_format(d) =~= s);
        } else {
            assert(spec_format(d) == t);
        }
    }
}

/// Finds the first dot at or after `from`, or gives back the length.
fn find_dot(s: &str, from: usize) -> (r: usize)
    requires
        from <= s@.len(),
    ensures
        from <= r <= s@.len(),
        r < s@.len() ==> s@[r as int] == '.' && (forall|j: int| from <= j < r ==> s@[j] != '.'),
        r == s@.len() ==> forall|j: int| from <= j < s@.len() ==> s@[j] != '.',
{
    let n = s.unicode_len();
    let mut dot: usize = n;
    let mut i: usize = from;
    while i < n
        invariant
            n == s@.len(),
            from <= i <= n,
            dot == n || (from <= dot < i && s@[dot as int] == '.' && forall|j: int|
                from <= j < dot ==> s@[j] != '.'),
            dot == n ==> forall|j: int| from <= j < i ==> s@[j] != '.',
        decreases n - i,
    {
        if dot == n && s.get_char(i) == '.' {
            dot = i;
        }
        i += 1;
    }
    dot
}

/// Checks that every character of `s` between `from` and `to` is a digit.
pub(crate) fn check_digits(s: &str, from: usize, to: usize) -> (r: bool)
    requires
        from <= to <= s@.len(),
    ensures
        r == all_digits(s@.subrange(from as int, to as int)),
{
    let ghost part = s@.subrange(from as int, to as int);
    let mut i: usize = from;
    let mut ok = true;
    while i < to
        invariant
            from <= i <= to <= s@.len(),
            part == s@.subrange(from as int, to as int),
            ok == all_digits(s@.subrange(from as int, i as int)),
        decreases to - i,
    {
        let ghost before = s@.subrange(from as int, i as int);
        let c = s.get_char(i);
        if !is_digit(c) {
            ok = false;
        }
        i += 1;
        proof {
            let now = s@.subrange(from as int, i as int);
            assert(before =~= now.drop_last());
            if !is_digit_char(c) {
                assert(!all_digits(now)) by {
                    assert(now.last() == c);
                }
            } else {
                if all_digits(before) {
                    assert(forall|j: int|
                        0 <= j < now.len() ==> is_digit_char(#[trigger] now[j]) || j == now.len()
                            - 1);
                }
            }
        }
    }
    proof {
        assert(s@.subrange(from as int, to as int) =~= part);
    }
    ok
}

/// Appends the digits of `s[from..to]` to an accumulated value.
pub(crate) fn accumulate_digits(
    s: &str,
    from: usize,
    to: usize,
    acc: u128,
    Ghost(pre): Ghost<Seq<char>>,
) -> (r: u128)
    requires
        from <= to <= s@.len(),
        all_digits(s@.subrange(from as int, to as int)),
        all_digits(pre),
        acc == digits_val(pre),
        pre.len() + (to - from) <= 38,
    ensures
        r == digits_val(pre + s@.subrange(from as int, to as int)),
{
    let ghost part = s@.subrange(from as int, to as int);
    let mut value = acc;
    let mut i: usize = from;
    while i < to
        invariant
            from <= i <= to <= s@.len(),
            part == s@.subrange(from as int, to as int),
            all_digits(part),
            all_digits(pre),
            pre.len() + (to - from) <= 38,
            value == digits_val(pre + part.take(i - from)),
        decreases to - i,
    {
        let ghost pr = pre + part.take(i - from);
        proof {
            assert(all_digits(pr)) by {
                assert(forall|j: int|
                    0 <= j < pr.len() ==> is_digit_char(#[trigger] pr[j]) == if j < pre.len() {
                        is_digit_char(pre[j])
                    } else {
                        is_digit_char(part.take(i - from)[j - pre.len()])
                    });
            }
            lemma_pow10_value();
            lemma_digits_val_bound(pr);
            lemma_pow10_increases(pr.len(), 37);
            assert(part[i - from] == s@[i as int]);
            assert((pre + part.take(i + 1 - from)).drop_last() =~= pr);
            assert((pre + part.take(i + 1 - from)).last() == s@[i as int]);
        }
        let d = digit_value(s.get_char(i));
        value = value * 10 + d;
        i += 1;
    }
    proof {
        assert(part.take(to - from) =~= part);
    }
    value
}

impl Decimal {
    /// Reads a decimal from its wire form, accepting exactly the strings
    /// of `spec_parse` and returning exactly the value it gives.
    #[verifier::rlimit(100)]
    pub fn parse(s: &str) -> (r: Option<Decimal>)
        ensures
            r == spec_parse(s@),
            r matches Some(d) ==> dec_wf(d),
    {
        let ghost sv = s@;
        let n = s.unicode_len();
        if n == 0 {
            proof {
                lemma_first_dot_none(sv);
            }
            return None;
        }
        let neg = s.get_char(0) == '-';
        let start: usize = if neg {
            1
        } else {
            0
        };
        let ghost t = sv.skip(start as int);
        proof {
            if neg {
                assert(t =~= sv.drop_first());
            } else {
                assert(t =~= sv);
            }
        }
        let dot = find_dot(s, start);
        proof {
            if dot == n {
                assert(forall|j: int| 0 <= j < t.len() ==> t[j] == sv[j + start]);
                lemma_first_dot_none(t);
            } else {
                assert(forall|j: int| 0 <= j < t.len() ==> t[j] == sv[j + start]);
                lemma_first_dot_at(t, dot - start);
            }
        }
        let ip_end: usize = if dot < n {
            dot
        } else {
            n
        };
        let ghost ip = t.take(ip_end - start);
        let ghost fp = t.skip(ip_end + 1 - start);
        proof {
            assert(ip =~= sv.subrange(start as int, ip_end as int));
            if dot < n {
                assert(fp =~= sv.subrange(dot + 1, n as int));
            } else {
                assert(ip =~= t);
            }
        }
        let int_len: usize = ip_end - start;
        let frac_len: usize = if dot < n {
            n - dot - 1
        } else {
            0
        };
        // The integer part: digits only, no superfluous leading zero.
        if int_len == 0 {
            proof {
                assert(!int_part_ok(ip));
            }
            return None;
        }
        if !check_digits(s, start, ip_end) {
            proof {
                assert(!int_part_ok(ip));
            }
            return None;
        }
        if int_len > 1 && s.get_char(start) == '0' {
            proof {
                assert(ip[0] == sv[start as int]);
                assert(!int_part_ok(ip));
            }
            return None;
        }
        // The fractional part, when a dot is present: at least one digit.
        if dot < n {
            if frac_len == 0 {
                proof {
                    assert(fp.len() == 0);
                }
                return None;
            }
            if !check_digits(s, dot + 1, n) {
                proof {
                    assert(!all_digits(fp));
                }
                return None;
            }
        }
        if int_len + frac_len > 38 {
            proof {
                if dot == n {
                    assert(t.len() > 38);
                } else {
                    assert(!sig_ok(ip, fp));
                }
            }
            return None;
        }
        let acc = accumulate_digits(s, start, ip_end, 0, Ghost(Seq::<char>::empty()));
        proof {
            assert(Seq::<char>::empty() + ip =~= ip);
        }
        if dot < n {
            let mantissa = accumulate_digits(s, dot + 1, n, acc, Ghost(ip));
            proof {
                lemma_digits_val_bound(ip + fp);
                lemma_pow10_increases((ip + fp).len(), 38);
                lemma_pow10_value();
            }
            let r = Decimal { negative: neg, mantissa, scale: frac_len as u32 };
            proof {
                assert(spec_parse(sv) == Some(r));
            }
            Some(r)
        } else {
            proof {
                lemma_digits_val_bound(ip);
                lemma_pow10_increases(ip.len(), 38);
                lemma_pow10_value();
                assert(ip =~= t);
            }
            let r = Decimal { negative: neg, mantissa: acc, scale: 0 };
            proof {
                assert(spec_parse(sv) == Some(r));
            }
            Some(r)
        }
    }
}

} // verus!
