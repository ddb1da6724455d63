//! The JSON subset the exchange speaks, as a typed tree.

use vstd::prelude::*;

verus! {

broadcast use vstd::seq::axiom_seq_index_decreases, vstd::std_specs::vec::axiom_vec_decreases_to_view;

/// The mathematical shape of a response body: object members and array
/// elements in arrival order, strings as character sequences, numbers
/// as their raw lexemes.
#[verifier::ext_equal]
pub enum SpecJson {
    Null,
    Bool(bool),
    Num(Seq<char>),
    Str(Seq<char>),
    Arr(Seq<SpecJson>),
    Obj(Seq<(Seq<char>, SpecJson)>),
}

/// A parsed response body. Numbers keep their raw lexeme so that
/// decimal values lose nothing; strings hold the unescaped text.
#[derive(Debug)]
pub enum Json {
    Null,
    Bool(bool),
    Num(String),
    Str(String),
    Arr(Vec<Json>),
    Obj(Vec<(String, Json)>),
}

/// The shape of a parsed value.
pub open spec fn jview(j: Json) -> SpecJson
    decreases j,
    via jview_decreases
{
    match j {
        Json::Null => SpecJson::Null,
        Json::Bool(b) => SpecJson::Bool(b),
        Json::Num(s) => SpecJson::Num(s@),
        Json::Str(s) => SpecJson::Str(s@),
        Json::Arr(v) => SpecJson::Arr(
            Seq::new(
                v@.len(),
                |i: int|
                    if 0 <= i < v@.len() {
                        jview(v@[i])
                    } else {
                        SpecJson::Null
                    },
            ),
        ),
        Json::Obj(v) => SpecJson::Obj(
            Seq::new(
                v@.len(),
                |i: int|
                    if 0 <= i < v@.len() {
                        (v@[i].0@, jview(v@[i].1))
                    } else {
                        (Seq::<char>::empty(), SpecJson::Null)
                    },
            ),
        ),
    }
}

#[via_fn]
proof fn jview_decreases(j: Json) {
    match j {
        Json::Arr(v) => {
            assert forall|i: int| 0 <= i < v@.len() implies (decreases_to!(j => v@[i])) by {
                assert(decreases_to!(j => v));
                assert(decreases_to!(v => v@));
                assert(decreases_to!(v@ => v@[i]));
            }
        },
        Json::Obj(v) => {
            assert forall|i: int| 0 <= i < v@.len() implies (decreases_to!(j => v@[i].1)) by {
                assert(decreases_to!(j => v));
                assert(decreases_to!(v => v@));
                assert(decreases_to!(v@ => v@[i]));
                assert(decreases_to!(v@[i] => v@[i].1));
            }
        },
        _ => {},
    }
}

impl View for Json {
    type V = SpecJson;

    open spec fn view(&self) -> SpecJson {
        jview(*self)
    }
}

/// JSON whitespace.
pub open spec fn is_ws(c: char) -> bool {
    c == ' ' || c == '\t' || c == '\n' || c == '\r'
}

/// The first non-whitespace position at or after `i`.
pub open spec fn sp_ws(s: Seq<char>, i: int) -> int
    decreases s.len() - i,
    when 0 <= i <= s.len()
{
    if i < s.len() && is_ws(s[i]) {
        sp_ws(s, i + 1)
    } else {
        i
    }
}

/// The first non-digit position at or after `i`.
pub open spec fn digits_end(s: Seq<char>, i: int) -> int
    decreases s.len() - i,
    when 0 <= i <= s.len()
{
    if i < s.len() && crate::decimal::is_digit_char(s[i]) {
        digits_end(s, i + 1)
    } else {
        i
    }
}

/// What a string escape letter stands for, if it is supported. The
/// `\uXXXX` form is not accepted and gives a decode error.
pub open spec fn spec_escape(c: char) -> Option<char> {
    if c == '"' {
        Some('"')
    } else if c == '\\' {
        Some('\\')
    } else if c == '/' {
        Some('/')
    } else if c == 'n' {
        Some('\n')
    } else if c == 't' {
        Some('\t')
    } else if c == 'r' {
        Some('\r')
    } else if c == 'b' {
        Some('\u{0008}')
    } else if c == 'f' {
        Some('\u{000C}')
    } else {
        None
    }
}

/// Reads a string body from just after the opening quote to the closing
/// quote: the unescaped text and the position after the quote.
pub open spec fn sp_string_body(s: Seq<char>, i: int, acc: Seq<char>) -> Option<(Seq<char>, int)>
    decreases s.len() - i,
    when 0 <= i <= s.len()
{
    if i >= s.len() {
        None
    } else if s[i] == '"' {
        Some((acc, i + 1))
    } else if s[i] == '\\' {
        if i + 1 < s.len() {
            match spec_escape(s[i + 1]) {
                Some(c) => sp_string_body(s, i + 2, acc.push(c)),
                None => None,
            }
        } else {
            None
        }
    } else {
        sp_string_body(s, i + 1, acc.push(s[i]))
    }
}

/// Reads a number lexeme: an optional minus sign, integer digits, and
/// an optional fraction. The raw text is kept.
pub open spec fn sp_number(s: Seq<char>, i: int) -> Option<(SpecJson, int)> {
    let d0 = if 0 <= i < s.len() && s[i] == '-' {
        i + 1
    } else {
        i
    };
    let e1 = digits_end(s, d0);
    if e1 == d0 {
        None
    } else if e1 < s.len() && s[e1] == '.' {
        let e2 = digits_end(s, e1 + 1);
        if e2 == e1 + 1 {
            None
        } else {
            Some((SpecJson::Num(s.subrange(i, e2)), e2))
        }
    } else {
        Some((SpecJson::Num(s.subrange(i, e1)), e1))
    }
}

/// Skips whitespace.
fn p_ws(s: &str, i: usize) -> (r: usize)
    requires
        i <= s@.len(),
    ensures
        r == sp_ws(s@, i as int),
        i <= r <= s@.len(),
{
    let n = s.unicode_len();
    let mut j = i;
    while j < n
        invariant
            n == s@.len(),
            i <= j <= n,
            sp_ws(s@, i as int) == sp_ws(s@, j as int),
        decreases n - j,
    {
        let c = s.get_char(j);
        if !(c == ' ' || c == '\t' || c == '\n' || c == '\r') {
            return j;
        }
        j += 1;
    }
    j
}

/// Skips digits.
fn p_digits_end(s: &str, i: usize) -> (r: usize)
    requires
        i <= s@.len(),
    ensures
        r == digits_end(s@, i as int),
        i <= r <= s@.len(),
{
    let n = s.unicode_len();
    let mut j = i;
    while j < n
        invariant
            n == s@.len(),
            i <= j <= n,
            digits_end(s@, i as int) == digits_end(s@, j as int),
        decreases n - j,
    {
        if !crate::decimal::is_digit(s.get_char(j)) {
            return j;
        }
        j += 1;
    }
    j
}

/// The replacement text of one escape letter.
fn p_escape(c: char) -> (r: Option<&'static str>)
    ensures
        match r {
            Some(t) => spec_escape(c) matches Some(e) && t@ == seq![e],
            None => spec_escape(c) is None,
        },
{
    proof {
        reveal_strlit("\"");
        reveal_strlit("\\");
        reveal_strlit("/");
        reveal_strlit("\n");
        reveal_strlit("\t");
        reveal_strlit("\r");
        reveal_strlit("\u{0008}");
        reveal_strlit("\u{000C}");
    }
    if c == '"' {
        Some("\"")
    } else if c == '\\' {
        Some("\\")
    } else if c == '/' {
        Some("/")
    } else if c == 'n' {
        Some("\n")
    } else if c == 't' {
        Some("\t")
    } else if c == 'r' {
        Some("\r")
    } else if c == 'b' {
        Some("\u{0008}")
    } else if c == 'f' {
        Some("\u{000C}")
    } else {
        None
    }
}

/// Reads a string body, from just after the opening quote.
fn p_string_body(s: &str, i: usize) -> (r: Option<(String, usize)>)
    requires
        i <= s@.len(),
    ensures
        match r {
            Some((t, j)) => sp_string_body(s@, i as int, Seq::<char>::empty()) == Some(
                (t@, j as int),
            ) && i <= j <= s@.len(),
            None => sp_string_body(s@, i as int, Seq::<char>::empty()) is None,
        },
{
    let n = s.unicode_len();
    let mut out = String::new();
    let mut j = i;
    while j < n
        invariant
            n == s@.len(),
            i <= j <= n,
            sp_string_body(s@, i as int, Seq::<char>::empty()) == sp_string_body(s@, j as int, out@),
        decreases n - j,
    {
        let ghost acc = out@;
        let c = s.get_char(j);
        if c == '"' {
            return Some((out, j + 1));
        } else if c == '\\' {
            if j + 1 < n {
                match p_escape(s.get_char(j + 1)) {
                    Some(t) => {
                        out = out.concat(t);
                        proof {
                            let e = spec_escape(s@[j + 1]).unwrap();
                            assert(out@ =~= acc.push(e));
                        }
                        j += 2;
                    },
                    None => {
                        return None;
                    },
                }
            } else {
                return None;
            }
        } else {
            let piece = s.substring_char(j, j + 1);
            out = out.concat(piece);
            proof {
                assert(piece@ =~= seq![c]);
                assert(out@ =~= acc.push(c));
            }
            j += 1;
        }
    }
    None
}

/// A literal word appears at position `i`.
pub open spec fn lit_at(s: Seq<char>, i: int, w: Seq<char>) -> bool {
    0 <= i && i + w.len() <= s.len() && s.subrange(i, i + w.len()) == w
}

/// Reads one value. The fuel bounds the recursion depth; the parser is
/// always run with fuel equal to the body length, which every level of
/// real nesting stays well under, since each level consumes characters.
pub open spec fn sp_value(s: Seq<char>, i: int, fuel: nat) -> Option<(SpecJson, int)>
    decreases fuel,
{
    if fuel == 0 || !(0 <= i < s.len()) {
        None
    } else {
        let c = s[i];
        if c == 'n' {
            if lit_at(s, i, "null"@) {
                Some((SpecJson::Null, i + 4))
            } else {
                None
            }
        } else if c == 't' {
            if lit_at(s, i, "true"@) {
                Some((SpecJson::Bool(true), i + 4))
            } else {
                None
            }
        } else if c == 'f' {
            if lit_at(s, i, "false"@) {
                Some((SpecJson::Bool(false), i + 5))
            } else {
                None
            }
        } else if c == '"' {
            match sp_string_body(s, i + 1, Seq::<char>::empty()) {
                Some((t, j)) => Some((SpecJson::Str(t), j)),
                None => None,
            }
        } else if c == '[' {
            let j = sp_ws(s, i + 1);
            if j < s.len() && s[j] == ']' {
                Some((SpecJson::Arr(Seq::<SpecJson>::empty()), j + 1))
            } else {
                sp_items(s, j, Seq::<SpecJson>::empty(), (fuel - 1) as nat)
            }
        } else if c == '{' {
            let j = sp_ws(s, i + 1);
            if j < s.len() && s[j] == '}' {
                Some((SpecJson::Obj(Seq::<(Seq<char>, SpecJson)>::empty()), j + 1))
            } else {
                sp_members(s, j, Seq::<(Seq<char>, SpecJson)>::empty(), (fuel - 1) as nat)
            }
        } else {
            sp_number(s, i)
        }
    }
}

/// Reads the elements of an array from the first element on, with the
/// elements already read in front.
pub open spec fn sp_items(s: Seq<char>, i: int, acc: Seq<SpecJson>, fuel: nat) -> Option<
    (SpecJson, int),
>
    decreases fuel,
{
    if fuel == 0 {
        None
    } else {
        match sp_value(s, i, (fuel - 1) as nat) {
            None => None,
            Some((v, j)) => {
                if !(0 <= j <= s.len()) {
                    None
                } else {
                    let k = sp_ws(s, j);
                    if k < s.len() && s[k] == ',' {
                        sp_items(s, sp_ws(s, k + 1), acc.push(v), (fuel - 1) as nat)
                    } else if k < s.len() && s[k] == ']' {
                        Some((SpecJson::Arr(acc.push(v)), k + 1))
                    } else {
                        None
                    }
                }
            },
        }
    }
}

/// Reads the members of an object from the first key on, with the
/// members already read in front.
pub open spec fn sp_members(
    s: Seq<char>,
    i: int,
    acc: Seq<(Seq<char>, SpecJson)>,
    fuel: nat,
) -> Option<(SpecJson, int)>
    decreases fuel,
{
    if fuel == 0 || !(0 <= i < s.len()) {
        None
    } else if s[i] != '"' {
        None
    } else {
        match sp_string_body(s, i + 1, Seq::<char>::empty()) {
            None => None,
            Some((key, j)) => {
                if !(0 <= j <= s.len()) {
                    None
                } else {
                    let k = sp_ws(s, j);
                    if k < s.len() && s[k] == ':' {
                        match sp_value(s, sp_ws(s, k + 1), (fuel - 1) as nat) {
                            None => None,
                            Some((v, m)) => {
                                if !(0 <= m <= s.len()) {
                                    None
                                } else {
                                    let e = sp_ws(s, m);
                                    if e < s.len() && s[e] == ',' {
                                        sp_members(
                                            s,
                                            sp_ws(s, e + 1),
                                            acc.push((key, v)),
                                            (fuel - 1) as nat,
                                        )
                                    } else if e < s.len() && s[e] == '}' {
                                        Some((SpecJson::Obj(acc.push((key, v))), e + 1))
                                    } else {
                                        None
                                    }
                                }
                            },
                        }
                    } else {
                        None
                    }
                }
            },
        }
    }
}

/// The whole body: one value surrounded by whitespace and nothing else.
pub open spec fn spec_parse_json(s: Seq<char>) -> Option<SpecJson> {
    let i = sp_ws(s, 0);
    match sp_value(s, i, s.len() as nat) {
        None => None,
        Some((v, j)) => if 0 <= j <= s.len() && sp_ws(s, j) == s.len() {
            Some(v)
        } else {
            None
        },
    }
}

/// The shapes of parsed array elements.
pub open spec fn jviews(v: Seq<Json>) -> Seq<SpecJson> {
    Seq::new(
        v.len(),
        |i: int|
            if 0 <= i < v.len() {
                jview(v[i])
            } else {
                SpecJson::Null
            },
    )
}

/// The shapes of parsed object members.
pub open spec fn jmembers(v: Seq<(String, Json)>) -> Seq<(Seq<char>, SpecJson)> {
    Seq::new(
        v.len(),
        |i: int|
            if 0 <= i < v.len() {
                (v[i].0@, jview(v[i].1))
            } else {
                (Seq::<char>::empty(), SpecJson::Null)
            },
    )
}

/// A parser result with its shape taken.
pub open spec fn opt_jview(r: Option<(Json, usize)>) -> Option<(SpecJson, int)> {
    match r {
        None => None,
        Some((v, j)) => Some((jview(v), j as int)),
    }
}

/// Tests for a literal word at position `i`.
fn p_lit(s: &str, i: usize, w: &str) -> (r: bool)
    requires
        i <= s@.len(),
    ensures
        r == lit_at(s@, i as int, w@),
{
    let n = s.unicode_len();
    let wl = w.unicode_len();
    if wl <= n - i {
        crate::text::str_eq(s.substring_char(i, i + wl), w)
    } else {
        false
    }
}

/// Reads one value; mirrors `sp_value` exactly.
fn p_value(s: &str, i: usize, fuel: usize) -> (r: Option<(Json, usize)>)
    requires
        i <= s@.len(),
    ensures
        opt_jview(r) == sp_value(s@, i as int, fuel as nat),
        r matches Some((v, j)) ==> j <= s@.len(),
    decreases fuel,
{
    let n = s.unicode_len();
    if fuel == 0 || i >= n {
        return None;
    }
    let c = s.get_char(i);
    if c == 'n' {
        if p_lit(s, i, "null") {
            proof {
                reveal_strlit("null");
            }
            Some((Json::Null, i + 4))
        } else {
            None
        }
    } else if c == 't' {
        if p_lit(s, i, "true") {
            proof {
                reveal_strlit("true");
            }
            Some((Json::Bool(true), i + 4))
        } else {
            None
        }
    } else if c == 'f' {
        if p_lit(s, i, "false") {
            proof {
                reveal_strlit("false");
            }
            Some((Json::Bool(false), i + 5))
        } else {
            None
        }
    } else if c == '"' {
        match p_string_body(s, i + 1) {
            Some((t, j)) => Some((Json::Str(t), j)),
            None => None,
        }
    } else if c == '[' {
        let j = p_ws(s, i + 1);
        if j < n && s.get_char(j) == ']' {
            let items: Vec<Json> = Vec::new();
            let ghost iv = items@;
            let arr = Json::Arr(items);
            let r = Some((arr, j + 1));
            proof {
                assert(jview(arr)->Arr_0 =~= Seq::<SpecJson>::empty());
                assert(jview(arr) == SpecJson::Arr(Seq::<SpecJson>::empty()));
            }
            r
        } else {
            let empty_items: Vec<Json> = Vec::new();
            proof {
                assert(jviews(empty_items@) =~= Seq::<SpecJson>::empty());
            }
            p_items(s, j, empty_items, fuel - 1)
        }
    } else if c == '{' {
        let j = p_ws(s, i + 1);
        if j < n && s.get_char(j) == '}' {
            let members: Vec<(String, Json)> = Vec::new();
            let ghost mv = members@;
            let obj = Json::Obj(members);
            let r = Some((obj, j + 1));
            proof {
                assert(jview(obj)->Obj_0 =~= Seq::<(Seq<char>, SpecJson)>::empty());
                assert(jview(obj) == SpecJson::Obj(Seq::<(Seq<char>, SpecJson)>::empty()));
            }
            r
        } else {
            let empty_members: Vec<(String, Json)> = Vec::new();
            proof {
                assert(jmembers(empty_members@) =~= Seq::<(Seq<char>, SpecJson)>::empty());
            }
            p_members(s, j, empty_members, fuel - 1)
        }
    } else {
        p_number(s, i)
    }
}

/// Reads a number lexeme; mirrors `sp_number` exactly.
fn p_number(s: &str, i: usize) -> (r: Option<(Json, usize)>)
    requires
        i < s@.len(),
    ensures
        opt_jview(r) == sp_number(s@, i as int),
        r matches Some((v, j)) ==> j <= s@.len(),
{
    let n = s.unicode_len();
    let d0 = if s.get_char(i) == '-' {
        i + 1
    } else {
        i
    };
    let e1 = p_digits_end(s, d0);
    if e1 == d0 {
        None
    } else if e1 < n && s.get_char(e1) == '.' {
        let e2 = p_digits_end(s, e1 + 1);
        if e2 == e1 + 1 {
            None
        } else {
            let lex = s.substring_char(i, e2).to_owned();
            Some((Json::Num(lex), e2))
        }
    } else {
        let lex = s.substring_char(i, e1).to_owned();
        Some((Json::Num(lex), e1))
    }
}

/// Reads array elements; mirrors `sp_items` exactly.
fn p_items(s: &str, i: usize, acc: Vec<Json>, fuel: usize) -> (r: Option<(Json, usize)>)
    requires
        i <= s@.len(),
    ensures
        opt_jview(r) == sp_items(s@, i as int, jviews(acc@), fuel as nat),
        r matches Some((v, j)) ==> j <= s@.len(),
    decreases fuel,
{
    let ghost accv = jviews(acc@);
    if fuel == 0 {
        return None;
    }
    let n = s.unicode_len();
    match p_value(s, i, fuel - 1) {
        None => None,
        Some((v, j)) => {
            let k = p_ws(s, j);
            if k < n && s.get_char(k) == ',' {
                let next = p_ws(s, k + 1);
                let ghost vv = jview(v);
                let mut items = acc;
                items.push(v);
                proof {
                    assert(jviews(items@) =~= accv.push(vv));
                }
                p_items(s, next, items, fuel - 1)
            } else if k < n && s.get_char(k) == ']' {
                let ghost vv = jview(v);
                let mut items = acc;
                items.push(v);
                let ghost iv = items@;
                let arr = Json::Arr(items);
                let r = Some((arr, k + 1));
                proof {
                    assert(jview(arr)->Arr_0 =~= accv.push(vv));
                    assert(jview(arr) == SpecJson::Arr(accv.push(vv)));
                }
                r
            } else {
                None
            }
        },
    }
}

/// Reads object members; mirrors `sp_members` exactly.
fn p_members(s: &str, i: usize, acc: Vec<(String, Json)>, fuel: usize) -> (r: Option<
    (Json, usize),
>)
    requires
        i <= s@.len(),
    ensures
        opt_jview(r) == sp_members(s@, i as int, jmembers(acc@), fuel as nat),
        r matches Some((v, j)) ==> j <= s@.len(),
    decreases fuel,
{
    let ghost accv = jmembers(acc@);
    if fuel == 0 {
        return None;
    }
    let n = s.unicode_len();
    if i >= n {
        return None;
    }
    if s.get_char(i) != '"' {
        return None;
    }
    match p_string_body(s, i + 1) {
        None => None,
        Some((key, j)) => {
            let k = p_ws(s, j);
            if k < n && s.get_char(k) == ':' {
                let vi = p_ws(s, k + 1);
                match p_value(s, vi, fuel - 1) {
                    None => None,
                    Some((v, m)) => {
                        let e = p_ws(s, m);
                        if e < n && s.get_char(e) == ',' {
                            let next = p_ws(s, e + 1);
                            let ghost keyv = key@;
                            let mut members = acc;
                            members.push((key, v));
                            proof {
                                assert(jmembers(members@) =~= accv.push((keyv, jview(v))));
                            }
                            p_members(s, next, members, fuel - 1)
                        } else if e < n && s.get_char(e) == '}' {
                            let ghost keyv = key@;
                            let ghost vv = jview(v);
                            let mut members = acc;
                            members.push((key, v));
                            let ghost mv = members@;
                            let obj = Json::Obj(members);
                            let r = Some((obj, e + 1));
                            proof {
                                assert(jview(obj)->Obj_0 =~= accv.push((keyv, vv)));
                                assert(jview(obj) == SpecJson::Obj(accv.push((keyv, vv))));
                            }
                            r
                        } else {
                            None
                        }
                    },
                }
            } else {
                None
            }
        },
    }
}

/// Parses a whole response body: exactly the strings of
/// `spec_parse_json`, with exactly the tree it gives.
pub fn parse_json(s: &str) -> (r: Option<Json>)
    ensures
        match r {
            Some(v) => spec_parse_json(s@) == Some(jview(v)),
            None => spec_parse_json(s@) is None,
        },
{
    let n = s.unicode_len();
    let i = p_ws(s, 0);
    match p_value(s, i, n) {
        None => None,
        Some((v, j)) => {
            let e = p_ws(s, j);
            if e == n {
                Some(v)
            } else {
                None
            }
        },
    }
}


/// Looks a key up among members, first match wins.
pub open spec fn jget_members(ms: Seq<(Seq<char>, SpecJson)>, key: Seq<char>) -> Option<SpecJson>
    decreases ms.len(),
{
    if ms.len() == 0 {
        None
    } else if ms[0].0 == key {
        Some(ms[0].1)
    } else {
        jget_members(ms.drop_first(), key)
    }
}

/// Looks a key up in an object; anything else holds no fields.
pub open spec fn jget(v: SpecJson, key: Seq<char>) -> Option<SpecJson> {
    match v {
        SpecJson::Obj(ms) => jget_members(ms, key),
        _ => None,
    }
}

/// The text of a field that carries a decimal: a string or a raw
/// number lexeme.
pub open spec fn spec_dec_field(v: SpecJson, key: Seq<char>) -> Option<Seq<char>> {
    match jget(v, key) {
        Some(SpecJson::Str(t)) => Some(t),
        Some(SpecJson::Num(t)) => Some(t),
        _ => None,
    }
}

/// The value of an unsigned integer field: a plain number of at most
/// nineteen digits, which always fits a `u64`.
pub open spec fn spec_u64_field(v: SpecJson, key: Seq<char>) -> Option<u64> {
    match jget(v, key) {
        Some(SpecJson::Num(t)) => if crate::decimal::all_digits(t) && 1 <= t.len() <= 19 {
            Some(crate::decimal::digits_val(t) as u64)
        } else {
            None
        },
        _ => None,
    }
}

impl Json {
    /// The field under a key, if this is an object that has it.
    pub fn get<'a>(&'a self, key: &str) -> (r: Option<&'a Json>)
        ensures
            match r {
                Some(f) => jget(self@, key@) == Some(f@),
                None => jget(self@, key@) is None,
            },
    {
        match self {
            Json::Obj(ms) => {
                let ghost mv = self@->Obj_0;
                proof {
                    assert(forall|q: int|
                        0 <= q < mv.len() ==> #[trigger] mv[q] == (ms@[q].0@, jview(ms@[q].1)));
                }
                let n = ms.len();
                proof {
                    assert(mv.skip(0) =~= mv);
                }
                let mut i: usize = 0;
                while i < n
                    invariant
                        n == ms@.len(),
                        i <= n,
                        mv.len() == n,
                        self@ == SpecJson::Obj(mv),
                        forall|q: int|
                            0 <= q < mv.len() ==> #[trigger] mv[q] == (
                                ms@[q].0@,
                                jview(ms@[q].1),
                            ),
                        jget_members(mv, key@) == jget_members(mv.skip(i as int), key@),
                    decreases n - i,
                {
                    let pair = &ms[i];
                    if crate::text::str_eq(pair.0.as_str(), key) {
                        proof {
                            assert(mv.skip(i as int)[0] == mv[i as int]);
                        }
                        return Some(&ms[i].1);
                    }
                    proof {
                        assert(mv.skip(i as int)[0] == mv[i as int]);
                        assert(mv.skip(i as int).drop_first() =~= mv.skip(i + 1));
                    }
                    i += 1;
                }
                proof {
                    assert(mv.skip(n as int).len() == 0);
                }
                None
            },
            _ => None,
        }
    }

    /// A mandatory string field; any other shape is a decode error
    /// naming the key.
    pub fn get_string(&self, key: &str) -> (r: Result<String, crate::error::LunoError>)
        ensures
            match r {
                Ok(t) => jget(self@, key@) == Some(SpecJson::Str(t@)),
                Err(e) => e is Decode && !(jget(self@, key@) matches Some(SpecJson::Str(_))),
            },
    {
        match self.get(key) {
            Some(Json::Str(t)) => Ok(t.clone()),
            _ => Err(crate::error::LunoError::Decode(field_message("missing string field: ", key))),
        }
    }

    /// An optional string field: absent means `None`; a present field
    /// of any other shape is a decode error naming the key.
    pub fn get_opt_string(&self, key: &str) -> (r: Result<
        Option<String>,
        crate::error::LunoError,
    >)
        ensures
            match r {
                Ok(t) => match t {
                    Some(v) => jget(self@, key@) == Some(SpecJson::Str(v@)),
                    None => jget(self@, key@) is None,
                },
                Err(e) => e is Decode && jget(self@, key@) is Some && !(jget(self@, key@)
                    matches Some(SpecJson::Str(_))),
            },
    {
        match self.get(key) {
            Some(Json::Str(t)) => Ok(Some(t.clone())),
            Some(_) => Err(
                crate::error::LunoError::Decode(field_message("not a string field: ", key)),
            ),
            None => Ok(None),
        }
    }

    /// A mandatory boolean field.
    pub fn get_bool(&self, key: &str) -> (r: Result<bool, crate::error::LunoError>)
        ensures
            match r {
                Ok(b) => jget(self@, key@) == Some(SpecJson::Bool(b)),
                Err(e) => e is Decode && !(jget(self@, key@) matches Some(SpecJson::Bool(_))),
            },
    {
        match self.get(key) {
            Some(Json::Bool(b)) => Ok(*b),
            _ => Err(
                crate::error::LunoError::Decode(field_message("missing boolean field: ", key)),
            ),
        }
    }

    /// A mandatory unsigned integer field: a plain number of at most
    /// nineteen digits.
    pub fn get_u64(&self, key: &str) -> (r: Result<u64, crate::error::LunoError>)
        ensures
            match r {
                Ok(n) => spec_u64_field(self@, key@) == Some(n),
                Err(e) => e is Decode && spec_u64_field(self@, key@) is None,
            },
    {
        match self.get(key) {
            Some(Json::Num(t)) => {
                let lex = t.as_str();
                let n = lex.unicode_len();
                if n == 0 || n > 19 {
                    return Err(
                        crate::error::LunoError::Decode(
                            field_message("not an unsigned integer field: ", key),
                        ),
                    );
                }
                if !crate::decimal::check_digits(lex, 0, n) {
                    return Err(
                        crate::error::LunoError::Decode(
                            field_message("not an unsigned integer field: ", key),
                        ),
                    );
                }
                proof {
                    assert(lex@.subrange(0, n as int) =~= lex@);
                }
                let wide = crate::decimal::accumulate_digits(
                    lex,
                    0,
                    n,
                    0,
                    Ghost(Seq::<char>::empty()),
                );
                proof {
                    assert(Seq::<char>::empty() + lex@ =~= lex@);
                    crate::decimal::lemma_digits_val_bound(lex@);
                    crate::decimal::lemma_pow10_increases(lex@.len(), 19);
                    crate::decimal::lemma_pow10_value();
                }
                Ok(wide as u64)
            },
            _ => Err(
                crate::error::LunoError::Decode(
                    field_message("not an unsigned integer field: ", key),
                ),
            ),
        }
    }

    /// An optional unsigned integer field: absent means `None`; a
    /// present field that is not a plain number of at most nineteen
    /// digits is a decode error naming the key.
    pub fn get_opt_u64(&self, key: &str) -> (r: Result<Option<u64>, crate::error::LunoError>)
        ensures
            match r {
                Ok(t) => match t {
                    Some(n) => spec_u64_field(self@, key@) == Some(n),
                    None => jget(self@, key@) is None,
                },
                Err(e) => e is Decode && jget(self@, key@) is Some && spec_u64_field(self@, key@)
                    is None,
            },
    {
        match self.get(key) {
            None => Ok(None),
            Some(_) => match self.get_u64(key) {
                Ok(n) => Ok(Some(n)),
                Err(e) => Err(e),
            },
        }
    }

    /// A mandatory decimal field, sent as a string or a number; the
    /// exact text is parsed with nothing rounded.
    pub fn get_decimal(&self, key: &str) -> (r: Result<
        crate::decimal::Decimal,
        crate::error::LunoError,
    >)
        ensures
            match r {
                Ok(d) => spec_dec_field(self@, key@) matches Some(lex)
                    && crate::decimal::spec_parse(lex) == Some(d) && crate::decimal::dec_wf(d),
                Err(e) => e is Decode && match spec_dec_field(self@, key@) {
                    Some(lex) => crate::decimal::spec_parse(lex) is None,
                    None => true,
                },
            },
    {
        let lex: &String = match self.get(key) {
            Some(Json::Str(t)) => t,
            Some(Json::Num(t)) => t,
            _ => {
                return Err(
                    crate::error::LunoError::Decode(field_message("missing decimal field: ", key)),
                );
            },
        };
        match crate::decimal::Decimal::parse(lex.as_str()) {
            Some(d) => Ok(d),
            None => Err(
                crate::error::LunoError::Decode(field_message("not a decimal field: ", key)),
            ),
        }
    }
}

/// A decode message naming the field at fault.
fn field_message(what: &str, key: &str) -> (r: String)
    ensures
        r@ == what@ + key@,
{
    what.to_owned().concat(key)
}


/// The text of a string field.
pub open spec fn spec_string_field(v: SpecJson, key: Seq<char>) -> Option<Seq<char>> {
    match jget(v, key) {
        Some(SpecJson::Str(t)) => Some(t),
        _ => None,
    }
}

/// The value of a boolean field.
pub open spec fn spec_bool_field(v: SpecJson, key: Seq<char>) -> Option<bool> {
    match jget(v, key) {
        Some(SpecJson::Bool(b)) => Some(b),
        _ => None,
    }
}

/// The decimal a field denotes, parsed exactly from its text.
pub open spec fn spec_decimal_field(v: SpecJson, key: Seq<char>) -> Option<
    crate::decimal::Decimal,
> {
    match spec_dec_field(v, key) {
        Some(lex) => crate::decimal::spec_parse(lex),
        None => None,
    }
}

/// A successful HTTP status.
pub open spec fn status_ok(status: u16) -> bool {
    200 <= status < 300
}

/// Gates a response: a non-2xx status is a remote rejection carrying
/// the server's `error` message where one can be read, or the whole
/// body; a 2xx body that is not well-formed JSON is a decode error;
/// otherwise the parsed tree is handed on.
pub fn response_value(status: u16, body: &str) -> (r: Result<Json, crate::error::LunoError>)
    ensures
        match r {
            Ok(v) => status_ok(status) && spec_parse_json(body@) == Some(v@),
            Err(e) => match e {
                crate::error::LunoError::Remote(m) => !status_ok(status) && (match spec_parse_json(
                    body@,
                ) {
                    Some(v) => match spec_string_field(v, "error"@) {
                        Some(t) => m@ == t,
                        None => m@ == body@,
                    },
                    None => m@ == body@,
                }),
                crate::error::LunoError::Decode(_) => status_ok(status) && spec_parse_json(body@)
                    is None,
                _ => false,
            },
        },
        r is Ok <==> status_ok(status) && spec_parse_json(body@) is Some,
{
    let parsed = parse_json(body);
    if !(200 <= status && status < 300) {
        let message: String = match &parsed {
            Some(v) => match v.get("error") {
                Some(Json::Str(t)) => t.clone(),
                _ => body.to_owned(),
            },
            None => body.to_owned(),
        };
        return Err(crate::error::LunoError::Remote(message));
    }
    match parsed {
        Some(v) => Ok(v),
        None => Err(
            crate::error::LunoError::Decode("response body is not well-formed JSON".to_owned()),
        ),
    }
}

} // verus!

