use vstd::prelude::*;
use crate::text::{digit_char, push_char, str_eq};

verus! {

/// A JSON document held as plain values.
///
/// Numbers keep their textual form so that no floating point is involved.
/// Object members keep their order; lookups take the first member with the key.
pub enum Json {
    Null,
    Bool(bool),
    Number(String),
    Str(String),
    Array(Vec<Json>),
    Object(Vec<(String, Json)>),
}

/// Mathematical model of [`Json`].
pub enum JsonV {
    Null,
    Bool(bool),
    Number(Seq<char>),
    Str(Seq<char>),
    Array(Seq<JsonV>),
    Object(Seq<(Seq<char>, JsonV)>),
}

impl View for Json {
    type V = JsonV;

    open spec fn view(&self) -> JsonV
        decreases self,
    {
        match self {
            Json::Null => JsonV::Null,
            Json::Bool(b) => JsonV::Bool(*b),
            Json::Number(n) => JsonV::Number(n@),
            Json::Str(s) => JsonV::Str(s@),
            Json::Array(a) => JsonV::Array(
                Seq::new(a@.len(), |i: int| if 0 <= i < a@.len() { a@[i].view() } else { JsonV::Null }),
            ),
            Json::Object(m) => JsonV::Object(
                Seq::new(
                    m@.len(),
                    |i: int| (m@[i].0@, if 0 <= i < m@.len() { m@[i].1.view() } else { JsonV::Null }),
                ),
            ),
        }
    }
}


/// The value of the first member named `key`, if any.
pub open spec fn member(members: Seq<(Seq<char>, JsonV)>, key: Seq<char>) -> Option<JsonV>
    decreases members.len(),
{
    if members.len() == 0 {
        None
    } else if members[0].0 == key {
        Some(members[0].1)
    } else {
        member(members.drop_first(), key)
    }
}

pub(crate) proof fn lemma_member_concat(a: Seq<(Seq<char>, JsonV)>, b: Seq<(Seq<char>, JsonV)>, k: Seq<char>)
    ensures
        member(a + b, k) == (if member(a, k) is Some { member(a, k) } else { member(b, k) }),
    decreases a.len(),
{
    if a.len() == 0 {
        assert(a + b =~= b);
    } else {
        lemma_member_concat(a.drop_first(), b, k);
        assert((a + b).drop_first() =~= a.drop_first() + b);
    }
}

pub(crate) proof fn lemma_member_step(s: Seq<(Seq<char>, JsonV)>, k: Seq<char>)
    requires
        s.len() > 0,
    ensures
        member(s, k) == (if s[0].0 == k { Some(s[0].1) } else { member(s.drop_first(), k) }),
{
}

pub(crate) proof fn lemma_member_empty(k: Seq<char>)
    ensures
        member(Seq::<(Seq<char>, JsonV)>::empty(), k) is None,
{
}

pub(crate) proof fn lemma_member_single(k1: Seq<char>, v1: JsonV, k: Seq<char>)
    ensures
        member(seq![(k1, v1)], k) == (if k1 == k { Some(v1) } else { None }),
{
    let s = seq![(k1, v1)];
    lemma_member_step(s, k);
    assert(s.drop_first() =~= Seq::<(Seq<char>, JsonV)>::empty());
    lemma_member_empty(k);
}

pub(crate) proof fn lemma_member_pair(k1: Seq<char>, v1: JsonV, k2: Seq<char>, v2: JsonV, k: Seq<char>)
    ensures
        member(seq![(k1, v1), (k2, v2)], k) == (if k1 == k { Some(v1) } else if k2 == k { Some(v2) } else { None }),
{
    let s = seq![(k1, v1), (k2, v2)];
    lemma_member_step(s, k);
    assert(s.drop_first() =~= seq![(k2, v2)]);
    lemma_member_single(k2, v2, k);
}

pub(crate) proof fn lemma_member_triple(k1: Seq<char>, v1: JsonV, k2: Seq<char>, v2: JsonV, k3: Seq<char>, v3: JsonV, k: Seq<char>)
    ensures
        member(seq![(k1, v1), (k2, v2), (k3, v3)], k) == (if k1 == k { Some(v1) } else if k2 == k {
            Some(v2)
        } else if k3 == k {
            Some(v3)
        } else {
            None
        }),
{
    let s = seq![(k1, v1), (k2, v2), (k3, v3)];
    lemma_member_step(s, k);
    assert(s.drop_first() =~= seq![(k2, v2), (k3, v3)]);
    lemma_member_pair(k2, v2, k3, v3, k);
}

pub(crate) proof fn lemma_member_quad(
    k1: Seq<char>,
    v1: JsonV,
    k2: Seq<char>,
    v2: JsonV,
    k3: Seq<char>,
    v3: JsonV,
    k4: Seq<char>,
    v4: JsonV,
    k: Seq<char>,
)
    ensures
        member(seq![(k1, v1), (k2, v2), (k3, v3), (k4, v4)], k) == (if k1 == k { Some(v1) } else if k2 == k {
            Some(v2)
        } else if k3 == k {
            Some(v3)
        } else if k4 == k {
            Some(v4)
        } else {
            None
        }),
{
    let s = seq![(k1, v1), (k2, v2), (k3, v3), (k4, v4)];
    lemma_member_step(s, k);
    assert(s.drop_first() =~= seq![(k2, v2), (k3, v3), (k4, v4)]);
    lemma_member_triple(k2, v2, k3, v3, k4, v4, k);
}

impl JsonV {
    /// Member lookup on an object; `None` for every other kind of value.
    pub open spec fn get(self, key: Seq<char>) -> Option<JsonV> {
        match self {
            JsonV::Object(m) => member(m, key),
            _ => None,
        }
    }

    /// The text of a string value.
    pub open spec fn as_str(self) -> Option<Seq<char>> {
        match self {
            JsonV::Str(s) => Some(s),
            _ => None,
        }
    }

    pub open spec fn is_object(self) -> bool {
        self is Object
    }

    /// The value of a number that is an integer within the `i64` range.
    pub open spec fn as_i64(self) -> Option<i64> {
        match self {
            JsonV::Number(t) => integer_text_value(t),
            _ => None,
        }
    }
}

pub open spec fn is_digit(c: char) -> bool {
    '0' <= c <= '9'
}

pub open spec fn all_digits(s: Seq<char>) -> bool {
    forall|i: int| 0 <= i < s.len() ==> is_digit(#[trigger] s[i])
}

/// The value of a string of decimal digits.
pub open spec fn digits_value(s: Seq<char>) -> nat
    decreases s.len(),
{
    if s.len() == 0 {
        0
    } else {
        digits_value(s.drop_last()) * 10 + ((s.last() as u32) - ('0' as u32)) as nat
    }
}

/// The integer that the text of a number denotes, when the text is a plain
/// (optionally negative) run of digits whose value fits in an `i64`; numbers
/// written with a fraction or an exponent give `None`.
pub open spec fn integer_text_value(t: Seq<char>) -> Option<i64> {
    if t.len() > 1 && t[0] == '-' && all_digits(t.drop_first()) {
        let v = digits_value(t.drop_first());
        if v <= 0x8000_0000_0000_0000 { Some((-v) as i64) } else { None }
    } else if t.len() > 0 && all_digits(t) {
        let v = digits_value(t);
        if v <= 0x7fff_ffff_ffff_ffff { Some(v as i64) } else { None }
    } else {
        None
    }
}

/// `key` looked up in `v` (when `v` is present), then read as a string.
pub open spec fn str_member(v: Option<JsonV>, key: Seq<char>) -> Option<Seq<char>> {
    match v {
        Some(j) => match j.get(key) {
            Some(f) => f.as_str(),
            None => None,
        },
        None => None,
    }
}

pub open spec fn members_view(m: Seq<(String, Json)>) -> Seq<(Seq<char>, JsonV)> {
    Seq::new(m.len(), |i: int| (m[i].0@, m[i].1@))
}

pub open spec fn items_view(a: Seq<Json>) -> Seq<JsonV> {
    Seq::new(a.len(), |i: int| a[i]@)
}

pub proof fn lemma_object_view(m: Vec<(String, Json)>)
    ensures
        Json::Object(m)@ == JsonV::Object(members_view(m@)),
{
    let j = Json::Object(m);
    let v = j@->Object_0;
    assert(v.len() == m@.len());
    assert(v =~= members_view(m@));
}

pub proof fn lemma_array_view(a: Vec<Json>)
    ensures
        Json::Array(a)@ == JsonV::Array(items_view(a@)),
{
    assert(Json::Array(a)@->Array_0 =~= items_view(a@));
}

impl Json {
    /// A string value.
    pub fn string(s: &str) -> (r: Json)
        ensures
            r@ == JsonV::Str(s@),
    {
        Json::Str(String::from_str(s))
    }

    /// An object built from its members, in order.
    pub fn object(members: Vec<(String, Json)>) -> (r: Json)
        ensures
            r@ == JsonV::Object(members_view(members@)),
    {
        proof {
            lemma_object_view(members);
        }
        Json::Object(members)
    }

    /// An array built from its items, in order.
    pub fn array(items: Vec<Json>) -> (r: Json)
        ensures
            r@ == JsonV::Array(items_view(items@)),
    {
        proof {
            lemma_array_view(items);
        }
        Json::Array(items)
    }

    /// The value of the member named `key`, when `self` is an object that has one.
    pub fn get(&self, key: &str) -> (r: Option<&Json>)
        ensures
            match r {
                Some(j) => self@.get(key@) == Some(j@),
                None => self@.get(key@) is None,
            },
    {
        match self {
            Json::Object(m) => {
                proof {
                    lemma_object_view(*m);
                }
                let ghost mv = members_view(m@);
                assert(mv.skip(0) =~= mv);
                let mut i: usize = 0;
                while i < m.len()
                    invariant
                        i <= m@.len(),
                        mv == members_view(m@),
                        self@ == JsonV::Object(mv),
                        member(mv, key@) == member(mv.skip(i as int), key@),
                    decreases m@.len() - i,
                {
                    assert(mv.skip(i as int).drop_first() =~= mv.skip(i + 1));
                    if str_eq(m[i].0.as_str(), key) {
                        return Some(&m[i].1);
                    }
                    i = i + 1;
                }
                None
            },
            _ => None,
        }
    }

    /// The text of a string value.
    pub fn as_str(&self) -> (r: Option<&str>)
        ensures
            match r {
                Some(s) => self@.as_str() == Some(s@),
                None => self@.as_str() is None,
            },
    {
        match self {
            Json::Str(s) => Some(s.as_str()),
            _ => None,
        }
    }

    /// The value of a number that is an integer within the `i64` range.
    pub fn as_i64(&self) -> (r: Option<i64>)
        ensures
            r == self@.as_i64(),
    {
        match self {
            Json::Number(t) => integer_value(t.as_str()),
            _ => None,
        }
    }

    pub fn is_object(&self) -> (r: bool)
        ensures
            r == self@.is_object(),
    {
        match self {
            Json::Object(_) => true,
            _ => false,
        }
    }

    /// A copy of the value.
    pub fn deep_copy(&self) -> (r: Json)
        ensures
            r@ == self@,
        decreases self,
    {
        match self {
            Json::Null => Json::Null,
            Json::Bool(b) => Json::Bool(*b),
            Json::Number(n) => Json::Number(n.clone()),
            Json::Str(s) => Json::Str(s.clone()),
            Json::Array(a) => {
                proof {
                    lemma_array_view(*a);
                }
                let mut out: Vec<Json> = Vec::new();
                let mut i: usize = 0;
                while i < a.len()
                    invariant
                        i <= a@.len(),
                        *self == Json::Array(*a),
                        out@.len() == i,
                        forall|k: int| 0 <= k < i ==> #[trigger] out@[k]@ == a@[k]@,
                    decreases a@.len() - i,
                {
                    proof {
                        assert(decreases_to!(*self => self->Array_0));
                        assert(decreases_to!(*a => a[i as int]));
                        assert(decreases_to!(*self => a[i as int]));
                    }
                    out.push(a[i].deep_copy());
                    i = i + 1;
                }
                let r = Json::array(out);
                assert(items_view(out@) =~= items_view(a@));
                r
            },
            Json::Object(m) => {
                proof {
                    lemma_object_view(*m);
                }
                let mut out: Vec<(String, Json)> = Vec::new();
                let mut i: usize = 0;
                while i < m.len()
                    invariant
                        i <= m@.len(),
                        *self == Json::Object(*m),
                        out@.len() == i,
                        forall|k: int|
                            0 <= k < i ==> (#[trigger] out@[k]).0@ == m@[k].0@ && out@[k].1@
                                == m@[k].1@,
                    decreases m@.len() - i,
                {
                    proof {
                        assert(decreases_to!(*self => self->Object_0));
                        assert(decreases_to!(*m => m[i as int]));
                        assert(decreases_to!(m[i as int] => m[i as int].1));
                        assert(decreases_to!(*self => m[i as int].1));
                    }
                    out.push((m[i].0.clone(), m[i].1.deep_copy()));
                    i = i + 1;
                }
                let r = Json::object(out);
                assert(members_view(out@) =~= members_view(m@));
                r
            },
        }
    }
}


/// Lower-case hexadecimal digit for `d < 16`.
pub open spec fn hex_digit(d: nat) -> char {
    if d < 10 { digit_char(d) }
    else if d == 10 { 'a' }
    else if d == 11 { 'b' }
    else if d == 12 { 'c' }
    else if d == 13 { 'd' }
    else if d == 14 { 'e' }
    else { 'f' }
}

/// How one character is written inside a JSON string literal: the quote and
/// the backslash are escaped, the control characters below U+0020 take their
/// short escape where JSON has one and `\u00XX` otherwise, and every other
/// character stands for itself.
pub open spec fn json_escaped_char(c: char) -> Seq<char> {
    let n = c as u32;
    if c == '"' {
        seq!['\\', '"']
    } else if c == '\\' {
        seq!['\\', '\\']
    } else if n == 0x08 {
        seq!['\\', 'b']
    } else if n == 0x09 {
        seq!['\\', 't']
    } else if n == 0x0a {
        seq!['\\', 'n']
    } else if n == 0x0c {
        seq!['\\', 'f']
    } else if n == 0x0d {
        seq!['\\', 'r']
    } else if n < 0x20 {
        seq!['\\', 'u', '0', '0', hex_digit((n / 16) as nat), hex_digit((n % 16) as nat)]
    } else {
        seq![c]
    }
}

pub open spec fn json_escaped(s: Seq<char>) -> Seq<char>
    decreases s.len(),
{
    if s.len() == 0 {
        Seq::empty()
    } else {
        json_escaped(s.drop_last()) + json_escaped_char(s.last())
    }
}

/// The JSON string literal for `s`.
pub open spec fn json_quoted(s: Seq<char>) -> Seq<char> {
    seq!['"'] + json_escaped(s) + seq!['"']
}

/// The compact JSON text of an object with the single member `key`, whose
/// value has the JSON text `value_text`.
pub open spec fn single_member_object(key: Seq<char>, value_text: Seq<char>) -> Seq<char> {
    seq!['{'] + json_quoted(key) + seq![':'] + value_text + seq!['}']
}

/// The JSON object with at most one member, whose value is a string: the
/// member `(key, value)` of `member`, or none.
pub open spec fn string_object(member: Option<(Seq<char>, Seq<char>)>) -> JsonV {
    JsonV::Object(
        match member {
            Some((k, v)) => seq![(k, JsonV::Str(v))],
            None => Seq::empty(),
        },
    )
}

/// Writes a JSON object with at most one string member
/// (`serde_json::to_string` on a `serde_json::Value::Object`). The claim:
/// the result is `Some`, holding `{}` or the compact `{"key":"value"}` with
/// both strings quoted and escaped as `json_quoted` describes (serde_json
/// escapes exactly `"`, `\` and the characters below U+0020, with `\b \t
/// \n \f \r` where they exist and lower-case `\u00XX` otherwise, and writing
/// into its in-memory buffer cannot fail); and serde_json reads that text
/// back as the same object.
#[verifier::external_body]
fn string_object_text(member: Option<(&str, &str)>) -> (r: Option<String>)
    ensures
        r is Some,
        r.unwrap()@ == (match member {
            Some((k, v)) => single_member_object(k@, json_quoted(v@)),
            None => seq!['{', '}'],
        }),
        parsed_json(r.unwrap()@) == Some(
            string_object(
                match member {
                    Some((k, v)) => Some((k@, v@)),
                    None => None,
                },
            ),
        ),
{
    let mut map = serde_json::Map::new();
    map.extend(member.map(|(k, v)| (k.to_string(), serde_json::Value::String(v.to_string()))));
    serde_json::to_string(&serde_json::Value::Object(map)).ok()
}

/// The compact JSON text `{"key":"value"}` of a one-member object whose
/// value is the string `value` (`{}` should writing it fail, which it does
/// not); serde_json reads it back as that object.
pub fn single_string_member_object(key: &str, value: &str) -> (r: String)
    ensures
        r@ == single_member_object(key@, json_quoted(value@)),
        parsed_json(r@) == Some(string_object(Some((key@, value@)))),
{
    match string_object_text(Some((key, value))) {
        Some(text) => text,
        None => {
            let mut out = String::new();
            push_char(&mut out, '{');
            push_char(&mut out, '}');
            out
        },
    }
}

/// The JSON text `{}` of the empty object; serde_json reads it back as that
/// object.
pub fn empty_object_text() -> (r: String)
    ensures
        r@ == seq!['{', '}'],
        parsed_json(r@) == Some(string_object(None)),
{
    match string_object_text(None) {
        Some(text) => text,
        None => {
            let mut out = String::new();
            push_char(&mut out, '{');
            push_char(&mut out, '}');
            out
        },
    }
}

/// What serde_json reads from the JSON text `text`: `Some` of the document
/// when the text is valid JSON, `None` when `serde_json::from_str` rejects it.
pub uninterp spec fn parsed_json(text: Seq<char>) -> Option<JsonV>;

#[verifier::external_type_specification]
#[verifier::external_body]
pub struct ExSerdeJsonValue(serde_json::Value);

#[verifier::external_type_specification]
#[verifier::external_body]
pub struct ExSerdeJsonError(serde_json::Error);

/// Rewrites a `serde_json::Value` into [`Json`], one variant for one variant:
/// numbers keep the text that `serde_json::Number` displays, arrays keep
/// their order and objects keep the order in which the map yields its members.
/// Nothing is claimed of the result here; `parse_json` states what callers
/// may rely on.
#[verifier::external_body]
fn json_from_serde(v: serde_json::Value) -> Json {
    match v {
        serde_json::Value::Null => Json::Null,
        serde_json::Value::Bool(b) => Json::Bool(b),
        serde_json::Value::Number(n) => Json::Number(n.to_string()),
        serde_json::Value::String(s) => Json::Str(s),
        serde_json::Value::Array(a) => Json::Array(a.into_iter().map(json_from_serde).collect()),
        serde_json::Value::Object(m) => Json::Object(
            m.into_iter().map(|(k, x)| (k, json_from_serde(x))).collect(),
        ),
    }
}

/// Parses JSON text (`serde_json::from_str::<serde_json::Value>`). The claim:
/// the call succeeds exactly when `parsed_json(text)` is `Some`, and then the
/// document read is that value; the result depends on the text alone.
#[verifier::external_body]
pub(crate) fn parse_json(text: &str) -> (r: Result<Json, serde_json::Error>)
    ensures
        r is Ok <==> parsed_json(text@) is Some,
        r matches Ok(j) ==> parsed_json(text@) == Some(j@),
{
    serde_json::from_str::<serde_json::Value>(text).map(json_from_serde)
}


proof fn lemma_digits_value_bound(s: Seq<char>, k: int)
    requires
        0 <= k < s.len(),
        all_digits(s),
    ensures
        digits_value(s.take(k + 1)) >= digits_value(s.take(k)),
{
    assert(s.take(k + 1).drop_last() =~= s.take(k));
}

proof fn lemma_digits_value_monotone(s: Seq<char>, k: int)
    requires
        0 <= k <= s.len(),
        all_digits(s),
    ensures
        digits_value(s) >= digits_value(s.take(k)),
    decreases s.len() - k,
{
    if k < s.len() {
        lemma_digits_value_bound(s, k);
        lemma_digits_value_monotone(s, k + 1);
    } else {
        assert(s.take(k) =~= s);
    }
}

/// Reads an integer number text (see [`integer_text_value`]).
fn integer_value(t: &str) -> (r: Option<i64>)
    ensures
        r == integer_text_value(t@),
{
    let n = t.unicode_len();
    if n == 0 {
        return None;
    }
    let negative = t.get_char(0) == '-';
    let start: usize = if negative { 1 } else { 0 };
    if negative && n == 1 {
        return None;
    }
    let ghost digits = t@.skip(start as int);
    assert(negative ==> digits =~= t@.drop_first());
    assert(!negative ==> digits =~= t@);
    assert(negative ==> !all_digits(t@) && !is_digit(t@[0]));
    let mut acc: u64 = 0;
    let mut i: usize = start;
    while i < n
        invariant
            n == t@.len(),
            start <= i <= n,
            digits == t@.skip(start as int),
            n > 0,
            negative == (t@[0] == '-'),
            start == (if negative { 1usize } else { 0usize }),
            negative ==> n > 1 && digits == t@.drop_first() && !all_digits(t@),
            !negative ==> digits == t@,
            forall|k: int| 0 <= k < i - start ==> is_digit(#[trigger] digits[k]),
            acc as nat == digits_value(digits.take(i - start)),
            acc <= 0x8000_0000_0000_0000,
        decreases n - i,
    {
        let c = t.get_char(i);
        assert(c == digits[i - start]);
        if !('0' <= c && c <= '9') {
            assert(!all_digits(digits));
            return None;
        }
        let d = (c as u32 - '0' as u32) as u64;
        assert(digits.take(i - start + 1).drop_last() =~= digits.take(i - start));
        if acc > (0x8000_0000_0000_0000u64 - d) / 10 {
            assert(acc * 10 + d > 0x8000_0000_0000_0000) by (nonlinear_arith)
                requires
                    acc > (0x8000_0000_0000_0000u64 - d) / 10,
                    d < 10,
            ;
            proof {
                if all_digits(digits) {
                    lemma_digits_value_monotone(digits, i - start + 1);
                    assert(digits_value(digits) > 0x8000_0000_0000_0000);
                }
            }
            return None;
        }
        acc = acc * 10 + d;
        i = i + 1;
    }
    assert(digits.take(n - start) =~= digits);
    if negative {
        Some((-(acc as i128)) as i64)
    } else if acc <= 0x7fff_ffff_ffff_ffff {
        Some(acc as i64)
    } else {
        None
    }
}

} // verus!
