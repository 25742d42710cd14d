//! JSON values as the library reads and builds them.
//!
//! Wire payloads (LLM responses, webhook events, tool arguments) are JSON.
//! The library holds them as [`Json`], a tree of plain values whose view is
//! the mathematical [`JsonV`]; field lookup and the typed accessors are
//! specified over that view.  Numbers are kept as the text `serde_json`
//! writes for them.  Parsing and printing JSON text is `serde_json`'s work
//! and goes through the trusted items at the end of this file.
use vstd::prelude::*;
use crate::text::{decimal_s, push_decimal, string_of};

verus! {

/// A JSON value.
#[derive(Debug)]
pub enum Json {
    /// `null`
    Null,
    /// `true` / `false`
    Bool(bool),
    /// A number, by its text (as `serde_json` prints it).
    Number(String),
    /// A string.
    Str(String),
    /// An array.
    Array(Vec<Json>),
    /// An object: its entries in order.
    Object(Vec<(String, Json)>),
}

/// The mathematical content of a [`Json`].
#[verifier::ext_equal]
pub enum JsonV {
    Null,
    Bool(bool),
    Number(Seq<char>),
    Str(Seq<char>),
    Array(Seq<JsonV>),
    Object(Seq<(Seq<char>, JsonV)>),
}

/// The view of a JSON value.
pub open spec fn jv(j: Json) -> JsonV
    decreases j,
{
    match j {
        Json::Null => JsonV::Null,
        Json::Bool(b) => JsonV::Bool(b),
        Json::Number(s) => JsonV::Number(s@),
        Json::Str(s) => JsonV::Str(s@),
        Json::Array(v) => JsonV::Array(
            Seq::new(v@.len(), |i: int| if 0 <= i < v@.len() { jv(v@[i]) } else { JsonV::Null }),
        ),
        Json::Object(m) => JsonV::Object(
            Seq::new(
                m@.len(),
                |i: int|
                    if 0 <= i < m@.len() {
                        (m@[i].0@, jv(m@[i].1))
                    } else {
                        (Seq::<char>::empty(), JsonV::Null)
                    },
            ),
        ),
    }
}

impl View for Json {
    type V = JsonV;

    open spec fn view(&self) -> JsonV {
        jv(*self)
    }
}

/// The view of an optional reference.
pub open spec fn opt_jv(o: Option<&Json>) -> Option<JsonV> {
    match o {
        Some(j) => Some(jv(*j)),
        None => None,
    }
}

/// The value of the first entry of `m`, from index `i` on, whose key is `k`.
pub open spec fn obj_find(m: Seq<(Seq<char>, JsonV)>, k: Seq<char>, i: int) -> Option<JsonV>
    decreases m.len() - i,
{
    if i < 0 || i >= m.len() {
        None
    } else if m[i].0 == k {
        Some(m[i].1)
    } else {
        obj_find(m, k, i + 1)
    }
}

/// Field `k` of an object; `None` for a missing field or a value that is
/// not an object.
pub open spec fn jget(v: JsonV, k: Seq<char>) -> Option<JsonV> {
    match v {
        JsonV::Object(m) => obj_find(m, k, 0),
        _ => None,
    }
}

/// Field `k` of an optional value.
pub open spec fn jfield(o: Option<JsonV>, k: Seq<char>) -> Option<JsonV> {
    match o {
        Some(v) => jget(v, k),
        None => None,
    }
}

/// The text of a string value.
pub open spec fn jstr(o: Option<JsonV>) -> Option<Seq<char>> {
    match o {
        Some(JsonV::Str(s)) => Some(s),
        _ => None,
    }
}

/// The elements of an array value.
pub open spec fn jarr(o: Option<JsonV>) -> Option<Seq<JsonV>> {
    match o {
        Some(JsonV::Array(a)) => Some(a),
        _ => None,
    }
}

/// A decimal digit.
pub open spec fn is_digit(c: char) -> bool {
    '0' <= c && c <= '9'
}

/// The value of a string of decimal digits.
pub open spec fn digits_value(t: Seq<char>) -> nat
    decreases t.len(),
{
    if t.len() == 0 {
        0
    } else {
        digits_value(t.drop_last()) * 10 + ((t.last() as u32 - '0' as u32) as nat)
    }
}

/// A number text that denotes a non-negative integer fitting in `u64`.
pub open spec fn is_u64_text(t: Seq<char>) -> bool {
    &&& t.len() > 0
    &&& forall|i: int| 0 <= i < t.len() ==> is_digit(#[trigger] t[i])
    &&& digits_value(t) <= u64::MAX
}

/// The value as a `u64`: a number that is a non-negative integer in range.
pub open spec fn ju64(o: Option<JsonV>) -> Option<u64> {
    match o {
        Some(JsonV::Number(t)) => if is_u64_text(t) { Some(digits_value(t) as u64) } else { None },
        _ => None,
    }
}

/// `n` as a JSON number.
pub open spec fn jnum(n: nat) -> JsonV {
    JsonV::Number(decimal_s(n))
}

impl Json {
    /// Field `key` of an object (`None` when missing or not an object).
    pub fn get(&self, key: &str) -> (r: Option<&Json>)
        ensures
            opt_jv(r) == jget(self@, key@),
    {
        match self {
            Json::Object(m) => {
                let k = key.to_owned();
                let ghost mv = jv(*self)->Object_0;
                let mut i: usize = 0;
                while i < m.len()
                    invariant
                        i <= m@.len(),
                        mv.len() == m@.len(),
                        forall|x: int| 0 <= x < m@.len() ==> #[trigger] mv[x] == (m@[x].0@, jv(m@[x].1)),
                        obj_find(mv, k@, i as int) == obj_find(mv, k@, 0),
                        k@ == key@,
                        jv(*self) == JsonV::Object(mv),
                    decreases m.len() - i,
                {
                    assert(mv[i as int] == (m@[i as int].0@, jv(m@[i as int].1)));
                    if m[i].0 == k {
                        return Some(&m[i].1);
                    }
                    i = i + 1;
                }
                None
            },
            _ => None,
        }
    }

    /// The text of a string value.
    pub fn as_str(&self) -> (r: Option<&str>)
        ensures
            match r {
                Some(s) => self@ == JsonV::Str(s@),
                None => !(self@ is Str),
            },
    {
        match self {
            Json::Str(s) => Some(s.as_str()),
            _ => None,
        }
    }

    /// The elements of an array value.
    pub fn as_array(&self) -> (r: Option<&Vec<Json>>)
        ensures
            match r {
                Some(a) => self@ is Array && a@.len() == self@->Array_0.len() && forall|i: int|
                    0 <= i < a@.len() ==> jv(#[trigger] a@[i]) == self@->Array_0[i],
                None => !(self@ is Array),
            },
    {
        match self {
            Json::Array(a) => Some(a),
            _ => None,
        }
    }

    /// The value as a `u64`, for a number that is a non-negative integer in range.
    pub fn as_u64(&self) -> (r: Option<u64>)
        ensures
            r == ju64(Some(self@)),
    {
        match self {
            Json::Number(t) => digits_u64(t.as_str()),
            _ => None,
        }
    }

    /// A deep copy of the value.
    pub fn copy(&self) -> (r: Json)
        ensures
            r@ == self@,
        decreases self,
    {
        match self {
            Json::Null => Json::Null,
            Json::Bool(b) => Json::Bool(*b),
            Json::Number(t) => Json::Number(t.clone()),
            Json::Str(t) => Json::Str(t.clone()),
            Json::Array(a) => {
                let ghost av = jv(*self)->Array_0;
                let mut out: Vec<Json> = Vec::new();
                let mut i: usize = 0;
                while i < a.len()
                    invariant
                        i <= a@.len(),
                        av.len() == a@.len(),
                        forall|k: int| 0 <= k < a@.len() ==> jv(#[trigger] a@[k]) == av[k],
                        out@.len() == i,
                        forall|k: int| 0 <= k < i ==> jv(#[trigger] out@[k]) == av[k],
                        *self == Json::Array(*a),
                    decreases a.len() - i,
                {
                    proof {
                        assert(decreases_to!(*self => (*self)->Array_0));
                        assert(decreases_to!(*a => a@));
                        assert(decreases_to!(a@ => a@[i as int]));
                    }
                    out.push(a[i].copy());
                    i = i + 1;
                }
                let r = Json::Array(out);
                assert(jv(r)->Array_0 =~= av);
                r
            },
            Json::Object(m) => {
                let ghost mv = jv(*self)->Object_0;
                let mut out: Vec<(String, Json)> = Vec::new();
                let mut i: usize = 0;
                while i < m.len()
                    invariant
                        i <= m@.len(),
                        mv.len() == m@.len(),
                        forall|k: int| 0 <= k < m@.len() ==> #[trigger] mv[k] == (m@[k].0@, jv(m@[k].1)),
                        out@.len() == i,
                        forall|k: int| 0 <= k < i ==> (#[trigger] out@[k]).0@ == mv[k].0 && jv(out@[k].1) == mv[k].1,
                        *self == Json::Object(*m),
                    decreases m.len() - i,
                {
                    proof {
                        assert(decreases_to!(*self => (*self)->Object_0));
                        assert(decreases_to!(*m => m@));
                        assert(decreases_to!(m@ => m@[i as int]));
                        assert(decreases_to!(m@[i as int] => m@[i as int].1));
                    }
                    let v = m[i].1.copy();
                    out.push((m[i].0.clone(), v));
                    i = i + 1;
                }
                let r = Json::Object(out);
                assert(jv(r)->Object_0 =~= mv);
                r
            },
        }
    }

    /// `n` as a JSON number.
    pub fn from_u64(n: u64) -> (r: Json)
        ensures
            r@ == jnum(n as nat),
    {
        let mut v: Vec<char> = Vec::new();
        push_decimal(&mut v, n);
        assert(v@ =~= decimal_s(n as nat));
        Json::Number(string_of(v.as_slice()))
    }
}

/// The views of a list of object entries.
pub open spec fn entries_view(m: Seq<(String, Json)>) -> Seq<(Seq<char>, JsonV)> {
    m.map_values(|e: (String, Json)| (e.0@, jv(e.1)))
}

/// The views of a list of values.
pub open spec fn elems_view(v: Seq<Json>) -> Seq<JsonV> {
    v.map_values(|j: Json| jv(j))
}

/// The object with the given entries.
pub fn make_object(m: Vec<(String, Json)>) -> (r: Json)
    ensures
        r@ == JsonV::Object(entries_view(m@)),
{
    let ghost mv = m@;
    let r = Json::Object(m);
    assert(jv(r)->Object_0 =~= entries_view(mv));
    r
}

/// The array with the given elements.
pub fn make_array(v: Vec<Json>) -> (r: Json)
    ensures
        r@ == JsonV::Array(elems_view(v@)),
{
    let ghost vv = v@;
    let r = Json::Array(v);
    assert(jv(r)->Array_0 =~= elems_view(vv));
    r
}

/// Append the entry `key: value`.
pub fn push_entry(m: &mut Vec<(String, Json)>, key: &str, value: Json)
    ensures
        entries_view(final(m)@) == entries_view(old(m)@).push((key@, value@)),
{
    m.push((key.to_owned(), value));
    assert(entries_view(final(m)@) =~= entries_view(old(m)@).push((key@, value@)));
}

/// Append the element `value`.
pub fn push_elem(v: &mut Vec<Json>, value: Json)
    ensures
        elems_view(final(v)@) == elems_view(old(v)@).push(value@),
{
    v.push(value);
    assert(elems_view(final(v)@) =~= elems_view(old(v)@).push(value@));
}

/// A JSON string.
pub fn str_json(s: &str) -> (r: Json)
    ensures
        r@ == JsonV::Str(s@),
{
    Json::Str(s.to_owned())
}

/// Field `key` of an optional value.
pub fn field<'a>(o: Option<&'a Json>, key: &str) -> (r: Option<&'a Json>)
    ensures
        opt_jv(r) == jfield(opt_jv(o), key@),
{
    match o {
        Some(j) => j.get(key),
        None => None,
    }
}

/// The text of an optional string value.
pub fn str_of<'a>(o: Option<&'a Json>) -> (r: Option<&'a str>)
    ensures
        match r {
            Some(s) => jstr(opt_jv(o)) == Some(s@),
            None => jstr(opt_jv(o)) is None,
        },
{
    match o {
        Some(j) => j.as_str(),
        None => None,
    }
}

/// An optional value as a `u64`.
pub fn u64_of(o: Option<&Json>) -> (r: Option<u64>)
    ensures
        r == ju64(opt_jv(o)),
{
    match o {
        Some(j) => j.as_u64(),
        None => None,
    }
}

/// An owned copy of an optional string.
pub fn owned_str(o: Option<&str>) -> (r: Option<String>)
    ensures
        match o {
            Some(s) => r matches Some(t) && t@ == s@,
            None => r is None,
        },
{
    match o {
        Some(s) => Some(s.to_owned()),
        None => None,
    }
}

/// The value of a text of decimal digits, if it is one and fits in `u64`.
fn digits_u64(t: &str) -> (r: Option<u64>)
    ensures
        r == (if is_u64_text(t@) { Some(digits_value(t@) as u64) } else { None::<u64> }),
{
    let v = crate::text::chars_of(t);
    if v.len() == 0 {
        return None;
    }
    let mut i: usize = 0;
    while i < v.len()
        invariant
            i <= v@.len(),
            v@ == t@,
            forall|x: int| 0 <= x < i ==> is_digit(#[trigger] v@[x]),
        decreases v.len() - i,
    {
        if !('0' <= v[i] && v[i] <= '9') {
            assert(!is_digit(t@[i as int]));
            return None;
        }
        i = i + 1;
    }
    let mut acc: u64 = 0;
    let mut i: usize = 0;
    while i < v.len()
        invariant
            i <= v@.len(),
            v@ == t@,
            acc == digits_value(v@.take(i as int)),
            forall|x: int| 0 <= x < v@.len() ==> is_digit(#[trigger] v@[x]),
        decreases v.len() - i,
    {
        let c = v[i];
        assert(v@.take(i + 1).drop_last() =~= v@.take(i as int));
        assert(is_digit(v@[i as int]));
        let d = (c as u32 - '0' as u32) as u64;
        if acc > (u64::MAX - d) / 10 {
            proof {
                assert(acc * 10 + d > u64::MAX) by (nonlinear_arith)
                    requires
                        acc > (u64::MAX - d) / 10,
                        d <= 9,
                ;
                lemma_digits_value_prefix_le(v@, i + 1);
            }
            return None;
        }
        assert(acc * 10 + d <= u64::MAX) by (nonlinear_arith)
            requires
                acc <= (u64::MAX - d) / 10,
                d <= 9,
        ;
        acc = acc * 10 + d;
        i = i + 1;
    }
    assert(v@.take(v@.len() as int) =~= v@);
    Some(acc)
}

/// The value of a prefix of digits is at most the value of the whole.
proof fn lemma_digits_value_prefix_le(t: Seq<char>, k: int)
    requires
        0 <= k <= t.len(),
        forall|i: int| 0 <= i < t.len() ==> is_digit(#[trigger] t[i]),
    ensures
        digits_value(t.take(k)) <= digits_value(t),
    decreases t.len() - k,
{
    if k < t.len() {
        lemma_digits_value_prefix_le(t, k + 1);
        assert(t.take(k + 1).drop_last() =~= t.take(k));
        assert(is_digit(t[k]));
        assert(digits_value(t.take(k)) <= digits_value(t.take(k)) * 10) by (nonlinear_arith);
    } else {
        assert(t.take(k) =~= t);
    }
}

// ───────────────────────────── serde_json ─────────────────────────────

#[verifier::external_type_specification]
#[verifier::external_body]
pub struct ExJsonValue(serde_json::Value);

/// What `serde_json` parses a text into (`None` when the text is not JSON).
pub uninterp spec fn json_parsed(text: Seq<char>) -> Option<JsonV>;

/// The message of `serde_json`'s error for a text that is not JSON.
pub uninterp spec fn json_parse_error(text: Seq<char>) -> Seq<char>;

/// The compact text `serde_json` prints for a value.
pub uninterp spec fn json_text(v: JsonV) -> Seq<char>;

/// A `serde_json::Value` as a [`Json`], node for node.
#[verifier::external_body]
fn json_from_value(v: &serde_json::Value) -> Json {
    match v {
        serde_json::Value::Null => Json::Null,
        serde_json::Value::Bool(b) => Json::Bool(*b),
        serde_json::Value::Number(n) => Json::Number(n.to_string()),
        serde_json::Value::String(s) => Json::Str(s.clone()),
        serde_json::Value::Array(a) => Json::Array(a.iter().map(json_from_value).collect()),
        serde_json::Value::Object(m) => Json::Object(
            m.iter().map(|(k, x)| (k.clone(), json_from_value(x))).collect(),
        ),
    }
}

/// A [`Json`] as a `serde_json::Value`, node for node.
#[verifier::external_body]
fn json_to_value(j: &Json) -> serde_json::Value {
    match j {
        Json::Null => serde_json::Value::Null,
        Json::Bool(b) => serde_json::Value::Bool(*b),
        Json::Number(t) => t.parse().map(serde_json::Value::Number).unwrap_or(serde_json::Value::Null),
        Json::Str(s) => serde_json::Value::String(s.clone()),
        Json::Array(a) => serde_json::Value::Array(a.iter().map(json_to_value).collect()),
        Json::Object(m) => serde_json::Value::Object(
            m.iter().map(|(k, x)| (k.clone(), json_to_value(x))).collect(),
        ),
    }
}

/// Parse JSON text (`serde_json::from_str::<Value>`).
///
/// The result is named: the same text always parses to the same value, and
/// the error message is `serde_json`'s for that text.
#[verifier::external_body]
pub(crate) fn parse_json(text: &str) -> (r: Result<Json, String>)
    ensures
        match r {
            Ok(j) => json_parsed(text@) == Some(j@),
            Err(e) => json_parsed(text@) is None && e@ == json_parse_error(text@),
        },
{
    match serde_json::from_str::<serde_json::Value>(text) {
        Ok(v) => Ok(json_from_value(&v)),
        Err(e) => Err(e.to_string()),
    }
}

/// Print a value as compact JSON text (`serde_json::to_string`).
#[verifier::external_body]
pub(crate) fn json_to_string(j: &Json) -> (r: String)
    ensures
        r@ == json_text(j@),
{
    serde_json::to_string(&json_to_value(j)).unwrap_or_default()
}

} // verus!
