//! A JSON document model and the parsing of JSON text.
use vstd::prelude::*;

verus! {

/// A JSON value as the library reads it.
pub enum Json {
    Null,
    Bool(bool),
    /// A number: its text, and its value where it is an integer that fits.
    Number { text: String, as_i64: Option<i64>, as_u64: Option<u64> },
    Str(String),
    Array(Vec<Json>),
    /// An object's members, in the order of their keys; no key occurs twice.
    Object(Vec<(String, Json)>),
}

/// The mathematical value of a `Json`.
pub enum JsonV {
    Null,
    Bool(bool),
    Number { text: Seq<char>, as_i64: Option<i64>, as_u64: Option<u64> },
    Str(Seq<char>),
    Array(Seq<JsonV>),
    Object(Seq<(Seq<char>, JsonV)>),
}

pub open spec fn json_view(j: Json) -> JsonV
    decreases j,
{
    match j {
        Json::Null => JsonV::Null,
        Json::Bool(b) => JsonV::Bool(b),
        Json::Number { text, as_i64, as_u64 } => JsonV::Number { text: text@, as_i64, as_u64 },
        Json::Str(s) => JsonV::Str(s@),
        Json::Array(v) => JsonV::Array(
            Seq::new(
                v@.len(),
                |i: int|
                    if 0 <= i < v@.len() {
                        json_view(v@[i])
                    } else {
                        JsonV::Null
                    },
            ),
        ),
        Json::Object(v) => JsonV::Object(
            Seq::new(
                v@.len(),
                |i: int|
                    if 0 <= i < v@.len() {
                        (v@[i].0@, json_view(v@[i].1))
                    } else {
                        (Seq::empty(), JsonV::Null)
                    },
            ),
        ),
    }
}


// ─── Reading a JSON value ───────────────────────────────────────────────────
/// The member of an object with key `k` (`Value::get`); `None` for a missing
/// key or a value that is not an object.
pub open spec fn jget(j: JsonV, k: Seq<char>) -> Option<JsonV> {
    match j {
        JsonV::Object(m) => jget_in(m, k, 0),
        _ => None,
    }
}

/// The first member at or after position `i` of `m` with key `k`.
pub open spec fn jget_in(m: Seq<(Seq<char>, JsonV)>, k: Seq<char>, i: int) -> Option<JsonV>
    decreases m.len() - i,
{
    if i < 0 || i >= m.len() {
        None
    } else if m[i].0 == k {
        Some(m[i].1)
    } else {
        jget_in(m, k, i + 1)
    }
}

/// `value[key]`: the member with key `k`, or `Null`.
pub open spec fn jidx(j: JsonV, k: Seq<char>) -> JsonV {
    match jget(j, k) {
        Some(v) => v,
        None => JsonV::Null,
    }
}

/// `value[i]`: the `i`-th element of an array, or `Null`.
pub open spec fn jat(j: JsonV, i: int) -> JsonV {
    match j {
        JsonV::Array(a) => if 0 <= i < a.len() {
            a[i]
        } else {
            JsonV::Null
        },
        _ => JsonV::Null,
    }
}

/// `Value::as_str`.
pub open spec fn jstr(j: JsonV) -> Option<Seq<char>> {
    match j {
        JsonV::Str(s) => Some(s),
        _ => None,
    }
}

/// `Value::as_i64`.
pub open spec fn ji64(j: JsonV) -> Option<i64> {
    match j {
        JsonV::Number { as_i64, .. } => as_i64,
        _ => None,
    }
}

/// `Value::as_u64`.
pub open spec fn ju64(j: JsonV) -> Option<u64> {
    match j {
        JsonV::Number { as_u64, .. } => as_u64,
        _ => None,
    }
}

/// `Value::as_bool`.
pub open spec fn jbool(j: JsonV) -> Option<bool> {
    match j {
        JsonV::Bool(b) => Some(b),
        _ => None,
    }
}

/// `s` read as a string, or `d` when it is not one.
pub open spec fn jstr_or(j: JsonV, d: Seq<char>) -> Seq<char> {
    match jstr(j) {
        Some(s) => s,
        None => d,
    }
}

/// The member of `j` with key `k` (`Value::get`).
pub fn get<'a>(j: &'a Json, k: &str) -> (r: Option<&'a Json>)
    ensures
        match r {
            Some(v) => jget(json_view(*j), k@) == Some(json_view(*v)),
            None => jget(json_view(*j), k@) is None,
        },
{
    match j {
        Json::Object(m) => {
            let kv = crate::text::chars_of(k);
            let mut i: usize = 0;
            while i < m.len()
                invariant
                    i <= m@.len(),
                    kv@ == k@,
                    json_view(*j) is Object,
                    jget_in(json_view(*j)->Object_0, k@, 0) == jget_in(
                        json_view(*j)->Object_0,
                        k@,
                        i as int,
                    ),
                    json_view(*j)->Object_0.len() == m@.len(),
                    forall|t: int|
                        0 <= t < m@.len() ==> #[trigger] json_view(*j)->Object_0[t] == (
                        m@[t].0@,
                        json_view(m@[t].1),
                    ),
                decreases m@.len() - i,
            {
                assert(json_view(*j)->Object_0[i as int] == (
                    m@[i as int].0@,
                    json_view(m@[i as int].1),
                ));
                let name = crate::text::chars_of(m[i].0.as_str());
                if crate::text::chars_eq(&name, &kv) {
                    return Some(&m[i].1);
                }
                i = i + 1;
            }
            None
        },
        _ => None,
    }
}

/// `Value::as_str`.
pub fn as_str(j: &Json) -> (r: Option<&String>)
    ensures
        match r {
            Some(s) => jstr(json_view(*j)) == Some(s@),
            None => jstr(json_view(*j)) is None,
        },
{
    match j {
        Json::Str(s) => Some(s),
        _ => None,
    }
}

/// `Value::as_i64`.
pub fn as_i64(j: &Json) -> (r: Option<i64>)
    ensures
        r == ji64(json_view(*j)),
{
    match j {
        Json::Number { as_i64, .. } => *as_i64,
        _ => None,
    }
}

/// `Value::as_u64`.
pub fn as_u64(j: &Json) -> (r: Option<u64>)
    ensures
        r == ju64(json_view(*j)),
{
    match j {
        Json::Number { as_u64, .. } => *as_u64,
        _ => None,
    }
}

/// `Value::as_bool`.
pub fn as_bool(j: &Json) -> (r: Option<bool>)
    ensures
        r == jbool(json_view(*j)),
{
    match j {
        Json::Bool(b) => Some(*b),
        _ => None,
    }
}

/// `Value::as_array`.
pub fn as_array(j: &Json) -> (r: Option<&Vec<Json>>)
    ensures
        match r {
            Some(a) => json_view(*j) is Array && a@.len() == json_view(*j)->Array_0.len()
                && forall|t: int|
                0 <= t < a@.len() ==> json_view(*j)->Array_0[t] == #[trigger] json_view(a@[t]),
            None => !(json_view(*j) is Array),
        },
{
    match j {
        Json::Array(a) => Some(a),
        _ => None,
    }
}

/// A string member of `j` (`j.get(k).and_then(as_str)`), copied.
pub open spec fn jfield_str(j: JsonV, k: Seq<char>) -> Option<Seq<char>> {
    match jget(j, k) {
        Some(v) => jstr(v),
        None => None,
    }
}

/// Executable `jfield_str`.
pub fn field_str(j: &Json, k: &str) -> (r: Option<String>)
    ensures
        match r {
            Some(s) => jfield_str(json_view(*j), k@) == Some(s@),
            None => jfield_str(json_view(*j), k@) is None,
        },
{
    match get(j, k) {
        Some(v) => match as_str(v) {
            Some(s) => Some(s.clone()),
            None => None,
        },
        None => None,
    }
}

/// A string member of `j`, or the default `d`.
pub fn field_str_or(j: &Json, k: &str, d: &str) -> (r: String)
    ensures
        r@ == (match jfield_str(json_view(*j), k@) {
            Some(s) => s,
            None => d@,
        }),
{
    match field_str(j, k) {
        Some(s) => s,
        None => crate::text::str_to_string(d),
    }
}

/// An `i64` member of `j` (`j.get(k).and_then(as_i64)`).
pub open spec fn jfield_i64(j: JsonV, k: Seq<char>) -> Option<i64> {
    match jget(j, k) {
        Some(v) => ji64(v),
        None => None,
    }
}

/// Executable `jfield_i64`.
pub fn field_i64(j: &Json, k: &str) -> (r: Option<i64>)
    ensures
        r == jfield_i64(json_view(*j), k@),
{
    match get(j, k) {
        Some(v) => as_i64(v),
        None => None,
    }
}

/// A `u64` member of `j` (`j.get(k).and_then(as_u64)`).
pub open spec fn jfield_u64(j: JsonV, k: Seq<char>) -> Option<u64> {
    match jget(j, k) {
        Some(v) => ju64(v),
        None => None,
    }
}

/// Executable `jfield_u64`.
pub fn field_u64(j: &Json, k: &str) -> (r: Option<u64>)
    ensures
        r == jfield_u64(json_view(*j), k@),
{
    match get(j, k) {
        Some(v) => as_u64(v),
        None => None,
    }
}

// ─── JSON text ──────────────────────────────────────────────────────────────
/// What `serde_json::from_str::<serde_json::Value>` makes of a text: `None`
/// where it reports an error.
pub uninterp spec fn json_parse(text: Seq<char>) -> Option<JsonV>;

#[verifier::external_type_specification]
#[verifier::external_body]
pub struct ExJsonValue(serde_json::Value);

/// The message of the error `serde_json::from_str::<serde_json::Value>`
/// reports for a text that is not JSON (its `Display`).
pub uninterp spec fn json_parse_error(text: Seq<char>) -> Seq<char>;

/// `serde_json::from_str::<serde_json::Value>`: parses JSON text, or gives the
/// message of the error it reports; both are functions of the text alone.
#[verifier::external_body]
pub fn parse_json(text: &str) -> (r: Result<Json, String>)
    ensures
        match r {
            Ok(j) => json_parse(text@) == Some(json_view(j)),
            Err(e) => json_parse(text@) is None && e@ == json_parse_error(text@),
        },
{
    match serde_json::from_str::<serde_json::Value>(text) {
        Ok(v) => Ok(from_value(v)),
        Err(e) => Err(e.to_string()),
    }
}

/// Moves a `serde_json::Value` into the library's `Json`, variant for variant.
#[verifier::external_body]
fn from_value(v: serde_json::Value) -> Json {
    match v {
        serde_json::Value::Null => Json::Null,
        serde_json::Value::Bool(b) => Json::Bool(b),
        serde_json::Value::Number(n) => Json::Number { text: n.to_string(), as_i64: n.as_i64(), as_u64: n.as_u64() },
        serde_json::Value::String(s) => Json::Str(s),
        serde_json::Value::Array(a) => Json::Array(a.into_iter().map(from_value).collect()),
        serde_json::Value::Object(m) => Json::Object(m.into_iter().map(|(k, x)| (k, from_value(x))).collect()),
    }
}

/// What `serde_json::to_string_pretty` writes for a value.
pub uninterp spec fn json_pretty(j: JsonV) -> Seq<char>;

/// `serde_json::to_string_pretty` of a value: two-space indented JSON text; the
/// result is a function of the value alone.
#[verifier::external_body]
pub fn pretty_json(j: &Json) -> (r: String)
    ensures
        r@ == json_pretty(json_view(*j)),
{
    serde_json::to_string_pretty(&to_value(j)).unwrap_or_default()
}

/// Moves the library's `Json` back into a `serde_json::Value`, variant for variant.
#[verifier::external_body]
fn to_value(j: &Json) -> serde_json::Value {
    match j {
        Json::Null => serde_json::Value::Null,
        Json::Bool(b) => serde_json::Value::Bool(*b),
        Json::Number { text, .. } => serde_json::from_str(text).unwrap_or(serde_json::Value::Null),
        Json::Str(s) => serde_json::Value::String(s.clone()),
        Json::Array(a) => serde_json::Value::Array(a.iter().map(to_value).collect()),
        Json::Object(m) => serde_json::Value::Object(m.iter().map(|(k, x)| (k.clone(), to_value(x))).collect()),
    }
}


// ─── Command output ─────────────────────────────────────────────────────────
/// A command's output read as JSON, or `Null` where it is not JSON
/// (`from_str(..).unwrap_or_default()`).
pub open spec fn parsed_or_null(text: Seq<char>) -> JsonV {
    match json_parse(text) {
        Some(j) => j,
        None => JsonV::Null,
    }
}

/// Reads a command's output as JSON; text that is not JSON gives `Null`.
pub fn output_json(text: &str) -> (r: Json)
    ensures
        json_view(r) == parsed_or_null(text@),
{
    match parse_json(text) {
        Ok(j) => j,
        Err(_) => Json::Null,
    }
}

/// The elements of an array, or none for another value
/// (`as_array().unwrap_or(&vec![])`).
pub open spec fn jarr_or_empty(j: JsonV) -> Seq<JsonV> {
    match j {
        JsonV::Array(a) => a,
        _ => Seq::empty(),
    }
}

/// The string elements of `a`, in order (`filter_map(as_str)`).
pub open spec fn str_items(a: Seq<JsonV>) -> Seq<Seq<char>>
    decreases a.len(),
{
    if a.len() == 0 {
        Seq::empty()
    } else {
        let rest = str_items(a.drop_last());
        match a.last() {
            JsonV::Str(s) => rest.push(s),
            _ => rest,
        }
    }
}

/// The values of a list of strings.
pub open spec fn strs_view(v: Seq<String>) -> Seq<Seq<char>> {
    Seq::new(v.len(), |i: int| v[i]@)
}

/// The elements of a JSON array, as a slice of the value.
pub fn array_items(j: &Json) -> (r: &[Json])
    ensures
        r@.len() == jarr_or_empty(json_view(*j)).len(),
        forall|t: int|
            0 <= t < r@.len() ==> jarr_or_empty(json_view(*j))[t] == #[trigger] json_view(r@[t]),
{
    match j {
        Json::Array(a) => a.as_slice(),
        _ => &[],
    }
}

/// The string elements of the array member `k` of `j`
/// (`j[k].as_array().unwrap_or(..).iter().filter_map(as_str)`).
pub fn string_items(j: &Json, k: &str) -> (r: Vec<String>)
    ensures
        strs_view(r@) == str_items(jarr_or_empty(jidx(json_view(*j), k@))),
{
    let mut r: Vec<String> = Vec::new();
    let items: &[Json] = match get(j, k) {
        Some(v) => array_items(v),
        None => &[],
    };
    let ghost a = jarr_or_empty(jidx(json_view(*j), k@));
    assert(items@.len() == a.len());
    let mut i: usize = 0;
    while i < items.len()
        invariant
            i <= items@.len() == a.len(),
            forall|t: int| 0 <= t < items@.len() ==> a[t] == #[trigger] json_view(items@[t]),
            strs_view(r@) == str_items(a.take(i as int)),
        decreases items@.len() - i,
    {
        assert(a.take(i + 1).drop_last() =~= a.take(i as int));
        assert(a.take(i + 1).last() == json_view(items@[i as int]));
        let ghost before = r@;
        match &items[i] {
            Json::Str(s) => {
                r.push(s.clone());
                assert(strs_view(r@) =~= strs_view(before).push(s@));
            },
            _ => {},
        }
        i = i + 1;
    }
    assert(a.take(i as int) =~= a);
    r
}


/// `value[i]` for an array element: the element, or none where `value[i]`
/// reads as `Null` because there is no such element.
pub fn elem(j: &Json, i: usize) -> (r: Option<&Json>)
    ensures
        match r {
            Some(v) => jat(json_view(*j), i as int) == json_view(*v),
            None => jat(json_view(*j), i as int) == JsonV::Null,
        },
{
    match j {
        Json::Array(a) => {
            if i < a.len() {
                Some(&a[i])
            } else {
                None
            }
        },
        _ => None,
    }
}

/// `value[k]` for an object member: the member, or none where `value[k]`
/// reads as `Null` because there is no such member.
pub fn member<'a>(j: &'a Json, k: &str) -> (r: Option<&'a Json>)
    ensures
        match r {
            Some(v) => jidx(json_view(*j), k@) == json_view(*v) && jget(json_view(*j), k@) == Some(
                json_view(*v),
            ),
            None => jidx(json_view(*j), k@) == JsonV::Null && jget(json_view(*j), k@) is None,
        },
{
    get(j, k)
}

/// The text of a value that is a string, or `-` (how the popup shows a
/// value).
pub open spec fn shown_text(j: JsonV) -> Seq<char> {
    jstr_or(j, "-"@)
}

/// Executable `shown_text` of an optional value (none reads as `Null`).
pub fn text_or_dash(j: Option<&Json>) -> (r: String)
    ensures
        r@ == shown_text(
            match j {
                Some(v) => json_view(*v),
                None => JsonV::Null,
            },
        ),
{
    match j {
        Some(v) => match as_str(v) {
            Some(s) => s.clone(),
            None => crate::text::str_to_string("-"),
        },
        None => crate::text::str_to_string("-"),
    }
}

} // verus!
