//! A JSON document held as plain values, and the `serde_json` calls that
//! read and write its text.

use vstd::prelude::*;

use crate::text::{chars_of, decimal_of, push_decimal, str_eq};

verus! {

/// A JSON value. Numbers keep their JSON text; object members keep the order
/// in which `serde_json` hands them out.
#[derive(Debug)]
pub enum JsonValue {
    Null,
    Bool(bool),
    Number(String),
    Str(String),
    Array(Vec<JsonValue>),
    Object(Vec<(String, JsonValue)>),
}

/// `serde_json::Value`, carried opaquely between the two conversions below.
#[verifier::external_type_specification]
#[verifier::external_body]
pub struct ExSerdeValue(serde_json::Value);

/// `serde_json::Error`, the error type of the crate's serialisation calls.
#[verifier::external_type_specification]
#[verifier::external_body]
pub struct ExJsonError(serde_json::Error);

/// What `serde_json::from_str::<Value>` makes of a text (`None` when the text
/// is not one JSON document).
pub uninterp spec fn json_parse(text: Seq<char>) -> Option<JsonValue>;

/// A JSON value with texts as character sequences.
pub enum JsonModel {
    Null,
    Bool(bool),
    Number(Seq<char>),
    Str(Seq<char>),
    Array(Seq<JsonModel>),
    Object(Seq<(Seq<char>, JsonModel)>),
}

/// The model of a JSON value.
pub open spec fn model_of(v: JsonValue) -> JsonModel
    decreases v,
{
    match v {
        JsonValue::Null => JsonModel::Null,
        JsonValue::Bool(b) => JsonModel::Bool(b),
        JsonValue::Number(t) => JsonModel::Number(t@),
        JsonValue::Str(s) => JsonModel::Str(s@),
        JsonValue::Array(a) => JsonModel::Array(models_of(a@)),
        JsonValue::Object(m) => JsonModel::Object(members_model_of(m@)),
    }
}

/// Models of a list of values.
pub open spec fn models_of(s: Seq<JsonValue>) -> Seq<JsonModel>
    decreases s,
{
    if s.len() == 0 {
        Seq::empty()
    } else {
        seq![model_of(s[0])] + models_of(s.drop_first())
    }
}

/// Models of an object's members.
pub open spec fn members_model_of(s: Seq<(String, JsonValue)>) -> Seq<(Seq<char>, JsonModel)>
    decreases s,
{
    if s.len() == 0 {
        Seq::empty()
    } else {
        seq![(s[0].0@, model_of(s[0].1))] + members_model_of(s.drop_first())
    }
}

/// The compact text `serde_json::to_string` writes for a value.
pub uninterp spec fn json_text(value: JsonModel) -> Seq<char>;

/// Converts a `serde_json::Value` into a [`JsonValue`], variant by variant.
#[verifier::external_body]
fn from_serde(value: serde_json::Value) -> JsonValue {
    match value {
        serde_json::Value::Null => JsonValue::Null,
        serde_json::Value::Bool(b) => JsonValue::Bool(b),
        serde_json::Value::Number(n) => JsonValue::Number(n.to_string()),
        serde_json::Value::String(s) => JsonValue::Str(s),
        serde_json::Value::Array(a) => JsonValue::Array(a.into_iter().map(from_serde).collect()),
        serde_json::Value::Object(m) => JsonValue::Object(
            m.into_iter().map(|(k, v)| (k, from_serde(v))).collect(),
        ),
    }
}

/// Converts a [`JsonValue`] back into a `serde_json::Value`, variant by variant.
#[verifier::external_body]
fn to_serde(value: &JsonValue) -> serde_json::Value {
    match value {
        JsonValue::Null => serde_json::Value::Null,
        JsonValue::Bool(b) => serde_json::Value::Bool(*b),
        JsonValue::Number(t) => serde_json::from_str(t).unwrap_or(serde_json::Value::Null),
        JsonValue::Str(s) => serde_json::Value::String(s.clone()),
        JsonValue::Array(a) => serde_json::Value::Array(a.iter().map(to_serde).collect()),
        JsonValue::Object(m) => serde_json::Value::Object(
            m.iter().map(|(k, v)| (k.clone(), to_serde(v))).collect(),
        ),
    }
}

/// `serde_json::from_str::<serde_json::Value>`: parses one JSON document.
/// The contract names the result: it depends on the text alone.
#[verifier::external_body]
pub(crate) fn parse_json(text: &str) -> (r: Option<JsonValue>)
    ensures
        r == json_parse(text@),
{
    serde_json::from_str::<serde_json::Value>(text).ok().map(from_serde)
}

/// `serde_json::to_string`: the compact JSON text of a value. Serialising a
/// `Value` cannot fail; the contract names the text, which depends on the
/// value alone.
#[verifier::external_body]
pub(crate) fn write_json(value: &JsonValue) -> (r: String)
    ensures
        r@ == json_text(model_of(*value)),
{
    serde_json::to_string(&to_serde(value)).unwrap_or_default()
}

/// Member `key` of an object's member list: the first one with that name.
pub open spec fn member(m: Seq<(String, JsonValue)>, key: Seq<char>) -> Option<JsonValue>
    decreases m.len(),
{
    if m.len() == 0 {
        None
    } else if m[0].0@ == key {
        Some(m[0].1)
    } else {
        member(m.drop_first(), key)
    }
}

/// `value.get(key)`: the member of an object, nothing for other values.
pub open spec fn get_of(v: JsonValue, key: Seq<char>) -> Option<JsonValue> {
    match v {
        JsonValue::Object(m) => member(m@, key),
        _ => None,
    }
}

/// `value.as_str()`.
pub open spec fn str_of(v: Option<JsonValue>) -> Option<Seq<char>> {
    match v {
        Some(JsonValue::Str(s)) => Some(s@),
        _ => None,
    }
}

/// `value.as_array()`.
pub open spec fn array_of(v: Option<JsonValue>) -> Option<Seq<JsonValue>> {
    match v {
        Some(JsonValue::Array(a)) => Some(a@),
        _ => None,
    }
}

/// `value.get(a).get(b)`, as `pointer("/a/b")` reads.
pub open spec fn path_of(v: JsonValue, a: Seq<char>, b: Seq<char>) -> Option<JsonValue> {
    match get_of(v, a) {
        Some(inner) => get_of(inner, b),
        None => None,
    }
}

/// A non-empty run of ASCII digits (what `as_u64` reads from a number text).
pub open spec fn is_digit_text(t: Seq<char>) -> bool {
    t.len() > 0 && forall|i: int| 0 <= i < t.len() ==> '0' <= #[trigger] t[i] <= '9'
}

/// Value of a digit text.
pub open spec fn digits_value(t: Seq<char>) -> nat
    decreases t.len(),
{
    if t.len() == 0 {
        0
    } else {
        digits_value(t.drop_last()) * 10 + ((t.last() as nat) - ('0' as nat)) as nat
    }
}

/// Integer value of a JSON number text: digits with an optional leading `-`.
pub open spec fn int_text_value(t: Seq<char>) -> Option<int> {
    if is_digit_text(t) {
        Some(digits_value(t) as int)
    } else if t.len() > 1 && t[0] == '-' && is_digit_text(t.drop_first()) {
        Some(-(digits_value(t.drop_first()) as int))
    } else {
        None
    }
}

/// An `i32` read from a number text, when it is an integer in range.
pub open spec fn i32_of_text(t: Seq<char>) -> Option<i32> {
    match int_text_value(t) {
        Some(v) => if i32::MIN <= v <= i32::MAX {
            Some(v as i32)
        } else {
            None
        },
        None => None,
    }
}

/// The member found by [`member`] lies inside the member list.
pub proof fn lemma_member_smaller(m: Seq<(String, JsonValue)>, key: Seq<char>)
    ensures
        member(m, key) matches Some(x) ==> decreases_to!(m => x),
    decreases m.len(),
{
    if m.len() > 0 {
        if m[0].0@ == key {
            assert(decreases_to!(m => m[0]));
            assert(decreases_to!(m[0] => m[0].1));
        } else {
            lemma_member_smaller(m.drop_first(), key);
            assert(decreases_to!(m => m.drop_first()));
        }
    }
}

/// Array member `key` of a value.
pub open spec fn array_member(v: JsonValue, key: Seq<char>) -> Option<Seq<JsonValue>> {
    array_of(get_of(v, key))
}

/// An array member lies inside the value.
pub proof fn lemma_array_member_smaller(v: JsonValue, key: Seq<char>)
    ensures
        array_member(v, key) matches Some(s) ==> decreases_to!(v => s),
{
    if let JsonValue::Object(m) = v {
        lemma_member_smaller(m@, key);
        if let Some(JsonValue::Array(a)) = member(m@, key) {
            assert(decreases_to!(v => m));
            assert(decreases_to!(m => m@));
            assert(decreases_to!(JsonValue::Array(a) => a));
            assert(decreases_to!(a => a@));
        }
    }
}

impl JsonValue {
    /// The value a JSON text holds (`None` when the text is not JSON).
    pub fn parse(text: &str) -> (r: Option<JsonValue>)
        ensures
            r == json_parse(text@),
    {
        parse_json(text)
    }

    /// `Value::get` with a string key.
    pub fn get(&self, key: &str) -> (r: Option<&JsonValue>)
        ensures
            match r {
                Some(x) => get_of(*self, key@) == Some(*x),
                None => get_of(*self, key@) is None,
            },
    {
        match self {
            JsonValue::Object(m) => {
                let mut i: usize = 0;
                assert(m@.subrange(0, m@.len() as int) =~= m@);
                while i < m.len()
                    invariant
                        i <= m@.len(),
                        get_of(*self, key@) == member(m@, key@),
                        member(m@, key@) == member(m@.subrange(i as int, m@.len() as int), key@),
                    decreases m.len() - i,
                {
                    let ghost rest = m@.subrange(i as int, m@.len() as int);
                    assert(rest.drop_first() =~= m@.subrange(i + 1, m@.len() as int));
                    assert(rest[0] == m@[i as int]);
                    if str_eq(m[i].0.as_str(), key) {
                        assert(rest[0].0@ == key@);
                        assert(member(rest, key@) == Some(m@[i as int].1));
                        return Some(&m[i].1);
                    }
                    i = i + 1;
                }
                None
            },
            _ => None,
        }
    }

    /// `Value::as_str`.
    pub fn as_str(&self) -> (r: Option<&str>)
        ensures
            match r {
                Some(s) => str_of(Some(*self)) == Some(s@),
                None => str_of(Some(*self)) is None,
            },
    {
        match self {
            JsonValue::Str(s) => Some(s.as_str()),
            _ => None,
        }
    }

    /// `Value::as_array`.
    pub fn as_array(&self) -> (r: Option<&Vec<JsonValue>>)
        ensures
            match r {
                Some(a) => array_of(Some(*self)) == Some(a@),
                None => array_of(Some(*self)) is None,
            },
    {
        match self {
            JsonValue::Array(a) => Some(a),
            _ => None,
        }
    }
}

/// String member `key` of `v`, if it is one (`v.get(key).and_then(as_str)`).
pub fn get_str<'a>(v: &'a JsonValue, key: &str) -> (r: Option<&'a str>)
    ensures
        match r {
            Some(s) => str_of(get_of(*v, key@)) == Some(s@),
            None => str_of(get_of(*v, key@)) is None,
        },
{
    match v.get(key) {
        Some(x) => x.as_str(),
        None => None,
    }
}

/// Array member `key` of `v`, if it is one.
pub fn get_array<'a>(v: &'a JsonValue, key: &str) -> (r: Option<&'a Vec<JsonValue>>)
    ensures
        match r {
            Some(a) => array_of(get_of(*v, key@)) == Some(a@),
            None => array_of(get_of(*v, key@)) is None,
        },
{
    match v.get(key) {
        Some(x) => x.as_array(),
        None => None,
    }
}

/// `v.pointer("/a/b")` for two object keys.
pub fn get_path<'a>(v: &'a JsonValue, a: &str, b: &str) -> (r: Option<&'a JsonValue>)
    ensures
        match r {
            Some(x) => path_of(*v, a@, b@) == Some(*x),
            None => path_of(*v, a@, b@) is None,
        },
{
    match v.get(a) {
        Some(inner) => inner.get(b),
        None => None,
    }
}

/// Reads an `i32` from a number text (an integer in range), as serde does for
/// an `i32` field.
pub fn parse_i32_text(t: &str) -> (r: Option<i32>)
    ensures
        r == i32_of_text(t@),
{
    let c = chars_of(t);
    if c.len() == 0 {
        return None;
    }
    let neg = c[0] == '-';
    let start: usize = if neg { 1 } else { 0 };
    if start == c.len() {
        return None;
    }
    let ghost d = c@.subrange(start as int, c@.len() as int);
    let mut v: i64 = 0;
    let mut i: usize = start;
    while i < c.len()
        invariant
            c@ == t@,
            start <= i <= c@.len(),
            start < c@.len(),
            neg == (c@[0] == '-'),
            start == (if neg { 1usize } else { 0usize }),
            d == c@.subrange(start as int, c@.len() as int),
            forall|k: int| start <= k < i ==> '0' <= #[trigger] c@[k] <= '9',
            v == (if digits_value(c@.subrange(start as int, i as int)) < 2147483649 {
                digits_value(c@.subrange(start as int, i as int)) as int
            } else {
                2147483649
            }),
        decreases c.len() - i,
    {
        let ch = c[i];
        if !(ch >= '0' && ch <= '9') {
            proof {
                if neg {
                    assert(t@.drop_first()[i - 1] == ch);
                    assert(!('0' <= t@[0] <= '9'));
                } else {
                    assert(t@[i as int] == ch);
                }
            }
            return None;
        }
        assert(c@.subrange(start as int, i + 1).drop_last() =~= c@.subrange(start as int, i as int));
        let dv = (ch as u32 - '0' as u32) as i64;
        v = if v >= 2147483649 {
            2147483649
        } else {
            let n = v * 10 + dv;
            if n < 2147483649 {
                n
            } else {
                2147483649
            }
        };
        i = i + 1;
    }
    assert(c@.subrange(start as int, i as int) =~= d);
    assert(is_digit_text(d));
    if neg {
        assert(d =~= t@.drop_first());
        if v <= 2147483648 {
            Some((0 - v) as i32)
        } else {
            None
        }
    } else {
        assert(d =~= t@);
        if v <= 2147483647 {
            Some(v as i32)
        } else {
            None
        }
    }
}

/// Models of a list with one more value at the end.
pub proof fn lemma_models_push(s: Seq<JsonValue>, x: JsonValue)
    ensures
        models_of(s.push(x)) == models_of(s).push(model_of(x)),
    decreases s.len(),
{
    if s.len() == 0 {
        assert(s.push(x).drop_first() =~= Seq::<JsonValue>::empty());
        assert(models_of(Seq::<JsonValue>::empty()) =~= Seq::<JsonModel>::empty());
        assert(s.push(x)[0] == x);
        assert(models_of(s.push(x)) =~= seq![model_of(x)] + Seq::<JsonModel>::empty());
        assert(models_of(s) =~= Seq::<JsonModel>::empty());
    } else {
        assert(s.push(x).drop_first() =~= s.drop_first().push(x));
        lemma_models_push(s.drop_first(), x);
        assert(models_of(s.push(x)) =~= models_of(s).push(model_of(x)));
    }
}

/// A JSON string.
pub fn json_str(s: &str) -> (r: JsonValue)
    ensures
        model_of(r) == JsonModel::Str(s@),
{
    JsonValue::Str(s.to_owned())
}

/// A JSON array of the given values.
pub fn json_array(items: Vec<JsonValue>) -> (r: JsonValue)
    ensures
        model_of(r) == JsonModel::Array(models_of(items@)),
{
    JsonValue::Array(items)
}

/// A JSON object with one member.
pub fn json_object1(k: &str, v: JsonValue) -> (r: JsonValue)
    ensures
        model_of(r) == JsonModel::Object(seq![(k@, model_of(v))]),
{
    let ghost mv = model_of(v);
    let m = vec![(k.to_owned(), v)];
    proof {
        reveal_with_fuel(members_model_of, 2);
        assert(m@.drop_first() =~= Seq::<(String, JsonValue)>::empty());
        assert(members_model_of(m@) =~= seq![(k@, mv)]);
    }
    JsonValue::Object(m)
}

/// A JSON object with two members, in this order.
pub fn json_object2(k1: &str, v1: JsonValue, k2: &str, v2: JsonValue) -> (r: JsonValue)
    ensures
        model_of(r) == JsonModel::Object(seq![(k1@, model_of(v1)), (k2@, model_of(v2))]),
{
    let ghost m1 = model_of(v1);
    let ghost m2 = model_of(v2);
    let m = vec![(k1.to_owned(), v1), (k2.to_owned(), v2)];
    proof {
        reveal_with_fuel(members_model_of, 3);
        assert(m@.drop_first().drop_first() =~= Seq::<(String, JsonValue)>::empty());
        assert(members_model_of(m@.drop_first()) =~= seq![(k2@, m2)]);
        assert(members_model_of(m@) =~= seq![(k1@, m1), (k2@, m2)]);
    }
    JsonValue::Object(m)
}

/// Models of a member list with one more member at the end.
pub proof fn lemma_members_push(s: Seq<(String, JsonValue)>, k: String, x: JsonValue)
    ensures
        members_model_of(s.push((k, x))) == members_model_of(s).push((k@, model_of(x))),
    decreases s.len(),
{
    if s.len() == 0 {
        assert(s.push((k, x)).drop_first() =~= Seq::<(String, JsonValue)>::empty());
        assert(members_model_of(Seq::<(String, JsonValue)>::empty()) =~= Seq::<(Seq<char>, JsonModel)>::empty());
        assert(s.push((k, x))[0] == (k, x));
        assert(members_model_of(s.push((k, x))) =~= seq![(k@, model_of(x))] + Seq::<(Seq<char>, JsonModel)>::empty());
        assert(members_model_of(s) =~= Seq::<(Seq<char>, JsonModel)>::empty());
    } else {
        assert(s.push((k, x)).drop_first() =~= s.drop_first().push((k, x)));
        lemma_members_push(s.drop_first(), k, x);
        assert(members_model_of(s.push((k, x))) =~= members_model_of(s).push((k@, model_of(x))));
    }
}

/// Appends a member to an object's member list.
pub fn push_member(m: &mut Vec<(String, JsonValue)>, k: &str, v: JsonValue)
    ensures
        members_model_of(final(m)@) == members_model_of(old(m)@).push((k@, model_of(v))),
{
    let key = k.to_owned();
    proof {
        lemma_members_push(m@, key, v);
    }
    m.push((key, v));
}

/// Appends a value to an array's items.
pub fn push_item(items: &mut Vec<JsonValue>, v: JsonValue)
    ensures
        models_of(final(items)@) == models_of(old(items)@).push(model_of(v)),
{
    proof {
        lemma_models_push(items@, v);
    }
    items.push(v);
}

/// Decimal text of an integer, with a leading `-` when negative (as
/// `serde_json` writes integers).
pub open spec fn int_text(i: int) -> Seq<char> {
    if i < 0 {
        "-"@ + decimal_of((-i) as nat)
    } else {
        decimal_of(i as nat)
    }
}

/// A JSON integer.
pub fn json_i32(i: i32) -> (r: JsonValue)
    ensures
        model_of(r) == JsonModel::Number(int_text(i as int)),
{
    let mut t = String::new();
    if i < 0 {
        t.append("-");
        let a: i64 = 0 - (i as i64);
        push_decimal(&mut t, a as usize);
    } else {
        push_decimal(&mut t, i as usize);
    }
    assert(t@ =~= int_text(i as int));
    JsonValue::Number(t)
}

} // verus!

