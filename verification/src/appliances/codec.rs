//! The stored JSON form of an appliances payload, read as its serde
//! definition reads it: known fields by name (an object) or by position (an
//! array), unknown members ignored, a missing field takes its default, a
//! field of the wrong type or given twice rejects the whole value.

use vstd::prelude::*;

use crate::appliances::content::{
    Appliance, ApplianceModel, ApplianceStatus, AppliancesPayload, PayloadModel,
};
use crate::json::{
    i32_of_text, int_text, json_array, json_i32, json_str, json_text, model_of, models_of,
    members_model_of, parse_i32_text, push_item, push_member, write_json, JsonModel, JsonValue,
};
use crate::text::str_eq;

verus! {

/// Serde field index of an appliance member name; -1 when unknown.
pub open spec fn appliance_field(k: Seq<char>) -> int {
    if k == "id"@ {
        0
    } else if k == "name"@ {
        1
    } else if k == "emoji"@ {
        2
    } else if k == "description"@ {
        3
    } else if k == "featured"@ {
        4
    } else if k == "order"@ {
        5
    } else if k == "location"@ {
        6
    } else if k == "manualUrl"@ {
        7
    } else if k == "safetyNote"@ {
        8
    } else if k == "status"@ {
        9
    } else {
        -1
    }
}

/// Serde field index of a payload member name (`safety_notice` is an alias of
/// `safetyNotice`); -1 when unknown.
pub open spec fn payload_field(k: Seq<char>) -> int {
    if k == "devices"@ {
        0
    } else if k == "safetyNotice"@ || k == "safety_notice"@ {
        1
    } else {
        -1
    }
}

/// Field indices of an object's members.
pub open spec fn member_fields(m: Seq<(String, JsonValue)>, field: spec_fn(Seq<char>) -> int) -> Seq<int> {
    m.map_values(|p: (String, JsonValue)| field(p.0@))
}

/// Appliance field naming as a function.
pub open spec fn appliance_keys() -> spec_fn(Seq<char>) -> int {
    |k: Seq<char>| appliance_field(k)
}

/// Payload field naming as a function.
pub open spec fn payload_keys() -> spec_fn(Seq<char>) -> int {
    |k: Seq<char>| payload_field(k)
}

/// No known field is given twice.
pub open spec fn fields_distinct(keys: Seq<int>) -> bool {
    forall|i: int, j: int| 0 <= i < j < keys.len() && keys[i] >= 0 ==> keys[i] != keys[j]
}

/// Value of the first member naming field `f`.
pub open spec fn field_member(
    m: Seq<(String, JsonValue)>,
    field: spec_fn(Seq<char>) -> int,
    f: int,
) -> Option<JsonValue>
    decreases m.len(),
{
    if m.len() == 0 {
        None
    } else if field(m[0].0@) == f {
        Some(m[0].1)
    } else {
        field_member(m.drop_first(), field, f)
    }
}

/// Unit variant of a status name.
pub open spec fn status_named(s: Seq<char>) -> Option<ApplianceStatus> {
    if s == "active"@ {
        Some(ApplianceStatus::Active)
    } else if s == "hidden"@ {
        Some(ApplianceStatus::Hidden)
    } else {
        None
    }
}

/// A status as serde reads a unit variant: its name, or a one-member object
/// whose value is `null`.
pub open spec fn status_of(v: JsonValue) -> Option<ApplianceStatus> {
    match v {
        JsonValue::Str(s) => status_named(s@),
        JsonValue::Object(m) => if m@.len() == 1 && m@[0].1 is Null {
            status_named(m@[0].0@)
        } else {
            None
        },
        _ => None,
    }
}

/// A value of the right type for appliance field `f`.
pub open spec fn appliance_field_valid(f: int, v: JsonValue) -> bool {
    if f == 4 {
        v is Bool
    } else if f == 5 {
        v matches JsonValue::Number(t) && i32_of_text(t@) is Some
    } else if f == 9 {
        status_of(v) is Some
    } else {
        v is Str
    }
}

/// Text of a string field (default empty).
pub open spec fn str_value(o: Option<JsonValue>) -> Seq<char> {
    match o {
        Some(JsonValue::Str(s)) => s@,
        _ => Seq::empty(),
    }
}

/// A boolean field (default false).
pub open spec fn bool_value(o: Option<JsonValue>) -> bool {
    match o {
        Some(JsonValue::Bool(b)) => b,
        _ => false,
    }
}

/// An `i32` field (default 0).
pub open spec fn order_value(o: Option<JsonValue>) -> i32 {
    match o {
        Some(JsonValue::Number(t)) => match i32_of_text(t@) {
            Some(x) => x,
            None => 0,
        },
        _ => 0,
    }
}

/// The status field (default active).
pub open spec fn status_value(o: Option<JsonValue>) -> ApplianceStatus {
    match o {
        Some(v) => match status_of(v) {
            Some(s) => s,
            None => ApplianceStatus::Active,
        },
        None => ApplianceStatus::Active,
    }
}

/// An appliance from its field values.
pub open spec fn appliance_from(get: spec_fn(int) -> Option<JsonValue>) -> ApplianceModel {
    ApplianceModel {
        id: str_value(get(0)),
        name: str_value(get(1)),
        emoji: str_value(get(2)),
        description: str_value(get(3)),
        featured: bool_value(get(4)),
        order: order_value(get(5)),
        location: str_value(get(6)),
        manual_url: str_value(get(7)),
        safety_note: str_value(get(8)),
        status: status_value(get(9)),
    }
}

/// Field values of an object, by field index.
pub open spec fn object_getter(
    m: Seq<(String, JsonValue)>,
    field: spec_fn(Seq<char>) -> int,
) -> spec_fn(int) -> Option<JsonValue> {
    |f: int| field_member(m, field, f)
}

/// Field values of an array, by position.
pub open spec fn array_getter(a: Seq<JsonValue>) -> spec_fn(int) -> Option<JsonValue> {
    |f: int| if 0 <= f < a.len() {
        Some(a[f])
    } else {
        None
    }
}

/// Every known member of an object has a value of its field's type, and no
/// field is given twice.
pub open spec fn appliance_members_ok(m: Seq<(String, JsonValue)>) -> bool {
    let keys = member_fields(m, appliance_keys());
    &&& forall|i: int| 0 <= i < m.len() && keys[i] >= 0 ==> appliance_field_valid(keys[i], #[trigger] m[i].1)
    &&& fields_distinct(keys)
}

/// An appliance as serde reads it from a JSON value.
pub open spec fn decode_appliance(v: JsonValue) -> Option<ApplianceModel> {
    match v {
        JsonValue::Object(m) => if appliance_members_ok(m@) {
            Some(appliance_from(object_getter(m@, appliance_keys())))
        } else {
            None
        },
        JsonValue::Array(a) => if a@.len() <= 10 && forall|i: int|
            0 <= i < a@.len() ==> appliance_field_valid(i, #[trigger] a@[i]) {
            Some(appliance_from(array_getter(a@)))
        } else {
            None
        },
        _ => None,
    }
}

/// A value that reads as a list of appliances.
pub open spec fn devices_valid(v: JsonValue) -> bool {
    v matches JsonValue::Array(a) && forall|i: int|
        0 <= i < a@.len() ==> (#[trigger] decode_appliance(a@[i])) is Some
}

/// A value of the right type for payload field `f`.
pub open spec fn payload_field_valid(f: int, v: JsonValue) -> bool {
    if f == 0 {
        devices_valid(v)
    } else {
        v is Str
    }
}

/// The appliances of a device list field (default none).
pub open spec fn devices_value(o: Option<JsonValue>) -> Seq<ApplianceModel> {
    match o {
        Some(JsonValue::Array(a)) => a@.map_values(
            |x: JsonValue|
                match decode_appliance(x) {
                    Some(d) => d,
                    None => appliance_from(array_getter(Seq::empty())),
                },
        ),
        _ => Seq::empty(),
    }
}

/// Every known member of a payload object is well typed, none given twice.
pub open spec fn payload_members_ok(m: Seq<(String, JsonValue)>) -> bool {
    let keys = member_fields(m, payload_keys());
    &&& forall|i: int| 0 <= i < m.len() && keys[i] >= 0 ==> payload_field_valid(keys[i], #[trigger] m[i].1)
    &&& fields_distinct(keys)
}

/// A payload from its field values.
pub open spec fn payload_from(get: spec_fn(int) -> Option<JsonValue>) -> PayloadModel {
    PayloadModel { devices: devices_value(get(0)), safety_notice: str_value(get(1)) }
}

/// A payload as serde reads it from a JSON value (`None`: serde refuses it).
pub open spec fn decode_payload(v: JsonValue) -> Option<PayloadModel> {
    match v {
        JsonValue::Object(m) => if payload_members_ok(m@) {
            Some(payload_from(object_getter(m@, payload_keys())))
        } else {
            None
        },
        JsonValue::Array(a) => if a@.len() <= 2 && forall|i: int|
            0 <= i < a@.len() ==> payload_field_valid(i, #[trigger] a@[i]) {
            Some(payload_from(array_getter(a@)))
        } else {
            None
        },
        _ => None,
    }
}

/// `Option<&T>` read as `Option<T>`.
pub open spec fn opt_ref(o: Option<&JsonValue>) -> Option<JsonValue> {
    match o {
        Some(x) => Some(*x),
        None => None,
    }
}

/// Field index of an appliance member name.
fn appliance_field_of(k: &str) -> (r: i64)
    ensures
        r == appliance_field(k@),
{
    if str_eq(k, "id") {
        0
    } else if str_eq(k, "name") {
        1
    } else if str_eq(k, "emoji") {
        2
    } else if str_eq(k, "description") {
        3
    } else if str_eq(k, "featured") {
        4
    } else if str_eq(k, "order") {
        5
    } else if str_eq(k, "location") {
        6
    } else if str_eq(k, "manualUrl") {
        7
    } else if str_eq(k, "safetyNote") {
        8
    } else if str_eq(k, "status") {
        9
    } else {
        -1
    }
}

/// Field index of a payload member name.
fn payload_field_of(k: &str) -> (r: i64)
    ensures
        r == payload_field(k@),
{
    if str_eq(k, "devices") {
        0
    } else if str_eq(k, "safetyNotice") || str_eq(k, "safety_notice") {
        1
    } else {
        -1
    }
}

fn status_named_exec(s: &str) -> (r: Option<ApplianceStatus>)
    ensures
        r == status_named(s@),
{
    if str_eq(s, "active") {
        Some(ApplianceStatus::Active)
    } else if str_eq(s, "hidden") {
        Some(ApplianceStatus::Hidden)
    } else {
        None
    }
}

fn status_exec(v: &JsonValue) -> (r: Option<ApplianceStatus>)
    ensures
        r == status_of(*v),
{
    match v {
        JsonValue::Str(s) => status_named_exec(s.as_str()),
        JsonValue::Object(m) => {
            if m.len() == 1 {
                match &m[0].1 {
                    JsonValue::Null => status_named_exec(m[0].0.as_str()),
                    _ => None,
                }
            } else {
                None
            }
        },
        _ => None,
    }
}

fn appliance_field_valid_exec(f: i64, v: &JsonValue) -> (r: bool)
    ensures
        r == appliance_field_valid(f as int, *v),
{
    if f == 4 {
        matches!(v, JsonValue::Bool(_))
    } else if f == 5 {
        match v {
            JsonValue::Number(t) => parse_i32_text(t.as_str()).is_some(),
            _ => false,
        }
    } else if f == 9 {
        status_exec(v).is_some()
    } else {
        matches!(v, JsonValue::Str(_))
    }
}

fn str_value_exec(o: Option<&JsonValue>) -> (r: String)
    ensures
        r@ == str_value(opt_ref(o)),
{
    match o {
        Some(JsonValue::Str(s)) => s.clone(),
        _ => String::new(),
    }
}

fn bool_value_exec(o: Option<&JsonValue>) -> (r: bool)
    ensures
        r == bool_value(opt_ref(o)),
{
    match o {
        Some(JsonValue::Bool(b)) => *b,
        _ => false,
    }
}

fn order_value_exec(o: Option<&JsonValue>) -> (r: i32)
    ensures
        r == order_value(opt_ref(o)),
{
    match o {
        Some(JsonValue::Number(t)) => match parse_i32_text(t.as_str()) {
            Some(x) => x,
            None => 0,
        },
        _ => 0,
    }
}

fn status_value_exec(o: Option<&JsonValue>) -> (r: ApplianceStatus)
    ensures
        r == status_value(opt_ref(o)),
{
    match o {
        Some(v) => match status_exec(v) {
            Some(s) => s,
            None => ApplianceStatus::Active,
        },
        None => ApplianceStatus::Active,
    }
}

/// The first member naming appliance field `f`.
fn find_appliance_field(m: &Vec<(String, JsonValue)>, f: i64) -> (r: Option<&JsonValue>)
    ensures
        opt_ref(r) == field_member(m@, appliance_keys(), f as int),
{
    let mut i: usize = 0;
    assert(m@.subrange(0, m@.len() as int) =~= m@);
    while i < m.len()
        invariant
            i <= m@.len(),
            field_member(m@, appliance_keys(), f as int) == field_member(
                m@.subrange(i as int, m@.len() as int),
                appliance_keys(),
                f as int,
            ),
        decreases m.len() - i,
    {
        let ghost rest = m@.subrange(i as int, m@.len() as int);
        assert(rest.drop_first() =~= m@.subrange(i + 1, m@.len() as int));
        assert(rest[0] == m@[i as int]);
        if appliance_field_of(m[i].0.as_str()) == f {
            return Some(&m[i].1);
        }
        i = i + 1;
    }
    None
}

/// The first member naming payload field `f`.
fn find_payload_field(m: &Vec<(String, JsonValue)>, f: i64) -> (r: Option<&JsonValue>)
    ensures
        opt_ref(r) == field_member(m@, payload_keys(), f as int),
{
    let mut i: usize = 0;
    assert(m@.subrange(0, m@.len() as int) =~= m@);
    while i < m.len()
        invariant
            i <= m@.len(),
            field_member(m@, payload_keys(), f as int) == field_member(
                m@.subrange(i as int, m@.len() as int),
                payload_keys(),
                f as int,
            ),
        decreases m.len() - i,
    {
        let ghost rest = m@.subrange(i as int, m@.len() as int);
        assert(rest.drop_first() =~= m@.subrange(i + 1, m@.len() as int));
        assert(rest[0] == m@[i as int]);
        if payload_field_of(m[i].0.as_str()) == f {
            return Some(&m[i].1);
        }
        i = i + 1;
    }
    None
}

/// Checks the members of an appliance object.
fn appliance_members_ok_exec(m: &Vec<(String, JsonValue)>) -> (r: bool)
    ensures
        r == appliance_members_ok(m@),
{
    let ghost keys = member_fields(m@, appliance_keys());
    let mut seen: Vec<bool> = vec![false, false, false, false, false, false, false, false, false, false];
    let mut i: usize = 0;
    while i < m.len()
        invariant
            i <= m@.len(),
            keys == member_fields(m@, appliance_keys()),
            seen@.len() == 10,
            forall|k: int| 0 <= k < i && keys[k] >= 0 ==> appliance_field_valid(keys[k], #[trigger] m@[k].1),
            forall|a: int, b: int| 0 <= a < b < i && keys[a] >= 0 ==> keys[a] != keys[b],
            forall|c: int| 0 <= c < 10 ==> (#[trigger] seen@[c] <==> exists|k: int| 0 <= k < i && keys[k] == c),
            forall|k: int| 0 <= k < m@.len() ==> -1 <= #[trigger] keys[k] < 10,
        decreases m.len() - i,
    {
        let c = appliance_field_of(m[i].0.as_str());
        assert(c == keys[i as int]);
        if c >= 0 {
            let cu = c as usize;
            if seen[cu] {
                proof {
                    let k = choose|k: int| 0 <= k < i && keys[k] == c;
                    assert(keys[k] == keys[i as int]);
                }
                return false;
            }
            if !appliance_field_valid_exec(c, &m[i].1) {
                return false;
            }
            seen.set(cu, true);
        }
        i = i + 1;
        proof {
            assert forall|cc: int| 0 <= cc < 10 implies (#[trigger] seen@[cc] <==> exists|k: int|
                0 <= k < i && keys[k] == cc) by {
                if cc == c {
                    assert(keys[i - 1] == cc);
                } else if seen@[cc] {
                    let k = choose|k: int| 0 <= k < i - 1 && keys[k] == cc;
                    assert(0 <= k < i && keys[k] == cc);
                }
            }
        }
    }
    true
}

/// Reads an appliance from a JSON value, as serde does.
pub fn decode_appliance_exec(v: &JsonValue) -> (r: Option<Appliance>)
    ensures
        r.deep_view() == decode_appliance(*v),
{
    match v {
        JsonValue::Object(m) => {
            if !appliance_members_ok_exec(m) {
                return None;
            }
            let ghost get = object_getter(m@, appliance_keys());
            let a = Appliance {
                id: str_value_exec(find_appliance_field(m, 0)),
                name: str_value_exec(find_appliance_field(m, 1)),
                emoji: str_value_exec(find_appliance_field(m, 2)),
                description: str_value_exec(find_appliance_field(m, 3)),
                featured: bool_value_exec(find_appliance_field(m, 4)),
                order: order_value_exec(find_appliance_field(m, 5)),
                location: str_value_exec(find_appliance_field(m, 6)),
                manual_url: str_value_exec(find_appliance_field(m, 7)),
                safety_note: str_value_exec(find_appliance_field(m, 8)),
                status: status_value_exec(find_appliance_field(m, 9)),
            };
            assert(a.deep_view() == appliance_from(get));
            Some(a)
        },
        JsonValue::Array(arr) => {
            if arr.len() > 10 {
                return None;
            }
            let mut i: usize = 0;
            while i < arr.len()
                invariant
                    i <= arr@.len(),
                    arr@.len() <= 10,
                    *v == JsonValue::Array(*arr),
                    forall|k: int| 0 <= k < i ==> appliance_field_valid(k, #[trigger] arr@[k]),
                decreases arr.len() - i,
            {
                if !appliance_field_valid_exec(i as i64, &arr[i]) {
                    assert(!appliance_field_valid(i as int, arr@[i as int]));
                    return None;
                }
                i = i + 1;
            }
            let ghost get = array_getter(arr@);
            let a = Appliance {
                id: str_value_exec(if 0 < arr.len() { Some(&arr[0]) } else { None }),
                name: str_value_exec(if 1 < arr.len() { Some(&arr[1]) } else { None }),
                emoji: str_value_exec(if 2 < arr.len() { Some(&arr[2]) } else { None }),
                description: str_value_exec(if 3 < arr.len() { Some(&arr[3]) } else { None }),
                featured: bool_value_exec(if 4 < arr.len() { Some(&arr[4]) } else { None }),
                order: order_value_exec(if 5 < arr.len() { Some(&arr[5]) } else { None }),
                location: str_value_exec(if 6 < arr.len() { Some(&arr[6]) } else { None }),
                manual_url: str_value_exec(if 7 < arr.len() { Some(&arr[7]) } else { None }),
                safety_note: str_value_exec(if 8 < arr.len() { Some(&arr[8]) } else { None }),
                status: status_value_exec(if 9 < arr.len() { Some(&arr[9]) } else { None }),
            };
            assert(a.deep_view() == appliance_from(get));
            Some(a)
        },
        _ => None,
    }
}

/// The appliances of a device list value (an entry serde refuses counts as
/// the default appliance; [`devices_valid`] rules such lists out first).
fn decode_devices(o: Option<&JsonValue>) -> (r: Vec<Appliance>)
    ensures
        r.deep_view() == devices_value(opt_ref(o)),
{
    let mut out: Vec<Appliance> = Vec::new();
    match o {
        Some(JsonValue::Array(a)) => {
            let mut i: usize = 0;
            while i < a.len()
                invariant
                    i <= a@.len(),
                    out.deep_view() == devices_value(Some(JsonValue::Array(*a))).subrange(0, i as int),
                decreases a.len() - i,
            {
                let d = match decode_appliance_exec(&a[i]) {
                    Some(d) => d,
                    None => {
                        let d = Appliance::default();
                        assert(d.deep_view() == appliance_from(array_getter(Seq::empty())));
                        d
                    },
                };
                let ghost before = out.deep_view();
                out.push(d);
                assert(out.deep_view() =~= before.push(d.deep_view()));
                i = i + 1;
                assert(out.deep_view() =~= devices_value(Some(JsonValue::Array(*a))).subrange(0, i as int));
            }
            assert(devices_value(Some(JsonValue::Array(*a))).subrange(0, i as int) =~= devices_value(Some(JsonValue::Array(*a))));
        },
        _ => {},
    }
    assert(out.deep_view() =~= devices_value(opt_ref(o)));
    out
}

fn devices_valid_exec(v: &JsonValue) -> (r: bool)
    ensures
        r == devices_valid(*v),
{
    match v {
        JsonValue::Array(a) => {
            let mut i: usize = 0;
            while i < a.len()
                invariant
                    i <= a@.len(),
                    *v == JsonValue::Array(*a),
                    forall|k: int| 0 <= k < i ==> (#[trigger] decode_appliance(a@[k])) is Some,
                decreases a.len() - i,
            {
                if decode_appliance_exec(&a[i]).is_none() {
                    assert(decode_appliance(a@[i as int]) is None);
                    return false;
                }
                i = i + 1;
            }
            true
        },
        _ => false,
    }
}

fn payload_field_valid_exec(f: i64, v: &JsonValue) -> (r: bool)
    ensures
        r == payload_field_valid(f as int, *v),
{
    if f == 0 {
        devices_valid_exec(v)
    } else {
        matches!(v, JsonValue::Str(_))
    }
}

/// Checks the members of a payload object.
fn payload_members_ok_exec(m: &Vec<(String, JsonValue)>) -> (r: bool)
    ensures
        r == payload_members_ok(m@),
{
    let ghost keys = member_fields(m@, payload_keys());
    let mut seen: Vec<bool> = vec![false, false];
    let mut i: usize = 0;
    while i < m.len()
        invariant
            i <= m@.len(),
            keys == member_fields(m@, payload_keys()),
            seen@.len() == 2,
            forall|k: int| 0 <= k < i && keys[k] >= 0 ==> payload_field_valid(keys[k], #[trigger] m@[k].1),
            forall|a: int, b: int| 0 <= a < b < i && keys[a] >= 0 ==> keys[a] != keys[b],
            forall|c: int| 0 <= c < 2 ==> (#[trigger] seen@[c] <==> exists|k: int| 0 <= k < i && keys[k] == c),
            forall|k: int| 0 <= k < m@.len() ==> -1 <= #[trigger] keys[k] < 2,
        decreases m.len() - i,
    {
        let c = payload_field_of(m[i].0.as_str());
        assert(c == keys[i as int]);
        if c >= 0 {
            let cu = c as usize;
            if seen[cu] {
                proof {
                    let k = choose|k: int| 0 <= k < i && keys[k] == c;
                    assert(keys[k] == keys[i as int]);
                }
                return false;
            }
            if !payload_field_valid_exec(c, &m[i].1) {
                return false;
            }
            seen.set(cu, true);
        }
        i = i + 1;
        proof {
            assert forall|cc: int| 0 <= cc < 2 implies (#[trigger] seen@[cc] <==> exists|k: int|
                0 <= k < i && keys[k] == cc) by {
                if cc == c {
                    assert(keys[i - 1] == cc);
                } else if seen@[cc] {
                    let k = choose|k: int| 0 <= k < i - 1 && keys[k] == cc;
                    assert(0 <= k < i && keys[k] == cc);
                }
            }
        }
    }
    true
}

/// Reads a payload from a JSON value, as serde does (`None` where serde
/// refuses it).
pub fn decode_payload_exec(v: &JsonValue) -> (r: Option<AppliancesPayload>)
    ensures
        r.deep_view() == decode_payload(*v),
{
    match v {
        JsonValue::Object(m) => {
            if !payload_members_ok_exec(m) {
                return None;
            }
            let p = AppliancesPayload {
                devices: decode_devices(find_payload_field(m, 0)),
                safety_notice: str_value_exec(find_payload_field(m, 1)),
            };
            assert(p.deep_view() == payload_from(object_getter(m@, payload_keys())));
            Some(p)
        },
        JsonValue::Array(arr) => {
            if arr.len() > 2 {
                return None;
            }
            let mut i: usize = 0;
            while i < arr.len()
                invariant
                    i <= arr@.len(),
                    arr@.len() <= 2,
                    *v == JsonValue::Array(*arr),
                    forall|k: int| 0 <= k < i ==> payload_field_valid(k, #[trigger] arr@[k]),
                decreases arr.len() - i,
            {
                if !payload_field_valid_exec(i as i64, &arr[i]) {
                    assert(!payload_field_valid(i as int, arr@[i as int]));
                    return None;
                }
                i = i + 1;
            }
            let p = AppliancesPayload {
                devices: decode_devices(if 0 < arr.len() { Some(&arr[0]) } else { None }),
                safety_notice: str_value_exec(if 1 < arr.len() { Some(&arr[1]) } else { None }),
            };
            assert(p.deep_view() == payload_from(array_getter(arr@)));
            Some(p)
        },
        _ => None,
    }
}

/// Wire name of a status.
pub open spec fn status_name(s: ApplianceStatus) -> Seq<char> {
    match s {
        ApplianceStatus::Active => "active"@,
        ApplianceStatus::Hidden => "hidden"@,
    }
}

/// The JSON form of an appliance (serde field names).
pub open spec fn appliance_json(a: ApplianceModel) -> JsonModel {
    JsonModel::Object(
        seq![
            ("id"@, JsonModel::Str(a.id)),
            ("name"@, JsonModel::Str(a.name)),
            ("emoji"@, JsonModel::Str(a.emoji)),
            ("description"@, JsonModel::Str(a.description)),
            ("featured"@, JsonModel::Bool(a.featured)),
            ("order"@, JsonModel::Number(int_text(a.order as int))),
            ("location"@, JsonModel::Str(a.location)),
            ("manualUrl"@, JsonModel::Str(a.manual_url)),
            ("safetyNote"@, JsonModel::Str(a.safety_note)),
            ("status"@, JsonModel::Str(status_name(a.status))),
        ],
    )
}

/// The JSON form of a payload.
pub open spec fn payload_json(p: PayloadModel) -> JsonModel {
    JsonModel::Object(
        seq![
            ("devices"@, JsonModel::Array(p.devices.map_values(|a: ApplianceModel| appliance_json(a)))),
            ("safetyNotice"@, JsonModel::Str(p.safety_notice)),
        ],
    )
}

fn status_json(s: ApplianceStatus) -> (r: JsonValue)
    ensures
        model_of(r) == JsonModel::Str(status_name(s)),
{
    match s {
        ApplianceStatus::Active => json_str("active"),
        ApplianceStatus::Hidden => json_str("hidden"),
    }
}

/// The JSON value of an appliance.
pub fn appliance_to_json(a: &Appliance) -> (r: JsonValue)
    ensures
        model_of(r) == appliance_json(a.deep_view()),
{
    let mut m: Vec<(String, JsonValue)> = Vec::new();
    proof {
        assert(members_model_of(m@) =~= Seq::<(Seq<char>, JsonModel)>::empty());
    }
    push_member(&mut m, "id", json_str(a.id.as_str()));
    push_member(&mut m, "name", json_str(a.name.as_str()));
    push_member(&mut m, "emoji", json_str(a.emoji.as_str()));
    push_member(&mut m, "description", json_str(a.description.as_str()));
    push_member(&mut m, "featured", JsonValue::Bool(a.featured));
    push_member(&mut m, "order", json_i32(a.order));
    push_member(&mut m, "location", json_str(a.location.as_str()));
    push_member(&mut m, "manualUrl", json_str(a.manual_url.as_str()));
    push_member(&mut m, "safetyNote", json_str(a.safety_note.as_str()));
    push_member(&mut m, "status", status_json(a.status));
    let ghost am = a.deep_view();
    assert(members_model_of(m@) =~= seq![
        ("id"@, JsonModel::Str(am.id)),
        ("name"@, JsonModel::Str(am.name)),
        ("emoji"@, JsonModel::Str(am.emoji)),
        ("description"@, JsonModel::Str(am.description)),
        ("featured"@, JsonModel::Bool(am.featured)),
        ("order"@, JsonModel::Number(int_text(am.order as int))),
        ("location"@, JsonModel::Str(am.location)),
        ("manualUrl"@, JsonModel::Str(am.manual_url)),
        ("safetyNote"@, JsonModel::Str(am.safety_note)),
        ("status"@, JsonModel::Str(status_name(am.status))),
    ]);
    let r = JsonValue::Object(m);
    r
}

/// The JSON value of a payload.
pub fn payload_to_json(p: &AppliancesPayload) -> (r: JsonValue)
    ensures
        model_of(r) == payload_json(p.deep_view()),
{
    let ghost d = p.devices.deep_view();
    let mut items: Vec<JsonValue> = Vec::new();
    let mut i: usize = 0;
    proof {
        assert(models_of(items@) =~= Seq::<JsonModel>::empty());
    }
    while i < p.devices.len()
        invariant
            i <= p.devices@.len(),
            d == p.devices.deep_view(),
            models_of(items@) == d.subrange(0, i as int).map_values(|a: ApplianceModel| appliance_json(a)),
        decreases p.devices.len() - i,
    {
        push_item(&mut items, appliance_to_json(&p.devices[i]));
        i = i + 1;
        assert(models_of(items@) =~= d.subrange(0, i as int).map_values(|a: ApplianceModel| appliance_json(a)));
    }
    assert(d.subrange(0, i as int) =~= d);
    let mut m: Vec<(String, JsonValue)> = Vec::new();
    proof {
        assert(members_model_of(m@) =~= Seq::<(Seq<char>, JsonModel)>::empty());
    }
    push_member(&mut m, "devices", json_array(items));
    push_member(&mut m, "safetyNotice", json_str(p.safety_notice.as_str()));
    assert(members_model_of(m@) =~= seq![
        ("devices"@, JsonModel::Array(d.map_values(|a: ApplianceModel| appliance_json(a)))),
        ("safetyNotice"@, JsonModel::Str(p.safety_notice@)),
    ]);
    let r = JsonValue::Object(m);
    r
}

impl AppliancesPayload {
    /// The payload's JSON text (as `serde_json::to_string` writes it; it
    /// cannot fail).
    pub fn to_json_string(&self) -> (r: Result<String, serde_json::Error>)
        ensures
            r matches Ok(s) && s@ == json_text(payload_json(self.deep_view())),
    {
        Ok(write_json(&payload_to_json(self)))
    }
}

} // verus!
