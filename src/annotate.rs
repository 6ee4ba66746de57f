//! The annotator: adds proxy identification, location, application
//! attribution and the production API key to an event.

use vstd::prelude::*;
use crate::cache::AppInfo;
use crate::json::{Json, JsonValue};
use crate::text::equal;

verus! {

broadcast use vstd::std_specs::vec::group_vec_axioms;

/// The first position of key `k` in the entries `m`, where there is one.
pub open spec fn first_key_at(m: Seq<(Seq<char>, Json)>, k: Seq<char>, i: int) -> bool {
    0 <= i < m.len() && m[i].0 == k && forall|j: int| 0 <= j < i ==> m[j].0 != k
}

/// The entries `m` with key `k` set to `v`: the first entry under `k` gets the
/// new value in place; without one, the entry is appended.
pub open spec fn insert_entry(m: Seq<(Seq<char>, Json)>, k: Seq<char>, v: Json) -> Seq<(Seq<char>, Json)> {
    if exists|i: int| first_key_at(m, k, i) {
        m.update(choose|i: int| first_key_at(m, k, i), (k, v))
    } else {
        m.push((k, v))
    }
}

/// The entries `m` with each of the first `n` fields set as a string, in order.
pub open spec fn insert_fields(m: Seq<(Seq<char>, Json)>, fields: Seq<(Seq<char>, Seq<char>)>, n: nat) -> Seq<
    (Seq<char>, Json),
>
    decreases n,
{
    if n == 0 || n > fields.len() {
        m
    } else {
        insert_entry(insert_fields(m, fields, (n - 1) as nat), fields[n - 1].0, Json::Str(fields[n - 1].1))
    }
}

/// `v` with `k` set to `value` where `v` is an object; anything else is left.
pub open spec fn with_key(v: Json, k: Seq<char>, value: Json) -> Json {
    match v {
        Json::Object(m) => Json::Object(insert_entry(m, k, value)),
        _ => v,
    }
}

/// `v` with the fields set on every `event_properties` object that is a
/// member of an object reachable from `v` through arrays.
pub open spec fn annotated(v: Json, fields: Seq<(Seq<char>, Seq<char>)>) -> Json
    decreases v,
{
    match v {
        Json::Array(a) => Json::Array(
            Seq::new(a.len(), |i: int| if 0 <= i < a.len() { annotated(a[i], fields) } else { Json::Null }),
        ),
        Json::Object(m) => Json::Object(
            Seq::new(
                m.len(),
                |i: int|
                    if 0 <= i < m.len() && m[i].0 == "event_properties"@ && m[i].1 is Object {
                        (m[i].0, Json::Object(insert_fields(m[i].1->Object_0, fields, fields.len())))
                    } else {
                        m[i]
                    },
            ),
        ),
        _ => v,
    }
}

/// The entries of an object as mathematics sees them.
pub open spec fn entries_of(m: Seq<(String, JsonValue)>) -> Seq<(Seq<char>, Json)> {
    Seq::new(m.len(), |i: int| (m[i].0@, m[i].1@))
}

/// Sets key `k` to `v` in the entries `m` (see `insert_entry`).
pub fn insert_member(m: &mut Vec<(String, JsonValue)>, k: String, v: JsonValue)
    ensures
        entries_of(final(m)@) == insert_entry(entries_of(old(m)@), k@, v@),
{
    let ghost before = entries_of(m@);
    let mut i: usize = 0;
    while i < m.len()
        invariant
            i <= m@.len(),
            before == entries_of(m@),
            m@ == old(m)@,
            forall|j: int| 0 <= j < i ==> m@[j].0@ != k@,
        decreases m.len() - i,
    {
        if equal(m[i].0.as_str(), k.as_str()) {
            assert(first_key_at(before, k@, i as int));
            assert(forall|j: int| first_key_at(before, k@, j) ==> j == i);
            assert((choose|j: int| first_key_at(before, k@, j)) == i);
            let ghost kv = k@;
            let ghost vv = v@;
            m.remove(i);
            m.insert(i, (k, v));
            assert(entries_of(m@) =~= before.update(i as int, (kv, vv)));
            return;
        }
        i = i + 1;
    }
    assert(!exists|j: int| first_key_at(before, k@, j));
    let ghost kv = k@;
    let ghost vv = v@;
    m.push((k, v));
    assert(entries_of(m@) =~= before.push((kv, vv)));
}

/// Sets top-level key `proxyVersion` to the proxy's version.
pub fn with_proxy_version(event: &mut JsonValue, proxy_version: &str)
    ensures
        final(event)@ == with_key(old(event)@, "proxyVersion"@, Json::Str(proxy_version@)),
{
    if let JsonValue::Object(map) = event {
        let ghost before = entries_of(map@);
        assert(old(event)@->Object_0 =~= before);
        insert_member(map, String::from_str("proxyVersion"), JsonValue::Str(String::from_str(proxy_version)));
        assert(final(event)@->Object_0 =~= entries_of(map@));
    }
}

/// Sets top-level key `api_key` to the production key.
pub fn with_prod(v: &mut JsonValue, amplitude_api_key_prod: String)
    ensures
        final(v)@ == with_key(old(v)@, "api_key"@, Json::Str(amplitude_api_key_prod@)),
{
    if let JsonValue::Object(obj) = v {
        let ghost before = entries_of(obj@);
        assert(old(v)@->Object_0 =~= before);
        insert_member(obj, String::from_str("api_key"), JsonValue::Str(amplitude_api_key_prod));
        assert(final(v)@->Object_0 =~= entries_of(obj@));
    }
}

/// Sets each field, as a string, in order.
fn insert_all(m: &mut Vec<(String, JsonValue)>, fields: &Vec<(String, String)>)
    ensures
        entries_of(final(m)@) == insert_fields(
            entries_of(old(m)@),
            fields@.map_values(|f: (String, String)| (f.0@, f.1@)),
            fields@.len(),
        ),
{
    let ghost fs = fields@.map_values(|f: (String, String)| (f.0@, f.1@));
    let ghost start = entries_of(m@);
    let mut i: usize = 0;
    while i < fields.len()
        invariant
            i <= fields@.len(),
            fs == fields@.map_values(|f: (String, String)| (f.0@, f.1@)),
            start == entries_of(old(m)@),
            entries_of(m@) == insert_fields(start, fs, i as nat),
        decreases fields.len() - i,
    {
        insert_member(m, fields[i].0.clone(), JsonValue::Str(fields[i].1.clone()));
        i = i + 1;
    }
}

/// Sets the fields on every `event_properties` object (see `annotated`).
#[verifier::loop_isolation(false)]
fn annotate_value(v: JsonValue, fields: &Vec<(String, String)>) -> (r: JsonValue)
    ensures
        r@ == annotated(v@, fields@.map_values(|f: (String, String)| (f.0@, f.1@))),
    decreases v,
{
    let ghost fs = fields@.map_values(|f: (String, String)| (f.0@, f.1@));
    let ghost orig = v;
    match v {
        JsonValue::Array(a) => {
            let ghost items = a@;
            let mut rest = a;
            let mut out: Vec<JsonValue> = Vec::new();
            while rest.len() > 0
                invariant
                    orig is Array,
                    orig->Array_0@ == items,
                    out@.len() + rest@.len() == items.len(),
                    rest@ == items.subrange(out@.len() as int, items.len() as int),
                    forall|k: int| 0 <= k < out@.len() ==> out@[k]@ == annotated(items[k]@, fs),
                decreases rest@.len(),
            {
                let ghost at = out@.len() as int;
                let item = rest.remove(0);
                assert(item == items[at]);
                assert(decreases_to!(orig => orig->Array_0));
                assert(decreases_to!(orig->Array_0 => orig->Array_0[at]));
                let done = annotate_value(item, fields);
                out.push(done);
                assert(rest@ =~= items.subrange(out@.len() as int, items.len() as int));
            }
            let r = JsonValue::Array(out);
            assert(r@->Array_0 =~= annotated(orig@, fs)->Array_0);
            r
        },
        JsonValue::Object(m) => {
            let ghost entries = m@;
            let mut obj = m;
            let mut i: usize = 0;
            while i < obj.len()
                invariant
                    orig is Object,
                    orig->Object_0@ == entries,
                    obj@.len() == entries.len(),
                    i <= obj@.len(),
                    forall|k: int| 0 <= k < i ==> (obj@[k].0@, obj@[k].1@) == annotated(orig@, fs)->Object_0[k],
                    forall|k: int| i <= k < obj@.len() ==> obj@[k] == entries[k],
                decreases obj.len() - i,
            {
                let is_target = equal(obj[i].0.as_str(), "event_properties") && match &obj[i].1 {
                    JsonValue::Object(_) => true,
                    _ => false,
                };
                if is_target {
                    let (k, inner) = obj.remove(i);
                    let ghost inner_before = inner@;
                    if let JsonValue::Object(mut im) = inner {
                        assert(inner_before->Object_0 =~= entries_of(im@));
                        insert_all(&mut im, fields);
                        let updated = JsonValue::Object(im);
                        assert(updated@->Object_0 =~= entries_of(im@));
                        obj.insert(i, (k, updated));
                    } else {
                        obj.insert(i, (k, inner));
                    }
                }
                i = i + 1;
            }
            let r = JsonValue::Object(obj);
            assert(r@->Object_0 =~= annotated(orig@, fs)->Object_0);
            r
        },
        other => other,
    }
}

/// Sets `[Amplitude] City` and `[Amplitude] Country` on every
/// `event_properties` object reachable through arrays.
pub fn with_location(value: &mut JsonValue, city: &String, country: &String)
    ensures
        final(value)@ == annotated(
            old(value)@,
            seq![("[Amplitude] City"@, city@), ("[Amplitude] Country"@, country@)],
        ),
{
    let mut fields: Vec<(String, String)> = Vec::new();
    fields.push((String::from_str("[Amplitude] City"), city.clone()));
    fields.push((String::from_str("[Amplitude] Country"), country.clone()));
    assert(fields@.map_values(|f: (String, String)| (f.0@, f.1@)) =~= seq![
        ("[Amplitude] City"@, city@),
        ("[Amplitude] Country"@, country@),
    ]);
    let mut v = JsonValue::Null;
    std::mem::swap(&mut v, value);
    *value = annotate_value(v, &fields);
}

/// Sets `team`, `ingress`, `app` and `hostname` on every `event_properties`
/// object reachable through arrays.
pub fn with_app_info(value: &mut JsonValue, app_info: &AppInfo, host: &String)
    ensures
        final(value)@ == annotated(
            old(value)@,
            seq![
                ("team"@, app_info.namespace@),
                ("ingress"@, app_info.ingress@),
                ("app"@, app_info.app_name@),
                ("hostname"@, host@),
            ],
        ),
{
    let mut fields: Vec<(String, String)> = Vec::new();
    fields.push((String::from_str("team"), app_info.namespace.clone()));
    fields.push((String::from_str("ingress"), app_info.ingress.clone()));
    fields.push((String::from_str("app"), app_info.app_name.clone()));
    fields.push((String::from_str("hostname"), host.clone()));
    assert(fields@.map_values(|f: (String, String)| (f.0@, f.1@)) =~= seq![
        ("team"@, app_info.namespace@),
        ("ingress"@, app_info.ingress@),
        ("app"@, app_info.app_name@),
        ("hostname"@, host@),
    ]);
    let mut v = JsonValue::Null;
    std::mem::swap(&mut v, value);
    *value = annotate_value(v, &fields);
}

} // verus!
