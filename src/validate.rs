//! The field-length validator: every string longer than the ceiling is
//! reported with its path and truncated.

use vstd::prelude::*;
use crate::json::{Json, JsonValue};
use crate::text::{decimal, decimal_string};

verus! {

broadcast use vstd::std_specs::vec::group_vec_axioms;

/// The longest string, in characters, that passes unchanged.
pub const MAX_FIELD_LENGTH: usize = 500;

/// What ends a truncated string.
pub const TRUNCATION_MARKER: &'static str = "TRUNCATED";

/// How many characters of an overlong string are kept before the marker.
pub const MAX_CONTENT_LENGTH: usize = 491;

/// One string over the ceiling: where it was and how long it was.
#[derive(Debug, PartialEq, Eq)]
pub struct FieldViolation {
    pub path: String,
    pub length: usize,
}

impl FieldViolation {
    /// The violation at `path` of a string of `length` characters.
    pub fn new(path: String, length: usize) -> (r: Self)
        ensures
            r.path@ == path@,
            r.length == length,
    {
        FieldViolation { path, length }
    }
}

/// Violations as mathematics sees them: (path, length).
pub open spec fn violations_view(vs: Seq<FieldViolation>) -> Seq<(Seq<char>, nat)> {
    Seq::new(vs.len(), |i: int| (vs[i].path@, vs[i].length as nat))
}

/// The path of an object member: dotted keys.
pub open spec fn key_path(path: Seq<char>, key: Seq<char>) -> Seq<char> {
    if path.len() == 0 {
        key
    } else {
        path + "."@ + key
    }
}

/// The path of an array element: a bracketed index.
pub open spec fn index_path(path: Seq<char>, i: nat) -> Seq<char> {
    path + "["@ + decimal(i) + "]"@
}

/// What one string becomes: unchanged up to the ceiling, otherwise its first
/// 491 characters followed by `TRUNCATED`.
pub open spec fn truncate_text(s: Seq<char>) -> Seq<char> {
    if s.len() > MAX_FIELD_LENGTH {
        s.subrange(0, MAX_CONTENT_LENGTH as int) + TRUNCATION_MARKER@
    } else {
        s
    }
}

/// The document after truncation: same shape, every string truncated.
pub open spec fn truncated(v: Json) -> Json
    decreases v,
{
    match v {
        Json::Str(s) => Json::Str(truncate_text(s)),
        Json::Array(a) => Json::Array(
            Seq::new(a.len(), |i: int| if 0 <= i < a.len() { truncated(a[i]) } else { Json::Null }),
        ),
        Json::Object(m) => Json::Object(
            Seq::new(
                m.len(),
                |i: int| if 0 <= i < m.len() { (m[i].0, truncated(m[i].1)) } else { (Seq::empty(), Json::Null) },
            ),
        ),
        _ => v,
    }
}

/// The violations in `v`, found at `path`, in document order.
pub open spec fn violations(v: Json, path: Seq<char>) -> Seq<(Seq<char>, nat)>
    decreases v, 0nat,
{
    match v {
        Json::Str(s) => if s.len() > MAX_FIELD_LENGTH {
            seq![(path, s.len())]
        } else {
            Seq::empty()
        },
        Json::Array(a) => item_violations(a, path, a.len()),
        Json::Object(m) => member_violations(m, path, m.len()),
        _ => Seq::empty(),
    }
}

/// The violations in the first `k` elements of an array at `path`.
pub open spec fn item_violations(a: Seq<Json>, path: Seq<char>, k: nat) -> Seq<(Seq<char>, nat)>
    decreases a, k,
{
    if k == 0 || k > a.len() {
        Seq::empty()
    } else {
        item_violations(a, path, (k - 1) as nat) + violations(a[k - 1], index_path(path, (k - 1) as nat))
    }
}

/// The violations in the first `k` members of an object at `path`.
pub open spec fn member_violations(m: Seq<(Seq<char>, Json)>, path: Seq<char>, k: nat) -> Seq<(Seq<char>, nat)>
    decreases m, k,
{
    if k == 0 || k > m.len() {
        Seq::empty()
    } else {
        member_violations(m, path, (k - 1) as nat) + violations(m[k - 1].1, key_path(path, m[k - 1].0))
    }
}

/// The path of the `i`-th element of an array at `path`.
fn index_path_exec(path: &String, i: usize) -> (r: String)
    ensures
        r@ == index_path(path@, i as nat),
{
    let mut r = path.clone();
    r.append("[");
    let d = decimal_string(i);
    r.append(d.as_str());
    r.append("]");
    r
}

/// The path of member `key` of an object at `path`.
fn key_path_exec(path: &String, key: &String) -> (r: String)
    ensures
        r@ == key_path(path@, key@),
{
    if path.unicode_len() == 0 {
        key.clone()
    } else {
        let mut r = path.clone();
        r.append(".");
        r.append(key.as_str());
        r
    }
}

/// Truncates one string (see `truncate_text`).
pub fn truncate_string(s: &String) -> (r: String)
    ensures
        r@ == truncate_text(s@),
{
    let n = s.unicode_len();
    if n > MAX_FIELD_LENGTH {
        let mut r = String::from_str(s.as_str().substring_char(0, MAX_CONTENT_LENGTH));
        r.append(TRUNCATION_MARKER);
        r
    } else {
        s.clone()
    }
}

/// Appends the violations in `value`, found at `current_path`.
#[verifier::loop_isolation(false)]
fn traverse_and_validate(value: &JsonValue, current_path: String, violations_out: &mut Vec<FieldViolation>)
    ensures
        violations_view(final(violations_out)@) == violations_view(old(violations_out)@) + violations(
            value@,
            current_path@,
        ),
    decreases value,
{
    match value {
        JsonValue::Str(s) => {
            let n = s.unicode_len();
            if n > MAX_FIELD_LENGTH {
                violations_out.push(FieldViolation::new(current_path, n));
                assert(violations_view(final(violations_out)@) =~= violations_view(old(violations_out)@) + violations(
                    value@,
                    current_path@,
                ));
            } else {
                assert(violations_view(final(violations_out)@) =~= violations_view(old(violations_out)@) + violations(
                    value@,
                    current_path@,
                ));
            }
        },
        JsonValue::Array(arr) => {
            let ghost items = value@->Array_0;
            let mut i: usize = 0;
            while i < arr.len()
                invariant
                    i <= arr@.len(),
                    violations_view(violations_out@) == violations_view(old(violations_out)@) + item_violations(
                        items,
                        current_path@,
                        i as nat,
                    ),
                decreases arr.len() - i,
            {
                assert(decreases_to!(*value => *arr));
                assert(decreases_to!(*arr => arr[i as int]));
                let path = index_path_exec(&current_path, i);
                traverse_and_validate(&arr[i], path, violations_out);
                assert(items[i as int] == arr@[i as int]@);
                assert(violations_view(violations_out@) =~= violations_view(old(violations_out)@) + item_violations(
                    items,
                    current_path@,
                    (i + 1) as nat,
                ));
                i = i + 1;
            }
        },
        JsonValue::Object(obj) => {
            let ghost members = value@->Object_0;
            let mut i: usize = 0;
            while i < obj.len()
                invariant
                    i <= obj@.len(),
                    violations_view(violations_out@) == violations_view(old(violations_out)@) + member_violations(
                        members,
                        current_path@,
                        i as nat,
                    ),
                decreases obj.len() - i,
            {
                assert(decreases_to!(*value => *obj));
                assert(decreases_to!(*obj => obj[i as int]));
                assert(decreases_to!(obj[i as int] => obj[i as int].1));
                let path = key_path_exec(&current_path, &obj[i].0);
                traverse_and_validate(&obj[i].1, path, violations_out);
                assert(members[i as int] == (obj@[i as int].0@, obj@[i as int].1@));
                assert(violations_view(violations_out@) =~= violations_view(old(violations_out)@) + member_violations(
                    members,
                    current_path@,
                    (i + 1) as nat,
                ));
                i = i + 1;
            }
        },
        _ => {
            assert(violations_view(final(violations_out)@) =~= violations_view(old(violations_out)@) + violations(
                value@,
                current_path@,
            ));
        },
    }
}

/// Checks every string against the ceiling: `Ok` when none is over it,
/// otherwise every violation in document order.
pub fn validate_field_lengths(value: &JsonValue) -> (r: Result<(), Vec<FieldViolation>>)
    ensures
        violations(value@, Seq::empty()).len() == 0 <==> r is Ok,
        r is Err ==> violations_view(r->Err_0@) == violations(value@, Seq::empty()),
{
    let mut out: Vec<FieldViolation> = Vec::new();
    traverse_and_validate(value, String::new(), &mut out);
    assert(violations_view(out@) =~= violations(value@, Seq::empty()));
    if out.len() == 0 {
        Ok(())
    } else {
        Err(out)
    }
}

/// Truncates every overlong string of `value`, found at `current_path`, and
/// appends a violation for each.
#[verifier::loop_isolation(false)]
fn truncate_long_fields(value: &JsonValue, current_path: String, violations_out: &mut Vec<FieldViolation>) -> (r:
    JsonValue)
    ensures
        r@ == truncated(value@),
        violations_view(final(violations_out)@) == violations_view(old(violations_out)@) + violations(
            value@,
            current_path@,
        ),
    decreases value,
{
    match value {
        JsonValue::Str(s) => {
            let n = s.unicode_len();
            if n > MAX_FIELD_LENGTH {
                violations_out.push(FieldViolation::new(current_path, n));
            }
            assert(violations_view(final(violations_out)@) =~= violations_view(old(violations_out)@) + violations(
                value@,
                current_path@,
            ));
            JsonValue::Str(truncate_string(s))
        },
        JsonValue::Array(arr) => {
            let ghost items = value@->Array_0;
            let mut out: Vec<JsonValue> = Vec::new();
            let mut i: usize = 0;
            while i < arr.len()
                invariant
                    i <= arr@.len(),
                    out@.len() == i,
                    forall|k: int| 0 <= k < i ==> out@[k]@ == truncated(items[k]),
                    violations_view(violations_out@) == violations_view(old(violations_out)@) + item_violations(
                        items,
                        current_path@,
                        i as nat,
                    ),
                decreases arr.len() - i,
            {
                assert(decreases_to!(*value => *arr));
                assert(decreases_to!(*arr => arr[i as int]));
                let path = index_path_exec(&current_path, i);
                let t = truncate_long_fields(&arr[i], path, violations_out);
                out.push(t);
                assert(items[i as int] == arr@[i as int]@);
                assert(violations_view(violations_out@) =~= violations_view(old(violations_out)@) + item_violations(
                    items,
                    current_path@,
                    (i + 1) as nat,
                ));
                i = i + 1;
            }
            let r = JsonValue::Array(out);
            assert(r@ == truncated(value@)) by {
                assert(r@->Array_0 =~= truncated(value@)->Array_0);
            }
            r
        },
        JsonValue::Object(obj) => {
            let ghost members = value@->Object_0;
            let mut out: Vec<(String, JsonValue)> = Vec::new();
            let mut i: usize = 0;
            while i < obj.len()
                invariant
                    i <= obj@.len(),
                    out@.len() == i,
                    forall|k: int| 0 <= k < i ==> out@[k].0@ == members[k].0 && out@[k].1@ == truncated(members[k].1),
                    violations_view(violations_out@) == violations_view(old(violations_out)@) + member_violations(
                        members,
                        current_path@,
                        i as nat,
                    ),
                decreases obj.len() - i,
            {
                assert(decreases_to!(*value => *obj));
                assert(decreases_to!(*obj => obj[i as int]));
                assert(decreases_to!(obj[i as int] => obj[i as int].1));
                let path = key_path_exec(&current_path, &obj[i].0);
                let t = truncate_long_fields(&obj[i].1, path, violations_out);
                out.push((obj[i].0.clone(), t));
                assert(members[i as int] == (obj@[i as int].0@, obj@[i as int].1@));
                assert(violations_view(violations_out@) =~= violations_view(old(violations_out)@) + member_violations(
                    members,
                    current_path@,
                    (i + 1) as nat,
                ));
                i = i + 1;
            }
            let r = JsonValue::Object(out);
            assert(r@ == truncated(value@)) by {
                assert(r@->Object_0 =~= truncated(value@)->Object_0);
            }
            r
        },
        JsonValue::Null => {
            assert(violations_view(final(violations_out)@) =~= violations_view(old(violations_out)@));
            JsonValue::Null
        },
        JsonValue::Bool(b) => {
            assert(violations_view(final(violations_out)@) =~= violations_view(old(violations_out)@));
            JsonValue::Bool(*b)
        },
        JsonValue::Number(n) => {
            assert(violations_view(final(violations_out)@) =~= violations_view(old(violations_out)@));
            JsonValue::Number(n.clone())
        },
    }
}

/// The document with every overlong string truncated, and every violation in
/// document order.
pub fn validate_and_filter(value: &JsonValue) -> (r: (JsonValue, Vec<FieldViolation>))
    ensures
        r.0@ == truncated(value@),
        violations_view(r.1@) == violations(value@, Seq::empty()),
{
    let mut out: Vec<FieldViolation> = Vec::new();
    let t = truncate_long_fields(value, String::new(), &mut out);
    assert(violations_view(out@) =~= violations(value@, Seq::empty()));
    (t, out)
}

/// One line of the error message.
pub open spec fn violation_line(v: (Seq<char>, nat)) -> Seq<char> {
    "  - '"@ + v.0 + "': "@ + decimal(v.1) + " characters\n"@
}

/// The lines for the first `k` violations.
pub open spec fn violation_lines(vs: Seq<(Seq<char>, nat)>, k: nat) -> Seq<char>
    decreases k,
{
    if k == 0 || k > vs.len() {
        Seq::empty()
    } else {
        violation_lines(vs, (k - 1) as nat) + violation_line(vs[k - 1])
    }
}

/// The human-readable report of the violations.
pub open spec fn error_message(vs: Seq<(Seq<char>, nat)>) -> Seq<char> {
    "Field length validation failed. The following "@ + decimal(vs.len()) + " field(s) exceed the "@ + decimal(
        MAX_FIELD_LENGTH as nat,
    ) + " character limit:\n"@ + violation_lines(vs, vs.len())
}

/// Formats the violations into a human-readable message: a header with their
/// number and the ceiling, then one line per violation.
pub fn format_error_message(violations: &[FieldViolation]) -> (r: String)
    ensures
        r@ == error_message(violations_view(violations@)),
{
    let ghost vs = violations_view(violations@);
    let mut message = String::from_str("Field length validation failed. The following ");
    let n = decimal_string(violations.len());
    message.append(n.as_str());
    message.append(" field(s) exceed the ");
    let limit = decimal_string(MAX_FIELD_LENGTH);
    message.append(limit.as_str());
    message.append(" character limit:\n");
    let ghost header = message@;
    let mut i: usize = 0;
    while i < violations.len()
        invariant
            i <= violations@.len(),
            vs == violations_view(violations@),
            message@ == header + violation_lines(vs, i as nat),
        decreases violations.len() - i,
    {
        message.append("  - '");
        message.append(violations[i].path.as_str());
        message.append("': ");
        let len = decimal_string(violations[i].length);
        message.append(len.as_str());
        message.append(" characters\n");
        assert(vs[i as int] == (violations@[i as int].path@, violations@[i as int].length as nat));
        assert(message@ =~= header + violation_lines(vs, (i + 1) as nat));
        i = i + 1;
    }
    message
}

/// The JSON record of one violation.
pub open spec fn violation_entry(v: (Seq<char>, nat)) -> Json {
    Json::Object(seq![("field"@, Json::Str(v.0)), ("length"@, Json::Number(decimal(v.1)))])
}

/// The JSON body sent back when fields are too long.
pub open spec fn error_response(vs: Seq<(Seq<char>, nat)>) -> Json {
    Json::Object(
        seq![
            ("error"@, Json::Str("Field length validation failed"@)),
            ("limit"@, Json::Number(decimal(MAX_FIELD_LENGTH as nat))),
            (
                "message"@,
                Json::Str(decimal(vs.len()) + " field(s) exceed the "@ + decimal(MAX_FIELD_LENGTH as nat)
                    + " character limit"@),
            ),
            (
                "violations"@,
                Json::Array(Seq::new(vs.len(), |i: int| violation_entry(vs[i]))),
            ),
        ],
    )
}

/// Builds the JSON error body for field-length violations: the error, the
/// ceiling, a summary message and each violating field with its length.
pub fn create_error_response(violations: &[FieldViolation]) -> (r: JsonValue)
    ensures
        r@ == error_response(violations_view(violations@)),
{
    let ghost vs = violations_view(violations@);
    let mut items: Vec<JsonValue> = Vec::new();
    let mut i: usize = 0;
    while i < violations.len()
        invariant
            i <= violations@.len(),
            vs == violations_view(violations@),
            items@.len() == i,
            forall|k: int| 0 <= k < i ==> (#[trigger] items@[k])@ == violation_entry(vs[k]),
        decreases violations.len() - i,
    {
        let mut entry: Vec<(String, JsonValue)> = Vec::new();
        entry.push((String::from_str("field"), JsonValue::Str(violations[i].path.clone())));
        entry.push((String::from_str("length"), JsonValue::Number(decimal_string(violations[i].length))));
        let item = JsonValue::Object(entry);
        assert(entry@[0].1@ == Json::Str(vs[i as int].0));
        assert(entry@[1].1@ == Json::Number(decimal(vs[i as int].1)));
        assert(item@->Object_0 =~= violation_entry(vs[i as int])->Object_0);
        items.push(item);
        i = i + 1;
    }
    let mut message = decimal_string(violations.len());
    message.append(" field(s) exceed the ");
    let limit = decimal_string(MAX_FIELD_LENGTH);
    message.append(limit.as_str());
    message.append(" character limit");
    let mut body: Vec<(String, JsonValue)> = Vec::new();
    body.push((String::from_str("error"), JsonValue::Str(String::from_str("Field length validation failed"))));
    body.push((String::from_str("limit"), JsonValue::Number(decimal_string(MAX_FIELD_LENGTH))));
    body.push((String::from_str("message"), JsonValue::Str(message)));
    let list = JsonValue::Array(items);
    assert(list@->Array_0 =~= Seq::new(vs.len(), |i: int| violation_entry(vs[i])));
    body.push((String::from_str("violations"), list));
    let r = JsonValue::Object(body);
    let ghost want = error_response(vs)->Object_0;
    assert(r@->Object_0 =~= want) by {
        assert(want[0].0 == "error"@);
        assert(body@[0].0@ == "error"@);
        assert(r@->Object_0[0].0 == want[0].0);
        assert(body@[0].1@ == Json::Str("Field length validation failed"@));
        assert(want[0].1 == Json::Str("Field length validation failed"@));
        assert(body@[1].1@ == Json::Number(decimal(MAX_FIELD_LENGTH as nat)));
        assert(body@[2].1@ == Json::Str(want[2].1->Str_0));
        assert(r@->Object_0[0] == want[0]);
        assert(r@->Object_0[1] == want[1]);
        assert(r@->Object_0[2] == want[2]);
        assert(r@->Object_0[3] == want[3]);
    }
    r
}

/// Every string the validator hands on has at most 500 characters; one that
/// had more ends with `TRUNCATED`, and one that had no more is unchanged.
pub proof fn lemma_truncation_bounded(s: Seq<char>)
    ensures
        truncate_text(s).len() <= MAX_FIELD_LENGTH,
        s.len() > MAX_FIELD_LENGTH ==> crate::text::is_suffix(TRUNCATION_MARKER@, truncate_text(s)),
        s.len() > MAX_FIELD_LENGTH ==> truncate_text(s).len() == MAX_FIELD_LENGTH,
        s.len() <= MAX_FIELD_LENGTH ==> truncate_text(s) == s,
{
    reveal_strlit("TRUNCATED");
    if s.len() > MAX_FIELD_LENGTH {
        let t = truncate_text(s);
        assert(t.subrange(t.len() - TRUNCATION_MARKER@.len(), t.len() as int) =~= TRUNCATION_MARKER@);
    }
}

/// Truncating a string twice is truncating it once.
pub proof fn lemma_truncation_idempotent(s: Seq<char>)
    ensures
        truncate_text(truncate_text(s)) == truncate_text(s),
{
    lemma_truncation_bounded(s);
}

/// The validator is idempotent: a document it has truncated passes through
/// it unchanged.
pub proof fn lemma_truncated_idempotent(v: Json)
    ensures
        truncated(truncated(v)) == truncated(v),
    decreases v,
{
    match v {
        Json::Str(s) => {
            lemma_truncation_idempotent(s);
        },
        Json::Array(a) => {
            let once = truncated(v)->Array_0;
            let twice = truncated(truncated(v))->Array_0;
            assert forall|i: int| 0 <= i < a.len() implies twice[i] == once[i] by {
                assert(decreases_to!(a => a[i]));
                lemma_truncated_idempotent(a[i]);
            }
            assert(twice =~= once);
        },
        Json::Object(m) => {
            let once = truncated(v)->Object_0;
            let twice = truncated(truncated(v))->Object_0;
            assert forall|i: int| 0 <= i < m.len() implies twice[i] == once[i] by {
                assert(decreases_to!(m => m[i]));
                assert(decreases_to!(m[i] => m[i].1));
                lemma_truncated_idempotent(m[i].1);
            }
            assert(twice =~= once);
        },
        _ => {},
    }
}

/// Truncation keeps the violations to report: a truncated document has none.
pub proof fn lemma_truncated_has_no_violations(v: Json, path: Seq<char>)
    ensures
        violations(truncated(v), path).len() == 0,
    decreases v, 1nat,
{
    match v {
        Json::Str(s) => {
            lemma_truncation_bounded(s);
        },
        Json::Array(a) => {
            lemma_items_clean(a, truncated(v)->Array_0, path, a.len());
        },
        Json::Object(m) => {
            lemma_members_clean(m, truncated(v)->Object_0, path, m.len());
        },
        _ => {},
    }
}

proof fn lemma_items_clean(a: Seq<Json>, t: Seq<Json>, path: Seq<char>, k: nat)
    requires
        k <= a.len(),
        t.len() == a.len(),
        forall|i: int| 0 <= i < a.len() ==> t[i] == truncated(a[i]),
    ensures
        item_violations(t, path, k).len() == 0,
    decreases a, k,
{
    if k > 0 {
        lemma_items_clean(a, t, path, (k - 1) as nat);
        assert(decreases_to!(a => a[k - 1]));
        lemma_truncated_has_no_violations(a[k - 1], index_path(path, (k - 1) as nat));
    }
}

proof fn lemma_members_clean(m: Seq<(Seq<char>, Json)>, t: Seq<(Seq<char>, Json)>, path: Seq<char>, k: nat)
    requires
        k <= m.len(),
        t.len() == m.len(),
        forall|i: int| 0 <= i < m.len() ==> t[i] == (m[i].0, truncated(m[i].1)),
    ensures
        member_violations(t, path, k).len() == 0,
    decreases m, k,
{
    if k > 0 {
        lemma_members_clean(m, t, path, (k - 1) as nat);
        assert(decreases_to!(m => m[k - 1]));
        assert(decreases_to!(m[k - 1] => m[k - 1].1));
        lemma_truncated_has_no_violations(m[k - 1].1, key_path(path, m[k - 1].0));
    }
}

} // verus!
