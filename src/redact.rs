//! The identifier redactor for URL paths and query pairs: identifiers and
//! long hexadecimal runs become `[redacted]`, NAV and test identifiers stay.

use vstd::prelude::*;
use crate::json::{Json, JsonValue};
use crate::regexes::{regex_is_match, regex_matches};

verus! {

broadcast use vstd::std_specs::vec::group_vec_axioms;

/// NAV and test identifiers, which are kept.
pub const KEEP_ID_PATTERN: &'static str = r"(nav|test)[0-9]{6}";

/// Runs of six or more hexadecimal digits or dashes.
pub const HEX_PATTERN: &'static str = r"[a-f0-9\-]{6,}";

/// A digit followed by eight or more identifier characters.
pub const ID_PATTERN: &'static str = r"\d[oiA-Z0-9]{8,}";

/// What replaces a redacted value.
pub const REDACTED_VALUE: &'static str = "[redacted]";

/// How one value leaves the redactor.
#[derive(Debug, PartialEq, Eq)]
pub enum RedactType {
    RedactValue,
    Keep(String),
    Original(String),
}

/// Which way a string goes, as an outline of `RedactType`.
pub enum RedactKind {
    RedactValue,
    Keep,
    Original,
}

/// The way `s` goes: kept when it holds a NAV or test identifier; redacted
/// when it holds a hexadecimal run or an identifier; otherwise as it is. A
/// pattern that does not compile counts as no match.
pub open spec fn redact_kind(s: Seq<char>) -> RedactKind {
    if regex_matches(KEEP_ID_PATTERN@, s) == Some(true) {
        RedactKind::Keep
    } else if regex_matches(HEX_PATTERN@, s) == Some(true) || regex_matches(ID_PATTERN@, s) == Some(true) {
        RedactKind::RedactValue
    } else {
        RedactKind::Original
    }
}

/// What `s` becomes.
pub open spec fn redacted_value(s: Seq<char>) -> Seq<char> {
    match redact_kind(s) {
        RedactKind::RedactValue => REDACTED_VALUE@,
        _ => s,
    }
}

impl RedactType {
    /// The text a value renders to.
    pub open spec fn printed(&self) -> Seq<char> {
        match self {
            RedactType::RedactValue => REDACTED_VALUE@,
            RedactType::Keep(s) => s@,
            RedactType::Original(s) => s@,
        }
    }

    /// `self` goes the way `redact_kind` says for `s`, carrying `s` itself.
    pub open spec fn decides(&self, s: Seq<char>) -> bool {
        match redact_kind(s) {
            RedactKind::Keep => self is Keep && self->Keep_0@ == s,
            RedactKind::RedactValue => self is RedactValue,
            RedactKind::Original => self is Original && self->Original_0@ == s,
        }
    }

    /// Renders the value as the string that goes out.
    pub fn pretty_print(&self) -> (r: String)
        ensures
            r@ == self.printed(),
    {
        match self {
            RedactType::RedactValue => String::from_str(REDACTED_VALUE),
            RedactType::Keep(s) => s.clone(),
            RedactType::Original(s) => s.clone(),
        }
    }

    /// Decides how `s` goes (see `redact_kind`).
    pub fn new(s: &str) -> (r: Self)
        ensures
            r.decides(s@),
            r.printed() == redacted_value(s@),
    {
        redact(s)
    }
}

/// Decides how `s` goes (see `redact_kind`).
pub fn redact(s: &str) -> (r: RedactType)
    ensures
        r.decides(s@),
        r.printed() == redacted_value(s@),
{
    if regex_is_match(KEEP_ID_PATTERN, s) == Some(true) {
        RedactType::Keep(String::from_str(s))
    } else if regex_is_match(HEX_PATTERN, s) == Some(true) || regex_is_match(ID_PATTERN, s) == Some(true) {
        RedactType::RedactValue
    } else {
        RedactType::Original(String::from_str(s))
    }
}

/// Renders a query pair as `key=value`.
pub fn print_query(query: &(RedactType, RedactType)) -> (r: String)
    ensures
        r@ == query.0.printed() + "="@ + query.1.printed(),
{
    let mut r = query.0.pretty_print();
    r.append("=");
    let v = query.1.pretty_print();
    r.append(v.as_str());
    r
}

/// Decides each path segment.
pub fn redact_paths(ps: &[&str]) -> (r: Vec<RedactType>)
    ensures
        r@.len() == ps@.len(),
        forall|i: int| 0 <= i < ps@.len() ==> (#[trigger] r@[i]).decides(ps@[i]@),
{
    let mut r: Vec<RedactType> = Vec::new();
    let mut i: usize = 0;
    while i < ps.len()
        invariant
            i <= ps@.len(),
            r@.len() == i,
            forall|k: int| 0 <= k < i ==> (#[trigger] r@[k]).decides(ps@[k]@),
        decreases ps.len() - i,
    {
        r.push(RedactType::new(ps[i]));
        i = i + 1;
    }
    r
}

/// Decides the key and the value of each query pair.
pub fn redact_queries(ss: &[(&str, &str)]) -> (r: Vec<(RedactType, RedactType)>)
    ensures
        r@.len() == ss@.len(),
        forall|i: int|
            0 <= i < ss@.len() ==> (#[trigger] r@[i]).0.decides(ss@[i].0@) && r@[i].1.decides(ss@[i].1@),
{
    let mut r: Vec<(RedactType, RedactType)> = Vec::new();
    let mut i: usize = 0;
    while i < ss.len()
        invariant
            i <= ss@.len(),
            r@.len() == i,
            forall|k: int| 0 <= k < i ==> (#[trigger] r@[k]).0.decides(ss@[k].0@) && r@[k].1.decides(ss@[k].1@),
        decreases ss.len() - i,
    {
        let (a, b) = ss[i];
        r.push((RedactType::new(a), RedactType::new(b)));
        i = i + 1;
    }
    r
}

/// `v` with every string replaced by what it becomes.
pub open spec fn identifiers_redacted(v: Json) -> Json
    decreases v,
{
    match v {
        Json::Str(s) => Json::Str(redacted_value(s)),
        Json::Array(a) => Json::Array(
            Seq::new(a.len(), |i: int| if 0 <= i < a.len() { identifiers_redacted(a[i]) } else { Json::Null }),
        ),
        Json::Object(m) => Json::Object(
            Seq::new(
                m.len(),
                |i: int|
                    if 0 <= i < m.len() {
                        (m[i].0, identifiers_redacted(m[i].1))
                    } else {
                        (Seq::empty(), Json::Null)
                    },
            ),
        ),
        _ => v,
    }
}

/// Redacts every string of `value` (see `redacted_value`).
#[verifier::loop_isolation(false)]
fn redact_owned(v: JsonValue) -> (r: JsonValue)
    ensures
        r@ == identifiers_redacted(v@),
    decreases v,
{
    let ghost orig = v;
    match v {
        JsonValue::Str(s) => JsonValue::Str(redact(s.as_str()).pretty_print()),
        JsonValue::Array(a) => {
            let ghost items = a@;
            let mut rest = a;
            let mut out: Vec<JsonValue> = Vec::new();
            while rest.len() > 0
                invariant
                    orig is Array,
                    orig->Array_0@ == items,
                    out@.len() + rest@.len() == items.len(),
                    rest@ == items.subrange(out@.len() as int, items.len() as int),
                    forall|k: int| 0 <= k < out@.len() ==> out@[k]@ == identifiers_redacted(items[k]@),
                decreases rest@.len(),
            {
                let ghost at = out@.len() as int;
                let item = rest.remove(0);
                assert(item == items[at]);
                assert(decreases_to!(orig => orig->Array_0));
                assert(decreases_to!(orig->Array_0 => orig->Array_0[at]));
                out.push(redact_owned(item));
                assert(rest@ =~= items.subrange(out@.len() as int, items.len() as int));
            }
            let r = JsonValue::Array(out);
            assert(r@->Array_0 =~= identifiers_redacted(orig@)->Array_0);
            r
        },
        JsonValue::Object(m) => {
            let ghost entries = m@;
            let mut rest = m;
            let mut out: Vec<(String, JsonValue)> = Vec::new();
            while rest.len() > 0
                invariant
                    orig is Object,
                    orig->Object_0@ == entries,
                    out@.len() + rest@.len() == entries.len(),
                    rest@ == entries.subrange(out@.len() as int, entries.len() as int),
                    forall|k: int|
                        0 <= k < out@.len() ==> out@[k].0@ == entries[k].0@ && out@[k].1@ == identifiers_redacted(
                            entries[k].1@,
                        ),
                decreases rest@.len(),
            {
                let ghost at = out@.len() as int;
                let (k, item) = rest.remove(0);
                assert((k, item) == entries[at]);
                assert(decreases_to!(orig => orig->Object_0));
                assert(decreases_to!(orig->Object_0 => orig->Object_0[at]));
                assert(decreases_to!(orig->Object_0[at] => orig->Object_0[at].1));
                out.push((k, redact_owned(item)));
                assert(rest@ =~= entries.subrange(out@.len() as int, entries.len() as int));
            }
            let r = JsonValue::Object(out);
            assert(r@->Object_0 =~= identifiers_redacted(orig@)->Object_0);
            r
        },
        other => other,
    }
}

/// Redacts every string of `value` in place (see `redacted_value`).
pub fn redact_json(value: &mut JsonValue)
    ensures
        final(value)@ == identifiers_redacted(old(value)@),
{
    let mut v = JsonValue::Null;
    std::mem::swap(&mut v, value);
    *value = redact_owned(v);
}

} // verus!
