//! The JSON redactor: scans every string of an event and applies the
//! key-name rules to every object.

use vstd::prelude::*;
use crate::json::{Json, JsonValue};
use crate::privacy::{redact_pii, redact_pii_excluding, scan, FILEPATH_LABEL};
use crate::regexes::{regex_is_match, regex_matches, regex_replace_all, regex_replaced};
use crate::text::equal;

verus! {

broadcast use vstd::std_specs::vec::group_vec_axioms;

/// Strings holding a NAV or test identifier are kept as they are.
pub const KEEP_PATTERN: &'static str = r"((nav|test)[0-9]{6})";

/// Eleven digits as a word: a national ID number.
pub const SSN_PATTERN: &'static str = r"\b\d{6}\d{5}\b";

/// The fixed redaction marker.
pub const REDACTED_MARKER: &'static str = "[PROXY]";

/// What stands in for a client's IP address.
pub const REMOTE_MARKER: &'static str = "$remote";

/// How one string leaves the redactor.
#[derive(Debug, PartialEq, Eq)]
pub enum Rule {
    /// Replaced whole by `[PROXY]`.
    Redact,
    /// National ID numbers inside are replaced by `[PROXY]`.
    RedactSsns(String),
    /// Matched an allow-pattern; returned verbatim.
    Keep(String),
    /// Returned as it is (possibly already scanned).
    Original(String),
    /// Replaced by a fixed surrogate.
    Obfuscate(String),
}

/// `s` with every national ID number replaced by `[PROXY]`.
pub open spec fn ssns_redacted(s: Seq<char>) -> Seq<char> {
    match regex_replaced(SSN_PATTERN@, s, REDACTED_MARKER@) {
        Some(t) => t,
        None => s,
    }
}

impl Rule {
    /// The text a rule renders to.
    pub open spec fn printed(&self) -> Seq<char> {
        match self {
            Rule::Redact => REDACTED_MARKER@,
            Rule::RedactSsns(s) => ssns_redacted(s@),
            Rule::Keep(s) => s@,
            Rule::Original(s) => s@,
            Rule::Obfuscate(s) => s@,
        }
    }

    /// Renders the rule as the string that goes out.
    pub fn pretty_print(&self) -> (r: String)
        ensures
            r@ == self.printed(),
    {
        match self {
            Rule::RedactSsns(s) => match regex_replace_all(SSN_PATTERN, s.as_str(), REDACTED_MARKER) {
                Some(t) => t,
                None => s.clone(),
            },
            Rule::Keep(s) => s.clone(),
            Rule::Original(s) => s.clone(),
            Rule::Obfuscate(s) => s.clone(),
            Rule::Redact => String::from_str(REDACTED_MARKER),
        }
    }
}

/// The text a string becomes outside URL fields: the scanner's result where it
/// changed anything; otherwise kept, or with national ID numbers redacted.
pub open spec fn redacted_text(s: Seq<char>) -> Seq<char> {
    let pii = scan(s, Seq::empty());
    if pii != s {
        pii
    } else if regex_matches(KEEP_PATTERN@, s) == Some(true) {
        s
    } else if regex_matches(SSN_PATTERN@, s) == Some(true) {
        ssns_redacted(s)
    } else {
        s
    }
}

/// Chooses the rule for one string.
pub fn redact(s: &str) -> (r: Rule)
    ensures
        r.printed() == redacted_text(s@),
        scan(s@, Seq::empty()) != s@ ==> r is Original && r->Original_0@ == scan(s@, Seq::empty()),
        scan(s@, Seq::empty()) == s@ && regex_matches(KEEP_PATTERN@, s@) == Some(true) ==> r is Keep
            && r->Keep_0@ == s@,
        scan(s@, Seq::empty()) == s@ && regex_matches(KEEP_PATTERN@, s@) != Some(true)
            && regex_matches(SSN_PATTERN@, s@) == Some(true) ==> r is RedactSsns && r->RedactSsns_0@ == s@,
        scan(s@, Seq::empty()) == s@ && regex_matches(KEEP_PATTERN@, s@) != Some(true)
            && regex_matches(SSN_PATTERN@, s@) != Some(true) ==> r is Original && r->Original_0@ == s@,
{
    let pii = redact_pii(s);
    if !equal(pii.as_str(), s) {
        return Rule::Original(pii);
    }
    if regex_is_match(KEEP_PATTERN, s) == Some(true) {
        Rule::Keep(String::from_str(s))
    } else if regex_is_match(SSN_PATTERN, s) == Some(true) {
        Rule::RedactSsns(String::from_str(s))
    } else {
        Rule::Original(String::from_str(s))
    }
}

/// Where the query of a URL starts: the first `?`, or the end.
pub open spec fn query_start(s: Seq<char>) -> nat
    decreases s.len(),
{
    if s.len() == 0 {
        0
    } else if s[0] == '?' {
        0
    } else {
        1 + query_start(s.subrange(1, s.len() as int))
    }
}

proof fn lemma_query_start(s: Seq<char>, i: int)
    requires
        0 <= i <= s.len(),
        forall|k: int| 0 <= k < i ==> s[k] != '?',
    ensures
        query_start(s) == i + query_start(s.subrange(i, s.len() as int)),
    decreases i,
{
    if i > 0 {
        let t = s.subrange(1, s.len() as int);
        lemma_query_start(t, i - 1);
        assert(t.subrange(i - 1, t.len() as int) =~= s.subrange(i, s.len() as int));
    } else {
        assert(s.subrange(0, s.len() as int) =~= s);
    }
}

/// A URL field: the path is scanned without the file-path pattern, the query
/// (from the first `?` on) with every pattern.
pub open spec fn url_redacted(s: Seq<char>) -> Seq<char> {
    let q = query_start(s) as int;
    scan(s.subrange(0, q), seq![FILEPATH_LABEL@]) + scan(s.subrange(q, s.len() as int), Seq::empty())
}

/// The position of the first `?` in `s`, or its length.
fn find_query(s: &str) -> (r: usize)
    ensures
        r <= s@.len(),
        forall|k: int| 0 <= k < r ==> s@[k] != '?',
        r < s@.len() ==> s@[r as int] == '?',
{
    let n = s.unicode_len();
    let mut i: usize = 0;
    while i < n
        invariant
            n == s@.len(),
            i <= n,
            forall|k: int| 0 <= k < i ==> s@[k] != '?',
        decreases n - i,
    {
        if s.get_char(i) == '?' {
            return i;
        }
        i = i + 1;
    }
    i
}

/// Redacts a URL field (see `url_redacted`).
pub fn redact_url(s: &str) -> (r: String)
    ensures
        r@ == url_redacted(s@),
{
    let n = s.unicode_len();
    let i = find_query(s);
    proof {
        lemma_query_start(s@, i as int);
        let rest = s@.subrange(i as int, s@.len() as int);
        if i < n {
            assert(rest[0] == '?');
        } else {
            assert(rest.len() == 0);
        }
    }
    let mut excluded: Vec<String> = Vec::new();
    excluded.push(String::from_str(FILEPATH_LABEL));
    assert(excluded@.map_values(|e: String| e@) =~= seq![FILEPATH_LABEL@]);
    let mut r = redact_pii_excluding(s.substring_char(0, i), &excluded);
    let query = redact_pii(s.substring_char(i, n));
    r.append(query.as_str());
    r
}

/// Keys whose values are never touched.
pub open spec fn is_preserved_key(k: Seq<char>) -> bool {
    k == "api_key"@ || k == "device_id"@ || k == "website"@
}

/// Advertising-identifier keys, whose values are wiped.
pub open spec fn is_advertising_key(k: Seq<char>) -> bool {
    k == "idfa"@ || k == "idfv"@ || k == "adid"@ || k == "gaid"@ || k == "android_id"@ || k == "aaid"@
        || k == "msai"@ || k == "advertising_id"@
}

/// The depth of a child; depths beyond 2 are all alike, so they stop at 3.
pub open spec fn next_depth(depth: nat) -> nat {
    if depth >= 2 {
        3
    } else {
        depth + 1
    }
}

/// A string leaf with the key it stands under (strings in arrays have none):
/// at depth 2 under `url` or `referrer` it is a URL field.
pub open spec fn leaf_redacted(s: Seq<char>, key: Option<Seq<char>>, depth: nat) -> Seq<char> {
    if depth == 2 && key is Some && (key->0 == "url"@ || key->0 == "referrer"@) {
        url_redacted(s)
    } else {
        redacted_text(s)
    }
}

/// The redactor's result on `v`, found under `key` at `depth`.
pub open spec fn redacted(v: Json, key: Option<Seq<char>>, depth: nat) -> Json
    decreases v,
{
    match v {
        Json::Str(s) => Json::Str(leaf_redacted(s, key, depth)),
        Json::Array(a) => Json::Array(
            Seq::new(
                a.len(),
                |i: int| if 0 <= i < a.len() { redacted(a[i], None, next_depth(depth)) } else { Json::Null },
            ),
        ),
        Json::Object(m) => Json::Object(redacted_entries(m, depth)),
        _ => v,
    }
}

/// The key a member's value is scanned under: its own for a string, none
/// for a container.
pub open spec fn member_key(k: Seq<char>, v: Json) -> Option<Seq<char>> {
    if v is Str {
        Some(k)
    } else {
        None
    }
}

/// The value under key `k` after the key-name rules, where `scanned` is
/// what the value becomes when no key rule applies.
pub open spec fn member_rule(k: Seq<char>, v: Json, scanned: Json) -> Json {
    if is_preserved_key(k) {
        v
    } else if k == "ip"@ {
        Json::Str(REMOTE_MARKER@)
    } else if is_advertising_key(k) {
        Json::Str(REDACTED_MARKER@)
    } else {
        scanned
    }
}

/// The entries of an object at `depth` after redaction: `ip_address` entries
/// are dropped, the others keep their place.
pub open spec fn redacted_entries(m: Seq<(Seq<char>, Json)>, depth: nat) -> Seq<(Seq<char>, Json)>
    decreases m,
{
    if m.len() == 0 {
        Seq::empty()
    } else {
        let rest = redacted_entries(m.subrange(1, m.len() as int), depth);
        if m[0].0 == "ip_address"@ {
            rest
        } else {
            let scanned = redacted(m[0].1, member_key(m[0].0, m[0].1), next_depth(depth));
            seq![(m[0].0, member_rule(m[0].0, m[0].1, scanned))] + rest
        }
    }
}

/// The entries of an object as mathematics sees them.
pub open spec fn entries_view(m: Seq<(String, JsonValue)>) -> Seq<(Seq<char>, Json)> {
    Seq::new(m.len(), |i: int| (m[i].0@, m[i].1@))
}

fn next_depth_exec(depth: usize) -> (r: usize)
    ensures
        r == next_depth(depth as nat),
{
    if depth >= 2 {
        3
    } else {
        depth + 1
    }
}

fn is_preserved_key_exec(k: &str) -> (r: bool)
    ensures
        r == is_preserved_key(k@),
{
    equal(k, "api_key") || equal(k, "device_id") || equal(k, "website")
}

fn is_advertising_key_exec(k: &str) -> (r: bool)
    ensures
        r == is_advertising_key(k@),
{
    equal(k, "idfa") || equal(k, "idfv") || equal(k, "adid") || equal(k, "gaid") || equal(k, "android_id")
        || equal(k, "aaid") || equal(k, "msai") || equal(k, "advertising_id")
}

/// Redacts one string leaf.
fn redact_leaf(s: &str, key: Option<&str>, depth: usize) -> (r: String)
    ensures
        r@ == leaf_redacted(s@, match key { Some(k) => Some(k@), None => None }, depth as nat),
{
    let url_field = match key {
        Some(k) => depth == 2 && (equal(k, "url") || equal(k, "referrer")),
        None => false,
    };
    if url_field {
        redact_url(s)
    } else {
        redact(s).pretty_print()
    }
}

/// Redacts `v`, found under `key` at `depth`.
#[verifier::loop_isolation(false)]
fn redact_value(v: JsonValue, key: Option<&str>, depth: usize) -> (r: JsonValue)
    requires
        depth <= 3,
    ensures
        r@ == redacted(v@, match key { Some(k) => Some(k@), None => None }, depth as nat),
    decreases v,
{
    let ghost orig = v;
    match v {
        JsonValue::Str(s) => JsonValue::Str(redact_leaf(s.as_str(), key, depth)),
        JsonValue::Array(a) => {
            let nd = next_depth_exec(depth);
            let ghost items = a@;
            let mut rest = a;
            let mut out: Vec<JsonValue> = Vec::new();
            while rest.len() > 0
                invariant
                    orig is Array,
                    orig->Array_0@ == items,
                    nd == next_depth(depth as nat),
                    nd <= 3,
                    out@.len() + rest@.len() == items.len(),
                    rest@ == items.subrange(out@.len() as int, items.len() as int),
                    forall|k: int| 0 <= k < out@.len() ==> out@[k]@ == redacted(items[k]@, None, nd as nat),
                decreases rest@.len(),
            {
                let ghost at = out@.len() as int;
                let item = rest.remove(0);
                assert(item == items[at]);
                assert(decreases_to!(orig => orig->Array_0));
                assert(decreases_to!(orig->Array_0 => orig->Array_0[at]));
                let done = redact_value(item, None, nd);
                out.push(done);
                assert(rest@ =~= items.subrange(out@.len() as int, items.len() as int));
            }
            let r = JsonValue::Array(out);
            assert(r@ == redacted(orig@, match key { Some(k) => Some(k@), None => None }, depth as nat)) by {
                if let (Json::Array(x), Json::Array(y)) = (r@, redacted(orig@, match key { Some(k) => Some(k@), None => None }, depth as nat)) {
                    assert(x =~= y);
                }
            }
            r
        },
        JsonValue::Object(m) => {
            let ghost entries = m@;
            let mut rest = m;
            let mut out: Vec<(String, JsonValue)> = Vec::new();
            assert(entries.subrange(0, entries.len() as int) =~= entries);
            assert(entries_view(out@) + redacted_entries(entries_view(rest@), depth as nat) =~= redacted_entries(entries_view(entries), depth as nat));
            while rest.len() > 0
                invariant
                    orig is Object,
                    orig->Object_0@ == entries,
                    depth <= 3,
                    rest@.len() <= entries.len(),
                    rest@ == entries.subrange(entries.len() - rest@.len(), entries.len() as int),
                    entries_view(out@) + redacted_entries(entries_view(rest@), depth as nat)
                        == redacted_entries(entries_view(entries), depth as nat),
                decreases rest@.len(),
            {
                let ghost before = rest@;
                let ghost at = entries.len() - rest@.len();
                let (k, item) = rest.remove(0);
                assert(entries_view(before).subrange(1, before.len() as int) =~= entries_view(rest@));
                assert(rest@ =~= entries.subrange(entries.len() - rest@.len(), entries.len() as int));
                assert((k, item) == entries[at]);
                if equal(k.as_str(), "ip_address") {
                } else {
                    let value = if is_preserved_key_exec(k.as_str()) {
                        item
                    } else if equal(k.as_str(), "ip") {
                        JsonValue::Str(String::from_str(REMOTE_MARKER))
                    } else if is_advertising_key_exec(k.as_str()) {
                        JsonValue::Str(String::from_str(REDACTED_MARKER))
                    } else {
                        assert(decreases_to!(orig => orig->Object_0));
                        assert(decreases_to!(orig->Object_0 => orig->Object_0[at]));
                        assert(decreases_to!(orig->Object_0[at] => orig->Object_0[at].1));
                        let is_str = match &item {
                            JsonValue::Str(_) => true,
                            _ => false,
                        };
                        assert(item == orig->Object_0[at].1);
                        if is_str {
                            redact_value(item, Some(k.as_str()), next_depth_exec(depth))
                        } else {
                            redact_value(item, None, next_depth_exec(depth))
                        }
                    };
                    let ghost prev_out = out@;
                    out.push((k, value));
                    assert(entries_view(out@) =~= entries_view(prev_out) + seq![(entries_view(before)[0].0, member_rule(entries_view(before)[0].0, entries_view(before)[0].1, redacted(entries_view(before)[0].1, member_key(entries_view(before)[0].0, entries_view(before)[0].1), next_depth(depth as nat))))]);
                }
            }
            assert(entries_view(rest@) =~= Seq::<(Seq<char>, Json)>::empty());
            let r = JsonValue::Object(out);
            assert(r@ == redacted(orig@, match key { Some(k) => Some(k@), None => None }, depth as nat)) by {
                if let (Json::Object(x), Json::Object(y)) = (r@, orig@) {
                    assert(x =~= entries_view(out@));
                    assert(y =~= entries_view(entries));
                }
            }
            r
        },
        JsonValue::Null => JsonValue::Null,
        JsonValue::Bool(b) => JsonValue::Bool(b),
        JsonValue::Number(n) => JsonValue::Number(n),
    }
}

/// The entry a member of an object becomes, wherever it is not dropped.
pub open spec fn member_result(k: Seq<char>, v: Json, depth: nat) -> (Seq<char>, Json) {
    (k, member_rule(k, v, redacted(v, member_key(k, v), next_depth(depth))))
}

/// The key names of the rules are distinct from one another.
proof fn lemma_rule_keys_distinct()
    ensures
        forall|k: Seq<char>| is_preserved_key(k) ==> k != "ip_address"@ && k != "ip"@,
        forall|k: Seq<char>| is_advertising_key(k) ==> !is_preserved_key(k) && k != "ip"@ && k != "ip_address"@,
        "ip"@ != "ip_address"@,
{
    reveal_strlit("api_key");
    reveal_strlit("device_id");
    reveal_strlit("website");
    reveal_strlit("ip");
    reveal_strlit("ip_address");
    reveal_strlit("idfa");
    reveal_strlit("idfv");
    reveal_strlit("adid");
    reveal_strlit("gaid");
    reveal_strlit("android_id");
    reveal_strlit("aaid");
    reveal_strlit("msai");
    reveal_strlit("advertising_id");
    assert("ip"@.len() != "ip_address"@.len());
    assert("api_key"@[0] != "ip_address"@[0]);
    assert("device_id"@[0] != "ip_address"@[0]);
    assert("website"@[0] != "ip_address"@[0]);
    assert("api_key"@[0] != "ip"@[0]);
    assert("device_id"@[0] != "ip"@[0]);
    assert("website"@[0] != "ip"@[0]);
    assert forall|k: Seq<char>| is_advertising_key(k) implies !is_preserved_key(k) && k != "ip"@ && k != "ip_address"@ by {
        assert(k.len() != "ip"@.len());
        assert(k.len() == "ip_address"@.len() ==> k == "android_id"@ && k[0] != "ip_address"@[0]);
        assert(k.len() == "api_key"@.len() ==> k == "advertising_id"@ || k[0] != "api_key"@[0]);
        assert(k.len() == "device_id"@.len() ==> k[0] != "device_id"@[0]);
        assert(k.len() == "website"@.len() ==> k[0] != "website"@[0]);
    }
}

/// Every entry of an object other than `ip_address` reappears in the result
/// under its key, after the key-name rules.
pub proof fn lemma_member_kept(m: Seq<(Seq<char>, Json)>, depth: nat, i: int)
    requires
        0 <= i < m.len(),
        m[i].0 != "ip_address"@,
    ensures
        redacted_entries(m, depth).contains(member_result(m[i].0, m[i].1, depth)),
    decreases m.len(),
{
    let rest = m.subrange(1, m.len() as int);
    if i == 0 {
        assert(redacted_entries(m, depth)[0] == member_result(m[i].0, m[i].1, depth));
    } else {
        lemma_member_kept(rest, depth, i - 1);
        let t = redacted_entries(rest, depth);
        let j = choose|j: int| 0 <= j < t.len() && t[j] == member_result(m[i].0, m[i].1, depth);
        if m[0].0 == "ip_address"@ {
            assert(redacted_entries(m, depth)[j] == t[j]);
        } else {
            assert(redacted_entries(m, depth)[j + 1] == t[j]);
        }
    }
}

/// In an object at any depth, the values under `api_key`, `device_id` and
/// `website` come out unchanged.
pub proof fn lemma_preserved_keys_untouched(m: Seq<(Seq<char>, Json)>, depth: nat, i: int)
    requires
        0 <= i < m.len(),
        is_preserved_key(m[i].0),
    ensures
        redacted_entries(m, depth).contains((m[i].0, m[i].1)),
{
    lemma_rule_keys_distinct();
    lemma_member_kept(m, depth, i);
}

/// In an object at any depth, the value under an advertising-ID key comes out
/// as exactly `[PROXY]`.
pub proof fn lemma_advertising_ids_wiped(m: Seq<(Seq<char>, Json)>, depth: nat, i: int)
    requires
        0 <= i < m.len(),
        is_advertising_key(m[i].0),
    ensures
        redacted_entries(m, depth).contains((m[i].0, Json::Str("[PROXY]"@))),
{
    lemma_rule_keys_distinct();
    lemma_member_kept(m, depth, i);
}

/// In an object at any depth, the value under `ip` comes out as exactly
/// `$remote`.
pub proof fn lemma_ip_obfuscated(m: Seq<(Seq<char>, Json)>, depth: nat, i: int)
    requires
        0 <= i < m.len(),
        m[i].0 == "ip"@,
    ensures
        redacted_entries(m, depth).contains((m[i].0, Json::Str("$remote"@))),
{
    lemma_rule_keys_distinct();
    lemma_member_kept(m, depth, i);
}

/// In an object at any depth, no entry of the result has the key
/// `ip_address`.
pub proof fn lemma_ip_address_dropped(m: Seq<(Seq<char>, Json)>, depth: nat)
    ensures
        forall|j: int| 0 <= j < redacted_entries(m, depth).len() ==> (#[trigger] redacted_entries(m, depth)[j]).0
            != "ip_address"@,
    decreases m.len(),
{
    if m.len() > 0 {
        let rest = m.subrange(1, m.len() as int);
        lemma_ip_address_dropped(rest, depth);
        let r = redacted_entries(m, depth);
        if m[0].0 != "ip_address"@ {
            assert forall|j: int| 0 <= j < r.len() implies (#[trigger] r[j]).0 != "ip_address"@ by {
                if j > 0 {
                    assert(r[j] == redacted_entries(rest, depth)[j - 1]);
                }
            }
        }
    }
}

/// Redacts an event in place: every string is scanned, and the key-name rules
/// apply to every object at every depth.
pub fn traverse_and_redact(value: &mut JsonValue)
    ensures
        final(value)@ == redacted(old(value)@, None, 0),
{
    let mut v = JsonValue::Null;
    std::mem::swap(&mut v, value);
    *value = redact_value(v, None, 0);
}

} // verus!
