//! The PII scanner: pattern-based detection and replacement of sensitive
//! substrings within one string.
//!
//! UUIDs and URLs are first swapped out for numbered placeholders, so that no
//! later pattern can match inside them; then each privacy pattern, in order,
//! replaces all of its matches with `[LABEL]`; finally the placeholders are
//! swapped back.

use vstd::prelude::*;
use crate::text::{decimal, decimal_string, replace_lit, replace_literal};

verus! {

/// What `fancy_regex` finds for `pattern` in `hay`: the text of each
/// non-overlapping match from left to right, or `None` when the pattern does
/// not compile or the search stops on an error.
pub uninterp spec fn fancy_found(pattern: Seq<char>, hay: Seq<char>) -> Option<Seq<Seq<char>>>;

/// What `fancy_regex` makes of `hay` when every non-overlapping match of
/// `pattern` is replaced by `rep`, or `None` when the pattern does not compile
/// or the search stops on an error.
pub uninterp spec fn fancy_replaced(pattern: Seq<char>, hay: Seq<char>, rep: Seq<char>) -> Option<Seq<char>>;

/// Relies on `fancy_regex::Regex::new` and `Regex::find_iter`: the text of each
/// match in order, or `None` on a compile or search error.
#[verifier::external_body]
fn fancy_find_all(pattern: &str, hay: &str) -> (r: Option<Vec<String>>)
    ensures
        match fancy_found(pattern@, hay@) {
            Some(ms) => r is Some && r->0@.map_values(|m: String| m@) == ms,
            None => r is None,
        },
{
    let re = fancy_regex::Regex::new(pattern).ok()?;
    re.find_iter(hay).map(|m| m.map(|m| m.as_str().to_string())).collect::<Result<Vec<String>, _>>().ok()
}

/// Relies on `fancy_regex::Regex::new` and `Regex::try_replacen` with no limit:
/// every match replaced by `rep`, or `None` on a compile or search error.
#[verifier::external_body]
fn fancy_replace_all(pattern: &str, hay: &str, rep: &str) -> (r: Option<String>)
    ensures
        match fancy_replaced(pattern@, hay@, rep@) {
            Some(t) => r is Some && r->0@ == t,
            None => r is None,
        },
{
    let re = fancy_regex::Regex::new(pattern).ok()?;
    re.try_replacen(hay, 0, rep).ok().map(|t| t.into_owned())
}

/// UUIDs: 8-4-4-4-12 hexadecimal groups, any case, as whole words.
pub const UUID_PATTERN: &'static str = r"(?i)\b[0-9a-f]{8}-[0-9a-f]{4}-[0-9a-f]{4}-[0-9a-f]{4}-[0-9a-f]{12}\b";

/// http(s) URLs, and domain-like text with a TLD and a path that does not
/// follow an `@`.
pub const URL_PATTERN: &'static str = r"(?:https?://[A-Za-z0-9._\-]+(?:\.[A-Za-z0-9._\-]+)*(?::[0-9]+)?(?:/[A-Za-z0-9._\-/%?&=]*)?|(?<!@)[A-Za-z0-9._\-]+\.[A-Za-z]{2,}(?:/[A-Za-z0-9._\-/%?&=]+))";

/// Windows drive and UNC paths, `file:///` URIs, absolute Unix paths of two or
/// more components or a single top-level file whose name holds a letter, and
/// relative paths starting `./`, `../` or `~/`.
pub const FILEPATH_PATTERN: &'static str = r"(?:[A-Za-z]:[/\\](?:[A-Za-z0-9._\-\s%]+[/\\])*[A-Za-z0-9._\-\s%]+(?:\.[A-Za-z0-9]{1,10})?|\\\\[A-Za-z0-9._\-]+\\[A-Za-z0-9._\-]+(?:\\[A-Za-z0-9._\-\s]+)*(?:\\[A-Za-z0-9._\-\s]+(?:\.[A-Za-z0-9]{1,10})?)?|file:///[A-Za-z0-9._\-\s/%:]+(?:\.[A-Za-z0-9]{1,10})?|(?:/[A-Za-z0-9._\-]+(?:/[A-Za-z0-9._\-]+)+(?:\.[A-Za-z0-9]{1,10})?|/(?=.*[A-Za-z])[A-Za-z0-9._\-]+\.[A-Za-z0-9]{1,10})|(?:\./|\.\./|~/)(?:[A-Za-z0-9._\-]+/)*[A-Za-z0-9._\-]+(?:\.[A-Za-z0-9]{1,10})?)";

/// Fødselsnummer: eleven digits, not inside a longer number.
pub const FNR_PATTERN: &'static str = r"(?<!\d)\d{11}(?!\d)";

/// Navident: one letter and six digits, not inside a longer word or number.
pub const NAVIDENT_PATTERN: &'static str = r"(?<![a-zA-Z0-9])[a-zA-Z]\d{6}(?!\d)";

/// E-mail addresses.
pub const EMAIL_PATTERN: &'static str = r"[A-Za-z0-9._%+-]+@[A-Za-z0-9.-]+\.[A-Za-z]{2,}";

/// Dotted IPv4 addresses, not inside a longer number.
pub const IP_PATTERN: &'static str = r"(?<!\d)\d{1,3}\.\d{1,3}\.\d{1,3}\.\d{1,3}(?!\d)";

/// Phone numbers: eight digits starting with 2 to 9, not inside a longer number.
pub const PHONE_PATTERN: &'static str = r"(?<!\d)[2-9]\d{7}(?!\d)";

/// Possible names: two or three capitalised words.
pub const NAME_PATTERN: &'static str = r"\b[A-ZÆØÅ][a-zæøå]{1,20}\s[A-ZÆØÅ][a-zæøå]{1,20}(?:\s[A-ZÆØÅ][a-zæøå]{1,20})?\b";

/// Possible addresses: four digits followed by capitalised words.
pub const ADDRESS_PATTERN: &'static str = r"\b\d{4}\s[A-ZÆØÅ][A-ZÆØÅa-zæøå]+(?:\s[A-ZÆØÅa-zæøå]+)*\b";

/// "hemmelig adresse" in any case, also URL-encoded.
pub const SECRET_ADDRESS_PATTERN: &'static str = r"(?i)hemmelig(?:%20|\s+)(?:20\s*%(?:%20|\s+))?adresse";

/// Bank account numbers: 4.2.5 digits, dots optional, not inside a longer number.
pub const ACCOUNT_PATTERN: &'static str = r"(?<!\d)\d{4}\.?\d{2}\.?\d{5}(?!\d)";

/// Organisation numbers: nine digits, not inside a longer number.
pub const ORG_NUMBER_PATTERN: &'static str = r"(?<!\d)\d{9}(?!\d)";

/// License plates: two capitals and five digits.
pub const LICENSE_PLATE_PATTERN: &'static str = r"(?<![a-zA-Z])[A-Z]{2}\s?\d{5}(?!\d)";

/// Search terms in URL query parameters.
pub const SEARCH_PATTERN: &'static str = r"[?&](?:q|query|search|k|ord)=[^&]+";

/// The label of the file-path pattern, excluded when scanning URL paths.
pub const FILEPATH_LABEL: &'static str = "PROXY-FILEPATH";

/// The number of privacy patterns.
pub const PATTERN_COUNT: usize = 13;

/// A named privacy pattern: its name, the label its matches are replaced
/// with, and its matcher.
#[derive(Debug, Clone, Copy, PartialEq, Eq)]
pub struct PrivacyPattern {
    pub name: &'static str,
    pub redaction_label: &'static str,
    pub regex: &'static str,
}

/// The privacy patterns in the order they are applied.
pub open spec fn pattern_spec(i: int) -> PrivacyPattern {
    if i == 0 {
        PrivacyPattern { name: "Filsti", redaction_label: FILEPATH_LABEL, regex: FILEPATH_PATTERN }
    } else if i == 1 {
        PrivacyPattern { name: "Fødselsnummer", redaction_label: "PROXY-FNR", regex: FNR_PATTERN }
    } else if i == 2 {
        PrivacyPattern { name: "Navident", redaction_label: "PROXY-NAVIDENT", regex: NAVIDENT_PATTERN }
    } else if i == 3 {
        PrivacyPattern { name: "E-post", redaction_label: "PROXY-EMAIL", regex: EMAIL_PATTERN }
    } else if i == 4 {
        PrivacyPattern { name: "IP-adresse", redaction_label: "PROXY-IP", regex: IP_PATTERN }
    } else if i == 5 {
        PrivacyPattern { name: "Telefonnummer", redaction_label: "PROXY-PHONE", regex: PHONE_PATTERN }
    } else if i == 6 {
        PrivacyPattern { name: "Mulig navn", redaction_label: "PROXY-NAME", regex: NAME_PATTERN }
    } else if i == 7 {
        PrivacyPattern { name: "Mulig adresse", redaction_label: "PROXY-ADDRESS", regex: ADDRESS_PATTERN }
    } else if i == 8 {
        PrivacyPattern { name: "Hemmelig adresse", redaction_label: "PROXY-SECRET-ADDRESS", regex: SECRET_ADDRESS_PATTERN }
    } else if i == 9 {
        PrivacyPattern { name: "Kontonummer", redaction_label: "PROXY-ACCOUNT", regex: ACCOUNT_PATTERN }
    } else if i == 10 {
        PrivacyPattern { name: "Organisasjonsnummer", redaction_label: "PROXY-ORG-NUMBER", regex: ORG_NUMBER_PATTERN }
    } else if i == 11 {
        PrivacyPattern { name: "Bilnummer", redaction_label: "PROXY-LICENSE-PLATE", regex: LICENSE_PLATE_PATTERN }
    } else {
        PrivacyPattern { name: "Mulig søk", redaction_label: "PROXY-SEARCH", regex: SEARCH_PATTERN }
    }
}

/// The `i`-th privacy pattern.
pub fn privacy_pattern(i: usize) -> (r: PrivacyPattern)
    requires
        i < PATTERN_COUNT,
    ensures
        r == pattern_spec(i as int),
{
    if i == 0 {
        PrivacyPattern { name: "Filsti", redaction_label: FILEPATH_LABEL, regex: FILEPATH_PATTERN }
    } else if i == 1 {
        PrivacyPattern { name: "Fødselsnummer", redaction_label: "PROXY-FNR", regex: FNR_PATTERN }
    } else if i == 2 {
        PrivacyPattern { name: "Navident", redaction_label: "PROXY-NAVIDENT", regex: NAVIDENT_PATTERN }
    } else if i == 3 {
        PrivacyPattern { name: "E-post", redaction_label: "PROXY-EMAIL", regex: EMAIL_PATTERN }
    } else if i == 4 {
        PrivacyPattern { name: "IP-adresse", redaction_label: "PROXY-IP", regex: IP_PATTERN }
    } else if i == 5 {
        PrivacyPattern { name: "Telefonnummer", redaction_label: "PROXY-PHONE", regex: PHONE_PATTERN }
    } else if i == 6 {
        PrivacyPattern { name: "Mulig navn", redaction_label: "PROXY-NAME", regex: NAME_PATTERN }
    } else if i == 7 {
        PrivacyPattern { name: "Mulig adresse", redaction_label: "PROXY-ADDRESS", regex: ADDRESS_PATTERN }
    } else if i == 8 {
        PrivacyPattern { name: "Hemmelig adresse", redaction_label: "PROXY-SECRET-ADDRESS", regex: SECRET_ADDRESS_PATTERN }
    } else if i == 9 {
        PrivacyPattern { name: "Kontonummer", redaction_label: "PROXY-ACCOUNT", regex: ACCOUNT_PATTERN }
    } else if i == 10 {
        PrivacyPattern { name: "Organisasjonsnummer", redaction_label: "PROXY-ORG-NUMBER", regex: ORG_NUMBER_PATTERN }
    } else if i == 11 {
        PrivacyPattern { name: "Bilnummer", redaction_label: "PROXY-LICENSE-PLATE", regex: LICENSE_PLATE_PATTERN }
    } else {
        PrivacyPattern { name: "Mulig søk", redaction_label: "PROXY-SEARCH", regex: SEARCH_PATTERN }
    }
}

/// The placeholder that stands for the `i`-th preserved span of a kind.
pub open spec fn placeholder(kind: Seq<char>, i: nat) -> Seq<char> {
    "__PRESERVED_"@ + kind + "_"@ + decimal(i) + "__"@
}

/// The matches of `pattern` in `s`, none where the search failed.
pub open spec fn found_spans(pattern: Seq<char>, s: Seq<char>) -> Seq<Seq<char>> {
    match fancy_found(pattern, s) {
        Some(ms) => ms,
        None => Seq::empty(),
    }
}

/// `s` with the first `k` spans swapped for their placeholders, in order.
pub open spec fn hide_spans(s: Seq<char>, spans: Seq<Seq<char>>, kind: Seq<char>, k: nat) -> Seq<char>
    decreases k,
{
    if k == 0 {
        s
    } else {
        replace_lit(hide_spans(s, spans, kind, (k - 1) as nat), spans[k - 1], placeholder(kind, (k - 1) as nat))
    }
}

/// `s` with the placeholders of the first `k` spans swapped back, in order.
pub open spec fn restore_spans(s: Seq<char>, spans: Seq<Seq<char>>, kind: Seq<char>, k: nat) -> Seq<char>
    decreases k,
{
    if k == 0 {
        s
    } else {
        replace_lit(restore_spans(s, spans, kind, (k - 1) as nat), placeholder(kind, (k - 1) as nat), spans[k - 1])
    }
}

/// The redaction token of a label: `[LABEL]`.
pub open spec fn bracketed(label: Seq<char>) -> Seq<char> {
    "["@ + label + "]"@
}

/// `s` after the first `k` privacy patterns whose labels are not excluded.
pub open spec fn apply_patterns(s: Seq<char>, excluded: Seq<Seq<char>>, k: nat) -> Seq<char>
    decreases k,
{
    if k == 0 {
        s
    } else {
        let prev = apply_patterns(s, excluded, (k - 1) as nat);
        let pattern = pattern_spec(k - 1);
        if excluded.contains(pattern.redaction_label@) {
            prev
        } else {
            match fancy_replaced(pattern.regex@, prev, bracketed(pattern.redaction_label@)) {
                Some(t) => t,
                None => prev,
            }
        }
    }
}

/// The scanner's result on `s` with the labels in `excluded` left out.
pub open spec fn scan(s: Seq<char>, excluded: Seq<Seq<char>>) -> Seq<char> {
    let uuids = found_spans(UUID_PATTERN@, s);
    let s1 = hide_spans(s, uuids, "UUID"@, uuids.len());
    let urls = found_spans(URL_PATTERN@, s1);
    let s2 = hide_spans(s1, urls, "URL"@, urls.len());
    let s3 = apply_patterns(s2, excluded, PATTERN_COUNT as nat);
    let s4 = restore_spans(s3, uuids, "UUID"@, uuids.len());
    restore_spans(s4, urls, "URL"@, urls.len())
}

/// The placeholder for the `i`-th span of a kind.
fn make_placeholder(kind: &str, i: usize) -> (r: String)
    ensures
        r@ == placeholder(kind@, i as nat),
{
    let mut r = String::from_str("__PRESERVED_");
    r.append(kind);
    r.append("_");
    let digits = decimal_string(i);
    r.append(digits.as_str());
    r.append("__");
    r
}

/// Finds the spans of `pattern` in `s` and swaps them for placeholders.
fn conceal(s: String, pattern: &str, kind: &str) -> (r: (String, Vec<String>))
    ensures
        r.1@.map_values(|m: String| m@) == found_spans(pattern@, s@),
        r.0@ == hide_spans(s@, found_spans(pattern@, s@), kind@, found_spans(pattern@, s@).len()),
{
    let spans = match fancy_find_all(pattern, s.as_str()) {
        Some(v) => v,
        None => Vec::new(),
    };
    let ghost views = found_spans(pattern@, s@);
    assert(spans@.map_values(|m: String| m@) =~= views);
    let mut r = s;
    let mut i: usize = 0;
    while i < spans.len()
        invariant
            i <= spans@.len(),
            spans@.map_values(|m: String| m@) == views,
            r@ == hide_spans(s@, views, kind@, i as nat),
        decreases spans.len() - i,
    {
        let p = make_placeholder(kind, i);
        assert(spans@[i as int]@ == views[i as int]);
        r = replace_literal(r.as_str(), spans[i].as_str(), p.as_str());
        i = i + 1;
    }
    (r, spans)
}

/// Swaps the placeholders of `spans` back for the spans.
fn restore(s: String, spans: &Vec<String>, kind: &str) -> (r: String)
    ensures
        r@ == restore_spans(s@, spans@.map_values(|m: String| m@), kind@, spans@.len()),
{
    let ghost views = spans@.map_values(|m: String| m@);
    let mut r = s;
    let mut i: usize = 0;
    while i < spans.len()
        invariant
            i <= spans@.len(),
            views == spans@.map_values(|m: String| m@),
            r@ == restore_spans(s@, views, kind@, i as nat),
        decreases spans.len() - i,
    {
        let p = make_placeholder(kind, i);
        assert(spans@[i as int]@ == views[i as int]);
        r = replace_literal(r.as_str(), p.as_str(), spans[i].as_str());
        i = i + 1;
    }
    r
}

/// Whether `label` is one of `excluded`.
fn is_excluded(excluded: &Vec<String>, label: &str) -> (r: bool)
    ensures
        r == excluded@.map_values(|e: String| e@).contains(label@),
{
    let ghost views = excluded@.map_values(|e: String| e@);
    let mut i: usize = 0;
    while i < excluded.len()
        invariant
            i <= excluded@.len(),
            views == excluded@.map_values(|e: String| e@),
            forall|k: int| 0 <= k < i ==> views[k] != label@,
        decreases excluded.len() - i,
    {
        if crate::text::equal(excluded[i].as_str(), label) {
            assert(views[i as int] == label@);
            return true;
        }
        i = i + 1;
    }
    false
}

/// Replaces every match of every privacy pattern whose label is not in
/// `excluded` with `[LABEL]`, leaving UUIDs and URLs as they were.
pub fn redact_pii_excluding(input: &str, excluded: &Vec<String>) -> (r: String)
    ensures
        r@ == scan(input@, excluded@.map_values(|e: String| e@)),
{
    let ghost ex = excluded@.map_values(|e: String| e@);
    let (s1, uuids) = conceal(String::from_str(input), UUID_PATTERN, "UUID");
    let (s2, urls) = conceal(s1, URL_PATTERN, "URL");
    let mut s = s2;
    let mut i: usize = 0;
    while i < PATTERN_COUNT
        invariant
            i <= PATTERN_COUNT,
            ex == excluded@.map_values(|e: String| e@),
            s@ == apply_patterns(s2@, ex, i as nat),
        decreases PATTERN_COUNT - i,
    {
        let ghost prev = s@;
        let pattern = privacy_pattern(i);
        let source = pattern.regex;
        let label = pattern.redaction_label;
        if !is_excluded(excluded, label) {
            let mut token = String::from_str("[");
            token.append(label);
            token.append("]");
            assert(token@ == bracketed(label@));
            match fancy_replace_all(source, s.as_str(), token.as_str()) {
                Some(t) => {
                    s = t;
                },
                None => {},
            }
        }
        assert(prev == apply_patterns(s2@, ex, i as nat));
        assert(s@ == apply_patterns(s2@, ex, (i + 1) as nat));
        i = i + 1;
    }
    let s4 = restore(s, &uuids, "UUID");
    restore(s4, &urls, "URL")
}

/// Replaces every match of every privacy pattern with `[LABEL]`, leaving UUIDs
/// and URLs as they were.
pub fn redact_pii(input: &str) -> (r: String)
    ensures
        r@ == scan(input@, Seq::empty()),
{
    let none: Vec<String> = Vec::new();
    assert(none@.map_values(|e: String| e@) =~= Seq::<Seq<char>>::empty());
    redact_pii_excluding(input, &none)
}

} // verus!
