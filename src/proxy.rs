//! The request pipeline's decisions: where a request goes, what its origin
//! and location are, and what becomes of its body.

use vstd::prelude::*;
use crate::annotate::{annotated, with_app_info, with_key, with_location, with_prod, with_proxy_version};
use crate::cache::{get_app_info_with_longest_prefix, lookup, AppInfoView, IngressCache};
use crate::errors::UmamiProxyError;
use crate::json::{Json, JsonValue};
use crate::redactor::{redacted, traverse_and_redact};
use crate::route::{match_route, Route};
use crate::text::is_prefix;
use crate::text::{contains, ends_with, equal, is_suffix, occurs_in};
use crate::validate::{truncated, validate_and_filter, violations, violations_view, FieldViolation};

verus! {

broadcast use vstd::std_specs::vec::group_vec_axioms;

/// The upstream of one route.
#[derive(Debug)]
pub struct Config {
    pub host: String,
    pub sni: Option<String>,
    pub port: String,
    pub path: Option<String>,
}

/// Where the client is, as the load balancer reports it.
#[derive(Debug)]
pub struct Location {
    pub city: String,
    pub country: String,
}

/// The text after the last `//` separator, scanning from the left without
/// overlap, of `s` from `start`, looking at `i`.
pub open spec fn piece_after(s: Seq<char>, start: int, i: int) -> Seq<char>
    decreases s.len() - i,
{
    if i < 0 || i + 2 > s.len() {
        s.subrange(start, s.len() as int)
    } else if s[i] == '/' && s[i + 1] == '/' {
        piece_after(s, i + 2, i + 2)
    } else {
        piece_after(s, start, i + 1)
    }
}

/// The ingress host of an `Origin` header: what follows its last `//`, or the
/// whole value where it has no scheme.
pub open spec fn ingress_of_origin(origin: Seq<char>) -> Seq<char> {
    piece_after(origin, 0, 0)
}

/// The ingress host of an `Origin` header (see `ingress_of_origin`).
pub fn ingress_host_from_origin(origin: &str) -> (r: String)
    ensures
        r@ == ingress_of_origin(origin@),
{
    let n = origin.unicode_len();
    let mut start: usize = 0;
    let mut i: usize = 0;
    while n >= 2 && i <= n - 2
        invariant
            n == origin@.len(),
            start <= i <= n,
            piece_after(origin@, start as int, i as int) == ingress_of_origin(origin@),
        decreases n - i,
    {
        if origin.get_char(i) == '/' && origin.get_char(i + 1) == '/' {
            i = i + 2;
            start = i;
        } else {
            i = i + 1;
        }
    }
    String::from_str(origin.substring_char(start, n))
}

/// The host the upstream knows itself by.
pub open spec fn upstream_host_of(route: Route) -> Option<Seq<char>> {
    match route {
        Route::Umami(_) => Some("umami.nav.no"@),
        Route::Amplitude(_) | Route::AmplitudeCollect(_) => Some("api.eu.amplitude.com"@),
        Route::Unexpected(_) => None,
    }
}

/// The path a request is sent to upstream, before any configured prefix.
pub open spec fn upstream_path_of(route: Route) -> Option<Seq<char>> {
    match route {
        Route::Umami(_) => Some("/api/send"@),
        Route::Amplitude(_) | Route::AmplitudeCollect(_) => Some("/2/httpapi"@),
        Route::Unexpected(_) => None,
    }
}

/// The canonical `Host` of the route's upstream; a request on no known route
/// has no peer.
pub fn upstream_host(route: &Route) -> (r: Result<&'static str, UmamiProxyError>)
    ensures
        match upstream_host_of(*route) {
            Some(h) => r is Ok && r->Ok_0@ == h,
            None => r == Err::<&'static str, UmamiProxyError>(UmamiProxyError::NoMatchingPeer),
        },
{
    match route {
        Route::Umami(_) => Ok("umami.nav.no"),
        Route::Amplitude(_) => Ok("api.eu.amplitude.com"),
        Route::AmplitudeCollect(_) => Ok("api.eu.amplitude.com"),
        Route::Unexpected(_) => Err(UmamiProxyError::NoMatchingPeer),
    }
}

/// The URI a request is sent to upstream: the route's path behind the
/// configured prefix, with the query kept; a request on no known route has no
/// peer.
pub fn upstream_uri(route: &Route, prefix: &Option<String>, query: &Option<String>) -> (r: Result<
    String,
    UmamiProxyError,
>)
    ensures
        match upstream_path_of(*route) {
            Some(p) => r is Ok && r->Ok_0@ == (match prefix {
                Some(b) => b@,
                None => Seq::empty(),
            }) + p + (match query {
                Some(q) => "?"@ + q@,
                None => Seq::empty(),
            }),
            None => r == Err::<String, UmamiProxyError>(UmamiProxyError::NoMatchingPeer),
        },
{
    let path = match route {
        Route::Umami(_) => "/api/send",
        Route::Amplitude(_) => "/2/httpapi",
        Route::AmplitudeCollect(_) => "/2/httpapi",
        Route::Unexpected(_) => {
            return Err(UmamiProxyError::NoMatchingPeer);
        },
    };
    let mut r = match prefix {
        Some(b) => b.clone(),
        None => String::new(),
    };
    r.append(path);
    match query {
        Some(q) => {
            r.append("?");
            r.append(q.as_str());
        },
        None => {},
    }
    Ok(r)
}

/// Whether the TCP keepalive settings apply: on Amplitude routes.
pub fn wants_keepalive(route: &Route) -> (r: bool)
    ensures
        r == (route is Amplitude || route is AmplitudeCollect),
{
    match route {
        Route::Amplitude(_) | Route::AmplitudeCollect(_) => true,
        _ => false,
    }
}

/// The liveness probe, which answers on its own listener and never forwards.
#[derive(Debug)]
pub struct Probes;

/// The status the liveness probe answers a path with.
pub fn probe_status(path: &str) -> (r: u16)
    ensures
        occurs_in("is_alive"@, path@) ==> r == 200,
        !occurs_in("is_alive"@, path@) ==> r == 404,
{
    if contains(path, "is_alive") {
        200
    } else {
        404
    }
}

/// The environment a host belongs to: `dev` when it ends with one of the
/// environments, else `localhost` when it mentions localhost, else `other`.
pub fn categorize_other_environment(host: String, environments: &[String]) -> (r: String)
    ensures
        (exists|i: int| 0 <= i < environments@.len() && is_suffix(environments@[i]@, host@)) ==> r@ == "dev"@,
        !(exists|i: int| 0 <= i < environments@.len() && is_suffix(environments@[i]@, host@)) && occurs_in(
            "localhost"@,
            host@,
        ) ==> r@ == "localhost"@,
        !(exists|i: int| 0 <= i < environments@.len() && is_suffix(environments@[i]@, host@)) && !occurs_in(
            "localhost"@,
            host@,
        ) ==> r@ == "other"@,
{
    let mut i: usize = 0;
    while i < environments.len()
        invariant
            i <= environments@.len(),
            forall|k: int| 0 <= k < i ==> !is_suffix(environments@[k]@, host@),
        decreases environments.len() - i,
    {
        if ends_with(host.as_str(), environments[i].as_str()) {
            return String::from_str("dev");
        }
        i = i + 1;
    }
    if contains(host.as_str(), "localhost") {
        String::from_str("localhost")
    } else {
        String::from_str("other")
    }
}

/// The value of the first entry under `k`, if any.
pub open spec fn member(m: Seq<(Seq<char>, Json)>, k: Seq<char>) -> Option<Json>
    decreases m.len(),
{
    if m.len() == 0 {
        None
    } else if m[0].0 == k {
        Some(m[0].1)
    } else {
        member(m.subrange(1, m.len() as int), k)
    }
}

/// The value under `k` of an object; nothing for other values.
pub open spec fn field(v: Json, k: Seq<char>) -> Option<Json> {
    match v {
        Json::Object(m) => member(m, k),
        _ => None,
    }
}

/// The string under `k` of an object, if it is one.
pub open spec fn string_field(v: Json, k: Seq<char>) -> Option<Seq<char>> {
    match field(v, k) {
        Some(Json::Str(s)) => Some(s),
        _ => None,
    }
}

/// The value of the first entry under `k` (see `member`).
fn get_member<'a>(v: &'a JsonValue, k: &str) -> (r: Option<&'a JsonValue>)
    ensures
        match field(v@, k@) {
            Some(x) => r is Some && r->0@ == x,
            None => r is None,
        },
{
    match v {
        JsonValue::Object(m) => {
            let ghost entries = v@->Object_0;
            assert(entries.subrange(0, entries.len() as int) =~= entries);
            let mut i: usize = 0;
            while i < m.len()
                invariant
                    i <= m@.len(),
                    entries == v@->Object_0,
                    v@ is Object,
                    entries.len() == m@.len(),
                    member(entries, k@) == member(entries.subrange(i as int, entries.len() as int), k@),
                    forall|j: int| 0 <= j < m@.len() ==> entries[j] == (m@[j].0@, m@[j].1@),
                decreases m.len() - i,
            {
                let ghost rest = entries.subrange(i as int, entries.len() as int);
                assert(rest.subrange(1, rest.len() as int) =~= entries.subrange(i + 1, entries.len() as int));
                if equal(m[i].0.as_str(), k) {
                    return Some(&m[i].1);
                }
                i = i + 1;
            }
            None
        },
        _ => None,
    }
}

/// The string under `k` of an object (see `string_field`).
fn get_string(v: &JsonValue, k: &str) -> (r: Option<String>)
    ensures
        match string_field(v@, k@) {
            Some(s) => r is Some && r->0@ == s,
            None => r is None,
        },
{
    match get_member(v, k) {
        Some(JsonValue::Str(s)) => Some(s.clone()),
        _ => None,
    }
}

/// The Umami website hostname: `payload.hostname`, where it is a string.
pub open spec fn website_url(v: Json) -> Option<Seq<char>> {
    match field(v, "payload"@) {
        Some(p) => string_field(p, "hostname"@),
        None => None,
    }
}

/// The Umami website hostname (see `website_url`).
pub fn get_website_url(value: &JsonValue) -> (r: Option<String>)
    ensures
        match website_url(value@) {
            Some(s) => r is Some && r->0@ == s,
            None => r is None,
        },
{
    match get_member(value, "payload") {
        Some(p) => get_string(p, "hostname"),
        None => None,
    }
}

/// The platform of the first of the first `k` events that has one.
pub open spec fn first_platform_in(events: Seq<Json>, k: nat) -> Option<Seq<char>>
    decreases k,
{
    if k == 0 || k > events.len() {
        None
    } else {
        match first_platform_in(events, (k - 1) as nat) {
            Some(p) => Some(p),
            None => string_field(events[k - 1], "platform"@),
        }
    }
}

/// Once an event with a platform is among the first `k`, looking further
/// finds the same one.
proof fn lemma_first_platform_stays(events: Seq<Json>, k: nat, n: nat)
    requires
        k <= n <= events.len(),
        first_platform_in(events, k) is Some,
    ensures
        first_platform_in(events, n) == first_platform_in(events, k),
    decreases n - k,
{
    if n > k {
        lemma_first_platform_stays(events, k, (n - 1) as nat);
    }
}

/// The Amplitude platform: that of the first event under `events` that has one.
pub open spec fn platform(v: Json) -> Option<Seq<char>> {
    match field(v, "events"@) {
        Some(Json::Array(events)) => first_platform_in(events, events.len()),
        _ => None,
    }
}

/// The Amplitude platform (see `platform`).
pub fn get_platform(value: &JsonValue) -> (r: Option<String>)
    ensures
        match platform(value@) {
            Some(s) => r is Some && r->0@ == s,
            None => r is None,
        },
{
    let m = get_member(value, "events");
    match m {
        Some(JsonValue::Array(events)) => {
            let ghost evs = m->0@->Array_0;
            assert(platform(value@) == first_platform_in(evs, evs.len()));
            let mut i: usize = 0;
            while i < events.len()
                invariant
                    i <= events@.len(),
                    evs.len() == events@.len(),
                    forall|j: int| 0 <= j < events@.len() ==> evs[j] == events@[j]@,
                    first_platform_in(evs, i as nat) is None,
                    platform(value@) == first_platform_in(evs, evs.len()),
                decreases events.len() - i,
            {
                let p = get_string(&events[i], "platform");
                if p.is_some() {
                    proof {
                        assert(first_platform_in(evs, (i + 1) as nat) == string_field(evs[i as int], "platform"@));
                        lemma_first_platform_stays(evs, (i + 1) as nat, evs.len());
                    }
                    return p;
                }
                i = i + 1;
            }
            None
        },
        _ => None,
    }
}

/// Which key finds the application: the platform, else the website hostname,
/// else nothing.
pub open spec fn attribution_key(v: Json) -> Seq<char> {
    match platform(v) {
        Some(p) => p,
        None => match website_url(v) {
            Some(w) => w,
            None => Seq::empty(),
        },
    }
}

/// The fields the attribution sets on event properties.
pub open spec fn app_fields(info: AppInfoView, host: Seq<char>) -> Seq<(Seq<char>, Seq<char>)> {
    seq![("team"@, info.1), ("ingress"@, info.2), ("app"@, info.0), ("hostname"@, host)]
}

/// The fields the location sets on event properties.
pub open spec fn location_fields(city: Seq<char>, country: Seq<char>) -> Seq<(Seq<char>, Seq<char>)> {
    seq![("[Amplitude] City"@, city), ("[Amplitude] Country"@, country)]
}

/// An event on its way through the body stage, before validation: production
/// key where no platform is given, redaction, proxy version, attribution of the
/// application found under `found` (with the production key), and location.
pub open spec fn prepared(
    v: Json,
    prod_key: Seq<char>,
    version: Seq<char>,
    found: Option<AppInfoView>,
    host: Seq<char>,
    location: Option<(Seq<char>, Seq<char>)>,
) -> Json {
    let v1 = if platform(v) is None {
        with_key(v, "api_key"@, Json::Str(prod_key))
    } else {
        v
    };
    let v2 = with_key(redacted(v1, None, 0), "proxyVersion"@, Json::Str(version));
    let v3 = match found {
        Some(info) => with_key(annotated(v2, app_fields(info, host)), "api_key"@, Json::Str(prod_key)),
        None => v2,
    };
    match location {
        Some(l) => annotated(v3, location_fields(l.0, l.1)),
        None => v3,
    }
}

/// The event as it is before the application lookup.
pub open spec fn before_lookup(v: Json, prod_key: Seq<char>, version: Seq<char>) -> Json {
    let v1 = if platform(v) is None {
        with_key(v, "api_key"@, Json::Str(prod_key))
    } else {
        v
    };
    with_key(redacted(v1, None, 0), "proxyVersion"@, Json::Str(version))
}

/// Processes a parsed request body: fills in the production key where no
/// platform is given, redacts, stamps the proxy version, attributes the
/// application found in the cache under the platform or website hostname,
/// adds the location, then truncates overlong strings. Returns the document
/// to forward and the violations found.
pub fn process_event(
    event: JsonValue,
    cache: &mut IngressCache,
    prod_key: &String,
    proxy_version: &str,
    ingress_host: &String,
    location: &Option<Location>,
) -> (r: (JsonValue, Vec<FieldViolation>))
    requires
        old(cache).wf(),
    ensures
        final(cache).wf(),
        final(cache).entries() == old(cache).entries(),
        final(cache).hosts() == old(cache).hosts(),
        ({
            let staged = before_lookup(event@, prod_key@, proxy_version@);
            let found = lookup(old(cache).entries(), old(cache).hosts(), attribution_key(staged));
            let loc = match location {
                Some(l) => Some((l.city@, l.country@)),
                None => None,
            };
            let done = prepared(event@, prod_key@, proxy_version@, found, ingress_host@, loc);
            r.0@ == truncated(done) && violations_view(r.1@) == violations(done, Seq::empty())
        }),
{
    let mut json = event;
    let platform_found = get_platform(&json);
    if platform_found.is_none() {
        with_prod(&mut json, prod_key.clone());
    }
    traverse_and_redact(&mut json);
    with_proxy_version(&mut json, proxy_version);
    let key = match get_platform(&json) {
        Some(p) => p,
        None => match get_website_url(&json) {
            Some(w) => w,
            None => String::new(),
        },
    };
    let found = get_app_info_with_longest_prefix(cache, key);
    match found {
        Some(app) => {
            with_app_info(&mut json, &app, ingress_host);
            with_prod(&mut json, prod_key.clone());
        },
        None => {},
    }
    match location {
        Some(l) => with_location(&mut json, &l.city, &l.country),
        None => {},
    }
    validate_and_filter(&json)
}

#[verifier::external_type_specification]
#[verifier::external_body]
pub struct ExBots(isbot::Bots);

/// Whether a bot detector takes a user agent for a known bot.
pub uninterp spec fn bot_verdict(bots: isbot::Bots, user_agent: Seq<char>) -> bool;

/// Relies on `isbot::Bots::is_bot`: the detector's verdict on the user agent.
#[verifier::external_body]
fn bots_is_bot(bots: &isbot::Bots, user_agent: &str) -> (r: bool)
    ensures
        r == bot_verdict(*bots, user_agent@),
{
    bots.is_bot(user_agent)
}

/// The bot gate: a request is turned away when its user agent is a known bot;
/// one without a readable user agent is not.
pub fn is_bot_request(bots: &isbot::Bots, user_agent: Option<&str>) -> (r: bool)
    ensures
        user_agent is None ==> !r,
        user_agent is Some ==> r == bot_verdict(*bots, user_agent->0@),
{
    match user_agent {
        Some(ua) => bots_is_bot(bots, ua),
        None => false,
    }
}

/// `s` in lower case, as `str::to_lowercase` makes it.
pub uninterp spec fn lowercase_of(s: Seq<char>) -> Seq<char>;

/// Relies on `str::to_lowercase`: the result depends on the characters alone.
#[verifier::external_body]
fn lowercase(s: &str) -> (r: String)
    ensures
        r@ == lowercase_of(s@),
{
    s.to_lowercase()
}

/// Whether a `content-type` announces a form-encoded body, in any case.
pub fn is_form_encoded(content_type: &str) -> (r: bool)
    ensures
        r == occurs_in("application/x-www-form-urlencoded"@, lowercase_of(content_type@)),
{
    let lower = lowercase(content_type);
    contains(lower.as_str(), "application/x-www-form-urlencoded")
}

/// The name/value pairs `serde_urlencoded` decodes from a form body, in order,
/// or `None` when the body is malformed.
pub uninterp spec fn form_pairs(data: Seq<char>) -> Option<Seq<(Seq<char>, Seq<char>)>>;

/// Relies on `serde_urlencoded::from_str` into a list of pairs.
#[verifier::external_body]
fn decode_form(data: &str) -> (r: Option<Vec<(String, String)>>)
    ensures
        match form_pairs(data@) {
            Some(ps) => r is Some && r->0@.map_values(|p: (String, String)| (p.0@, p.1@)) == ps,
            None => r is None,
        },
{
    serde_urlencoded::from_str::<Vec<(String, String)>>(data).ok()
}

/// The value of the last of the first `n` pairs named `k`.
pub open spec fn last_value(ps: Seq<(Seq<char>, Seq<char>)>, k: Seq<char>, n: nat) -> Option<Seq<char>>
    decreases n,
{
    if n == 0 || n > ps.len() {
        None
    } else if ps[n - 1].0 == k {
        Some(ps[n - 1].1)
    } else {
        last_value(ps, k, (n - 1) as nat)
    }
}

/// The last value under `k` among the pairs.
fn find_last(ps: &Vec<(String, String)>, k: &str) -> (r: Option<String>)
    ensures
        match last_value(ps@.map_values(|p: (String, String)| (p.0@, p.1@)), k@, ps@.len()) {
            Some(v) => r is Some && r->0@ == v,
            None => r is None,
        },
{
    let ghost views = ps@.map_values(|p: (String, String)| (p.0@, p.1@));
    let mut found: Option<String> = None;
    let mut i: usize = 0;
    while i < ps.len()
        invariant
            i <= ps@.len(),
            views == ps@.map_values(|p: (String, String)| (p.0@, p.1@)),
            match last_value(views, k@, i as nat) {
                Some(v) => found is Some && found->0@ == v,
                None => found is None,
            },
        decreases ps.len() - i,
    {
        if equal(ps[i].0.as_str(), k) {
            found = Some(ps[i].1.clone());
        }
        i = i + 1;
    }
    found
}

/// The fields of a form-encoded body that matter: the events' JSON text
/// (field `e`) and the client (field `client`), the last of each where one is
/// repeated; a malformed body is invalid.
pub fn form_fields(data: &str) -> (r: Result<(Option<String>, Option<String>), UmamiProxyError>)
    ensures
        form_pairs(data@) is None ==> r == Err::<(Option<String>, Option<String>), UmamiProxyError>(
            UmamiProxyError::RequestContainsInvalidJson,
        ),
        form_pairs(data@) is Some ==> r is Ok && (match last_value(
            form_pairs(data@)->0,
            "e"@,
            form_pairs(data@)->0.len(),
        ) {
            Some(v) => r->Ok_0.0 is Some && r->Ok_0.0->0@ == v,
            None => r->Ok_0.0 is None,
        }) && (match last_value(form_pairs(data@)->0, "client"@, form_pairs(data@)->0.len()) {
            Some(v) => r->Ok_0.1 is Some && r->Ok_0.1->0@ == v,
            None => r->Ok_0.1 is None,
        }),
{
    match decode_form(data) {
        Some(ps) => {
            let events = find_last(&ps, "e");
            let client = find_last(&ps, "client");
            Ok((events, client))
        },
        None => Err(UmamiProxyError::RequestContainsInvalidJson),
    }
}

/// The document a form-encoded body stands for: its events under `events`
/// and its client under `api-key` (null when there is none).
pub open spec fn envelope(events: Json, client: Option<Seq<char>>) -> Json {
    Json::Object(
        seq![
            ("api-key"@, match client {
                Some(c) => Json::Str(c),
                None => Json::Null,
            }),
            ("events"@, events),
        ],
    )
}

/// Builds the document a form-encoded body stands for (see `envelope`).
pub fn form_envelope(events: JsonValue, client: Option<String>) -> (r: JsonValue)
    ensures
        r@ == envelope(events@, match client {
            Some(c) => Some(c@),
            None => None,
        }),
{
    let ghost ev = events@;
    let ghost cl = match &client {
        Some(c) => Some(c@),
        None => None,
    };
    let key = match client {
        Some(c) => JsonValue::Str(c),
        None => JsonValue::Null,
    };
    let mut m: Vec<(String, JsonValue)> = Vec::new();
    m.push((String::from_str("api-key"), key));
    m.push((String::from_str("events"), events));
    let r = JsonValue::Object(m);
    assert(m@[0].1@ == envelope(ev, cl)->Object_0[0].1);
    assert(m@[1].1@ == ev);
    assert(r@->Object_0 =~= envelope(ev, cl)->Object_0);
    r
}

/// What the pipeline knows of one request while it is handled.
#[derive(Debug)]
pub struct Ctx {
    pub request_body_buffer: Vec<u8>,
    pub location: Option<Location>,
    pub ingress: String,
    pub route: Route,
}

impl Ctx {
    /// The context of a request that just arrived: its route, the ingress
    /// host of its origin (a missing origin counts as `missing origin`), and
    /// its location where both city and country are given.
    pub fn new(path: String, origin: Option<&str>, city: Option<String>, country: Option<String>) -> (r: Ctx)
        ensures
            r.request_body_buffer@.len() == 0,
            r.ingress@ == ingress_of_origin(match origin {
                Some(o) => o@,
                None => "missing origin"@,
            }),
            r.route.path_view() == path@,
            is_prefix("/umami"@, path@) <==> r.route is Umami,
            !is_prefix("/umami"@, path@) && is_prefix("/collect"@, path@) <==> r.route is AmplitudeCollect,
            !is_prefix("/umami"@, path@) && !is_prefix("/collect"@, path@) <==> r.route is Unexpected,
            (city is Some && country is Some) <==> r.location is Some,
            r.location is Some ==> r.location->0.city@ == city->0@ && r.location->0.country@ == country->0@,
    {
        let ingress = match origin {
            Some(o) => ingress_host_from_origin(o),
            None => ingress_host_from_origin("missing origin"),
        };
        let location = match (city, country) {
            (Some(city), Some(country)) => Some(Location { city, country }),
            _ => None,
        };
        Ctx { request_body_buffer: Vec::new(), location, ingress, route: match_route(path) }
    }

    /// Keeps a chunk of the request body; the chunk is not forwarded itself.
    pub fn buffer_chunk(&mut self, chunk: &[u8])
        ensures
            final(self).request_body_buffer@ == old(self).request_body_buffer@ + chunk@,
            final(self).location == old(self).location,
            final(self).ingress == old(self).ingress,
            final(self).route == old(self).route,
    {
        let mut i: usize = 0;
        while i < chunk.len()
            invariant
                i <= chunk@.len(),
                self.request_body_buffer@ == old(self).request_body_buffer@ + chunk@.subrange(0, i as int),
                self.location == old(self).location,
                self.ingress == old(self).ingress,
                self.route == old(self).route,
            decreases chunk.len() - i,
        {
            self.request_body_buffer.push(chunk[i]);
            i = i + 1;
            assert(self.request_body_buffer@ =~= old(self).request_body_buffer@ + chunk@.subrange(0, i as int));
        }
        assert(chunk@.subrange(0, chunk@.len() as int) =~= chunk@);
    }

    /// Whether the body is ready to be processed: the stream ended and
    /// something was buffered.
    pub fn body_ready(&self, end_of_stream: bool) -> (r: bool)
        ensures
            r == (end_of_stream && self.request_body_buffer@.len() > 0),
    {
        end_of_stream && self.request_body_buffer.len() > 0
    }
}

} // verus!
