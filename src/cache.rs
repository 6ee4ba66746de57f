//! The ingress cache: application metadata by ingress host, with
//! longest-prefix lookup.

use vstd::prelude::*;
use crate::text::is_prefix;

verus! {

/// What is known of one application, keyed by its ingress host.
#[derive(Debug, Clone, PartialEq)]
pub struct AppInfo {
    pub app_name: String,
    pub namespace: String,
    pub ingress: String,
    pub creation_timestamp: String,
}

impl AppInfo {
    /// The record as mathematics sees it.
    pub open spec fn view(&self) -> (Seq<char>, Seq<char>, Seq<char>, Seq<char>) {
        (self.app_name@, self.namespace@, self.ingress@, self.creation_timestamp@)
    }

    /// A copy of the record.
    pub fn duplicate(&self) -> (r: AppInfo)
        ensures
            r@ == self@,
    {
        AppInfo {
            app_name: self.app_name.clone(),
            namespace: self.namespace.clone(),
            ingress: self.ingress.clone(),
            creation_timestamp: self.creation_timestamp.clone(),
        }
    }
}

/// An `AppInfo` as mathematics sees it: name, namespace, ingress, creation time.
pub type AppInfoView = (Seq<char>, Seq<char>, Seq<char>, Seq<char>);

#[verifier::external_type_specification]
#[verifier::external_body]
#[verifier::reject_recursive_types(K)]
#[verifier::reject_recursive_types(V)]
#[verifier::reject_recursive_types(S)]
pub struct ExLruCache<K, V, S>(lru::LruCache<K, V, S>);

#[verifier::external_type_specification]
#[verifier::external_body]
pub struct ExDefaultHasher(lru::DefaultHasher);

#[verifier::external_type_specification]
#[verifier::external_body]
#[verifier::reject_recursive_types(K)]
#[verifier::reject_recursive_types(V)]
pub struct ExTrie<K, V>(ptrie::Trie<K, V>);

/// What an LRU cache holds: value by key.
pub uninterp spec fn lru_contents(c: lru::LruCache<String, AppInfo>) -> Map<Seq<char>, AppInfoView>;

/// The capacity an LRU cache was made with.
pub uninterp spec fn lru_capacity(c: lru::LruCache<String, AppInfo>) -> nat;

/// What a prefix trie holds: value by key.
pub uninterp spec fn trie_contents(t: ptrie::Trie<char, String>) -> Map<Seq<char>, Seq<char>>;

/// Relies on `lru::LruCache::new`: an empty cache of the given capacity.
#[verifier::external_body]
fn lru_new(cap: usize) -> (r: lru::LruCache<String, AppInfo>)
    requires
        cap > 0,
    ensures
        lru_contents(r).dom() == Set::<Seq<char>>::empty(),
        lru_capacity(r) == cap,
{
    lru::LruCache::new(std::num::NonZeroUsize::new(cap).unwrap())
}

/// Relies on `lru::LruCache::put`: the key gets the value; no other key gains
/// or changes a value; another key is dropped only when the key was new and the
/// cache was full.
#[verifier::external_body]
fn lru_put(c: &mut lru::LruCache<String, AppInfo>, k: String, v: AppInfo)
    ensures
        lru_capacity(*final(c)) == lru_capacity(*old(c)),
        lru_contents(*final(c)).contains_key(k@),
        lru_contents(*final(c))[k@] == v@,
        lru_contents(*final(c)).len() <= lru_capacity(*final(c)),
        forall|o: Seq<char>|
            o != k@ && #[trigger] lru_contents(*final(c)).contains_key(o) ==> lru_contents(*old(c)).contains_key(o)
                && lru_contents(*final(c))[o] == lru_contents(*old(c))[o],
        lru_contents(*old(c)).contains_key(k@) || lru_contents(*old(c)).len() < lru_capacity(*old(c)) ==> forall|
            o: Seq<char>,
        | #[trigger] lru_contents(*old(c)).contains_key(o) ==> lru_contents(*final(c)).contains_key(o),
{
    c.put(k, v);
}

/// Relies on `lru::LruCache::get`: the value under the key, if any; the
/// contents stay as they were (only the recency order moves).
#[verifier::external_body]
fn lru_get(c: &mut lru::LruCache<String, AppInfo>, k: &String) -> (r: Option<AppInfo>)
    ensures
        lru_contents(*final(c)) == lru_contents(*old(c)),
        lru_capacity(*final(c)) == lru_capacity(*old(c)),
        (r is Some) == lru_contents(*old(c)).contains_key(k@),
        r is Some ==> r->0@ == lru_contents(*old(c))[k@],
{
    c.get(k).map(|a| a.duplicate())
}

/// Relies on `lru::LruCache::len`: the number of entries.
#[verifier::external_body]
fn lru_len(c: &lru::LruCache<String, AppInfo>) -> (r: usize)
    ensures
        r == lru_contents(*c).len(),
{
    c.len()
}

/// Relies on `ptrie::Trie::new`: an empty trie.
#[verifier::external_body]
fn trie_new() -> (r: ptrie::Trie<char, String>)
    ensures
        trie_contents(r).dom() == Set::<Seq<char>>::empty(),
{
    ptrie::Trie::new()
}

/// Relies on `ptrie::Trie::insert`: the key, taken character by character,
/// gets the value.
#[verifier::external_body]
fn trie_insert(t: &mut ptrie::Trie<char, String>, key: &str, value: String)
    ensures
        trie_contents(*final(t)) == trie_contents(*old(t)).insert(key@, value@),
{
    t.insert(key.chars(), value);
}

/// Relies on `ptrie::Trie::find_longest_prefix`: the value of the longest
/// non-empty key that is a prefix of the query, if there is one.
#[verifier::external_body]
fn trie_longest_prefix(t: &ptrie::Trie<char, String>, query: &str) -> (r: Option<String>)
    ensures
        (r is Some) == (exists|k: Seq<char>| is_stored_prefix(trie_contents(*t), k, query@)),
        r is Some ==> exists|k: Seq<char>|
            is_stored_prefix(trie_contents(*t), k, query@) && trie_contents(*t)[k] == r->0@
                && forall|o: Seq<char>| is_stored_prefix(trie_contents(*t), o, query@) ==> o.len() <= k.len(),
{
    t.find_longest_prefix(query.chars())
}

/// `k` is a non-empty key of `m` and a prefix of `query`.
pub open spec fn is_stored_prefix<V>(m: Map<Seq<char>, V>, k: Seq<char>, query: Seq<char>) -> bool {
    m.contains_key(k) && k.len() > 0 && is_prefix(k, query)
}

/// How many applications the cache holds at most.
pub const CACHE_CAPACITY: usize = 2000;

/// `k` is the longest non-empty key of `m` that is a prefix of `query`.
pub open spec fn is_longest_stored_prefix<V>(m: Map<Seq<char>, V>, k: Seq<char>, query: Seq<char>) -> bool {
    is_stored_prefix(m, k, query) && forall|o: Seq<char>| is_stored_prefix(m, o, query) ==> o.len() <= k.len()
}

/// What a longest-prefix lookup finds: the record of the longest stored host
/// that is a prefix of `query`, where that host still has a record.
pub open spec fn lookup(
    entries: Map<Seq<char>, AppInfoView>,
    hosts: Map<Seq<char>, Seq<char>>,
    query: Seq<char>,
) -> Option<AppInfoView> {
    if exists|k: Seq<char>| is_longest_stored_prefix(hosts, k, query) {
        let k = choose|k: Seq<char>| is_longest_stored_prefix(hosts, k, query);
        if entries.contains_key(k) {
            Some(entries[k])
        } else {
            None
        }
    } else {
        None
    }
}

/// Two prefixes of one sequence with the same length are the same.
proof fn lemma_prefix_unique(a: Seq<char>, b: Seq<char>, q: Seq<char>)
    requires
        is_prefix(a, q),
        is_prefix(b, q),
        a.len() == b.len(),
    ensures
        a == b,
{
    assert(a =~= b);
}

/// Application records by ingress host (bounded, least recently used leaves
/// first), and the hosts in a prefix trie for longest-prefix lookup.
pub struct IngressCache {
    lru: lru::LruCache<String, AppInfo>,
    trie: ptrie::Trie<char, String>,
}

/// The cache after `key` was inserted with a record `value`: the trie gains the
/// host; the host gets the record; no other host gains or changes a record;
/// another is dropped only when the host was new and the cache full.
pub open spec fn inserted(before: IngressCache, after: IngressCache, key: Seq<char>, value: AppInfoView) -> bool {
    &&& after.hosts() == before.hosts().insert(key, key)
    &&& after.entries().contains_key(key)
    &&& after.entries()[key] == value
    &&& forall|o: Seq<char>|
        o != key && #[trigger] after.entries().contains_key(o) ==> before.entries().contains_key(o)
            && after.entries()[o] == before.entries()[o]
    &&& before.entries().contains_key(key) || before.entries().len() < CACHE_CAPACITY ==> forall|o: Seq<char>|
        #[trigger] before.entries().contains_key(o) ==> after.entries().contains_key(o)
}

impl IngressCache {
    /// The records by host.
    pub closed spec fn entries(&self) -> Map<Seq<char>, AppInfoView> {
        lru_contents(self.lru)
    }

    /// The hosts in the trie, each stored under itself.
    pub closed spec fn hosts(&self) -> Map<Seq<char>, Seq<char>> {
        trie_contents(self.trie)
    }

    /// The cache has its fixed capacity and the trie maps each host to itself.
    pub closed spec fn wf(&self) -> bool {
        &&& lru_capacity(self.lru) == CACHE_CAPACITY
        &&& self.entries().len() <= CACHE_CAPACITY
        &&& forall|k: Seq<char>| #[trigger] self.hosts().contains_key(k) ==> self.hosts()[k] == k
    }

    /// An empty cache.
    pub fn new() -> (r: IngressCache)
        ensures
            r.wf(),
            r.entries().dom() == Set::<Seq<char>>::empty(),
            r.hosts().dom() == Set::<Seq<char>>::empty(),
    {
        IngressCache { lru: lru_new(CACHE_CAPACITY), trie: trie_new() }
    }

    /// How many records the cache holds.
    pub fn len(&self) -> (r: usize)
        ensures
            r == self.entries().len(),
    {
        lru_len(&self.lru)
    }
}

/// Stores the record under its host in the cache and the host in the trie.
pub fn insert_into_cache(cache: &mut IngressCache, key: String, value: AppInfo)
    requires
        old(cache).wf(),
    ensures
        final(cache).wf(),
        inserted(*old(cache), *final(cache), key@, value@),
{
    let ghost k = key@;
    let copy = key.clone();
    trie_insert(&mut cache.trie, key.as_str(), copy);
    lru_put(&mut cache.lru, key, value);
    assert(lru_capacity(cache.lru) == CACHE_CAPACITY);
    assert(cache.entries().len() <= CACHE_CAPACITY);
    assert forall|h: Seq<char>| #[trigger] cache.hosts().contains_key(h) implies cache.hosts()[h] == h by {
        if h != k {
            assert(old(cache).hosts().contains_key(h));
        }
    }
}

/// The record of the longest stored host that is a prefix of `key`, if that
/// host still has one.
pub fn get_app_info_with_longest_prefix(cache: &mut IngressCache, key: String) -> (r: Option<AppInfo>)
    requires
        old(cache).wf(),
    ensures
        final(cache).wf(),
        final(cache).entries() == old(cache).entries(),
        final(cache).hosts() == old(cache).hosts(),
        match lookup(old(cache).entries(), old(cache).hosts(), key@) {
            Some(v) => r is Some && r->0@ == v,
            None => r is None,
        },
{
    let ghost hosts = cache.hosts();
    let found = trie_longest_prefix(&cache.trie, key.as_str());
    match found {
        Some(host) => {
            proof {
                let k = choose|k: Seq<char>|
                    is_stored_prefix(hosts, k, key@) && hosts[k] == host@ && forall|o: Seq<char>|
                        is_stored_prefix(hosts, o, key@) ==> o.len() <= k.len();
                assert(is_longest_stored_prefix(hosts, k, key@));
                let c = choose|c: Seq<char>| is_longest_stored_prefix(hosts, c, key@);
                lemma_prefix_unique(c, k, key@);
                assert(host@ == k);
            }
            lru_get(&mut cache.lru, &host)
        },
        None => None,
    }
}

/// After a host is inserted, a lookup of any key equal to or extending it
/// finds a record, provided every longer stored host that is a prefix of the
/// key still has its record; when no longer stored host is a prefix of the
/// key, the record found is the one inserted.
pub proof fn lemma_insert_then_lookup(
    before: IngressCache,
    after: IngressCache,
    host: Seq<char>,
    info: AppInfoView,
    query: Seq<char>,
)
    requires
        before.wf(),
        after.wf(),
        inserted(before, after, host, info),
        host.len() > 0,
        is_prefix(host, query),
        forall|o: Seq<char>|
            is_stored_prefix(before.hosts(), o, query) && o.len() > host.len() ==> #[trigger] after.entries().contains_key(o),
    ensures
        lookup(after.entries(), after.hosts(), query) is Some,
        (forall|o: Seq<char>| is_stored_prefix(before.hosts(), o, query) ==> o.len() <= host.len()) ==> lookup(
            after.entries(),
            after.hosts(),
            query,
        ) == Some(info),
{
    let hosts = after.hosts();
    assert(is_stored_prefix(hosts, host, query));
    // the longest stored prefix exists: among the prefixes of the query, take
    // the longest length at which one is stored
    let n = query.len();
    assert(exists|k: Seq<char>| is_longest_stored_prefix(hosts, k, query)) by {
        lemma_longest_exists(hosts, query, host);
    }
    let k = choose|k: Seq<char>| is_longest_stored_prefix(hosts, k, query);
    assert(k.len() >= host.len());
    if k != host {
        if k.len() == host.len() {
            lemma_prefix_unique(k, host, query);
        }
        assert(before.hosts().contains_key(k));
        assert(is_stored_prefix(before.hosts(), k, query));
    }
}

/// A map with a stored prefix of `query` has a longest one.
proof fn lemma_longest_exists(m: Map<Seq<char>, Seq<char>>, query: Seq<char>, witness: Seq<char>)
    requires
        is_stored_prefix(m, witness, query),
    ensures
        exists|k: Seq<char>| is_longest_stored_prefix(m, k, query),
    decreases query.len() - witness.len(),
{
    if !is_longest_stored_prefix(m, witness, query) {
        let o = choose|o: Seq<char>| is_stored_prefix(m, o, query) && !(o.len() <= witness.len());
        lemma_longest_exists(m, query, o);
    }
}

} // verus!
