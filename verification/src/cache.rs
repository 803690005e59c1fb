//! The filter-decision cache.
//!
//! A mapping from `dependency_key + "_" + source` to the memoized verdict of
//! the predicate registered under that dependency key.  Once a verdict is
//! stored for a key it is never recomputed: predicates are taken to be
//! referentially transparent in the source, so the first observation of a
//! (dependency, source) pair settles the pair for good.

use vstd::prelude::*;

use crate::filter::FilterPredicate;
use crate::filter::LoggerFilter;
use crate::severity::Metadata;

verus! {

/// The cache key of a predicate's verdict for one source namespace.
pub open spec fn cache_key(dependency: Seq<char>, source: Seq<char>) -> Seq<char> {
    dependency + seq!['_'] + source
}

/// The mapping that the first `i` entries of the two columns stand for,
/// later entries overriding earlier ones.
pub open spec fn map_of(keys: Seq<Seq<char>>, vals: Seq<bool>, i: int) -> Map<Seq<char>, bool>
    decreases i,
{
    if i <= 0 {
        Map::empty()
    } else {
        map_of(keys, vals, i - 1).insert(keys[i - 1], vals[i - 1])
    }
}

/// The mapping contains exactly the keys of the columns.
proof fn lemma_map_of_contains(keys: Seq<Seq<char>>, vals: Seq<bool>, i: int, key: Seq<char>)
    requires
        0 <= i <= keys.len(),
        keys.len() == vals.len(),
    ensures
        map_of(keys, vals, i).contains_key(key) <==> (exists|j: int| 0 <= j < i && keys[j] == key),
    decreases i,
{
    if i > 0 {
        lemma_map_of_contains(keys, vals, i - 1, key);
    }
}

/// With distinct keys, each key maps to its own column's value.
proof fn lemma_map_of_value(keys: Seq<Seq<char>>, vals: Seq<bool>, i: int, j: int)
    requires
        0 <= j < i <= keys.len(),
        keys.len() == vals.len(),
        forall|a: int, b: int| 0 <= a < b < i ==> keys[a] != keys[b],
    ensures
        map_of(keys, vals, i).contains_key(keys[j]),
        map_of(keys, vals, i)[keys[j]] == vals[j],
    decreases i,
{
    lemma_map_of_contains(keys, vals, i, keys[j]);
    if j == i - 1 {
    } else {
        lemma_map_of_value(keys, vals, i - 1, j);
    }
}

/// Two equal column prefixes stand for the same mapping.
proof fn lemma_map_of_prefix(
    k1: Seq<Seq<char>>,
    v1: Seq<bool>,
    k2: Seq<Seq<char>>,
    v2: Seq<bool>,
    i: int,
)
    requires
        0 <= i <= k1.len(),
        i <= k2.len(),
        i <= v1.len(),
        i <= v2.len(),
        forall|j: int| 0 <= j < i ==> k1[j] == k2[j] && v1[j] == v2[j],
    ensures
        map_of(k1, v1, i) == map_of(k2, v2, i),
    decreases i,
{
    if i > 0 {
        lemma_map_of_prefix(k1, v1, k2, v2, i - 1);
    }
}

/// The key views of the stored column.
pub open spec fn key_views(keys: Seq<String>) -> Seq<Seq<char>> {
    keys.map_values(|s: String| s@)
}

/// A mutation-guarded mapping from composite keys to memoized predicate
/// verdicts.  The two columns hold the entries in insertion order.
pub struct FilterCache {
    keys: Vec<String>,
    vals: Vec<bool>,
}

impl View for FilterCache {
    type V = Map<Seq<char>, bool>;

    closed spec fn view(&self) -> Map<Seq<char>, bool> {
        map_of(key_views(self.keys@), self.vals@, self.keys@.len() as int)
    }
}

impl FilterCache {
    /// Entries line up and no key occurs twice.
    pub closed spec fn wf(self) -> bool {
        &&& self.keys@.len() == self.vals@.len()
        &&& forall|a: int, b: int|
            0 <= a < b < self.keys@.len() ==> key_views(self.keys@)[a] != key_views(self.keys@)[b]
    }

    /// An empty cache.
    pub fn new() -> (r: FilterCache)
        ensures
            r.wf(),
            r@ == Map::<Seq<char>, bool>::empty(),
    {
        FilterCache { keys: Vec::new(), vals: Vec::new() }
    }

    /// The memoized verdict under `key`, if one was stored.
    pub fn get(&self, key: &String) -> (r: Option<bool>)
        requires
            self.wf(),
        ensures
            r == (if self@.contains_key(key@) {
                Some(self@[key@])
            } else {
                Option::<bool>::None
            }),
    {
        let n = self.keys.len();
        let mut i: usize = 0;
        while i < n
            invariant
                0 <= i <= n,
                n == self.keys@.len(),
                self.wf(),
                forall|j: int| 0 <= j < i ==> key_views(self.keys@)[j] != key@,
            decreases n - i,
        {
            if self.keys[i].eq(key) {
                proof {
                    lemma_map_of_value(key_views(self.keys@), self.vals@, n as int, i as int);
                }
                return Some(self.vals[i]);
            }
            i = i + 1;
        }
        proof {
            lemma_map_of_contains(key_views(self.keys@), self.vals@, n as int, key@);
        }
        None
    }

    /// Stores the verdict for a key seen for the first time.
    pub fn insert(&mut self, key: String, value: bool)
        requires
            old(self).wf(),
            !old(self)@.contains_key(key@),
        ensures
            final(self).wf(),
            final(self)@ == old(self)@.insert(key@, value),
    {
        proof {
            lemma_map_of_contains(
                key_views(self.keys@),
                self.vals@,
                self.keys@.len() as int,
                key@,
            );
        }
        let ghost old_keys = key_views(self.keys@);
        let ghost old_vals = self.vals@;
        let ghost old_len = self.keys@.len() as int;
        self.keys.push(key);
        self.vals.push(value);
        proof {
            assert(key_views(self.keys@) =~= old_keys.push(key@));
            lemma_map_of_prefix(
                key_views(self.keys@),
                self.vals@,
                old_keys,
                old_vals,
                old_len,
            );
        }
    }
}

/// The composite cache key `dependency + "_" + source`.
pub fn build_key(dependency: &str, source: &str) -> (r: String)
    ensures
        r@ == cache_key(dependency@, source@),
{
    proof {
        reveal_strlit("_");
    }
    let mut out = dependency.to_owned();
    out.append("_");
    out.append(source);
    proof {
        assert(out@ =~= cache_key(dependency@, source@));
    }
    out
}

impl FilterCache {
    /// Decides whether an event from `metadata.source` is eligible: with no
    /// predicates registered everything passes; otherwise the predicates are
    /// taken in registration order, each verdict read from the cache when its
    /// key was ever stored and computed and stored on a first encounter, and
    /// the first `true` settles it (an OR over the predicates).
    ///
    /// The contract pins the memoization down: entries are never overwritten,
    /// no key but those of this (dependency, source) family is added, and a
    /// predicate whose key was already cached is left untouched — it cannot
    /// have been invoked.
    pub fn decide<P: FilterPredicate>(
        &mut self,
        filter: &mut LoggerFilter<P>,
        metadata: &Metadata,
    ) -> (r: bool)
        requires
            old(self).wf(),
            old(filter).wf(),
        ensures
            final(self).wf(),
            final(filter).wf(),
            final(filter).dependencies == old(filter).dependencies,
            final(filter).callbacks@.len() == old(filter).callbacks@.len(),
            forall|k: Seq<char>|
                #[trigger] old(self)@.contains_key(k) ==> final(self)@.contains_key(k)
                    && final(self)@[k] == old(self)@[k],
            forall|k: Seq<char>|
                #[trigger] final(self)@.contains_key(k) && !old(self)@.contains_key(k) ==> (
                exists|i: int|
                    0 <= i < old(filter).dependencies@.len() && k == cache_key(
                        old(filter).dependencies@[i]@,
                        metadata.source@,
                    )),
            forall|i: int|
                0 <= i < old(filter).callbacks@.len() && old(self)@.contains_key(
                    #[trigger] cache_key(old(filter).dependencies@[i]@, metadata.source@),
                ) ==> final(filter).callbacks@[i] == old(filter).callbacks@[i],
            r == (old(filter).callbacks@.len() == 0 || exists|i: int|
                0 <= i < old(filter).dependencies@.len() && final(self)@.contains_key(
                    #[trigger] cache_key(old(filter).dependencies@[i]@, metadata.source@),
                ) && final(self)@[cache_key(old(filter).dependencies@[i]@, metadata.source@)]
                    == true),
            !r ==> forall|i: int|
                0 <= i < old(filter).dependencies@.len() ==> final(self)@.contains_key(
                    #[trigger] cache_key(old(filter).dependencies@[i]@, metadata.source@),
                ) && final(self)@[cache_key(old(filter).dependencies@[i]@, metadata.source@)]
                    == false,
            r && old(filter).callbacks@.len() > 0 ==> (exists|i: int|
                0 <= i < old(filter).dependencies@.len() && final(self)@.contains_key(
                    #[trigger] cache_key(old(filter).dependencies@[i]@, metadata.source@),
                ) && final(self)@[cache_key(old(filter).dependencies@[i]@, metadata.source@)]
                    == true && (forall|j: int|
                    0 <= j < i ==> final(self)@.contains_key(
                        #[trigger] cache_key(old(filter).dependencies@[j]@, metadata.source@),
                    ) && final(self)@[cache_key(old(filter).dependencies@[j]@, metadata.source@)]
                        == false)),
    {
        let n = filter.callbacks.len();
        if n == 0 {
            return true;
        }
        let mut i: usize = 0;
        while i < n
            invariant
                0 <= i <= n,
                n == filter.callbacks@.len(),
                n == old(filter).callbacks@.len(),
                n <= old(filter).dependencies@.len(),
                self.wf(),
                filter.wf(),
                filter.dependencies == old(filter).dependencies,
                forall|k: Seq<char>|
                    #[trigger] old(self)@.contains_key(k) ==> self@.contains_key(k) && self@[k]
                        == old(self)@[k],
                forall|k: Seq<char>|
                    #[trigger] self@.contains_key(k) && !old(self)@.contains_key(k) ==> (
                    exists|j: int|
                        0 <= j < n && k == cache_key(
                            old(filter).dependencies@[j]@,
                            metadata.source@,
                        )),
                forall|j: int|
                    0 <= j < n && old(self)@.contains_key(
                        #[trigger] cache_key(old(filter).dependencies@[j]@, metadata.source@),
                    ) ==> filter.callbacks@[j] == old(filter).callbacks@[j],
                forall|j: int|
                    i <= j < n ==> #[trigger] filter.callbacks@[j] == old(filter).callbacks@[j],
                forall|j: int|
                    0 <= j < i ==> self@.contains_key(
                        #[trigger] cache_key(old(filter).dependencies@[j]@, metadata.source@),
                    ) && self@[cache_key(old(filter).dependencies@[j]@, metadata.source@)]
                        == false,
            decreases n - i,
        {
            let key = build_key(self_dep(filter, i), source_of(metadata));
            match self.get(&key) {
                Some(v) => {
                    if v {
                        return true;
                    }
                },
                None => {
                    let ghost cbs_before = filter.callbacks@;
                    let mut callback = filter.callbacks.remove(i);
                    let verdict = callback.evaluate(metadata);
                    filter.callbacks.insert(i, callback);
                    proof {
                        assert(filter.callbacks@ =~= cbs_before.update(i as int, callback));
                    }
                    self.insert(key, verdict);
                    if verdict {
                        return true;
                    }
                },
            }
            i = i + 1;
        }
        false
    }
}

/// The dependency key registered at position `i`.
fn self_dep<P>(filter: &LoggerFilter<P>, i: usize) -> (r: &str)
    requires
        i < filter.dependencies@.len(),
    ensures
        r@ == filter.dependencies@[i as int]@,
{
    filter.dependencies[i].as_str()
}

/// The source namespace of the metadata.
fn source_of(metadata: &Metadata) -> (r: &str)
    ensures
        r@ == metadata.source@,
{
    metadata.source.as_str()
}

} // verus!
