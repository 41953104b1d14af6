//! Content-hash result caching for incremental checks.
//!
//! Caches check results by file content hash so unchanged files can be
//! skipped on subsequent runs. Entries are keyed by `"file::provider"`; the
//! cache is seen as a map from that key to the stored entry.
use vstd::prelude::*;

use crate::output::{copy_issues, CheckIssue};
use crate::text::{append, str_eq};

verus! {

/// Cache entry for a single file + provider combination.
#[derive(Debug, Clone)]
pub struct CacheEntry {
    /// FxHash of the file content.
    pub content_hash: u64,
    /// Cached issues found by the provider.
    pub issues: Vec<CheckIssue>,
}

/// The key under which a file + provider pair is stored.
pub open spec fn cache_key(file_path: Seq<char>, provider_slug: Seq<char>) -> Seq<char> {
    file_path + "::"@ + provider_slug
}

/// What an entry holds: the content hash and the issues.
pub open spec fn entry_view(e: CacheEntry) -> (u64, Seq<CheckIssue>) {
    (e.content_hash, e.issues@)
}

/// The map that a list of keyed entries stands for (a later entry wins).
pub open spec fn entry_map(es: Seq<(String, CacheEntry)>) -> Map<Seq<char>, (u64, Seq<CheckIssue>)>
    decreases es.len(),
{
    if es.len() == 0 {
        Map::empty()
    } else {
        entry_map(es.drop_last()).insert(es.last().0@, entry_view(es.last().1))
    }
}

/// No key occurs twice.
pub open spec fn distinct_keys(es: Seq<(String, CacheEntry)>) -> bool {
    forall|i: int, j: int| 0 <= i < j < es.len() ==> es[i].0@ != es[j].0@
}

/// The map has exactly the keys of the list, each with its entry.
pub proof fn lemma_entry_map(es: Seq<(String, CacheEntry)>)
    requires
        distinct_keys(es),
    ensures
        entry_map(es).dom().finite(),
        entry_map(es).len() == es.len(),
        forall|i: int| 0 <= i < es.len() ==> #[trigger] entry_map(es).contains_key(es[i].0@)
            && entry_map(es)[es[i].0@] == entry_view(es[i].1),
        forall|k: Seq<char>| #[trigger] entry_map(es).contains_key(k) ==> exists|i: int|
            0 <= i < es.len() && es[i].0@ == k,
    decreases es.len(),
{
    if es.len() > 0 {
        let init = es.drop_last();
        assert(distinct_keys(init));
        lemma_entry_map(init);
        assert(!entry_map(init).contains_key(es.last().0@)) by {
            if entry_map(init).contains_key(es.last().0@) {
                let i = choose|i: int| 0 <= i < init.len() && init[i].0@ == es.last().0@;
                assert(es[i].0@ == es[es.len() - 1].0@);
            }
        }
        assert forall|k: Seq<char>| #[trigger] entry_map(es).contains_key(k) implies exists|i: int|
            0 <= i < es.len() && es[i].0@ == k by {
            if k != es.last().0@ {
                assert(entry_map(init).contains_key(k));
                let i = choose|i: int| 0 <= i < init.len() && init[i].0@ == k;
                assert(es[i].0@ == k);
            } else {
                assert(es[es.len() - 1].0@ == k);
            }
        }
        assert forall|i: int| 0 <= i < es.len() implies #[trigger] entry_map(es).contains_key(
            es[i].0@,
        ) && entry_map(es)[es[i].0@] == entry_view(es[i].1) by {
            if i < es.len() - 1 {
                assert(init[i] == es[i]);
            }
        }
    }
}

/// Replacing the entry of an existing key updates the map at that key.
pub proof fn lemma_entry_map_update(es: Seq<(String, CacheEntry)>, i: int, x: (String, CacheEntry))
    requires
        distinct_keys(es),
        0 <= i < es.len(),
        es[i].0@ == x.0@,
    ensures
        distinct_keys(es.update(i, x)),
        entry_map(es.update(i, x)) == entry_map(es).insert(x.0@, entry_view(x.1)),
    decreases es.len(),
{
    let u = es.update(i, x);
    assert(distinct_keys(u)) by {
        assert forall|a: int, b: int| 0 <= a < b < u.len() implies u[a].0@ != u[b].0@ by {
            assert(es[a].0@ != es[b].0@);
        }
    }
    if i == es.len() - 1 {
        assert(u.drop_last() =~= es.drop_last());
        assert(entry_map(u) =~= entry_map(es).insert(x.0@, entry_view(x.1)));
    } else {
        let init = es.drop_last();
        assert(distinct_keys(init));
        lemma_entry_map_update(init, i, x);
        assert(u.drop_last() =~= init.update(i, x));
        assert(es.last().0@ != x.0@) by {
            assert(es[i].0@ != es[es.len() - 1].0@);
        }
        assert(entry_map(u) =~= entry_map(es).insert(x.0@, entry_view(x.1)));
    }
}

/// The check cache — maps `"file::provider"` keys to cached results.
#[derive(Debug)]
pub struct CheckCache {
    /// Version of the cache format (for migration).
    version: u32,
    /// Entries with their keys; no key occurs twice.
    entries: Vec<(String, CacheEntry)>,
}

impl CheckCache {
    /// Current cache format version.
    pub const VERSION: u32 = 1;

    #[verifier::type_invariant]
    spec fn keys_distinct(self) -> bool {
        distinct_keys(self.entries@)
    }

    /// The cache as a map from key to entry.
    pub closed spec fn view(&self) -> Map<Seq<char>, (u64, Seq<CheckIssue>)> {
        entry_map(self.entries@)
    }

    /// The format version the cache was made with.
    pub closed spec fn spec_version(&self) -> u32 {
        self.version
    }

    /// An empty cache of the current version.
    pub fn new() -> (r: Self)
        ensures
            r.view() == Map::<Seq<char>, (u64, Seq<CheckIssue>)>::empty(),
            r.spec_version() == Self::VERSION,
    {
        CheckCache { version: Self::VERSION, entries: Vec::new() }
    }

    /// The format version.
    pub fn version(&self) -> (r: u32)
        ensures
            r == self.spec_version(),
    {
        self.version
    }

    /// The position of `key` among the entries.
    fn position(&self, key: &str) -> (r: Option<usize>)
        ensures
            r matches Some(i) ==> i < self.entries@.len() && self.entries@[i as int].0@ == key@,
            r is None ==> !self.view().contains_key(key@),
    {
        proof {
            use_type_invariant(self);
            lemma_entry_map(self.entries@);
        }
        let mut i: usize = 0;
        while i < self.entries.len()
            invariant
                i <= self.entries@.len(),
                forall|j: int| 0 <= j < i ==> self.entries@[j].0@ != key@,
            decreases self.entries.len() - i,
        {
            if str_eq(self.entries[i].0.as_str(), key) {
                return Some(i);
            }
            i += 1;
        }
        None
    }

    /// Look up cached issues for a file + provider.
    ///
    /// Returns `Some(issues)` if the file content hasn't changed since last check.
    pub fn lookup(&self, file_path: &str, provider_slug: &str, current_hash: u64) -> (r: Option<
        &Vec<CheckIssue>,
    >)
        ensures
            match spec_lookup(self.view(), file_path@, provider_slug@, current_hash) {
                Some(is) => r matches Some(v) && v@ == is,
                None => r is None,
            },
    {
        proof {
            use_type_invariant(self);
            lemma_entry_map(self.entries@);
        }
        let key = Self::make_key(file_path, provider_slug);
        match self.position(key.as_str()) {
            Some(i) => {
                assert(entry_map(self.entries@).contains_key(self.entries@[i as int].0@));
                let entry = &self.entries[i].1;
                if entry.content_hash == current_hash {
                    Some(&entry.issues)
                } else {
                    None
                }
            },
            None => None,
        }
    }

    /// Store issues for a file + provider.
    pub fn store(&mut self, file_path: &str, provider_slug: &str, content_hash: u64, issues: Vec<
        CheckIssue,
    >)
        ensures
            final(self).view() == old(self).view().insert(
                cache_key(file_path@, provider_slug@),
                (content_hash, issues@),
            ),
            final(self).view().dom().finite(),
            final(self).view().len() == old(self).view().len() + if old(self).view().dom().contains(
                cache_key(file_path@, provider_slug@),
            ) {
                0int
            } else {
                1int
            },
            final(self).spec_version() == old(self).spec_version(),
    {
        proof {
            use_type_invariant(&*self);
            lemma_entry_map(self.entries@);
        }
        let key = Self::make_key(file_path, provider_slug);
        self.store_key(key, CacheEntry { content_hash, issues });
    }

    /// Clear the entire cache.
    pub fn clear(&mut self)
        ensures
            final(self).view() == Map::<Seq<char>, (u64, Seq<CheckIssue>)>::empty(),
            final(self).spec_version() == old(self).spec_version(),
    {
        self.entries = Vec::new();
    }

    /// Number of cached entries.
    pub fn len(&self) -> (r: usize)
        ensures
            r == self.view().len(),
            self.view().dom().finite(),
    {
        proof {
            use_type_invariant(self);
            lemma_entry_map(self.entries@);
        }
        self.entries.len()
    }

    /// Whether the cache is empty.
    pub fn is_empty(&self) -> (r: bool)
        ensures
            r == (self.view().len() == 0),
    {
        proof {
            use_type_invariant(self);
            lemma_entry_map(self.entries@);
        }
        self.entries.len() == 0
    }

    /// The stored entries with their keys, in storage order.
    pub fn entries(&self) -> (r: &Vec<(String, CacheEntry)>)
        ensures
            entry_map(r@) == self.view(),
            distinct_keys(r@),
    {
        proof {
            use_type_invariant(self);
        }
        &self.entries
    }

    /// A cache of the given version holding the given entries; for a key
    /// that occurs more than once the last entry wins.
    pub fn from_entries(version: u32, entries: Vec<(String, CacheEntry)>) -> (r: Self)
        ensures
            r.view() == entry_map(entries@),
            r.spec_version() == version,
    {
        let mut c = CheckCache { version, entries: Vec::new() };
        let mut i: usize = 0;
        while i < entries.len()
            invariant
                i <= entries@.len(),
                c.view() == entry_map(entries@.take(i as int)),
                c.spec_version() == version,
            decreases entries.len() - i,
        {
            let k = entries[i].0.clone();
            let e = CacheEntry {
                content_hash: entries[i].1.content_hash,
                issues: copy_issues(&entries[i].1.issues),
            };
            assert(entry_view(e) == entry_view(entries@[i as int].1));
            c.store_key(k, e);
            assert(entries@.take(i + 1).drop_last() =~= entries@.take(i as int));
            i += 1;
        }
        assert(entries@.take(entries@.len() as int) =~= entries@);
        c
    }

    /// Stores an entry under a ready-made key.
    fn store_key(&mut self, key: String, entry: CacheEntry)
        ensures
            final(self).view() == old(self).view().insert(key@, entry_view(entry)),
            final(self).spec_version() == old(self).spec_version(),
    {
        proof {
            use_type_invariant(&*self);
        }
        match self.position(key.as_str()) {
            Some(i) => {
                proof {
                    lemma_entry_map_update(self.entries@, i as int, (key, entry));
                }
                let mut es = Vec::new();
                std::mem::swap(&mut es, &mut self.entries);
                es.set(i, (key, entry));
                self.entries = es;
            },
            None => {
                proof {
                    lemma_entry_map(self.entries@);
                }
                let ghost old_es = self.entries@;
                let mut es = Vec::new();
                std::mem::swap(&mut es, &mut self.entries);
                es.push((key, entry));
                assert(es@.drop_last() =~= old_es);
                assert(distinct_keys(es@)) by {
                    assert forall|a: int, b: int| 0 <= a < b < es@.len() implies es@[a].0@
                        != es@[b].0@ by {
                        if b == es@.len() - 1 {
                            assert(entry_map(old_es).contains_key(old_es[a].0@));
                        }
                    }
                }
                self.entries = es;
            },
        }
    }

    /// The key `"file::provider"`.
    fn make_key(file_path: &str, provider_slug: &str) -> (r: String)
        ensures
            r@ == cache_key(file_path@, provider_slug@),
    {
        let mut k = String::new();
        append(&mut k, file_path);
        append(&mut k, "::");
        append(&mut k, provider_slug);
        assert(k@ =~= cache_key(file_path@, provider_slug@));
        k
    }
}

/// Feeds `content` to a default `rustc_hash::FxHasher` and returns
/// `finish()`. Nothing is claimed of the value: the hasher folds the bytes
/// by machine words, so it differs between 32- and 64-bit targets.
#[verifier::external_body]
fn fx_hash_bytes(content: &[u8]) -> u64 {
    let mut hasher = rustc_hash::FxHasher::default();
    std::hash::Hasher::write(&mut hasher, content);
    std::hash::Hasher::finish(&hasher)
}

/// Hash file content using FxHash (extremely fast, non-cryptographic).
pub fn hash_content(content: &[u8]) -> u64 {
    fx_hash_bytes(content)
}

/// What a lookup in a cache seen as `m` gives: the stored issues when the
/// entry's hash is the current one.
pub open spec fn spec_lookup(
    m: Map<Seq<char>, (u64, Seq<CheckIssue>)>,
    file_path: Seq<char>,
    provider_slug: Seq<char>,
    current_hash: u64,
) -> Option<Seq<CheckIssue>> {
    let k = cache_key(file_path, provider_slug);
    if m.contains_key(k) && m[k].0 == current_hash {
        Some(m[k].1)
    } else {
        None
    }
}

/// A lookup with the hash that was stored gives back the issues stored; a
/// lookup with any other hash gives nothing; a lookup under another key
/// gives what it gave before the store.
pub proof fn law_lookup_after_store(
    m: Map<Seq<char>, (u64, Seq<CheckIssue>)>,
    file_path: Seq<char>,
    provider_slug: Seq<char>,
    hash: u64,
    issues: Seq<CheckIssue>,
    other_file: Seq<char>,
    other_provider: Seq<char>,
    other_hash: u64,
)
    ensures
        ({
            let stored = m.insert(cache_key(file_path, provider_slug), (hash, issues));
            &&& spec_lookup(stored, file_path, provider_slug, hash) == Some(issues)
            &&& (other_hash != hash ==> spec_lookup(stored, file_path, provider_slug, other_hash)
                is None)
            &&& (cache_key(other_file, other_provider) != cache_key(file_path, provider_slug)
                ==> spec_lookup(stored, other_file, other_provider, other_hash) == spec_lookup(
                m,
                other_file,
                other_provider,
                other_hash,
            ))
        }),
{
}

/// After clearing, every lookup gives nothing.
pub proof fn law_lookup_after_clear(file_path: Seq<char>, provider_slug: Seq<char>, hash: u64)
    ensures
        spec_lookup(Map::empty(), file_path, provider_slug, hash) is None,
{
}

} // verus!
