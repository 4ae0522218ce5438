//! The bounded table of loaded media, keyed by file path.
use vstd::prelude::*;
use vstd::string::*;
use crate::table::{
    find_key, has_key, index_of, keys_unique, lemma_index_of, lemma_with_value,
    lemma_without_key, value_of, with_value, without_key,
};

verus! {

/// Entries the cache holds at most.
pub const CACHE_LIMIT: usize = 200;

/// Entries dropped at once when a new entry finds the cache full.
pub const EVICT_BATCH: usize = 50;

/// Payloads of this many bytes or more are not kept.
pub const MAX_ASSET_BYTES: usize = 10 * 1024 * 1024;

/// The cached state of one file: its displayable bytes, and whether a load
/// is still under way (then the bytes are empty).
pub struct ImageData {
    pub bytes: Vec<u8>,
    pub loading: bool,
}

impl View for ImageData {
    type V = (Seq<u8>, bool);

    open spec fn view(&self) -> (Seq<u8>, bool) {
        (self.bytes@, self.loading)
    }
}

impl ImageData {
    /// A copy of the entry.
    pub fn duplicate(&self) -> (r: ImageData)
        ensures
            r@ == self@,
    {
        let mut bytes: Vec<u8> = Vec::new();
        let mut i: usize = 0;
        while i < self.bytes.len()
            invariant
                i <= self.bytes@.len(),
                bytes@ == self.bytes@.take(i as int),
            decreases self.bytes@.len() - i,
        {
            bytes.push(self.bytes[i]);
            i = i + 1;
            assert(bytes@ =~= self.bytes@.take(i as int));
        }
        assert(bytes@ =~= self.bytes@);
        ImageData { bytes, loading: self.loading }
    }
}

/// The cache as a sequence of (path, (bytes, loading)) pairs, oldest first.
pub type CacheModel = Seq<(Seq<char>, (Seq<u8>, bool))>;

/// The cache after `v` is stored under `k`: in place where `k` is held; else,
/// where the cache is full, the first `EVICT_BATCH` entries are dropped, and
/// the new entry goes at the end.
pub open spec fn store_model(s: CacheModel, k: Seq<char>, v: (Seq<u8>, bool)) -> CacheModel {
    if has_key(s, k) {
        with_value(s, k, v)
    } else if s.len() >= CACHE_LIMIT {
        s.skip(EVICT_BATCH as int).push((k, v))
    } else {
        s.push((k, v))
    }
}

/// The entry that marks a load as under way.
pub open spec fn loading_marker() -> (Seq<u8>, bool) {
    (Seq::empty(), true)
}

/// The cache after a request to begin loading `k`: unchanged where `k` is
/// held, else with the loading marker stored under `k`.
pub open spec fn begin_load_model(s: CacheModel, k: Seq<char>) -> CacheModel {
    if has_key(s, k) {
        s
    } else {
        store_model(s, k, loading_marker())
    }
}

/// The cache after a load of `k` gave `bytes`: the bytes stored as loaded
/// where they are under `MAX_ASSET_BYTES`, else no entry for `k`.
pub open spec fn complete_model(s: CacheModel, k: Seq<char>, bytes: Seq<u8>) -> CacheModel {
    if bytes.len() < MAX_ASSET_BYTES {
        store_model(s, k, (bytes, false))
    } else {
        without_key(s, k)
    }
}

/// Storing keeps the keys distinct and the cache within its limit, and holds
/// the new value under its key.
pub proof fn lemma_store_model(s: CacheModel, k: Seq<char>, v: (Seq<u8>, bool))
    requires
        keys_unique(s),
        s.len() <= CACHE_LIMIT,
    ensures
        keys_unique(store_model(s, k, v)),
        store_model(s, k, v).len() <= CACHE_LIMIT,
        value_of(store_model(s, k, v), k) == Some(v),
{
    let t = store_model(s, k, v);
    if has_key(s, k) {
        lemma_with_value(s, k, v);
    } else if s.len() >= CACHE_LIMIT {
        let rest = s.skip(EVICT_BATCH as int);
        assert forall|a: int, b: int| 0 <= a < t.len() && 0 <= b < t.len() && #[trigger] t[a].0 == #[trigger] t[b].0 implies a == b by {
            if a < rest.len() && b < rest.len() {
                assert(t[a] == s[a + EVICT_BATCH] && t[b] == s[b + EVICT_BATCH]);
            } else if a < rest.len() {
                assert(t[a] == s[a + EVICT_BATCH]);
            } else if b < rest.len() {
                assert(t[b] == s[b + EVICT_BATCH]);
            }
        }
        lemma_index_of(t, rest.len() as int);
    } else {
        lemma_with_value(s, k, v);
        assert(with_value(s, k, v) == t);
    }
}

/// A table of loaded media, keyed by path, with at most `CACHE_LIMIT`
/// entries. An entry is either a marker that a load is under way, or the
/// loaded bytes.
pub struct MediaCache {
    entries: Vec<(String, ImageData)>,
}

impl View for MediaCache {
    type V = CacheModel;

    closed spec fn view(&self) -> CacheModel {
        self.entries@.map_values(|e: (String, ImageData)| (e.0@, e.1@))
    }
}

impl MediaCache {
    /// Whether the keys are distinct and the size within the limit.
    pub open spec fn wf(&self) -> bool {
        keys_unique(self@) && self@.len() <= CACHE_LIMIT
    }

    /// An empty cache.
    pub fn new() -> (r: MediaCache)
        ensures
            r.wf(),
            r@ == Seq::<(Seq<char>, (Seq<u8>, bool))>::empty(),
    {
        let r = MediaCache { entries: Vec::new() };
        assert(r@ =~= Seq::<(Seq<char>, (Seq<u8>, bool))>::empty());
        r
    }

    /// The number of entries.
    pub fn len(&self) -> (r: usize)
        ensures
            r == self@.len(),
    {
        self.entries.len()
    }

    /// Where `path` stands in the table, if anywhere.
    fn position(&self, path: &str) -> (r: Option<usize>)
        requires
            self.wf(),
        ensures
            match r {
                Some(i) => i < self@.len() && has_key(self@, path@) && index_of(self@, path@) == i,
                None => !has_key(self@, path@),
            },
    {
        let r = find_key(&self.entries, path);
        proof {
            match r {
                Some(i) => {
                    assert(self@[i as int].0 == path@);
                    lemma_index_of(self@, i as int);
                },
                None => {
                    if has_key(self@, path@) {
                        let j = index_of(self@, path@);
                        assert(self.entries@[j].0@ == path@);
                    }
                },
            }
        }
        r
    }

    /// The entry for `path`, copied out, if there is one.
    pub fn try_get(&self, path: &str) -> (r: Option<ImageData>)
        requires
            self.wf(),
        ensures
            match r {
                Some(d) => value_of(self@, path@) == Some(d@),
                None => value_of(self@, path@) == None::<(Seq<u8>, bool)>,
            },
    {
        match self.position(path) {
            Some(i) => {
                let d = self.entries[i].1.duplicate();
                assert(self@[i as int].1 == d@);
                Some(d)
            },
            None => None,
        }
    }

    /// Stores `data` under `key` as `store_model` says.
    fn store(&mut self, key: String, data: ImageData)
        requires
            old(self).wf(),
        ensures
            final(self).wf(),
            final(self)@ == store_model(old(self)@, key@, data@),
    {
        proof {
            lemma_store_model(self@, key@, data@);
        }
        let ghost k = key@;
        let ghost v = data@;
        match self.position(key.as_str()) {
            Some(i) => {
                self.entries.set(i, (key, data));
                assert(self@ =~= old(self)@.update(i as int, (k, v)));
            },
            None => {
                if self.entries.len() >= CACHE_LIMIT {
                    let rest = self.entries.split_off(EVICT_BATCH);
                    self.entries = rest;
                    assert(self@ =~= old(self)@.skip(EVICT_BATCH as int));
                }
                let ghost before = self@;
                self.entries.push((key, data));
                assert(self@ =~= before.push((k, v)));
            },
        }
    }

    /// Removes the entry for `path`, if there is one.
    fn remove_key(&mut self, path: &str)
        requires
            old(self).wf(),
        ensures
            final(self).wf(),
            final(self)@ == without_key(old(self)@, path@),
    {
        proof {
            lemma_without_key(self@, path@);
        }
        match self.position(path) {
            Some(i) => {
                self.entries.remove(i);
                assert(self@ =~= old(self)@.remove(i as int));
            },
            None => {},
        }
    }

    /// Claims the load of `path`. Where the cache holds an entry for it,
    /// loaded or under way, nothing changes and the result is false. Else the
    /// loading marker is stored for it (after dropping the first
    /// `EVICT_BATCH` entries if the cache is full) and the result is true:
    /// the caller alone then loads the file.
    pub fn begin_load_if_absent(&mut self, path: &str) -> (r: bool)
        requires
            old(self).wf(),
        ensures
            final(self).wf(),
            r == !has_key(old(self)@, path@),
            final(self)@ == begin_load_model(old(self)@, path@),
            has_key(final(self)@, path@),
            r ==> value_of(final(self)@, path@) == Some(loading_marker()),
    {
        proof {
            lemma_store_model(self@, path@, loading_marker());
        }
        match self.position(path) {
            Some(_) => false,
            None => {
                let marker = ImageData { bytes: Vec::new(), loading: true };
                assert(marker@ == loading_marker());
                self.store(String::from_str(path), marker);
                true
            },
        }
    }

    /// Records a finished load of `path`: the bytes are kept as loaded where
    /// they are fewer than `MAX_ASSET_BYTES`, else the entry is removed.
    pub fn complete(&mut self, path: &str, bytes: Vec<u8>)
        requires
            old(self).wf(),
        ensures
            final(self).wf(),
            final(self)@ == complete_model(old(self)@, path@, bytes@),
            bytes@.len() < MAX_ASSET_BYTES ==> value_of(final(self)@, path@) == Some((bytes@, false)),
            bytes@.len() >= MAX_ASSET_BYTES ==> !has_key(final(self)@, path@),
    {
        proof {
            lemma_store_model(self@, path@, (bytes@, false));
            lemma_without_key(self@, path@);
        }
        if bytes.len() < MAX_ASSET_BYTES {
            let data = ImageData { bytes, loading: false };
            self.store(String::from_str(path), data);
        } else {
            self.remove_key(path);
        }
    }

    /// Records a failed load of `path`: its entry is removed, so that a later
    /// request may load it again.
    pub fn fail(&mut self, path: &str)
        requires
            old(self).wf(),
        ensures
            final(self).wf(),
            final(self)@ == without_key(old(self)@, path@),
            !has_key(final(self)@, path@),
    {
        proof {
            lemma_without_key(self@, path@);
        }
        self.remove_key(path);
    }
}

} // verus!
