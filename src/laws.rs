//! Properties of the stores that hold across calls.
use vstd::prelude::*;
use crate::cache::{
    begin_load_model, complete_model, lemma_store_model, loading_marker, store_model, CacheModel,
    CACHE_LIMIT, EVICT_BATCH, MAX_ASSET_BYTES,
};
use crate::store::{peek_model, poll_reports, ScanPoll, StoreModel};
use crate::table::{has_key, keys_unique, lemma_without_key, value_of, without_key};

verus! {

/// One call that changes the cache.
pub enum CacheOp {
    BeginLoad(Seq<char>),
    Complete(Seq<char>, Seq<u8>),
    Fail(Seq<char>),
}

/// The cache after one call.
pub open spec fn apply_op(s: CacheModel, op: CacheOp) -> CacheModel {
    match op {
        CacheOp::BeginLoad(k) => begin_load_model(s, k),
        CacheOp::Complete(k, b) => complete_model(s, k, b),
        CacheOp::Fail(k) => without_key(s, k),
    }
}

/// The cache after a sequence of calls, in order.
pub open spec fn apply_ops(s: CacheModel, ops: Seq<CacheOp>) -> CacheModel
    decreases ops.len(),
{
    if ops.len() == 0 {
        s
    } else {
        apply_op(apply_ops(s, ops.drop_last()), ops.last())
    }
}

/// The cache after `n` requests to begin loading `k`, and how many of them
/// were granted.
pub open spec fn begin_load_repeated(s: CacheModel, k: Seq<char>, n: nat) -> (CacheModel, nat)
    decreases n,
{
    if n == 0 {
        (s, 0)
    } else {
        let (before, granted) = begin_load_repeated(s, k, (n - 1) as nat);
        (begin_load_model(before, k), if has_key(before, k) { granted } else { granted + 1 })
    }
}

/// Every call keeps the cache's keys distinct and its size within the limit.
pub proof fn lemma_op_keeps_bound(s: CacheModel, op: CacheOp)
    requires
        keys_unique(s),
        s.len() <= CACHE_LIMIT,
    ensures
        keys_unique(apply_op(s, op)),
        apply_op(s, op).len() <= CACHE_LIMIT,
{
    match op {
        CacheOp::BeginLoad(k) => {
            lemma_store_model(s, k, loading_marker());
        },
        CacheOp::Complete(k, b) => {
            lemma_store_model(s, k, (b, false));
            lemma_without_key(s, k);
        },
        CacheOp::Fail(k) => {
            lemma_without_key(s, k);
        },
    }
}

/// Whatever calls are made, in whatever order, the cache never holds more
/// than `CACHE_LIMIT` entries, and no path twice.
pub proof fn lemma_cache_bounded(s: CacheModel, ops: Seq<CacheOp>)
    requires
        keys_unique(s),
        s.len() <= CACHE_LIMIT,
    ensures
        keys_unique(apply_ops(s, ops)),
        apply_ops(s, ops).len() <= CACHE_LIMIT,
    decreases ops.len(),
{
    if ops.len() > 0 {
        lemma_cache_bounded(s, ops.drop_last());
        lemma_op_keeps_bound(apply_ops(s, ops.drop_last()), ops.last());
    }
}

/// A new entry that finds the cache full first drops exactly the
/// `EVICT_BATCH` oldest entries, keeps the others in order, and then goes at
/// the end.
pub proof fn lemma_full_cache_evicts(s: CacheModel, k: Seq<char>, v: (Seq<u8>, bool))
    requires
        keys_unique(s),
        s.len() == CACHE_LIMIT,
        !has_key(s, k),
    ensures
        store_model(s, k, v) == s.skip(EVICT_BATCH as int).push((k, v)),
        store_model(s, k, v).len() == CACHE_LIMIT - EVICT_BATCH + 1,
{
}

/// A new entry that finds the cache short of full is added without dropping
/// any other: a cache of 199 entries grows to 200.
pub proof fn lemma_cache_below_limit_keeps_all(s: CacheModel, k: Seq<char>, v: (Seq<u8>, bool))
    requires
        s.len() < CACHE_LIMIT,
        !has_key(s, k),
    ensures
        store_model(s, k, v) == s.push((k, v)),
        store_model(s, k, v).len() == s.len() + 1,
{
}

/// Of any number of requests to begin loading one path, made one after
/// another on a cache without that path, exactly one is granted, and the
/// path is then marked as loading.
pub proof fn lemma_begin_load_granted_once(s: CacheModel, k: Seq<char>, n: nat)
    requires
        keys_unique(s),
        s.len() <= CACHE_LIMIT,
        !has_key(s, k),
        n >= 1,
    ensures
        begin_load_repeated(s, k, n).1 == 1,
        value_of(begin_load_repeated(s, k, n).0, k) == Some(loading_marker()),
    decreases n,
{
    if n == 1 {
        assert(begin_load_repeated(s, k, 0) == (s, 0nat));
        lemma_store_model(s, k, loading_marker());
    } else {
        lemma_begin_load_granted_once(s, k, (n - 1) as nat);
        let before = begin_load_repeated(s, k, (n - 1) as nat).0;
        assert(has_key(before, k));
    }
}

/// A load whose payload has `MAX_ASSET_BYTES` bytes or more leaves no entry
/// for its path.
pub proof fn lemma_oversized_load_dropped(s: CacheModel, k: Seq<char>, bytes: Seq<u8>)
    requires
        keys_unique(s),
        bytes.len() >= MAX_ASSET_BYTES,
    ensures
        !has_key(complete_model(s, k, bytes), k),
{
    lemma_without_key(s, k);
}

/// A failed load leaves no entry for its path, and the next request to begin
/// loading it is granted.
pub proof fn lemma_failed_load_retried(s: CacheModel, k: Seq<char>)
    requires
        keys_unique(s),
        s.len() <= CACHE_LIMIT,
    ensures
        !has_key(without_key(s, k), k),
        value_of(begin_load_model(without_key(s, k), k), k) == Some(loading_marker()),
{
    lemma_without_key(s, k);
    lemma_store_model(without_key(s, k), k, loading_marker());
}

/// After a directory is forgotten, the next query of it starts a new scan:
/// it reports `Started`, never the files of an earlier scan.
pub proof fn lemma_forget_then_rescan(s: StoreModel, k: Seq<char>, r: ScanPoll)
    requires
        keys_unique(s),
        poll_reports(without_key(s, k), k, r),
    ensures
        r is Started,
        peek_model(without_key(s, k), k) == without_key(s, k).push((k, None::<Seq<Seq<char>>>)),
{
    lemma_without_key(s, k);
}

} // verus!
