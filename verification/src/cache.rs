//! The result cache: a bounded store from normalised query to result list,
//! whose entries expire a fixed time after they were stored, or after they
//! were last read, whichever comes first.

use crate::entry::views;
use crate::entry::AtcCode;
use crate::entry::AtcCodeView;
use moka::sync::Cache;
use std::time::Duration;
use vstd::prelude::*;

verus! {

/// `moka::sync::Cache`, the concurrent cache that holds the results. Nothing
/// is known of what is inside it but what [`stored`] and [`limits`] name.
#[verifier::external_type_specification]
#[verifier::external_body]
#[verifier::reject_recursive_types(K)]
#[verifier::reject_recursive_types(V)]
#[verifier::reject_recursive_types(S)]
pub struct ExCache<K, V, S>(Cache<K, V, S>);

/// For each key, the value that was stored under it last. The cache may have
/// dropped any of them since, by expiry or to make room.
pub uninterp spec fn stored(cache: Cache<String, Vec<AtcCode>>) -> Map<Seq<char>, Seq<AtcCodeView>>;

/// The limits that a cache was built with: how many entries it holds at
/// most, and for how many seconds an entry lives after it was stored and
/// after it was last read.
pub uninterp spec fn limits(cache: Cache<String, Vec<AtcCode>>) -> (u64, u64, u64);

/// The longest time to live or to idle that the cache accepts, in seconds:
/// a thousand years of 365 days.
pub const MAX_SECS: u64 = 31_536_000_000;

/// `Cache::builder` of `moka::sync`, with `max_capacity`, `time_to_live`,
/// `time_to_idle` and `build`: a new cache with the given limits, under
/// whose keys nothing has been stored. `build` panics on a duration above a
/// thousand years.
#[verifier::external_body]
pub(crate) fn new_cache(
    max_entries: u64,
    live_secs: u64,
    idle_secs: u64,
) -> (cache: Cache<String, Vec<AtcCode>>)
    requires
        live_secs <= MAX_SECS,
        idle_secs <= MAX_SECS,
    ensures
        (stored(cache) == Map::<Seq<char>, Seq<AtcCodeView>>::empty()),
        (limits(cache) == (max_entries, live_secs, idle_secs)),
{
    Cache::builder()
        .max_capacity(max_entries)
        .time_to_live(Duration::from_secs(live_secs))
        .time_to_idle(Duration::from_secs(idle_secs))
        .build()
}

/// `Cache::get` of `moka::sync`: whether an entry is still there depends on
/// the clock and on what was evicted, so nothing is promised of a hit; but a
/// value that comes back is a copy of the one stored last under the key.
#[verifier::external_body]
pub(crate) fn cache_get(
    cache: &Cache<String, Vec<AtcCode>>,
    key: &str,
) -> (hit: Option<Vec<AtcCode>>)
    ensures
        hit matches Some(entries) ==> stored(*cache).contains_key(key@) && stored(*cache)[key@]
            == views(entries@),
{
    cache.get(key)
}

/// `Cache::insert` of `moka::sync`: stores the value under the key, in place
/// of what was stored under it before, and leaves the limits as they are.
/// It does not unwind: its one `expect` is on sending to a channel whose
/// receiver the cache itself keeps.
#[verifier::external_body]
pub(crate) fn cache_insert(
    cache: &mut Cache<String, Vec<AtcCode>>,
    key: String,
    value: Vec<AtcCode>,
)
    ensures
        stored(*final(cache)) == stored(*old(cache)).insert(key@, views(value@)),
        limits(*final(cache)) == limits(*old(cache)),
    no_unwind
{
    cache.insert(key, value);
}

} // verus!
