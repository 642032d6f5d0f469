//! The freshness cache: the latest known result of each stop, with the time
//! at which it was recorded.

use crate::clock::Timestamp;
use vstd::hash_map::StringHashMap;
use vstd::prelude::*;

verus! {

/// The latest known result of one stop.
pub struct CacheEntry {
    /// The text to show: a stop's name and arrivals, or a message.
    pub value: String,
    /// When the entry was made.
    pub recorded_at: Timestamp,
}

/// A cache entry over a sequence of characters.
pub struct EntryView {
    pub value: Seq<char>,
    pub recorded_at: Timestamp,
}

impl View for CacheEntry {
    type V = EntryView;

    open spec fn view(&self) -> EntryView {
        EntryView { value: self.value@, recorded_at: self.recorded_at }
    }
}

/// The entry for a result that was produced at `now`.
pub fn record(arrival_times: String, now: Timestamp) -> (entry: CacheEntry)
    ensures
        entry@ == (EntryView { value: arrival_times@, recorded_at: now }),
{
    CacheEntry { value: arrival_times, recorded_at: now }
}

/// `cache` holds an entry for `id` that was recorded less than `window_secs`
/// seconds before `now`.
pub open spec fn fresh_in(
    cache: Map<Seq<char>, EntryView>,
    id: Seq<char>,
    window_secs: u64,
    now: Timestamp,
) -> bool {
    cache.contains_key(id) && now.within(cache[id].recorded_at, window_secs)
}

/// A map from stop identifiers to their latest results. An identifier has at
/// most one entry; a new one takes the place of the old; none is ever
/// removed.
pub struct FreshnessCache {
    entries: StringHashMap<CacheEntry>,
}

impl View for FreshnessCache {
    type V = Map<Seq<char>, EntryView>;

    closed spec fn view(&self) -> Map<Seq<char>, EntryView> {
        self.entries@.map_values(|entry: CacheEntry| entry@)
    }
}

impl FreshnessCache {
    /// A cache without entries.
    pub fn new() -> (cache: FreshnessCache)
        ensures
            cache@ == Map::<Seq<char>, EntryView>::empty(),
    {
        let cache = FreshnessCache { entries: StringHashMap::new() };
        assert(cache@ =~= Map::<Seq<char>, EntryView>::empty());
        cache
    }

    /// Makes `value`, recorded at `now`, the entry of `id`, in place of the
    /// entry that `id` had.
    pub fn put(&mut self, id: &str, value: String, now: Timestamp)
        ensures
            final(self)@ == old(self)@.insert(
                id@,
                EntryView { value: value@, recorded_at: now },
            ),
    {
        let entry = record(value, now);
        self.entries.insert(id.to_owned(), entry);
        assert(self@ =~= old(self)@.insert(id@, entry@));
    }

    /// The value of the entry of `id`, however old it is.
    pub fn get(&self, id: &str) -> (value: Option<String>)
        ensures
            match value {
                Some(text) => self@.contains_key(id@) && text@ == self@[id@].value,
                None => !self@.contains_key(id@),
            },
    {
        match self.entries.get(id) {
            Some(entry) => Some(entry.value.clone()),
            None => None,
        }
    }

    /// Whether `id` has an entry that was recorded less than `window_secs`
    /// seconds before `now`.
    pub fn is_fresh(&self, id: &str, window_secs: u64, now: Timestamp) -> (fresh: bool)
        ensures
            fresh == fresh_in(self@, id@, window_secs, now),
    {
        match self.entries.get(id) {
            Some(entry) => now.is_within(entry.recorded_at, window_secs),
            None => false,
        }
    }
}

} // verus!
