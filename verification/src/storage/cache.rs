//! A cache of stored objects: the least recently used ones leave first, and every object lives
//! for a limited time only.

use std::num::NonZeroUsize;
use std::time::Instant;

use bytes::Bytes;
use lru::LruCache;
use vstd::prelude::*;
use vstd::string::*;
use vstd::utf8::{
    decode_utf8, encode_utf8, encode_utf8_decode_utf8, encode_utf8_valid_utf8, valid_utf8,
};

use crate::buffer::{bytes_clone, bytes_len, bytes_seq, bytes_slice};
use crate::common::auth::{elapsed_ns, instant_now};
use crate::common::config::CacheConfig;
use crate::observability::metrics as obs;
use crate::observability::metrics::{all_measured, measured, Measurement, MetricChange, MetricUpdate};
use crate::package::manifest::{media_text, on_demand_playlists_carry_their_mark, Listing};
use crate::text;
use crate::text::{finishes_with, has_part};

verus! {

/// Most objects that the cache holds.
pub const CACHE_CAPACITY: usize = 100_000;

/// The line by which an on-demand playlist is told.
pub const ON_DEMAND_MARK: &'static str = "#EXT-X-PLAYLIST-TYPE:VOD";

// ---------------------------------------------------------------------------
// Entries
// ---------------------------------------------------------------------------

/// A cached object. Points in time are nanoseconds of a clock that never goes back.
#[derive(Debug)]
pub struct CacheEntry {
    pub data: Bytes,
    pub content_type: String,
    pub etag: String,
    pub inserted_at_ns: u64,
    pub ttl_secs: u64,
    pub size: u64,
}

/// What a cached object holds.
#[verifier::ext_equal]
pub struct CacheModel {
    pub data: Seq<u8>,
    pub content_type: Seq<char>,
    pub etag: Seq<char>,
    pub inserted_at_ns: u64,
    pub ttl_secs: u64,
    pub size: u64,
}

impl View for CacheEntry {
    type V = CacheModel;

    open spec fn view(&self) -> CacheModel {
        CacheModel {
            data: bytes_seq(self.data),
            content_type: self.content_type@,
            etag: self.etag@,
            inserted_at_ns: self.inserted_at_ns,
            ttl_secs: self.ttl_secs,
            size: self.size,
        }
    }
}

impl CacheModel {
    /// The object has outlived its time at `now`.
    pub open spec fn expired(self, now_ns: u64) -> bool {
        now_ns - self.inserted_at_ns > self.ttl_secs * 1_000_000_000
    }
}

impl CacheEntry {
    /// A copy of the entry.
    pub fn copy(&self) -> (r: Self)
        ensures
            r@ == self@,
    {
        CacheEntry {
            data: bytes_clone(&self.data),
            content_type: self.content_type.clone(),
            etag: self.etag.clone(),
            inserted_at_ns: self.inserted_at_ns,
            ttl_secs: self.ttl_secs,
            size: self.size,
        }
    }

    /// Whether the object has outlived its time at `now`.
    pub fn is_expired(&self, now_ns: u64) -> (r: bool)
        ensures
            r == self@.expired(now_ns),
    {
        let age: i128 = now_ns as i128 - self.inserted_at_ns as i128;
        age > self.ttl_secs as i128 * 1_000_000_000
    }
}

// ---------------------------------------------------------------------------
// The outside cache
// ---------------------------------------------------------------------------

#[verifier::external_type_specification]
#[verifier::external_body]
#[verifier::reject_recursive_types(K)]
#[verifier::reject_recursive_types(V)]
#[verifier::reject_recursive_types(S)]
pub struct ExLruCache<K, V, S>(lru::LruCache<K, V, S>);

#[verifier::external_type_specification]
#[verifier::external_body]
pub struct ExLruHasher(lru::DefaultHasher);

/// A cached object under its key.
pub type Cached = (Seq<char>, CacheModel);

/// What a cache holds, the most recently used first.
pub uninterp spec fn cached(c: LruCache<String, CacheEntry>) -> Seq<Cached>;

/// How many objects a cache holds at most.
pub uninterp spec fn capacity(c: LruCache<String, CacheEntry>) -> nat;

/// The key stands at `i`.
pub open spec fn found_at(s: Seq<Cached>, key: Seq<char>, i: int) -> bool {
    0 <= i < s.len() && s[i].0 == key
}

/// The key is cached.
pub open spec fn holds(s: Seq<Cached>, key: Seq<char>) -> bool {
    exists|i: int| found_at(s, key, i)
}

/// What is cached under a key.
pub open spec fn value(s: Seq<Cached>, key: Seq<char>) -> CacheModel {
    s[choose|i: int| found_at(s, key, i)].1
}

/// The rest, without a key.
#[verifier::opaque]
pub open spec fn without(s: Seq<Cached>, key: Seq<char>) -> Seq<Cached> {
    s.filter(|p: Cached| p.0 != key)
}

/// The rest, with an object in front.
pub open spec fn in_front(s: Seq<Cached>, key: Seq<char>, m: CacheModel) -> Seq<Cached> {
    seq![(key, m)] + s
}

/// What is left to make room for one more: all but the least recently used where the cache is
/// full.
pub open spec fn with_room(s: Seq<Cached>, cap: nat) -> Seq<Cached> {
    if s.len() == cap {
        s.drop_last()
    } else {
        s
    }
}

/// `LruCache::new`: an empty cache of the given capacity.
#[verifier::external_body]
fn lru_new(cap: usize) -> (r: LruCache<String, CacheEntry>)
    requires
        0 < cap <= 0x100_0000,
    ensures
        cached(r).len() == 0,
        capacity(r) == cap,
{
    LruCache::new(NonZeroUsize::new(cap).expect("capacity above zero"))
}

/// `LruCache::get`: a copy of what is cached under the key, which becomes the most recently used.
#[verifier::external_body]
fn lru_get(c: &mut LruCache<String, CacheEntry>, key: &str) -> (r: Option<CacheEntry>)
    ensures
        r is Some <==> holds(cached(*old(c)), key@),
        r matches Some(e) ==> e@ == value(cached(*old(c)), key@),
        capacity(*final(c)) == capacity(*old(c)),
        cached(*final(c)) == if holds(cached(*old(c)), key@) {
            in_front(without(cached(*old(c)), key@), key@, value(cached(*old(c)), key@))
        } else {
            cached(*old(c))
        },
{
    c.get(key).map(|e| e.copy())
}

/// `LruCache::pop`: takes out what is cached under the key.
#[verifier::external_body]
fn lru_pop(c: &mut LruCache<String, CacheEntry>, key: &str) -> (r: Option<CacheEntry>)
    ensures
        r is Some <==> holds(cached(*old(c)), key@),
        r matches Some(e) ==> e@ == value(cached(*old(c)), key@),
        capacity(*final(c)) == capacity(*old(c)),
        cached(*final(c)) == without(cached(*old(c)), key@),
{
    c.pop(key)
}

/// `LruCache::pop_lru`: takes out the least recently used object.
#[verifier::external_body]
fn lru_pop_lru(c: &mut LruCache<String, CacheEntry>) -> (r: Option<CacheEntry>)
    ensures
        r is Some <==> cached(*old(c)).len() > 0,
        r matches Some(e) ==> e@ == cached(*old(c)).last().1,
        capacity(*final(c)) == capacity(*old(c)),
        cached(*old(c)).len() > 0 ==> cached(*final(c)) == cached(*old(c)).drop_last(),
        cached(*old(c)).len() == 0 ==> cached(*final(c)) == cached(*old(c)),
{
    c.pop_lru().map(|e| e.1)
}

/// `LruCache::put`, of a key that is not cached: the object becomes the most recently used, and
/// where the cache is full the least recently used one leaves.
#[verifier::external_body]
fn lru_put(c: &mut LruCache<String, CacheEntry>, key: String, entry: CacheEntry)
    requires
        !holds(cached(*old(c)), key@),
    ensures
        capacity(*final(c)) == capacity(*old(c)),
        cached(*final(c)) == in_front(
            with_room(cached(*old(c)), capacity(*old(c))),
            key@,
            entry@,
        ),
{
    c.put(key, entry);
}

/// `LruCache::len`: the number of cached objects.
#[verifier::external_body]
fn lru_len(c: &LruCache<String, CacheEntry>) -> (r: usize)
    ensures
        r == cached(*c).len(),
{
    c.len()
}

// ---------------------------------------------------------------------------
// The object cache
// ---------------------------------------------------------------------------

/// The sum of the sizes.
pub open spec fn total_size(s: Seq<Cached>) -> nat
    decreases s.len(),
{
    if s.len() == 0 {
        0
    } else {
        (total_size(s.drop_last()) + s.last().1.size) as nat
    }
}

/// What is left after the least recently used objects have left until one more of the given size
/// fits.
pub open spec fn evicted(s: Seq<Cached>, room: u64, max: u64) -> Seq<Cached>
    decreases s.len(),
{
    if total_size(s) + room > max && s.len() > 0 {
        evicted(s.drop_last(), room, max)
    } else {
        s
    }
}

/// Seconds that an object lives, by its key alone.
pub open spec fn key_ttl(key: Seq<char>, config: CacheConfig) -> u64 {
    if finishes_with(key, ".m4s"@) || finishes_with(key, "init.mp4"@) {
        config.segment_ttl_secs
    } else if finishes_with(key, "master.m3u8"@) {
        config.ttl_secs
    } else if finishes_with(key, "media.m3u8"@) {
        1
    } else {
        config.ttl_secs
    }
}

/// A playlist says that it is played on demand.
pub open spec fn says_on_demand(data: Seq<u8>) -> bool {
    valid_utf8(data) && has_part(decode_utf8(data), ON_DEMAND_MARK@)
}

/// Seconds that an object lives: an on-demand media playlist as long as a segment, any other
/// object by its key.
pub open spec fn ttl_of(key: Seq<char>, data: Seq<u8>, config: CacheConfig) -> u64 {
    if finishes_with(key, "media.m3u8"@) && says_on_demand(data) {
        config.segment_ttl_secs
    } else {
        key_ttl(key, config)
    }
}

/// No key is cached twice.
pub open spec fn unique(s: Seq<Cached>) -> bool {
    forall|i: int, j: int| 0 <= i < j < s.len() ==> (#[trigger] s[i]).0 != (#[trigger] s[j]).0
}

/// The size of every object is told as it is.
pub open spec fn sized(s: Seq<Cached>) -> bool {
    forall|i: int| 0 <= i < s.len() ==> (#[trigger] s[i]).1.size == s[i].1.data.len()
}

/// A cache of stored objects.
pub struct ObjectCache {
    cache: LruCache<String, CacheEntry>,
    config: CacheConfig,
    current_size: u64,
    started: Instant,
}

impl ObjectCache {
    /// What is cached, the most recently used first.
    pub closed spec fn held(self) -> Seq<Cached> {
        cached(self.cache)
    }

    /// The size that is counted.
    pub closed spec fn counted(self) -> u64 {
        self.current_size
    }

    /// The configuration.
    pub closed spec fn settings(self) -> CacheConfig {
        self.config
    }

    /// How many objects are cached at most.
    pub closed spec fn cap(self) -> nat {
        capacity(self.cache)
    }

    /// No key is cached twice, the bytes of all objects are counted, and they stay within the
    /// limit.
    pub open spec fn wf(self) -> bool {
        &&& unique(self.held())
        &&& sized(self.held())
        &&& self.held().len() <= self.cap()
        &&& self.cap() == CACHE_CAPACITY
        &&& self.counted() == total_size(self.held())
        &&& self.counted() <= self.settings().max_size_bytes
    }

    /// An empty cache.
    pub fn new(config: &CacheConfig) -> (r: Self)
        ensures
            r.wf(),
            r.held() == Seq::<Cached>::empty(),
            r.counted() == 0,
            r.settings() == *config,
    {
        let r = ObjectCache {
            cache: lru_new(CACHE_CAPACITY),
            config: *config,
            current_size: 0,
            started: instant_now(),
        };
        assert(r.held() =~= Seq::<Cached>::empty());
        r
    }

    /// What a read at `now` finds: an object that has not outlived its time.
    pub open spec fn found(self, key: Seq<char>, now_ns: u64) -> Option<CacheModel> {
        if holds(self.held(), key) && !value(self.held(), key).expired(now_ns) {
            Some(value(self.held(), key))
        } else {
            None
        }
    }

    /// What a read at `now` does: an object that has outlived its time is dropped; any other one
    /// becomes the most recently used.
    pub open spec fn looked_up(self, after: Self, key: Seq<char>, now_ns: u64) -> bool {
        &&& after.settings() == self.settings()
        &&& after.cap() == self.cap()
        &&& if !holds(self.held(), key) {
            &&& after.held() == self.held()
            &&& after.counted() == self.counted()
        } else if value(self.held(), key).expired(now_ns) {
            &&& after.held() == without(self.held(), key)
            &&& after.counted() == self.counted() - value(self.held(), key).size
        } else {
            &&& after.held() == in_front(
                without(self.held(), key),
                key,
                value(self.held(), key),
            )
            &&& after.counted() == self.counted()
        }
    }

    /// What a read at `now` does and returns.
    pub open spec fn read(
        self,
        after: Self,
        key: Seq<char>,
        now_ns: u64,
        r: Option<(Bytes, String, String)>,
    ) -> bool {
        &&& self.looked_up(after, key, now_ns)
        &&& match r {
            Some(got) => {
                &&& self.found(key, now_ns) matches Some(m)
                &&& bytes_seq(got.0) == m.data
                &&& got.1@ == m.content_type
                &&& got.2@ == m.etag
            },
            None => self.found(key, now_ns) is None,
        }
    }

    /// Nanoseconds that the cache has existed.
    pub fn now_ns(&self) -> u64 {
        elapsed_ns(&self.started)
    }

    /// Reads an object, now. Returns its bytes, its content type and its entity tag.
    pub fn get(&mut self, key: &str) -> (r: Option<(Bytes, String, String)>)
        requires
            old(self).wf(),
        ensures
            final(self).wf(),
            exists|now: u64| #[trigger] old(self).read(*final(self), key@, now, r),
    {
        let now = self.now_ns();
        let r = self.get_at(key, now);
        assert(old(self).read(*self, key@, now, r));
        r
    }

    /// Reads an object at `now`.
    pub fn get_at(&mut self, key: &str, now_ns: u64) -> (r: Option<(Bytes, String, String)>)
        requires
            old(self).wf(),
        ensures
            final(self).wf(),
            old(self).read(*final(self), key@, now_ns, r),
    {
        let ghost before = self.held();
        match lru_get(&mut self.cache, key) {
            None => None,
            Some(entry) => {
                let ghost m = value(before, key@);
                proof {
                    lemma_without(before, key@);
                    lemma_total_in_front(without(before, key@), key@, m);
                    lemma_front(without(before, key@), key@, m);
                }
                if entry.is_expired(now_ns) {
                    let popped = lru_pop(&mut self.cache, key);
                    proof {
                        lemma_without_front(without(before, key@), key@, m);
                    }
                    if let Some(e) = popped {
                        self.current_size = self.current_size - e.size;
                    }
                    None
                } else {
                    Some((bytes_clone(&entry.data), entry.content_type, entry.etag))
                }
            },
        }
    }

    /// What a write at `now` does: nothing where the cache is off or the object exceeds half of
    /// the limit; else an earlier object of the same key leaves, the least recently used ones
    /// leave where the cache would exceed its limit or is full, and the object becomes the most
    /// recently used.
    pub open spec fn written(
        self,
        after: Self,
        key: Seq<char>,
        data: Seq<u8>,
        content_type: Seq<char>,
        etag: Seq<char>,
        now_ns: u64,
    ) -> bool {
        &&& after.settings() == self.settings()
        &&& after.cap() == self.cap()
        &&& if !self.takes(data) {
            after.held() == self.held() && after.counted() == self.counted()
        } else {
            let size = data.len() as u64;
            let rest = evicted(
                without(self.held(), key),
                size,
                self.settings().max_size_bytes,
            );
            let left = with_room(rest, self.cap());
            &&& after.held() == in_front(
                left,
                key,
                CacheModel {
                    data,
                    content_type,
                    etag,
                    inserted_at_ns: now_ns,
                    ttl_secs: ttl_of(key, data, self.settings()),
                    size,
                },
            )
            &&& after.counted() == total_size(left) + size
        }
    }

    /// The cache is on and the object is small enough.
    pub open spec fn takes(self, data: Seq<u8>) -> bool {
        self.settings().enabled && data.len() <= self.settings().max_size_bytes / 2
    }

    /// Caches an object, now. Returns the gauges where they changed.
    pub fn put(&mut self, key: &str, data: Bytes, content_type: &str, etag: &str) -> (r: Vec<
        MetricUpdate,
    >)
        requires
            old(self).wf(),
        ensures
            final(self).wf(),
            all_measured(r@) == if old(self).takes(bytes_seq(data)) {
                final(self).gauged()
            } else {
                Seq::<Measurement>::empty()
            },
            exists|now: u64| #[trigger]
                old(self).written(
                    *final(self),
                    key@,
                    bytes_seq(data),
                    content_type@,
                    etag@,
                    now,
                ),
    {
        let now = self.now_ns();
        let ghost bytes = bytes_seq(data);
        let r = self.put_at(key, data, content_type, etag, now);
        assert(old(self).written(*self, key@, bytes, content_type@, etag@, now));
        r
    }

    /// Caches an object at `now`. Returns the gauges where they changed.
    pub fn put_at(
        &mut self,
        key: &str,
        data: Bytes,
        content_type: &str,
        etag: &str,
        now_ns: u64,
    ) -> (r: Vec<MetricUpdate>)
        requires
            old(self).wf(),
        ensures
            final(self).wf(),
            all_measured(r@) == if old(self).takes(bytes_seq(data)) {
                final(self).gauged()
            } else {
                Seq::<Measurement>::empty()
            },
            old(self).written(
                *final(self),
                key@,
                bytes_seq(data),
                content_type@,
                etag@,
                now_ns,
            ),
    {
        if !self.config.enabled {
            return Vec::new();
        }
        let ttl_secs = self.ttl_for_object(key, &data);
        let size: u64 = bytes_len(&data) as u64;
        if size > self.config.max_size_bytes / 2 {
            return Vec::new();
        }
        let entry = CacheEntry {
            data,
            content_type: text::owned(content_type),
            etag: text::owned(etag),
            inserted_at_ns: now_ns,
            ttl_secs,
            size,
        };
        let max = self.config.max_size_bytes;
        self.invalidate(key);
        let ghost before = *self;
        let ghost target = evicted(self.held(), size, max);
        while self.current_size > max - size && lru_len(&self.cache) > 0
            invariant
                self.wf(),
                size <= max / 2,
                max == self.config.max_size_bytes,
                self.config == before.config,
                self.started == before.started,
                self.cap() == before.cap(),
                !holds(self.held(), key@),
                target == evicted(self.held(), size, max),
            decreases self.held().len(),
        {
            self.drop_oldest();
        }
        assert(total_size(Seq::<Cached>::empty()) == 0);
        assert(self.held().len() == 0 ==> self.held() =~= Seq::<Cached>::empty());
        assert(target == self.held());
        if lru_len(&self.cache) == CACHE_CAPACITY {
            self.drop_oldest();
        }
        let ghost left = self.held();
        assert(left == with_room(target, self.cap()));
        lru_put(&mut self.cache, text::owned(key), entry);
        proof {
            assert(with_room(left, self.cap()) == left);
            lemma_front(left, key@, entry@);
            lemma_total_in_front(left, key@, entry@);
        }
        self.current_size = self.current_size + size;
        self.gauges()
    }

    /// Drops the least recently used object.
    fn drop_oldest(&mut self)
        requires
            old(self).wf(),
            old(self).held().len() > 0,
        ensures
            final(self).wf(),
            final(self).config == old(self).config,
            final(self).started == old(self).started,
            final(self).cap() == old(self).cap(),
            final(self).held() == old(self).held().drop_last(),
            forall|k: Seq<char>| #[trigger]
                holds(final(self).held(), k) ==> holds(old(self).held(), k),
    {
        proof {
            lemma_drop_last(self.held());
        }
        match lru_pop_lru(&mut self.cache) {
            Some(e) => {
                self.current_size = self.current_size - e.size;
            },
            None => {},
        }
    }

    /// Drops an object.
    pub fn invalidate(&mut self, key: &str)
        requires
            old(self).wf(),
        ensures
            final(self).wf(),
            final(self).settings() == old(self).settings(),
            final(self).cap() == old(self).cap(),
            final(self).held() == without(old(self).held(), key@),
            !holds(final(self).held(), key@),
    {
        proof {
            lemma_without(self.held(), key@);
        }
        if let Some(e) = lru_pop(&mut self.cache, key) {
            self.current_size = self.current_size - e.size;
        }
    }

    /// Seconds that an object lives: an on-demand media playlist as long as a segment, any other
    /// object by its key.
    pub fn ttl_for_object(&self, key: &str, data: &Bytes) -> (r: u64)
        ensures
            r == ttl_of(key@, bytes_seq(*data), self.settings()),
    {
        if text::ends_with(key, "media.m3u8") {
            if let Some(playlist) = text::text_of_utf8(bytes_slice(data)) {
                if text::contains(&playlist, ON_DEMAND_MARK) {
                    return self.config.segment_ttl_secs;
                }
            }
        }
        self.ttl_for_key(key)
    }

    /// Seconds that an object lives, by its key alone: segments long, live playlists one second.
    pub fn ttl_for_key(&self, key: &str) -> (r: u64)
        ensures
            r == key_ttl(key@, self.settings()),
    {
        if text::ends_with(key, ".m4s") || text::ends_with(key, "init.mp4") {
            self.config.segment_ttl_secs
        } else if text::ends_with(key, "master.m3u8") {
            self.config.ttl_secs
        } else if text::ends_with(key, "media.m3u8") {
            1
        } else {
            self.config.ttl_secs
        }
    }

    /// The number of cached objects.
    pub fn entry_count(&self) -> (r: usize)
        ensures
            r == self.held().len(),
    {
        lru_len(&self.cache)
    }

    /// The size that is counted.
    pub fn current_size_bytes(&self) -> (r: u64)
        ensures
            r == self.counted(),
    {
        self.current_size
    }

    /// The gauges of the cache.
    pub open spec fn gauged(self) -> Seq<Measurement> {
        seq![
            measured(
                "streaminfa_cache_size_bytes"@,
                MetricChange::GaugeCount(self.counted()),
            ),
            measured(
                "streaminfa_cache_entries"@,
                MetricChange::GaugeSet(self.held().len() as i64),
            ),
        ]
    }

    fn gauges(&self) -> (r: Vec<MetricUpdate>)
        requires
            self.wf(),
        ensures
            all_measured(r@) == self.gauged(),
    {
        let mut out: Vec<MetricUpdate> = Vec::new();
        out.push(obs::set_cache_size_bytes(self.current_size));
        out.push(obs::set_cache_entries(lru_len(&self.cache) as i64));
        assert(all_measured(out@) =~= self.gauged());
        out
    }
}

// ---------------------------------------------------------------------------
// Lemmas on what is cached
// ---------------------------------------------------------------------------

/// One step of taking a key out.
proof fn lemma_without_step(s: Seq<Cached>, key: Seq<char>)
    ensures
        s.len() == 0 ==> without(s, key) == Seq::<Cached>::empty(),
        s.len() > 0 && s.last().0 == key ==> without(s, key) == without(s.drop_last(), key),
        s.len() > 0 && s.last().0 != key ==> without(s, key) == without(
            s.drop_last(),
            key,
        ).push(s.last()),
{
    reveal(Seq::filter);
    reveal(without);
    if s.len() == 0 {
        assert(without(s, key) =~= Seq::<Cached>::empty());
    }
}

/// Without a key, the rest is unique and no longer than before; and where the key was cached,
/// its object and the rest make up the whole size.
proof fn lemma_without(s: Seq<Cached>, key: Seq<char>)
    requires
        unique(s),
    ensures
        unique(without(s, key)),
        sized(s) ==> sized(without(s, key)),
        !holds(without(s, key), key),
        without(s, key).len() <= s.len(),
        holds(s, key) ==> without(s, key).len() == s.len() - 1,
        holds(s, key) ==> total_size(s) == total_size(without(s, key)) + value(s, key).size,
        !holds(s, key) ==> without(s, key) == s,
        forall|k: Seq<char>| #[trigger] holds(without(s, key), k) ==> holds(s, k),
    decreases s.len(),
{
    lemma_without_step(s, key);
    let w = without(s, key);
    if s.len() > 0 {
        let t = s.drop_last();
        let last = s.last();
        assert(unique(t));
        lemma_without(t, key);
        assert(sized(s) ==> sized(t));
        assert(sized(s) ==> s[s.len() - 1].1.size == s[s.len() - 1].1.data.len());
        let wt = without(t, key);
        assert forall|k: Seq<char>| holds(s, k) == (holds(t, k) || last.0 == k) by {
            if holds(t, k) {
                let i = choose|i: int| found_at(t, k, i);
                assert(found_at(s, k, i));
            }
            if last.0 == k {
                assert(found_at(s, k, s.len() - 1));
            }
            if holds(s, k) {
                let i = choose|i: int| found_at(s, k, i);
                if i < t.len() {
                    assert(found_at(t, k, i));
                }
            }
        }
        assert(!holds(t, last.0)) by {
            if holds(t, last.0) {
                let i = choose|i: int| found_at(t, last.0, i);
                assert(s[i].0 != s[s.len() - 1].0);
            }
        }
        assert forall|k: Seq<char>| holds(t, k) implies value(s, k) == value(t, k) by {
            let i = choose|i: int| found_at(t, k, i);
            assert(found_at(s, k, i));
            lemma_value(s, k, i);
            lemma_value(t, k, i);
        }
        lemma_value(s, last.0, s.len() - 1);
        if last.0 == key {
            assert(w == wt);
            assert(wt == t);
        } else {
            assert(w == wt.push(last));
            assert(w.drop_last() =~= wt);
            assert forall|k: Seq<char>| holds(w, k) == (holds(wt, k) || last.0 == k) by {
                if holds(wt, k) {
                    let i = choose|i: int| found_at(wt, k, i);
                    assert(found_at(w, k, i));
                }
                if last.0 == k {
                    assert(found_at(w, k, w.len() - 1));
                }
                if holds(w, k) {
                    let i = choose|i: int| found_at(w, k, i);
                    if i < wt.len() {
                        assert(found_at(wt, k, i));
                    }
                }
            }
            assert(!holds(wt, last.0));
            assert forall|i: int, j: int| 0 <= i < j < w.len() implies (#[trigger] w[i]).0 != (
            #[trigger] w[j]).0 by {
                if j == w.len() - 1 {
                    if w[i].0 == last.0 {
                        assert(found_at(wt, last.0, i));
                    }
                }
            }
            if !holds(s, key) {
                assert(w =~= s);
            }
        }
    } else {
        assert(w =~= s);
    }
}

/// In a unique sequence, the object under a key is the one at its only place.
proof fn lemma_value(s: Seq<Cached>, key: Seq<char>, i: int)
    requires
        unique(s),
        found_at(s, key, i),
    ensures
        value(s, key) == s[i].1,
{
    let j = choose|j: int| found_at(s, key, j);
    assert(j == i);
}

proof fn lemma_total_in_front(s: Seq<Cached>, key: Seq<char>, m: CacheModel)
    ensures
        total_size(in_front(s, key, m)) == total_size(s) + m.size,
    decreases s.len(),
{
    let f = in_front(s, key, m);
    if s.len() == 0 {
        assert(f.drop_last() =~= Seq::<Cached>::empty());
        assert(total_size(f.drop_last()) == 0);
    } else {
        lemma_total_in_front(s.drop_last(), key, m);
        assert(f.drop_last() =~= in_front(s.drop_last(), key, m));
    }
}

/// An object in front of a sequence without its key.
proof fn lemma_front(s: Seq<Cached>, key: Seq<char>, m: CacheModel)
    requires
        unique(s),
        !holds(s, key),
    ensures
        unique(in_front(s, key, m)),
        holds(in_front(s, key, m), key),
        value(in_front(s, key, m), key) == m,
{
    let f = in_front(s, key, m);
    assert forall|i: int, j: int| 0 <= i < j < f.len() implies (#[trigger] f[i]).0 != (
    #[trigger] f[j]).0 by {
        if i == 0 {
            if f[j].0 == key {
                assert(found_at(s, key, j - 1));
            }
        } else {
            assert(f[i] == s[i - 1] && f[j] == s[j - 1]);
        }
    }
    assert(found_at(f, key, 0));
    lemma_value(f, key, 0);
}

proof fn lemma_without_front(s: Seq<Cached>, key: Seq<char>, m: CacheModel)
    requires
        unique(s),
        !holds(s, key),
    ensures
        without(in_front(s, key, m), key) == s,
    decreases s.len(),
{
    let f = in_front(s, key, m);
    lemma_without_step(f, key);
    if s.len() == 0 {
        assert(f.drop_last() =~= Seq::<Cached>::empty());
        lemma_without_step(f.drop_last(), key);
        assert(without(f, key) =~= s);
    } else {
        let t = s.drop_last();
        assert(!holds(t, key)) by {
            if holds(t, key) {
                let i = choose|i: int| found_at(t, key, i);
                assert(found_at(s, key, i));
            }
        }
        lemma_without_front(t, key, m);
        assert(f.drop_last() =~= in_front(t, key, m));
        assert(f.last() == s.last());
        assert(s.last().0 != key) by {
            if s.last().0 == key {
                assert(found_at(s, key, s.len() - 1));
            }
        }
        assert(without(f, key) == t.push(s.last()));
        assert(s =~= t.push(s.last()));
    }
}

proof fn lemma_drop_last(s: Seq<Cached>)
    requires
        unique(s),
    ensures
        s.len() > 0 ==> unique(s.drop_last()),
        s.len() > 0 ==> total_size(s) == total_size(s.drop_last()) + s.last().1.size,
        forall|k: Seq<char>| s.len() > 0 && #[trigger] holds(s.drop_last(), k) ==> holds(s, k),
    decreases s.len(),
{
    if s.len() > 0 {
        let t = s.drop_last();
        lemma_drop_last(t);
        assert forall|k: Seq<char>| #[trigger] holds(t, k) implies holds(s, k) by {
            let i = choose|i: int| found_at(t, k, i);
            assert(found_at(s, k, i));
        }
    }
}

/// A look that finds nothing leaves nothing of the key.
pub(crate) proof fn lemma_missed(before: ObjectCache, after: ObjectCache, key: Seq<char>, now_ns: u64)
    requires
        before.wf(),
        before.found(key, now_ns) is None,
        before.looked_up(after, key, now_ns),
    ensures
        !holds(after.held(), key),
{
    lemma_without(before.held(), key);
}

/// After a write of a key that was not cached, a read finds what was written or nothing.
pub(crate) proof fn lemma_found_as_written(
    before: ObjectCache,
    after: ObjectCache,
    key: Seq<char>,
    data: Seq<u8>,
    content_type: Seq<char>,
    etag: Seq<char>,
    put_ns: u64,
    get_ns: u64,
)
    requires
        after.wf(),
        !holds(before.held(), key),
        before.written(after, key, data, content_type, etag, put_ns),
    ensures
        after.found(key, get_ns) matches Some(m) ==> {
            &&& m.data == data
            &&& m.content_type == content_type
            &&& m.etag == etag
        },
{
    if before.takes(data) {
        assert(found_at(after.held(), key, 0));
        lemma_value(after.held(), key, 0);
    }
}

// ---------------------------------------------------------------------------
// Laws
// ---------------------------------------------------------------------------

/// An object that the cache takes is read back as it was, until it has outlived its time.
pub proof fn put_then_get(
    before: ObjectCache,
    mid: ObjectCache,
    after: ObjectCache,
    key: Seq<char>,
    data: Seq<u8>,
    content_type: Seq<char>,
    etag: Seq<char>,
    put_ns: u64,
    get_ns: u64,
    r: Option<(Bytes, String, String)>,
)
    requires
        before.wf(),
        mid.wf(),
        before.takes(data),
        before.written(mid, key, data, content_type, etag, put_ns),
        mid.read(after, key, get_ns, r),
        get_ns - put_ns <= ttl_of(key, data, before.settings()) * 1_000_000_000,
    ensures
        r is Some,
        bytes_seq((r->0).0) == data,
        (r->0).1@ == content_type,
        (r->0).2@ == etag,
{
    assert(found_at(mid.held(), key, 0));
    lemma_value(mid.held(), key, 0);
}

/// The bytes of the cached objects are counted exactly, and together never exceed the limit.
pub proof fn cached_bytes_stay_within_the_limit(c: ObjectCache)
    requires
        c.wf(),
    ensures
        sized(c.held()),
        c.counted() == total_size(c.held()),
        total_size(c.held()) <= c.settings().max_size_bytes,
{
}

/// Nothing but an earlier object of the same key leaves for an object that fits within the limit.
pub proof fn nothing_leaves_while_there_is_room(
    before: ObjectCache,
    after: ObjectCache,
    key: Seq<char>,
    data: Seq<u8>,
    content_type: Seq<char>,
    etag: Seq<char>,
    now_ns: u64,
)
    requires
        before.takes(data),
        before.written(after, key, data, content_type, etag, now_ns),
        total_size(without(before.held(), key)) + data.len() <= before.settings().max_size_bytes,
        without(before.held(), key).len() < before.cap(),
    ensures
        after.held().drop_first() == without(before.held(), key),
{
    assert(after.held().drop_first() =~= without(before.held(), key));
}

/// An on-demand playlist as the packager writes it is told as such.
pub proof fn on_demand_playlists_are_told(
    segments: Seq<Listing>,
    hls_version: u32,
    is_finished: bool,
)
    ensures
        says_on_demand(encode_utf8(media_text(segments, hls_version, true, is_finished))),
{
    let text = media_text(segments, hls_version, true, is_finished);
    encode_utf8_valid_utf8(text);
    encode_utf8_decode_utf8(text);
    on_demand_playlists_carry_their_mark(segments, hls_version, is_finished);
}

/// A cache that is off stays as it is.
pub proof fn disabled_cache_takes_nothing(
    before: ObjectCache,
    after: ObjectCache,
    key: Seq<char>,
    data: Seq<u8>,
    content_type: Seq<char>,
    etag: Seq<char>,
    now_ns: u64,
)
    requires
        !before.settings().enabled,
        before.written(after, key, data, content_type, etag, now_ns),
    ensures
        after.held() == before.held(),
        after.counted() == before.counted(),
{
}

/// Segments and on-demand media playlists live as long as is set for segments, other media playlists
/// for one second, and the rest as long as is set for objects.
pub proof fn objects_live_by_their_kind(path: Seq<char>, data: Seq<u8>, config: CacheConfig)
    ensures
        ttl_of(path + ".m4s"@, data, config) == config.segment_ttl_secs,
        ttl_of(path + "init.mp4"@, data, config) == config.segment_ttl_secs,
        ttl_of(path + "master.m3u8"@, data, config) == config.ttl_secs,
        says_on_demand(data) ==> ttl_of(path + "media.m3u8"@, data, config)
            == config.segment_ttl_secs,
        !says_on_demand(data) ==> ttl_of(path + "media.m3u8"@, data, config) == 1,
{
    reveal_strlit(".m4s");
    reveal_strlit("init.mp4");
    reveal_strlit("master.m3u8");
    reveal_strlit("media.m3u8");
    let a = path + ".m4s"@;
    let b = path + "init.mp4"@;
    let c = path + "master.m3u8"@;
    let d = path + "media.m3u8"@;
    lemma_suffix(path, ".m4s"@);
    lemma_suffix(path, "init.mp4"@);
    lemma_suffix(path, "master.m3u8"@);
    lemma_suffix(path, "media.m3u8"@);
    assert(a.last() == 's' && b.last() == '4' && c.last() == '8' && d.last() == '8');
    assert(c[c.len() - 6] == 'r' && d[d.len() - 6] == 'a');
    lemma_last_char(a, "media.m3u8"@);
    lemma_last_char(b, "media.m3u8"@);
    lemma_last_char(c, ".m4s"@);
    lemma_last_char(c, "init.mp4"@);
    lemma_last_char(d, ".m4s"@);
    lemma_last_char(d, "init.mp4"@);
    if finishes_with(c, "media.m3u8"@) {
        assert(c.subrange(c.len() - 10, c.len() as int)[4] == c[c.len() - 6]);
    }
    if finishes_with(d, "master.m3u8"@) {
        assert(d.subrange(d.len() - 11, d.len() as int)[5] == d[d.len() - 6]);
    }
}

proof fn lemma_suffix(path: Seq<char>, end: Seq<char>)
    ensures
        finishes_with(path + end, end),
{
    let s = path + end;
    assert(s.subrange(s.len() - end.len(), s.len() as int) =~= end);
}

proof fn lemma_last_char(s: Seq<char>, end: Seq<char>)
    requires
        s.len() > 0,
        end.len() > 0,
        s.last() != end.last(),
    ensures
        !finishes_with(s, end),
{
    if finishes_with(s, end) {
        assert(s.subrange(s.len() - end.len(), s.len() as int)[end.len() - 1] == s.last());
    }
}

proof fn lemma_evicted(s: Seq<Cached>, room: u64, max: u64)
    ensures
        evicted(s, room, max).len() <= s.len(),
        evicted(s, room, max) == s.subrange(0, evicted(s, room, max).len() as int),
        evicted(s, room, max).len() > 0 ==> total_size(evicted(s, room, max)) + room <= max,
        evicted(s, room, max).len() < s.len() ==> total_size(
            s.subrange(0, evicted(s, room, max).len() + 1int),
        ) + room > max,
    decreases s.len(),
{
    if total_size(s) + room > max && s.len() > 0 {
        let t = s.drop_last();
        lemma_evicted(t, room, max);
        let n = evicted(t, room, max).len() as int;
        assert(t.subrange(0, n) =~= s.subrange(0, n));
        if n < t.len() {
            assert(t.subrange(0, n + 1) =~= s.subrange(0, n + 1));
        } else {
            assert(s.subrange(0, n + 1) =~= s);
        }
    } else {
        assert(s.subrange(0, s.len() as int) =~= s);
    }
}

/// Only the least recently used objects leave for a new one, and no more of them than must: what
/// stays is the most recently used of the rest, in order, and one more would not have fitted.
pub proof fn the_least_recently_used_leave(
    before: ObjectCache,
    after: ObjectCache,
    key: Seq<char>,
    data: Seq<u8>,
    content_type: Seq<char>,
    etag: Seq<char>,
    now_ns: u64,
)
    requires
        before.takes(data),
        before.written(after, key, data, content_type, etag, now_ns),
        before.wf(),
    ensures
        ({
            let rest = without(before.held(), key);
            let n = after.held().len() - 1;
            &&& n >= 0
            &&& after.held()[0].0 == key
            &&& after.held()[0].1.data == data
            &&& after.held()[0].1.content_type == content_type
            &&& after.held()[0].1.etag == etag
            &&& after.held()[0].1.inserted_at_ns == now_ns
            &&& n <= rest.len()
            &&& after.held().drop_first() == rest.subrange(0, n)
            &&& n < rest.len() ==> total_size(rest.subrange(0, n + 1)) + data.len()
                > before.settings().max_size_bytes || n + 1 >= before.cap()
        }),
{
    let rest = without(before.held(), key);
    let max = before.settings().max_size_bytes;
    lemma_evicted(rest, data.len() as u64, max);
    let e = evicted(rest, data.len() as u64, max);
    let n = after.held().len() - 1;
    assert(after.held().drop_first() =~= with_room(e, before.cap()));
    assert(with_room(e, before.cap()) =~= rest.subrange(0, n));
}

/// An object that has outlived its time is not read; a read that finds an object makes it the most
/// recently used, and otherwise changes nothing.
pub proof fn reads_find_what_is_young(
    before: ObjectCache,
    after: ObjectCache,
    key: Seq<char>,
    now_ns: u64,
    r: Option<(Bytes, String, String)>,
)
    requires
        before.read(after, key, now_ns, r),
    ensures
        !holds(before.held(), key) ==> r is None && after.held() == before.held(),
        holds(before.held(), key) && now_ns - value(before.held(), key).inserted_at_ns > value(
            before.held(),
            key,
        ).ttl_secs * 1_000_000_000 ==> r is None && after.held() == without(before.held(), key),
        holds(before.held(), key) && now_ns - value(before.held(), key).inserted_at_ns <= value(
            before.held(),
            key,
        ).ttl_secs * 1_000_000_000 ==> r is Some && after.held() == seq![
            (key, value(before.held(), key)),
        ] + without(before.held(), key),
{
}

} // verus!
