//! Who may publish, and who may administer.

use std::collections::hash_map::DefaultHasher;
use std::collections::HashMap;
use std::hash::Hasher;
use std::time::Instant;

use rand::Rng;
use subtle::ConstantTimeEq;
use vstd::prelude::*;
use vstd::std_specs::hash::*;
use vstd::string::*;
use vstd::utf8::*;

use crate::common::config::AuthConfig;
use crate::common::error::{IngestError, IngestFault};
use crate::common::security::{
    BRUTE_FORCE_BLOCK_SECS, BRUTE_FORCE_MAX_ATTEMPTS, BRUTE_FORCE_WINDOW_SECS, STREAM_KEY_PREFIX,
    STREAM_KEY_RANDOM_LENGTH,
};
use crate::common::types::StreamId;
use crate::text;
use crate::text::{begins_with, digit_char, views};

verus! {

broadcast use group_hash_axioms;

/// Cost factor of the hashes of stream keys and tokens.
pub const BCRYPT_COST: u32 = 10;

// ---------------------------------------------------------------------------
// Outside functions
// ---------------------------------------------------------------------------

#[verifier::external_type_specification]
#[verifier::external_body]
pub struct ExInstant(std::time::Instant);

/// `std::time::Instant::now`: the current point of the monotonic clock.
#[verifier::external_body]
pub(crate) fn instant_now() -> (r: Instant) {
    Instant::now()
}

/// `std::time::Instant::elapsed`: nanoseconds since the given point. Two calls may differ in any
/// way.
#[verifier::external_body]
pub(crate) fn elapsed_ns(since: &Instant) -> (r: u64) {
    since.elapsed().as_nanos() as u64
}

/// The text is what a bcrypt hash was made from, as `bcrypt::verify` decides it.
pub uninterp spec fn bcrypt_verified(text: Seq<char>, hash: Seq<char>) -> bool;

/// `bcrypt::verify`: depends on the text and the hash alone; a text that is no hash verifies
/// nothing.
#[verifier::external_body]
fn bcrypt_verify(text: &str, hash: &str) -> (r: bool)
    ensures
        r == bcrypt_verified(text@, hash@),
{
    bcrypt::verify(text, hash).unwrap_or(false)
}

/// A bcrypt hash names the cost at which it was made, in two digits behind its version.
pub open spec fn made_at_cost(hash: Seq<char>, cost: u32) -> bool {
    hash.len() == 60 && begins_with(
        hash,
        "$2b$"@ + seq![digit_char(cost as int / 10), digit_char(cost as int % 10)] + "$"@,
    )
}

/// `bcrypt::hash`: a salted hash that verifies the text and names the cost. The salt is random,
/// and the call fails where no randomness is to be had or the cost is out of range.
#[verifier::external_body]
fn bcrypt_hash(text: &str, cost: u32) -> (r: Option<String>)
    ensures
        r matches Some(h) ==> {
            &&& bcrypt_verified(text@, h@)
            &&& made_at_cost(h@, cost)
            &&& 4 <= cost <= 31
        },
{
    bcrypt::hash(text, cost).ok()
}

/// `rand::Rng::gen_range` of the thread's generator: some number below `n`. The crate panics on an
/// empty range.
#[verifier::external_body]
fn random_below(n: usize) -> (r: usize)
    requires
        n > 0,
    ensures
        r < n,
{
    rand::thread_rng().gen_range(0..n)
}

/// `subtle::ConstantTimeEq::ct_eq`: whether two runs of bytes are the same.
#[verifier::external_body]
fn same_bytes(a: &[u8], b: &[u8]) -> (r: bool)
    ensures
        r == (a@ == b@),
{
    a.ct_eq(b).unwrap_u8() == 1
}

// ---------------------------------------------------------------------------
// Stream keys
// ---------------------------------------------------------------------------

/// The number under which a stream key is looked up: its default hash.
pub open spec fn key_index(key: Seq<char>) -> u64 {
    DefaultHasher::spec_finish(seq![encode_utf8(key)])
}

/// Computes the number under which a stream key is looked up. It only finds candidates; the
/// decision is left to bcrypt.
pub fn fast_key_hash(key: &str) -> (r: u64)
    ensures
        r == key_index(key@),
{
    let mut hasher = DefaultHasher::new();
    hasher.write(key.as_bytes());
    assert(hasher@ =~= seq![encode_utf8(key@)]);
    hasher.finish()
}

/// A stored stream key.
#[derive(Debug)]
pub struct IngestKeyRecord {
    pub hash: String,
    pub fast_index: u64,
    pub stream_id: Option<StreamId>,
}

/// What is stored of a stream key.
#[verifier::ext_equal]
pub struct KeyModel {
    pub hash: Seq<char>,
    pub fast_index: u64,
    pub stream_id: Option<StreamId>,
}

impl View for IngestKeyRecord {
    type V = KeyModel;

    open spec fn view(&self) -> KeyModel {
        KeyModel { hash: self.hash@, fast_index: self.fast_index, stream_id: self.stream_id }
    }
}

/// What is stored of each stream key.
pub open spec fn key_models(k: Seq<IngestKeyRecord>) -> Seq<KeyModel> {
    k.map_values(|r: IngestKeyRecord| r@)
}

/// `i` is the last place with the lookup number `f`.
pub open spec fn last_with(keys: Seq<KeyModel>, f: u64, i: int) -> bool {
    &&& 0 <= i < keys.len()
    &&& keys[i].fast_index == f
    &&& forall|j: int| i < j < keys.len() ==> (#[trigger] keys[j]).fast_index != f
}

/// Some key has the lookup number `f`.
pub open spec fn has_index(keys: Seq<KeyModel>, f: u64) -> bool {
    exists|i: int| 0 <= i < keys.len() && (#[trigger] keys[i]).fast_index == f
}

/// Some stored hash verifies the key.
pub open spec fn verified_by_any(keys: Seq<KeyModel>, key: Seq<char>) -> bool {
    exists|i: int| 0 <= i < keys.len() && bcrypt_verified(key, (#[trigger] keys[i]).hash)
}

/// The key is accepted: always where none is stored; else where a stored key has its lookup
/// number and a stored hash verifies it.
pub open spec fn accepts(keys: Seq<KeyModel>, key: Seq<char>) -> bool {
    keys.len() == 0 || (has_index(keys, key_index(key)) && verified_by_any(keys, key))
}

/// The stream of the first stored key from `from` on that verifies and is bound to one.
pub open spec fn first_bound(keys: Seq<KeyModel>, key: Seq<char>, from: int) -> Option<StreamId>
    decreases keys.len() - from,
{
    if from < 0 || from >= keys.len() {
        None
    } else if bcrypt_verified(key, keys[from].hash) && keys[from].stream_id is Some {
        keys[from].stream_id
    } else {
        first_bound(keys, key, from + 1)
    }
}

/// The stream that a key belongs to.
pub open spec fn resolves_to(keys: Seq<KeyModel>, key: Seq<char>) -> Option<StreamId> {
    let f = key_index(key);
    if has_index(keys, f) {
        let i = choose|i: int| last_with(keys, f, i);
        if bcrypt_verified(key, keys[i].hash) {
            keys[i].stream_id
        } else {
            first_bound(keys, key, 0)
        }
    } else {
        None
    }
}

/// What hashes of keys say.
pub open spec fn hash_views(hashes: Seq<Option<String>>) -> Seq<Option<Seq<char>>> {
    hashes.map_values(
        |h: Option<String>|
            match h {
                Some(x) => Some(x@),
                None => None,
            },
    )
}

/// The records of keys with their hashes, in order and bound to no stream: one for each key that
/// could be hashed.
pub open spec fn hashed_records(keys: Seq<Seq<char>>, hashes: Seq<Option<Seq<char>>>) -> Seq<
    KeyModel,
>
    decreases keys.len(),
{
    if keys.len() == 0 || hashes.len() == 0 {
        Seq::empty()
    } else {
        let rest = hashed_records(keys.drop_last(), hashes.drop_last());
        match hashes.last() {
            Some(hash) => rest.push(
                KeyModel { hash, fast_index: key_index(keys.last()), stream_id: None },
            ),
            None => rest,
        }
    }
}

/// Each of the hashes was made of the key at its place, unless that key could not be hashed.
pub open spec fn hashes_of(hashes: Seq<Option<Seq<char>>>, keys: Seq<Seq<char>>) -> bool {
    &&& hashes.len() == keys.len()
    &&& forall|i: int|
        0 <= i < keys.len() ==> ((#[trigger] hashes[i]) matches Some(h) ==> bcrypt_verified(
            keys[i],
            h,
        ) && made_at_cost(h, BCRYPT_COST))
}

/// `records` stand for those of `keys` that could be hashed, in order and bound to no stream.
pub open spec fn stand_for(records: Seq<KeyModel>, keys: Seq<Seq<char>>) -> bool {
    exists|hashes: Seq<Option<Seq<char>>>| #[trigger]
        hashes_of(hashes, keys) && records == hashed_records(keys, hashes)
}

/// Stored stream keys with their lookup index.
#[derive(Debug)]
pub struct IngestKeyStore {
    keys: Vec<IngestKeyRecord>,
    index: HashMap<u64, usize>,
}

impl IngestKeyStore {
    /// What is stored.
    pub closed spec fn stored(self) -> Seq<KeyModel> {
        key_models(self.keys@)
    }

    /// The index leads from each lookup number to the last key that has it.
    pub closed spec fn wf(self) -> bool {
        indexes(self.index@, self.stored())
    }

    /// An empty store.
    pub fn new() -> (r: Self)
        ensures
            r.wf(),
            r.stored() == Seq::<KeyModel>::empty(),
    {
        let r = IngestKeyStore { keys: Vec::new(), index: HashMap::new() };
        assert(r.stored() =~= Seq::<KeyModel>::empty());
        r
    }

    /// Builds the index anew.
    fn rebuild_index(&mut self)
        ensures
            final(self).wf(),
            final(self).stored() == old(self).stored(),
    {
        self.index.clear();
        let mut i: usize = 0;
        let ghost all = self.stored();
        while i < self.keys.len()
            invariant
                i <= self.keys@.len(),
                self.stored() == all,
                self.stored() == old(self).stored(),
                indexes(self.index@, all.subrange(0, i as int)),
            decreases self.keys@.len() - i,
        {
            assert(all[i as int] == self.keys@[i as int]@);
            let ghost before = all.subrange(0, i as int);
            let ghost index = self.index@;
            self.index.insert(self.keys[i].fast_index, i);
            proof {
                lemma_index_push(index, before, all[i as int]);
                assert(before.push(all[i as int]) =~= all.subrange(0, i + 1));
            }
            i = i + 1;
        }
        assert(all.subrange(0, i as int) =~= all);
    }

    /// Adds a record.
    pub fn push(&mut self, record: IngestKeyRecord)
        requires
            old(self).wf(),
        ensures
            final(self).wf(),
            final(self).stored() == old(self).stored().push(record@),
    {
        let i = self.keys.len();
        let ghost before = self.stored();
        let ghost index = self.index@;
        self.index.insert(record.fast_index, i);
        self.keys.push(record);
        proof {
            assert(self.stored() =~= before.push(record@));
            lemma_index_push(index, before, record@);
        }
    }

    /// Adds a key whose hash is given; a key that could not be hashed is passed over.
    pub fn add_hashed(&mut self, key: &str, hash: Option<String>, stream_id: Option<StreamId>)
        requires
            old(self).wf(),
        ensures
            final(self).wf(),
            final(self).stored() == match hash {
                Some(h) => old(self).stored().push(
                    KeyModel { hash: h@, fast_index: key_index(key@), stream_id },
                ),
                None => old(self).stored(),
            },
    {
        if let Some(h) = hash {
            self.push(
                IngestKeyRecord { hash: h, fast_index: fast_key_hash(key), stream_id },
            );
        }
    }

    /// A store of the given keys, bound to no stream.
    pub fn from_keys(keys: &Vec<String>) -> (r: Self)
        ensures
            r.wf(),
            stand_for(r.stored(), views(keys@)),
    {
        let mut hashes: Vec<Option<String>> = Vec::new();
        let mut i: usize = 0;
        while i < keys.len()
            invariant
                i <= keys@.len(),
                hashes@.len() == i,
                forall|j: int|
                    0 <= j < i ==> ((#[trigger] hashes@[j]) matches Some(h) ==> bcrypt_verified(
                        keys@[j]@,
                        h@,
                    ) && made_at_cost(h@, BCRYPT_COST)),
            decreases keys@.len() - i,
        {
            hashes.push(bcrypt_hash(&keys[i], BCRYPT_COST));
            i = i + 1;
        }
        proof {
            let h = hash_views(hashes@);
            assert forall|j: int| 0 <= j < keys@.len() implies ((#[trigger] h[j]) matches Some(x)
                ==> bcrypt_verified(views(keys@)[j], x) && made_at_cost(x, BCRYPT_COST)) by {
                assert(hashes@[j] is Some == h[j] is Some);
            }
            assert(hashes_of(h, views(keys@)));
        }
        IngestKeyStore::from_hashed(keys, hashes)
    }

    /// A store of the given keys with their hashes, bound to no stream; a key that could not be
    /// hashed is passed over.
    pub fn from_hashed(keys: &Vec<String>, hashes: Vec<Option<String>>) -> (r: Self)
        requires
            hashes@.len() == keys@.len(),
        ensures
            r.wf(),
            r.stored() == hashed_records(views(keys@), hash_views(hashes@)),
    {
        let mut store = IngestKeyStore::new();
        let mut hashes = hashes;
        let ghost all = views(keys@);
        let ghost given = hash_views(hashes@);
        let ghost whole = hashes@;
        let mut i: usize = 0;
        proof {
            assert(all.subrange(0, 0) =~= Seq::empty());
            assert(whole.subrange(0, whole.len() as int) =~= hashes@);
        }
        while i < keys.len()
            invariant
                i <= keys@.len(),
                all == views(keys@),
                given == hash_views(whole),
                whole.len() == keys@.len(),
                hashes@ == whole.subrange(i as int, whole.len() as int),
                store.wf(),
                store.stored() == hashed_records(
                    all.subrange(0, i as int),
                    given.subrange(0, i as int),
                ),
            decreases keys@.len() - i,
        {
            let hash = hashes.remove(0);
            proof {
                assert(hash == whole[i as int]);
                assert(hashes@ =~= whole.subrange(i + 1, whole.len() as int));
                assert(all.subrange(0, i + 1).drop_last() =~= all.subrange(0, i as int));
                assert(given.subrange(0, i + 1).drop_last() =~= given.subrange(0, i as int));
                assert(all.subrange(0, i + 1).last() == keys@[i as int]@);
            }
            store.add_hashed(&keys[i], hash, None);
            i = i + 1;
        }
        proof {
            assert(all.subrange(0, i as int) =~= all);
            assert(given.subrange(0, i as int) =~= given);
        }
        store
    }

    /// Whether a key is accepted.
    pub fn accepts_key(&self, stream_key: &str) -> (r: bool)
        requires
            self.wf(),
        ensures
            r == accepts(self.stored(), stream_key@),
    {
        if self.keys.len() == 0 {
            return true;
        }
        let ghost all = self.stored();
        let f = fast_key_hash(stream_key);
        match self.index.get(&f) {
            Some(idx) => {
                let at: usize = *idx;
                assert(last_with(all, f, at as int));
                assert(all[at as int] == self.keys@[at as int]@);
                if bcrypt_verify(stream_key, &self.keys[at].hash) {
                    return true;
                }
            },
            None => {
                assert(!has_index(all, f)) by {
                    if has_index(all, f) {
                        assert(self.index@.contains_key(f));
                    }
                }
                return false;
            },
        }
        let mut i: usize = 0;
        while i < self.keys.len()
            invariant
                i <= self.keys@.len(),
                all == self.stored(),
                has_index(all, key_index(stream_key@)),
                forall|j: int|
                    0 <= j < i ==> !bcrypt_verified(stream_key@, (#[trigger] all[j]).hash),
            decreases self.keys@.len() - i,
        {
            assert(all[i as int] == self.keys@[i as int]@);
            if bcrypt_verify(stream_key, &self.keys[i].hash) {
                assert(bcrypt_verified(stream_key@, all[i as int].hash));
                return true;
            }
            i = i + 1;
        }
        false
    }

    /// The stream that a key belongs to.
    pub fn resolve(&self, stream_key: &str) -> (r: Option<StreamId>)
        requires
            self.wf(),
        ensures
            r == resolves_to(self.stored(), stream_key@),
    {
        let ghost all = self.stored();
        let f = fast_key_hash(stream_key);
        match self.index.get(&f) {
            Some(idx) => {
                let at: usize = *idx;
                assert(last_with(all, f, at as int));
                proof {
                    let i = choose|i: int| last_with(all, f, i);
                    assert(last_with(all, f, i));
                    assert(i == at) by {
                        if i < at {
                            assert(all[at as int].fast_index != f);
                        } else if at < i {
                            assert(all[i].fast_index != f);
                        }
                    }
                }
                assert(all[at as int] == self.keys@[at as int]@);
                if bcrypt_verify(stream_key, &self.keys[at].hash) {
                    return self.keys[at].stream_id;
                }
            },
            None => {
                assert(!has_index(all, f)) by {
                    if has_index(all, f) {
                        assert(self.index@.contains_key(f));
                    }
                }
                return None;
            },
        }
        let mut i: usize = 0;
        while i < self.keys.len()
            invariant
                i <= self.keys@.len(),
                all == self.stored(),
                resolves_to(all, stream_key@) == first_bound(all, stream_key@, 0),
                first_bound(all, stream_key@, 0) == first_bound(all, stream_key@, i as int),
            decreases self.keys@.len() - i,
        {
            assert(all[i as int] == self.keys@[i as int]@);
            if bcrypt_verify(stream_key, &self.keys[i].hash) && self.keys[i].stream_id.is_some() {
                return self.keys[i].stream_id;
            }
            i = i + 1;
        }
        None
    }

    /// Drops the keys that are bound to a stream.
    pub fn drop_stream(&mut self, stream_id: StreamId)
        requires
            old(self).wf(),
        ensures
            final(self).wf(),
            final(self).stored() == without_stream(old(self).stored(), stream_id),
    {
        let mut kept: Vec<IngestKeyRecord> = Vec::new();
        let mut i: usize = 0;
        let ghost all = self.stored();
        proof {
            reveal(Seq::filter);
            assert(all.subrange(0, 0) =~= Seq::empty());
            assert(key_models(kept@) =~= without_stream(all.subrange(0, 0), stream_id));
        }
        while i < self.keys.len()
            invariant
                i <= self.keys@.len(),
                all == self.stored(),
                key_models(kept@) == without_stream(all.subrange(0, i as int), stream_id),
            decreases self.keys@.len() - i,
        {
            let k = &self.keys[i];
            let bound = match k.stream_id {
                Some(id) => id == stream_id,
                None => false,
            };
            let ghost before = key_models(kept@);
            if !bound {
                kept.push(
                    IngestKeyRecord {
                        hash: k.hash.clone(),
                        fast_index: k.fast_index,
                        stream_id: k.stream_id,
                    },
                );
                assert(key_models(kept@) =~= before.push(k@));
            }
            proof {
                reveal(Seq::filter);
                assert(all[i as int] == k@);
                assert(all.subrange(0, i + 1).drop_last() =~= all.subrange(0, i as int));
            }
            i = i + 1;
        }
        assert(all.subrange(0, i as int) =~= all);
        self.keys = kept;
        self.rebuild_index();
    }

    /// Drops the keys with the given hash.
    pub fn drop_hash(&mut self, hash: &str)
        requires
            old(self).wf(),
        ensures
            final(self).wf(),
            final(self).stored() == without_hash(old(self).stored(), hash@),
    {
        let mut kept: Vec<IngestKeyRecord> = Vec::new();
        let mut i: usize = 0;
        let ghost all = self.stored();
        proof {
            reveal(Seq::filter);
            assert(all.subrange(0, 0) =~= Seq::empty());
            assert(key_models(kept@) =~= without_hash(all.subrange(0, 0), hash@));
        }
        while i < self.keys.len()
            invariant
                i <= self.keys@.len(),
                all == self.stored(),
                key_models(kept@) == without_hash(all.subrange(0, i as int), hash@),
            decreases self.keys@.len() - i,
        {
            let k = &self.keys[i];
            let ghost before = key_models(kept@);
            if !text::same(&k.hash, hash) {
                kept.push(
                    IngestKeyRecord {
                        hash: k.hash.clone(),
                        fast_index: k.fast_index,
                        stream_id: k.stream_id,
                    },
                );
                assert(key_models(kept@) =~= before.push(k@));
            }
            proof {
                reveal(Seq::filter);
                assert(all[i as int] == k@);
                assert(all.subrange(0, i + 1).drop_last() =~= all.subrange(0, i as int));
            }
            i = i + 1;
        }
        assert(all.subrange(0, i as int) =~= all);
        self.keys = kept;
        self.rebuild_index();
    }
}

/// The keys that are not bound to the stream.
pub open spec fn without_stream(keys: Seq<KeyModel>, stream_id: StreamId) -> Seq<KeyModel> {
    keys.filter(|k: KeyModel| k.stream_id != Some(stream_id))
}

/// The keys with another hash.
pub open spec fn without_hash(keys: Seq<KeyModel>, hash: Seq<char>) -> Seq<KeyModel> {
    keys.filter(|k: KeyModel| k.hash != hash)
}

/// The index leads from each lookup number to the last key that has it.
pub open spec fn indexes(index: Map<u64, usize>, keys: Seq<KeyModel>) -> bool {
    &&& forall|f: u64| #[trigger]
        index.contains_key(f) ==> last_with(keys, f, index[f] as int)
    &&& forall|i: int|
        0 <= i < keys.len() ==> index.contains_key((#[trigger] keys[i]).fast_index)
}

proof fn lemma_index_push(before: Map<u64, usize>, keys: Seq<KeyModel>, k: KeyModel)
    requires
        indexes(before, keys),
        keys.len() <= usize::MAX,
    ensures
        indexes(before.insert(k.fast_index, keys.len() as usize), keys.push(k)),
{
    let after = before.insert(k.fast_index, keys.len() as usize);
    let all = keys.push(k);
    assert forall|f: u64| #[trigger] after.contains_key(f) implies last_with(
        all,
        f,
        after[f] as int,
    ) by {
        if f != k.fast_index {
            assert(before.contains_key(f));
            assert(last_with(keys, f, before[f] as int));
        }
    }
    assert forall|i: int| 0 <= i < all.len() implies after.contains_key(
        (#[trigger] all[i]).fast_index,
    ) by {
        if i < keys.len() {
            assert(before.contains_key(keys[i].fast_index));
        }
    }
}

// ---------------------------------------------------------------------------
// Failed attempts
// ---------------------------------------------------------------------------

/// The address of a client.
#[derive(Debug, Clone, Copy, PartialEq, Eq, Structural)]
pub enum ClientIp {
    V4(u32),
    V6(u128),
}

/// The failed attempts of one address. Points in time are nanoseconds of a clock that never
/// goes back.
#[derive(Debug, Clone, Copy, PartialEq, Eq, Structural)]
pub struct BruteForceEntry {
    /// Failed attempts in the current window.
    pub attempts: u32,
    pub window_start_ns: u64,
    pub blocked_until_ns: Option<u64>,
}

/// `a - b`, or 0 where `b` is larger.
pub open spec fn minus(a: u64, b: u64) -> int {
    if a >= b {
        a - b
    } else {
        0
    }
}

/// The last point in time from which a block can be counted.
pub const LAST_NS: u64 = 18_446_743_773_709_551_615;

impl BruteForceEntry {
    /// The address is blocked at `now`.
    pub open spec fn blocks(self, now: u64) -> bool {
        self.blocked_until_ns is Some && now < self.blocked_until_ns->0
    }

    /// The window of attempts is over at `now`.
    pub open spec fn window_over(self, now: u64) -> bool {
        minus(now, self.window_start_ns) / 1_000_000_000 > BRUTE_FORCE_WINDOW_SECS
    }

    /// The entry after one more failed attempt at `now`: a new window where there is none or it
    /// is over; the fifth attempt blocks for five minutes.
    pub open spec fn after_failure(before: Option<Self>, now: u64) -> Self {
        let current = match before {
            Some(e) => if e.window_over(now) {
                BruteForceEntry { attempts: 0, window_start_ns: now, blocked_until_ns: None }
            } else {
                e
            },
            None => BruteForceEntry { attempts: 0, window_start_ns: now, blocked_until_ns: None },
        };
        let attempts = if current.attempts < u32::MAX {
            (current.attempts + 1) as u32
        } else {
            u32::MAX
        };
        BruteForceEntry {
            attempts,
            blocked_until_ns: if attempts >= BRUTE_FORCE_MAX_ATTEMPTS {
                Some((now + 300_000_000_000) as u64)
            } else {
                current.blocked_until_ns
            },
            ..current
        }
    }

    /// The entry still matters at `now`: it blocks, or its window is not over.
    pub open spec fn matters(self, now: u64) -> bool {
        self.blocks(now) || minus(now, self.window_start_ns) / 1_000_000_000 < BRUTE_FORCE_WINDOW_SECS
    }
}

/// The failed attempts of all addresses.
#[derive(Debug)]
pub struct BruteForceTracker {
    entries: Vec<(ClientIp, BruteForceEntry)>,
}

/// The entry of an address stands at `i`.
pub open spec fn entry_at(e: Seq<(ClientIp, BruteForceEntry)>, ip: ClientIp, i: int) -> bool {
    0 <= i < e.len() && e[i].0 == ip
}

impl BruteForceTracker {
    /// What is known of an address.
    pub closed spec fn known_of(self, ip: ClientIp) -> Option<BruteForceEntry> {
        if exists|i: int| entry_at(self.entries@, ip, i) {
            Some(self.entries@[choose|i: int| entry_at(self.entries@, ip, i)].1)
        } else {
            None
        }
    }

    /// No address occurs twice.
    pub closed spec fn wf(self) -> bool {
        forall|i: int, j: int|
            0 <= i < j < self.entries@.len() ==> (#[trigger] self.entries@[i]).0 != (
            #[trigger] self.entries@[j]).0
    }

    proof fn lemma_known(self, i: int)
        requires
            self.wf(),
            0 <= i < self.entries@.len(),
        ensures
            self.known_of(self.entries@[i].0) == Some(self.entries@[i].1),
    {
        let ip = self.entries@[i].0;
        assert(entry_at(self.entries@, ip, i));
        let k = choose|k: int| entry_at(self.entries@, ip, k);
        assert(k == i);
    }

    proof fn lemma_unknown(self, ip: ClientIp)
        requires
            forall|i: int| 0 <= i < self.entries@.len() ==> (#[trigger] self.entries@[i]).0 != ip,
        ensures
            self.known_of(ip) is None,
    {
        assert forall|i: int| !entry_at(self.entries@, ip, i) by {
            if entry_at(self.entries@, ip, i) {
                assert(self.entries@[i].0 == ip);
            }
        }
    }

    /// Nothing known yet.
    pub fn new() -> (r: Self)
        ensures
            r.wf(),
            forall|ip: ClientIp| #[trigger] r.known_of(ip) is None,
    {
        let r = BruteForceTracker { entries: Vec::new() };
        assert forall|ip: ClientIp| #[trigger] r.known_of(ip) is None by {
            r.lemma_unknown(ip);
        }
        r
    }

    fn find(&self, ip: ClientIp) -> (r: Option<usize>)
        requires
            self.wf(),
        ensures
            match r {
                Some(i) => i < self.entries@.len() && self.entries@[i as int].0 == ip
                    && self.known_of(ip) == Some(self.entries@[i as int].1),
                None => self.known_of(ip) is None && forall|j: int|
                    0 <= j < self.entries@.len() ==> (#[trigger] self.entries@[j]).0 != ip,
            },
    {
        let mut i: usize = 0;
        while i < self.entries.len()
            invariant
                i <= self.entries@.len(),
                self.wf(),
                forall|j: int| 0 <= j < i ==> (#[trigger] self.entries@[j]).0 != ip,
            decreases self.entries@.len() - i,
        {
            if self.entries[i].0 == ip {
                proof {
                    self.lemma_known(i as int);
                }
                return Some(i);
            }
            i = i + 1;
        }
        proof {
            self.lemma_unknown(ip);
        }
        None
    }

    /// Whether an address is blocked at `now`.
    pub fn is_ip_blocked(&self, ip: ClientIp, now_ns: u64) -> (r: bool)
        requires
            self.wf(),
        ensures
            r == (self.known_of(ip) is Some && self.known_of(ip)->0.blocks(now_ns)),
    {
        match self.find(ip) {
            Some(i) => match self.entries[i].1.blocked_until_ns {
                Some(until) => now_ns < until,
                None => false,
            },
            None => false,
        }
    }

    /// Counts a failed attempt of an address.
    pub fn record_failed_attempt(&mut self, ip: ClientIp, now_ns: u64)
        requires
            old(self).wf(),
            now_ns <= LAST_NS,
        ensures
            final(self).wf(),
            final(self).known_of(ip) == Some(
                BruteForceEntry::after_failure(old(self).known_of(ip), now_ns),
            ),
            forall|other: ClientIp|
                other != ip ==> #[trigger] final(self).known_of(other) == old(self).known_of(other),
    {
        let found = self.find(ip);
        let fresh = BruteForceEntry {
            attempts: 0,
            window_start_ns: now_ns,
            blocked_until_ns: None,
        };
        let mut entry = match found {
            Some(i) => self.entries[i].1,
            None => fresh,
        };
        if now_ns.saturating_sub(entry.window_start_ns) / 1_000_000_000 > BRUTE_FORCE_WINDOW_SECS {
            entry = fresh;
        }
        entry.attempts = entry.attempts.saturating_add(1);
        if entry.attempts >= BRUTE_FORCE_MAX_ATTEMPTS {
            entry.blocked_until_ns = Some(now_ns + BRUTE_FORCE_BLOCK_SECS * 1_000_000_000);
        }
        let ghost before = *self;
        match found {
            Some(i) => {
                self.entries.set(i, (ip, entry));
                proof {
                    assert forall|j: int|
                        0 <= j < before.entries@.len() && (#[trigger] before.entries@[j]).0
                            != ip implies self.entries@.contains(before.entries@[j]) by {
                        assert(self.entries@[j] == before.entries@[j]);
                    }
                    assert forall|j: int|
                        0 <= j < self.entries@.len() && (#[trigger] self.entries@[j]).0
                            != ip implies before.entries@.contains(self.entries@[j]) by {
                        assert(before.entries@[j] == self.entries@[j]);
                    }
                    assert(self.wf());
                    self.lemma_known(i as int);
                    self.lemma_same_others(before, ip);
                }
            },
            None => {
                self.entries.push((ip, entry));
                proof {
                    assert forall|j: int|
                        0 <= j < before.entries@.len() && (#[trigger] before.entries@[j]).0
                            != ip implies self.entries@.contains(before.entries@[j]) by {
                        assert(self.entries@[j] == before.entries@[j]);
                    }
                    assert forall|j: int|
                        0 <= j < self.entries@.len() && (#[trigger] self.entries@[j]).0
                            != ip implies before.entries@.contains(self.entries@[j]) by {
                        assert(before.entries@[j] == self.entries@[j]);
                    }
                    self.lemma_known(self.entries@.len() - 1);
                    self.lemma_same_others(before, ip);
                }
            },
        }
    }

    /// Where all entries but those of `ip` are the same, so is what is known of other addresses.
    proof fn lemma_same_others(self, before: Self, ip: ClientIp)
        requires
            self.wf(),
            before.wf(),
            forall|i: int|
                0 <= i < before.entries@.len() && (#[trigger] before.entries@[i]).0 != ip
                    ==> self.entries@.contains(before.entries@[i]),
            forall|i: int|
                0 <= i < self.entries@.len() && (#[trigger] self.entries@[i]).0 != ip
                    ==> before.entries@.contains(self.entries@[i]),
        ensures
            forall|other: ClientIp|
                other != ip ==> #[trigger] self.known_of(other) == before.known_of(other),
    {
        assert forall|other: ClientIp| other != ip implies #[trigger] self.known_of(other)
            == before.known_of(other) by {
            if exists|i: int| entry_at(before.entries@, other, i) {
                let i = choose|i: int| entry_at(before.entries@, other, i);
                before.lemma_known(i);
                let k = choose|k: int|
                    0 <= k < self.entries@.len() && self.entries@[k] == before.entries@[i];
                self.lemma_known(k);
            } else if exists|i: int| entry_at(self.entries@, other, i) {
                let i = choose|i: int| entry_at(self.entries@, other, i);
                let k = choose|k: int|
                    0 <= k < before.entries@.len() && before.entries@[k] == self.entries@[i];
                assert(entry_at(before.entries@, other, k));
            }
        }
    }

    /// Forgets the failed attempts of an address.
    pub fn reset_ip_attempts(&mut self, ip: ClientIp)
        requires
            old(self).wf(),
        ensures
            final(self).wf(),
            final(self).known_of(ip) is None,
            forall|other: ClientIp|
                other != ip ==> #[trigger] final(self).known_of(other) == old(self).known_of(other),
    {
        let ghost before = *self;
        match self.find(ip) {
            Some(i) => {
                let _removed = self.entries.remove(i);
                proof {
                    let n = before.entries@.len();
                    assert forall|j: int| 0 <= j < self.entries@.len() implies (
                    #[trigger] self.entries@[j]).0 != ip && before.entries@.contains(
                        self.entries@[j],
                    ) by {
                        let k = if j < i {
                            j
                        } else {
                            j + 1
                        };
                        assert(self.entries@[j] == before.entries@[k]);
                        assert(before.entries@[i as int].0 == ip);
                    }
                    assert forall|j: int|
                        0 <= j < n && (#[trigger] before.entries@[j]).0 != ip implies
                        self.entries@.contains(before.entries@[j]) by {
                        let k = if j < i {
                            j
                        } else {
                            j - 1
                        };
                        assert(self.entries@[k] == before.entries@[j]);
                    }
                    self.lemma_unknown(ip);
                    self.lemma_same_others(before, ip);
                }
            },
            None => {},
        }
    }

    /// Forgets the entries that no longer matter at `now`.
    pub fn cleanup(&mut self, now_ns: u64)
        requires
            old(self).wf(),
        ensures
            final(self).wf(),
            forall|ip: ClientIp| #[trigger]
                final(self).known_of(ip) == match old(self).known_of(ip) {
                    Some(e) => if e.matters(now_ns) {
                        Some(e)
                    } else {
                        None
                    },
                    None => None,
                },
    {
        let mut kept: Vec<(ClientIp, BruteForceEntry)> = Vec::new();
        let mut i: usize = 0;
        let ghost all = self.entries@;
        while i < self.entries.len()
            invariant
                i <= self.entries@.len(),
                self.wf(),
                *self == *old(self),
                all == self.entries@,
                forall|j: int|
                    0 <= j < kept@.len() ==> kept_from(#[trigger] kept@[j], all, i as int, now_ns),
                forall|j: int, k: int|
                    0 <= j < k < kept@.len() ==> (#[trigger] kept@[j]).0 != (#[trigger] kept@[k]).0,
                forall|j: int|
                    0 <= j < i && (#[trigger] all[j]).1.matters(now_ns) ==> kept@.contains(all[j]),
            decreases self.entries@.len() - i,
        {
            let e = self.entries[i];
            let blocked = match e.1.blocked_until_ns {
                Some(until) => now_ns < until,
                None => false,
            };
            let recent = now_ns.saturating_sub(e.1.window_start_ns) / 1_000_000_000
                < BRUTE_FORCE_WINDOW_SECS;
            let ghost before = kept@;
            if blocked || recent {
                assert forall|j: int| 0 <= j < before.len() implies (#[trigger] before[j]).0
                    != e.0 by {
                    assert(kept_from(before[j], all, i as int, now_ns));
                }
                kept.push(e);
                assert(kept@[kept@.len() - 1] == all[i as int]);
            }
            proof {
                assert forall|j: int| 0 <= j < kept@.len() implies kept_from(
                    #[trigger] kept@[j],
                    all,
                    i + 1,
                    now_ns,
                ) by {
                    if j < before.len() {
                        assert(kept_from(before[j], all, i as int, now_ns));
                    } else {
                        assert(all[i as int] == kept@[j]);
                    }
                }
                assert forall|j: int|
                    0 <= j < i + 1 && (#[trigger] all[j]).1.matters(now_ns) implies kept@.contains(
                    all[j],
                ) by {
                    if j < i {
                        assert(before.contains(all[j]));
                        let k = choose|k: int| 0 <= k < before.len() && before[k] == all[j];
                        assert(kept@[k] == all[j]);
                    }
                }
            }
            i = i + 1;
        }
        self.entries = kept;
        proof {
            assert forall|ip: ClientIp| #[trigger]
                self.known_of(ip) == match old(self).known_of(ip) {
                    Some(e) => if e.matters(now_ns) {
                        Some(e)
                    } else {
                        None
                    },
                    None => None,
                } by {
                if exists|k: int| entry_at(self.entries@, ip, k) {
                    let k = choose|k: int| entry_at(self.entries@, ip, k);
                    self.lemma_known(k);
                    assert(kept_from(kept@[k], all, i as int, now_ns));
                    let m = choose|m: int|
                        0 <= m < i && #[trigger] all[m] == kept@[k] && all[m].1.matters(now_ns);
                    old(self).lemma_known(m);
                } else if exists|m: int| entry_at(all, ip, m) {
                    let m = choose|m: int| entry_at(all, ip, m);
                    old(self).lemma_known(m);
                    if all[m].1.matters(now_ns) {
                        assert(kept@.contains(all[m]));
                        let k = choose|k: int| 0 <= k < kept@.len() && kept@[k] == all[m];
                        assert(entry_at(self.entries@, ip, k));
                    }
                }
            }
        }
    }
}

/// The entry is one of the first `n`, and matters.
pub open spec fn kept_from(
    e: (ClientIp, BruteForceEntry),
    all: Seq<(ClientIp, BruteForceEntry)>,
    n: int,
    now: u64,
) -> bool {
    exists|m: int| 0 <= m < n && #[trigger] all[m] == e && all[m].1.matters(now)
}

/// The entry of an address after failed attempts at the given times, from nothing.
pub open spec fn after_failures(times: Seq<u64>) -> Option<BruteForceEntry>
    decreases times.len(),
{
    if times.len() == 0 {
        None
    } else {
        Some(BruteForceEntry::after_failure(after_failures(times.drop_last()), times.last()))
    }
}

/// Five failed attempts within a minute block an address for five minutes from the fifth.
pub proof fn five_failures_block(times: Seq<u64>, now: u64)
    requires
        times.len() == 5,
        forall|i: int, j: int| 0 <= i <= j < 5 ==> times[i] <= times[j],
        times[4] - times[0] <= 60_000_000_000,
        times[4] + 300_000_000_000 <= u64::MAX,
    ensures
        after_failures(times) is Some,
        after_failures(times)->0.blocks(now) <==> now < times[4] + 300_000_000_000,
{
    reveal_with_fuel(after_failures, 6);
    let t1 = times.drop_last();
    let t2 = t1.drop_last();
    let t3 = t2.drop_last();
    let t4 = t3.drop_last();
    let t5 = t4.drop_last();
    assert(t1.last() == times[3] && t2.last() == times[2] && t3.last() == times[1] && t4.last()
        == times[0] && t5.len() == 0);
    let e1 = BruteForceEntry::after_failure(None, times[0]);
    let e2 = BruteForceEntry::after_failure(Some(e1), times[1]);
    let e3 = BruteForceEntry::after_failure(Some(e2), times[2]);
    let e4 = BruteForceEntry::after_failure(Some(e3), times[3]);
    assert(times[0] <= times[1] <= times[2] <= times[3] <= times[4]);
    assert(after_failures(t4) == Some(e1));
    assert(after_failures(t3) == Some(e2));
    assert(after_failures(t2) == Some(e3));
    assert(after_failures(t1) == Some(e4));
}

/// Fewer than five failed attempts never block an address.
pub proof fn fewer_failures_do_not_block(times: Seq<u64>, now: u64)
    requires
        times.len() < 5,
    ensures
        after_failures(times) matches Some(e) ==> !e.blocks(now) && e.attempts <= times.len(),
        after_failures(times) matches Some(e) ==> e.blocked_until_ns is None,
    decreases times.len(),
{
    if times.len() > 0 {
        fewer_failures_do_not_block(times.drop_last(), now);
    }
}

// ---------------------------------------------------------------------------
// Tokens
// ---------------------------------------------------------------------------

/// The character is a lower-case letter or a digit.
pub open spec fn is_alphanumeric(c: char) -> bool {
    ('a' <= c && c <= 'z') || ('0' <= c && c <= '9')
}

/// The token is the prefix and `n` lower-case letters or digits.
pub open spec fn is_token(s: Seq<char>, prefix: Seq<char>, n: nat) -> bool {
    &&& s.len() == prefix.len() + n
    &&& s.subrange(0, prefix.len() as int) == prefix
    &&& forall|i: int| prefix.len() <= i < s.len() ==> is_alphanumeric(#[trigger] s[i])
}

/// The character of the given place among the letters and digits.
pub fn alphanumeric(i: usize) -> (r: char)
    requires
        i < 36,
    ensures
        is_alphanumeric(r),
        r == if i < 26 {
            (97 + i) as char
        } else {
            (22 + i) as char
        },
{
    if i < 26 {
        (97u8 + i as u8) as char
    } else {
        (22u8 + i as u8) as char
    }
}

/// Makes a random token.
pub fn generate_random_token(prefix: &str, random_length: usize) -> (r: String)
    ensures
        is_token(r@, prefix@, random_length as nat),
{
    let mut s = text::owned(prefix);
    let mut i: usize = 0;
    while i < random_length
        invariant
            i <= random_length,
            s@.len() == prefix@.len() + i,
            s@.subrange(0, prefix@.len() as int) == prefix@,
            forall|j: int| prefix@.len() <= j < s@.len() ==> is_alphanumeric(#[trigger] s@[j]),
        decreases random_length - i,
    {
        let ghost before = s@;
        s.push(alphanumeric(random_below(36)));
        assert(s@.subrange(0, prefix@.len() as int) =~= before.subrange(0, prefix@.len() as int));
        i = i + 1;
    }
    s
}

/// What the check of a bearer token found.
#[derive(Debug, Clone, Copy, PartialEq, Eq, Structural)]
pub enum TokenStatus {
    Valid,
    Missing,
    Forbidden,
}

// ---------------------------------------------------------------------------
// The provider
// ---------------------------------------------------------------------------

/// Decides who may publish and who may administer.
pub struct AuthProvider {
    ingest_keys: IngestKeyStore,
    admin_tokens: Vec<String>,
    brute_force_tracker: BruteForceTracker,
    started: Instant,
}

/// The error for a stream key that is not accepted.
pub open spec fn invalid_key() -> IngestFault {
    IngestFault::AuthFailed { reason: "invalid stream key"@ }
}

/// The error for an address that is blocked.
pub open spec fn blocked_ip() -> IngestFault {
    IngestFault::AuthFailed { reason: "too many failed attempts, IP temporarily blocked"@ }
}

impl AuthProvider {
    /// The stored stream keys.
    pub closed spec fn keys(self) -> Seq<KeyModel> {
        self.ingest_keys.stored()
    }

    /// The admin tokens.
    pub closed spec fn tokens(self) -> Seq<Seq<char>> {
        views(self.admin_tokens@)
    }

    /// What is known of the failed attempts of an address.
    pub closed spec fn known_of(self, ip: ClientIp) -> Option<BruteForceEntry> {
        self.brute_force_tracker.known_of(ip)
    }

    /// Index and tracker are well-formed.
    pub closed spec fn wf(self) -> bool {
        self.ingest_keys.wf() && self.brute_force_tracker.wf()
    }

    /// A provider with the configured keys and tokens.
    pub fn new(config: &AuthConfig) -> (r: Self)
        ensures
            r.wf(),
            stand_for(r.keys(), views(config.ingest_stream_keys@)),
            r.tokens() == views(config.admin_bearer_tokens@),
            forall|ip: ClientIp| #[trigger] r.known_of(ip) is None,
    {
        let mut tokens: Vec<String> = Vec::new();
        let mut i: usize = 0;
        while i < config.admin_bearer_tokens.len()
            invariant
                i <= config.admin_bearer_tokens@.len(),
                tokens@ == config.admin_bearer_tokens@.subrange(0, i as int),
            decreases config.admin_bearer_tokens@.len() - i,
        {
            tokens.push(config.admin_bearer_tokens[i].clone());
            i = i + 1;
        }
        assert(tokens@ =~= config.admin_bearer_tokens@);
        let r = AuthProvider {
            ingest_keys: IngestKeyStore::from_keys(&config.ingest_stream_keys),
            admin_tokens: tokens,
            brute_force_tracker: BruteForceTracker::new(),
            started: instant_now(),
        };
        assert forall|ip: ClientIp| #[trigger] r.known_of(ip) is None by {
            assert(r.brute_force_tracker.known_of(ip) is None);
        }
        r
    }

    /// Nanoseconds since the provider was made.
    fn now_ns(&self) -> (r: u64)
        ensures
            r <= LAST_NS,
    {
        let elapsed = elapsed_ns(&self.started);
        if elapsed <= LAST_NS {
            elapsed
        } else {
            LAST_NS
        }
    }

    /// Only the stored keys changed.
    pub open spec fn keeps_all_but_keys(self, before: Self) -> bool {
        &&& self.tokens() == before.tokens()
        &&& forall|ip: ClientIp| #[trigger] self.known_of(ip) == before.known_of(ip)
    }

    /// Only what is known of `ip` changed.
    pub open spec fn keeps_all_but(self, before: Self, ip: ClientIp) -> bool {
        &&& self.keys() == before.keys()
        &&& self.tokens() == before.tokens()
        &&& forall|other: ClientIp|
            other != ip ==> #[trigger] self.known_of(other) == before.known_of(other)
    }

    /// Makes a stream key that is bound to no stream, and stores it. The key and its hash are
    /// returned; nothing happens where the key cannot be hashed.
    pub fn generate_stream_key(&mut self) -> (r: Option<(String, String)>)
        requires
            old(self).wf(),
        ensures
            final(self).wf(),
            final(self).keeps_all_but_keys(*old(self)),
            key_added(old(self).keys(), final(self).keys(), None, r),
    {
        self.generate_stream_key_for_stream(None)
    }

    /// Makes a stream key for a stream, and stores it. The key and its hash are returned; nothing
    /// happens where the key cannot be hashed.
    pub fn generate_stream_key_for_stream(&mut self, stream_id: Option<StreamId>) -> (r: Option<
        (String, String),
    >)
        requires
            old(self).wf(),
        ensures
            final(self).wf(),
            final(self).keeps_all_but_keys(*old(self)),
            key_added(old(self).keys(), final(self).keys(), stream_id, r),
    {
        let plaintext = generate_random_token(STREAM_KEY_PREFIX, STREAM_KEY_RANDOM_LENGTH);
        let hash = bcrypt_hash(&plaintext, BCRYPT_COST);
        self.keep_stream_key(plaintext, hash, stream_id)
    }

    /// Makes an admin token, and stores it. The token and its hash are returned; nothing happens
    /// where the token cannot be hashed.
    pub fn generate_admin_token(&mut self) -> (r: Option<(String, String)>)
        requires
            old(self).wf(),
        ensures
            final(self).wf(),
            final(self).keys() == old(self).keys(),
            forall|ip: ClientIp| #[trigger] final(self).known_of(ip) == old(self).known_of(ip),
            match r {
                Some(p) => {
                    &&& is_token(p.0@, "at_"@, 32)
                    &&& bcrypt_verified(p.0@, p.1@)
                    &&& made_at_cost(p.1@, BCRYPT_COST)
                    &&& final(self).tokens() == old(self).tokens().push(p.0@)
                },
                None => final(self).tokens() == old(self).tokens(),
            },
    {
        let plaintext = generate_random_token("at_", 32);
        let hash = bcrypt_hash(&plaintext, BCRYPT_COST);
        self.keep_admin_token(plaintext, hash)
    }

    /// Stores a stream key whose hash is given, and returns both; nothing happens where the key
    /// could not be hashed.
    pub fn keep_stream_key(
        &mut self,
        plaintext: String,
        hash: Option<String>,
        stream_id: Option<StreamId>,
    ) -> (r: Option<(String, String)>)
        requires
            old(self).wf(),
        ensures
            final(self).wf(),
            final(self).keeps_all_but_keys(*old(self)),
            match hash {
                Some(h) => {
                    &&& r matches Some(p)
                    &&& p.0@ == plaintext@
                    &&& p.1@ == h@
                    &&& final(self).keys() == old(self).keys().push(
                        KeyModel { hash: h@, fast_index: key_index(plaintext@), stream_id },
                    )
                },
                None => r is None && final(self).keys() == old(self).keys(),
            },
    {
        match hash {
            Some(h) => {
                self.ingest_keys.add_hashed(&plaintext, Some(h.clone()), stream_id);
                Some((plaintext, h))
            },
            None => None,
        }
    }

    /// Stores an admin token, and returns it with the hash that is given; nothing happens where
    /// the token could not be hashed.
    pub fn keep_admin_token(&mut self, plaintext: String, hash: Option<String>) -> (r: Option<
        (String, String),
    >)
        requires
            old(self).wf(),
        ensures
            final(self).wf(),
            final(self).keys() == old(self).keys(),
            forall|ip: ClientIp| #[trigger] final(self).known_of(ip) == old(self).known_of(ip),
            match hash {
                Some(h) => {
                    &&& r matches Some(p)
                    &&& p.0@ == plaintext@
                    &&& p.1@ == h@
                    &&& final(self).tokens() == old(self).tokens().push(plaintext@)
                },
                None => r is None && final(self).tokens() == old(self).tokens(),
            },
    {
        match hash {
            Some(h) => {
                self.admin_tokens.push(plaintext.clone());
                assert(self.tokens() =~= old(self).tokens().push(plaintext@));
                Some((plaintext, h))
            },
            None => None,
        }
    }

    /// Drops the key with the given hash, and makes a new one that is bound to no stream.
    pub fn rotate_stream_key(&mut self, old_hash: &str) -> (r: Option<(String, String)>)
        requires
            old(self).wf(),
        ensures
            final(self).wf(),
            final(self).keeps_all_but_keys(*old(self)),
            key_added(without_hash(old(self).keys(), old_hash@), final(self).keys(), None, r),
    {
        self.ingest_keys.drop_hash(old_hash);
        self.generate_stream_key()
    }

    /// Drops the keys of a stream, and makes a new one for it.
    pub fn rotate_stream_key_for_stream(&mut self, stream_id: StreamId) -> (r: Option<
        (String, String),
    >)
        requires
            old(self).wf(),
        ensures
            final(self).wf(),
            final(self).keeps_all_but_keys(*old(self)),
            key_added(
                without_stream(old(self).keys(), stream_id),
                final(self).keys(),
                Some(stream_id),
                r,
            ),
    {
        self.ingest_keys.drop_stream(stream_id);
        self.generate_stream_key_for_stream(Some(stream_id))
    }

    /// Checks a stream key.
    pub fn validate_stream_key(&self, stream_key: &str) -> (r: Result<(), IngestError>)
        requires
            self.wf(),
        ensures
            r is Ok <==> accepts(self.keys(), stream_key@),
            r matches Err(e) ==> e@ == invalid_key(),
    {
        if self.ingest_keys.accepts_key(stream_key) {
            Ok(())
        } else {
            Err(IngestError::AuthFailed { reason: text::owned("invalid stream key") })
        }
    }

    /// Checks a stream key from an address, now. Addresses with too many failed attempts are
    /// refused whatever their key.
    pub fn validate_stream_key_with_ip(&mut self, stream_key: &str, client_ip: ClientIp) -> (r:
        Result<(), IngestError>)
        requires
            old(self).wf(),
        ensures
            final(self).wf(),
            final(self).keeps_all_but(*old(self), client_ip),
            exists|now: u64| #[trigger]
                old(self).checked(*final(self), stream_key@, client_ip, now, r),
    {
        let now = self.now_ns();
        let r = self.validate_stream_key_with_ip_at(stream_key, client_ip, now);
        assert(old(self).checked(*self, stream_key@, client_ip, now, r));
        r
    }

    /// What a check of a stream key at `now` does and returns: a blocked address is refused; a
    /// good key clears the attempts of the address; a bad one counts.
    pub open spec fn checked(
        self,
        after: Self,
        key: Seq<char>,
        ip: ClientIp,
        now: u64,
        r: Result<(), IngestError>,
    ) -> bool {
        if self.known_of(ip) is Some && self.known_of(ip)->0.blocks(now) {
            &&& r matches Err(e) && e@ == blocked_ip()
            &&& after.known_of(ip) == self.known_of(ip)
        } else if accepts(self.keys(), key) {
            &&& r is Ok
            &&& after.known_of(ip) is None
        } else {
            &&& r matches Err(e) && e@ == invalid_key()
            &&& after.known_of(ip) == Some(BruteForceEntry::after_failure(self.known_of(ip), now))
        }
    }

    /// Checks a stream key from an address, at `now`.
    pub fn validate_stream_key_with_ip_at(
        &mut self,
        stream_key: &str,
        client_ip: ClientIp,
        now_ns: u64,
    ) -> (r: Result<(), IngestError>)
        requires
            old(self).wf(),
            now_ns <= LAST_NS,
        ensures
            final(self).wf(),
            final(self).keeps_all_but(*old(self), client_ip),
            old(self).checked(*final(self), stream_key@, client_ip, now_ns, r),
    {
        if self.brute_force_tracker.is_ip_blocked(client_ip, now_ns) {
            return Err(
                IngestError::AuthFailed {
                    reason: text::owned("too many failed attempts, IP temporarily blocked"),
                },
            );
        }
        let r = self.validate_stream_key(stream_key);
        if r.is_ok() {
            self.brute_force_tracker.reset_ip_attempts(client_ip);
        } else {
            self.brute_force_tracker.record_failed_attempt(client_ip, now_ns);
        }
        proof {
            assert forall|other: ClientIp| other != client_ip implies #[trigger] self.known_of(other)
                == old(self).known_of(other) by {
                assert(self.brute_force_tracker.known_of(other) == old(
                    self).brute_force_tracker.known_of(other));
            }
        }
        r
    }

    /// Checks an admin token. Where none is configured, every token is good.
    pub fn validate_bearer_token(&self, token: &str) -> (r: bool)
        ensures
            r == (self.tokens().len() == 0 || self.tokens().contains(token@)),
    {
        if self.admin_tokens.len() == 0 {
            return true;
        }
        let mut i: usize = 0;
        while i < self.admin_tokens.len()
            invariant
                i <= self.admin_tokens@.len(),
                forall|j: int| 0 <= j < i ==> (#[trigger] self.admin_tokens@[j])@ != token@,
            decreases self.admin_tokens@.len() - i,
        {
            let same = same_bytes(token.as_bytes(), self.admin_tokens[i].as_str().as_bytes());
            proof {
                encode_utf8_decode_utf8(token@);
                encode_utf8_decode_utf8(self.admin_tokens@[i as int]@);
            }
            if same {
                assert(self.tokens()[i as int] == token@);
                return true;
            }
            i = i + 1;
        }
        assert forall|j: int| 0 <= j < self.tokens().len() implies self.tokens()[j] != token@ by {
            assert(self.admin_tokens@[j]@ != token@);
        }
        false
    }

    /// Checks the bearer token of a request: missing, not among the tokens, or good. Where no
    /// token is configured, every request is good.
    pub fn check_bearer_token(&self, token: Option<&str>) -> (r: TokenStatus)
        ensures
            r == if self.tokens().len() == 0 {
                TokenStatus::Valid
            } else {
                match token {
                    None => TokenStatus::Missing,
                    Some(t) => if self.tokens().contains(t@) {
                        TokenStatus::Valid
                    } else {
                        TokenStatus::Forbidden
                    },
                }
            },
    {
        if self.is_open_mode() {
            return TokenStatus::Valid;
        }
        match token {
            None => TokenStatus::Missing,
            Some(t) => {
                if self.validate_bearer_token(t) {
                    TokenStatus::Valid
                } else {
                    TokenStatus::Forbidden
                }
            },
        }
    }

    /// Replaces the stream keys.
    pub fn update_stream_keys(&mut self, keys: Vec<String>)
        requires
            old(self).wf(),
        ensures
            final(self).wf(),
            final(self).keeps_all_but_keys(*old(self)),
            stand_for(final(self).keys(), views(keys@)),
    {
        self.ingest_keys = IngestKeyStore::from_keys(&keys);
    }

    /// The stream that a stream key belongs to, where it was made for one.
    pub fn resolve_stream_id_for_key(&self, stream_key: &str) -> (r: Option<StreamId>)
        requires
            self.wf(),
        ensures
            r == resolves_to(self.keys(), stream_key@),
    {
        self.ingest_keys.resolve(stream_key)
    }

    /// Replaces the admin tokens.
    pub fn update_admin_tokens(&mut self, tokens: Vec<String>)
        requires
            old(self).wf(),
        ensures
            final(self).wf(),
            final(self).keys() == old(self).keys(),
            final(self).tokens() == views(tokens@),
            forall|ip: ClientIp| #[trigger] final(self).known_of(ip) == old(self).known_of(ip),
    {
        self.admin_tokens = tokens;
    }

    /// Whether no admin token is configured.
    pub fn is_open_mode(&self) -> (r: bool)
        ensures
            r == (self.tokens().len() == 0),
    {
        self.admin_tokens.len() == 0
    }

    /// Forgets the failed attempts that no longer matter, now.
    pub fn cleanup_brute_force_tracker(&mut self)
        requires
            old(self).wf(),
        ensures
            final(self).wf(),
            exists|now: u64| #[trigger] old(self).cleaned(*final(self), now),
    {
        let now = self.now_ns();
        self.cleanup_brute_force_tracker_at(now);
        assert(old(self).cleaned(*self, now));
    }

    /// Only the attempts that matter at `now` are left.
    pub open spec fn cleaned(self, after: Self, now: u64) -> bool {
        &&& after.keys() == self.keys()
        &&& after.tokens() == self.tokens()
        &&& forall|ip: ClientIp| #[trigger]
            after.known_of(ip) == match self.known_of(ip) {
                Some(e) => if e.matters(now) {
                    Some(e)
                } else {
                    None
                },
                None => None,
            }
    }

    /// Forgets the failed attempts that no longer matter at `now`.
    pub fn cleanup_brute_force_tracker_at(&mut self, now_ns: u64)
        requires
            old(self).wf(),
        ensures
            final(self).wf(),
            old(self).cleaned(*final(self), now_ns),
    {
        self.brute_force_tracker.cleanup(now_ns);
        proof {
            assert forall|ip: ClientIp| #[trigger]
                self.known_of(ip) == match old(self).known_of(ip) {
                    Some(e) => if e.matters(now_ns) {
                        Some(e)
                    } else {
                        None
                    },
                    None => None,
                } by {
                assert(self.brute_force_tracker.known_of(ip) == self.known_of(ip));
            }
        }
    }
}

/// A fresh stream key was added to `before`: `r` gives the key and its hash. Or nothing happened.
pub open spec fn key_added(
    before: Seq<KeyModel>,
    after: Seq<KeyModel>,
    stream_id: Option<StreamId>,
    r: Option<(String, String)>,
) -> bool {
    match r {
        Some(p) => {
            &&& is_token(p.0@, STREAM_KEY_PREFIX@, STREAM_KEY_RANDOM_LENGTH as nat)
            &&& bcrypt_verified(p.0@, p.1@)
            &&& made_at_cost(p.1@, BCRYPT_COST)
            &&& after == before.push(
                KeyModel { hash: p.1@, fast_index: key_index(p.0@), stream_id },
            )
        },
        None => after == before,
    }
}

// ---------------------------------------------------------------------------
// Laws
// ---------------------------------------------------------------------------

/// A key that was just made is accepted, and belongs to the stream it was made for.
pub proof fn fresh_key_is_good(
    before: Seq<KeyModel>,
    after: Seq<KeyModel>,
    stream_id: Option<StreamId>,
    r: Option<(String, String)>,
)
    requires
        key_added(before, after, stream_id, r),
        r is Some,
    ensures
        accepts(after, (r->0).0@),
        resolves_to(after, (r->0).0@) == stream_id,
{
    let key = (r->0).0@;
    let n = after.len() - 1;
    let f = key_index(key);
    assert(after[n].fast_index == f);
    assert(bcrypt_verified(key, after[n].hash));
    assert(last_with(after, f, n));
    let i = choose|i: int| last_with(after, f, i);
    assert(last_with(after, f, i));
    assert(i == n) by {
        if i < n {
            assert(after[n].fast_index != f);
        }
    }
}

/// Where as many keys are stored as were given, every one of them is accepted.
pub proof fn hashed_keys_are_accepted(records: Seq<KeyModel>, keys: Seq<Seq<char>>, i: int)
    requires
        stand_for(records, keys),
        records.len() == keys.len(),
        0 <= i < keys.len(),
    ensures
        accepts(records, keys[i]),
{
    let hashes = choose|hashes: Seq<Option<Seq<char>>>| #[trigger]
        hashes_of(hashes, keys) && records == hashed_records(keys, hashes);
    lemma_all_hashed(keys, hashes, i);
    assert(records[i].fast_index == key_index(keys[i]));
    assert(bcrypt_verified(keys[i], records[i].hash));
}

proof fn lemma_all_hashed(keys: Seq<Seq<char>>, hashes: Seq<Option<Seq<char>>>, i: int)
    requires
        hashes.len() == keys.len(),
    ensures
        hashed_records(keys, hashes).len() <= keys.len(),
        hashed_records(keys, hashes).len() == keys.len() && 0 <= i < keys.len() ==> hashes[i] is Some
            && hashed_records(keys, hashes)[i] == (KeyModel {
            hash: hashes[i]->0,
            fast_index: key_index(keys[i]),
            stream_id: None,
        }),
    decreases keys.len(),
{
    if keys.len() > 0 {
        lemma_all_hashed(keys.drop_last(), hashes.drop_last(), i);
    }
}

/// After a stream's key is rotated, only the new key is bound to the stream.
pub proof fn rotation_leaves_one_key(
    before: Seq<KeyModel>,
    after: Seq<KeyModel>,
    stream_id: StreamId,
    r: Option<(String, String)>,
)
    requires
        key_added(without_stream(before, stream_id), after, Some(stream_id), r),
        r is Some,
    ensures
        forall|i: int|
            0 <= i < after.len() - 1 ==> (#[trigger] after[i]).stream_id != Some(stream_id),
        after.last().stream_id == Some(stream_id),
{
    broadcast use vstd::seq_lib::group_filter_ensures;

    let pred = |k: KeyModel| k.stream_id != Some(stream_id);
    assert forall|i: int| 0 <= i < after.len() - 1 implies (#[trigger] after[i]).stream_id != Some(
        stream_id,
    ) by {
        let kept = before.filter(pred);
        assert(after[i] == kept[i]);
        assert(pred(kept[i]));
    }
}

/// After a stream's key is rotated, a key is refused unless a key of another stream or the new
/// one verifies it.
pub proof fn rotated_key_is_refused(
    before: Seq<KeyModel>,
    after: Seq<KeyModel>,
    stream_id: StreamId,
    r: Option<(String, String)>,
    old_key: Seq<char>,
)
    requires
        key_added(without_stream(before, stream_id), after, Some(stream_id), r),
        r is Some,
        forall|i: int|
            0 <= i < before.len() && (#[trigger] before[i]).stream_id != Some(stream_id)
                ==> !bcrypt_verified(old_key, before[i].hash),
        !bcrypt_verified(old_key, (r->0).1@),
    ensures
        !accepts(after, old_key),
        resolves_to(after, old_key) is None,
{
    broadcast use vstd::seq_lib::group_filter_ensures;

    let pred = |k: KeyModel| k.stream_id != Some(stream_id);
    let kept = before.filter(pred);
    assert forall|i: int| 0 <= i < after.len() implies !bcrypt_verified(
        old_key,
        (#[trigger] after[i]).hash,
    ) by {
        if i < kept.len() {
            assert(after[i] == kept[i]);
            assert(pred(kept[i]));
            before.lemma_filter_contains_rev(pred, kept[i]);
        }
    }
    let f = key_index(old_key);
    if has_index(after, f) {
        lemma_last_exists(after, f);
        let i = choose|i: int| last_with(after, f, i);
        assert(last_with(after, f, i));
        lemma_none_bound(after, old_key, 0);
    }
}

/// After a stream's key is rotated, a key of another stream is still accepted; and it still
/// belongs to that stream, unless a key that is bound otherwise or the new one verifies it.
pub proof fn rotation_spares_other_streams(
    before: Seq<KeyModel>,
    after: Seq<KeyModel>,
    stream_id: StreamId,
    r: Option<(String, String)>,
    other: StreamId,
    key: Seq<char>,
    at: int,
)
    requires
        key_added(without_stream(before, stream_id), after, Some(stream_id), r),
        other != stream_id,
        0 <= at < before.len(),
        before[at].stream_id == Some(other),
        before[at].fast_index == key_index(key),
        bcrypt_verified(key, before[at].hash),
    ensures
        accepts(after, key),
        (forall|i: int|
            0 <= i < before.len() && bcrypt_verified(key, (#[trigger] before[i]).hash)
                ==> before[i].stream_id == Some(other)) && (r matches Some(p)
            ==> !bcrypt_verified(key, p.1@)) ==> resolves_to(after, key) == Some(other),
{
    broadcast use vstd::seq_lib::group_filter_ensures;

    let pred = |k: KeyModel| k.stream_id != Some(stream_id);
    let kept = before.filter(pred);
    assert(pred(before[at]));
    before.lemma_filter_contains(pred, at);
    let n = choose|n: int| 0 <= n < kept.len() && kept[n] == before[at];
    assert(after[n] == before[at]);
    let f = key_index(key);
    assert(has_index(after, f));
    lemma_last_exists(after, f);
    if (forall|i: int|
        0 <= i < before.len() && bcrypt_verified(key, (#[trigger] before[i]).hash)
            ==> before[i].stream_id == Some(other)) && (r matches Some(p) ==> !bcrypt_verified(
        key,
        p.1@,
    )) {
        assert forall|i: int|
            0 <= i < after.len() && bcrypt_verified(key, (#[trigger] after[i]).hash) implies
            after[i].stream_id == Some(other) by {
            if i < kept.len() {
                assert(after[i] == kept[i]);
                before.lemma_filter_contains_rev(pred, kept[i]);
                let j = choose|j: int| 0 <= j < before.len() && before[j] == kept[i];
                assert(before[j] == after[i]);
            }
        }
        let i = choose|i: int| last_with(after, f, i);
        assert(last_with(after, f, i));
        lemma_first_bound(after, key, other, n, 0);
    }
}

proof fn lemma_first_bound(keys: Seq<KeyModel>, key: Seq<char>, stream_id: StreamId, at: int, from: int)
    requires
        0 <= from <= at < keys.len(),
        bcrypt_verified(key, keys[at].hash),
        forall|i: int|
            0 <= i < keys.len() && bcrypt_verified(key, (#[trigger] keys[i]).hash)
                ==> keys[i].stream_id == Some(stream_id),
    ensures
        first_bound(keys, key, from) == Some(stream_id),
    decreases at - from,
{
    if !bcrypt_verified(key, keys[from].hash) {
        lemma_first_bound(keys, key, stream_id, at, from + 1);
    }
}

proof fn lemma_last_exists(keys: Seq<KeyModel>, f: u64)
    requires
        has_index(keys, f),
    ensures
        exists|i: int| last_with(keys, f, i),
    decreases keys.len(),
{
    let n = keys.len() - 1;
    if keys[n].fast_index == f {
        assert(last_with(keys, f, n));
    } else {
        let shorter = keys.drop_last();
        let i = choose|i: int| 0 <= i < keys.len() && (#[trigger] keys[i]).fast_index == f;
        assert(shorter[i].fast_index == f);
        lemma_last_exists(shorter, f);
        let k = choose|k: int| last_with(shorter, f, k);
        assert forall|j: int| k < j < keys.len() implies (#[trigger] keys[j]).fast_index != f by {
            if j < n {
                assert(shorter[j] == keys[j]);
            }
        }
        assert(last_with(keys, f, k));
    }
}

proof fn lemma_none_bound(keys: Seq<KeyModel>, key: Seq<char>, from: int)
    requires
        0 <= from,
        forall|i: int| 0 <= i < keys.len() ==> !bcrypt_verified(key, (#[trigger] keys[i]).hash),
    ensures
        first_bound(keys, key, from) is None,
    decreases keys.len() - from,
{
    if from < keys.len() {
        lemma_none_bound(keys, key, from + 1);
    }
}

/// A blocked address is refused whatever key it brings, and stays as it is. Any other one is let in
/// where no key is stored, and refused where keys are stored of which none verifies what it brings.
/// Who is let in starts from nothing; who is refused has one more failed attempt.
pub proof fn checks_go_by_address_and_key(
    before: AuthProvider,
    after: AuthProvider,
    key: Seq<char>,
    ip: ClientIp,
    now: u64,
    r: Result<(), IngestError>,
)
    requires
        before.checked(after, key, ip, now, r),
    ensures
        ({
            let blocked = before.known_of(ip) matches Some(e) && e.blocked_until_ns matches Some(t)
                && now < t;
            let verified = exists|i: int|
                0 <= i < before.keys().len() && bcrypt_verified(
                    key,
                    (#[trigger] before.keys()[i]).hash,
                );
            &&& blocked ==> r is Err && after.known_of(ip) == before.known_of(ip)
            &&& !blocked && before.keys().len() == 0 ==> r is Ok
            &&& before.keys().len() > 0 && !verified ==> r is Err
            &&& r is Ok ==> after.known_of(ip) is None
            &&& !blocked && r is Err ==> after.known_of(ip) is Some && after.known_of(
                ip,
            )->0.attempts >= 1
            &&& !blocked && r is Err && before.known_of(ip) is None ==> after.known_of(
                ip,
            )->0.attempts == 1 && after.known_of(ip)->0.window_start_ns == now
        }),
{
}

/// A failed attempt counts on within a minute of the first, and begins anew after that; from the
/// fifth on the address is blocked for five minutes.
pub proof fn failures_count_within_a_minute(e: BruteForceEntry, now: u64)
    requires
        now >= e.window_start_ns,
        e.attempts < u32::MAX,
        now <= LAST_NS,
    ensures
        ({
            let f = BruteForceEntry::after_failure(Some(e), now);
            &&& now - e.window_start_ns <= 60_000_000_000 ==> f.attempts == e.attempts + 1
                && f.window_start_ns == e.window_start_ns
            &&& now - e.window_start_ns >= 61_000_000_000 ==> f.attempts == 1 && f.window_start_ns
                == now && f.blocked_until_ns is None
            &&& f.attempts >= 5 ==> f.blocked_until_ns == Some((now + 300_000_000_000) as u64)
        }),
{
}

} // verus!
