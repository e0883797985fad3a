//! A store that keeps its objects in memory.

use bytes::Bytes;
use vstd::prelude::*;
use vstd::string::*;
use vstd::utf8::encode_utf8;

use crate::buffer::{bytes_clone, bytes_from_string, bytes_len, bytes_seq, bytes_subrange};
use crate::clock;
use crate::clock::in_calendar;
use crate::common::error::{StorageError, StorageFault};
use crate::storage::{GetObjectOutput, ObjectInfo, ObjectMeta};
use crate::text;
use crate::text::{
    begins_with, decimal, lemma_precedes_strict, lemma_precedes_transitive, precedes,
};

verus! {

/// A stored object.
#[derive(Debug)]
pub struct StoredObject {
    pub data: Bytes,
    pub content_type: String,
    /// Nanoseconds since the Unix epoch.
    pub created_at: i128,
}

/// What an object holds.
#[verifier::ext_equal]
pub struct ObjectModel {
    pub data: Seq<u8>,
    pub content_type: Seq<char>,
    pub created_at: i128,
}

impl View for StoredObject {
    type V = ObjectModel;

    open spec fn view(&self) -> ObjectModel {
        ObjectModel {
            data: bytes_seq(self.data),
            content_type: self.content_type@,
            created_at: self.created_at,
        }
    }
}

/// Objects by their paths.
pub type Objects = Map<Seq<char>, ObjectModel>;

/// The entity tag of an object: its length, in quotes.
pub open spec fn etag_of(data: Seq<u8>) -> Seq<char> {
    "\""@ + decimal(data.len()) + "\""@
}

/// `out` is the part `data` of the object `o`.
pub open spec fn reads(out: GetObjectOutput, o: ObjectModel, data: Seq<u8>) -> bool {
    &&& bytes_seq(out.body) == data
    &&& out.content_length == data.len()
    &&& out.content_type@ == o.content_type
    &&& out.last_modified == o.created_at
    &&& out.etag@ == etag_of(o.data)
}

/// `m` describes the object `o`.
pub open spec fn describes(m: ObjectMeta, o: ObjectModel) -> bool {
    &&& m.content_length == o.data.len()
    &&& m.content_type@ == o.content_type
    &&& m.last_modified == o.created_at
    &&& m.etag@ == etag_of(o.data)
}

/// The error for a path without an object.
pub open spec fn not_found(path: Seq<char>) -> StorageFault {
    StorageFault::S3GetFailed { path, reason: "not found"@ }
}

/// The error for a range that starts behind the end of an object.
pub open spec fn beyond_end(path: Seq<char>, start: u64, len: nat) -> StorageFault {
    StorageFault::S3GetFailed {
        path,
        reason: "range start "@ + decimal(start as nat) + " exceeds object size "@ + decimal(len),
    }
}

/// The part of the bytes from `start` to `end`, both included; what lies behind the end is left
/// out.
pub open spec fn part(data: Seq<u8>, start: u64, end: u64) -> Seq<u8> {
    data.subrange(
        start as int,
        if end < data.len() {
            end + 1
        } else {
            data.len() as int
        },
    )
}

/// The listing of a path and its object.
pub open spec fn lists_object(i: ObjectInfo, objects: Objects) -> bool {
    &&& objects.contains_key(i.key@)
    &&& i.size == objects[i.key@].data.len()
    &&& i.last_modified == objects[i.key@].created_at
}

/// `r` lists the objects under a prefix, each once, in dictionary order of their paths.
pub open spec fn lists_prefix(r: Seq<ObjectInfo>, objects: Objects, prefix: Seq<char>) -> bool {
    &&& forall|i: int|
        0 <= i < r.len() ==> lists_object(#[trigger] r[i], objects) && begins_with(r[i].key@, prefix)
    &&& forall|i: int, j: int|
        0 <= i < j < r.len() ==> precedes((#[trigger] r[i]).key@, (#[trigger] r[j]).key@)
    &&& forall|k: Seq<char>| #[trigger]
        objects.contains_key(k) && begins_with(k, prefix) ==> exists|i: int|
            0 <= i < r.len() && (#[trigger] r[i]).key@ == k
}

/// The paths of `objects` under a prefix.
pub open spec fn under(objects: Objects, prefix: Seq<char>) -> Set<Seq<char>> {
    objects.dom().filter(|k: Seq<char>| begins_with(k, prefix))
}

/// The objects that are not under a prefix.
pub open spec fn without_prefix(objects: Objects, prefix: Seq<char>) -> Objects {
    objects.remove_keys(under(objects, prefix))
}

/// The path stands at `i`.
pub open spec fn key_at(e: Seq<(String, StoredObject)>, k: Seq<char>, i: int) -> bool {
    0 <= i < e.len() && e[i].0@ == k
}

/// The objects that a list of paths and objects stands for.
pub open spec fn as_objects(e: Seq<(String, StoredObject)>) -> Objects {
    Map::new(
        |k: Seq<char>| exists|i: int| key_at(e, k, i),
        |k: Seq<char>| e[choose|i: int| key_at(e, k, i)].1@,
    )
}

/// The paths stand in strict dictionary order.
pub open spec fn in_order(e: Seq<(String, StoredObject)>) -> bool {
    forall|i: int, j: int|
        0 <= i < j < e.len() ==> precedes((#[trigger] e[i]).0@, (#[trigger] e[j]).0@)
}

proof fn lemma_at(e: Seq<(String, StoredObject)>, i: int)
    requires
        in_order(e),
        0 <= i < e.len(),
    ensures
        as_objects(e).contains_key(e[i].0@),
        as_objects(e)[e[i].0@] == e[i].1@,
{
    let k = e[i].0@;
    assert(key_at(e, k, i));
    let j = choose|j: int| key_at(e, k, j);
    lemma_precedes_strict(k, k);
    assert(j == i);
}

proof fn lemma_find(e: Seq<(String, StoredObject)>, k: Seq<char>) -> (i: int)
    requires
        as_objects(e).contains_key(k),
    ensures
        key_at(e, k, i),
{
    choose|i: int| key_at(e, k, i)
}

/// A store that keeps its objects in memory.
#[derive(Debug)]
pub struct InMemoryMediaStore {
    entries: Vec<(String, StoredObject)>,
}

impl InMemoryMediaStore {
    /// The stored objects.
    pub closed spec fn objects(self) -> Objects {
        as_objects(self.entries@)
    }

    /// The objects are kept in dictionary order of their paths.
    pub closed spec fn wf(self) -> bool {
        in_order(self.entries@)
    }

    /// An empty store.
    pub fn new() -> (r: Self)
        ensures
            r.wf(),
            r.objects() == Map::<Seq<char>, ObjectModel>::empty(),
    {
        let r = InMemoryMediaStore { entries: Vec::new() };
        assert(r.objects() =~= Map::<Seq<char>, ObjectModel>::empty());
        r
    }

    /// The place of a path, or where it belongs.
    fn locate(&self, path: &str) -> (r: (bool, usize))
        requires
            self.wf(),
        ensures
            r.1 <= self.entries@.len(),
            r.0 == self.objects().contains_key(path@),
            r.0 ==> r.1 < self.entries@.len() && self.entries@[r.1 as int].0@ == path@
                && self.entries@[r.1 as int].1@ == self.objects()[path@],
            forall|j: int| 0 <= j < r.1 ==> precedes((#[trigger] self.entries@[j]).0@, path@),
            !r.0 ==> forall|j: int|
                r.1 <= j < self.entries@.len() ==> precedes(
                    path@,
                    (#[trigger] self.entries@[j]).0@,
                ),
    {
        let mut i: usize = 0;
        while i < self.entries.len() && text::comes_before(&self.entries[i].0, path)
            invariant
                i <= self.entries@.len(),
                self.wf(),
                forall|j: int| 0 <= j < i ==> precedes((#[trigger] self.entries@[j]).0@, path@),
            decreases self.entries@.len() - i,
        {
            i = i + 1;
        }
        if i < self.entries.len() && text::same(&self.entries[i].0, path) {
            proof {
                lemma_at(self.entries@, i as int);
            }
            (true, i)
        } else {
            proof {
                if i < self.entries@.len() {
                    lemma_precedes_strict(self.entries@[i as int].0@, path@);
                }
                assert forall|j: int| i <= j < self.entries@.len() implies precedes(
                    path@,
                    (#[trigger] self.entries@[j]).0@,
                ) by {
                    if j > i {
                        lemma_precedes_transitive(
                            path@,
                            self.entries@[i as int].0@,
                            self.entries@[j].0@,
                        );
                    }
                }
                assert forall|j: int| !key_at(self.entries@, path@, j) by {
                    lemma_precedes_strict(path@, path@);
                    if key_at(self.entries@, path@, j) {
                        assert(self.entries@[j].0@ == path@);
                    }
                }
            }
            (false, i)
        }
    }

    /// Stores an object under a path, in place of an earlier one.
    pub fn put(&mut self, path: &str, object: StoredObject)
        requires
            old(self).wf(),
        ensures
            final(self).wf(),
            final(self).objects() == old(self).objects().insert(path@, object@),
    {
        let found = self.locate(path);
        let ghost before = self.entries@;
        if found.0 {
            let i = found.1;
            self.entries.set(i, (text::owned(path), object));
            proof {
                let e = self.entries@;
                assert(in_order(e));
                let target = as_objects(before).insert(path@, object@);
                assert forall|k: Seq<char>| as_objects(e).contains_key(k) == target.contains_key(
                    k,
                ) by {
                    if as_objects(e).contains_key(k) {
                        let j = lemma_find(e, k);
                        if j != i {
                            assert(key_at(before, k, j));
                        }
                    }
                    if as_objects(before).contains_key(k) {
                        let j = lemma_find(before, k);
                        assert(key_at(e, k, j));
                    }
                }
                assert forall|k: Seq<char>| as_objects(e).contains_key(k) implies as_objects(e)[k]
                    == target[k] by {
                    let j = lemma_find(e, k);
                    lemma_at(e, j);
                    if j != i {
                        lemma_at(before, j);
                        lemma_precedes_strict(before[i as int].0@, before[j].0@);
                        if j < i {
                            assert(precedes(before[j].0@, before[i as int].0@));
                        } else {
                            assert(precedes(before[i as int].0@, before[j].0@));
                        }
                    }
                }
                assert(as_objects(e) =~= target);
            }
        } else {
            let i = found.1;
            self.entries.insert(i, (text::owned(path), object));
            proof {
                let e = self.entries@;
                assert forall|a: int, b: int| 0 <= a < b < e.len() implies precedes(
                    (#[trigger] e[a]).0@,
                    (#[trigger] e[b]).0@,
                ) by {
                    let a0 = if a < i {
                        a
                    } else {
                        a - 1
                    };
                    let b0 = if b < i {
                        b
                    } else {
                        b - 1
                    };
                    if a != i {
                        assert(e[a] == before[a0]);
                    }
                    if b != i {
                        assert(e[b] == before[b0]);
                    }
                }
                let target = as_objects(before).insert(path@, object@);
                assert forall|k: Seq<char>| as_objects(e).contains_key(k) == target.contains_key(
                    k,
                ) by {
                    if as_objects(e).contains_key(k) {
                        let j = lemma_find(e, k);
                        if j < i {
                            assert(key_at(before, k, j));
                        } else if j > i {
                            assert(key_at(before, k, j - 1));
                        }
                    }
                    if as_objects(before).contains_key(k) {
                        let j = lemma_find(before, k);
                        if j < i {
                            assert(key_at(e, k, j));
                        } else {
                            assert(key_at(e, k, j + 1));
                        }
                    }
                    assert(key_at(e, path@, i as int));
                }
                assert forall|k: Seq<char>| as_objects(e).contains_key(k) implies as_objects(e)[k]
                    == target[k] by {
                    let j = lemma_find(e, k);
                    lemma_at(e, j);
                    if j < i {
                        lemma_at(before, j);
                        lemma_precedes_strict(e[j].0@, path@);
                    } else if j > i {
                        lemma_at(before, j - 1);
                        lemma_precedes_strict(path@, e[j].0@);
                        assert(precedes(path@, before[j - 1].0@));
                    }
                }
                assert(as_objects(e) =~= target);
            }
        }
    }

    /// Stores a segment, now.
    pub fn put_segment(&mut self, path: &str, data: Bytes, content_type: &str) -> (r: Result<
        (),
        StorageError,
    >)
        requires
            old(self).wf(),
        ensures
            final(self).wf(),
            r is Ok,
            exists|now: i128|
                final(self).objects() == old(self).objects().insert(
                    path@,
                    #[trigger] object_model(bytes_seq(data), content_type@, now),
                ) && in_calendar(now),
    {
        self.put_segment_at(path, data, content_type, clock::now())
    }

    /// Stores a segment at `now`.
    pub fn put_segment_at(&mut self, path: &str, data: Bytes, content_type: &str, now: i128) -> (r:
        Result<(), StorageError>)
        requires
            old(self).wf(),
        ensures
            final(self).wf(),
            r is Ok,
            final(self).objects() == old(self).objects().insert(
                path@,
                object_model(bytes_seq(data), content_type@, now),
            ),
    {
        self.put(
            path,
            StoredObject { data, content_type: text::owned(content_type), created_at: now },
        );
        Ok(())
    }

    /// Stores a playlist, now.
    pub fn put_manifest(&mut self, path: &str, content: &str) -> (r: Result<(), StorageError>)
        requires
            old(self).wf(),
        ensures
            final(self).wf(),
            r is Ok,
            exists|now: i128|
                final(self).objects() == old(self).objects().insert(
                    path@,
                    #[trigger] object_model(
                        encode_utf8(content@),
                        "application/vnd.apple.mpegurl"@,
                        now,
                    ),
                ) && in_calendar(now),
    {
        self.put_manifest_at(path, content, clock::now())
    }

    /// Stores a playlist at `now`.
    pub fn put_manifest_at(&mut self, path: &str, content: &str, now: i128) -> (r: Result<
        (),
        StorageError,
    >)
        requires
            old(self).wf(),
        ensures
            final(self).wf(),
            r is Ok,
            final(self).objects() == old(self).objects().insert(
                path@,
                object_model(encode_utf8(content@), "application/vnd.apple.mpegurl"@, now),
            ),
    {
        self.put_segment_at(
            path,
            bytes_from_string(text::owned(content)),
            "application/vnd.apple.mpegurl",
            now,
        )
    }

    /// Stores metadata in JSON, now.
    pub fn put_metadata(&mut self, path: &str, metadata: &str) -> (r: Result<(), StorageError>)
        requires
            old(self).wf(),
        ensures
            final(self).wf(),
            r is Ok,
            exists|now: i128|
                final(self).objects() == old(self).objects().insert(
                    path@,
                    #[trigger] object_model(encode_utf8(metadata@), "application/json"@, now),
                ) && in_calendar(now),
    {
        self.put_segment_at(
            path,
            bytes_from_string(text::owned(metadata)),
            "application/json",
            clock::now(),
        )
    }

    /// What a read of a path gives: the object, or the error that there is none.
    pub open spec fn gives(self, path: Seq<char>, r: Result<GetObjectOutput, StorageError>) -> bool {
        match r {
            Ok(o) => self.objects().contains_key(path) && reads(
                o,
                self.objects()[path],
                self.objects()[path].data,
            ),
            Err(e) => !self.objects().contains_key(path) && e@ == not_found(path),
        }
    }

    /// Reads an object.
    pub fn get_object(&self, path: &str) -> (r: Result<GetObjectOutput, StorageError>)
        requires
            self.wf(),
        ensures
            self.gives(path@, r),
    {
        let found = self.locate(path);
        if !found.0 {
            return Err(missing(path));
        }
        let o = &self.entries[found.1].1;
        Ok(
            GetObjectOutput {
                body: bytes_clone(&o.data),
                content_length: bytes_len(&o.data) as u64,
                content_type: o.content_type.clone(),
                last_modified: o.created_at,
                etag: etag(&o.data),
            },
        )
    }

    /// Reads a part of an object, both ends included.
    pub fn get_object_range(&self, path: &str, start: u64, end: u64) -> (r: Result<
        GetObjectOutput,
        StorageError,
    >)
        requires
            self.wf(),
            self.objects().contains_key(path@) && start < self.objects()[path@].data.len() ==> start
                <= end,
        ensures
            r is Ok <==> self.objects().contains_key(path@) && start < self.objects()[path@].data.len(),
            r matches Ok(o) ==> reads(
                o,
                self.objects()[path@],
                part(self.objects()[path@].data, start, end),
            ),
            r matches Err(e) ==> e@ == if self.objects().contains_key(path@) {
                beyond_end(path@, start, self.objects()[path@].data.len())
            } else {
                not_found(path@)
            },
    {
        let found = self.locate(path);
        if !found.0 {
            return Err(missing(path));
        }
        let o = &self.entries[found.1].1;
        let len: usize = bytes_len(&o.data);
        if start >= len as u64 {
            let mut reason = text::owned("range start ");
            text::push_decimal(&mut reason, start);
            reason.append(" exceeds object size ");
            text::push_decimal(&mut reason, len as u64);
            return Err(StorageError::S3GetFailed { path: text::owned(path), reason });
        }
        let from: usize = start as usize;
        let to: usize = if end < len as u64 {
            end as usize + 1
        } else {
            len
        };
        Ok(
            GetObjectOutput {
                body: bytes_subrange(&o.data, from, to),
                content_length: (to - from) as u64,
                content_type: o.content_type.clone(),
                last_modified: o.created_at,
                etag: etag(&o.data),
            },
        )
    }

    /// What is known of an object without its body.
    pub fn head_object(&self, path: &str) -> (r: Result<ObjectMeta, StorageError>)
        requires
            self.wf(),
        ensures
            r is Ok <==> self.objects().contains_key(path@),
            r matches Ok(m) ==> describes(m, self.objects()[path@]),
            r matches Err(e) ==> e@ == not_found(path@),
    {
        let found = self.locate(path);
        if !found.0 {
            return Err(missing(path));
        }
        let o = &self.entries[found.1].1;
        Ok(
            ObjectMeta {
                content_length: bytes_len(&o.data) as u64,
                content_type: o.content_type.clone(),
                last_modified: o.created_at,
                etag: etag(&o.data),
            },
        )
    }

    /// Deletes an object. It is no error if there is none.
    pub fn delete_object(&mut self, path: &str) -> (r: Result<(), StorageError>)
        requires
            old(self).wf(),
        ensures
            final(self).wf(),
            r is Ok,
            final(self).objects() == old(self).objects().remove(path@),
    {
        let found = self.locate(path);
        let ghost before = self.entries@;
        if found.0 {
            let i = found.1;
            let _removed = self.entries.remove(i);
            proof {
                let e = self.entries@;
                assert forall|a: int, b: int| 0 <= a < b < e.len() implies precedes(
                    (#[trigger] e[a]).0@,
                    (#[trigger] e[b]).0@,
                ) by {
                    let a0 = if a < i {
                        a
                    } else {
                        a + 1
                    };
                    let b0 = if b < i {
                        b
                    } else {
                        b + 1
                    };
                    assert(e[a] == before[a0] && e[b] == before[b0]);
                }
                let target = as_objects(before).remove(path@);
                assert forall|k: Seq<char>| as_objects(e).contains_key(k) == target.contains_key(
                    k,
                ) by {
                    if as_objects(e).contains_key(k) {
                        let j = lemma_find(e, k);
                        let j0 = if j < i {
                            j
                        } else {
                            j + 1
                        };
                        assert(key_at(before, k, j0));
                        lemma_precedes_strict(before[j0].0@, before[i as int].0@);
                        lemma_precedes_strict(before[i as int].0@, before[j0].0@);
                    }
                    if target.contains_key(k) {
                        let j = lemma_find(before, k);
                        if j < i {
                            assert(key_at(e, k, j));
                        } else {
                            assert(key_at(e, k, j - 1));
                        }
                    }
                }
                assert forall|k: Seq<char>| as_objects(e).contains_key(k) implies as_objects(e)[k]
                    == target[k] by {
                    assert(as_objects(e).contains_key(k) == target.contains_key(k));
                    let j = lemma_find(e, k);
                    lemma_at(e, j);
                    lemma_at(
                        before,
                        if j < i {
                            j
                        } else {
                            j + 1
                        },
                    );
                }
                assert(as_objects(e) =~= target);
            }
        } else {
            assert(self.objects() =~= old(self).objects().remove(path@));
        }
        Ok(())
    }

    /// Lists the objects under a prefix, in dictionary order of their paths.
    pub fn list_objects(&self, prefix: &str) -> (r: Result<Vec<ObjectInfo>, StorageError>)
        requires
            self.wf(),
        ensures
            r is Ok,
            lists_prefix(r->Ok_0@, self.objects(), prefix@),
    {
        let mut out: Vec<ObjectInfo> = Vec::new();
        let mut i: usize = 0;
        let ghost e = self.entries@;
        while i < self.entries.len()
            invariant
                i <= self.entries@.len(),
                e == self.entries@,
                self.wf(),
                forall|j: int|
                    0 <= j < out@.len() ==> lists_object(#[trigger] out@[j], self.objects())
                        && begins_with(out@[j].key@, prefix@),
                forall|j: int, k: int|
                    0 <= j < k < out@.len() ==> precedes(
                        (#[trigger] out@[j]).key@,
                        (#[trigger] out@[k]).key@,
                    ),
                forall|j: int, k: int|
                    0 <= j < out@.len() && i <= k < e.len() ==> precedes(
                        (#[trigger] out@[j]).key@,
                        (#[trigger] e[k]).0@,
                    ),
                forall|j: int|
                    0 <= j < i && begins_with((#[trigger] e[j]).0@, prefix@) ==> exists|k: int|
                        0 <= k < out@.len() && (#[trigger] out@[k]).key@ == e[j].0@,
            decreases self.entries@.len() - i,
        {
            let entry = &self.entries[i];
            let ghost before = out@;
            if text::starts_with(&entry.0, prefix) {
                proof {
                    lemma_at(e, i as int);
                }
                out.push(
                    ObjectInfo {
                        key: entry.0.clone(),
                        size: bytes_len(&entry.1.data) as u64,
                        last_modified: entry.1.created_at,
                    },
                );
                assert(out@[out@.len() - 1].key@ == e[i as int].0@);
            }
            proof {
                assert forall|j: int|
                    0 <= j < i + 1 && begins_with((#[trigger] e[j]).0@, prefix@) implies exists|
                    k: int,
                |
                    0 <= k < out@.len() && (#[trigger] out@[k]).key@ == e[j].0@ by {
                    if j < i {
                        let k = choose|k: int|
                            0 <= k < before.len() && (#[trigger] before[k]).key@ == e[j].0@;
                        assert(out@[k].key@ == e[j].0@);
                    }
                }
            }
            i = i + 1;
        }
        proof {
            assert forall|k: Seq<char>| #[trigger]
                self.objects().contains_key(k) && begins_with(k, prefix@) implies exists|j: int|
                0 <= j < out@.len() && (#[trigger] out@[j]).key@ == k by {
                let j = lemma_find(e, k);
                assert(e[j].0@ == k);
            }
        }
        Ok(out)
    }

    /// Deletes the objects under a prefix, and returns how many there were.
    pub fn delete_prefix(&mut self, prefix: &str) -> (r: Result<u64, StorageError>)
        requires
            old(self).wf(),
        ensures
            final(self).wf(),
            r is Ok,
            final(self).objects() == without_prefix(old(self).objects(), prefix@),
            r->Ok_0 == under(old(self).objects(), prefix@).len(),
    {
        let mut kept: Vec<(String, StoredObject)> = Vec::new();
        let ghost e = self.entries@;
        let mut count: u64 = 0;
        let mut i: usize = 0;
        let n = self.entries.len();
        let ghost mut gone: Set<Seq<char>> = Set::empty();
        while i < n
            invariant
                i <= n,
                n == e.len(),
                self.entries@ == e,
                in_order(e),
                count <= i,
                count == gone.len(),
                gone.finite(),
                forall|k: Seq<char>| #[trigger]
                    gone.contains(k) <==> exists|j: int|
                        0 <= j < i && (#[trigger] e[j]).0@ == k && begins_with(k, prefix@),
                in_order(kept@),
                forall|j: int|
                    0 <= j < kept@.len() ==> !begins_with((#[trigger] kept@[j]).0@, prefix@),
                forall|j: int| 0 <= j < kept@.len() ==> as_objects(e).contains_key(
                        (#[trigger] kept@[j]).0@,
                    ) && as_objects(e)[kept@[j].0@] == kept@[j].1@,
                forall|j: int, k: int|
                    0 <= j < kept@.len() && i <= k < e.len() ==> precedes(
                        (#[trigger] kept@[j]).0@,
                        (#[trigger] e[k]).0@,
                    ),
                forall|j: int|
                    0 <= j < i && !begins_with((#[trigger] e[j]).0@, prefix@) ==> exists|k: int|
                        0 <= k < kept@.len() && (#[trigger] kept@[k]).0@ == e[j].0@,
            decreases n - i,
        {
            let entry = &self.entries[i];
            let ghost before = kept@;
            let ghost gone_before = gone;
            proof {
                lemma_at(e, i as int);
            }
            if text::starts_with(&entry.0, prefix) {
                count = count + 1;
                proof {
                    let key = e[i as int].0@;
                    gone = gone_before.insert(key);
                    assert(!gone_before.contains(key)) by {
                        if gone_before.contains(key) {
                            let j = choose|j: int|
                                0 <= j < i && (#[trigger] e[j]).0@ == key && begins_with(
                                    key,
                                    prefix@,
                                );
                            lemma_precedes_strict(e[j].0@, e[i as int].0@);
                        }
                    }
                }
            } else {
                kept.push(
                    (
                        entry.0.clone(),
                        StoredObject {
                            data: bytes_clone(&entry.1.data),
                            content_type: entry.1.content_type.clone(),
                            created_at: entry.1.created_at,
                        },
                    ),
                );
                assert(kept@[kept@.len() - 1].0@ == e[i as int].0@);
                assert(kept@[kept@.len() - 1].1@ == e[i as int].1@);
            }
            proof {
                assert forall|k: Seq<char>| #[trigger] gone.contains(k) <==> exists|j: int|
                    0 <= j < i + 1 && (#[trigger] e[j]).0@ == k && begins_with(k, prefix@) by {
                    if gone.contains(k) {
                        if gone_before.contains(k) {
                            let j = choose|j: int|
                                0 <= j < i && (#[trigger] e[j]).0@ == k && begins_with(k, prefix@);
                            assert(e[j].0@ == k);
                        } else {
                            assert(e[i as int].0@ == k);
                        }
                    }
                    if exists|j: int|
                        0 <= j < i + 1 && (#[trigger] e[j]).0@ == k && begins_with(k, prefix@) {
                        let j = choose|j: int|
                            0 <= j < i + 1 && (#[trigger] e[j]).0@ == k && begins_with(k, prefix@);
                        if j < i {
                            assert(gone_before.contains(k));
                        }
                    }
                }
                assert forall|j: int|
                    0 <= j < i + 1 && !begins_with((#[trigger] e[j]).0@, prefix@) implies exists|
                    k: int,
                |
                    0 <= k < kept@.len() && (#[trigger] kept@[k]).0@ == e[j].0@ by {
                    if j < i {
                        let k = choose|k: int|
                            0 <= k < before.len() && (#[trigger] before[k]).0@ == e[j].0@;
                        assert(kept@[k].0@ == e[j].0@);
                    }
                }
            }
            i = i + 1;
        }
        self.entries = kept;
        proof {
            let target = without_prefix(as_objects(e), prefix@);
            let now = as_objects(kept@);
            assert(gone =~= under(as_objects(e), prefix@)) by {
                assert forall|k: Seq<char>| gone.contains(k) == under(
                    as_objects(e),
                    prefix@,
                ).contains(k) by {
                    if gone.contains(k) {
                        let j = choose|j: int|
                            0 <= j < i && (#[trigger] e[j]).0@ == k && begins_with(k, prefix@);
                        assert(key_at(e, k, j));
                    }
                    if under(as_objects(e), prefix@).contains(k) {
                        let j = lemma_find(e, k);
                        assert(e[j].0@ == k);
                    }
                }
            }
            assert forall|k: Seq<char>| now.contains_key(k) == target.contains_key(k) by {
                if now.contains_key(k) {
                    let j = lemma_find(kept@, k);
                    assert(as_objects(e).contains_key(kept@[j].0@));
                }
                if target.contains_key(k) {
                    let j = lemma_find(e, k);
                    assert(!begins_with(e[j].0@, prefix@));
                    let m = choose|m: int|
                        0 <= m < kept@.len() && (#[trigger] kept@[m]).0@ == e[j].0@;
                    assert(key_at(kept@, k, m));
                }
            }
            assert forall|k: Seq<char>| now.contains_key(k) implies now[k] == target[k] by {
                let j = lemma_find(kept@, k);
                lemma_at(kept@, j);
                assert(as_objects(e)[kept@[j].0@] == kept@[j].1@);
            }
            assert(now =~= target);
        }
        Ok(count)
    }

    /// The number of objects.
    pub fn object_count(&self) -> (r: usize)
        requires
            self.wf(),
        ensures
            r == self.objects().dom().len(),
            self.objects().dom().finite(),
    {
        proof {
            lemma_count(self.entries@);
        }
        self.entries.len()
    }

    /// Whether there is an object under a path.
    pub fn has_object(&self, path: &str) -> (r: bool)
        requires
            self.wf(),
        ensures
            r == self.objects().contains_key(path@),
    {
        self.locate(path).0
    }
}

impl Default for InMemoryMediaStore {
    fn default() -> (r: Self)
        ensures
            r.wf(),
            r.objects() == Map::<Seq<char>, ObjectModel>::empty(),
    {
        InMemoryMediaStore::new()
    }
}

/// An object with these contents.
pub open spec fn object_model(data: Seq<u8>, content_type: Seq<char>, created_at: i128) -> ObjectModel {
    ObjectModel { data, content_type, created_at }
}

proof fn lemma_count(e: Seq<(String, StoredObject)>)
    requires
        in_order(e),
    ensures
        as_objects(e).dom().finite(),
        as_objects(e).dom().len() == e.len(),
    decreases e.len(),
{
    if e.len() == 0 {
        assert(as_objects(e).dom() =~= Set::<Seq<char>>::empty());
    } else {
        let shorter = e.drop_last();
        assert(in_order(shorter));
        lemma_count(shorter);
        let last = e.last().0@;
        assert forall|k: Seq<char>| as_objects(e).dom().contains(k) == as_objects(
            shorter,
        ).dom().insert(last).contains(k) by {
            if as_objects(e).contains_key(k) {
                let j = lemma_find(e, k);
                if j < shorter.len() {
                    assert(key_at(shorter, k, j));
                }
            }
            if as_objects(shorter).contains_key(k) {
                let j = lemma_find(shorter, k);
                assert(key_at(e, k, j));
            }
            assert(key_at(e, last, e.len() - 1));
        }
        assert(as_objects(e).dom() =~= as_objects(shorter).dom().insert(last));
        assert(!as_objects(shorter).dom().contains(last)) by {
            if as_objects(shorter).contains_key(last) {
                let j = lemma_find(shorter, last);
                assert(precedes(e[j].0@, e[e.len() - 1].0@));
                lemma_precedes_strict(e[j].0@, last);
            }
        }
    }
}

fn etag(data: &Bytes) -> (r: String)
    ensures
        r@ == etag_of(bytes_seq(*data)),
{
    let mut s = text::owned("\"");
    text::push_decimal(&mut s, bytes_len(data) as u64);
    s.append("\"");
    s
}

fn missing(path: &str) -> (r: StorageError)
    ensures
        r@ == not_found(path@),
{
    StorageError::S3GetFailed { path: text::owned(path), reason: text::owned("not found") }
}

// ---------------------------------------------------------------------------
// Laws
// ---------------------------------------------------------------------------

/// What was put under a path is what a read of the path gives back.
pub proof fn put_then_get(
    before: InMemoryMediaStore,
    after: InMemoryMediaStore,
    path: Seq<char>,
    o: ObjectModel,
    r: Result<GetObjectOutput, StorageError>,
)
    requires
        after.objects() == before.objects().insert(path, o),
        after.gives(path, r),
    ensures
        r is Ok,
        bytes_seq(r->Ok_0.body) == o.data,
        r->Ok_0.content_type@ == o.content_type,
{
}

/// A deleted object is not found any more, and every other object is read as before.
pub proof fn delete_then_get(
    before: InMemoryMediaStore,
    after: InMemoryMediaStore,
    path: Seq<char>,
    other: Seq<char>,
    r: Result<GetObjectOutput, StorageError>,
)
    requires
        after.objects() == before.objects().remove(path),
        after.gives(other, r),
    ensures
        other == path ==> r is Err,
        other != path ==> before.gives(other, r),
{
}

/// Deleting a prefix takes away exactly the objects under it.
pub proof fn delete_prefix_takes_exactly_the_prefix(
    objects: Objects,
    prefix: Seq<char>,
    path: Seq<char>,
)
    ensures
        without_prefix(objects, prefix).contains_key(path) <==> objects.contains_key(path)
            && !begins_with(path, prefix),
        without_prefix(objects, prefix).contains_key(path) ==> without_prefix(objects, prefix)[path]
            == objects[path],
{
}

/// Parts of an object that follow each other make up the whole.
pub proof fn parts_make_up_the_whole(data: Seq<u8>, cut: u64, last: u64)
    requires
        0 < cut <= last,
        last + 1 == data.len(),
    ensures
        part(data, 0, (cut - 1) as u64) + part(data, cut, last) == data,
{
    assert(part(data, 0, (cut - 1) as u64) + part(data, cut, last) =~= data);
}

/// A part of an object holds the bytes from its start to its end, both included, as far as the
/// object goes.
pub proof fn parts_hold_their_bytes(data: Seq<u8>, start: u64, end: u64, i: int)
    requires
        start < data.len(),
        start <= end,
    ensures
        part(data, start, end).len() == if end < data.len() {
            end - start + 1
        } else {
            data.len() - start
        },
        0 <= i < part(data, start, end).len() ==> part(data, start, end)[i] == data[start + i],
{
}

/// The entity tag of an object is its length in quotes.
pub proof fn entity_tags_tell_the_length(data: Seq<u8>)
    ensures
        ({
            let t = etag_of(data);
            &&& t.len() > 2
            &&& t[0] == '"' && t.last() == '"'
            &&& crate::text::digits_value(t.subrange(1, t.len() - 1)) == data.len()
        }),
{
    reveal_strlit("\"");
    crate::text::decimals_read_back(data.len());
    let t = etag_of(data);
    assert(t.subrange(1, t.len() - 1) =~= decimal(data.len()));
}

} // verus!
