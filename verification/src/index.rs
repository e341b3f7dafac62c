use vstd::prelude::*;

verus! {

use crate::tracker::EntityKind;

/// One of the two upstream catalog providers this engine ingests from.
#[derive(Clone, Copy, PartialEq, Eq, Structural, Debug)]
pub enum Provider {
    Jikan,
    Anilist,
}

/// The name of the index collection a provider's catalog of one entity
/// kind lives in.
pub open spec fn spec_collection_name(provider: Provider, kind: EntityKind) -> Seq<char> {
    match (provider, kind) {
        (Provider::Jikan, EntityKind::Anime) => "jikan_anime"@,
        (Provider::Jikan, EntityKind::Character) => "jikan_character"@,
        (Provider::Jikan, EntityKind::Manga) => "jikan_manga"@,
        (Provider::Anilist, EntityKind::Anime) => "anilist_anime"@,
        (Provider::Anilist, EntityKind::Character) => "anilist_character"@,
        (Provider::Anilist, EntityKind::Manga) => "anilist_manga"@,
    }
}

/// The one authority for the provider × entity-kind → collection-name
/// mapping: every index query and every upsert goes to the collection this
/// names, a distinct one per provider and kind.
pub fn collection_name(provider: Provider, kind: EntityKind) -> (name: &'static str)
    ensures
        name@ == spec_collection_name(provider, kind),
{
    match (provider, kind) {
        (Provider::Jikan, EntityKind::Anime) => "jikan_anime",
        (Provider::Jikan, EntityKind::Character) => "jikan_character",
        (Provider::Jikan, EntityKind::Manga) => "jikan_manga",
        (Provider::Anilist, EntityKind::Anime) => "anilist_anime",
        (Provider::Anilist, EntityKind::Character) => "anilist_character",
        (Provider::Anilist, EntityKind::Manga) => "anilist_manga",
    }
}

/// The map described by parallel key and record columns read left to right:
/// a later occurrence of a key overrides an earlier one.
pub open spec fn keyed_map<T>(keys: Seq<int>, records: Seq<T>) -> Map<int, T>
    decreases keys.len(),
{
    if keys.len() == 0 {
        Map::empty()
    } else {
        keyed_map(keys.drop_last(), records.drop_last()).insert(keys.last(), records.last())
    }
}

/// A batch applied to a map, pair by pair, insert-or-replace on the key:
/// the upsert discipline of a search-index collection.
pub open spec fn upserted<T>(base: Map<int, T>, keys: Seq<int>, records: Seq<T>) -> Map<int, T>
    decreases keys.len(),
{
    if keys.len() == 0 {
        base
    } else {
        upserted(base, keys.drop_last(), records.drop_last()).insert(
            keys.last(),
            records.last(),
        )
    }
}

/// Model of one named search-index collection: records keyed by their
/// declared primary key. An upsert replaces the record sharing its key and
/// otherwise appends; records never vanish on their own.
pub struct IndexCollection<T> {
    /// Primary keys, in insertion order; no key occurs twice.
    pub keys: Vec<i64>,
    /// The record stored under the key at the same position.
    pub records: Vec<T>,
}

impl<T> IndexCollection<T> {
    /// The keys as mathematical integers.
    pub open spec fn key_seq(self) -> Seq<int> {
        self.keys@.map_values(|k: i64| k as int)
    }

    /// The collection as a map from primary key to stored record.
    pub open spec fn view(self) -> Map<int, T> {
        keyed_map(self.key_seq(), self.records@)
    }

    /// Everything the collection maintains between calls.
    pub open spec fn wf(self) -> bool {
        &&& self.keys@.len() == self.records@.len()
        &&& self.keys@.no_duplicates()
    }

    pub fn new() -> (collection: Self)
        ensures
            collection.wf(),
            collection.view() == Map::<int, T>::empty(),
    {
        IndexCollection { keys: Vec::new(), records: Vec::new() }
    }

    /// How many records the collection holds.
    pub fn len(&self) -> (count: usize)
        requires
            self.wf(),
        ensures
            count == self.view().dom().len(),
    {
        proof {
            self.lemma_view_properties();
        }
        self.keys.len()
    }

    /// The record stored under `key`, if any.
    pub fn get(&self, key: i64) -> (found: Option<&T>)
        requires
            self.wf(),
        ensures
            match found {
                Some(record) => self.view().contains_key(key as int) && *record
                    == self.view()[key as int],
                None => !self.view().contains_key(key as int),
            },
    {
        proof {
            self.lemma_view_properties();
        }
        let mut i: usize = 0;
        while i < self.keys.len()
            invariant
                self.wf(),
                i <= self.keys@.len(),
                forall|j: int| 0 <= j < i ==> #[trigger] self.keys@[j] != key,
                self.view().dom() =~= self.key_seq().to_set(),
                forall|j: int|
                    0 <= j < self.keys@.len() ==> self.view()[#[trigger] self.key_seq()[j]]
                        == self.records@[j],
            decreases self.keys@.len() - i,
        {
            if self.keys[i] == key {
                proof {
                    assert(self.key_seq()[i as int] == key as int);
                    assert(self.key_seq().to_set().contains(key as int));
                }
                return Some(&self.records[i]);
            }
            i += 1;
        }
        proof {
            if self.view().contains_key(key as int) {
                let j: int = choose|j: int|
                    0 <= j < self.key_seq().len() && #[trigger] self.key_seq()[j] == key as int;
                assert(self.keys@[j] == key);
            }
        }
        None
    }

    /// Inserts the record under `key`, replacing the record sharing that key
    /// if one is stored.
    pub fn upsert(&mut self, key: i64, record: T)
        requires
            old(self).wf(),
        ensures
            final(self).wf(),
            final(self).view() == old(self).view().insert(key as int, record),
    {
        proof {
            old(self).lemma_view_properties();
        }
        let ghost prev = *self;
        let mut i: usize = 0;
        while i < self.keys.len()
            invariant
                *self == prev,
                prev == *old(self),
                prev.wf(),
                i <= self.keys@.len(),
                forall|j: int| 0 <= j < i ==> #[trigger] self.keys@[j] != key,
            decreases self.keys@.len() - i,
        {
            if self.keys[i] == key {
                self.records[i] = record;
                proof {
                    prev.lemma_view_properties();
                    self.lemma_view_properties();
                    let i0: int = i as int;
                    assert(self.key_seq() =~= prev.key_seq());
                    assert(self.key_seq()[i0] == key as int);
                    assert(self.key_seq().to_set().contains(key as int));
                    let target = prev.view().insert(key as int, record);
                    assert(self.view().dom() =~= target.dom());
                    assert forall|k: int| self.view().dom().contains(k) implies self.view()[k]
                        == target[k] by {
                        let j: int = choose|j: int|
                            0 <= j < self.key_seq().len() && #[trigger] self.key_seq()[j] == k;
                        assert(self.view()[self.key_seq()[j]] == self.records@[j]);
                        if k == key as int {
                            assert(self.keys@[j] as int == self.keys@[i0] as int);
                            assert(j == i0);
                        } else {
                            assert(j != i0);
                            assert(self.records@[j] == prev.records@[j]);
                            assert(prev.view()[prev.key_seq()[j]] == prev.records@[j]);
                        }
                    }
                    assert(self.view() =~= target);
                }
                return ;
            }
            i += 1;
        }
        self.keys.push(key);
        self.records.push(record);
        proof {
            assert(self.keys@.drop_last() =~= prev.keys@);
            assert(self.keys@.no_duplicates());
            assert(self.key_seq().drop_last() =~= prev.key_seq());
            assert(self.records@.drop_last() =~= prev.records@);
            assert(self.view() == keyed_map(self.key_seq(), self.records@));
        }
    }

    /// Applies one batch, front to back: each pair is inserted under its
    /// key, replacing whatever record shared it. Applying the same batch
    /// again changes nothing — the second pass rewrites every key with the
    /// same record.
    pub fn upsert_batch(&mut self, keys: Vec<i64>, records: Vec<T>)
        requires
            old(self).wf(),
            keys@.len() == records@.len(),
        ensures
            final(self).wf(),
            final(self).view() == upserted(
                old(self).view(),
                keys@.map_values(|k: i64| k as int),
                records@,
            ),
    {
        let ghost base = old(self).view();
        let ghost all_keys = keys@.map_values(|k: i64| k as int);
        let ghost all_records = records@;
        let mut keys = keys;
        let mut records = records;
        let mut done: usize = 0;
        let batch_len: usize = keys.len();
        let ghost total = batch_len as int;
        while keys.len() > 0
            invariant
                self.wf(),
                keys@.len() == records@.len(),
                done + keys@.len() == total,
                total <= usize::MAX,
                all_keys.len() == total,
                all_records.len() == total,
                keys@.map_values(|k: i64| k as int) =~= all_keys.skip(done as int),
                records@ =~= all_records.skip(done as int),
                self.view() == upserted(base, all_keys.take(done as int), all_records.take(
                    done as int,
                )),
            decreases keys@.len(),
        {
            let ghost ks_before = keys@;
            let ghost rs_before = records@;
            let key = keys.remove(0);
            let record = records.remove(0);
            self.upsert(key, record);
            proof {
                let f = |k: i64| k as int;
                assert(ks_before.map_values(f)[0] == f(ks_before[0]));
                assert(all_keys[done as int] == ks_before.map_values(f)[0]);
                assert(all_records[done as int] == rs_before[0]);
                let d1: int = done + 1;
                assert(all_keys.take(d1).drop_last() =~= all_keys.take(done as int));
                assert(all_records.take(d1).drop_last() =~= all_records.take(done as int));
                assert(all_keys.take(d1).last() == key as int);
                assert(all_records.take(d1).last() == record);
                assert(keys@ == ks_before.remove(0));
                assert(records@ == rs_before.remove(0));
                assert forall|x: int| 0 <= x < keys@.len() implies #[trigger] keys@.map_values(
                    f,
                )[x] == all_keys.skip(d1)[x] by {
                    assert(keys@[x] == ks_before[x + 1]);
                    assert(ks_before.map_values(f)[x + 1] == f(ks_before[x + 1]));
                    assert(all_keys.skip(done as int)[x + 1] == all_keys[done + x + 1]);
                    assert(all_keys.skip(d1)[x] == all_keys[d1 + x]);
                }
                assert(keys@.map_values(f) =~= all_keys.skip(d1));
                assert forall|x: int| 0 <= x < records@.len() implies #[trigger] records@[x]
                    == all_records.skip(d1)[x] by {
                    assert(records@[x] == rs_before[x + 1]);
                    assert(all_records.skip(done as int)[x + 1] == all_records[done + x + 1]);
                    assert(all_records.skip(d1)[x] == all_records[d1 + x]);
                }
                assert(records@ =~= all_records.skip(d1));
            }
            done += 1;
        }
        proof {
            assert(all_keys.take(total as int) =~= all_keys);
            assert(all_records.take(total as int) =~= all_records);
        }
    }

    /// The collection's map has the keys as its domain and stores, under the
    /// key at each position, the record at that position.
    pub proof fn lemma_view_properties(self)
        requires
            self.wf(),
        ensures
            self.view().dom() =~= self.key_seq().to_set(),
            self.view().dom().finite(),
            self.view().dom().len() == self.keys@.len(),
            forall|j: int|
                0 <= j < self.keys@.len() ==> self.view()[#[trigger] self.key_seq()[j]]
                    == self.records@[j],
    {
        lemma_keyed_map_properties(self.key_seq(), self.records@);
        assert(self.key_seq().no_duplicates());
        self.key_seq().unique_seq_to_set();
    }
}

/// Pointwise description of `keyed_map` for distinct keys.
proof fn lemma_keyed_map_properties<T>(keys: Seq<int>, records: Seq<T>)
    requires
        keys.len() == records.len(),
        keys.no_duplicates(),
    ensures
        keyed_map(keys, records).dom() =~= keys.to_set(),
        keyed_map(keys, records).dom().finite(),
        forall|j: int|
            0 <= j < keys.len() ==> keyed_map(keys, records)[#[trigger] keys[j]] == records[j],
    decreases keys.len(),
{
    if keys.len() > 0 {
        lemma_keyed_map_properties(keys.drop_last(), records.drop_last());
        assert forall|x: int| keys.to_set().contains(x)
            == keyed_map(keys, records).dom().contains(x) by {
            if keys.to_set().contains(x) {
                let j: int = choose|j: int| 0 <= j < keys.len() && keys[j] == x;
                if j < keys.len() - 1 {
                    assert(keys.drop_last()[j] == x);
                }
            }
            if keyed_map(keys, records).dom().contains(x) {
                if x != keys.last() {
                    let j: int = choose|j: int|
                        0 <= j < keys.drop_last().len() && #[trigger] keys.drop_last()[j] == x;
                    assert(keys[j] == x);
                }
            }
        }
        assert forall|j: int|
            0 <= j < keys.len() implies keyed_map(keys, records)[#[trigger] keys[j]]
            == records[j] by {
            if j < keys.len() - 1 {
                assert(keys[j] != keys.last());
                assert(keys.drop_last()[j] == keys[j]);
                assert(records.drop_last()[j] == records[j]);
            }
        }
    }
}

/// The index in a batch of a key's last occurrence.
proof fn last_occurrence(keys: Seq<int>, key: int) -> (j: int)
    requires
        keys.contains(key),
    ensures
        0 <= j < keys.len(),
        keys[j] == key,
        forall|i: int| j < i < keys.len() ==> #[trigger] keys[i] != key,
    decreases keys.len(),
{
    if keys.last() == key {
        keys.len() - 1
    } else {
        let w: int = choose|i: int| 0 <= i < keys.len() && #[trigger] keys[i] == key;
        assert(keys.drop_last()[w] == key);
        let j: int = last_occurrence(keys.drop_last(), key);
        assert forall|i: int| j < i < keys.len() implies #[trigger] keys[i] != key by {
            if i < keys.len() - 1 {
                assert(keys.drop_last()[i] == keys[i]);
            }
        }
        j
    }
}

/// Pointwise description of a batch upsert: a key absent from the batch
/// keeps its old record, and a key present in the batch stores the record
/// of its last occurrence.
pub proof fn lemma_upserted_properties<T>(base: Map<int, T>, keys: Seq<int>, records: Seq<T>)
    requires
        keys.len() == records.len(),
    ensures
        upserted(base, keys, records).dom() =~= base.dom().union(keys.to_set()),
        forall|k: int|
            !keys.contains(k) && base.contains_key(k) ==> upserted(base, keys, records)[k]
                == base[k],
        forall|j: int|
            0 <= j < keys.len() && (forall|i: int| j < i < keys.len() ==> keys[i] != #[trigger] keys[j])
                ==> upserted(base, keys, records)[keys[j]] == records[j],
    decreases keys.len(),
{
    if keys.len() > 0 {
        lemma_upserted_properties(base, keys.drop_last(), records.drop_last());
        assert forall|x: int| upserted(base, keys, records).dom().contains(x)
            == base.dom().union(keys.to_set()).contains(x) by {
            if keys.to_set().contains(x) {
                let j: int = choose|j: int| 0 <= j < keys.len() && keys[j] == x;
                if j < keys.len() - 1 {
                    assert(keys.drop_last()[j] == x);
                    assert(keys.drop_last().to_set().contains(x));
                }
            }
            if upserted(base, keys, records).dom().contains(x) && x != keys.last() {
                assert(upserted(base, keys.drop_last(), records.drop_last()).dom().contains(x));
            }
            if keys.drop_last().to_set().contains(x) {
                let j: int = choose|j: int|
                    0 <= j < keys.drop_last().len() && #[trigger] keys.drop_last()[j] == x;
                assert(keys[j] == x);
            }
        }
        assert forall|k: int|
            !keys.contains(k) && base.contains_key(k) implies upserted(base, keys, records)[k]
            == base[k] by {
            assert(!keys.drop_last().contains(k)) by {
                if keys.drop_last().contains(k) {
                    let j: int = choose|j: int|
                        0 <= j < keys.drop_last().len() && #[trigger] keys.drop_last()[j] == k;
                    assert(keys[j] == k);
                }
            }
            assert(k != keys.last());
        }
        assert forall|j: int|
            0 <= j < keys.len() && (forall|i: int|
                j < i < keys.len() ==> keys[i] != #[trigger] keys[j]) implies upserted(
            base,
            keys,
            records,
        )[keys[j]] == records[j] by {
            if j == keys.len() - 1 {
            } else {
                assert(keys[j] != keys.last());
                assert(keys.drop_last()[j] == keys[j]);
                assert(records.drop_last()[j] == records[j]);
                assert(forall|i: int|
                    j < i < keys.drop_last().len() ==> #[trigger] keys.drop_last()[i]
                        != keys.drop_last()[j]);
            }
        }
    }
}

/// Idempotent upsert: applying the same batch twice leaves the collection
/// exactly as one application left it — same record count, every key bound
/// to the batch's (last) record for it.
pub proof fn lemma_upsert_idempotent<T>(base: Map<int, T>, keys: Seq<int>, records: Seq<T>)
    requires
        keys.len() == records.len(),
    ensures
        upserted(upserted(base, keys, records), keys, records) == upserted(
            base,
            keys,
            records,
        ),
{
    let once = upserted(base, keys, records);
    let twice = upserted(once, keys, records);
    lemma_upserted_properties(base, keys, records);
    lemma_upserted_properties(once, keys, records);
    assert forall|k: int| #[trigger] twice.dom().contains(k) implies once.dom().contains(k)
        && twice[k] == once[k] by {
        if keys.contains(k) {
            let j: int = last_occurrence(keys, k);
            assert(once[keys[j]] == records[j]);
            assert(twice[keys[j]] == records[j]);
        }
    }
    assert(twice =~= once);
}

} // verus!
