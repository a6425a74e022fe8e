use vstd::prelude::*;
use crate::kv::{ByteMap, pairs_map, lemma_pairs_map_take, lemma_pairs_map_take_all};
use crate::storage::{Storage, StorageError, clone_bytes};

verus! {

/// After a write, a read of the same key in the resulting effective view
/// yields the written value: `set(k, v); get(k) == v`, in the model the
/// cache operations' contracts are stated over.
pub proof fn lemma_set_then_get(effective: Map<Seq<u8>, Seq<u8>>, k: Seq<u8>, v: Seq<u8>)
    ensures
        effective.insert(k, v).contains_key(k),
        effective.insert(k, v)[k] == v,
{
}

/// A delete shadows any earlier write of the key:
/// `set(k, v); delete(k); get_opt(k)` finds nothing.
pub proof fn lemma_set_then_delete(effective: Map<Seq<u8>, Seq<u8>>, k: Seq<u8>, v: Seq<u8>)
    ensures
        !effective.insert(k, v).remove(k).contains_key(k),
{
}

/// A write restores a deleted key: `delete(k); set(k, v); get(k) == v`.
pub proof fn lemma_delete_then_set(effective: Map<Seq<u8>, Seq<u8>>, k: Seq<u8>, v: Seq<u8>)
    ensures
        effective.remove(k).insert(k, v).contains_key(k),
        effective.remove(k).insert(k, v)[k] == v,
{
}

/// The per-batch overlay cache: a write-through buffer of pending writes
/// plus a set of tombstoned keys, laid over a backing store. Reads check
/// the tombstones first, then the buffer, then read through to the backing
/// store (memoizing what they find); writes and deletes touch only the
/// overlay until `commit` walks it into the backing store.
pub struct InMemoryCache {
    cache: ByteMap,
    tombstone: ByteMap,
}

impl InMemoryCache {
    /// The buffered writes.
    pub closed spec fn buffer(&self) -> Map<Seq<u8>, Seq<u8>> {
        self.cache@
    }

    /// The keys marked deleted.
    pub closed spec fn tombstones(&self) -> Set<Seq<u8>> {
        self.tombstone@.dom()
    }

    /// The overlay's invariant: both sides ordered, and no buffered key is
    /// tombstoned.
    pub closed spec fn wf(&self) -> bool {
        &&& self.cache.wf()
        &&& self.tombstone.wf()
        &&& self.buffer().dom().disjoint(self.tombstones())
    }

    /// The overlay's standing invariant, spelled out: no key is both
    /// buffered and tombstoned. Every operation of the cache keeps `wf`,
    /// so this holds after any sequence of writes and deletes.
    pub proof fn lemma_wf_disjoint(&self)
        requires
            self.wf(),
        ensures
            self.buffer().dom().disjoint(self.tombstones()),
    {
    }

    /// The key→value content a reader of the cache observes over a given
    /// backing content: the buffer laid over the backing store, with the
    /// tombstoned keys taken out.
    pub open spec fn effective(&self, backing: Map<Seq<u8>, Seq<u8>>) -> Map<Seq<u8>, Seq<u8>> {
        backing.union_prefer_right(self.buffer()).remove_keys(self.tombstones())
    }

    /// A fresh, empty overlay.
    pub fn new() -> (c: Self)
        ensures
            c.wf(),
            c.buffer() == Map::<Seq<u8>, Seq<u8>>::empty(),
            c.tombstones() == Set::<Seq<u8>>::empty(),
    {
        let c = InMemoryCache { cache: ByteMap::new(), tombstone: ByteMap::new() };
        proof {
            assert(c.buffer().dom() =~= Set::<Seq<u8>>::empty());
            assert(c.tombstones() =~= Set::<Seq<u8>>::empty());
        }
        c
    }

    /// Buffer a write: the key stops being tombstoned and now maps to the
    /// value, in the overlay and in every effective view.
    pub fn set(&mut self, key: Vec<u8>, value: Vec<u8>)
        requires
            old(self).wf(),
        ensures
            final(self).wf(),
            final(self).buffer() == old(self).buffer().insert(key@, value@),
            final(self).tombstones() == old(self).tombstones().remove(key@),
            forall|b: Map<Seq<u8>, Seq<u8>>| #[trigger]
                final(self).effective(b) == old(self).effective(b).insert(key@, value@),
    {
        self.tombstone.remove(&key);
        let ghost k = key@;
        let ghost v = value@;
        self.cache.insert(key, value);
        proof {
            assert(final(self).buffer().dom() =~= old(self).buffer().dom().insert(k));
            assert(final(self).tombstones() =~= old(self).tombstones().remove(k));
            assert(final(self).buffer().dom().disjoint(final(self).tombstones()));
            assert forall|b: Map<Seq<u8>, Seq<u8>>| #[trigger]
                final(self).effective(b) == old(self).effective(b).insert(k, v) by {
                assert(final(self).effective(b) =~= old(self).effective(b).insert(k, v));
            }
        }
    }

    /// Buffer a delete: the key leaves the buffer and is tombstoned, and
    /// leaves every effective view.
    pub fn delete(&mut self, key: Vec<u8>)
        requires
            old(self).wf(),
        ensures
            final(self).wf(),
            final(self).buffer() == old(self).buffer().remove(key@),
            final(self).tombstones() == old(self).tombstones().insert(key@),
            forall|b: Map<Seq<u8>, Seq<u8>>| #[trigger]
                final(self).effective(b) == old(self).effective(b).remove(key@),
    {
        self.cache.remove(&key);
        let ghost k = key@;
        self.tombstone.insert(key, Vec::new());
        proof {
            assert(final(self).tombstones() =~= old(self).tombstones().insert(k));
            assert(final(self).buffer().dom() =~= old(self).buffer().dom().remove(k));
            assert(final(self).buffer().dom().disjoint(final(self).tombstones()));
            assert forall|b: Map<Seq<u8>, Seq<u8>>| #[trigger]
                final(self).effective(b) == old(self).effective(b).remove(k) by {
                assert(final(self).effective(b) =~= old(self).effective(b).remove(k));
            }
        }
    }

    /// Read a key through the overlay: tombstoned or wholly absent keys
    /// are not found; a value read from the backing store is memoized in
    /// the buffer, leaving the effective view as it was.
    pub fn get<S: Storage>(&mut self, storage: &S, key: &Vec<u8>) -> (r: Result<
        Vec<u8>,
        StorageError,
    >)
        requires
            old(self).wf(),
            storage.inv(),
        ensures
            final(self).wf(),
            final(self).tombstones() == old(self).tombstones(),
            final(self).effective(storage.view()) == old(self).effective(storage.view()),
            r matches Ok(v) ==> old(self).effective(storage.view()).contains_key(key@) && v@
                == old(self).effective(storage.view())[key@],
            r matches Ok(v) ==> final(self).buffer() == old(self).buffer().insert(key@, v@),
            r is Err ==> final(self).buffer() == old(self).buffer(),
            (r matches Err(e) && e is NotFound) <==> !old(self).effective(
                storage.view(),
            ).contains_key(key@),
            old(self).buffer().contains_key(key@) ==> r is Ok,
            storage.infallible() && old(self).effective(storage.view()).contains_key(key@)
                ==> r is Ok,
    {
        let ghost eff = old(self).effective(storage.view());
        if self.tombstone.contains(key) {
            proof {
                assert(!old(self).buffer().contains_key(key@));
            }
            return Err(StorageError::NotFound);
        }
        if let Some(v) = self.cache.get(key) {
            let value = clone_bytes(v);
            proof {
                assert(eff.contains_key(key@) && eff[key@] == value@);
                assert(old(self).buffer() =~= old(self).buffer().insert(key@, value@));
            }
            return Ok(value);
        }
        match storage.get(key) {
            Ok(value) => {
                let ghost k = key@;
                self.cache.insert(clone_bytes(key), clone_bytes(&value));
                proof {
                    assert(final(self).buffer().dom() =~= old(self).buffer().dom().insert(k));
                    assert(final(self).buffer().dom().disjoint(final(self).tombstones()));
                    assert(eff.contains_key(k) && eff[k] == value@);
                    assert(final(self).effective(storage.view()) =~= eff);
                }
                Ok(value)
            },
            Err(e) => Err(e),
        }
    }

    /// As `get`, but an absent key yields no value rather than an error,
    /// and leaves the overlay untouched.
    pub fn get_opt<S: Storage>(&mut self, storage: &S, key: &Vec<u8>) -> (r: Result<
        Option<Vec<u8>>,
        StorageError,
    >)
        requires
            old(self).wf(),
            storage.inv(),
        ensures
            final(self).wf(),
            final(self).tombstones() == old(self).tombstones(),
            final(self).effective(storage.view()) == old(self).effective(storage.view()),
            r matches Ok(o) ==> {
                &&& o matches Some(v) ==> old(self).effective(storage.view()).contains_key(key@)
                    && v@ == old(self).effective(storage.view())[key@]
                &&& o is None ==> !old(self).effective(storage.view()).contains_key(key@)
            },
            r matches Ok(Some(v)) ==> final(self).buffer() == old(self).buffer().insert(
                key@,
                v@,
            ),
            r matches Ok(o) && o is None ==> final(self).buffer() == old(self).buffer(),
            r is Err ==> final(self).buffer() == old(self).buffer(),
            old(self).tombstones().contains(key@) || old(self).buffer().contains_key(key@)
                ==> r is Ok,
            storage.infallible() ==> r is Ok,
    {
        let ghost eff = old(self).effective(storage.view());
        if self.tombstone.contains(key) {
            return Ok(None);
        }
        if let Some(v) = self.cache.get(key) {
            let value = clone_bytes(v);
            proof {
                assert(eff.contains_key(key@) && eff[key@] == value@);
                assert(old(self).buffer() =~= old(self).buffer().insert(key@, value@));
            }
            return Ok(Some(value));
        }
        match storage.get_opt(key) {
            Ok(Some(value)) => {
                let ghost k = key@;
                self.cache.insert(clone_bytes(key), clone_bytes(&value));
                proof {
                    assert(final(self).buffer().dom() =~= old(self).buffer().dom().insert(k));
                    assert(final(self).buffer().dom().disjoint(final(self).tombstones()));
                    assert(eff.contains_key(k) && eff[k] == value@);
                    assert(final(self).effective(storage.view()) =~= eff);
                }
                Ok(Some(value))
            },
            Ok(None) => Ok(None),
            Err(e) => Err(e),
        }
    }

    /// Whether the effective view holds the key; a value found only in the
    /// backing store is memoized as by `get`.
    pub fn has<S: Storage>(&mut self, storage: &S, key: &Vec<u8>) -> (r: Result<
        bool,
        StorageError,
    >)
        requires
            old(self).wf(),
            storage.inv(),
        ensures
            final(self).wf(),
            final(self).tombstones() == old(self).tombstones(),
            final(self).effective(storage.view()) == old(self).effective(storage.view()),
            r matches Ok(found) ==> found == old(self).effective(storage.view()).contains_key(
                key@,
            ),
            r matches Ok(found) && found ==> final(self).buffer() == old(self).buffer().insert(
                key@,
                old(self).effective(storage.view())[key@],
            ),
            r matches Ok(found) && !found ==> final(self).buffer() == old(self).buffer(),
            r is Err ==> final(self).buffer() == old(self).buffer(),
            old(self).tombstones().contains(key@) || old(self).buffer().contains_key(key@)
                ==> r is Ok,
            storage.infallible() ==> r is Ok,
    {
        let ghost eff = old(self).effective(storage.view());
        if self.tombstone.contains(key) {
            return Ok(false);
        }
        if self.cache.contains(key) {
            proof {
                assert(eff.contains_key(key@));
                assert(eff[key@] == old(self).buffer()[key@]);
                assert(old(self).buffer() =~= old(self).buffer().insert(key@, eff[key@]));
            }
            return Ok(true);
        }
        match storage.get_opt(key) {
            Ok(Some(value)) => {
                let ghost k = key@;
                self.cache.insert(clone_bytes(key), value);
                proof {
                    assert(final(self).buffer().dom() =~= old(self).buffer().dom().insert(k));
                    assert(final(self).buffer().dom().disjoint(final(self).tombstones()));
                    assert(eff.contains_key(k));
                    assert(final(self).effective(storage.view()) =~= eff);
                }
                Ok(true)
            },
            Ok(None) => Ok(false),
            Err(e) => Err(e),
        }
    }

    /// Commit the overlay into the backing store: every buffered write is
    /// applied in ascending key order, then every tombstoned key is
    /// deleted. On success the backing store holds exactly the effective
    /// view the overlay described over its prior content.
    pub fn commit<S: Storage>(&self, storage: &mut S) -> (r: Result<(), StorageError>)
        requires
            self.wf(),
            old(storage).inv(),
        ensures
            final(storage).inv(),
            final(storage).infallible() == old(storage).infallible(),
            r is Ok ==> final(storage).view() == self.effective(old(storage).view()),
            old(storage).infallible() ==> r is Ok,
            self.buffer() == Map::<Seq<u8>, Seq<u8>>::empty() && self.tombstones()
                == Set::<Seq<u8>>::empty() ==> r is Ok,
    {
        let ghost orig = old(storage).view();
        let ghost bev = self.cache.entries_view();
        proof {
            self.cache.lemma_view_entries();
        }
        let n = self.cache.num_entries();
        let mut i: usize = 0;
        while i < n
            invariant
                self.wf(),
                storage.inv(),
                storage.infallible() == old(storage).infallible(),
                n == bev.len(),
                bev == self.cache.entries_view(),
                i <= n,
                storage.view() == orig.union_prefer_right(pairs_map(bev.take(i as int))),
            decreases n - i,
        {
            let key = clone_bytes(self.cache.key_at(i));
            let value = clone_bytes(self.cache.val_at(i));
            let ghost before = storage.view();
            match storage.set(key, value) {
                Ok(()) => {},
                Err(e) => {
                    proof {
                        self.cache.lemma_view_entries();
                        assert(self.buffer().contains_key(bev[i as int].0));
                    }
                    return Err(e);
                },
            }
            proof {
                lemma_pairs_map_take(bev, i as int);
                assert(storage.view() =~= orig.union_prefer_right(
                    pairs_map(bev.take(i as int + 1)),
                ));
            }
            i += 1;
        }
        proof {
            lemma_pairs_map_take_all(bev);
            self.cache.lemma_view_entries();
            assert(storage.view() == orig.union_prefer_right(self.buffer()));
        }
        let ghost stage = orig.union_prefer_right(self.buffer());
        let ghost tev = self.tombstone.entries_view();
        proof {
            self.tombstone.lemma_view_entries();
        }
        let m = self.tombstone.num_entries();
        let mut j: usize = 0;
        while j < m
            invariant
                self.wf(),
                storage.inv(),
                storage.infallible() == old(storage).infallible(),
                m == tev.len(),
                tev == self.tombstone.entries_view(),
                j <= m,
                stage == orig.union_prefer_right(self.buffer()),
                storage.view() == stage.remove_keys(pairs_map(tev.take(j as int)).dom()),
            decreases m - j,
        {
            let key = clone_bytes(self.tombstone.key_at(j));
            match storage.delete(&key) {
                Ok(()) => {},
                Err(e) => {
                    proof {
                        self.tombstone.lemma_view_entries();
                        assert(self.tombstones().contains(tev[j as int].0));
                    }
                    return Err(e);
                },
            }
            proof {
                lemma_pairs_map_take(tev, j as int);
                assert(storage.view() =~= stage.remove_keys(
                    pairs_map(tev.take(j as int + 1)).dom(),
                ));
            }
            j += 1;
        }
        proof {
            lemma_pairs_map_take_all(tev);
            self.tombstone.lemma_view_entries();
            assert(storage.view() =~= self.effective(orig));
        }
        Ok(())
    }
}

} // verus!
