use vstd::prelude::*;
use crate::order::{
    lex_lt, bytes_cmp, ByteOrdering, lemma_lex_lt_transitive, lemma_lex_lt_neq,
};

verus! {

/// The mathematical map described by a sequence of key/value pairs, later
/// entries winning.
pub open spec fn pairs_map(s: Seq<(Seq<u8>, Seq<u8>)>) -> Map<Seq<u8>, Seq<u8>>
    decreases s.len(),
{
    if s.len() == 0 {
        Map::empty()
    } else {
        pairs_map(s.drop_last()).insert(s.last().0, s.last().1)
    }
}

/// No two pairs carry the same key.
pub open spec fn unique_keys(s: Seq<(Seq<u8>, Seq<u8>)>) -> bool {
    forall|i: int, j: int| 0 <= i < j < s.len() ==> (#[trigger] s[i]).0 != (#[trigger] s[j]).0
}

/// A key occurs in the map exactly when some pair carries it; with unique
/// keys, that pair's value is the one mapped.
pub proof fn lemma_pairs_map_char(s: Seq<(Seq<u8>, Seq<u8>)>)
    requires
        unique_keys(s),
    ensures
        forall|i: int|
            0 <= i < s.len() ==> pairs_map(s).contains_key((#[trigger] s[i]).0) && pairs_map(s)[s[i].0]
                == s[i].1,
        forall|k: Seq<u8>|
            pairs_map(s).contains_key(k) ==> exists|i: int| 0 <= i < s.len() && (#[trigger] s[i]).0 == k,
    decreases s.len(),
{
    if s.len() > 0 {
        let prefix = s.drop_last();
        assert(forall|i: int| 0 <= i < prefix.len() ==> prefix[i] == s[i]);
        lemma_pairs_map_char(prefix);
        assert forall|i: int| 0 <= i < s.len() implies pairs_map(s).contains_key((#[trigger] s[i]).0)
            && pairs_map(s)[s[i].0] == s[i].1 by {
            if i < s.len() - 1 {
                assert(pairs_map(prefix).contains_key(s[i].0) && pairs_map(prefix)[s[i].0]
                    == s[i].1);
                assert(s[i].0 != s[s.len() - 1].0);
            }
        }
        assert forall|k: Seq<u8>| pairs_map(s).contains_key(k) implies exists|i: int|
            0 <= i < s.len() && (#[trigger] s[i]).0 == k by {
            if k == s.last().0 {
                assert((#[trigger] s[s.len() - 1]).0 == k);
            } else {
                assert(pairs_map(prefix).contains_key(k));
                let i = choose|i: int| 0 <= i < prefix.len() && (#[trigger] prefix[i]).0 == k;
                assert(prefix[i] == s[i]);
                assert((#[trigger] s[i]).0 == k);
            }
        }
    }
}

/// Extending the processed prefix of an entry list by one pair inserts that
/// pair into the map the prefix describes.
pub proof fn lemma_pairs_map_take(s: Seq<(Seq<u8>, Seq<u8>)>, i: int)
    requires
        0 <= i < s.len(),
    ensures
        pairs_map(s.take(i + 1)) == pairs_map(s.take(i)).insert(s[i].0, s[i].1),
{
    assert(s.take(i + 1).drop_last() =~= s.take(i));
    assert(s.take(i + 1).last() == s[i]);
}

/// The whole entry list describes the map itself.
pub proof fn lemma_pairs_map_take_all(s: Seq<(Seq<u8>, Seq<u8>)>)
    ensures
        pairs_map(s.take(s.len() as int)) == pairs_map(s),
{
    assert(s.take(s.len() as int) =~= s);
}

/// A map from byte strings to byte strings, kept as a vector of entries in
/// strictly ascending key order. The order makes iteration — and hence a
/// commit that walks the entries — deterministic and sorted by key.
pub struct ByteMap {
    entries: Vec<(Vec<u8>, Vec<u8>)>,
}

impl View for ByteMap {
    type V = Map<Seq<u8>, Seq<u8>>;

    closed spec fn view(&self) -> Map<Seq<u8>, Seq<u8>> {
        pairs_map(self.entries_view())
    }
}

impl ByteMap {
    /// The entries as abstract pairs, in storage order.
    pub closed spec fn entries_view(&self) -> Seq<(Seq<u8>, Seq<u8>)> {
        Seq::new(self.entries@.len(), |i: int| (self.entries@[i].0@, self.entries@[i].1@))
    }

    /// The entries are in strictly ascending key order.
    pub closed spec fn wf(&self) -> bool {
        forall|i: int, j: int|
            0 <= i < j < self.entries_view().len() ==> lex_lt(
                (#[trigger] self.entries_view()[i]).0,
                (#[trigger] self.entries_view()[j]).0,
            )
    }

    /// Strict order leaves every pair of keys distinct.
    pub proof fn lemma_unique(&self)
        requires
            self.wf(),
        ensures
            unique_keys(self.entries_view()),
    {
        let ev = self.entries_view();
        assert forall|i: int, j: int| 0 <= i < j < ev.len() implies (#[trigger] ev[i]).0 != (
        #[trigger] ev[j]).0 by {
            lemma_lex_lt_neq(ev[i].0, ev[j].0);
        }
    }

    /// What the entry order tells about the map: each entry is mapped to
    /// its value, every key in the map is carried by some entry, and the
    /// entries are sorted.
    pub proof fn lemma_view_entries(&self)
        requires
            self.wf(),
        ensures
            self@ == pairs_map(self.entries_view()),
            unique_keys(self.entries_view()),
            forall|i: int|
                0 <= i < self.entries_view().len() ==> self@.contains_key(
                    (#[trigger] self.entries_view()[i]).0,
                ) && self@[self.entries_view()[i].0] == self.entries_view()[i].1,
            forall|k: Seq<u8>|
                self@.contains_key(k) ==> exists|i: int|
                    0 <= i < self.entries_view().len() && (#[trigger] self.entries_view()[i]).0 == k,
            forall|i: int, j: int|
                0 <= i < j < self.entries_view().len() ==> lex_lt(
                    (#[trigger] self.entries_view()[i]).0,
                    (#[trigger] self.entries_view()[j]).0,
                ),
    {
        self.lemma_unique();
        lemma_pairs_map_char(self.entries_view());
    }

    /// An empty map.
    pub fn new() -> (m: Self)
        ensures
            m.wf(),
            m@ == Map::<Seq<u8>, Seq<u8>>::empty(),
    {
        let m = ByteMap { entries: Vec::new() };
        proof {
            assert(m.entries_view() =~= Seq::<(Seq<u8>, Seq<u8>)>::empty());
        }
        m
    }

    /// Number of entries held.
    pub fn num_entries(&self) -> (n: usize)
        ensures
            n == self.entries_view().len(),
    {
        self.entries.len()
    }

    /// The key of the entry at a position, in ascending key order.
    pub fn key_at(&self, i: usize) -> (k: &Vec<u8>)
        requires
            i < self.entries_view().len(),
        ensures
            k@ == self.entries_view()[i as int].0,
    {
        &self.entries[i].0
    }

    /// The value of the entry at a position.
    pub fn val_at(&self, i: usize) -> (v: &Vec<u8>)
        requires
            i < self.entries_view().len(),
        ensures
            v@ == self.entries_view()[i as int].1,
    {
        &self.entries[i].1
    }

    /// Find the position of the first entry whose key is not below `key`,
    /// and whether that entry carries `key` itself.
    fn lower_bound(&self, key: &Vec<u8>) -> (r: (usize, bool))
        requires
            self.wf(),
        ensures
            r.0 <= self.entries_view().len(),
            forall|j: int| 0 <= j < r.0 ==> lex_lt((#[trigger] self.entries_view()[j]).0, key@),
            r.1 ==> r.0 < self.entries_view().len() && self.entries_view()[r.0 as int].0 == key@,
            !r.1 && r.0 < self.entries_view().len() ==> lex_lt(
                key@,
                self.entries_view()[r.0 as int].0,
            ),
            r.1 == self@.contains_key(key@),
    {
        let n = self.entries.len();
        let mut i: usize = 0;
        let mut result: Option<(usize, bool)> = None;
        while i < n
            invariant
                self.wf(),
                n == self.entries_view().len(),
                i <= n,
                result is None,
                forall|j: int| 0 <= j < i ==> lex_lt((#[trigger] self.entries_view()[j]).0, key@),
            decreases n - i,
        {
            match bytes_cmp(&self.entries[i].0, key) {
                ByteOrdering::Equal => {
                    proof {
                        self.lemma_view_entries();
                        assert(self.entries_view()[i as int].0 == key@);
                        assert(self@.contains_key(self.entries_view()[i as int].0));
                    }
                    return (i, true);
                },
                ByteOrdering::Less => {
                    i += 1;
                },
                ByteOrdering::Greater => {
                    proof {
                        self.lemma_absent(key@, i as int);
                    }
                    return (i, false);
                },
            }
        }
        proof {
            self.lemma_absent(key@, n as int);
        }
        (n, false)
    }

    /// A key below which every later entry lies, and above every earlier
    /// one, is not in the map.
    proof fn lemma_absent(&self, key: Seq<u8>, pos: int)
        requires
            self.wf(),
            0 <= pos <= self.entries_view().len(),
            forall|j: int| 0 <= j < pos ==> lex_lt((#[trigger] self.entries_view()[j]).0, key),
            pos < self.entries_view().len() ==> lex_lt(key, self.entries_view()[pos].0),
        ensures
            !self@.contains_key(key),
    {
        let ev = self.entries_view();
        self.lemma_view_entries();
        if self@.contains_key(key) {
            let i = choose|i: int| 0 <= i < ev.len() && (#[trigger] ev[i]).0 == key;
            if i < pos {
                lemma_lex_lt_neq(ev[i].0, key);
            } else {
                if i > pos {
                    lemma_lex_lt_transitive(key, ev[pos].0, ev[i].0);
                }
                lemma_lex_lt_neq(key, ev[i].0);
            }
        }
    }

    /// Whether the map holds the key.
    pub fn contains(&self, key: &Vec<u8>) -> (r: bool)
        requires
            self.wf(),
        ensures
            r == self@.contains_key(key@),
    {
        let (_, found) = self.lower_bound(key);
        found
    }

    /// Look a key up.
    pub fn get<'a>(&'a self, key: &Vec<u8>) -> (r: Option<&'a Vec<u8>>)
        requires
            self.wf(),
        ensures
            r matches Some(v) ==> self@.contains_key(key@) && v@ == self@[key@],
            r is None ==> !self@.contains_key(key@),
    {
        let (pos, found) = self.lower_bound(key);
        if found {
            proof {
                self.lemma_view_entries();
            }
            Some(&self.entries[pos].1)
        } else {
            None
        }
    }

    /// Insert a key/value pair, replacing any entry with the same key.
    pub fn insert(&mut self, key: Vec<u8>, value: Vec<u8>)
        requires
            old(self).wf(),
        ensures
            final(self).wf(),
            final(self)@ == old(self)@.insert(key@, value@),
    {
        let (pos, found) = self.lower_bound(&key);
        let ghost old_ev = self.entries_view();
        let ghost kv = (key@, value@);
        if found {
            self.entries.set(pos, (key, value));
            proof {
                let new_ev = self.entries_view();
                assert(new_ev =~= old_ev.update(pos as int, kv));
                self.lemma_insert_found(old_ev, pos as int, kv);
            }
        } else {
            self.entries.insert(pos, (key, value));
            proof {
                let new_ev = self.entries_view();
                assert(new_ev =~= old_ev.insert(pos as int, kv));
                self.lemma_insert_new(old_ev, pos as int, kv);
            }
        }
    }

    /// Replacing the entry that carries a key updates the map at that key.
    proof fn lemma_insert_found(&self, old_ev: Seq<(Seq<u8>, Seq<u8>)>, pos: int, kv: (
        Seq<u8>,
        Seq<u8>,
    ))
        requires
            0 <= pos < old_ev.len(),
            old_ev[pos].0 == kv.0,
            forall|i: int, j: int|
                0 <= i < j < old_ev.len() ==> lex_lt((#[trigger] old_ev[i]).0, (#[trigger] old_ev[j]).0),
            self.entries_view() == old_ev.update(pos, kv),
        ensures
            self.wf(),
            self@ == pairs_map(old_ev).insert(kv.0, kv.1),
    {
        let new_ev = self.entries_view();
        assert(new_ev.len() == old_ev.len());
        assert(forall|i: int| 0 <= i < new_ev.len() ==> (#[trigger] new_ev[i]).0 == old_ev[i].0);
        assert forall|i: int, j: int| 0 <= i < j < new_ev.len() implies lex_lt(
            (#[trigger] new_ev[i]).0,
            (#[trigger] new_ev[j]).0,
        ) by {
            assert(lex_lt(old_ev[i].0, old_ev[j].0));
        }
        self.lemma_view_entries();
        assert forall|i: int, j: int| 0 <= i < j < old_ev.len() implies (#[trigger] old_ev[i]).0 != (
        #[trigger] old_ev[j]).0 by {
            lemma_lex_lt_neq(old_ev[i].0, old_ev[j].0);
        }
        lemma_pairs_map_char(old_ev);
        let target = pairs_map(old_ev).insert(kv.0, kv.1);
        assert forall|k: Seq<u8>| self@.contains_key(k) implies target.contains_key(k) by {
            let i = choose|i: int| 0 <= i < new_ev.len() && (#[trigger] new_ev[i]).0 == k;
            if i != pos {
                assert(old_ev[i] == new_ev[i]);
            }
        }
        assert forall|k: Seq<u8>| target.contains_key(k) implies self@.contains_key(k) by {
            if k == kv.0 {
                assert(new_ev[pos].0 == k);
            } else {
                let i = choose|i: int| 0 <= i < old_ev.len() && (#[trigger] old_ev[i]).0 == k;
                assert(i != pos);
                assert(new_ev[i].0 == k);
            }
        }
        assert forall|k: Seq<u8>| self@.contains_key(k) implies self@[k] == target[k] by {
            let i = choose|i: int| 0 <= i < new_ev.len() && (#[trigger] new_ev[i]).0 == k;
            if i == pos {
                assert(self@[k] == kv.1);
            } else {
                assert(old_ev[i] == new_ev[i]);
                assert(k != kv.0);
                assert(self@[k] == new_ev[i].1);
            }
        }
        assert(self@ =~= target);
    }

    /// Inserting an entry between the keys below and above it inserts the
    /// pair into the map.
    proof fn lemma_insert_new(&self, old_ev: Seq<(Seq<u8>, Seq<u8>)>, pos: int, kv: (
        Seq<u8>,
        Seq<u8>,
    ))
        requires
            0 <= pos <= old_ev.len(),
            forall|i: int, j: int|
                0 <= i < j < old_ev.len() ==> lex_lt((#[trigger] old_ev[i]).0, (#[trigger] old_ev[j]).0),
            forall|j: int| 0 <= j < pos ==> lex_lt((#[trigger] old_ev[j]).0, kv.0),
            pos < old_ev.len() ==> lex_lt(kv.0, old_ev[pos].0),
            self.entries_view() == old_ev.insert(pos, kv),
        ensures
            self.wf(),
            self@ == pairs_map(old_ev).insert(kv.0, kv.1),
    {
        let new_ev = self.entries_view();
        assert(new_ev.len() == old_ev.len() + 1);
        assert(forall|i: int| 0 <= i < pos ==> #[trigger] new_ev[i] == old_ev[i]);
        assert(new_ev[pos] == kv);
        assert(forall|i: int| pos < i < new_ev.len() ==> #[trigger] new_ev[i] == old_ev[i - 1]);
        assert forall|i: int, j: int| 0 <= i < j < new_ev.len() implies lex_lt(
            (#[trigger] new_ev[i]).0,
            (#[trigger] new_ev[j]).0,
        ) by {
            if i < pos && j == pos {
            } else if i == pos && j > pos {
                if pos < old_ev.len() && j - 1 > pos {
                    lemma_lex_lt_transitive(kv.0, old_ev[pos].0, old_ev[j - 1].0);
                }
            } else if i < pos && j > pos {
                if j - 1 == pos {
                    if pos < old_ev.len() {
                        assert(lex_lt(old_ev[i].0, kv.0));
                    }
                } else {
                    assert(lex_lt(old_ev[i].0, old_ev[j - 1].0));
                }
                if lex_lt(old_ev[i].0, kv.0) && new_ev[j].0 == kv.0 {
                }
            }
        }
        self.lemma_view_entries();
        assert forall|i: int, j: int| 0 <= i < j < old_ev.len() implies (#[trigger] old_ev[i]).0 != (
        #[trigger] old_ev[j]).0 by {
            lemma_lex_lt_neq(old_ev[i].0, old_ev[j].0);
        }
        lemma_pairs_map_char(old_ev);
        let target = pairs_map(old_ev).insert(kv.0, kv.1);
        assert forall|k: Seq<u8>| self@.contains_key(k) implies target.contains_key(k) by {
            let i = choose|i: int| 0 <= i < new_ev.len() && (#[trigger] new_ev[i]).0 == k;
            if i < pos {
                assert(old_ev[i].0 == k);
            } else if i > pos {
                assert(old_ev[i - 1].0 == k);
            }
        }
        assert forall|k: Seq<u8>| target.contains_key(k) implies self@.contains_key(k) by {
            if k == kv.0 {
                assert(new_ev[pos].0 == k);
            } else {
                let i = choose|i: int| 0 <= i < old_ev.len() && (#[trigger] old_ev[i]).0 == k;
                if i < pos {
                    assert(new_ev[i].0 == k);
                } else {
                    assert(new_ev[i + 1].0 == k);
                }
            }
        }
        assert forall|k: Seq<u8>| self@.contains_key(k) implies self@[k] == target[k] by {
            let i = choose|i: int| 0 <= i < new_ev.len() && (#[trigger] new_ev[i]).0 == k;
            if i == pos {
                assert(self@[k] == kv.1);
            } else if i < pos {
                lemma_lex_lt_neq(old_ev[i].0, kv.0);
                assert(self@[k] == new_ev[i].1);
            } else {
                if pos < old_ev.len() && i - 1 > pos {
                    lemma_lex_lt_transitive(kv.0, old_ev[pos].0, old_ev[i - 1].0);
                }
                lemma_lex_lt_neq(kv.0, old_ev[i - 1].0);
                assert(self@[k] == new_ev[i].1);
            }
        }
        assert(self@ =~= target);
    }

    /// Remove a key and whatever value it carried.
    pub fn remove(&mut self, key: &Vec<u8>)
        requires
            old(self).wf(),
        ensures
            final(self).wf(),
            final(self)@ == old(self)@.remove(key@),
    {
        let (pos, found) = self.lower_bound(key);
        let ghost old_ev = self.entries_view();
        let ghost old_map = self@;
        if found {
            self.entries.remove(pos);
            proof {
                let new_ev = self.entries_view();
                assert(new_ev =~= old_ev.remove(pos as int));
                self.lemma_remove_found(old_ev, pos as int, key@);
            }
        } else {
            proof {
                assert(self@ =~= self@.remove(key@));
            }
        }
    }

    /// Removing the entry that carries a key removes the key from the map.
    proof fn lemma_remove_found(&self, old_ev: Seq<(Seq<u8>, Seq<u8>)>, pos: int, key: Seq<u8>)
        requires
            0 <= pos < old_ev.len(),
            old_ev[pos].0 == key,
            forall|i: int, j: int|
                0 <= i < j < old_ev.len() ==> lex_lt((#[trigger] old_ev[i]).0, (#[trigger] old_ev[j]).0),
            self.entries_view() == old_ev.remove(pos),
        ensures
            self.wf(),
            self@ == pairs_map(old_ev).remove(key),
    {
        let new_ev = self.entries_view();
        assert(new_ev.len() == old_ev.len() - 1);
        assert(forall|i: int| 0 <= i < pos ==> #[trigger] new_ev[i] == old_ev[i]);
        assert(forall|i: int| pos <= i < new_ev.len() ==> #[trigger] new_ev[i] == old_ev[i + 1]);
        assert forall|i: int, j: int| 0 <= i < j < new_ev.len() implies lex_lt(
            (#[trigger] new_ev[i]).0,
            (#[trigger] new_ev[j]).0,
        ) by {
            let i0 = if i < pos { i } else { i + 1 };
            let j0 = if j < pos { j } else { j + 1 };
            assert(lex_lt(old_ev[i0].0, old_ev[j0].0));
        }
        self.lemma_view_entries();
        assert forall|i: int, j: int| 0 <= i < j < old_ev.len() implies (#[trigger] old_ev[i]).0 != (
        #[trigger] old_ev[j]).0 by {
            lemma_lex_lt_neq(old_ev[i].0, old_ev[j].0);
        }
        lemma_pairs_map_char(old_ev);
        let target = pairs_map(old_ev).remove(key);
        assert forall|k: Seq<u8>| self@.contains_key(k) implies target.contains_key(k) by {
            let i = choose|i: int| 0 <= i < new_ev.len() && (#[trigger] new_ev[i]).0 == k;
            let i0 = if i < pos { i } else { i + 1 };
            assert(old_ev[i0].0 == k);
            assert(i0 != pos);
            assert(k != key);
        }
        assert forall|k: Seq<u8>| target.contains_key(k) implies self@.contains_key(k) by {
            let i = choose|i: int| 0 <= i < old_ev.len() && (#[trigger] old_ev[i]).0 == k;
            assert(i != pos);
            if i < pos {
                assert(new_ev[i].0 == k);
            } else {
                assert(new_ev[i - 1].0 == k);
            }
        }
        assert forall|k: Seq<u8>| self@.contains_key(k) implies self@[k] == target[k] by {
            let i = choose|i: int| 0 <= i < new_ev.len() && (#[trigger] new_ev[i]).0 == k;
            let i0 = if i < pos { i } else { i + 1 };
            assert(old_ev[i0] == new_ev[i]);
            assert(i0 != pos);
            assert(k != key);
            assert(self@[k] == new_ev[i].1);
            assert(target[k] == pairs_map(old_ev)[k]);
        }
        assert(self@ =~= target);
    }
}

} // verus!
