//! A string-keyed map whose entries carry a numeric tag: the moment an
//! entry was stored (for caches) or the identity of the stored value
//! (for connections). Keys are unique; the entry order is insertion order.

use vstd::prelude::*;

verus! {

/// One entry: the key, the stored value and its tag.
pub struct TaggedEntry<V> {
    pub key: String,
    pub value: V,
    pub tag: u64,
}

/// The map. Its model is the sequence of `(key, value, tag)` entries.
pub struct TaggedMap<V> {
    entries: Vec<TaggedEntry<V>>,
}

/// The model of one entry.
pub open spec fn entry_view<V>(e: TaggedEntry<V>) -> (Seq<char>, V, u64) {
    (e.key@, e.value, e.tag)
}

/// No key occurs twice.
pub open spec fn unique_keys<V>(s: Seq<(Seq<char>, V, u64)>) -> bool {
    forall|i: int, j: int| 0 <= i < j < s.len() ==> #[trigger] s[i].0 != #[trigger] s[j].0
}

/// An entry stored at `tag` is still fresh at `now` when no more than
/// `max_age` has elapsed (time that runs backwards counts as none).
pub open spec fn is_fresh(tag: u64, now: u64, max_age: u64) -> bool {
    now <= tag || now - tag <= max_age
}

/// Every entry of `small` is an entry of `big`.
pub open spec fn all_in<V>(small: Seq<(Seq<char>, V, u64)>, big: Seq<(Seq<char>, V, u64)>) -> bool {
    forall|i: int| 0 <= i < small.len() ==> big.contains(#[trigger] small[i])
}

/// `k` is a key of the model.
pub open spec fn has_key<V>(s: Seq<(Seq<char>, V, u64)>, k: Seq<char>) -> bool {
    exists|i: int| 0 <= i < s.len() && #[trigger] s[i].0 == k
}

/// Entry `i` is the one with key `k`.
pub open spec fn at_key<V>(s: Seq<(Seq<char>, V, u64)>, k: Seq<char>, i: int) -> bool {
    0 <= i < s.len() && s[i].0 == k
}

/// The index of the entry with key `k` (meaningful when there is one).
pub open spec fn key_index<V>(s: Seq<(Seq<char>, V, u64)>, k: Seq<char>) -> int {
    choose|i: int| at_key(s, k, i)
}

/// The value and tag stored under `k`.
pub open spec fn lookup<V>(s: Seq<(Seq<char>, V, u64)>, k: Seq<char>) -> Option<(V, u64)> {
    if has_key(s, k) {
        Some((s[key_index(s, k)].1, s[key_index(s, k)].2))
    } else {
        None
    }
}

/// The model after storing `v` with tag `t` under `k`: the entry with
/// that key is replaced in place, or a new entry is appended.
pub open spec fn inserted<V>(s: Seq<(Seq<char>, V, u64)>, k: Seq<char>, v: V, t: u64) -> Seq<(Seq<char>, V, u64)> {
    if has_key(s, k) {
        s.update(key_index(s, k), (k, v, t))
    } else {
        s.push((k, v, t))
    }
}

/// Storing under a present key keeps the length; under a new key it grows by one.
pub proof fn lemma_inserted_len<V>(s: Seq<(Seq<char>, V, u64)>, k: Seq<char>, v: V, t: u64)
    ensures
        inserted(s, k, v, t).len() == if has_key(s, k) { s.len() } else { s.len() + 1 },
        has_key(s, k) ==> at_key(s, k, key_index(s, k)),
{
    if has_key(s, k) {
        let w = choose|w: int| 0 <= w < s.len() && #[trigger] s[w].0 == k;
        assert(at_key(s, k, w));
    }
}

/// With unique keys, the entry with a key is the one `key_index` picks.
pub proof fn lemma_key_index<V>(s: Seq<(Seq<char>, V, u64)>, k: Seq<char>, i: int)
    requires
        unique_keys(s),
        at_key(s, k, i),
    ensures
        key_index(s, k) == i,
        has_key(s, k),
{
    let j = key_index(s, k);
    assert(at_key(s, k, j));
    if j < i {
        assert(s[j].0 != s[i].0);
    } else if i < j {
        assert(s[i].0 != s[j].0);
    }
}

/// Law of the map: a lookup of a key gives back what was last stored
/// under it, and storing under one key leaves every other key as it was.
pub proof fn law_lookup_after_insert<V>(s: Seq<(Seq<char>, V, u64)>, k: Seq<char>, v: V, t: u64, other: Seq<char>)
    requires
        unique_keys(s),
    ensures
        unique_keys(inserted(s, k, v, t)),
        lookup(inserted(s, k, v, t), k) == Some((v, t)),
        other != k ==> lookup(inserted(s, k, v, t), other) == lookup(s, other),
{
    let r = inserted(s, k, v, t);
    if has_key(s, k) {
        let w = choose|w: int| 0 <= w < s.len() && #[trigger] s[w].0 == k;
        assert(at_key(s, k, w));
        let i = key_index(s, k);
        assert(at_key(s, k, i));
        assert forall|a: int, b: int| 0 <= a < b < r.len() implies #[trigger] r[a].0 != #[trigger] r[b].0 by {
            if a != i && b != i {
                assert(s[a].0 != s[b].0);
            } else if a == i {
                assert(s[a].0 != s[b].0);
            } else {
                assert(s[a].0 != s[b].0);
            }
        }
        lemma_key_index(r, k, i);
        if other != k {
            if has_key(s, other) {
                let w = choose|w: int| 0 <= w < s.len() && #[trigger] s[w].0 == other;
                assert(at_key(s, other, w));
                let j = key_index(s, other);
                assert(at_key(s, other, j));
                assert(at_key(r, other, j));
                lemma_key_index(r, other, j);
            } else {
                if has_key(r, other) {
                    let j = choose|j: int| 0 <= j < r.len() && #[trigger] r[j].0 == other;
                    assert(s[j].0 == other);
                }
            }
        }
    } else {
        assert forall|a: int, b: int| 0 <= a < b < r.len() implies #[trigger] r[a].0 != #[trigger] r[b].0 by {
            if b == s.len() {
                assert(r[a].0 == s[a].0);
            } else {
                assert(s[a].0 != s[b].0);
            }
        }
        assert(at_key(r, k, s.len() as int));
        lemma_key_index(r, k, s.len() as int);
        if other != k {
            if has_key(s, other) {
                let w = choose|w: int| 0 <= w < s.len() && #[trigger] s[w].0 == other;
                assert(at_key(s, other, w));
                let j = key_index(s, other);
                assert(at_key(s, other, j));
                assert(at_key(r, other, j));
                lemma_key_index(r, other, j);
            } else {
                if has_key(r, other) {
                    let j = choose|j: int| 0 <= j < r.len() && #[trigger] r[j].0 == other;
                    assert(j < s.len());
                    assert(r[j] == s[j]);
                    assert(s[j].0 == other);
                }
            }
        }
    }
}

/// Law of the map: removing a key that was stored fresh gives back the map
/// as it was before the store.
pub proof fn law_remove_undoes_fresh_insert<V>(s: Seq<(Seq<char>, V, u64)>, k: Seq<char>, v: V, t: u64)
    requires
        unique_keys(s),
        !has_key(s, k),
    ensures
        forall|i: int| at_key(inserted(s, k, v, t), k, i) ==> inserted(s, k, v, t).remove(i) == s,
{
    let r = inserted(s, k, v, t);
    assert(r == s.push((k, v, t)));
    assert forall|i: int| at_key(r, k, i) implies r.remove(i) == s by {
        if i < s.len() {
            assert(s[i].0 == k);
        }
        assert(r.remove(i) =~= s);
    }
}

impl<V> TaggedMap<V> {
    /// The model: entries in order.
    pub closed spec fn view(&self) -> Seq<(Seq<char>, V, u64)> {
        self.entries@.map_values(|e: TaggedEntry<V>| entry_view(e))
    }

    /// Keys are unique.
    pub open spec fn wf(&self) -> bool {
        unique_keys(self.view())
    }

    /// An empty map.
    pub fn new() -> (m: Self)
        ensures
            m.wf(),
            m.view() == Seq::<(Seq<char>, V, u64)>::empty(),
    {
        let m = TaggedMap { entries: Vec::new() };
        assert(m.view() =~= Seq::<(Seq<char>, V, u64)>::empty());
        m
    }

    /// Number of entries.
    pub fn len(&self) -> (n: usize)
        ensures
            n == self.view().len(),
    {
        self.entries.len()
    }

    /// The index of the entry with this key, if there is one.
    pub fn position(&self, key: &str) -> (r: Option<usize>)
        requires
            self.wf(),
        ensures
            match r {
                Some(i) => at_key(self.view(), key@, i as int),
                None => !has_key(self.view(), key@),
            },
    {
        let mut i: usize = 0;
        while i < self.entries.len()
            invariant
                i <= self.entries.len(),
                forall|j: int| 0 <= j < i ==> self.view()[j].0 != key@,
            decreases self.entries.len() - i,
        {
            if crate::text::same_text(self.entries[i].key.as_str(), key) {
                return Some(i);
            }
            i += 1;
        }
        None
    }

    /// The entry at index `i`.
    pub fn entry(&self, i: usize) -> (e: &TaggedEntry<V>)
        requires
            i < self.view().len(),
        ensures
            entry_view(*e) == self.view()[i as int],
    {
        &self.entries[i]
    }

    /// The value stored under `key`.
    pub fn get(&self, key: &str) -> (r: Option<&V>)
        requires
            self.wf(),
        ensures
            match r {
                Some(v) => lookup(self.view(), key@) == Some((*v, lookup(self.view(), key@).unwrap().1)),
                None => lookup(self.view(), key@) is None,
            },
    {
        match self.position(key) {
            Some(i) => {
                proof {
                    lemma_key_index(self.view(), key@, i as int);
                }
                Some(&self.entries[i].value)
            },
            None => None,
        }
    }

    /// The tag of the entry stored under `key`.
    pub fn tag_of(&self, key: &str) -> (r: Option<u64>)
        requires
            self.wf(),
        ensures
            match r {
                Some(t) => lookup(self.view(), key@) is Some && lookup(self.view(), key@).unwrap().1 == t,
                None => lookup(self.view(), key@) is None,
            },
    {
        match self.position(key) {
            Some(i) => {
                proof {
                    lemma_key_index(self.view(), key@, i as int);
                }
                Some(self.entries[i].tag)
            },
            None => None,
        }
    }

    /// Stores `value` under `key` with `tag`, in place of an entry with
    /// the same key (whose value is returned) or as a new last entry.
    pub fn insert(&mut self, key: String, value: V, tag: u64) -> (old_value: Option<V>)
        requires
            old(self).wf(),
        ensures
            final(self).wf(),
            final(self).view() == inserted(old(self).view(), key@, value, tag),
            match old_value {
                Some(v) => lookup(old(self).view(), key@) is Some && lookup(old(self).view(), key@).unwrap().0 == v,
                None => lookup(old(self).view(), key@) is None,
            },
    {
        let ghost pre = self.view();
        match self.position(key.as_str()) {
            Some(i) => {
                proof {
                    lemma_key_index(pre, key@, i as int);
                }
                let entry = TaggedEntry { key, value, tag };
                let mut entries = Vec::new();
                std::mem::swap(&mut entries, &mut self.entries);
                let mut slot = entries.remove(i);
                entries.insert(i, entry);
                let previous = slot.value;
                self.entries = entries;
                assert(self.view() =~= pre.update(i as int, (key@, value, tag)));
                assert(unique_keys(self.view())) by {
                    assert forall|a: int, b: int| 0 <= a < b < self.view().len() implies
                        #[trigger] self.view()[a].0 != #[trigger] self.view()[b].0 by {
                        if a != i && b != i {
                            assert(pre[a].0 != pre[b].0);
                        } else if a == i {
                            assert(pre[b].0 != pre[a].0);
                        } else {
                            assert(pre[a].0 != pre[b].0);
                        }
                    }
                }
                Some(previous)
            },
            None => {
                let ghost k = key@;
                self.entries.push(TaggedEntry { key, value, tag });
                assert(self.view() =~= pre.push((k, value, tag)));
                assert(unique_keys(self.view())) by {
                    assert forall|a: int, b: int| 0 <= a < b < self.view().len() implies
                        #[trigger] self.view()[a].0 != #[trigger] self.view()[b].0 by {
                        if b == pre.len() {
                            assert(pre[a].0 == self.view()[a].0);
                        } else {
                            assert(pre[a].0 != pre[b].0);
                        }
                    }
                }
                None
            },
        }
    }
}

impl<V> TaggedMap<V> {
    proof fn lemma_unique_after_remove(s: Seq<(Seq<char>, V, u64)>, i: int)
        requires
            unique_keys(s),
            0 <= i < s.len(),
        ensures
            unique_keys(s.remove(i)),
            forall|j: int| 0 <= j < s.len() && j != i ==> s.remove(i).contains(#[trigger] s[j]),
            forall|j: int| 0 <= j < s.remove(i).len() ==> s.contains(#[trigger] s.remove(i)[j]),
            !has_key(s.remove(i), s[i].0),
    {
        let r = s.remove(i);
        assert forall|a: int, b: int| 0 <= a < b < r.len() implies #[trigger] r[a].0
            != #[trigger] r[b].0 by {
            let a2 = if a < i { a } else { a + 1 };
            let b2 = if b < i { b } else { b + 1 };
            assert(r[a] == s[a2]);
            assert(r[b] == s[b2]);
        }
        assert forall|j: int| 0 <= j < s.len() && j != i implies r.contains(#[trigger] s[j]) by {
            if j < i {
                assert(r[j] == s[j]);
            } else {
                assert(r[j - 1] == s[j]);
            }
        }
        assert forall|j: int| 0 <= j < r.len() implies s.contains(#[trigger] r[j]) by {
            if j < i {
                assert(r[j] == s[j]);
            } else {
                assert(r[j] == s[j + 1]);
            }
        }
        if has_key(r, s[i].0) {
            let j = choose|j: int| 0 <= j < r.len() && #[trigger] r[j].0 == s[i].0;
            if j < i {
                assert(r[j] == s[j]);
            } else {
                assert(r[j] == s[j + 1]);
            }
        }
    }

    /// Removes the entry with this key and returns its value.
    pub fn remove(&mut self, key: &str) -> (removed: Option<V>)
        requires
            old(self).wf(),
        ensures
            final(self).wf(),
            !has_key(final(self).view(), key@),
            removed is Some <==> lookup(old(self).view(), key@) is Some,
            removed is Some ==> lookup(old(self).view(), key@).unwrap().0 == removed.unwrap(),
            match removed {
                Some(v) => exists|i: int|
                    at_key(old(self).view(), key@, i) && old(self).view()[i].1 == v
                        && final(self).view() == old(self).view().remove(i),
                None => !has_key(old(self).view(), key@) && final(self).view() == old(self).view(),
            },
    {
        match self.position(key) {
            Some(i) => {
                let ghost pre = self.view();
                let e = self.entries.remove(i);
                proof {
                    lemma_key_index(pre, key@, i as int);
                    assert(self.view() =~= pre.remove(i as int));
                    Self::lemma_unique_after_remove(pre, i as int);
                }
                Some(e.value)
            },
            None => None,
        }
    }

    /// Removes the entry with this key only when its tag is `tag`;
    /// says whether it did.
    pub fn remove_if_tagged(&mut self, key: &str, tag: u64) -> (removed: bool)
        requires
            old(self).wf(),
        ensures
            final(self).wf(),
            removed <==> exists|i: int| at_key(old(self).view(), key@, i) && old(self).view()[i].2 == tag,
            removed ==> exists|i: int|
                at_key(old(self).view(), key@, i) && final(self).view() == old(self).view().remove(i),
            !removed ==> final(self).view() == old(self).view(),
    {
        match self.position(key) {
            Some(i) => {
                if self.entries[i].tag == tag {
                    let ghost pre = self.view();
                    let _ = self.entries.remove(i);
                    proof {
                        assert(self.view() =~= pre.remove(i as int));
                        Self::lemma_unique_after_remove(pre, i as int);
                    }
                    true
                } else {
                    proof {
                        assert forall|j: int| at_key(self.view(), key@, j) implies self.view()[j].2 != tag by {
                            if j != i {
                                let ii = i as int;
                                if j < ii {
                                    assert(self.view()[j].0 != self.view()[ii].0);
                                } else {
                                    assert(self.view()[ii].0 != self.view()[j].0);
                                }
                            }
                        }
                    }
                    false
                }
            },
            None => false,
        }
    }

    /// Keeps, in order, the entries for which `keep` holds.
    fn retain_decided(&mut self, keep: &Vec<bool>, Ghost(pred): Ghost<spec_fn((Seq<char>, V, u64)) -> bool>)
        requires
            old(self).wf(),
            keep@.len() == old(self).view().len(),
            forall|k: int| 0 <= k < keep@.len() ==> keep@[k] == pred(old(self).view()[k]),
        ensures
            final(self).wf(),
            final(self).view() == old(self).view().filter(pred),
    {
        let ghost pre = self.view();
        let mut source = Vec::new();
        std::mem::swap(&mut source, &mut self.entries);
        let ghost orig = source@;
        let n = source.len();
        let mut kept: Vec<TaggedEntry<V>> = Vec::new();
        let mut i: usize = 0;
        assert(pre.take(0) =~= Seq::<(Seq<char>, V, u64)>::empty());
        assert(source@ =~= orig.skip(0));
        proof {
            reveal(Seq::filter);
        }
        while i < n
            invariant
                i <= n,
                n == orig.len(),
                source@ == orig.skip(i as int),
                pre == orig.map_values(|e: TaggedEntry<V>| entry_view(e)),
                unique_keys(pre),
                keep@.len() == n,
                forall|k: int| 0 <= k < n ==> keep@[k] == pred(pre[k]),
                kept@.map_values(|e: TaggedEntry<V>| entry_view(e)) == pre.take(i as int).filter(pred),
                unique_keys(kept@.map_values(|e: TaggedEntry<V>| entry_view(e))),
                forall|a: int| 0 <= a < kept@.len() ==> exists|b: int| 0 <= b < i && #[trigger] kept@[a].key@ == pre[b].0,
            decreases n - i,
        {
            let ghost kv = kept@.map_values(|e: TaggedEntry<V>| entry_view(e));
            let e = source.remove(0);
            assert(source@ =~= orig.skip(i + 1));
            assert(entry_view(e) == pre[i as int]);
            assert(pre.take(i + 1) =~= pre.take(i as int).push(pre[i as int]));
            proof { pre.take(i as int).lemma_filter_push(pre[i as int], pred); }
            if keep[i] {
                let ghost k = e.key@;
                kept.push(e);
                let ghost kv2 = kept@.map_values(|e: TaggedEntry<V>| entry_view(e));
                assert(kv2 =~= kv.push(pre[i as int]));
                assert forall|a: int, b: int| 0 <= a < b < kv2.len() implies
                    #[trigger] kv2[a].0 != #[trigger] kv2[b].0 by {
                    if b == kv.len() {
                        assert(kv2[a].0 == kept@[a].key@);
                        let c = choose|c: int| 0 <= c < i && #[trigger] kept@[a].key@ == pre[c].0;
                        assert(pre[c].0 != pre[i as int].0);
                    } else {
                        assert(kv[a].0 != kv[b].0);
                    }
                }
                assert forall|a: int| 0 <= a < kept@.len() implies exists|b: int| 0 <= b < i + 1 && #[trigger] kept@[a].key@ == pre[b].0 by {
                    if a == kv.len() {
                        assert(kept@[a].key@ == pre[i as int].0);
                    } else {
                        let c = choose|c: int| 0 <= c < i && #[trigger] kept@[a].key@ == pre[c].0;
                        assert(kept@[a].key@ == pre[c].0);
                    }
                }
            }
            i += 1;
        }
        self.entries = kept;
        assert(pre.take(n as int) =~= pre);
    }

    /// Keeps the entries that are still fresh at `now`, in order.
    pub fn retain_fresh(&mut self, now: u64, max_age: u64)
        requires
            old(self).wf(),
        ensures
            final(self).wf(),
            final(self).view() == old(self).view().filter(
                |e: (Seq<char>, V, u64)| is_fresh(e.2, now, max_age),
            ),
    {
        let ghost pred = |e: (Seq<char>, V, u64)| is_fresh(e.2, now, max_age);
        let mut keep: Vec<bool> = Vec::new();
        let mut i: usize = 0;
        while i < self.entries.len()
            invariant
                i <= self.view().len(),
                pred == (|e: (Seq<char>, V, u64)| is_fresh(e.2, now, max_age)),
                keep@.len() == i,
                forall|k: int| 0 <= k < i ==> keep@[k] == pred(self.view()[k]),
            decreases self.entries.len() - i,
        {
            let tag = self.entries[i].tag;
            keep.push(now <= tag || now - tag <= max_age);
            i += 1;
        }
        self.retain_decided(&keep, Ghost(pred));
    }

    /// Keeps, in order, the entries whose key is one of `keys`.
    pub fn retain_keys(&mut self, keys: &Vec<String>)
        requires
            old(self).wf(),
        ensures
            final(self).wf(),
            final(self).view() == old(self).view().filter(
                |e: (Seq<char>, V, u64)| keys@.map_values(|k: String| k@).contains(e.0),
            ),
    {
        let ghost names = keys@.map_values(|k: String| k@);
        let ghost pred = |e: (Seq<char>, V, u64)| names.contains(e.0);
        let mut keep: Vec<bool> = Vec::new();
        let mut i: usize = 0;
        while i < self.entries.len()
            invariant
                i <= self.view().len(),
                names == keys@.map_values(|k: String| k@),
                pred == (|e: (Seq<char>, V, u64)| names.contains(e.0)),
                keep@.len() == i,
                forall|k: int| 0 <= k < i ==> keep@[k] == pred(self.view()[k]),
            decreases self.entries.len() - i,
        {
            let found = crate::text::contains_string(keys, self.entries[i].key.as_str());
            keep.push(found);
            i += 1;
        }
        self.retain_decided(&keep, Ghost(pred));
    }
}

impl<V> TaggedMap<V> {
    /// Index of an entry whose tag is smallest (the first such entry).
    fn oldest_index(&self) -> (r: usize)
        requires
            self.view().len() > 0,
        ensures
            r < self.view().len(),
            forall|j: int| 0 <= j < self.view().len() ==> self.view()[r as int].2 <= #[trigger] self.view()[j].2,
    {
        let mut best: usize = 0;
        let mut i: usize = 1;
        while i < self.entries.len()
            invariant
                0 < self.entries.len(),
                best < i <= self.entries.len(),
                forall|j: int| 0 <= j < i ==> self.view()[best as int].2 <= #[trigger] self.view()[j].2,
            decreases self.entries.len() - i,
        {
            if self.entries[i].tag < self.entries[best].tag {
                best = i;
            }
            i += 1;
        }
        best
    }

    /// Removes the oldest entries (smallest tags) until at most `max`
    /// remain. Every removed entry is at least as old as every kept one.
    pub fn evict_oldest(&mut self, max: usize)
        requires
            old(self).wf(),
        ensures
            final(self).wf(),
            final(self).view().len() == if old(self).view().len() > max {
                max as nat
            } else {
                old(self).view().len()
            },
            old(self).view().len() <= max ==> final(self).view() == old(self).view(),
            all_in(final(self).view(), old(self).view()),
            forall|i: int, j: int|
                0 <= i < old(self).view().len() && !final(self).view().contains(old(self).view()[i]) && 0
                    <= j < final(self).view().len() ==> #[trigger] old(self).view()[i].2
                    <= #[trigger] final(self).view()[j].2,
    {
        let ghost pre = self.view();
        while self.entries.len() > max
            invariant
                self.wf(),
                pre.len() <= max ==> self.view() == pre,
                pre.len() > max ==> self.view().len() >= max,
                self.view().len() <= pre.len(),
                all_in(self.view(), pre),
                forall|i: int, j: int|
                    0 <= i < pre.len() && !self.view().contains(pre[i]) && 0 <= j < self.view().len()
                        ==> #[trigger] pre[i].2 <= #[trigger] self.view()[j].2,
            decreases self.entries.len(),
        {
            let ghost cur = self.view();
            let idx = self.oldest_index();
            let _ = self.entries.remove(idx);
            proof {
                assert(self.view() =~= cur.remove(idx as int));
                Self::lemma_unique_after_remove(cur, idx as int);
                let next = self.view();
                assert forall|i: int, j: int|
                    0 <= i < pre.len() && !next.contains(pre[i]) && 0 <= j < next.len() implies
                    #[trigger] pre[i].2 <= #[trigger] next[j].2 by {
                    assert(cur.contains(next[j]));
                    let jj = choose|jj: int| 0 <= jj < cur.len() && cur[jj] == next[j];
                    if cur.contains(pre[i]) {
                        let k = choose|k: int| 0 <= k < cur.len() && cur[k] == pre[i];
                        if k != idx {
                            assert(next.contains(cur[k]));
                        }
                        assert(cur[idx as int].2 <= cur[jj].2);
                    } else {
                        assert(pre[i].2 <= cur[jj].2);
                    }
                }
                assert forall|i: int| 0 <= i < next.len() implies pre.contains(#[trigger] next[i]) by {
                    assert(cur.contains(next[i]));
                    let k = choose|k: int| 0 <= k < cur.len() && cur[k] == next[i];
                    assert(pre.contains(cur[k]));
                }
            }
        }
    }
}

impl<V> TaggedMap<V> {
    /// Removes every entry whose tag is at most `limit` and returns them in
    /// order; the other entries stay, in order.
    pub fn take_due(&mut self, limit: u64) -> (due: Vec<TaggedEntry<V>>)
        requires
            old(self).wf(),
        ensures
            final(self).wf(),
            final(self).view() == old(self).view().filter(|e: (Seq<char>, V, u64)| e.2 > limit),
            due@.map_values(|e: TaggedEntry<V>| entry_view(e)) == old(self).view().filter(
                |e: (Seq<char>, V, u64)| e.2 <= limit,
            ),
    {
        let ghost pre = self.view();
        let ghost keep_pred = |e: (Seq<char>, V, u64)| e.2 > limit;
        let ghost due_pred = |e: (Seq<char>, V, u64)| e.2 <= limit;
        let mut source = Vec::new();
        std::mem::swap(&mut source, &mut self.entries);
        let ghost orig = source@;
        let n = source.len();
        let mut kept: Vec<TaggedEntry<V>> = Vec::new();
        let mut due: Vec<TaggedEntry<V>> = Vec::new();
        let mut i: usize = 0;
        assert(pre.take(0) =~= Seq::<(Seq<char>, V, u64)>::empty());
        assert(source@ =~= orig.skip(0));
        proof {
            reveal(Seq::filter);
        }
        while i < n
            invariant
                i <= n,
                n == orig.len(),
                source@ == orig.skip(i as int),
                pre == orig.map_values(|e: TaggedEntry<V>| entry_view(e)),
                unique_keys(pre),
                keep_pred == (|e: (Seq<char>, V, u64)| e.2 > limit),
                due_pred == (|e: (Seq<char>, V, u64)| e.2 <= limit),
                kept@.map_values(|e: TaggedEntry<V>| entry_view(e)) == pre.take(i as int).filter(keep_pred),
                due@.map_values(|e: TaggedEntry<V>| entry_view(e)) == pre.take(i as int).filter(due_pred),
                unique_keys(kept@.map_values(|e: TaggedEntry<V>| entry_view(e))),
                forall|a: int| 0 <= a < kept@.len() ==> exists|b: int| 0 <= b < i && #[trigger] kept@[a].key@ == pre[b].0,
            decreases n - i,
        {
            let ghost kv = kept@.map_values(|e: TaggedEntry<V>| entry_view(e));
            let ghost dv = due@.map_values(|e: TaggedEntry<V>| entry_view(e));
            let e = source.remove(0);
            assert(source@ =~= orig.skip(i + 1));
            assert(entry_view(e) == pre[i as int]);
            assert(pre.take(i + 1) =~= pre.take(i as int).push(pre[i as int]));
            proof {
                pre.take(i as int).lemma_filter_push(pre[i as int], keep_pred);
                pre.take(i as int).lemma_filter_push(pre[i as int], due_pred);
            }
            if e.tag > limit {
                kept.push(e);
                let ghost kv2 = kept@.map_values(|e: TaggedEntry<V>| entry_view(e));
                assert(kv2 =~= kv.push(pre[i as int]));
                assert forall|a: int, b: int| 0 <= a < b < kv2.len() implies
                    #[trigger] kv2[a].0 != #[trigger] kv2[b].0 by {
                    if b == kv.len() {
                        assert(kv2[a].0 == kept@[a].key@);
                        let c = choose|c: int| 0 <= c < i && #[trigger] kept@[a].key@ == pre[c].0;
                        assert(pre[c].0 != pre[i as int].0);
                    } else {
                        assert(kv[a].0 != kv[b].0);
                    }
                }
                assert forall|a: int| 0 <= a < kept@.len() implies exists|b: int| 0 <= b < i + 1 && #[trigger] kept@[a].key@ == pre[b].0 by {
                    if a == kv.len() {
                        assert(kept@[a].key@ == pre[i as int].0);
                    } else {
                        let c = choose|c: int| 0 <= c < i && #[trigger] kept@[a].key@ == pre[c].0;
                        assert(kept@[a].key@ == pre[c].0);
                    }
                }
            } else {
                due.push(e);
                assert(due@.map_values(|e: TaggedEntry<V>| entry_view(e)) =~= dv.push(pre[i as int]));
            }
            i += 1;
        }
        self.entries = kept;
        assert(pre.take(n as int) =~= pre);
        due
    }
}

} // verus!
