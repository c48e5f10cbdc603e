//! A small map keyed by text, kept as a list of entries with distinct keys.

use vstd::prelude::*;

verus! {

/// A finite map from text to `V`. No key occurs twice, and entries keep the
/// order in which their keys first arrived.
pub struct TextMap<V> {
    entries: Vec<(String, V)>,
}

/// Whether the list holds `key` at position `i`.
pub open spec fn key_is_at<V>(entries: Seq<(String, V)>, key: Seq<char>, i: int) -> bool {
    0 <= i < entries.len() && entries[i].0@ == key
}

/// Whether no two positions of the list hold the same key.
pub open spec fn keys_distinct<V>(entries: Seq<(String, V)>) -> bool {
    forall|i: int, j: int|
        0 <= i < entries.len() && 0 <= j < entries.len() && i != j ==> entries[i].0@
            != entries[j].0@
}

/// The map that a list of entries with distinct keys stands for.
pub open spec fn map_of<V>(entries: Seq<(String, V)>) -> Map<Seq<char>, V> {
    Map::new(
        |k: Seq<char>| exists|i: int| key_is_at(entries, k, i),
        |k: Seq<char>| entries[choose|i: int| key_is_at(entries, k, i)].1,
    )
}

/// In a list with distinct keys, the entry at a position is what the map
/// holds under that position's key.
pub proof fn lemma_map_of_position<V>(entries: Seq<(String, V)>, i: int)
    requires
        keys_distinct(entries),
        0 <= i < entries.len(),
    ensures
        map_of(entries).contains_key(entries[i].0@),
        map_of(entries)[entries[i].0@] == entries[i].1,
{
    let k = entries[i].0@;
    assert(key_is_at(entries, k, i));
    let picked = choose|j: int| key_is_at(entries, k, j);
    assert(picked == i);
}

/// Adding an entry under a key that the list lacks adds it to the map.
pub proof fn lemma_map_of_push<V>(entries: Seq<(String, V)>, key: String, value: V)
    requires
        keys_distinct(entries),
        forall|i: int| !key_is_at(entries, key@, i),
    ensures
        keys_distinct(entries.push((key, value))),
        map_of(entries.push((key, value))) == map_of(entries).insert(key@, value),
{
    let after = entries.push((key, value));
    assert forall|i: int, j: int|
        0 <= i < after.len() && 0 <= j < after.len() && i != j implies after[i].0@
        != after[j].0@ by {
        if i < entries.len() {
            assert(!key_is_at(entries, key@, i));
        }
        if j < entries.len() {
            assert(!key_is_at(entries, key@, j));
        }
    }
    let want = map_of(entries).insert(key@, value);
    assert forall|k: Seq<char>| map_of(after).contains_key(k) <==> want.contains_key(k) by {
        if map_of(after).contains_key(k) {
            let i = choose|i: int| key_is_at(after, k, i);
            if i < entries.len() {
                assert(key_is_at(entries, k, i));
            }
        }
        if want.contains_key(k) {
            if k == key@ {
                assert(key_is_at(after, k, entries.len() as int));
            } else {
                let i = choose|i: int| key_is_at(entries, k, i);
                assert(key_is_at(after, k, i));
            }
        }
    }
    assert forall|k: Seq<char>| map_of(after).contains_key(k) implies map_of(after)[k]
        == want[k] by {
        let i = choose|i: int| key_is_at(after, k, i);
        lemma_map_of_position(after, i);
        if i < entries.len() {
            assert(key_is_at(entries, k, i));
            lemma_map_of_position(entries, i);
        }
    }
    assert(map_of(after) =~= want);
}

/// Replacing the entry at a position by one with the same key replaces the
/// value that the map holds under that key.
pub proof fn lemma_map_of_update<V>(entries: Seq<(String, V)>, at: int, key: String, value: V)
    requires
        keys_distinct(entries),
        key_is_at(entries, key@, at),
    ensures
        keys_distinct(entries.update(at, (key, value))),
        map_of(entries.update(at, (key, value))) == map_of(entries).insert(key@, value),
{
    let after = entries.update(at, (key, value));
    assert forall|i: int| 0 <= i < after.len() implies #[trigger] after[i].0@
        == entries[i].0@ by {}
    let want = map_of(entries).insert(key@, value);
    assert forall|k: Seq<char>| map_of(after).contains_key(k) <==> want.contains_key(k) by {
        if map_of(after).contains_key(k) {
            let i = choose|i: int| key_is_at(after, k, i);
            assert(key_is_at(entries, k, i));
        }
        if want.contains_key(k) {
            if k == key@ {
                assert(key_is_at(after, k, at));
            } else {
                let i = choose|i: int| key_is_at(entries, k, i);
                assert(key_is_at(after, k, i));
            }
        }
    }
    assert forall|k: Seq<char>| map_of(after).contains_key(k) implies map_of(after)[k]
        == want[k] by {
        let i = choose|i: int| key_is_at(after, k, i);
        lemma_map_of_position(after, i);
        if i != at {
            lemma_map_of_position(entries, i);
        }
    }
    assert(map_of(after) =~= want);
}

/// Taking the entry at a position out of the list takes its key out of the
/// map.
pub proof fn lemma_map_of_remove<V>(entries: Seq<(String, V)>, at: int)
    requires
        keys_distinct(entries),
        0 <= at < entries.len(),
    ensures
        keys_distinct(entries.remove(at)),
        map_of(entries.remove(at)) == map_of(entries).remove(entries[at].0@),
{
    let after = entries.remove(at);
    let key = entries[at].0@;
    assert forall|i: int| 0 <= i < after.len() implies #[trigger] after[i] == entries[if i
        < at {
        i
    } else {
        i + 1
    }] by {}
    let want = map_of(entries).remove(key);
    assert forall|k: Seq<char>| map_of(after).contains_key(k) <==> want.contains_key(k) by {
        if map_of(after).contains_key(k) {
            let i = choose|i: int| key_is_at(after, k, i);
            let src = if i < at {
                i
            } else {
                i + 1
            };
            assert(key_is_at(entries, k, src));
        }
        if want.contains_key(k) {
            let i = choose|i: int| key_is_at(entries, k, i);
            let dst = if i < at {
                i
            } else {
                i - 1
            };
            assert(key_is_at(after, k, dst));
        }
    }
    assert forall|k: Seq<char>| map_of(after).contains_key(k) implies map_of(after)[k]
        == want[k] by {
        let i = choose|i: int| key_is_at(after, k, i);
        let src = if i < at {
            i
        } else {
            i + 1
        };
        lemma_map_of_position(after, i);
        lemma_map_of_position(entries, src);
    }
    assert(map_of(after) =~= want);
}

/// A list with distinct keys stands for a finite map with as many keys as
/// the list has entries.
pub proof fn lemma_map_of_len<V>(entries: Seq<(String, V)>)
    requires
        keys_distinct(entries),
    ensures
        map_of(entries).dom().finite(),
        map_of(entries).dom().len() == entries.len(),
    decreases entries.len(),
{
    if entries.len() == 0 {
        assert(map_of(entries).dom() =~= Set::<Seq<char>>::empty());
    } else {
        let front = entries.drop_last();
        let last = entries.last();
        assert forall|i: int, j: int|
            0 <= i < front.len() && 0 <= j < front.len() && i != j implies front[i].0@
            != front[j].0@ by {
            assert(front[i] == entries[i] && front[j] == entries[j]);
        }
        lemma_map_of_len(front);
        assert forall|i: int| !key_is_at(front, last.0@, i) by {
            if key_is_at(front, last.0@, i) {
                assert(front[i] == entries[i]);
                assert(entries[entries.len() - 1] == last);
            }
        }
        lemma_map_of_push(front, last.0, last.1);
        assert(front.push((last.0, last.1)) =~= entries);
        assert(!map_of(front).dom().contains(last.0@)) by {
            if map_of(front).dom().contains(last.0@) {
                let i = choose|i: int| key_is_at(front, last.0@, i);
                assert(key_is_at(front, last.0@, i));
            }
        }
        assert(map_of(entries).dom() =~= map_of(front).dom().insert(last.0@));
    }
}

impl<V> View for TextMap<V> {
    type V = Map<Seq<char>, V>;

    closed spec fn view(&self) -> Map<Seq<char>, V> {
        map_of(self.entries@)
    }
}

impl<V> TextMap<V> {
    #[verifier::type_invariant]
    spec fn well_formed(self) -> bool {
        keys_distinct(self.entries@)
    }

    /// The number of entries.
    pub closed spec fn count(self) -> nat {
        self.entries@.len()
    }

    /// The key of the entry at position `i`.
    pub closed spec fn key_at(self, i: int) -> Seq<char> {
        self.entries@[i].0@
    }

    /// The empty map.
    pub fn new() -> (m: Self)
        ensures
            m@ == Map::<Seq<char>, V>::empty(),
            m.count() == 0,
    {
        let m = TextMap { entries: Vec::new() };
        assert(m@ =~= Map::<Seq<char>, V>::empty());
        m
    }

    /// The number of entries. The positions below it hold the keys of the
    /// map, each key at exactly one position.
    pub fn len(&self) -> (n: usize)
        ensures
            n == self.count(),
            self@.dom().finite(),
            n == self@.dom().len(),
            forall|i: int, j: int|
                0 <= i < n && 0 <= j < n && i != j ==> self.key_at(i) != self.key_at(j),
            forall|k: Seq<char>|
                self@.contains_key(k) ==> exists|i: int| 0 <= i < n && self.key_at(i) == k,
    {
        proof {
            use_type_invariant(self);
            lemma_map_of_len(self.entries@);
            assert forall|k: Seq<char>| self@.contains_key(k) implies exists|i: int|
                0 <= i < self.entries@.len() && self.key_at(i) == k by {
                let i = choose|i: int| key_is_at(self.entries@, k, i);
                assert(self.key_at(i) == k);
            }
        }
        self.entries.len()
    }

    /// Moves the list out and leaves the map empty.
    fn take_entries(&mut self) -> (taken: Vec<(String, V)>)
        ensures
            taken == old(self).entries,
            final(self).entries@.len() == 0,
    {
        let mut taken: Vec<(String, V)> = Vec::new();
        std::mem::swap(&mut self.entries, &mut taken);
        taken
    }

    /// The position of `key` in the list, if it is there.
    fn position(&self, key: &str) -> (at: Option<usize>)
        ensures
            match at {
                Some(i) => key_is_at(self.entries@, key@, i as int),
                None => forall|i: int| !key_is_at(self.entries@, key@, i),
            },
    {
        let wanted = key.to_owned();
        let mut i: usize = 0;
        while i < self.entries.len()
            invariant
                i <= self.entries@.len(),
                wanted@ == key@,
                forall|j: int| 0 <= j < i ==> self.entries@[j].0@ != key@,
            decreases self.entries@.len() - i,
        {
            if self.entries[i].0 == wanted {
                return Some(i);
            }
            i = i + 1;
        }
        None
    }

    /// The value stored under `key`, if there is one.
    pub fn get(&self, key: &str) -> (r: Option<&V>)
        ensures
            match r {
                Some(v) => self@.contains_key(key@) && *v == self@[key@],
                None => !self@.contains_key(key@),
            },
    {
        proof {
            use_type_invariant(self);
        }
        match self.position(key) {
            Some(i) => {
                proof {
                    lemma_map_of_position(self.entries@, i as int);
                }
                Some(&self.entries[i].1)
            },
            None => None,
        }
    }

    /// Whether `key` has an entry.
    pub fn contains_key(&self, key: &str) -> (r: bool)
        ensures
            r == self@.contains_key(key@),
    {
        match self.position(key) {
            Some(i) => {
                assert(key_is_at(self.entries@, key@, i as int));
                true
            },
            None => false,
        }
    }

    /// Stores `value` under `key`, in place of what was there. All other
    /// entries stay as they are.
    pub fn insert(&mut self, key: String, value: V)
        ensures
            final(self)@ == old(self)@.insert(key@, value),
    {
        proof {
            use_type_invariant(&*self);
        }
        let found = self.position(key.as_str());
        let mut entries = self.take_entries();
        match found {
            Some(i) => {
                proof {
                    lemma_map_of_update(entries@, i as int, key, value);
                }
                entries.set(i, (key, value));
            },
            None => {
                proof {
                    lemma_map_of_push(entries@, key, value);
                }
                entries.push((key, value));
            },
        }
        self.entries = entries;
    }

    /// Takes the entry of `key` out, and returns its value if there was
    /// one. All other entries stay as they are.
    pub fn remove(&mut self, key: &str) -> (r: Option<V>)
        ensures
            final(self)@ == old(self)@.remove(key@),
            match r {
                Some(v) => old(self)@.contains_key(key@) && v == old(self)@[key@],
                None => !old(self)@.contains_key(key@),
            },
    {
        proof {
            use_type_invariant(&*self);
        }
        match self.position(key) {
            Some(i) => {
                let mut entries = self.take_entries();
                proof {
                    lemma_map_of_position(entries@, i as int);
                    lemma_map_of_remove(entries@, i as int);
                }
                let taken = entries.remove(i);
                self.entries = entries;
                Some(taken.1)
            },
            None => {
                assert(old(self)@.remove(key@) =~= old(self)@);
                None
            },
        }
    }

    /// Takes every entry out.
    pub fn clear(&mut self)
        ensures
            final(self)@ == Map::<Seq<char>, V>::empty(),
            final(self).count() == 0,
    {
        let _ = self.take_entries();
        assert(map_of(self.entries@) =~= Map::<Seq<char>, V>::empty());
    }

    /// The entry at position `i`, for walking the map from `0` to `len()`.
    /// Every key of the map stands at exactly one position.
    pub fn entry_at(&self, i: usize) -> (r: (&String, &V))
        requires
            i < self.count(),
        ensures
            r.0@ == self.key_at(i as int),
            self@.contains_key(r.0@),
            self@[r.0@] == *r.1,
    {
        proof {
            use_type_invariant(self);
            lemma_map_of_position(self.entries@, i as int);
        }
        (&self.entries[i].0, &self.entries[i].1)
    }
}

} // verus!
