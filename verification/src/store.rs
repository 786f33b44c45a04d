//! Collections keyed by text, in which each key occurs once.
//!
//! The entries stand in a list. The maps of std carry contracts only for key types
//! whose hash or order has one, which `String` has not, and the map from strings in
//! vstd cannot be walked, so that its keys could not be listed.

use vstd::prelude::*;
use crate::order::{is_listing, listing, sorted_listing};
use crate::outside::texts;
use crate::text::same_text;

verus! {

/// A map from texts to values.
pub struct TextMap<V> {
    entries: Vec<(String, V)>,
}

/// No key occurs twice.
spec fn keys_differ<V>(entries: Seq<(String, V)>) -> bool {
    forall|i: int, j: int| 0 <= i < j < entries.len() ==> (#[trigger] entries[i]).0@ != (#[trigger] entries[j]).0@
}

/// The entry at `i` has the key `k`.
spec fn keyed<V>(entries: Seq<(String, V)>, k: Seq<char>, i: int) -> bool {
    0 <= i < entries.len() && entries[i].0@ == k
}

/// The map that a list of entries holds.
spec fn map_of<V>(entries: Seq<(String, V)>) -> Map<Seq<char>, V> {
    Map::new(
        |k: Seq<char>| exists|i: int| keyed(entries, k, i),
        |k: Seq<char>| entries[choose|i: int| keyed(entries, k, i)].1,
    )
}

/// An entry is found in the map under its key.
proof fn lemma_entry<V>(entries: Seq<(String, V)>, i: int)
    requires
        keys_differ(entries),
        0 <= i < entries.len(),
    ensures
        map_of(entries).dom().contains(entries[i].0@),
        map_of(entries)[entries[i].0@] == entries[i].1,
{
    let k = entries[i].0@;
    assert(keyed(entries, k, i));
    let j = choose|j: int| keyed(entries, k, j);
    assert(keyed(entries, k, j));
    assert(i == j);
}

impl<V> View for TextMap<V> {
    type V = Map<Seq<char>, V>;

    closed spec fn view(&self) -> Map<Seq<char>, V> {
        map_of(self.entries@)
    }
}

impl<V> TextMap<V> {
    #[verifier::type_invariant]
    spec fn well_formed(self) -> bool {
        keys_differ(self.entries@)
    }

    /// The empty map.
    pub fn new() -> (map: Self)
        ensures
            map@ == Map::<Seq<char>, V>::empty(),
    {
        let map = TextMap { entries: Vec::new() };
        assert(map@ =~= Map::<Seq<char>, V>::empty());
        map
    }

    /// Where the entry with a key stands.
    fn position(&self, key: &str) -> (at: Option<usize>)
        ensures
            match at {
                Some(i) => keyed(self.entries@, key@, i as int),
                None => forall|i: int| !keyed(self.entries@, key@, i),
            },
    {
        let mut i: usize = 0;
        while i < self.entries.len()
            invariant
                i <= self.entries@.len(),
                forall|j: int| j < i ==> !keyed(self.entries@, key@, j),
            decreases self.entries@.len() - i,
        {
            if same_text(&self.entries[i].0, key) {
                return Some(i);
            }
            i += 1;
        }
        None
    }

    /// The value under a key.
    pub fn get(&self, key: &str) -> (value: Option<&V>)
        ensures
            match value {
                Some(v) => self@.dom().contains(key@) && *v == self@[key@],
                None => !self@.dom().contains(key@),
            },
    {
        proof {
            use_type_invariant(self);
        }
        match self.position(key) {
            Some(i) => {
                proof {
                    lemma_entry(self.entries@, i as int);
                }
                Some(&self.entries[i].1)
            },
            None => None,
        }
    }

    /// Whether there is a value under a key.
    pub fn contains_key(&self, key: &str) -> (found: bool)
        ensures
            found == self@.dom().contains(key@),
    {
        self.get(key).is_some()
    }

    /// Puts a value under a key, in place of the one that was there.
    pub fn insert(&mut self, key: String, value: V)
        ensures
            final(self)@ == old(self)@.insert(key@, value),
    {
        proof {
            use_type_invariant(&*self);
        }
        let at = self.position(&key);
        let ghost before = self.entries@;
        let ghost k = key@;
        let mut entries: Vec<(String, V)> = Vec::new();
        std::mem::swap(&mut entries, &mut self.entries);
        match at {
            Some(i) => {
                entries[i] = (key, value);
            },
            None => {
                entries.push((key, value));
                assert forall|i: int, j: int| 0 <= i < j < entries@.len() implies (#[trigger] entries@[i]).0@ != (
                #[trigger] entries@[j]).0@ by {
                    assert(!keyed(before, k, i));
                }
            },
        }
        proof {
            let after = entries@;
            assert(map_of(after) =~= map_of(before).insert(k, value)) by {
                assert forall|q: Seq<char>| map_of(after).dom().contains(q) <==> map_of(before).insert(
                    k,
                    value,
                ).dom().contains(q) by {
                    if map_of(after).dom().contains(q) && q != k {
                        let i = choose|i: int| keyed(after, q, i);
                        assert(keyed(before, q, i));
                    }
                    if map_of(before).dom().contains(q) {
                        let i = choose|i: int| keyed(before, q, i);
                        assert(keyed(after, q, i));
                    }
                    if q == k {
                        let at = match at {
                            Some(i) => i as int,
                            None => before.len() as int,
                        };
                        assert(keyed(after, k, at));
                    }
                }
                assert forall|q: Seq<char>| map_of(after).dom().contains(q) implies map_of(after)[q] == map_of(
                    before,
                ).insert(k, value)[q] by {
                    let i = choose|i: int| keyed(after, q, i);
                    lemma_entry(after, i);
                    if q != k {
                        assert(before[i] == after[i]);
                        lemma_entry(before, i);
                    } else {
                        let at = match at {
                            Some(i) => i as int,
                            None => before.len() as int,
                        };
                        lemma_entry(after, at);
                    }
                }
            }
        }
        self.entries = entries;
    }

    /// Takes out the value under a key; says whether there was one.
    pub fn remove(&mut self, key: &str) -> (found: bool)
        ensures
            found == old(self)@.dom().contains(key@),
            final(self)@ == old(self)@.remove(key@),
    {
        proof {
            use_type_invariant(&*self);
        }
        let at = self.position(key);
        let ghost before = self.entries@;
        match at {
            Some(i) => {
                let mut entries: Vec<(String, V)> = Vec::new();
                std::mem::swap(&mut entries, &mut self.entries);
                let _removed = entries.remove(i);
                proof {
                    let after = entries@;
                    assert(after =~= before.remove(i as int));
                    lemma_entry(before, i as int);
                    assert(map_of(after) =~= map_of(before).remove(key@)) by {
                        assert forall|q: Seq<char>| map_of(after).dom().contains(q) <==> map_of(before).remove(
                            key@,
                        ).dom().contains(q) by {
                            if map_of(after).dom().contains(q) {
                                let j = choose|j: int| keyed(after, q, j);
                                let b = if j < i {
                                    j
                                } else {
                                    j + 1
                                };
                                assert(after[j] == before[b]);
                                assert(keyed(before, q, b));
                                assert(q != key@);
                            }
                            if map_of(before).remove(key@).dom().contains(q) {
                                let b = choose|b: int| keyed(before, q, b);
                                let j = if b < i {
                                    b
                                } else {
                                    b - 1
                                };
                                assert(after[j] == before[b]);
                                assert(keyed(after, q, j));
                            }
                        }
                        assert forall|q: Seq<char>| map_of(after).dom().contains(q) implies map_of(after)[q]
                            == map_of(before).remove(key@)[q] by {
                            let j = choose|j: int| keyed(after, q, j);
                            let b = if j < i {
                                j
                            } else {
                                j + 1
                            };
                            assert(after[j] == before[b]);
                            lemma_entry(after, j);
                            lemma_entry(before, b);
                        }
                    }
                }
                self.entries = entries;
                true
            },
            None => {
                assert(self@ =~= self@.remove(key@));
                false
            },
        }
    }

    /// The keys, each once.
    fn keys(&self) -> (list: Vec<String>)
        ensures
            texts(list@).no_duplicates(),
            forall|k: Seq<char>| texts(list@).contains(k) <==> self@.dom().contains(k),
    {
        proof {
            use_type_invariant(self);
        }
        let mut list: Vec<String> = Vec::new();
        let mut i: usize = 0;
        while i < self.entries.len()
            invariant
                i <= self.entries@.len(),
                list@.len() == i,
                forall|j: int| 0 <= j < i ==> (#[trigger] list@[j])@ == self.entries@[j].0@,
            decreases self.entries@.len() - i,
        {
            list.push(self.entries[i].0.clone());
            i += 1;
        }
        proof {
            let keys = texts(list@);
            assert forall|a: int, b: int| 0 <= a < keys.len() && 0 <= b < keys.len() && a != b implies keys[a]
                != keys[b] by {
                assert(keys[a] == self.entries@[a].0@ && keys[b] == self.entries@[b].0@);
            }
            assert forall|k: Seq<char>| keys.contains(k) <==> self@.dom().contains(k) by {
                if keys.contains(k) {
                    let j = choose|j: int| 0 <= j < keys.len() && keys[j] == k;
                    assert(keyed(self.entries@, k, j));
                }
                if self@.dom().contains(k) {
                    let j = choose|j: int| keyed(self.entries@, k, j);
                    assert(keys[j] == k);
                }
            }
        }
        list
    }

    /// The keys, each once and in order.
    pub fn sorted_keys(&self) -> (list: Vec<String>)
        ensures
            texts(list@) == listing(self@.dom()),
            is_listing(texts(list@), self@.dom()),
    {
        sorted_listing(self.keys(), Ghost(self@.dom()))
    }
}

/// A set of texts.
pub struct TextSet {
    members: TextMap<()>,
}

impl View for TextSet {
    type V = Set<Seq<char>>;

    closed spec fn view(&self) -> Set<Seq<char>> {
        self.members@.dom()
    }
}

impl TextSet {
    /// The empty set.
    pub fn new() -> (set: Self)
        ensures
            set@ == Set::<Seq<char>>::empty(),
    {
        let set = TextSet { members: TextMap::new() };
        assert(set@ =~= Set::<Seq<char>>::empty());
        set
    }

    /// Whether a text is a member.
    pub fn contains(&self, text: &str) -> (found: bool)
        ensures
            found == self@.contains(text@),
    {
        self.members.contains_key(text)
    }

    /// Makes a text a member.
    pub fn insert(&mut self, text: String)
        ensures
            final(self)@ == old(self)@.insert(text@),
    {
        self.members.insert(text, ());
        assert(self@ =~= old(self)@.insert(text@));
    }

    /// Takes a text out; says whether it was a member.
    pub fn remove(&mut self, text: &str) -> (found: bool)
        ensures
            found == old(self)@.contains(text@),
            final(self)@ == old(self)@.remove(text@),
    {
        let found = self.members.remove(text);
        assert(self@ =~= old(self)@.remove(text@));
        found
    }

    /// The members, each once and in order.
    pub fn sorted_members(&self) -> (list: Vec<String>)
        ensures
            texts(list@) == listing(self@),
            is_listing(texts(list@), self@),
    {
        self.members.sorted_keys()
    }
}

} // verus!
