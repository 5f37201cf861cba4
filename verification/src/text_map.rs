//! A small map keyed by text.
//!
//! The entries are kept in a vector in which no key occurs twice. The map is
//! specified by its view, a mathematical map from the characters of a key to
//! the value stored under it.

use vstd::prelude::*;
use vstd::string::StringExecFns;

verus! {

/// The map that a sequence of entries stands for. Where a key occurs more
/// than once, the entry furthest back decides.
spec fn assoc<V>(entries: Seq<(String, V)>) -> Map<Seq<char>, V>
    decreases entries.len(),
{
    if entries.len() == 0 {
        Map::empty()
    } else {
        assoc(entries.drop_last()).insert(entries.last().0@, entries.last().1)
    }
}

/// No key occurs twice.
spec fn keys_distinct<V>(entries: Seq<(String, V)>) -> bool {
    forall|i: int, j: int|
        0 <= i < j < entries.len() ==> (#[trigger] entries[i]).0@ != (#[trigger] entries[j]).0@
}

/// The position of `key` among the entries, if it is there.
spec fn position<V>(entries: Seq<(String, V)>, key: Seq<char>, i: int) -> bool {
    0 <= i < entries.len() && entries[i].0@ == key
}

/// A key is in the map exactly if some entry carries it.
proof fn lemma_assoc_contains<V>(entries: Seq<(String, V)>, key: Seq<char>)
    ensures
        assoc(entries).contains_key(key) <==> exists|i: int| position(entries, key, i),
    decreases entries.len(),
{
    if entries.len() > 0 {
        let front = entries.drop_last();
        lemma_assoc_contains(front, key);
        if assoc(entries).contains_key(key) {
            if entries.last().0@ == key {
                assert(position(entries, key, entries.len() - 1));
            } else {
                let i = choose|i: int| position(front, key, i);
                assert(position(entries, key, i));
            }
        }
        if exists|i: int| position(entries, key, i) {
            let i = choose|i: int| position(entries, key, i);
            if i < entries.len() - 1 {
                assert(position(front, key, i));
            }
        }
    }
}

/// Where no key occurs twice, the map holds under each key the value of the
/// one entry that carries it.
proof fn lemma_assoc_value<V>(entries: Seq<(String, V)>, i: int)
    requires
        keys_distinct(entries),
        0 <= i < entries.len(),
    ensures
        assoc(entries).contains_key(entries[i].0@),
        assoc(entries)[entries[i].0@] == entries[i].1,
    decreases entries.len(),
{
    let front = entries.drop_last();
    if i < entries.len() - 1 {
        assert(front[i] == entries[i]);
        assert(entries[i].0@ != entries[entries.len() - 1].0@);
        assert forall|a: int, b: int| 0 <= a < b < front.len() implies (#[trigger] front[a]).0@
            != (#[trigger] front[b]).0@ by {
            assert(front[a] == entries[a]);
            assert(front[b] == entries[b]);
        }
        lemma_assoc_value(front, i);
    }
}

/// Taking one entry out of a sequence without repeated keys takes its key
/// out of the map and leaves the rest as it was.
proof fn lemma_assoc_remove<V>(entries: Seq<(String, V)>, i: int)
    requires
        keys_distinct(entries),
        0 <= i < entries.len(),
    ensures
        keys_distinct(entries.remove(i)),
        assoc(entries.remove(i)) == assoc(entries).remove(entries[i].0@),
{
    let rest = entries.remove(i);
    let key = entries[i].0@;
    assert forall|a: int, b: int| 0 <= a < b < rest.len() implies (#[trigger] rest[a]).0@ != (
    #[trigger] rest[b]).0@ by {
        let a0 = if a < i {
            a
        } else {
            a + 1
        };
        let b0 = if b < i {
            b
        } else {
            b + 1
        };
        assert(rest[a] == entries[a0]);
        assert(rest[b] == entries[b0]);
    }
    assert forall|k: Seq<char>| #[trigger]
        assoc(rest).contains_key(k) <==> assoc(entries).remove(key).contains_key(k) by {
        lemma_assoc_contains(rest, k);
        lemma_assoc_contains(entries, k);
        if assoc(rest).contains_key(k) {
            let a = choose|a: int| position(rest, k, a);
            let a0 = if a < i {
                a
            } else {
                a + 1
            };
            assert(rest[a] == entries[a0]);
            assert(position(entries, k, a0));
            assert(entries[a0].0@ != entries[i].0@);
        }
        if assoc(entries).remove(key).contains_key(k) {
            let a0 = choose|a: int| position(entries, k, a);
            assert(a0 != i);
            let a = if a0 < i {
                a0
            } else {
                a0 - 1
            };
            assert(rest[a] == entries[a0]);
            assert(position(rest, k, a));
        }
    }
    assert forall|k: Seq<char>| #[trigger] assoc(rest).contains_key(k) implies assoc(rest)[k]
        == assoc(entries).remove(key)[k] by {
        lemma_assoc_contains(rest, k);
        let a = choose|a: int| position(rest, k, a);
        let a0 = if a < i {
            a
        } else {
            a + 1
        };
        assert(rest[a] == entries[a0]);
        lemma_assoc_value(rest, a);
        lemma_assoc_value(entries, a0);
    }
    assert(assoc(rest) =~= assoc(entries).remove(key));
}

/// A map from text to values of type `V`.
#[derive(Debug)]
pub struct TextMap<V> {
    entries: Vec<(String, V)>,
}

impl<V> View for TextMap<V> {
    type V = Map<Seq<char>, V>;

    closed spec fn view(&self) -> Map<Seq<char>, V> {
        assoc(self.entries@)
    }
}

impl<V> TextMap<V> {
    #[verifier::type_invariant]
    spec fn inv(&self) -> bool {
        keys_distinct(self.entries@)
    }

    /// The empty map.
    pub fn new() -> (m: TextMap<V>)
        ensures
            m@ == Map::<Seq<char>, V>::empty(),
    {
        TextMap { entries: Vec::new() }
    }

    /// Where `key` stands among the entries.
    fn find(&self, key: &String) -> (found: Option<usize>)
        ensures
            match found {
                Some(i) => position(self.entries@, key@, i as int),
                None => !self@.contains_key(key@),
            },
    {
        let mut i: usize = 0;
        while i < self.entries.len()
            invariant
                i <= self.entries.len(),
                forall|j: int| 0 <= j < i ==> !position(self.entries@, key@, j),
            decreases self.entries.len() - i,
        {
            if self.entries[i].0 == *key {
                return Some(i);
            }
            i = i + 1;
        }
        proof {
            lemma_assoc_contains(self.entries@, key@);
        }
        None
    }

    /// Whether a value is stored under `key`.
    pub fn contains_key(&self, key: &str) -> (b: bool)
        ensures
            b == self@.contains_key(key@),
    {
        let owned = String::from_str(key);
        let found = self.find(&owned);
        proof {
            lemma_assoc_contains(self.entries@, key@);
        }
        found.is_some()
    }

    /// The value stored under `key`, if there is one.
    pub fn get(&self, key: &str) -> (value: Option<&V>)
        ensures
            match value {
                Some(v) => self@.contains_key(key@) && *v == self@[key@],
                None => !self@.contains_key(key@),
            },
    {
        let owned = String::from_str(key);
        match self.find(&owned) {
            Some(i) => {
                proof {
                    use_type_invariant(self);
                    lemma_assoc_value(self.entries@, i as int);
                }
                Some(&self.entries[i].1)
            },
            None => None,
        }
    }

    /// Takes the value stored under `key` out of the map.
    pub fn remove(&mut self, key: &str) -> (value: Option<V>)
        ensures
            final(self)@ == old(self)@.remove(key@),
            match value {
                Some(v) => old(self)@.contains_key(key@) && v == old(self)@[key@],
                None => !old(self)@.contains_key(key@),
            },
    {
        let owned = String::from_str(key);
        match self.find(&owned) {
            Some(i) => {
                proof {
                    use_type_invariant(&*self);
                    lemma_assoc_value(self.entries@, i as int);
                    lemma_assoc_remove(self.entries@, i as int);
                }
                let mut entries: Vec<(String, V)> = Vec::new();
                core::mem::swap(&mut self.entries, &mut entries);
                let entry = entries.remove(i);
                core::mem::swap(&mut self.entries, &mut entries);
                Some(entry.1)
            },
            None => {
                assert(self@.remove(key@) =~= self@);
                None
            },
        }
    }

    /// Stores `value` under `key`, and hands back what was stored there
    /// before.
    pub fn insert(&mut self, key: String, value: V) -> (previous: Option<V>)
        ensures
            final(self)@ == old(self)@.insert(key@, value),
            match previous {
                Some(v) => old(self)@.contains_key(key@) && v == old(self)@[key@],
                None => !old(self)@.contains_key(key@),
            },
    {
        let found = self.find(&key);
        proof {
            use_type_invariant(&*self);
        }
        let mut entries: Vec<(String, V)> = Vec::new();
        core::mem::swap(&mut self.entries, &mut entries);
        let previous = match found {
            Some(i) => {
                proof {
                    lemma_assoc_value(entries@, i as int);
                    lemma_assoc_remove(entries@, i as int);
                }
                let entry = entries.remove(i);
                Some(entry.1)
            },
            None => {
                assert(old(self)@.remove(key@) =~= old(self)@);
                None
            },
        };
        proof {
            let rest = entries@;
            let grown = rest.push((key, value));
            assert(assoc(rest) == old(self)@.remove(key@));
            assert(grown.drop_last() =~= rest);
            assert forall|a: int, b: int| 0 <= a < b < grown.len() implies (#[trigger] grown[a]).0@
                != (#[trigger] grown[b]).0@ by {
                lemma_assoc_contains(rest, key@);
                if b == grown.len() - 1 {
                    assert(!position(rest, key@, a));
                }
            }
            assert(assoc(grown) =~= old(self)@.insert(key@, value));
        }
        entries.push((key, value));
        core::mem::swap(&mut self.entries, &mut entries);
        previous
    }

    /// Number of keys in the map.
    pub fn len(&self) -> (n: usize)
        ensures
            n == self@.len(),
    {
        proof {
            use_type_invariant(self);
            lemma_assoc_len(self.entries@);
        }
        self.entries.len()
    }
}

/// Where no key occurs twice, the map has as many keys as there are
/// entries.
proof fn lemma_assoc_len<V>(entries: Seq<(String, V)>)
    requires
        keys_distinct(entries),
    ensures
        assoc(entries).dom().finite(),
        assoc(entries).len() == entries.len(),
    decreases entries.len(),
{
    if entries.len() > 0 {
        let front = entries.drop_last();
        assert forall|a: int, b: int| 0 <= a < b < front.len() implies (#[trigger] front[a]).0@
            != (#[trigger] front[b]).0@ by {
            assert(front[a] == entries[a]);
            assert(front[b] == entries[b]);
        }
        lemma_assoc_len(front);
        lemma_assoc_contains(front, entries.last().0@);
        if assoc(front).contains_key(entries.last().0@) {
            let i = choose|i: int| position(front, entries.last().0@, i);
            assert(front[i] == entries[i]);
            assert(entries[i].0@ != entries[entries.len() - 1].0@);
        }
    }
}

impl<V: Clone> Clone for TextMap<V> {
    /// A map with the same keys, each value cloned.
    fn clone(&self) -> (res: Self)
        ensures
            res@.dom() == self@.dom(),
            forall|k: Seq<char>| #[trigger] res@.contains_key(k) ==> cloned(self@[k], res@[k]),
    {
        let mut entries: Vec<(String, V)> = Vec::new();
        let mut i: usize = 0;
        while i < self.entries.len()
            invariant
                i <= self.entries.len(),
                entries@.len() == i,
                forall|j: int|
                    0 <= j < i ==> (#[trigger] entries@[j]).0@ == self.entries@[j].0@ && cloned(
                        self.entries@[j].1,
                        entries@[j].1,
                    ),
            decreases self.entries.len() - i,
        {
            let key = self.entries[i].0.clone();
            let value = self.entries[i].1.clone();
            entries.push((key, value));
            i = i + 1;
        }
        proof {
            use_type_invariant(self);
            let from = self.entries@;
            let to = entries@;
            assert forall|a: int, b: int| 0 <= a < b < to.len() implies (#[trigger] to[a]).0@ != (
            #[trigger] to[b]).0@ by {
                assert(from[a].0@ != from[b].0@);
            }
            assert forall|k: Seq<char>| assoc(to).contains_key(k) <==> assoc(from).contains_key(
                k,
            ) by {
                lemma_assoc_contains(from, k);
                lemma_assoc_contains(to, k);
                if assoc(from).contains_key(k) {
                    let a = choose|a: int| position(from, k, a);
                    assert(position(to, k, a));
                }
                if assoc(to).contains_key(k) {
                    let a = choose|a: int| position(to, k, a);
                    assert(position(from, k, a));
                }
            }
            assert(assoc(to).dom() =~= assoc(from).dom());
            assert forall|k: Seq<char>| #[trigger] assoc(to).contains_key(k) implies cloned(
                assoc(from)[k],
                assoc(to)[k],
            ) by {
                lemma_assoc_contains(to, k);
                let a = choose|a: int| position(to, k, a);
                lemma_assoc_value(to, a);
                lemma_assoc_value(from, a);
            }
        }
        TextMap { entries }
    }
}

} // verus!
