//! A map from strings to values that keeps its keys in the order in which
//! they were first inserted.

use vstd::prelude::*;
use vstd::string::*;

verus! {

/// Whether no two entries of `entries` have the same key.
pub open spec fn distinct_keys<T>(entries: Seq<(Seq<char>, T)>) -> bool {
    forall|i: int, j: int|
        0 <= i < j < entries.len() ==> (#[trigger] entries[i]).0 != (#[trigger] entries[j]).0
}

/// Where `key` stands in `entries`: the position of the first entry with that
/// key, or the length of `entries` where there is none.
pub open spec fn position_of<T>(entries: Seq<(Seq<char>, T)>, key: Seq<char>) -> int
    decreases entries.len(),
{
    if entries.len() == 0 || entries[0].0 == key {
        0
    } else {
        1 + position_of(entries.drop_first(), key)
    }
}

/// The value that `entries` holds for `key`, if it holds one.
pub open spec fn value_of<T>(entries: Seq<(Seq<char>, T)>, key: Seq<char>) -> Option<T> {
    let at = position_of(entries, key);
    if at < entries.len() {
        Some(entries[at].1)
    } else {
        None
    }
}

/// `entries` after `key` has been given `value`: an entry that has the key
/// keeps its place and takes the value, and a new key goes to the end.
pub open spec fn put<T>(entries: Seq<(Seq<char>, T)>, key: Seq<char>, value: T) -> Seq<
    (Seq<char>, T),
> {
    let at = position_of(entries, key);
    if at < entries.len() {
        entries.update(at, (key, value))
    } else {
        entries.push((key, value))
    }
}

/// The mapping that `entries` stands for; of two entries with one key the
/// later one counts.
pub open spec fn as_map<T>(entries: Seq<(Seq<char>, T)>) -> Map<Seq<char>, T>
    decreases entries.len(),
{
    if entries.len() == 0 {
        Map::empty()
    } else {
        as_map(entries.drop_last()).insert(entries.last().0, entries.last().1)
    }
}

/// `position_of` said without recursion: it is the one position that holds the
/// key and has no entry with the key before it, or the length.
pub proof fn lemma_position_of<T>(entries: Seq<(Seq<char>, T)>, key: Seq<char>)
    ensures
        0 <= position_of(entries, key) <= entries.len(),
        forall|i: int| 0 <= i < position_of(entries, key) ==> (#[trigger] entries[i]).0 != key,
        position_of(entries, key) < entries.len() ==> entries[position_of(entries, key)].0 == key,
    decreases entries.len(),
{
    if entries.len() == 0 || entries[0].0 == key {
    } else {
        let rest = entries.drop_first();
        lemma_position_of(rest, key);
        let at = position_of(rest, key);
        assert forall|i: int| 0 <= i < at + 1 implies (#[trigger] entries[i]).0 != key by {
            if i > 0 {
                assert(entries[i] == rest[i - 1]);
            }
        }
    }
}

/// A position that holds the key, with no entry with the key before it, is
/// the key's position.
pub proof fn lemma_position_found<T>(entries: Seq<(Seq<char>, T)>, key: Seq<char>, at: int)
    requires
        0 <= at <= entries.len(),
        forall|i: int| 0 <= i < at ==> (#[trigger] entries[i]).0 != key,
        at < entries.len() ==> entries[at].0 == key,
    ensures
        position_of(entries, key) == at,
{
    lemma_position_of(entries, key);
    let found = position_of(entries, key);
    if found < at {
        assert(entries[found].0 != key);
    } else if at < found {
        assert(entries[at].0 != key);
    }
}

/// Giving a key a value keeps the keys distinct.
pub proof fn lemma_put_keeps_keys_distinct<T>(
    entries: Seq<(Seq<char>, T)>,
    key: Seq<char>,
    value: T,
)
    requires
        distinct_keys(entries),
    ensures
        distinct_keys(put(entries, key, value)),
{
    lemma_position_of(entries, key);
    let at = position_of(entries, key);
    let after = put(entries, key, value);
    assert forall|i: int, j: int| 0 <= i < j < after.len() implies (#[trigger] after[i]).0 != (
    #[trigger] after[j]).0 by {
        if at < entries.len() {
            assert(after[i].0 == entries[i].0);
            assert(after[j].0 == entries[j].0);
        } else if j == entries.len() {
            assert(after[i] == entries[i]);
        } else {
            assert(after[i] == entries[i]);
            assert(after[j] == entries[j]);
        }
    }
}

/// Whether some entry of `entries` has the key `key`.
pub open spec fn has_key<T>(entries: Seq<(Seq<char>, T)>, key: Seq<char>) -> bool {
    exists|i: int| 0 <= i < entries.len() && (#[trigger] entries[i]).0 == key
}

/// The mapping that entries stand for holds exactly the keys of the entries.
pub proof fn lemma_as_map_keys<T>(entries: Seq<(Seq<char>, T)>, key: Seq<char>)
    ensures
        as_map(entries).contains_key(key) <==> has_key(entries, key),
    decreases entries.len(),
{
    if entries.len() > 0 {
        let front = entries.drop_last();
        lemma_as_map_keys(front, key);
        if entries.last().0 == key {
            assert(entries[entries.len() - 1].0 == key);
        } else if has_key(front, key) {
            let i = choose|i: int| 0 <= i < front.len() && (#[trigger] front[i]).0 == key;
            assert(entries[i] == front[i]);
        } else if has_key(entries, key) {
            let i = choose|i: int| 0 <= i < entries.len() && (#[trigger] entries[i]).0 == key;
            assert(front[i] == entries[i]);
        }
    }
}

/// The mapping that entries stand for gives a key the value of the last entry
/// that has it.
pub proof fn lemma_as_map_value<T>(entries: Seq<(Seq<char>, T)>, key: Seq<char>, at: int)
    requires
        0 <= at < entries.len(),
        entries[at].0 == key,
        forall|j: int| at < j < entries.len() ==> (#[trigger] entries[j]).0 != key,
    ensures
        as_map(entries).contains_key(key),
        as_map(entries)[key] == entries[at].1,
    decreases entries.len(),
{
    let front = entries.drop_last();
    if at < entries.len() - 1 {
        assert(entries[entries.len() - 1].0 != key);
        assert(front[at] == entries[at]);
        assert forall|j: int| at < j < front.len() implies (#[trigger] front[j]).0 != key by {
            assert(front[j] == entries[j]);
        }
        lemma_as_map_value(front, key, at);
    }
}

/// With distinct keys, looking a key up in the entries and in the mapping
/// that they stand for gives the same.
pub proof fn lemma_value_of_is_lookup<T>(entries: Seq<(Seq<char>, T)>, key: Seq<char>)
    requires
        distinct_keys(entries),
    ensures
        value_of(entries, key) == (if as_map(entries).contains_key(key) {
            Some(as_map(entries)[key])
        } else {
            None::<T>
        }),
{
    lemma_position_of(entries, key);
    lemma_as_map_keys(entries, key);
    let at = position_of(entries, key);
    if at < entries.len() {
        assert forall|j: int| at < j < entries.len() implies (#[trigger] entries[j]).0 != key by {
            assert(entries[at].0 != entries[j].0);
        }
        lemma_as_map_value(entries, key, at);
    } else if has_key(entries, key) {
        let i = choose|i: int| 0 <= i < entries.len() && (#[trigger] entries[i]).0 == key;
        assert(entries[i].0 != key);
    }
}

/// With distinct keys, giving a key a value is an insertion into the mapping
/// that the entries stand for.
pub proof fn lemma_put_is_insert<T>(entries: Seq<(Seq<char>, T)>, key: Seq<char>, value: T)
    requires
        distinct_keys(entries),
    ensures
        as_map(put(entries, key, value)) == as_map(entries).insert(key, value),
{
    let after = put(entries, key, value);
    let at = position_of(entries, key);
    lemma_position_of(entries, key);
    lemma_put_keeps_keys_distinct(entries, key, value);
    let inserted = as_map(entries).insert(key, value);
    assert forall|k: Seq<char>| #![trigger as_map(after).dom().contains(k)]
        as_map(after).dom().contains(k) == inserted.dom().contains(k) && (as_map(
            after,
        ).dom().contains(k) ==> as_map(after)[k] == inserted[k]) by {
        lemma_value_of_is_lookup(after, k);
        lemma_value_of_is_lookup(entries, k);
        lemma_position_of(entries, k);
        lemma_position_of(after, k);
        let was = position_of(entries, k);
        if k == key {
            if at < entries.len() {
                lemma_position_found(after, k, at);
            } else {
                assert forall|i: int| 0 <= i < entries.len() implies (#[trigger] after[i]).0
                    != k by {
                    assert(after[i] == entries[i]);
                }
                lemma_position_found(after, k, entries.len() as int);
            }
        } else {
            if was < entries.len() {
                assert forall|i: int| 0 <= i < was implies (#[trigger] after[i]).0 != k by {
                    assert(after[i].0 == entries[i].0);
                }
                assert(after[was] == entries[was]);
                lemma_position_found(after, k, was);
            } else {
                assert forall|i: int| 0 <= i < after.len() implies (#[trigger] after[i]).0
                    != k by {
                    if i < entries.len() {
                        assert(after[i].0 == entries[i].0);
                    }
                }
                lemma_position_found(after, k, after.len() as int);
            }
        }
    }
    assert(as_map(after) =~= inserted);
}

/// A map from strings to values. Its view is the sequence of its entries,
/// each a key's text and the value's view, in the order in which the keys were
/// first inserted; no key occurs twice.
#[derive(Debug)]
pub struct StringMap<V> {
    entries: Vec<(String, V)>,
}

impl<V: DeepView> View for StringMap<V> {
    type V = Seq<(Seq<char>, V::V)>;

    closed spec fn view(&self) -> Seq<(Seq<char>, V::V)> {
        self.entries.deep_view()
    }
}

impl<V> StringMap<V> {
    #[verifier::type_invariant]
    spec fn keys_are_distinct(&self) -> bool {
        forall|i: int, j: int|
            0 <= i < j < self.entries@.len() ==> (#[trigger] self.entries@[i]).0@ != (
            #[trigger] self.entries@[j]).0@
    }
}

impl<V: DeepView + Clone> Clone for StringMap<V> {
    fn clone(&self) -> (copy: StringMap<V>)
        ensures
            copy@.len() == self@.len(),
            forall|i: int| 0 <= i < self@.len() ==> (#[trigger] copy@[i]).0 == self@[i].0,
    {
        proof {
            use_type_invariant(self);
        }
        let mut entries: Vec<(String, V)> = Vec::new();
        let mut at: usize = 0;
        while at < self.entries.len()
            invariant
                at <= self.entries.len(),
                entries@.len() == at,
                forall|i: int| 0 <= i < at ==> (#[trigger] entries@[i]).0@ == self.entries@[i].0@,
            decreases self.entries.len() - at,
        {
            entries.push((self.entries[at].0.clone(), self.entries[at].1.clone()));
            at = at + 1;
        }
        let copy = StringMap { entries };
        assert forall|i: int| 0 <= i < self@.len() implies (#[trigger] copy@[i]).0 == self@[i].0 by {
            assert(copy@[i].0 == copy.entries@[i].0@);
        }
        copy
    }
}

impl<V: DeepView> Default for StringMap<V> {
    fn default() -> (map: StringMap<V>)
        ensures
            map@ == Seq::<(Seq<char>, V::V)>::empty(),
    {
        StringMap::new()
    }
}

impl<V: DeepView> StringMap<V> {
    /// The keys of every map are distinct.
    proof fn keys_distinct(&self)
        requires
            self.keys_are_distinct(),
        ensures
            distinct_keys(self@),
    {
        assert forall|i: int, j: int| 0 <= i < j < self@.len() implies (#[trigger] self@[i]).0 != (
        #[trigger] self@[j]).0 by {
            assert(self@[i].0 == self.entries@[i].0@);
            assert(self@[j].0 == self.entries@[j].0@);
        }
    }

    /// The mapping that this map stands for.
    pub open spec fn mapping(&self) -> Map<Seq<char>, V::V> {
        as_map(self@)
    }

    /// A map without entries.
    pub fn new() -> (map: StringMap<V>)
        ensures
            map@ == Seq::<(Seq<char>, V::V)>::empty(),
    {
        let map = StringMap { entries: Vec::new() };
        assert(map.entries.deep_view() =~= Seq::<(Seq<char>, V::V)>::empty());
        map
    }

    /// The number of entries.
    pub fn len(&self) -> (n: usize)
        ensures
            n == self@.len(),
            distinct_keys(self@),
    {
        proof {
            use_type_invariant(self);
            self.keys_distinct();
        }
        self.entries.len()
    }

    /// Whether the map has no entries.
    pub fn is_empty(&self) -> (empty: bool)
        ensures
            empty == (self@.len() == 0),
    {
        self.entries.len() == 0
    }

    /// The key of the entry at position `at`.
    pub fn key_at(&self, at: usize) -> (key: &String)
        requires
            at < self@.len(),
        ensures
            key@ == self@[at as int].0,
    {
        &self.entries[at].0
    }

    /// The value of the entry at position `at`.
    pub fn value_at(&self, at: usize) -> (value: &V)
        requires
            at < self@.len(),
        ensures
            value.deep_view() == self@[at as int].1,
    {
        &self.entries[at].1
    }

    /// Where `key` stands among the entries, or the number of entries where
    /// the map does not hold it.
    fn find(&self, key: &String) -> (at: usize)
        ensures
            at == position_of(self@, key@),
            at <= self@.len(),
    {
        let mut at: usize = 0;
        while at < self.entries.len()
            invariant
                at <= self.entries.len(),
                forall|i: int| 0 <= i < at ==> (#[trigger] self@[i]).0 != key@,
            decreases self.entries.len() - at,
        {
            if self.entries[at].0 == *key {
                proof {
                    lemma_position_found(self@, key@, at as int);
                }
                return at;
            }
            at = at + 1;
        }
        proof {
            lemma_position_found(self@, key@, at as int);
        }
        at
    }

    /// Whether the map holds `key`.
    pub fn contains_key(&self, key: &str) -> (held: bool)
        ensures
            held == (value_of(self@, key@) is Some),
    {
        let owned = key.to_owned();
        self.find(&owned) < self.entries.len()
    }

    /// The value that the map holds for `key`, if it holds one.
    pub fn get(&self, key: &str) -> (value: Option<&V>)
        ensures
            value.deep_view() == value_of(self@, key@),
    {
        let owned = key.to_owned();
        let at = self.find(&owned);
        if at < self.entries.len() {
            Some(&self.entries[at].1)
        } else {
            None
        }
    }

    /// Gives `key` the value `value` and returns the value that it had.
    pub fn insert(&mut self, key: String, value: V) -> (previous: Option<V>)
        ensures
            final(self)@ == put(old(self)@, key@, value.deep_view()),
            previous.deep_view() == value_of(old(self)@, key@),
            distinct_keys(final(self)@),
    {
        proof {
            use_type_invariant(&*self);
            self.keys_distinct();
            lemma_put_keeps_keys_distinct(self@, key@, value.deep_view());
        }
        let at = self.find(&key);
        let ghost before = self@;
        let mut entries: Vec<(String, V)> = Vec::new();
        std::mem::swap(&mut entries, &mut self.entries);
        assert(entries.deep_view() == before);
        let previous = if at < entries.len() {
            let replaced = entries.remove(at);
            entries.insert(at, (key, value));
            assert(entries.deep_view() =~= before.update(at as int, (key@, value.deep_view())));
            Some(replaced.1)
        } else {
            entries.push((key, value));
            assert(entries.deep_view() =~= before.push((key@, value.deep_view())));
            None
        };
        proof {
            let after = entries.deep_view();
            assert forall|i: int, j: int| 0 <= i < j < entries@.len() implies (
            #[trigger] entries@[i]).0@ != (#[trigger] entries@[j]).0@ by {
                assert(after[i].0 == entries@[i].0@);
                assert(after[j].0 == entries@[j].0@);
            }
        }
        self.entries = entries;
        previous
    }
}

} // verus!
