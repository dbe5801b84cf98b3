//! Maps from texts to texts, kept in the order in which their keys came.

use vstd::prelude::*;

verus! {

/// The texts of a pair of strings.
pub open spec fn pair_view(pair: (String, String)) -> (Seq<char>, Seq<char>) {
    (pair.0@, pair.1@)
}

/// The texts of pairs of strings.
pub open spec fn pairs_view(pairs: Seq<(String, String)>) -> Seq<(Seq<char>, Seq<char>)> {
    pairs.map_values(|pair: (String, String)| pair_view(pair))
}

/// The map that pairs make, where of two pairs with one key the later counts.
pub open spec fn pairs_map(pairs: Seq<(Seq<char>, Seq<char>)>) -> Map<Seq<char>, Seq<char>>
    decreases pairs.len(),
{
    if pairs.len() == 0 {
        Map::empty()
    } else {
        pairs_map(pairs.drop_last()).insert(pairs.last().0, pairs.last().1)
    }
}

/// Whether no key occurs twice.
pub open spec fn distinct_keys(pairs: Seq<(Seq<char>, Seq<char>)>) -> bool {
    forall|i: int, j: int|
        0 <= i < j < pairs.len() ==> (#[trigger] pairs[i]).0 != (#[trigger] pairs[j]).0
}

/// A map from texts to texts.
#[derive(Debug)]
pub struct TextMap {
    entries: Vec<(String, String)>,
}

impl View for TextMap {
    type V = Map<Seq<char>, Seq<char>>;

    closed spec fn view(&self) -> Map<Seq<char>, Seq<char>> {
        pairs_map(self.list())
    }
}

proof fn lemma_pairs_map_keys(pairs: Seq<(Seq<char>, Seq<char>)>, key: Seq<char>)
    ensures
        pairs_map(pairs).contains_key(key) <==> exists|i: int|
            0 <= i < pairs.len() && (#[trigger] pairs[i]).0 == key,
    decreases pairs.len(),
{
    if pairs.len() > 0 {
        let rest = pairs.drop_last();
        lemma_pairs_map_keys(rest, key);
        if pairs_map(pairs).contains_key(key) {
            if pairs.last().0 == key {
                assert(pairs[pairs.len() - 1].0 == key);
            } else {
                let i = choose|i: int| 0 <= i < rest.len() && (#[trigger] rest[i]).0 == key;
                assert(pairs[i].0 == key);
            }
        }
        if exists|i: int| 0 <= i < pairs.len() && (#[trigger] pairs[i]).0 == key {
            let i = choose|i: int| 0 <= i < pairs.len() && (#[trigger] pairs[i]).0 == key;
            if i < pairs.len() - 1 {
                assert(rest[i].0 == key);
            }
        }
    }
}

/// A key that occurs once has the value that it came with.
pub proof fn lemma_pairs_map_lookup(pairs: Seq<(Seq<char>, Seq<char>)>, i: int)
    requires
        distinct_keys(pairs),
        0 <= i < pairs.len(),
    ensures
        pairs_map(pairs).contains_key(pairs[i].0),
        pairs_map(pairs)[pairs[i].0] == pairs[i].1,
    decreases pairs.len(),
{
    let rest = pairs.drop_last();
    if i < pairs.len() - 1 {
        assert(distinct_keys(rest)) by {
            assert forall|a: int, b: int| 0 <= a < b < rest.len() implies (#[trigger] rest[a]).0 != (
            #[trigger] rest[b]).0 by {
                assert(pairs[a].0 != pairs[b].0);
            }
        }
        lemma_pairs_map_lookup(rest, i);
        assert(rest[i] == pairs[i]);
        assert(pairs[i].0 != pairs[pairs.len() - 1].0);
    }
}

proof fn lemma_pairs_map_update(pairs: Seq<(Seq<char>, Seq<char>)>, i: int, value: Seq<char>)
    requires
        distinct_keys(pairs),
        0 <= i < pairs.len(),
    ensures
        distinct_keys(pairs.update(i, (pairs[i].0, value))),
        pairs_map(pairs.update(i, (pairs[i].0, value))) == pairs_map(pairs).insert(
            pairs[i].0,
            value,
        ),
    decreases pairs.len(),
{
    let changed = pairs.update(i, (pairs[i].0, value));
    assert forall|a: int, b: int| 0 <= a < b < changed.len() implies (#[trigger] changed[a]).0 != (
    #[trigger] changed[b]).0 by {
        assert(pairs[a].0 != pairs[b].0);
    }
    let rest = pairs.drop_last();
    if i == pairs.len() - 1 {
        assert(changed.drop_last() =~= rest);
        assert(pairs_map(changed) =~= pairs_map(pairs).insert(pairs[i].0, value));
    } else {
        assert(distinct_keys(rest)) by {
            assert forall|a: int, b: int| 0 <= a < b < rest.len() implies (#[trigger] rest[a]).0 != (
            #[trigger] rest[b]).0 by {
                assert(pairs[a].0 != pairs[b].0);
            }
        }
        lemma_pairs_map_update(rest, i, value);
        assert(changed.drop_last() =~= rest.update(i, (rest[i].0, value)));
        assert(pairs[i].0 != pairs[pairs.len() - 1].0);
        assert(pairs_map(changed) =~= pairs_map(pairs).insert(pairs[i].0, value));
    }
}

proof fn lemma_pairs_map_push(pairs: Seq<(Seq<char>, Seq<char>)>, key: Seq<char>, value: Seq<char>)
    requires
        distinct_keys(pairs),
        forall|i: int| 0 <= i < pairs.len() ==> (#[trigger] pairs[i]).0 != key,
    ensures
        distinct_keys(pairs.push((key, value))),
        pairs_map(pairs.push((key, value))) == pairs_map(pairs).insert(key, value),
{
    let longer = pairs.push((key, value));
    assert(longer.drop_last() =~= pairs);
    assert forall|a: int, b: int| 0 <= a < b < longer.len() implies (#[trigger] longer[a]).0 != (
    #[trigger] longer[b]).0 by {
        if b < pairs.len() {
            assert(pairs[a].0 != pairs[b].0);
        } else {
            assert(pairs[a].0 != key);
        }
    }
}

/// The list that putting a pair into a list with distinct keys gives: in the
/// place of the pair with that key, or at the end.
pub open spec fn with_pair(
    pairs: Seq<(Seq<char>, Seq<char>)>,
    key: Seq<char>,
    value: Seq<char>,
) -> Seq<(Seq<char>, Seq<char>)> {
    if exists|i: int| 0 <= i < pairs.len() && (#[trigger] pairs[i]).0 == key {
        let i = choose|i: int| 0 <= i < pairs.len() && (#[trigger] pairs[i]).0 == key;
        pairs.update(i, (key, value))
    } else {
        pairs.push((key, value))
    }
}

impl TextMap {
    /// The pairs in the order in which their keys came.
    pub closed spec fn list(self) -> Seq<(Seq<char>, Seq<char>)> {
        pairs_view(self.entries@)
    }

    /// Whether no key occurs twice.
    #[verifier::type_invariant]
    pub open spec fn keys_are_distinct(self) -> bool {
        distinct_keys(self.list())
    }

    /// An empty map.
    pub fn new() -> (map: TextMap)
        ensures
            map.list() == Seq::<(Seq<char>, Seq<char>)>::empty(),
            map@ == Map::<Seq<char>, Seq<char>>::empty(),
    {
        let entries: Vec<(String, String)> = Vec::new();
        assert(pairs_view(entries@) =~= Seq::<(Seq<char>, Seq<char>)>::empty());
        TextMap { entries }
    }

    /// The number of keys.
    pub fn len(&self) -> (len: usize)
        ensures
            len == self.list().len(),
    {
        self.entries.len()
    }

    /// Whether there is no key.
    pub fn is_empty(&self) -> (empty: bool)
        ensures
            empty == (self.list().len() == 0),
    {
        self.entries.len() == 0
    }

    /// A key, by its place.
    pub fn key_at(&self, index: usize) -> (key: &String)
        requires
            index < self.list().len(),
        ensures
            key@ == self.list()[index as int].0,
            self@.contains_key(key@),
    {
        proof {
            use_type_invariant(self);
            lemma_pairs_map_lookup(self.list(), index as int);
        }
        &self.entries[index].0
    }

    /// The value of a key, by the key's place.
    pub fn value_at(&self, index: usize) -> (value: &String)
        requires
            index < self.list().len(),
        ensures
            value@ == self.list()[index as int].1,
            self@[self.list()[index as int].0] == value@,
    {
        proof {
            use_type_invariant(self);
            lemma_pairs_map_lookup(self.list(), index as int);
        }
        &self.entries[index].1
    }

    /// The value of a key.
    pub fn get(&self, key: &str) -> (value: Option<&String>)
        ensures
            match value {
                Some(value) => self@.contains_key(key@) && self@[key@] == value@,
                None => !self@.contains_key(key@),
            },
    {
        proof {
            use_type_invariant(self);
            lemma_pairs_map_keys(self.list(), key@);
        }
        let wanted = key.to_owned();
        let mut i: usize = 0;
        while i < self.entries.len()
            invariant
                i <= self.entries.len(),
                wanted@ == key@,
                distinct_keys(self.list()),
                forall|j: int| 0 <= j < i ==> (#[trigger] self.list()[j]).0 != key@,
            decreases self.entries.len() - i,
        {
            assert(self.list()[i as int] == pair_view(self.entries@[i as int]));
            if self.entries[i].0 == wanted {
                proof {
                    lemma_pairs_map_lookup(self.list(), i as int);
                }
                return Some(&self.entries[i].1);
            }
            i = i + 1;
        }
        None
    }

    /// Whether there is a key.
    pub fn contains_key(&self, key: &str) -> (found: bool)
        ensures
            found == self@.contains_key(key@),
    {
        self.get(key).is_some()
    }

    /// The map with one more pair. The pair takes the place of one with its key.
    pub fn with(self, key: String, value: String) -> (map: TextMap)
        ensures
            map.list() == with_pair(self.list(), key@, value@),
            map@ == self@.insert(key@, value@),
    {
        proof {
            use_type_invariant(&self);
        }
        let ghost before = self.list();
        let mut entries = self.entries;
        let mut i: usize = 0;
        while i < entries.len()
            invariant
                i <= entries.len(),
                pairs_view(entries@) == before,
                before == self.list(),
                distinct_keys(before),
                forall|j: int| 0 <= j < i ==> (#[trigger] before[j]).0 != key@,
            decreases entries.len() - i,
        {
            assert(before[i as int] == pair_view(entries@[i as int]));
            if entries[i].0 == key {
                proof {
                    let place = choose|j: int| 0 <= j < before.len() && (#[trigger] before[j]).0
                        == key@;
                    assert(before[i as int].0 == key@);
                    assert(place == i) by {
                        if place < i {
                            assert(before[place].0 != before[i as int].0);
                        }
                        if i < place {
                            assert(before[i as int].0 != before[place].0);
                        }
                    }
                    lemma_pairs_map_update(before, i as int, value@);
                }
                entries.set(i, (key, value));
                assert(pairs_view(entries@) =~= before.update(i as int, (key@, value@)));
                return TextMap { entries };
            }
            i = i + 1;
        }
        proof {
            lemma_pairs_map_push(before, key@, value@);
        }
        entries.push((key, value));
        assert(pairs_view(entries@) =~= before.push((key@, value@)));
        TextMap { entries }
    }

    /// The map that pairs make, where of two pairs with one key the later counts.
    pub fn from_pairs(pairs: Vec<(String, String)>) -> (map: TextMap)
        ensures
            map@ == pairs_map(pairs_view(pairs@)),
            (map.list().len() == 0) == (pairs@.len() == 0),
    {
        let mut map = TextMap::new();
        let mut rest = pairs;
        let ghost mut done: int = 0;
        assert(pairs_view(pairs@).take(0) =~= Seq::<(Seq<char>, Seq<char>)>::empty());
        while rest.len() > 0
            invariant
                0 <= done <= pairs@.len(),
                rest@ == pairs@.skip(done),
                map@ == pairs_map(pairs_view(pairs@).take(done)),
                (map.list().len() == 0) == (done == 0),
            decreases rest.len(),
        {
            let (key, value) = rest.remove(0);
            map = map.with(key, value);
            proof {
                let all = pairs_view(pairs@);
                assert(all[done] == (key@, value@));
                assert(all.take(done + 1).drop_last() =~= all.take(done));
                done = done + 1;
                assert(rest@ =~= pairs@.skip(done));
            }
        }
        assert(pairs_view(pairs@).take(done) =~= pairs_view(pairs@));
        map
    }

    /// The values, in the order in which their keys came.
    pub fn values(&self) -> (values: Vec<String>)
        ensures
            values@.len() == self.list().len(),
            forall|i: int| 0 <= i < values@.len() ==> (#[trigger] values@[i])@ == self.list()[i].1,
    {
        let mut values: Vec<String> = Vec::new();
        let mut i: usize = 0;
        while i < self.entries.len()
            invariant
                i <= self.entries.len(),
                values@.len() == i,
                forall|j: int| 0 <= j < i ==> (#[trigger] values@[j])@ == self.list()[j].1,
            decreases self.entries.len() - i,
        {
            values.push(self.entries[i].1.clone());
            i = i + 1;
        }
        values
    }
}

impl Clone for TextMap {
    fn clone(&self) -> (copy: Self)
        ensures
            copy.list() == self.list(),
            copy@ == self@,
    {
        proof {
            use_type_invariant(self);
        }
        let mut entries: Vec<(String, String)> = Vec::new();
        let mut i: usize = 0;
        while i < self.entries.len()
            invariant
                i <= self.entries.len(),
                entries@.len() == i,
                forall|j: int|
                    0 <= j < i ==> pair_view(#[trigger] entries@[j]) == pair_view(self.entries@[j]),
            decreases self.entries.len() - i,
        {
            entries.push((self.entries[i].0.clone(), self.entries[i].1.clone()));
            i = i + 1;
        }
        assert(pairs_view(entries@) =~= pairs_view(self.entries@));
        TextMap { entries }
    }
}

} // verus!
