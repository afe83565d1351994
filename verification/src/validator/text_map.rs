//! A small map from text to text: the shape of a tag's attribute list and of a playlist's
//! variable definitions.

use vstd::prelude::*;
use vstd::string::StringExecFns;

verus! {

/// What a list of name/value pairs says once each later pair has replaced any earlier
/// pair of the same name.
pub open spec fn spec_pairs_map(pairs: Seq<(Seq<char>, Seq<char>)>) -> Map<Seq<char>, Seq<char>>
    decreases pairs.len(),
{
    if pairs.len() == 0 {
        Map::empty()
    } else {
        spec_pairs_map(pairs.drop_last()).insert(pairs.last().0, pairs.last().1)
    }
}

/// No name occurs twice.
pub open spec fn spec_names_distinct(pairs: Seq<(Seq<char>, Seq<char>)>) -> bool {
    forall|i: int, j: int| 0 <= i < j < pairs.len() ==> pairs[i].0 != pairs[j].0
}

/// In a list whose names are distinct, each pair is what the map says of its name.
pub proof fn lemma_pairs_map_at(pairs: Seq<(Seq<char>, Seq<char>)>, i: int)
    requires
        spec_names_distinct(pairs),
        0 <= i < pairs.len(),
    ensures
        spec_pairs_map(pairs).contains_key(pairs[i].0),
        spec_pairs_map(pairs)[pairs[i].0] == pairs[i].1,
    decreases pairs.len(),
{
    if i < pairs.len() - 1 {
        lemma_pairs_map_at(pairs.drop_last(), i);
    }
}

/// A name that no pair carries is not in the map, and a name in the map is carried by a
/// pair.
pub proof fn lemma_pairs_map_domain(pairs: Seq<(Seq<char>, Seq<char>)>, k: Seq<char>)
    ensures
        spec_pairs_map(pairs).contains_key(k) <==> exists|i: int| 0 <= i < pairs.len() && pairs[i].0 == k,
    decreases pairs.len(),
{
    if pairs.len() > 0 {
        lemma_pairs_map_domain(pairs.drop_last(), k);
        if spec_pairs_map(pairs).contains_key(k) && k != pairs.last().0 {
            let i = choose|i: int| 0 <= i < pairs.drop_last().len() && pairs.drop_last()[i].0 == k;
            assert(pairs[i].0 == k);
        }
        if exists|i: int| 0 <= i < pairs.len() && pairs[i].0 == k {
            let i = choose|i: int| 0 <= i < pairs.len() && pairs[i].0 == k;
            if i < pairs.len() - 1 {
                assert(pairs.drop_last()[i].0 == k);
            }
        }
    }
}

/// A text-to-text map. Each name is held once; a later value of a name replaces the
/// earlier one.
#[derive(Debug)]
pub struct TextMap {
    entries: Vec<(String, String)>,
}

impl TextMap {
    /// The entries as name/value texts, in the order they were first inserted.
    pub closed spec fn pairs(self) -> Seq<(Seq<char>, Seq<char>)> {
        self.entries@.map_values(|p: (String, String)| (p.0@, p.1@))
    }

    #[verifier::type_invariant]
    closed spec fn names_distinct(self) -> bool {
        spec_names_distinct(self.pairs())
    }
}

impl Clone for TextMap {
    fn clone(&self) -> (r: TextMap)
        ensures
            r.pairs() == self.pairs(),
    {
        proof {
            use_type_invariant(self);
        }
        let mut entries: Vec<(String, String)> = Vec::new();
        let mut i: usize = 0;
        while i < self.entries.len()
            invariant
                i <= self.entries@.len(),
                entries@.len() == i,
                forall|j: int| 0 <= j < i ==> (#[trigger] entries@[j]).0@ == self.entries@[j].0@ && entries@[j].1@ == self.entries@[j].1@,
            decreases self.entries.len() - i,
        {
            entries.push((self.entries[i].0.clone(), self.entries[i].1.clone()));
            i = i + 1;
        }
        let ghost after = entries@.map_values(|p: (String, String)| (p.0@, p.1@));
        assert(after =~= self.pairs());
        TextMap { entries }
    }
}

impl View for TextMap {
    type V = Map<Seq<char>, Seq<char>>;

    open spec fn view(&self) -> Map<Seq<char>, Seq<char>> {
        spec_pairs_map(self.pairs())
    }
}

impl TextMap {
    /// An empty map.
    pub fn new() -> (r: TextMap)
        ensures
            r@ == Map::<Seq<char>, Seq<char>>::empty(),
    {
        let r = TextMap { entries: Vec::new() };
        assert(r.pairs().len() == 0);
        r
    }

    /// The position of `name` among the entries, if it is there.
    fn position(&self, name: &str) -> (r: Option<usize>)
        ensures
            match r {
                Some(i) => i < self.pairs().len() && self.pairs()[i as int].0 == name@,
                None => forall|i: int| 0 <= i < self.pairs().len() ==> self.pairs()[i].0 != name@,
            },
    {
        let mut i: usize = 0;
        while i < self.entries.len()
            invariant
                i <= self.entries@.len(),
                self.pairs().len() == self.entries@.len(),
                forall|j: int| 0 <= j < i ==> self.pairs()[j].0 != name@,
            decreases self.entries.len() - i,
        {
            if crate::query_codec::str_equals(self.entries[i].0.as_str(), name) {
                return Some(i);
            }
            i = i + 1;
        }
        None
    }

    /// The value of `name`, if the map has one.
    pub fn get(&self, name: &str) -> (r: Option<&String>)
        ensures
            match r {
                Some(v) => self@.contains_key(name@) && self@[name@] == v@,
                None => !self@.contains_key(name@),
            },
    {
        proof {
            use_type_invariant(self);
        }
        match self.position(name) {
            Some(i) => {
                proof {
                    lemma_pairs_map_at(self.pairs(), i as int);
                }
                Some(&self.entries[i].1)
            },
            None => {
                proof {
                    lemma_pairs_map_domain(self.pairs(), name@);
                }
                None
            },
        }
    }

    /// Whether the map has a value for `name`.
    pub fn contains_key(&self, name: &str) -> (r: bool)
        ensures
            r == self@.contains_key(name@),
    {
        self.get(name).is_some()
    }

    /// Whether the map has no entry at all.
    pub fn is_empty(&self) -> (r: bool)
        ensures
            r == (self@ == Map::<Seq<char>, Seq<char>>::empty()),
    {
        proof {
            use_type_invariant(self);
        }
        if self.entries.len() == 0 {
            assert(self.pairs().len() == 0);
            true
        } else {
            proof {
                lemma_pairs_map_at(self.pairs(), 0);
                assert(!Map::<Seq<char>, Seq<char>>::empty().contains_key(self.pairs()[0].0));
            }
            false
        }
    }

    /// Sets the value of `name`, replacing any value it had.
    pub fn insert(&mut self, name: String, value: String)
        ensures
            final(self)@ == old(self)@.insert(name@, value@),
    {
        proof {
            use_type_invariant(&*self);
        }
        let ghost before = self.pairs();
        match self.position(name.as_str()) {
            Some(i) => {
                let ghost k = name@;
                let ghost v = value@;
                let mut entries: Vec<(String, String)> = Vec::new();
                std::mem::swap(&mut entries, &mut self.entries);
                entries.set(i, (name, value));
                proof {
                    let after = entries@.map_values(|p: (String, String)| (p.0@, p.1@));
                    assert(after =~= before.update(i as int, (k, v)));
                    assert forall|x: int, y: int| 0 <= x < y < after.len() implies after[x].0 != after[y].0 by {
                    }
                }
                self.entries = entries;
                proof {
                    let after = self.pairs();
                    assert(after =~= before.update(i as int, (k, v)));
                    assert forall|x: int, y: int| 0 <= x < y < after.len() implies after[x].0 != after[y].0 by {
                    }
                    assert forall|key: Seq<char>| #[trigger] spec_pairs_map(after).contains_key(key) <==> spec_pairs_map(before).insert(k, v).contains_key(key) by {
                        lemma_pairs_map_domain(after, key);
                        lemma_pairs_map_domain(before, key);
                        if key == k {
                            lemma_pairs_map_at(after, i as int);
                        } else {
                            if spec_pairs_map(before).contains_key(key) {
                                let j = choose|j: int| 0 <= j < before.len() && before[j].0 == key;
                                assert(after[j].0 == key);
                            }
                            if spec_pairs_map(after).contains_key(key) {
                                let j = choose|j: int| 0 <= j < after.len() && after[j].0 == key;
                                assert(before[j].0 == key);
                            }
                        }
                    }
                    assert forall|key: Seq<char>| #[trigger] spec_pairs_map(after).contains_key(key) implies spec_pairs_map(after)[key] == spec_pairs_map(before).insert(k, v)[key] by {
                        lemma_pairs_map_domain(after, key);
                        let j = choose|j: int| 0 <= j < after.len() && after[j].0 == key;
                        lemma_pairs_map_at(after, j);
                        if key != k {
                            lemma_pairs_map_at(before, j);
                        }
                    }
                    assert(spec_pairs_map(after) =~= spec_pairs_map(before).insert(k, v));
                }
            },
            None => {
                let ghost k = name@;
                let mut entries: Vec<(String, String)> = Vec::new();
                std::mem::swap(&mut entries, &mut self.entries);
                entries.push((name, value));
                proof {
                    let after = entries@.map_values(|p: (String, String)| (p.0@, p.1@));
                    assert(after.drop_last() =~= before);
                    assert forall|x: int, y: int| 0 <= x < y < after.len() implies after[x].0 != after[y].0 by {
                        if y < after.len() - 1 {
                            assert(after[x] == before[x]);
                            assert(after[y] == before[y]);
                        } else {
                            assert(after[y].0 == k);
                            assert(after[x] == before[x]);
                        }
                    }
                }
                self.entries = entries;
                proof {
                    let after = self.pairs();
                    assert(after.drop_last() =~= before);
                }
            },
        }
    }

    /// Sets the value of `name` unless it already has one.
    pub fn or_insert(&mut self, name: String, value: String)
        ensures
            final(self)@ == if old(self)@.contains_key(name@) {
                old(self)@
            } else {
                old(self)@.insert(name@, value@)
            },
    {
        if !self.contains_key(name.as_str()) {
            self.insert(name, value);
        }
    }

    /// How many entries the map holds.
    pub fn entry_count(&self) -> (r: usize)
        ensures
            r == self.pairs().len(),
    {
        self.entries.len()
    }

    /// The entry at position `i`, in the order names were first inserted.
    pub fn entry_at(&self, i: usize) -> (r: (&String, &String))
        requires
            i < self.pairs().len(),
        ensures
            r.0@ == self.pairs()[i as int].0,
            r.1@ == self.pairs()[i as int].1,
    {
        (&self.entries[i].0, &self.entries[i].1)
    }

    /// Copies every entry of `other` whose name this map lacks. Entries already here keep
    /// their values.
    pub fn insert_missing_from(&mut self, other: &TextMap)
        ensures
            final(self)@ == other@.union_prefer_right(old(self)@),
    {
        proof {
            use_type_invariant(other);
        }
        let ghost start = self@;
        let ghost src = other.pairs();
        let n = other.entry_count();
        let mut i: usize = 0;
        while i < n
            invariant
                i <= n,
                n == src.len(),
                src == other.pairs(),
                spec_names_distinct(src),
                self@ == spec_pairs_map(src.take(i as int)).union_prefer_right(start),
            decreases n - i,
        {
            let (k, v) = other.entry_at(i);
            let ghost prefix = src.take(i as int);
            let ghost next = src.take(i + 1);
            proof {
                assert(next.drop_last() =~= prefix);
                lemma_pairs_map_domain(prefix, k@);
                assert forall|j: int| 0 <= j < prefix.len() implies prefix[j].0 != k@ by {
                    assert(src[j].0 != src[i as int].0);
                }
            }
            self.or_insert(k.clone(), v.clone());
            proof {
                assert(self@ =~= spec_pairs_map(next).union_prefer_right(start));
            }
            i = i + 1;
        }
        proof {
            assert(src.take(n as int) =~= src);
        }
    }
}

} // verus!
