//! An insertion-ordered map from text keys to text values.
use vstd::prelude::*;

verus! {

/// Whether some entry of `s` has key `k`.
pub open spec fn has_key(s: Seq<(Seq<char>, Seq<char>)>, k: Seq<char>) -> bool {
    exists|i: int| 0 <= i < s.len() && (#[trigger] s[i]).0 == k
}

/// The position of the entry with key `k`, for a key that occurs.
pub open spec fn key_index(s: Seq<(Seq<char>, Seq<char>)>, k: Seq<char>) -> int {
    choose|i: int| 0 <= i < s.len() && (#[trigger] s[i]).0 == k
}

/// The map that entries with distinct keys describe.
pub open spec fn entries_map(s: Seq<(Seq<char>, Seq<char>)>) -> Map<Seq<char>, Seq<char>> {
    Map::new(|k: Seq<char>| has_key(s, k), |k: Seq<char>| s[key_index(s, k)].1)
}

pub open spec fn distinct_keys(s: Seq<(Seq<char>, Seq<char>)>) -> bool {
    forall|i: int, j: int|
        0 <= i < s.len() && 0 <= j < s.len() && i != j ==> (#[trigger] s[i]).0 != (#[trigger] s[j]).0
}

/// The entries after setting `k` to `v`: an existing entry keeps its place,
/// a new key goes last.
pub open spec fn entries_insert(
    s: Seq<(Seq<char>, Seq<char>)>,
    k: Seq<char>,
    v: Seq<char>,
) -> Seq<(Seq<char>, Seq<char>)> {
    if has_key(s, k) {
        s.update(key_index(s, k), (k, v))
    } else {
        s.push((k, v))
    }
}

proof fn lemma_key_index(s: Seq<(Seq<char>, Seq<char>)>, i: int)
    requires
        distinct_keys(s),
        0 <= i < s.len(),
    ensures
        has_key(s, s[i].0),
        key_index(s, s[i].0) == i,
        entries_map(s).contains_key(s[i].0),
        entries_map(s)[s[i].0] == s[i].1,
{
    assert(has_key(s, s[i].0));
    let j = key_index(s, s[i].0);
    assert(s[j].0 == s[i].0);
}

proof fn lemma_entries_insert(s: Seq<(Seq<char>, Seq<char>)>, k: Seq<char>, v: Seq<char>)
    requires
        distinct_keys(s),
    ensures
        distinct_keys(entries_insert(s, k, v)),
        entries_map(entries_insert(s, k, v)) == entries_map(s).insert(k, v),
{
    let t = entries_insert(s, k, v);
    if has_key(s, k) {
        let idx = key_index(s, k);
        assert(distinct_keys(t));
        assert forall|q: Seq<char>| #[trigger] has_key(t, q) == (has_key(s, q) || q == k) by {
            if has_key(s, q) {
                let j = key_index(s, q);
                assert(t[j].0 == q);
            }
            if has_key(t, q) {
                let j = key_index(t, q);
                assert(s[j].0 == q || j == idx);
            }
        }
        assert forall|q: Seq<char>| has_key(t, q) implies #[trigger] entries_map(t)[q] == entries_map(
            s,
        ).insert(k, v)[q] by {
            let j = key_index(t, q);
            lemma_key_index(t, j);
            if q != k {
                assert(j != idx);
                lemma_key_index(s, j);
            }
        }
    } else {
        assert(distinct_keys(t));
        assert forall|q: Seq<char>| #[trigger] has_key(t, q) == (has_key(s, q) || q == k) by {
            if has_key(s, q) {
                let j = key_index(s, q);
                assert(t[j].0 == q);
            }
            if has_key(t, q) && q != k {
                let j = key_index(t, q);
                assert(s[j].0 == q);
            }
            if q == k {
                assert(t[s.len() as int].0 == q);
            }
        }
        assert forall|q: Seq<char>| has_key(t, q) implies #[trigger] entries_map(t)[q] == entries_map(
            s,
        ).insert(k, v)[q] by {
            let j = key_index(t, q);
            lemma_key_index(t, j);
            if q != k {
                lemma_key_index(s, j);
            }
        }
    }
    assert(entries_map(t) =~= entries_map(s).insert(k, v));
}

/// A map from text to text whose entries keep the order in which their keys
/// were first inserted.
#[derive(Debug, PartialEq)]
pub struct TextMap {
    entries: Vec<(String, String)>,
}

impl TextMap {
    #[verifier::type_invariant]
    spec fn keys_distinct(self) -> bool {
        distinct_keys(self.pairs())
    }

    /// The entries, in order.
    pub closed spec fn pairs(self) -> Seq<(Seq<char>, Seq<char>)> {
        self.entries@.map_values(|e: (String, String)| (e.0@, e.1@))
    }

    pub fn new() -> (r: TextMap)
        ensures
            r@ == Map::<Seq<char>, Seq<char>>::empty(),
            r.pairs() == Seq::<(Seq<char>, Seq<char>)>::empty(),
    {
        let r = TextMap { entries: Vec::new() };
        assert(r.pairs() =~= Seq::empty());
        assert(r@ =~= Map::empty());
        r
    }

    /// The number of entries.
    pub fn len(&self) -> (r: usize)
        ensures
            r == self.pairs().len(),
    {
        self.entries.len()
    }

    pub fn is_empty(&self) -> (r: bool)
        ensures
            r == (self@ == Map::<Seq<char>, Seq<char>>::empty()),
            r == (self.pairs().len() == 0),
    {
        if self.entries.len() == 0 {
            assert(self@ =~= Map::empty());
            true
        } else {
            proof {
                use_type_invariant(self);
                lemma_key_index(self.pairs(), 0);
            }
            assert(self@.contains_key(self.pairs()[0].0));
            false
        }
    }

    /// The entry at position `i`.
    pub fn pair_at(&self, i: usize) -> (r: (&String, &String))
        requires
            i < self.pairs().len(),
        ensures
            (r.0@, r.1@) == self.pairs()[i as int],
    {
        let e = &self.entries[i];
        (&e.0, &e.1)
    }

    /// The position of `key`, if it is present.
    fn find(&self, key: &String) -> (r: Option<usize>)
        ensures
            r is None <==> !has_key(self.pairs(), key@),
            r matches Some(i) ==> i < self.pairs().len() && i == key_index(self.pairs(), key@),
    {
        proof {
            use_type_invariant(self);
        }
        let mut i: usize = 0;
        while i < self.entries.len()
            invariant
                0 <= i <= self.entries.len(),
                distinct_keys(self.pairs()),
                forall|j: int| 0 <= j < i ==> (#[trigger] self.pairs()[j]).0 != key@,
            decreases self.entries.len() - i,
        {
            if self.entries[i].0 == *key {
                proof {
                    lemma_key_index(self.pairs(), i as int);
                }
                return Some(i);
            }
            i = i + 1;
        }
        None
    }

    /// The value under `key`.
    pub fn get(&self, key: &str) -> (r: Option<&String>)
        ensures
            r is Some <==> self@.contains_key(key@),
            r matches Some(v) ==> v@ == self@[key@],
    {
        let k = key.to_owned();
        match self.find(&k) {
            Some(i) => {
                proof {
                    use_type_invariant(self);
                    lemma_key_index(self.pairs(), i as int);
                }
                Some(&self.entries[i].1)
            },
            None => None,
        }
    }

    pub fn contains_key(&self, key: &str) -> (r: bool)
        ensures
            r == self@.contains_key(key@),
    {
        self.get(key).is_some()
    }

    /// Sets `key` to `value`: an existing key keeps its place and takes the
    /// new value, a new key goes last.
    pub fn insert(&mut self, key: String, value: String)
        ensures
            final(self)@ == old(self)@.insert(key@, value@),
            final(self).pairs() == entries_insert(old(self).pairs(), key@, value@),
    {
        proof {
            use_type_invariant(&*self);
            lemma_entries_insert(self.pairs(), key@, value@);
        }
        let ghost k = key@;
        let ghost v = value@;
        let ghost before = self.pairs();
        let found = self.find(&key);
        let mut taken = TextMap::new();
        core::mem::swap(self, &mut taken);
        let mut entries = taken.entries;
        match found {
            Some(i) => {
                entries.set(i, (key, value));
            },
            None => {
                entries.push((key, value));
            },
        }
        let ghost after = entries@.map_values(|e: (String, String)| (e.0@, e.1@));
        assert(after =~= entries_insert(before, k, v));
        *self = TextMap { entries };
    }
}

impl View for TextMap {
    type V = Map<Seq<char>, Seq<char>>;

    closed spec fn view(&self) -> Map<Seq<char>, Seq<char>> {
        entries_map(self.pairs())
    }
}

} // verus!
