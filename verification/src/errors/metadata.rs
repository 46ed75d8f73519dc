use vstd::prelude::*;

use crate::text::same_text;

verus! {

/// Key-value pairs seen as text.
pub open spec fn pairs_view(ps: Seq<(String, String)>) -> Seq<(Seq<char>, Seq<char>)> {
    ps.map_values(|p: (String, String)| (p.0@, p.1@))
}

/// No key occurs twice.
pub open spec fn keys_distinct(ps: Seq<(Seq<char>, Seq<char>)>) -> bool {
    forall|i: int, j: int| 0 <= i < j < ps.len() ==> #[trigger] ps[i].0 != #[trigger] ps[j].0
}

/// The map that a list of pairs stands for; a later pair overrides an
/// earlier one with the same key.
pub open spec fn map_of(ps: Seq<(Seq<char>, Seq<char>)>) -> Map<Seq<char>, Seq<char>>
    decreases ps.len(),
{
    if ps.len() == 0 {
        Map::empty()
    } else {
        map_of(ps.drop_last()).insert(ps.last().0, ps.last().1)
    }
}

/// A key is in the map exactly when some pair holds it; with distinct keys,
/// it maps to the value of that pair.
pub proof fn lemma_map_of_index(ps: Seq<(Seq<char>, Seq<char>)>, k: Seq<char>)
    ensures
        map_of(ps).contains_key(k) <==> exists|i: int| 0 <= i < ps.len() && ps[i].0 == k,
        keys_distinct(ps) ==> forall|i: int|
            0 <= i < ps.len() && #[trigger] ps[i].0 == k ==> map_of(ps)[k] == ps[i].1,
    decreases ps.len(),
{
    if ps.len() > 0 {
        let dl = ps.drop_last();
        lemma_map_of_index(dl, k);
        if map_of(ps).contains_key(k) && ps.last().0 != k {
            let i = choose|i: int| 0 <= i < dl.len() && dl[i].0 == k;
            assert(ps[i].0 == k);
        }
        if exists|i: int| 0 <= i < ps.len() && ps[i].0 == k {
            let i = choose|i: int| 0 <= i < ps.len() && ps[i].0 == k;
            if i < ps.len() - 1 {
                assert(dl[i].0 == k);
            }
        }
        if keys_distinct(ps) {
            assert(keys_distinct(dl));
            assert forall|i: int| 0 <= i < ps.len() && #[trigger] ps[i].0 == k implies map_of(
                ps,
            )[k] == ps[i].1 by {
                if i < ps.len() - 1 {
                    assert(dl[i].0 == k);
                    assert(ps[i].0 != ps[ps.len() - 1].0);
                }
            }
        }
    }
}

/// With distinct keys, the map has one entry per pair.
pub proof fn lemma_map_of_len(ps: Seq<(Seq<char>, Seq<char>)>)
    requires
        keys_distinct(ps),
    ensures
        map_of(ps).dom().finite(),
        map_of(ps).len() == ps.len(),
    decreases ps.len(),
{
    if ps.len() > 0 {
        let dl = ps.drop_last();
        assert(keys_distinct(dl));
        lemma_map_of_len(dl);
        lemma_map_of_index(dl, ps.last().0);
        if map_of(dl).contains_key(ps.last().0) {
            let i = choose|i: int| 0 <= i < dl.len() && dl[i].0 == ps.last().0;
            assert(ps[i].0 == ps[ps.len() - 1].0);
        }
    }
}

/// Replacing the value of the pair that holds key `k` replaces the value of
/// `k` in the map.
pub proof fn lemma_map_of_update(ps: Seq<(Seq<char>, Seq<char>)>, i: int, v: Seq<char>)
    requires
        keys_distinct(ps),
        0 <= i < ps.len(),
    ensures
        map_of(ps.update(i, (ps[i].0, v))) == map_of(ps).insert(ps[i].0, v),
    decreases ps.len(),
{
    let k = ps[i].0;
    let qs = ps.update(i, (k, v));
    let dl = ps.drop_last();
    if i == ps.len() - 1 {
        assert(qs.drop_last() =~= dl);
        assert(map_of(qs) =~= map_of(ps).insert(k, v));
    } else {
        assert(keys_distinct(dl));
        assert(qs.drop_last() =~= dl.update(i, (k, v)));
        lemma_map_of_update(dl, i, v);
        assert(ps.last().0 != k);
        assert(map_of(qs) =~= map_of(ps).insert(k, v));
    }
}

/// Additional structured details of an error: a map from keys to values,
/// where setting a key again replaces its value.
#[derive(Debug)]
pub struct Metadata {
    entries: Vec<(String, String)>,
}

impl Metadata {
    /// The pairs, as text.
    pub closed spec fn pairs(self) -> Seq<(Seq<char>, Seq<char>)> {
        pairs_view(self.entries@)
    }

    #[verifier::type_invariant]
    closed spec fn keys_are_distinct(self) -> bool {
        keys_distinct(self.pairs())
    }
}

impl View for Metadata {
    type V = Map<Seq<char>, Seq<char>>;

    closed spec fn view(&self) -> Map<Seq<char>, Seq<char>> {
        map_of(self.pairs())
    }
}

impl Metadata {
    /// An empty map.
    pub fn new() -> (m: Metadata)
        ensures
            m@ == Map::<Seq<char>, Seq<char>>::empty(),
    {
        let m = Metadata { entries: Vec::new() };
        assert(m.pairs() =~= Seq::empty());
        m
    }

    /// The position of the pair holding `key`, if any.
    fn position(&self, key: &str) -> (r: Option<usize>)
        ensures
            match r {
                Some(i) => i < self.pairs().len() && self.pairs()[i as int].0 == key@,
                None => forall|i: int| 0 <= i < self.pairs().len() ==> self.pairs()[i].0 != key@,
            },
    {
        let mut i: usize = 0;
        while i < self.entries.len()
            invariant
                0 <= i <= self.entries@.len(),
                self.pairs() == pairs_view(self.entries@),
                forall|j: int| 0 <= j < i ==> self.pairs()[j].0 != key@,
            decreases self.entries.len() - i,
        {
            if same_text(self.entries[i].0.as_str(), key) {
                return Some(i);
            }
            i = i + 1;
        }
        None
    }

    /// Sets `key` to `value`, replacing any value it had.
    pub fn insert(&mut self, key: String, value: String)
        ensures
            final(self)@ == old(self)@.insert(key@, value@),
    {
        proof {
            use_type_invariant(&*self);
        }
        let ghost old_pairs = self.pairs();
        let mut entries: Vec<(String, String)> = Vec::new();
        std::mem::swap(&mut entries, &mut self.entries);
        assert(pairs_view(entries@) == old_pairs);
        let mut i: usize = 0;
        let mut at: Option<usize> = None;
        while i < entries.len()
            invariant
                0 <= i <= entries@.len(),
                pairs_view(entries@) == old_pairs,
                at is None ==> forall|j: int| 0 <= j < i ==> old_pairs[j].0 != key@,
                at matches Some(p) ==> p < entries@.len() && old_pairs[p as int].0 == key@,
            decreases entries.len() - i,
        {
            if at.is_none() && same_text(entries[i].0.as_str(), key.as_str()) {
                at = Some(i);
            }
            i = i + 1;
        }
        match at {
            Some(p) => {
                let ghost v = value@;
                entries.set(p, (key, value));
                proof {
                    assert(pairs_view(entries@) =~= old_pairs.update(p as int, (old_pairs[p as int].0, v)));
                    lemma_map_of_update(old_pairs, p as int, v);
                    assert forall|a: int, b: int| 0 <= a < b < pairs_view(entries@).len() implies #[trigger] pairs_view(entries@)[a].0 != #[trigger] pairs_view(entries@)[b].0 by {
                        assert(old_pairs[a].0 != old_pairs[b].0);
                    }
                }
            },
            None => {
                let ghost kv = (key@, value@);
                entries.push((key, value));
                proof {
                    assert(pairs_view(entries@) =~= old_pairs.push(kv));
                    assert(pairs_view(entries@).drop_last() =~= old_pairs);
                }
            },
        }
        self.entries = entries;
    }

    /// The value of `key`, if it is set.
    pub fn get(&self, key: &str) -> (r: Option<&String>)
        ensures
            match r {
                Some(v) => self@.contains_key(key@) && self@[key@] == v@,
                None => !self@.contains_key(key@),
            },
    {
        proof {
            use_type_invariant(self);
            lemma_map_of_index(self.pairs(), key@);
        }
        match self.position(key) {
            Some(i) => Some(&self.entries[i].1),
            None => None,
        }
    }

    /// Tells whether `key` is set.
    pub fn contains_key(&self, key: &str) -> (r: bool)
        ensures
            r == self@.contains_key(key@),
    {
        proof {
            lemma_map_of_index(self.pairs(), key@);
        }
        self.position(key).is_some()
    }

    /// The number of keys that are set.
    pub fn len(&self) -> (n: usize)
        ensures
            n == self@.len(),
    {
        proof {
            use_type_invariant(self);
            lemma_map_of_len(self.pairs());
        }
        self.entries.len()
    }

    /// Tells whether no key is set.
    pub fn is_empty(&self) -> (r: bool)
        ensures
            r == (self@.len() == 0),
            r == (self@ == Map::<Seq<char>, Seq<char>>::empty()),
    {
        proof {
            use_type_invariant(self);
            lemma_map_of_len(self.pairs());
            if self@.len() == 0 {
                assert(self@.dom() =~= Set::<Seq<char>>::empty());
                assert(self@ =~= Map::<Seq<char>, Seq<char>>::empty());
            }
        }
        self.entries.len() == 0
    }

    /// The key-value pairs, each key once, in the order the keys were first set.
    pub fn as_pairs(&self) -> (r: &Vec<(String, String)>)
        ensures
            r@.len() == self@.len(),
            forall|i: int|
                0 <= i < r@.len() ==> self@.contains_key(#[trigger] r@[i].0@) && self@[r@[i].0@]
                    == r@[i].1@,
            forall|i: int, j: int| 0 <= i < j < r@.len() ==> #[trigger] r@[i].0@ != #[trigger] r@[j].0@,
    {
        proof {
            use_type_invariant(self);
            lemma_map_of_len(self.pairs());
            assert forall|i: int| 0 <= i < self.entries@.len() implies self@.contains_key(
                #[trigger] self.entries@[i].0@,
            ) && self@[self.entries@[i].0@] == self.entries@[i].1@ by {
                lemma_map_of_index(self.pairs(), self.entries@[i].0@);
                assert(self.pairs()[i].0 == self.entries@[i].0@);
            }
            assert forall|i: int, j: int| 0 <= i < j < self.entries@.len() implies #[trigger] self.entries@[i].0@ != #[trigger] self.entries@[j].0@ by {
                assert(self.pairs()[i].0 != self.pairs()[j].0);
            }
        }
        &self.entries
    }

    /// Tells whether both maps set the same keys to the same values.
    pub fn same_entries(&self, other: &Metadata) -> (r: bool)
        ensures
            r == (self@ == other@),
    {
        proof {
            use_type_invariant(self);
            use_type_invariant(other);
            lemma_map_of_len(self.pairs());
            lemma_map_of_len(other.pairs());
        }
        if self.entries.len() != other.entries.len() {
            return false;
        }
        let mut i: usize = 0;
        while i < self.entries.len()
            invariant
                0 <= i <= self.entries@.len(),
                self.entries@.len() == other.entries@.len(),
                keys_distinct(self.pairs()),
                forall|j: int|
                    0 <= j < i ==> other@.contains_key(#[trigger] self.pairs()[j].0)
                        && other@[self.pairs()[j].0] == self.pairs()[j].1,
            decreases self.entries.len() - i,
        {
            let key = self.entries[i].0.as_str();
            proof {
                lemma_map_of_index(self.pairs(), self.pairs()[i as int].0);
            }
            match other.get(key) {
                Some(v) => {
                    if !(*v == self.entries[i].1) {
                        proof {
                            lemma_map_of_index(self.pairs(), key@);
                            assert(self.pairs()[i as int].0 == key@);
                        }
                        return false;
                    }
                },
                None => {
                    proof {
                        lemma_map_of_index(self.pairs(), key@);
                        assert(self.pairs()[i as int].0 == key@);
                        assert(self@.contains_key(key@));
                    }
                    return false;
                },
            }
            i = i + 1;
        }
        proof {
            assert forall|k: Seq<char>| #[trigger] self@.contains_key(k) implies other@.contains_key(k)
                && other@[k] == self@[k] by {
                lemma_map_of_index(self.pairs(), k);
                let j = choose|j: int| 0 <= j < self.pairs().len() && self.pairs()[j].0 == k;
                assert(other@.contains_key(self.pairs()[j].0));
            }
            vstd::set_lib::lemma_subset_equality(self@.dom(), other@.dom());
            assert(self@ =~= other@);
        }
        true
    }
}

impl Clone for Metadata {
    fn clone(&self) -> (r: Metadata)
        ensures
            r@ == self@,
    {
        proof {
            use_type_invariant(self);
        }
        let mut entries: Vec<(String, String)> = Vec::new();
        let mut i: usize = 0;
        while i < self.entries.len()
            invariant
                0 <= i <= self.entries@.len(),
                pairs_view(entries@) == self.pairs().take(i as int),
                self.pairs() == pairs_view(self.entries@),
            decreases self.entries.len() - i,
        {
            let k = self.entries[i].0.clone();
            let v = self.entries[i].1.clone();
            let ghost before = entries@;
            entries.push((k, v));
            proof {
                assert(k@ == self.entries@[i as int].0@);
                assert(v@ == self.entries@[i as int].1@);
                assert(self.pairs()[i as int] == (k@, v@));
                assert(entries@ == before.push((k, v)));
                assert(pairs_view(entries@) =~= pairs_view(before).push((k@, v@)));
                assert(pairs_view(entries@) =~= self.pairs().take(i + 1));
            }
            i = i + 1;
        }
        assert(self.pairs().take(i as int) =~= self.pairs());
        Metadata { entries }
    }
}

impl Default for Metadata {
    fn default() -> (m: Metadata)
        ensures
            m@ == Map::<Seq<char>, Seq<char>>::empty(),
    {
        Metadata::new()
    }
}

impl PartialEq for Metadata {
    fn eq(&self, other: &Metadata) -> (r: bool) {
        self.same_entries(other)
    }
}

impl vstd::std_specs::cmp::PartialEqSpecImpl for Metadata {
    open spec fn obeys_eq_spec() -> bool {
        true
    }

    open spec fn eq_spec(&self, other: &Metadata) -> bool {
        self@ == other@
    }
}

impl Eq for Metadata {
}

/// The map a list of pairs stands for is finite.
pub proof fn lemma_map_of_finite(ps: Seq<(Seq<char>, Seq<char>)>)
    ensures
        map_of(ps).dom().finite(),
    decreases ps.len(),
{
    if ps.len() > 0 {
        lemma_map_of_finite(ps.drop_last());
    }
}

/// Reading back after a write: once `key` is set to `value`, `key` reads
/// `value` and every other key reads what it read before; setting a key
/// that was already set leaves the number of keys unchanged, setting a new
/// one adds one.
pub proof fn lemma_read_after_insert(m: Metadata, key: Seq<char>, value: Seq<char>, other: Seq<char>)
    ensures
        m@.insert(key, value).contains_key(key),
        m@.insert(key, value)[key] == value,
        other != key ==> m@.insert(key, value).contains_key(other) == m@.contains_key(other),
        other != key && m@.contains_key(other) ==> m@.insert(key, value)[other] == m@[other],
        m@.contains_key(key) ==> m@.insert(key, value).len() == m@.len(),
        !m@.contains_key(key) ==> m@.insert(key, value).len() == m@.len() + 1,
{
    lemma_map_of_finite(m.pairs());
    if m@.contains_key(key) {
        assert(m@.insert(key, value).dom() =~= m@.dom());
    }
}

} // verus!
