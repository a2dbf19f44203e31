//! Maps keyed by names and sets of name pairs, kept as vectors without repeated keys.
use vstd::prelude::*;
use crate::text::str_eq;

verus! {

broadcast use vstd::seq_lib::group_seq_properties;

/// The map that a list of entries with distinct keys stands for.
pub open spec fn entries_map<V>(s: Seq<(String, V)>) -> Map<Seq<char>, V>
    decreases s.len(),
{
    if s.len() == 0 {
        Map::empty()
    } else {
        entries_map(s.drop_last()).insert(s.last().0@, s.last().1)
    }
}

/// No key occurs twice.
pub open spec fn distinct_keys<V>(s: Seq<(String, V)>) -> bool {
    forall|i: int, j: int| 0 <= i < j < s.len() ==> #[trigger] s[i].0@ != #[trigger] s[j].0@
}

/// Keys and values of the map are those of the entries.
pub proof fn lemma_entries_map<V>(s: Seq<(String, V)>)
    requires
        distinct_keys(s),
    ensures
        forall|k: Seq<char>| #[trigger]
            entries_map(s).contains_key(k) <==> exists|i: int| 0 <= i < s.len() && s[i].0@ == k,
        forall|i: int| 0 <= i < s.len() ==> #[trigger] entries_map(s)[s[i].0@] == s[i].1,
        entries_map(s).dom().finite(),
        entries_map(s).dom().len() == s.len(),
    decreases s.len(),
{
    if s.len() > 0 {
        let t = s.drop_last();
        assert(distinct_keys(t));
        lemma_entries_map(t);
        assert forall|k: Seq<char>| #[trigger]
            entries_map(s).contains_key(k) implies exists|i: int| 0 <= i < s.len() && s[i].0@ == k by {
            if k == s.last().0@ {
                assert(s[s.len() - 1].0@ == k);
            } else {
                let i = choose|i: int| 0 <= i < t.len() && t[i].0@ == k;
                assert(s[i].0@ == k);
            }
        }
        assert forall|k: Seq<char>|
            (exists|i: int| 0 <= i < s.len() && s[i].0@ == k) implies #[trigger]
            entries_map(s).contains_key(k) by {
            let i = choose|i: int| 0 <= i < s.len() && s[i].0@ == k;
            if i < s.len() - 1 {
                assert(t[i].0@ == k);
            }
        }
        assert forall|i: int| 0 <= i < s.len() implies #[trigger] entries_map(s)[s[i].0@]
            == s[i].1 by {
            if i < s.len() - 1 {
                assert(t[i] == s[i]);
                assert(s[i].0@ != s[s.len() - 1].0@);
            }
        }
        assert(!entries_map(t).contains_key(s.last().0@)) by {
            if entries_map(t).contains_key(s.last().0@) {
                let i = choose|i: int| 0 <= i < t.len() && t[i].0@ == s.last().0@;
                assert(s[i].0@ == s[s.len() - 1].0@);
            }
        }
    }
}

/// `order` with `k` added at its end, unless it is there.
pub open spec fn with_key(order: Seq<Seq<char>>, k: Seq<char>) -> Seq<Seq<char>> {
    if order.contains(k) {
        order
    } else {
        order.push(k)
    }
}

/// A map from names to values; no name occurs twice.
#[derive(Debug, PartialEq, Eq)]
pub struct NameMap<V> {
    entries: Vec<(String, V)>,
}

impl<V> View for NameMap<V> {
    type V = Map<Seq<char>, V>;

    closed spec fn view(&self) -> Map<Seq<char>, V> {
        entries_map(self.entries@)
    }
}

impl<V> NameMap<V> {
    /// No name occurs twice.
    #[verifier::type_invariant]
    spec fn distinct(self) -> bool {
        distinct_keys(self.entries@)
    }

    /// The entries in the order they were first inserted.
    pub closed spec fn entry_seq(self) -> Seq<(String, V)> {
        self.entries@
    }

    /// The names in the order they were first inserted.
    pub closed spec fn key_order(self) -> Seq<Seq<char>> {
        self.entries@.map_values(|e: (String, V)| e.0@)
    }

    /// An empty map.
    pub fn new() -> (r: Self)
        ensures
            r@ == Map::<Seq<char>, V>::empty(),
            r.key_order() == Seq::<Seq<char>>::empty(),
    {
        let entries: Vec<(String, V)> = Vec::new();
        assert(entries@.len() == 0);
        let r = NameMap { entries };
        assert(r@ =~= Map::<Seq<char>, V>::empty());
        assert(r.key_order() =~= Seq::<Seq<char>>::empty());
        r
    }

    /// Number of entries.
    pub fn len(&self) -> (n: usize)
        ensures
            n == self@.dom().len(),
    {
        proof {
            use_type_invariant(self);
            lemma_entries_map(self.entries@);
        }
        self.entries.len()
    }

    fn find(&self, key: &str) -> (r: Option<usize>)
        ensures
            r matches Some(i) ==> i < self.entries@.len() && self.entries@[i as int].0@ == key@,
            r is None ==> forall|i: int|
                0 <= i < self.entries@.len() ==> self.entries@[i].0@ != key@,
    {
        let n = self.entries.len();
        let mut i: usize = 0;
        while i < n
            invariant
                n == self.entries@.len(),
                i <= n,
                forall|j: int| 0 <= j < i ==> self.entries@[j].0@ != key@,
            decreases n - i,
        {
            if str_eq(self.entries[i].0.as_str(), key) {
                return Some(i);
            }
            i = i + 1;
        }
        None
    }

    /// Whether `key` has a value.
    pub fn contains_key(&self, key: &str) -> (r: bool)
        ensures
            r == self@.contains_key(key@),
    {
        proof {
            use_type_invariant(self);
            lemma_entries_map(self.entries@);
        }
        self.find(key).is_some()
    }

    /// The value of `key`, if it has one.
    pub fn get(&self, key: &str) -> (r: Option<&V>)
        ensures
            self@.contains_key(key@) <==> r is Some,
            r matches Some(v) ==> *v == self@[key@],
    {
        proof {
            use_type_invariant(self);
            lemma_entries_map(self.entries@);
        }
        match self.find(key) {
            Some(i) => Some(&self.entries[i].1),
            None => None,
        }
    }

    /// Sets the value of `key`, replacing the value it had.
    pub fn insert(&mut self, key: String, value: V)
        ensures
            final(self)@ == old(self)@.insert(key@, value),
            final(self).key_order() == with_key(old(self).key_order(), key@),
    {
        proof {
            use_type_invariant(&*self);
            lemma_entries_map(self.entries@);
        }
        let ghost k = key@;
        let ghost v = value;
        let ghost old_map = self@;
        match self.find(key.as_str()) {
            Some(i) => {
                let mut entries: Vec<(String, V)> = Vec::new();
                std::mem::swap(&mut entries, &mut self.entries);
                let ghost before = entries@;
                entries.set(i, (key, value));
                proof {
                    assert(distinct_keys(entries@)) by {
                        assert forall|a: int, b: int| 0 <= a < b < entries@.len() implies #[trigger]
                            entries@[a].0@ != #[trigger] entries@[b].0@ by {
                            assert(before[a].0@ != before[b].0@);
                        }
                    }
                    lemma_entries_map(entries@);
                    assert(old(self).key_order()[i as int] == k);
                    assert(entries@.map_values(|e: (String, V)| e.0@) =~= old(self).key_order());
                    assert(entries_map(entries@) =~= old_map.insert(k, v)) by {
                        assert forall|q: Seq<char>| #[trigger]
                            entries_map(entries@).contains_key(q) <==> old_map.insert(
                                k,
                                v,
                            ).contains_key(q) by {
                            if old_map.contains_key(q) {
                                let j = choose|j: int| 0 <= j < before.len() && before[j].0@ == q;
                                assert(entries@[j].0@ == q);
                            }
                            if entries_map(entries@).contains_key(q) {
                                let j = choose|j: int| 0 <= j < entries@.len() && entries@[j].0@ == q;
                                if j != i {
                                    assert(before[j].0@ == q);
                                }
                            }
                        }
                        assert forall|q: Seq<char>| #[trigger]
                            entries_map(entries@).contains_key(q) implies entries_map(entries@)[q]
                            == old_map.insert(k, v)[q] by {
                            let j = choose|j: int| 0 <= j < entries@.len() && entries@[j].0@ == q;
                            assert(entries_map(entries@)[entries@[j].0@] == entries@[j].1);
                            if j != i {
                                assert(before[j].0@ == q);
                                assert(old_map[before[j].0@] == before[j].1);
                            }
                        }
                    }
                }
                self.entries = entries;
            },
            None => {
                let mut entries: Vec<(String, V)> = Vec::new();
                std::mem::swap(&mut entries, &mut self.entries);
                entries.push((key, value));
                proof {
                    assert(entries@.drop_last() =~= old(self).entries@);
                    assert(!old(self).key_order().contains(k)) by {
                        if old(self).key_order().contains(k) {
                            let j = choose|j: int| 0 <= j < old(self).key_order().len() && old(self).key_order()[j] == k;
                            assert(old(self).entries@[j].0@ == k);
                        }
                    }
                    assert(entries@.map_values(|e: (String, V)| e.0@) =~= old(self).key_order().push(k));
                    assert(distinct_keys(entries@)) by {
                        assert forall|a: int, b: int| 0 <= a < b < entries@.len() implies #[trigger]
                            entries@[a].0@ != #[trigger] entries@[b].0@ by {
                            if b == entries@.len() - 1 {
                                assert(old(self).entries@[a] == entries@[a]);
                            } else {
                                assert(old(self).entries@[a] == entries@[a]);
                                assert(old(self).entries@[b] == entries@[b]);
                            }
                        }
                    }
                }
                self.entries = entries;
            },
        }
    }

    /// The names, in the order they were first inserted.
    pub fn keys(&self) -> (r: Vec<String>)
        ensures
            r@.len() == self.entry_seq().len(),
            forall|i: int| 0 <= i < r@.len() ==> #[trigger] r@[i]@ == self.entry_seq()[i].0@,
            forall|k: Seq<char>| #[trigger]
                self@.contains_key(k) <==> exists|i: int| 0 <= i < r@.len() && r@[i]@ == k,
    {
        proof {
            use_type_invariant(self);
            lemma_entries_map(self.entries@);
        }
        let mut r: Vec<String> = Vec::new();
        let n = self.entries.len();
        for i in 0..n
            invariant
                n == self.entries@.len(),
                r@.len() == i,
                forall|j: int| 0 <= j < i ==> #[trigger] r@[j]@ == self.entries@[j].0@,
        {
            r.push(self.entries[i].0.clone());
        }
        proof {
            assert forall|k: Seq<char>| #[trigger]
                self@.contains_key(k) implies exists|i: int| 0 <= i < r@.len() && r@[i]@ == k by {
                let i = choose|i: int| 0 <= i < self.entries@.len() && self.entries@[i].0@ == k;
                assert(r@[i]@ == k);
            }
        }
        r
    }
}

impl NameMap<String> {
    /// A copy of the map.
    pub fn copy(&self) -> (r: NameMap<String>)
        ensures
            r@ == self@,
            r.entry_seq() == self.entry_seq(),
    {
        proof {
            use_type_invariant(self);
        }
        let mut entries: Vec<(String, String)> = Vec::new();
        let n = self.entries.len();
        for i in 0..n
            invariant
                n == self.entries@.len(),
                entries@ == self.entries@.take(i as int),
        {
            entries.push((self.entries[i].0.clone(), self.entries[i].1.clone()));
            assert(entries@ =~= self.entries@.take(i + 1));
        }
        assert(entries@ =~= self.entries@);
        NameMap { entries }
    }
}

/// The text of a map whose values are strings.
pub open spec fn text_map(m: Map<Seq<char>, String>) -> Map<Seq<char>, Seq<char>> {
    m.map_values(|s: String| s@)
}

/// Inserting into a map of strings inserts the text.
pub proof fn lemma_text_map_insert(m: Map<Seq<char>, String>, k: Seq<char>, v: String)
    ensures
        text_map(m.insert(k, v)) == text_map(m).insert(k, v@),
{
    assert(text_map(m.insert(k, v)) =~= text_map(m).insert(k, v@));
}

/// A set of pairs of names.
#[derive(Debug, Clone, PartialEq, Eq, Default)]
pub struct PairSet {
    items: Vec<(String, String)>,
}

/// The text of a pair of names.
pub open spec fn pair_view(x: (String, String)) -> (Seq<char>, Seq<char>) {
    (x.0@, x.1@)
}

/// The set that a list of pairs stands for.
pub open spec fn pairs_set(s: Seq<(String, String)>) -> Set<(Seq<char>, Seq<char>)> {
    Set::new(|q: (Seq<char>, Seq<char>)| exists|i: int| 0 <= i < s.len() && pair_view(s[i]) == q)
}

/// Adding a pair at the end adds its text to the set.
pub proof fn lemma_pairs_push(s: Seq<(String, String)>, x: (String, String))
    ensures
        pairs_set(s.push(x)) == pairs_set(s).insert(pair_view(x)),
{
    let t = s.push(x);
    assert forall|q: (Seq<char>, Seq<char>)| #[trigger] pairs_set(t).contains(q) implies pairs_set(
        s,
    ).insert(pair_view(x)).contains(q) by {
        let i = choose|i: int| 0 <= i < t.len() && pair_view(t[i]) == q;
        if i < s.len() {
            assert(s[i] == t[i]);
        }
    }
    assert forall|q: (Seq<char>, Seq<char>)| #[trigger] pairs_set(s).insert(pair_view(x)).contains(
        q,
    ) implies pairs_set(t).contains(q) by {
        if q == pair_view(x) {
            assert(pair_view(t[s.len() as int]) == q);
        } else {
            let i = choose|i: int| 0 <= i < s.len() && pair_view(s[i]) == q;
            assert(t[i] == s[i]);
        }
    }
    assert(pairs_set(t) =~= pairs_set(s).insert(pair_view(x)));
}

impl View for PairSet {
    type V = Set<(Seq<char>, Seq<char>)>;

    closed spec fn view(&self) -> Set<(Seq<char>, Seq<char>)> {
        pairs_set(self.items@)
    }
}

impl PairSet {
    /// An empty set.
    pub fn new() -> (r: Self)
        ensures
            r@ == Set::<(Seq<char>, Seq<char>)>::empty(),
    {
        let r = PairSet { items: Vec::new() };
        assert(r@ =~= Set::<(Seq<char>, Seq<char>)>::empty());
        r
    }

    fn find(&self, a: &str, b: &str) -> (r: bool)
        ensures
            r == self@.contains((a@, b@)),
    {
        let n = self.items.len();
        let mut i: usize = 0;
        while i < n
            invariant
                n == self.items@.len(),
                i <= n,
                forall|j: int| 0 <= j < i ==> pair_view(self.items@[j]) != (a@, b@),
            decreases n - i,
        {
            if str_eq(self.items[i].0.as_str(), a) && str_eq(self.items[i].1.as_str(), b) {
                assert(pair_view(self.items@[i as int]) == (a@, b@));
                return true;
            }
            i = i + 1;
        }
        false
    }

    /// Whether the pair `(a, b)` is in the set.
    pub fn contains(&self, a: &str, b: &str) -> (r: bool)
        ensures
            r == self@.contains((a@, b@)),
    {
        self.find(a, b)
    }

    /// Adds the pair `(a, b)`.
    pub fn insert(&mut self, a: String, b: String)
        ensures
            final(self)@ == old(self)@.insert((a@, b@)),
    {
        let ghost p = (a@, b@);
        if !self.find(a.as_str(), b.as_str()) {
            let ghost before = self.items@;
            let x = (a, b);
            proof {
                lemma_pairs_push(before, x);
            }
            self.items.push(x);
        } else {
            assert(self@ =~= old(self)@.insert(p));
        }
    }

    /// Removes the pair `(a, b)`.
    pub fn remove(&mut self, a: &str, b: &str)
        ensures
            final(self)@ == old(self)@.remove((a@, b@)),
    {
        let ghost p = (a@, b@);
        let ghost old_items = self.items@;
        let mut kept: Vec<(String, String)> = Vec::new();
        let n = self.items.len();
        let mut idx: usize = 0;
        assert(pairs_set(kept@) =~= pairs_set(old_items.take(0)).remove(p));
        while idx < n
            invariant
                n == old_items.len(),
                p == (a@, b@),
                self.items@ == old_items,
                idx <= n,
                pairs_set(kept@) == pairs_set(old_items.take(idx as int)).remove(p),
            decreases n - idx,
        {
            let same_first = str_eq(self.items[idx].0.as_str(), a);
            let same_second = str_eq(self.items[idx].1.as_str(), b);
            let same = same_first && same_second;
            let ghost before = kept@;
            let ghost x = old_items[idx as int];
            proof {
                assert(old_items.take(idx + 1) =~= old_items.take(idx as int).push(x));
                lemma_pairs_push(old_items.take(idx as int), x);
            }
            assert(self.items@[idx as int] == x);
            assert(same_first == (x.0@ == a@));
            assert(same_second == (x.1@ == b@));
            assert(same == (pair_view(x) == p));
            let ghost s0 = pairs_set(old_items.take(idx as int));
            if !same {
                let y = (self.items[idx].0.clone(), self.items[idx].1.clone());
                assert(pair_view(y) == pair_view(x));
                proof {
                    lemma_pairs_push(before, y);
                }
                kept.push(y);
                assert(s0.insert(pair_view(x)).remove(p) =~= s0.remove(p).insert(pair_view(x)));
            } else {
                assert(s0.insert(pair_view(x)).remove(p) =~= s0.remove(p));
            }
            idx = idx + 1;
        }
        assert(old_items.take(n as int) =~= old_items);
        self.items = kept;
    }
}

} // verus!
