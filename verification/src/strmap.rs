//! A map keyed by strings, kept as a list of entries whose keys are distinct.
use vstd::prelude::*;
use vstd::utf8::encode_utf8;

verus! {

/// The map that a list of entries denotes: each entry binds its key to its
/// value, and a later entry overrides an earlier one with the same key.
pub open spec fn entries_map<V>(s: Seq<(String, V)>) -> Map<Seq<char>, V>
    decreases s.len(),
{
    if s.len() == 0 {
        Map::empty()
    } else {
        entries_map(s.drop_last()).insert(s.last().0@, s.last().1)
    }
}

/// The keys of a list of entries, in order.
pub open spec fn entries_keys<V>(s: Seq<(String, V)>) -> Seq<Seq<char>> {
    s.map_values(|e: (String, V)| e.0@)
}

/// No two entries of the list carry the same key.
pub open spec fn distinct_keys<V>(s: Seq<(String, V)>) -> bool {
    forall|i: int, j: int|
        0 <= i < s.len() && 0 <= j < s.len() && i != j ==> #[trigger] s[i].0@ != #[trigger] s[j].0@
}

proof fn lemma_entries_map_dom<V>(s: Seq<(String, V)>, k: Seq<char>)
    ensures
        entries_map(s).contains_key(k) <==> entries_keys(s).contains(k),
    decreases s.len(),
{
    if s.len() > 0 {
        lemma_entries_map_dom(s.drop_last(), k);
        let ks = entries_keys(s);
        let ps = entries_keys(s.drop_last());
        assert(ps =~= ks.drop_last());
        if k == s.last().0@ {
            assert(ks[s.len() - 1] == k);
        } else {
            if ks.contains(k) {
                let i = choose|i: int| 0 <= i < ks.len() && ks[i] == k;
                assert(i < s.len() - 1);
                assert(ps[i] == k);
            }
            if ps.contains(k) {
                let i = choose|i: int| 0 <= i < ps.len() && ps[i] == k;
                assert(ks[i] == k);
            }
        }
    }
}

proof fn lemma_entries_map_index<V>(s: Seq<(String, V)>, i: int)
    requires
        distinct_keys(s),
        0 <= i < s.len(),
    ensures
        entries_map(s).contains_key(s[i].0@),
        entries_map(s)[s[i].0@] == s[i].1,
    decreases s.len(),
{
    if i < s.len() - 1 {
        let p = s.drop_last();
        assert(p[i] == s[i]);
        assert(distinct_keys(p)) by {
            assert forall|a: int, b: int|
                0 <= a < p.len() && 0 <= b < p.len() && a != b implies #[trigger] p[a].0@
                != #[trigger] p[b].0@ by {
                assert(p[a] == s[a] && p[b] == s[b]);
            }
        }
        lemma_entries_map_index(p, i);
        assert(s[i].0@ != s[s.len() - 1].0@);
    }
}

proof fn lemma_entries_map_update<V>(s: Seq<(String, V)>, i: int, e: (String, V))
    requires
        distinct_keys(s),
        0 <= i < s.len(),
        e.0@ == s[i].0@,
    ensures
        distinct_keys(s.update(i, e)),
        entries_map(s.update(i, e)) == entries_map(s).insert(e.0@, e.1),
    decreases s.len(),
{
    let u = s.update(i, e);
    assert(distinct_keys(u)) by {
        assert forall|a: int, b: int|
            0 <= a < u.len() && 0 <= b < u.len() && a != b implies #[trigger] u[a].0@
            != #[trigger] u[b].0@ by {
            assert(u[a].0@ == s[a].0@ && u[b].0@ == s[b].0@);
        }
    }
    let p = s.drop_last();
    if i == s.len() - 1 {
        assert(u.drop_last() =~= p);
        assert(entries_map(u) =~= entries_map(s).insert(e.0@, e.1));
    } else {
        assert(distinct_keys(p)) by {
            assert forall|a: int, b: int|
                0 <= a < p.len() && 0 <= b < p.len() && a != b implies #[trigger] p[a].0@
                != #[trigger] p[b].0@ by {
                assert(p[a] == s[a] && p[b] == s[b]);
            }
        }
        lemma_entries_map_update(p, i, e);
        assert(u.drop_last() =~= p.update(i, e));
        let last = s.last();
        assert(u.last() == last);
        assert(last.0@ != e.0@) by {
            assert(s[s.len() - 1].0@ != s[i].0@);
        }
        assert(entries_map(u) =~= entries_map(s).insert(e.0@, e.1));
    }
}

/// Whether two byte strings are equal.
fn bytes_equal(a: &[u8], b: &[u8]) -> (r: bool)
    ensures
        r == (a@ == b@),
{
    if a.len() != b.len() {
        return false;
    }
    let n = a.len();
    let mut i: usize = 0;
    while i < n
        invariant
            n == a@.len(),
            n == b@.len(),
            i <= n,
            forall|j: int| 0 <= j < i ==> a@[j] == b@[j],
        decreases n - i,
    {
        if a[i] != b[i] {
            return false;
        }
        i = i + 1;
    }
    assert(a@ =~= b@);
    true
}

/// A map from strings to values. Its entries keep the order in which their
/// keys were first inserted, and no key occurs twice.
#[derive(Debug)]
pub struct StrMap<V> {
    entries: Vec<(String, V)>,
}

impl<V> View for StrMap<V> {
    type V = Map<Seq<char>, V>;

    closed spec fn view(&self) -> Map<Seq<char>, V> {
        entries_map(self.entries@)
    }
}

impl<V> StrMap<V> {
    #[verifier::type_invariant]
    closed spec fn keys_are_distinct(&self) -> bool {
        distinct_keys(self.entries@)
    }

    /// The keys of the map, in the order in which they were first inserted.
    pub closed spec fn key_seq(&self) -> Seq<Seq<char>> {
        entries_keys(self.entries@)
    }

    /// The empty map.
    pub fn new() -> (m: Self)
        ensures
            m@ == Map::<Seq<char>, V>::empty(),
            m.key_seq() == Seq::<Seq<char>>::empty(),
    {
        let m = StrMap { entries: Vec::new() };
        assert(entries_keys(m.entries@) =~= Seq::<Seq<char>>::empty());
        m
    }

    /// The number of keys, with the facts that relate the key sequence to the map.
    pub fn len(&self) -> (n: usize)
        ensures
            n == self.key_seq().len(),
            n == self@.dom().len(),
            self.key_seq().no_duplicates(),
            forall|k: Seq<char>| #[trigger] self@.contains_key(k) <==> self.key_seq().contains(k),
    {
        proof {
            use_type_invariant(self);
            self.lemma_keys();
        }
        self.entries.len()
    }

    proof fn lemma_keys(&self)
        requires
            distinct_keys(self.entries@),
        ensures
            self.key_seq().len() == self.entries@.len(),
            self.key_seq().no_duplicates(),
            forall|k: Seq<char>| #[trigger] self@.contains_key(k) <==> self.key_seq().contains(k),
            self@.dom() =~= self.key_seq().to_set(),
            self@.dom().len() == self.key_seq().len(),
    {
        let ks = self.key_seq();
        assert forall|i: int, j: int|
            0 <= i < ks.len() && 0 <= j < ks.len() && i != j implies ks[i] != ks[j] by {
            assert(ks[i] == self.entries@[i].0@ && ks[j] == self.entries@[j].0@);
        }
        assert forall|k: Seq<char>| #[trigger] self@.contains_key(k) <==> ks.contains(k) by {
            lemma_entries_map_dom(self.entries@, k);
        }
        ks.unique_seq_to_set();
    }

    /// The key at a position of the key sequence.
    pub fn key_at(&self, i: usize) -> (k: &String)
        requires
            i < self.key_seq().len(),
        ensures
            k@ == self.key_seq()[i as int],
            self@.contains_key(k@),
    {
        proof {
            use_type_invariant(self);
            lemma_entries_map_index(self.entries@, i as int);
        }
        &self.entries[i].0
    }

    /// The value bound to the key at a position of the key sequence.
    pub fn value_at(&self, i: usize) -> (v: &V)
        requires
            i < self.key_seq().len(),
        ensures
            self@.contains_key(self.key_seq()[i as int]),
            *v == self@[self.key_seq()[i as int]],
    {
        proof {
            use_type_invariant(self);
            lemma_entries_map_index(self.entries@, i as int);
        }
        &self.entries[i].1
    }

    /// Position of the entry whose key is `key`, if any.
    fn position(&self, key: &String) -> (r: Option<usize>)
        ensures
            match r {
                Some(i) => i < self.entries@.len() && self.entries@[i as int].0@ == key@,
                None => forall|i: int|
                    0 <= i < self.entries@.len() ==> #[trigger] self.entries@[i].0@ != key@,
            },
    {
        let n = self.entries.len();
        let mut i: usize = 0;
        while i < n
            invariant
                n == self.entries@.len(),
                i <= n,
                forall|j: int| 0 <= j < i ==> #[trigger] self.entries@[j].0@ != key@,
            decreases n - i,
        {
            if self.entries[i].0 == *key {
                return Some(i);
            }
            i = i + 1;
        }
        None
    }

    /// Whether the map binds `key`.
    pub fn contains_key(&self, key: &String) -> (b: bool)
        ensures
            b == self@.contains_key(key@),
    {
        proof {
            use_type_invariant(self);
            self.lemma_keys();
        }
        match self.position(key) {
            Some(i) => {
                assert(self.key_seq()[i as int] == key@);
                true
            },
            None => {
                assert(!self.key_seq().contains(key@));
                false
            },
        }
    }

    /// The value bound to `key`, if any.
    pub fn get(&self, key: &String) -> (r: Option<&V>)
        ensures
            match r {
                Some(v) => self@.contains_key(key@) && *v == self@[key@],
                None => !self@.contains_key(key@),
            },
    {
        proof {
            use_type_invariant(self);
            self.lemma_keys();
        }
        match self.position(key) {
            Some(i) => {
                proof {
                    lemma_entries_map_index(self.entries@, i as int);
                }
                Some(&self.entries[i].1)
            },
            None => {
                assert(!self.key_seq().contains(key@));
                None
            },
        }
    }

    /// The value bound to the key whose UTF-8 encoding is `key`, if any.
    pub fn get_by_utf8(&self, key: &[u8]) -> (r: Option<&V>)
        ensures
            match r {
                Some(v) => exists|k: Seq<char>|
                    #![trigger self@[k]]
                    self@.contains_key(k) && encode_utf8(k) == key@ && *v == self@[k],
                None => forall|k: Seq<char>|
                    #[trigger] self@.contains_key(k) ==> encode_utf8(k) != key@,
            },
    {
        proof {
            use_type_invariant(self);
        }
        let n = self.entries.len();
        let mut i: usize = 0;
        while i < n
            invariant
                n == self.entries@.len(),
                i <= n,
                distinct_keys(self.entries@),
                forall|j: int| 0 <= j < i ==> encode_utf8(#[trigger] self.entries@[j].0@) != key@,
            decreases n - i,
        {
            let name: &str = self.entries[i].0.as_str();
            if bytes_equal(name.as_bytes(), key) {
                proof {
                    lemma_entries_map_index(self.entries@, i as int);
                    let k = self.entries@[i as int].0@;
                    assert(self@.contains_key(k) && encode_utf8(k) == key@ && self.entries@[i as int].1 == self@[k]);
                }
                return Some(&self.entries[i].1);
            }
            i = i + 1;
        }
        proof {
            assert forall|k: Seq<char>| #[trigger] self@.contains_key(k) implies encode_utf8(k)
                != key@ by {
                lemma_entries_map_dom(self.entries@, k);
                let ks = entries_keys(self.entries@);
                let j = choose|j: int| 0 <= j < ks.len() && ks[j] == k;
                assert(self.entries@[j].0@ == k);
            }
        }
        None
    }

    /// Binds `key` to `value`, replacing the value that `key` had.
    pub fn insert(&mut self, key: String, value: V)
        ensures
            final(self)@ == old(self)@.insert(key@, value),
    {
        proof {
            use_type_invariant(&*self);
        }
        let pos = self.position(&key);
        let mut entries: Vec<(String, V)> = Vec::new();
        std::mem::swap(&mut entries, &mut self.entries);
        let ghost old_entries = entries@;
        match pos {
            Some(i) => {
                proof {
                    lemma_entries_map_update(old_entries, i as int, (key, value));
                }
                entries.set(i, (key, value));
            },
            None => {
                proof {
                    assert(old_entries.push((key, value)).drop_last() =~= old_entries);
                    assert(distinct_keys(old_entries.push((key, value)))) by {
                        let s = old_entries.push((key, value));
                        assert forall|a: int, b: int|
                            0 <= a < s.len() && 0 <= b < s.len() && a != b implies #[trigger] s[a].0@
                            != #[trigger] s[b].0@ by {
                            let n = old_entries.len();
                            if a < n && b < n {
                                assert(s[a] == old_entries[a] && s[b] == old_entries[b]);
                                assert(old_entries[a].0@ != old_entries[b].0@);
                            } else if a < n {
                                assert(s[a] == old_entries[a] && s[b].0 == key);
                                assert(old_entries[a].0@ != key@);
                            } else {
                                assert(s[b] == old_entries[b] && s[a].0 == key);
                                assert(old_entries[b].0@ != key@);
                            }
                        }
                    }
                }
                entries.push((key, value));
            },
        }
        self.entries = entries;
    }
}

} // verus!
