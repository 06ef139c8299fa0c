//! Parameters stored by name: a small map from names to values that keeps
//! at most one value per name.
use vstd::prelude::*;

verus! {

/// The map that a sequence of (name, value) entries denotes; a later entry for
/// a name wins over an earlier one.
pub open spec fn entries_map<V>(s: Seq<(String, V)>) -> Map<Seq<char>, V>
    decreases s.len(),
{
    if s.len() == 0 {
        Map::empty()
    } else {
        entries_map(s.drop_last()).insert(s.last().0@, s.last().1)
    }
}

/// No two entries carry the same name.
pub open spec fn names_unique<V>(s: Seq<(String, V)>) -> bool {
    forall|i: int, j: int| 0 <= i < j < s.len() ==> s[i].0@ != s[j].0@
}

/// A name is a key of the map exactly when some entry carries it.
pub proof fn lemma_entries_map_dom<V>(s: Seq<(String, V)>, k: Seq<char>)
    ensures
        entries_map(s).contains_key(k) <==> exists|i: int| 0 <= i < s.len() && s[i].0@ == k,
    decreases s.len(),
{
    if s.len() > 0 {
        lemma_entries_map_dom(s.drop_last(), k);
        if entries_map(s.drop_last()).contains_key(k) {
            let i = choose|i: int| 0 <= i < s.drop_last().len() && s.drop_last()[i].0@ == k;
            assert(s[i].0@ == k);
        }
        if exists|i: int| 0 <= i < s.len() && s[i].0@ == k {
            let i = choose|i: int| 0 <= i < s.len() && s[i].0@ == k;
            if i < s.len() - 1 {
                assert(s.drop_last()[i].0@ == k);
            }
        }
    }
}

/// With unique names, the value of a name is the value of the entry carrying it.
pub proof fn lemma_entries_map_value<V>(s: Seq<(String, V)>, i: int)
    requires
        names_unique(s),
        0 <= i < s.len(),
    ensures
        entries_map(s).contains_key(s[i].0@),
        entries_map(s)[s[i].0@] == s[i].1,
    decreases s.len(),
{
    if i < s.len() - 1 {
        lemma_entries_map_value(s.drop_last(), i);
        assert(s.drop_last()[i] == s[i]);
    }
}

/// A map from parameter names to values.
#[derive(Debug)]
pub struct ParamMap<V> {
    entries: Vec<(String, V)>,
}

impl<V> View for ParamMap<V> {
    type V = Map<Seq<char>, V>;

    closed spec fn view(&self) -> Map<Seq<char>, V> {
        entries_map(self.entries@)
    }
}

impl<V> ParamMap<V> {
    /// Each name occurs once.
    #[verifier::type_invariant]
    closed spec fn names_once(&self) -> bool {
        names_unique(self.entries@)
    }

    /// An empty map.
    pub fn new() -> (m: ParamMap<V>)
        ensures
            m@ == Map::<Seq<char>, V>::empty(),
    {
        ParamMap { entries: Vec::new() }
    }

    /// Number of names with a value.
    pub fn len(&self) -> (n: usize)
        ensures
            n == self@.len(),
    {
        proof {
            use_type_invariant(self);
        }
        proof {
            self.lemma_len();
        }
        self.entries.len()
    }

    proof fn lemma_len(&self)
        requires
            names_unique(self.entries@),
        ensures
            self@.len() == self.entries@.len(),
            self@.dom().finite(),
        decreases self.entries@.len(),
    {
        let s = self.entries@;
        lemma_entries_len(s);
    }

    /// Position of the entry named `name`.
    fn find(&self, name: &str) -> (r: Option<usize>)
        ensures
            match r {
                Some(i) => i < self.entries@.len() && self.entries@[i as int].0@ == name@,
                None => !self@.contains_key(name@),
            },
    {
        proof {
            use_type_invariant(self);
        }
        let key = String::from_str(name);
        let mut i: usize = 0;
        while i < self.entries.len()
            invariant
                i <= self.entries@.len(),
                key@ == name@,
                forall|j: int| 0 <= j < i ==> self.entries@[j].0@ != name@,
            decreases self.entries@.len() - i,
        {
            if self.entries[i].0 == key {
                return Some(i);
            }
            i = i + 1;
        }
        proof {
            lemma_entries_map_dom(self.entries@, name@);
        }
        None
    }

    /// The value stored under `name`.
    pub fn get(&self, name: &str) -> (r: Option<&V>)
        ensures
            r is Some == self@.contains_key(name@),
            r is Some ==> *r->0 == self@[name@],
    {
        proof {
            use_type_invariant(self);
        }
        match self.find(name) {
            Some(i) => {
                proof {
                    lemma_entries_map_value(self.entries@, i as int);
                }
                Some(&self.entries[i].1)
            },
            None => None,
        }
    }

    /// Whether `name` has a value.
    pub fn contains(&self, name: &str) -> (b: bool)
        ensures
            b == self@.contains_key(name@),
    {
        proof {
            use_type_invariant(self);
        }
        match self.find(name) {
            Some(i) => {
                proof {
                    lemma_entries_map_value(self.entries@, i as int);
                }
                true
            },
            None => false,
        }
    }

    /// Stores `value` under `name`, replacing any earlier value.
    pub fn insert(&mut self, name: &str, value: V)
        ensures
            final(self)@ == old(self)@.insert(name@, value),
    {
        proof {
            use_type_invariant(&*self);
        }
        let ghost old_entries = self.entries@;
        match self.find(name) {
            Some(i) => {
                let key = String::from_str(name);
                let mut entries: Vec<(String, V)> = Vec::new();
                std::mem::swap(&mut entries, &mut self.entries);
                entries.set(i, (key, value));
                proof {
                    let s = entries@;
                    assert(names_unique(s)) by {
                        assert forall|a: int, b: int| 0 <= a < b < s.len() implies s[a].0@ != s[b].0@ by {
                            assert(old_entries[a].0@ != old_entries[b].0@);
                        }
                    }
                    assert forall|k: Seq<char>| #[trigger] entries_map(s).contains_key(k)
                        == old(self)@.insert(name@, value).contains_key(k) by {
                        lemma_entries_map_dom(s, k);
                        lemma_entries_map_dom(old_entries, k);
                        if exists|j: int| 0 <= j < s.len() && s[j].0@ == k {
                            let j = choose|j: int| 0 <= j < s.len() && s[j].0@ == k;
                            if j != i {
                                assert(old_entries[j].0@ == k);
                            }
                        }
                        if exists|j: int| 0 <= j < old_entries.len() && old_entries[j].0@ == k {
                            let j = choose|j: int| 0 <= j < old_entries.len() && old_entries[j].0@ == k;
                            assert(s[j].0@ == k);
                        }
                    }
                    assert forall|k: Seq<char>| #[trigger] entries_map(s).contains_key(k) implies
                        entries_map(s)[k] == old(self)@.insert(name@, value)[k] by {
                        lemma_entries_map_dom(s, k);
                        let j = choose|j: int| 0 <= j < s.len() && s[j].0@ == k;
                        lemma_entries_map_value(s, j);
                        if j != i {
                            lemma_entries_map_value(old_entries, j);
                        }
                    }
                    assert(entries_map(s) =~= old(self)@.insert(name@, value));
                }
                self.entries = entries;
            },
            None => {
                let key = String::from_str(name);
                let mut entries: Vec<(String, V)> = Vec::new();
                std::mem::swap(&mut entries, &mut self.entries);
                entries.push((key, value));
                proof {
                    let s = entries@;
                    assert(s.drop_last() =~= old_entries);
                    assert(names_unique(s)) by {
                        assert forall|a: int, b: int| 0 <= a < b < s.len() implies s[a].0@ != s[b].0@ by {
                            if b == s.len() - 1 {
                                lemma_entries_map_dom(old_entries, name@);
                                assert(old_entries[a].0@ == s[a].0@);
                            }
                        }
                    }
                }
                self.entries = entries;
            },
        }
    }

    /// Removes the value stored under `name` and returns it.
    pub fn remove(&mut self, name: &str) -> (r: Option<V>)
        ensures
            final(self)@ == old(self)@.remove(name@),
            r is Some == old(self)@.contains_key(name@),
            r is Some ==> r->0 == old(self)@[name@],
    {
        proof {
            use_type_invariant(&*self);
        }
        let ghost old_entries = self.entries@;
        match self.find(name) {
            Some(i) => {
                proof {
                    lemma_entries_map_value(old_entries, i as int);
                }
                let mut entries: Vec<(String, V)> = Vec::new();
                std::mem::swap(&mut entries, &mut self.entries);
                let (_, v) = entries.remove(i);
                proof {
                    let s = entries@;
                    assert(names_unique(s)) by {
                        assert forall|a: int, b: int| 0 <= a < b < s.len() implies s[a].0@ != s[b].0@ by {
                            if a < i {
                                if b < i {
                                    assert(old_entries[a].0@ != old_entries[b].0@);
                                } else {
                                    assert(old_entries[a].0@ != old_entries[b + 1].0@);
                                }
                            } else {
                                assert(old_entries[a + 1].0@ != old_entries[b + 1].0@);
                            }
                        }
                    }
                    assert forall|k: Seq<char>| #[trigger] entries_map(s).contains_key(k)
                        == old(self)@.remove(name@).contains_key(k) by {
                        lemma_entries_map_dom(s, k);
                        lemma_entries_map_dom(old_entries, k);
                        if exists|j: int| 0 <= j < s.len() && s[j].0@ == k {
                            let j = choose|j: int| 0 <= j < s.len() && s[j].0@ == k;
                            if j < i {
                                assert(old_entries[j].0@ == k);
                                assert(old_entries[j].0@ != old_entries[i as int].0@);
                            } else {
                                assert(old_entries[j + 1].0@ == k);
                                assert(old_entries[j + 1].0@ != old_entries[i as int].0@);
                            }
                        }
                        if k != name@ && exists|j: int| 0 <= j < old_entries.len() && old_entries[j].0@ == k {
                            let j = choose|j: int| 0 <= j < old_entries.len() && old_entries[j].0@ == k;
                            if j < i {
                                assert(s[j].0@ == k);
                            } else {
                                assert(j != i);
                                assert(s[j - 1].0@ == k);
                            }
                        }
                    }
                    assert forall|k: Seq<char>| #[trigger] entries_map(s).contains_key(k) implies
                        entries_map(s)[k] == old(self)@.remove(name@)[k] by {
                        lemma_entries_map_dom(s, k);
                        let j = choose|j: int| 0 <= j < s.len() && s[j].0@ == k;
                        lemma_entries_map_value(s, j);
                        if j < i {
                            lemma_entries_map_value(old_entries, j);
                        } else {
                            lemma_entries_map_value(old_entries, j + 1);
                        }
                    }
                    assert(entries_map(s) =~= old(self)@.remove(name@));
                }
                self.entries = entries;
                Some(v)
            },
            None => {
                assert(old(self)@.remove(name@) =~= old(self)@);
                None
            },
        }
    }

    /// The names, in the order they were first stored.
    pub fn names(&self) -> (r: Vec<String>)
        ensures
            r@.len() == self@.len(),
            forall|i: int| 0 <= i < r@.len() ==> self@.contains_key(#[trigger] r@[i]@),
            forall|k: Seq<char>| self@.contains_key(k) ==> exists|i: int| 0 <= i < r@.len() && r@[i]@ == k,
    {
        proof {
            use_type_invariant(self);
        }
        proof {
            self.lemma_len();
        }
        let mut r: Vec<String> = Vec::new();
        let mut i: usize = 0;
        while i < self.entries.len()
            invariant
                i <= self.entries@.len(),
                r@.len() == i,
                forall|j: int| 0 <= j < i ==> (#[trigger] r@[j])@ == self.entries@[j].0@,
            decreases self.entries@.len() - i,
        {
            r.push(self.entries[i].0.clone());
            i = i + 1;
        }
        proof {
            assert forall|j: int| 0 <= j < r@.len() implies self@.contains_key(#[trigger] r@[j]@) by {
                lemma_entries_map_value(self.entries@, j);
            }
            assert forall|k: Seq<char>| self@.contains_key(k) implies exists|j: int|
                0 <= j < r@.len() && r@[j]@ == k by {
                lemma_entries_map_dom(self.entries@, k);
                let j = choose|j: int| 0 <= j < self.entries@.len() && self.entries@[j].0@ == k;
                assert(r@[j]@ == k);
            }
        }
        r
    }
}

/// With unique names, the map has one key per entry.
pub proof fn lemma_entries_len<V>(s: Seq<(String, V)>)
    requires
        names_unique(s),
    ensures
        entries_map(s).dom().finite(),
        entries_map(s).len() == s.len(),
    decreases s.len(),
{
    if s.len() > 0 {
        lemma_entries_len(s.drop_last());
        lemma_entries_map_dom(s.drop_last(), s.last().0@);
        if entries_map(s.drop_last()).contains_key(s.last().0@) {
            let i = choose|i: int| 0 <= i < s.drop_last().len() && s.drop_last()[i].0@ == s.last().0@;
            assert(s[i].0@ == s[s.len() - 1].0@);
        }
    }
}

} // verus!
