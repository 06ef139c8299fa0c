//! A CAD document: an ordered tree of features, named parameters, metadata
//! and the undo history.
use vstd::prelude::*;
use std::collections::HashMap;
use indexmap::IndexMap;
use crate::feature::Feature;
use crate::history::{History, HistoryView};
use crate::ids::{EntityId, FeatureId};
use crate::param_map::ParamMap;
use crate::{Error, Units};
use vstd::std_specs::hash::spec_hash_map_iter;
use vstd::std_specs::iter::IteratorSpec;

verus! {

broadcast use vstd::std_specs::hash::group_hash_axioms;

/// `indexmap::IndexMap`, the insertion-ordered map of the document's features;
/// what it holds is stated through [`feature_entries`].
#[verifier::external_type_specification]
#[verifier::external_body]
#[verifier::reject_recursive_types(K)]
#[verifier::reject_recursive_types(V)]
#[verifier::reject_recursive_types(S)]
pub struct ExIndexMap<K, V, S>(IndexMap<K, V, S>);

/// The entries of an `IndexMap` of features, keyed by the 128-bit value of the
/// feature identifier, in the map's order.
pub uninterp spec fn feature_entries(m: IndexMap<u128, Feature>) -> Seq<(u128, Feature)>;

/// Whether some entry of `s` has key `k`.
pub open spec fn has_key(s: Seq<(u128, Feature)>, k: u128) -> bool {
    exists|i: int| 0 <= i < s.len() && s[i].0 == k
}

/// The position of the entry with key `k` (meaningful when there is one).
pub open spec fn position_of(s: Seq<(u128, Feature)>, k: u128) -> int {
    choose|i: int| 0 <= i < s.len() && s[i].0 == k
}

/// No two entries share a key.
pub open spec fn keys_unique(s: Seq<(u128, Feature)>) -> bool {
    forall|i: int, j: int| 0 <= i < j < s.len() ==> s[i].0 != s[j].0
}

/// `IndexMap::new`: an empty map.
#[verifier::external_body]
fn features_new() -> (m: IndexMap<u128, Feature>)
    ensures
        feature_entries(m) == Seq::<(u128, Feature)>::empty(),
{
    IndexMap::new()
}

/// `IndexMap::insert`: an existing key keeps its place and gets the new value,
/// and the old value is returned; a new key is appended last.
#[verifier::external_body]
fn features_insert(m: &mut IndexMap<u128, Feature>, k: u128, v: Feature) -> (r: Option<Feature>)
    ensures
        keys_unique(feature_entries(*final(m))),
        ({
            let s = feature_entries(*old(m));
            if has_key(s, k) {
                &&& r == Some(s[position_of(s, k)].1)
                &&& feature_entries(*final(m)) == s.update(position_of(s, k), (k, v))
            } else {
                &&& r is None
                &&& feature_entries(*final(m)) == s.push((k, v))
            }
        }),
{
    m.insert(k, v)
}

/// `IndexMap::get`: the value stored under `k`.
#[verifier::external_body]
fn features_get(m: &IndexMap<u128, Feature>, k: u128) -> (r: Option<&Feature>)
    ensures
        ({
            let s = feature_entries(*m);
            if has_key(s, k) {
                r is Some && *r->0 == s[position_of(s, k)].1
            } else {
                r is None
            }
        }),
{
    m.get(&k)
}

/// `IndexMap::get_mut`: a mutable reference to the value stored under `k`;
/// what is written through it becomes the entry's value, in place.
#[verifier::external_body]
fn features_get_mut(m: &mut IndexMap<u128, Feature>, k: u128) -> (r: Option<&mut Feature>)
    ensures
        ({
            let s = feature_entries(*old(m));
            if has_key(s, k) {
                &&& r is Some
                &&& *r->0 == s[position_of(s, k)].1
                &&& feature_entries(*final(m)) == s.update(position_of(s, k), (k, *final(r->0)))
            } else {
                &&& r is None
                &&& feature_entries(*final(m)) == s
            }
        }),
{
    m.get_mut(&k)
}

/// `IndexMap::contains_key`.
#[verifier::external_body]
fn features_contains(m: &IndexMap<u128, Feature>, k: u128) -> (b: bool)
    ensures
        b == has_key(feature_entries(*m), k),
{
    m.contains_key(&k)
}

/// `IndexMap::len`.
#[verifier::external_body]
fn features_len(m: &IndexMap<u128, Feature>) -> (n: usize)
    ensures
        n == feature_entries(*m).len(),
{
    m.len()
}

/// `IndexMap::get_index`: the entry at position `i`.
#[verifier::external_body]
fn features_get_index(m: &IndexMap<u128, Feature>, i: usize) -> (r: Option<(&u128, &Feature)>)
    ensures
        ({
            let s = feature_entries(*m);
            if i < s.len() {
                r is Some && *r.unwrap().0 == s[i as int].0 && *r.unwrap().1 == s[i as int].1
            } else {
                r is None
            }
        }),
{
    m.get_index(i)
}

/// `IndexMap::shift_remove`: removes the entry with key `k`, the entries after it
/// moving up one place in their order, and returns its value.
#[verifier::external_body]
fn features_shift_remove(m: &mut IndexMap<u128, Feature>, k: u128) -> (r: Option<Feature>)
    ensures
        ({
            let s = feature_entries(*old(m));
            if has_key(s, k) {
                &&& r == Some(s[position_of(s, k)].1)
                &&& feature_entries(*final(m)) == s.remove(position_of(s, k))
            } else {
                &&& r is None
                &&& feature_entries(*final(m)) == s
            }
        }),
{
    m.shift_remove(&k)
}

/// `IndexMap::keys`, collected: the keys in the map's order. An `IndexMap` holds
/// each key once.
#[verifier::external_body]
fn features_keys(m: &IndexMap<u128, Feature>) -> (ks: Vec<u128>)
    ensures
        ks@ == feature_entries(*m).map_values(|e: (u128, Feature)| e.0),
        ks@.no_duplicates(),
{
    m.keys().copied().collect()
}

/// The roots among the entries `s`: keys without a parent in `p`, in order.
pub open spec fn roots_of(s: Seq<(u128, Feature)>, p: Map<u128, u128>) -> Seq<u128>
    decreases s.len(),
{
    if s.len() == 0 {
        Seq::empty()
    } else if p.contains_key(s.last().0) {
        roots_of(s.drop_last(), p)
    } else {
        roots_of(s.drop_last(), p).push(s.last().0)
    }
}

/// `d` is `a`, or going up from `d` through at most `n` parent links reaches `a`.
pub open spec fn reaches(p: Map<u128, u128>, d: u128, a: u128, n: nat) -> bool
    decreases n,
{
    d == a || (n > 0 && p.contains_key(d) && reaches(p, p[d], a, (n - 1) as nat))
}

/// `d` is `a` or one of its descendants in the parent map `p`.
pub open spec fn in_subtree(p: Map<u128, u128>, d: u128, a: u128) -> bool {
    exists|n: nat| reaches(p, d, a, n)
}

/// The keys of `a` and of all its descendants in the parent map `p`.
pub open spec fn subtree_set(p: Map<u128, u128>, a: u128) -> Set<u128> {
    Set::new(|k: u128| in_subtree(p, k, a))
}

/// Every key of the subtree of `a` in `p` is a key of the entries `s`.
pub open spec fn subtree_present(s: Seq<(u128, Feature)>, p: Map<u128, u128>, a: u128) -> bool {
    forall|k: u128| #[trigger] in_subtree(p, k, a) ==> has_key(s, k)
}

/// The value stored under key `k` (meaningful when there is one).
pub open spec fn value_of(s: Seq<(u128, Feature)>, k: u128) -> Feature {
    s[position_of(s, k)].1
}

/// With unique keys, the position of a key is the one index that holds it.
pub proof fn lemma_position_unique(s: Seq<(u128, Feature)>, j: int)
    requires
        keys_unique(s),
        0 <= j < s.len(),
    ensures
        has_key(s, s[j].0),
        position_of(s, s[j].0) == j,
{
    assert(s[j].0 == s[j].0);
    let i = position_of(s, s[j].0);
    if i != j {
        if i < j {
            assert(s[i].0 != s[j].0);
        } else {
            assert(s[j].0 != s[i].0);
        }
    }
}

/// Removing a position the way `shift_remove` does drops exactly that key and
/// keeps the others with their values.
pub proof fn lemma_removed(s: Seq<(u128, Feature)>, i: int)
    requires
        keys_unique(s),
        0 <= i < s.len(),
    ensures
        keys_unique(s.remove(i)),
        forall|k: u128| #[trigger] has_key(s.remove(i), k) <==> (has_key(s, k) && k != s[i].0),
        forall|k: u128| #[trigger] has_key(s.remove(i), k) ==> value_of(s.remove(i), k) == value_of(s, k),
{
    let r = s.remove(i);
    assert(r.len() == s.len() - 1);
    assert forall|j: int| 0 <= j < r.len() implies r[j] == s[if j < i { j } else { j + 1 }] by {}
    assert forall|a: int, b: int| 0 <= a < b < r.len() implies r[a].0 != r[b].0 by {
        let sa = if a < i { a } else { a + 1 };
        let sb = if b < i { b } else { b + 1 };
        assert(r[a] == s[sa] && r[b] == s[sb]);
        assert(s[sa].0 != s[sb].0);
    }
    assert forall|k: u128| #[trigger] has_key(r, k) <==> (has_key(s, k) && k != s[i].0) by {
        if has_key(r, k) {
            let j = choose|j: int| 0 <= j < r.len() && r[j].0 == k;
            let sj = if j < i { j } else { j + 1 };
            assert(r[j] == s[sj]);
            if sj < i {
                assert(s[sj].0 != s[i].0);
            } else {
                assert(s[i].0 != s[sj].0);
            }
        }
        if has_key(s, k) && k != s[i].0 {
            let j = choose|j: int| 0 <= j < s.len() && s[j].0 == k;
            assert(j != i);
            if j < i {
                assert(r[j].0 == k);
            } else {
                assert(r[j - 1] == s[j]);
                assert(r[j - 1].0 == k);
            }
        }
    }
    assert forall|k: u128| #[trigger] has_key(r, k) implies value_of(r, k) == value_of(s, k) by {
        let j = position_of(r, k);
        lemma_position_unique(r, j);
        let sj = if j < i { j } else { j + 1 };
        assert(r[j] == s[sj]);
        lemma_position_unique(s, sj);
    }
}

/// The entries of `s` whose keys are not in `gone`, in their order.
pub open spec fn without_keys(s: Seq<(u128, Feature)>, gone: Set<u128>) -> Seq<(u128, Feature)>
    decreases s.len(),
{
    if s.len() == 0 {
        Seq::empty()
    } else if gone.contains(s.last().0) {
        without_keys(s.drop_last(), gone)
    } else {
        without_keys(s.drop_last(), gone).push(s.last())
    }
}

/// The entries kept by [`without_keys`] are those of `s` with a key outside
/// `gone`, each key still once.
pub proof fn lemma_without_keys_members(s: Seq<(u128, Feature)>, gone: Set<u128>)
    ensures
        forall|k: u128| #[trigger] has_key(without_keys(s, gone), k) <==> (has_key(s, k) && !gone.contains(k)),
        keys_unique(s) ==> keys_unique(without_keys(s, gone)),
    decreases s.len(),
{
    if s.len() > 0 {
        let t = s.drop_last();
        let l = s.last();
        lemma_without_keys_members(t, gone);
        let w0 = without_keys(t, gone);
        let w = without_keys(s, gone);
        if gone.contains(l.0) {
            assert(w == w0);
        } else {
            assert(w == w0.push(l));
        }
        assert forall|k: u128| #[trigger] has_key(w, k) <==> (has_key(s, k) && !gone.contains(k)) by {
            if has_key(w, k) {
                let j = choose|j: int| 0 <= j < w.len() && w[j].0 == k;
                if !gone.contains(l.0) && j == w0.len() {
                    assert(s[s.len() - 1].0 == k);
                } else {
                    assert(w[j] == w0[j]);
                    assert(has_key(w0, k));
                    let q = choose|q: int| 0 <= q < t.len() && t[q].0 == k;
                    assert(t[q] == s[q]);
                }
            }
            if has_key(s, k) && !gone.contains(k) {
                let q = choose|q: int| 0 <= q < s.len() && s[q].0 == k;
                if q == s.len() - 1 {
                    assert(w[w0.len() as int].0 == k);
                } else {
                    assert(t[q] == s[q]);
                    assert(has_key(t, k));
                    assert(has_key(w0, k));
                    let j = choose|j: int| 0 <= j < w0.len() && w0[j].0 == k;
                    assert(w[j] == w0[j]);
                }
            }
        }
        if keys_unique(s) {
            assert(keys_unique(t));
            if !gone.contains(l.0) {
                assert(!has_key(t, l.0)) by {
                    if has_key(t, l.0) {
                        let q = choose|q: int| 0 <= q < t.len() && t[q].0 == l.0;
                        assert(s[q].0 != s[s.len() - 1].0);
                    }
                }
                assert forall|a: int, b: int| 0 <= a < b < w.len() implies w[a].0 != w[b].0 by {
                    if b == w0.len() {
                        assert(w[a] == w0[a]);
                        if w0[a].0 == l.0 {
                            assert(has_key(w0, l.0));
                        }
                    } else {
                        assert(w0[a].0 != w0[b].0);
                    }
                }
            }
        }
    }
}

/// With nothing to leave out, every entry is kept.
pub proof fn lemma_without_keys_nothing(s: Seq<(u128, Feature)>)
    ensures
        without_keys(s, Set::<u128>::empty()) == s,
    decreases s.len(),
{
    if s.len() > 0 {
        lemma_without_keys_nothing(s.drop_last());
        assert(s.drop_last().push(s.last()) =~= s);
    }
}

/// A key that `s` does not hold changes nothing when it joins `gone`.
pub proof fn lemma_without_keys_absent(s: Seq<(u128, Feature)>, gone: Set<u128>, d: u128)
    requires
        !has_key(s, d),
    ensures
        without_keys(s, gone.insert(d)) == without_keys(s, gone),
    decreases s.len(),
{
    if s.len() > 0 {
        assert(!has_key(s.drop_last(), d)) by {
            if has_key(s.drop_last(), d) {
                let q = choose|q: int| 0 <= q < s.drop_last().len() && s.drop_last()[q].0 == d;
                assert(s[q].0 == d);
            }
        }
        assert(s[s.len() - 1].0 != d);
        lemma_without_keys_absent(s.drop_last(), gone, d);
    }
}

/// Removing the entry of one more key from what [`without_keys`] kept, the way
/// `shift_remove` does, leaves what it keeps without that key too.
pub proof fn lemma_without_keys_remove(s: Seq<(u128, Feature)>, gone: Set<u128>, d: u128)
    requires
        keys_unique(s),
        has_key(s, d),
        !gone.contains(d),
    ensures
        has_key(without_keys(s, gone), d),
        without_keys(s, gone).remove(position_of(without_keys(s, gone), d)) == without_keys(s, gone.insert(d)),
    decreases s.len(),
{
    let t = s.drop_last();
    let l = s.last();
    let w = without_keys(s, gone);
    let w0 = without_keys(t, gone);
    lemma_without_keys_members(s, gone);
    lemma_without_keys_members(t, gone);
    assert(keys_unique(t));
    if l.0 == d {
        assert(!has_key(t, d)) by {
            if has_key(t, d) {
                let q = choose|q: int| 0 <= q < t.len() && t[q].0 == d;
                assert(s[q].0 != s[s.len() - 1].0);
            }
        }
        lemma_without_keys_absent(t, gone, d);
        assert(w == w0.push(l));
        assert(w[w0.len() as int].0 == d);
        lemma_position_unique(w, w0.len() as int);
        assert(w.remove(w0.len() as int) =~= w0);
    } else {
        assert(has_key(t, d)) by {
            let q = choose|q: int| 0 <= q < s.len() && s[q].0 == d;
            assert(q != s.len() - 1);
            assert(t[q].0 == d);
        }
        lemma_without_keys_remove(t, gone, d);
        let j = position_of(w0, d);
        assert(0 <= j < w0.len() && w0[j].0 == d);
        if gone.contains(l.0) {
            assert(w == w0);
        } else {
            assert(w == w0.push(l));
            assert(w[j] == w0[j]);
            lemma_position_unique(w, j);
            assert(w.remove(j) =~= w0.remove(j).push(l));
        }
    }
}

/// A set of keys that holds `a` and every child of each of its members holds
/// the whole subtree of `a`.
pub proof fn lemma_closed_set_holds_subtree(
    p: Map<u128, u128>,
    links: Seq<(u128, u128)>,
    set: Seq<u128>,
    a: u128,
    d: u128,
    n: nat,
)
    requires
        set.contains(a),
        forall|k: u128| #[trigger] p.contains_key(k) ==> links.contains((k, p[k])),
        forall|j: int| 0 <= j < links.len() && set.contains(#[trigger] links[j].1) ==> set.contains(links[j].0),
        reaches(p, d, a, n),
    ensures
        set.contains(d),
    decreases n,
{
    if d != a {
        lemma_closed_set_holds_subtree(p, links, set, a, p[d], (n - 1) as nat);
        let j = choose|j: int| 0 <= j < links.len() && links[j] == (d, p[d]);
        assert(set.contains(links[j].1));
    }
}

/// A value of a named document parameter.
#[derive(Debug, Clone)]
pub enum ParameterValue {
    /// A number, held by its bit pattern.
    Number(crate::Real),
    Integer(i64),
    Boolean(bool),
    String(String),
    /// An expression that evaluates to a number.
    Expression(String),
}

impl ParameterValue {
    /// The value as a boolean, when it is one.
    pub fn as_boolean(&self) -> (r: Option<bool>)
        ensures
            r == match *self {
                ParameterValue::Boolean(b) => Some(b),
                _ => None,
            },
    {
        match self {
            ParameterValue::Boolean(b) => Some(*b),
            _ => None,
        }
    }

    /// The text of a string or expression value.
    pub fn as_string(&self) -> (r: Option<&str>)
        ensures
            match *self {
                ParameterValue::String(s) => r is Some && r->0@ == s@,
                ParameterValue::Expression(e) => r is Some && r->0@ == e@,
                _ => r is None,
            },
    {
        match self {
            ParameterValue::String(s) => Some(s.as_str()),
            ParameterValue::Expression(e) => Some(e.as_str()),
            _ => None,
        }
    }
}

/// Descriptive data of a document.
#[derive(Debug)]
pub struct DocumentMetadata {
    pub author: String,
    pub company: String,
    /// Creation time, in seconds since the Unix epoch.
    pub created_at: u64,
    /// Last modification time, in seconds since the Unix epoch.
    pub modified_at: u64,
    pub version: u32,
    /// Custom properties.
    pub custom: ParamMap<String>,
}

impl DocumentMetadata {
    /// Empty metadata.
    pub fn new() -> (m: DocumentMetadata)
        ensures
            m.author@ == Seq::<char>::empty(),
            m.company@ == Seq::<char>::empty(),
            m.created_at == 0,
            m.modified_at == 0,
            m.version == 0,
            m.custom@ == Map::<Seq<char>, String>::empty(),
    {
        DocumentMetadata {
            author: String::new(),
            company: String::new(),
            created_at: 0,
            modified_at: 0,
            version: 0,
            custom: ParamMap::new(),
        }
    }
}

/// The message of a feature added as its own child.
pub open spec fn self_parent_message() -> Seq<char> {
    "A feature cannot be its own parent"@
}

/// A CAD document.
#[derive(Debug)]
pub struct Document {
    pub id: EntityId,
    pub name: String,
    pub description: String,
    /// Default units of the document.
    pub units: Units,
    /// Features keyed by the value of their identifier, in creation order.
    pub features: IndexMap<u128, Feature>,
    /// Parent of each child feature (child to parent, by identifier value).
    pub feature_parents: HashMap<u128, u128>,
    /// Named parameters.
    pub parameters: ParamMap<ParameterValue>,
    pub metadata: DocumentMetadata,
    /// Undo/redo history.
    pub history: History,
    /// Whether there are unsaved changes.
    pub is_dirty: bool,
}

impl Document {
    /// The entries of the feature map.
    pub open spec fn entries(&self) -> Seq<(u128, Feature)> {
        feature_entries(self.features)
    }

    /// Well-formedness: feature keys are unique, every parent link joins two
    /// features of the document, and the history is well formed.
    pub open spec fn wf(&self) -> bool {
        &&& keys_unique(self.entries())
        &&& forall|c: u128| #[trigger]
            self.feature_parents@.contains_key(c) ==> has_key(self.entries(), c) && has_key(
                self.entries(),
                self.feature_parents@[c],
            )
        &&& self.history@.wf()
    }

    /// `self` has the identifier, name, description, units, parameters,
    /// metadata and history of `other`.
    pub open spec fn same_header(&self, other: &Document) -> bool {
        &&& self.id == other.id
        &&& self.name == other.name
        &&& self.description == other.description
        &&& self.units == other.units
        &&& self.parameters == other.parameters
        &&& self.metadata == other.metadata
        &&& self.history == other.history
    }

    /// A new empty document named `name`.
    pub fn new(name: &str) -> (d: Document)
        ensures
            d.wf(),
            d.name@ == name@,
            d.description@ == Seq::<char>::empty(),
            d.units == Units::Millimeters,
            d.entries() == Seq::<(u128, Feature)>::empty(),
            d.feature_parents@ == Map::<u128, u128>::empty(),
            d.parameters@ == Map::<Seq<char>, ParameterValue>::empty(),
            d.history@ == HistoryView::empty(),
            !d.is_dirty,
    {
        Document {
            id: EntityId::new(),
            name: String::from_str(name),
            description: String::new(),
            units: Units::default(),
            features: features_new(),
            feature_parents: HashMap::new(),
            parameters: ParamMap::new(),
            metadata: DocumentMetadata::new(),
            history: History::new(),
            is_dirty: false,
        }
    }

    /// Adds a feature (replacing one with the same identifier, in place) and
    /// returns its identifier.
    pub fn add_feature(&mut self, feature: Feature) -> (id: FeatureId)
        ensures
            old(self).wf() ==> final(self).wf(),
            final(self).same_header(&*old(self)),
            id == feature.id,
            has_key(old(self).entries(), id.0) ==> final(self).entries() == old(self).entries().update(
                position_of(old(self).entries(), id.0),
                (id.0, feature),
            ),
            !has_key(old(self).entries(), id.0) ==> final(self).entries() == old(self).entries().push(
                (id.0, feature),
            ),
            final(self).feature_parents@ == old(self).feature_parents@,
            final(self).is_dirty,
            has_key(final(self).entries(), id.0),
            forall|k: u128| has_key(old(self).entries(), k) ==> has_key(final(self).entries(), k),
    {
        let id = feature.id;
        let ghost s = self.entries();
        proof {
            if has_key(s, id.0) {
                let p = position_of(s, id.0);
                assert(s[p].0 == id.0);
            }
        }
        features_insert(&mut self.features, id.0, feature);
        self.is_dirty = true;
        proof {
            let t = self.entries();
            if has_key(s, id.0) {
                let p = position_of(s, id.0);
                assert(0 <= p < t.len() && t[p].0 == id.0);
            } else {
                assert(t[s.len() as int].0 == id.0);
            }
            assert(has_key(t, id.0));
            assert forall|k: u128| has_key(s, k) implies has_key(t, k) by {
                let i = choose|i: int| 0 <= i < s.len() && s[i].0 == k;
                if has_key(s, id.0) {
                    let p = position_of(s, id.0);
                    if i == p {
                        assert(t[i].0 == k);
                    } else {
                        assert(t[i].0 == k);
                    }
                } else {
                    assert(t[i].0 == k);
                }
            }
        }
        id
    }

    /// Adds a feature as a child of another feature, `parent`; fails, changing
    /// nothing, when there is no such parent or when the feature would be its
    /// own parent.
    pub fn add_feature_child(&mut self, feature: Feature, parent: FeatureId) -> (r: Result<FeatureId, Error>)
        ensures
            old(self).wf() ==> final(self).wf(),
            final(self).same_header(&*old(self)),
            !has_key(old(self).entries(), parent.0) ==> r == Err::<FeatureId, Error>(Error::FeatureNotFound(parent))
                && *final(self) == *old(self),
            has_key(old(self).entries(), parent.0) && feature.id == parent ==> (r matches Err(Error::InvalidOperation(m))
                && m@ == self_parent_message()) && *final(self) == *old(self),
            has_key(old(self).entries(), parent.0) && feature.id != parent ==> r == Ok::<FeatureId, Error>(feature.id) && final(self).is_dirty
                && final(self).feature_parents@ == old(self).feature_parents@.insert(feature.id.0, parent.0)
                && (has_key(old(self).entries(), feature.id.0) ==> final(self).entries() == old(self).entries().update(
                    position_of(old(self).entries(), feature.id.0),
                    (feature.id.0, feature),
                ))
                && (!has_key(old(self).entries(), feature.id.0) ==> final(self).entries() == old(self).entries().push(
                    (feature.id.0, feature),
                )),
    {
        if !features_contains(&self.features, parent.0) {
            return Err(Error::FeatureNotFound(parent));
        }
        if feature.id.0 == parent.0 {
            return Err(Error::InvalidOperation(String::from_str("A feature cannot be its own parent")));
        }
        let id = self.add_feature(feature);
        self.feature_parents.insert(id.0, parent.0);
        Ok(id)
    }

    /// The feature with identifier `id`.
    pub fn get_feature(&self, id: FeatureId) -> (r: Option<&Feature>)
        ensures
            has_key(self.entries(), id.0) ==> r is Some && *r->0 == self.entries()[position_of(self.entries(), id.0)].1,
            !has_key(self.entries(), id.0) ==> r is None,
    {
        features_get(&self.features, id.0)
    }

    /// Mutable access to the feature with identifier `id`; marks the document changed.
    pub fn get_feature_mut(&mut self, id: FeatureId) -> (r: Option<&mut Feature>)
        ensures
            final(self).same_header(&*old(self)),
            final(self).is_dirty,
            final(self).feature_parents@ == old(self).feature_parents@,
            has_key(old(self).entries(), id.0) ==> r is Some
                && *r->0 == old(self).entries()[position_of(old(self).entries(), id.0)].1
                && final(self).entries() == old(self).entries().update(
                    position_of(old(self).entries(), id.0),
                    (id.0, *final(r->0)),
                ),
            !has_key(old(self).entries(), id.0) ==> r is None && final(self).entries() == old(self).entries(),
    {
        self.is_dirty = true;
        features_get_mut(&mut self.features, id.0)
    }

    /// The parent of feature `id`.
    pub fn get_parent(&self, id: FeatureId) -> (r: Option<FeatureId>)
        ensures
            self.feature_parents@.contains_key(id.0) ==> r == Some(FeatureId(self.feature_parents@[id.0])),
            !self.feature_parents@.contains_key(id.0) ==> r is None,
    {
        match self.feature_parents.get(&id.0) {
            Some(p) => Some(FeatureId(*p)),
            None => None,
        }
    }

    /// The children of feature `id`, each once, in no particular order.
    pub fn get_children(&self, id: FeatureId) -> (r: Vec<FeatureId>)
        ensures
            r@.no_duplicates(),
            forall|c: FeatureId| r@.contains(c) <==> (self.feature_parents@.contains_key(c.0)
                && self.feature_parents@[c.0] == id.0),
    {
        let mut r: Vec<FeatureId> = Vec::new();
        let ghost m = self.feature_parents@;
        let ghost v = spec_hash_map_iter(&self.feature_parents).remaining();
        for pair in it: self.feature_parents.iter()
            invariant
                m == self.feature_parents@,
                it.seq() == v,
                v.no_duplicates(),
                forall|j: int| #![trigger v[j]] 0 <= j < v.len() ==> m.contains_key(*v[j].0) && m[*v[j].0] == *v[j].1,
                r@.no_duplicates(),
                forall|c: FeatureId| r@.contains(c) <==> exists|j: int| 0 <= j < it.index() && *v[j].0 == c.0 && *v[j].1 == id.0,
        {
            let (child, parent) = pair;
            if *parent == id.0 {
                proof {
                    let k = it.index();
                    assert(v[k] == pair);
                    if r@.contains(FeatureId(*child)) {
                        let j = choose|j: int| 0 <= j < k && *v[j].0 == *child && *v[j].1 == id.0;
                        assert(v[j] == v[k]);
                    }
                }
                let ghost old_r = r@;
                let ghost k = it.index();
                r.push(FeatureId(*child));
                proof {
                    assert forall|c: FeatureId| r@.contains(c) <==> exists|j: int| 0 <= j < k + 1 && *v[j].0 == c.0 && *v[j].1 == id.0 by {
                        if r@.contains(c) {
                            let q = choose|q: int| 0 <= q < r@.len() && r@[q] == c;
                            if q == old_r.len() {
                                assert(*v[k].0 == c.0 && *v[k].1 == id.0);
                            } else {
                                assert(old_r[q] == c);
                                assert(old_r.contains(c));
                            }
                        }
                        if exists|j: int| 0 <= j < k + 1 && *v[j].0 == c.0 && *v[j].1 == id.0 {
                            let j = choose|j: int| 0 <= j < k + 1 && *v[j].0 == c.0 && *v[j].1 == id.0;
                            if j == k {
                                assert(r@[old_r.len() as int] == c);
                            } else {
                                assert(old_r.contains(c));
                                let q = choose|q: int| 0 <= q < old_r.len() && old_r[q] == c;
                                assert(r@[q] == c);
                            }
                        }
                    }
                }
            }
        }
        proof {
            assert forall|c: FeatureId| (m.contains_key(c.0) && m[c.0] == id.0) implies r@.contains(c) by {
                assert(v.contains((&c.0, &m[c.0])));
                let j = choose|j: int| 0 <= j < v.len() && v[j] == (&c.0, &m[c.0]);
            }
        }
        r
    }

    /// The roots of the feature tree: features without a parent, in feature order.
    pub fn get_root_features(&self) -> (r: Vec<FeatureId>)
        ensures
            r@.map_values(|f: FeatureId| f.0) == roots_of(self.entries(), self.feature_parents@),
    {
        let mut r: Vec<FeatureId> = Vec::new();
        let n = features_len(&self.features);
        let mut i: usize = 0;
        while i < n
            invariant
                n == self.entries().len(),
                i <= n,
                r@.map_values(|f: FeatureId| f.0) == roots_of(self.entries().take(i as int), self.feature_parents@),
            decreases n - i,
        {
            let ghost s = self.entries();
            let ghost before = r@;
            match features_get_index(&self.features, i) {
                Some((k, _)) => {
                    if !self.feature_parents.contains_key(k) {
                        r.push(FeatureId(*k));
                    }
                },
                None => {},
            }
            proof {
                assert(s.take(i + 1).drop_last() =~= s.take(i as int));
                assert(s.take(i + 1).last() == s[i as int]);
                if self.feature_parents@.contains_key(s[i as int].0) {
                    assert(r@ == before);
                } else {
                    assert(r@.map_values(|f: FeatureId| f.0) =~= before.map_values(|f: FeatureId| f.0).push(s[i as int].0));
                }
            }
            i = i + 1;
        }
        assert(self.entries().take(n as int) =~= self.entries());
        r
    }

    /// Stores a document parameter under `name`, replacing any earlier value.
    pub fn set_parameter(&mut self, name: &str, value: ParameterValue)
        ensures
            final(self).parameters@ == old(self).parameters@.insert(name@, value),
            final(self).is_dirty,
            final(self).entries() == old(self).entries(),
            final(self).feature_parents@ == old(self).feature_parents@,
            final(self).history@ == old(self).history@,
    {
        self.parameters.insert(name, value);
        self.is_dirty = true;
    }

    /// The document parameter stored under `name`.
    pub fn get_parameter(&self, name: &str) -> (r: Option<&ParameterValue>)
        ensures
            r is Some == self.parameters@.contains_key(name@),
            r is Some ==> *r->0 == self.parameters@[name@],
    {
        self.parameters.get(name)
    }

    /// The features with their identifiers, in feature order.
    pub fn features_in_order(&self) -> (r: Vec<(FeatureId, &Feature)>)
        ensures
            r@.len() == self.entries().len(),
            forall|i: int| 0 <= i < r@.len() ==> (#[trigger] r@[i]).0.0 == self.entries()[i].0 && *r@[i].1 == self.entries()[i].1,
    {
        let mut r: Vec<(FeatureId, &Feature)> = Vec::new();
        let n = features_len(&self.features);
        let mut i: usize = 0;
        while i < n
            invariant
                n == self.entries().len(),
                i <= n,
                r@.len() == i,
                forall|j: int| 0 <= j < i ==> (#[trigger] r@[j]).0.0 == self.entries()[j].0 && *r@[j].1 == self.entries()[j].1,
            decreases n - i,
        {
            match features_get_index(&self.features, i) {
                Some((k, f)) => {
                    r.push((FeatureId(*k), f));
                },
                None => {},
            }
            i = i + 1;
        }
        r
    }

    /// Recomputes the features from their parameters; there is nothing to
    /// recompute yet, so this succeeds and changes nothing.
    pub fn recompute(&mut self) -> (r: Result<(), Error>)
        ensures
            r is Ok,
            final(self).entries() == old(self).entries(),
            final(self).feature_parents@ == old(self).feature_parents@,
            final(self).parameters@ == old(self).parameters@,
            final(self).is_dirty == old(self).is_dirty,
    {
        Ok(())
    }

    /// Every parent link, once each.
    fn parent_links(&self) -> (r: Vec<(u128, u128)>)
        ensures
            forall|j: int| 0 <= j < r@.len() ==> self.feature_parents@.contains_key(#[trigger] r@[j].0)
                && self.feature_parents@[r@[j].0] == r@[j].1,
            forall|k: u128| #[trigger] self.feature_parents@.contains_key(k) ==> r@.contains((k, self.feature_parents@[k])),
    {
        let mut r: Vec<(u128, u128)> = Vec::new();
        let ghost m = self.feature_parents@;
        let ghost v = spec_hash_map_iter(&self.feature_parents).remaining();
        for pair in it: self.feature_parents.iter()
            invariant
                m == self.feature_parents@,
                it.seq() == v,
                forall|j: int| #![trigger v[j]] 0 <= j < v.len() ==> m.contains_key(*v[j].0) && m[*v[j].0] == *v[j].1,
                forall|k: u128| #[trigger] m.contains_key(k) ==> v.contains((&k, &m[k])),
                r@.len() == it.index(),
                forall|j: int| 0 <= j < r@.len() ==> #[trigger] r@[j] == (*v[j].0, *v[j].1),
        {
            let (child, parent) = pair;
            r.push((*child, *parent));
        }
        proof {
            assert forall|j: int| 0 <= j < r@.len() implies self.feature_parents@.contains_key(#[trigger] r@[j].0)
                && self.feature_parents@[r@[j].0] == r@[j].1 by {
                assert(r@[j] == (*v[j].0, *v[j].1));
            }
            assert forall|k: u128| #[trigger] self.feature_parents@.contains_key(k) implies r@.contains((k, self.feature_parents@[k])) by {
                assert(v.contains((&k, &m[k])));
                let j = choose|j: int| 0 <= j < v.len() && v[j] == (&k, &m[k]);
                assert(r@[j] == (k, m[k]));
            }
        }
        r
    }

    /// Removes feature `id` together with all its descendants (through the
    /// parent links) and returns the feature; the remaining features keep their
    /// order. Fails, changing nothing, when there is no such feature or when a
    /// descendant that a parent link names is not a feature of the document.
    pub fn remove_feature(&mut self, id: FeatureId) -> (r: Result<Feature, Error>)
        ensures
            old(self).wf() ==> final(self).wf(),
            final(self).same_header(&*old(self)),
            !has_key(old(self).entries(), id.0) ==> r == Err::<Feature, Error>(Error::FeatureNotFound(id))
                && *final(self) == *old(self),
            has_key(old(self).entries(), id.0) && !subtree_present(old(self).entries(), old(self).feature_parents@, id.0) ==> {
                &&& (r matches Err(Error::FeatureNotFound(d)) && in_subtree(old(self).feature_parents@, d.0, id.0)
                    && !has_key(old(self).entries(), d.0))
                &&& *final(self) == *old(self)
            },
            has_key(old(self).entries(), id.0) && subtree_present(old(self).entries(), old(self).feature_parents@, id.0) ==> {
                &&& r == Ok::<Feature, Error>(value_of(old(self).entries(), id.0))
                &&& final(self).is_dirty
                &&& final(self).entries() == without_keys(old(self).entries(), subtree_set(old(self).feature_parents@, id.0))
                &&& forall|k: u128| #[trigger] has_key(final(self).entries(), k) <==> (has_key(old(self).entries(), k)
                    && !in_subtree(old(self).feature_parents@, k, id.0))
                &&& forall|k: u128| #[trigger] has_key(final(self).entries(), k) ==> value_of(final(self).entries(), k)
                    == value_of(old(self).entries(), k)
                &&& forall|k: u128| #[trigger] final(self).feature_parents@.contains_key(k) <==> (
                    old(self).feature_parents@.contains_key(k) && !in_subtree(old(self).feature_parents@, k, id.0))
                &&& forall|k: u128| #[trigger] final(self).feature_parents@.contains_key(k) ==> final(self).feature_parents@[k]
                    == old(self).feature_parents@[k]
            },
    {
        if !features_contains(&self.features, id.0) {
            return Err(Error::FeatureNotFound(id));
        }
        let ghost d0 = *self;
        let ghost was_wf = self.wf();
        let ghost p = self.feature_parents@;
        let ghost s0 = self.entries();
        let links = self.parent_links();
        let ghost universe = seq![id.0] + links@.map_values(|e: (u128, u128)| e.0);
        // Collect the subtree: `id` and, until nothing changes, every child of a member.
        let mut subtree: Vec<u128> = Vec::new();
        subtree.push(id.0);
        proof {
            assert(universe[0] == id.0);
            universe.lemma_cardinality_of_set();
            assert(subtree@.to_set().subset_of(universe.to_set()));
            subtree@.unique_seq_to_set();
            vstd::set_lib::lemma_len_subset(subtree@.to_set(), universe.to_set());
            assert(reaches(p, id.0, id.0, 0));
        }
        loop
            invariant
                p == self.feature_parents@,
                s0 == self.entries(),
                has_key(s0, id.0),
                forall|j: int| 0 <= j < links@.len() ==> p.contains_key(#[trigger] links@[j].0)
                    && p[links@[j].0] == links@[j].1,
                forall|k: u128| #[trigger] p.contains_key(k) ==> links@.contains((k, p[k])),
                universe == seq![id.0] + links@.map_values(|e: (u128, u128)| e.0),
                subtree@.len() >= 1,
                subtree@[0] == id.0,
                subtree@.no_duplicates(),
                subtree@.len() <= links@.len() + 1,
                forall|j: int| 0 <= j < subtree@.len() ==> universe.contains(#[trigger] subtree@[j]),
                forall|j: int| 0 <= j < subtree@.len() ==> in_subtree(p, #[trigger] subtree@[j], id.0),
            ensures
                subtree@.len() >= 1,
                subtree@[0] == id.0,
                subtree@.no_duplicates(),
                forall|j: int| 0 <= j < subtree@.len() ==> in_subtree(p, #[trigger] subtree@[j], id.0),
                forall|j: int| 0 <= j < links@.len() && subtree@.contains(#[trigger] links@[j].1) ==> subtree@.contains(links@[j].0),
            decreases links@.len() + 1 - subtree@.len(),
        {
            let before = subtree.len();
            let mut j: usize = 0;
            while j < links.len()
                invariant
                    p == self.feature_parents@,
                    s0 == self.entries(),
                    forall|jj: int| 0 <= jj < links@.len() ==> p.contains_key(#[trigger] links@[jj].0)
                        && p[links@[jj].0] == links@[jj].1,
                    universe == seq![id.0] + links@.map_values(|e: (u128, u128)| e.0),
                    j <= links@.len(),
                    before <= subtree@.len(),
                    subtree@.len() >= 1,
                    subtree@[0] == id.0,
                    subtree@.no_duplicates(),
                    subtree@.len() <= links@.len() + 1,
                    forall|q: int| 0 <= q < subtree@.len() ==> universe.contains(#[trigger] subtree@[q]),
                    forall|q: int| 0 <= q < subtree@.len() ==> in_subtree(p, #[trigger] subtree@[q], id.0),
                    subtree@.len() == before ==> forall|jj: int| 0 <= jj < j && subtree@.contains(#[trigger] links@[jj].1)
                        ==> subtree@.contains(links@[jj].0),
                decreases links@.len() - j,
            {
                let (child, parent) = links[j];
                if contains_key_value(&subtree, parent) && !contains_key_value(&subtree, child) {
                    let ghost old_sub = subtree@;
                    proof {
                        let q = choose|q: int| 0 <= q < old_sub.len() && old_sub[q] == parent;
                        assert(in_subtree(p, old_sub[q], id.0));
                        let n = choose|n: nat| reaches(p, parent, id.0, n);
                        assert(p.contains_key(child) && p[child] == parent);
                        assert(reaches(p, child, id.0, n + 1));
                        let um = links@.map_values(|e: (u128, u128)| e.0);
                        assert(um[j as int] == child);
                        assert(universe[j + 1] == child);
                    }
                    subtree.push(child);
                    proof {
                        let t = subtree@;
                        assert(t.drop_last() == old_sub);
                        assert forall|a: int, b: int| 0 <= a < t.len() && 0 <= b < t.len() && a != b implies t[a] != t[b] by {
                            if a < old_sub.len() && b < old_sub.len() {
                                assert(old_sub[a] != old_sub[b]);
                            } else if a < old_sub.len() {
                                assert(old_sub.contains(old_sub[a]));
                            } else {
                                assert(old_sub.contains(old_sub[b]));
                            }
                        }
                        assert(t.to_set().subset_of(universe.to_set())) by {
                            assert forall|x: u128| t.to_set().contains(x) implies universe.to_set().contains(x) by {
                                let q = choose|q: int| 0 <= q < t.len() && t[q] == x;
                                assert(universe.contains(t[q]));
                            }
                        }
                        t.unique_seq_to_set();
                        universe.lemma_cardinality_of_set();
                        vstd::set_lib::lemma_len_subset(t.to_set(), universe.to_set());
                        assert forall|q: int| 0 <= q < t.len() implies in_subtree(p, #[trigger] t[q], id.0) by {
                            if q < old_sub.len() {
                                assert(in_subtree(p, old_sub[q], id.0));
                            } else {
                                let n = choose|n: nat| reaches(p, parent, id.0, n);
                                assert(reaches(p, child, id.0, n + 1));
                            }
                        }
                    }
                }
                j = j + 1;
            }
            if subtree.len() == before {
                break;
            }
        }
        proof {
            assert forall|k: u128| subtree@.contains(k) <==> in_subtree(p, k, id.0) by {
                if subtree@.contains(k) {
                    let q = choose|q: int| 0 <= q < subtree@.len() && subtree@[q] == k;
                    assert(in_subtree(p, subtree@[q], id.0));
                }
                if in_subtree(p, k, id.0) {
                    let n = choose|n: nat| reaches(p, k, id.0, n);
                    lemma_closed_set_holds_subtree(p, links@, subtree@, id.0, k, n);
                }
            }
        }
        // Every member of the subtree must be a feature of the document.
        let mut q: usize = 0;
        while q < subtree.len()
            invariant
                d0 == *self,
                s0 == self.entries(),
                p == self.feature_parents@,
                has_key(s0, id.0),
                q <= subtree@.len(),
                forall|j: int| 0 <= j < q ==> has_key(s0, #[trigger] subtree@[j]),
                forall|j: int| 0 <= j < subtree@.len() ==> in_subtree(p, #[trigger] subtree@[j], id.0),
            decreases subtree@.len() - q,
        {
            let d = subtree[q];
            if !features_contains(&self.features, d) {
                proof {
                    assert(in_subtree(p, subtree@[q as int], id.0));
                }
                return Err(Error::FeatureNotFound(FeatureId(d)));
            }
            q = q + 1;
        }
        proof {
            assert forall|k: u128| #[trigger] in_subtree(p, k, id.0) implies has_key(s0, k) by {
                assert(subtree@.contains(k));
                let j = choose|j: int| 0 <= j < subtree@.len() && subtree@[j] == k;
                assert(has_key(s0, subtree@[j]));
            }
            assert(subtree_present(s0, p, id.0));
        }
        let keys = features_keys(&self.features);
        proof {
            assert forall|a: int, b: int| 0 <= a < b < s0.len() implies s0[a].0 != s0[b].0 by {
                assert(keys@[a] == s0[a].0);
                assert(keys@[b] == s0[b].0);
            }
            assert(without_keys(s0, Set::<u128>::empty()) == s0) by {
                lemma_without_keys_nothing(s0);
            }
            assert(subtree@.subrange(subtree@.len() as int, subtree@.len() as int).to_set() =~= Set::<u128>::empty());
        }
        // Remove the subtree, descendants first and `id` last.
        let mut t: usize = subtree.len();
        let mut removed: Option<Feature> = None;
        while t > 0
            invariant
                self.same_header(&d0),
                t <= subtree@.len(),
                subtree@.len() >= 1,
                subtree@[0] == id.0,
                subtree@.no_duplicates(),
                forall|q: int| 0 <= q < subtree@.len() ==> has_key(s0, #[trigger] subtree@[q]),
                keys_unique(s0),
                keys_unique(self.entries()),
                self.entries() == without_keys(s0, subtree@.subrange(t as int, subtree@.len() as int).to_set()),
                forall|k: u128| #[trigger] has_key(self.entries(), k) <==> (has_key(s0, k)
                    && !subtree@.subrange(t as int, subtree@.len() as int).contains(k)),
                forall|k: u128| #[trigger] has_key(self.entries(), k) ==> value_of(self.entries(), k) == value_of(s0, k),
                forall|k: u128| #[trigger] self.feature_parents@.contains_key(k) <==> (p.contains_key(k)
                    && !subtree@.subrange(t as int, subtree@.len() as int).contains(k)),
                forall|k: u128| #[trigger] self.feature_parents@.contains_key(k) ==> self.feature_parents@[k] == p[k],
                t == 0 ==> removed == Some(value_of(s0, id.0)),
            decreases t,
        {
            t = t - 1;
            let d = subtree[t];
            let ghost cur = self.entries();
            let ghost old_rest = subtree@.subrange(t + 1, subtree@.len() as int);
            let ghost new_rest = subtree@.subrange(t as int, subtree@.len() as int);
            proof {
                assert(new_rest[0] == d);
                assert forall|k: u128| new_rest.contains(k) <==> (k == d || old_rest.contains(k)) by {
                    if new_rest.contains(k) {
                        let q = choose|q: int| 0 <= q < new_rest.len() && new_rest[q] == k;
                        if q > 0 {
                            assert(old_rest[q - 1] == k);
                        }
                    }
                    if old_rest.contains(k) {
                        let q = choose|q: int| 0 <= q < old_rest.len() && old_rest[q] == k;
                        assert(new_rest[q + 1] == k);
                    }
                }
                assert(!old_rest.contains(d)) by {
                    if old_rest.contains(d) {
                        let q = choose|q: int| 0 <= q < old_rest.len() && old_rest[q] == d;
                        assert(subtree@[t + 1 + q] == subtree@[t as int]);
                    }
                }
                assert(new_rest.to_set() =~= old_rest.to_set().insert(d));
                assert(has_key(s0, d));
                assert(has_key(cur, d));
                let pos = position_of(cur, d);
                lemma_removed(cur, pos);
                lemma_without_keys_remove(s0, old_rest.to_set(), d);
            }
            self.feature_parents.remove(&d);
            let v = features_shift_remove(&mut self.features, d);
            proof {
                let pos = position_of(cur, d);
                assert(cur[pos].0 == d);
                if t == 0 {
                    assert(v == Some(value_of(cur, d)));
                    assert(d == id.0);
                }
            }
            if t == 0 {
                removed = v;
            }
        }
        proof {
            assert(subtree@.subrange(0, subtree@.len() as int) =~= subtree@);
            assert(subtree@.to_set() =~= subtree_set(p, id.0)) by {
                assert forall|k: u128| subtree@.to_set().contains(k) <==> subtree_set(p, id.0).contains(k) by {
                    assert(subtree@.contains(k) <==> in_subtree(p, k, id.0));
                }
            }
            if was_wf {
                // the links between the remaining features stay inside the document
                assert forall|c: u128| #[trigger] self.feature_parents@.contains_key(c) implies has_key(self.entries(), c)
                    && has_key(self.entries(), self.feature_parents@[c]) by {
                    assert(p.contains_key(c));
                    assert(!in_subtree(p, c, id.0));
                    let q = p[c];
                    if in_subtree(p, q, id.0) {
                        let n = choose|n: nat| reaches(p, q, id.0, n);
                        assert(reaches(p, c, id.0, n + 1));
                    }
                }
            }
        }
        self.is_dirty = true;
        match removed {
            Some(f) => Ok(f),
            None => Err(Error::FeatureNotFound(id)),
        }
    }
}

impl Default for Document {
    /// An empty document named "Untitled".
    fn default() -> (d: Self)
        ensures
            d.wf(),
            d.name@ == "Untitled"@,
            d.entries() == Seq::<(u128, Feature)>::empty(),
    {
        Document::new("Untitled")
    }
}

/// The entries after `add_feature` inserts `(k, v)`: the existing entry for `k` is
/// replaced in place, or the pair is appended.
pub open spec fn inserted(s: Seq<(u128, Feature)>, k: u128, v: Feature) -> Seq<(u128, Feature)> {
    if has_key(s, k) {
        s.update(position_of(s, k), (k, v))
    } else {
        s.push((k, v))
    }
}

/// A feature that was added is found under its identifier, and every other
/// feature keeps its value.
pub proof fn law_added_feature_is_found(s: Seq<(u128, Feature)>, k: u128, v: Feature)
    requires
        keys_unique(s),
    ensures
        keys_unique(inserted(s, k, v)),
        has_key(inserted(s, k, v), k),
        value_of(inserted(s, k, v), k) == v,
        forall|x: u128| x != k ==> (#[trigger] has_key(inserted(s, k, v), x) <==> has_key(s, x)),
        forall|x: u128| x != k && has_key(s, x) ==> #[trigger] value_of(inserted(s, k, v), x) == value_of(s, x),
{
    let t = inserted(s, k, v);
    let p = if has_key(s, k) { position_of(s, k) } else { s.len() as int };
    assert(t[p] == (k, v));
    assert forall|a: int, b: int| 0 <= a < b < t.len() implies t[a].0 != t[b].0 by {
        if a != p && b != p {
            assert(s[a].0 != s[b].0);
        } else if has_key(s, k) {
            if a == p {
                assert(s[a].0 == k);
                assert(s[a].0 != s[b].0);
            } else {
                assert(s[b].0 == k);
                assert(s[a].0 != s[b].0);
            }
        } else {
            assert(s[a].0 != k);
        }
    }
    lemma_position_unique(t, p);
    assert forall|x: u128| x != k implies (#[trigger] has_key(t, x) <==> has_key(s, x)) by {
        if has_key(t, x) {
            let j = choose|j: int| 0 <= j < t.len() && t[j].0 == x;
            assert(j != p);
            assert(s[j].0 == x);
        }
        if has_key(s, x) {
            let j = choose|j: int| 0 <= j < s.len() && s[j].0 == x;
            if has_key(s, k) {
                assert(j != position_of(s, k));
            }
            assert(t[j].0 == x);
        }
    }
    assert forall|x: u128| x != k && has_key(s, x) implies #[trigger] value_of(t, x) == value_of(s, x) by {
        let j = position_of(s, x);
        lemma_position_unique(s, j);
        if has_key(s, k) {
            assert(j != position_of(s, k));
        }
        assert(t[j] == s[j]);
        lemma_position_unique(t, j);
    }
}

/// Whether `v` holds `x`.
fn contains_key_value(v: &Vec<u128>, x: u128) -> (b: bool)
    ensures
        b == v@.contains(x),
{
    let mut i: usize = 0;
    while i < v.len()
        invariant
            i <= v@.len(),
            forall|j: int| 0 <= j < i ==> v@[j] != x,
        decreases v@.len() - i,
    {
        if v[i] == x {
            return true;
        }
        i = i + 1;
    }
    false
}

} // verus!
