//! The schema model: properties, edges, and the parsed schema itself.
//!
//! Every mapping of the model is an association list (a `Vec` of pairs)
//! whose keys are unique; its mathematical meaning is the `Map` obtained
//! by inserting the entries left to right, so a repeated insertion lets
//! the last occurrence win, as the parsers require.

use vstd::prelude::*;

verus! {

/// One declared field: a name and its declared type, both kept verbatim.
pub struct Property {
    pub name: String,
    pub prop_type: String,
}

/// An edge definition: its endpoint types and the properties declared in
/// its `Properties:` sub-block.
pub struct EdgeInfo {
    pub from_type: String,
    pub to_type: String,
    pub properties: Vec<Property>,
}

/// A parsed schema: name-keyed node, edge and vector definitions.
pub struct ParsedSchema {
    pub nodes: Vec<(String, Vec<Property>)>,
    pub edges: Vec<(String, EdgeInfo)>,
    pub vectors: Vec<(String, Vec<Property>)>,
}

/// The map an association list denotes: entries inserted left to right,
/// so the rightmost entry for a key wins.
pub open spec fn kv_map<V>(s: Seq<(String, V)>) -> Map<Seq<char>, V>
    decreases s.len(),
{
    if s.len() == 0 {
        Map::empty()
    } else {
        kv_map(s.drop_last()).insert(s.last().0@, s.last().1)
    }
}

/// No two entries share a key.
pub open spec fn kv_unique<V>(s: Seq<(String, V)>) -> bool {
    forall|i: int, j: int| 0 <= i < j < s.len() ==> s[i].0@ != s[j].0@
}

/// The name-to-type map a property list denotes.
pub open spec fn prop_map(ps: Seq<Property>) -> Map<Seq<char>, Seq<char>>
    decreases ps.len(),
{
    if ps.len() == 0 {
        Map::empty()
    } else {
        prop_map(ps.drop_last()).insert(ps.last().name@, ps.last().prop_type@)
    }
}

/// No two properties share a name.
pub open spec fn prop_unique(ps: Seq<Property>) -> bool {
    forall|i: int, j: int| 0 <= i < j < ps.len() ==> ps[i].name@ != ps[j].name@
}

pub proof fn lemma_kv_map_contains<V>(s: Seq<(String, V)>, k: Seq<char>)
    ensures
        kv_map(s).contains_key(k) <==> exists|i: int| 0 <= i < s.len() && s[i].0@ == k,
    decreases s.len(),
{
    if s.len() == 0 {
    } else {
        lemma_kv_map_contains(s.drop_last(), k);
        if s.last().0@ == k {
            assert(s[s.len() - 1].0@ == k);
        } else if kv_map(s.drop_last()).contains_key(k) {
            let i = choose|i: int| 0 <= i < s.drop_last().len() && s.drop_last()[i].0@ == k;
            assert(s[i].0@ == k);
        } else if exists|i: int| 0 <= i < s.len() && s[i].0@ == k {
            let i = choose|i: int| 0 <= i < s.len() && s[i].0@ == k;
            assert(i < s.len() - 1);
            assert(s.drop_last()[i].0@ == k);
        }
    }
}

pub proof fn lemma_kv_map_index<V>(s: Seq<(String, V)>, i: int)
    requires
        kv_unique(s),
        0 <= i < s.len(),
    ensures
        kv_map(s).contains_key(s[i].0@),
        kv_map(s)[s[i].0@] == s[i].1,
    decreases s.len(),
{
    if i == s.len() - 1 {
    } else {
        assert(kv_unique(s.drop_last())) by {
            assert(forall|a: int, b: int|
                0 <= a < b < s.len() - 1 ==> s.drop_last()[a].0@ != s.drop_last()[b].0@);
        }
        assert(s.drop_last()[i] == s[i]);
        lemma_kv_map_index(s.drop_last(), i);
        assert(s[i].0@ != s.last().0@);
    }
}

pub proof fn lemma_prop_map_contains(ps: Seq<Property>, k: Seq<char>)
    ensures
        prop_map(ps).contains_key(k) <==> exists|i: int| 0 <= i < ps.len() && ps[i].name@ == k,
    decreases ps.len(),
{
    if ps.len() == 0 {
    } else {
        lemma_prop_map_contains(ps.drop_last(), k);
        if ps.last().name@ == k {
            assert(ps[ps.len() - 1].name@ == k);
        } else if prop_map(ps.drop_last()).contains_key(k) {
            let i = choose|i: int| 0 <= i < ps.drop_last().len() && ps.drop_last()[i].name@ == k;
            assert(ps[i].name@ == k);
        } else if exists|i: int| 0 <= i < ps.len() && ps[i].name@ == k {
            let i = choose|i: int| 0 <= i < ps.len() && ps[i].name@ == k;
            assert(i < ps.len() - 1);
            assert(ps.drop_last()[i].name@ == k);
        }
    }
}

pub proof fn lemma_prop_map_index(ps: Seq<Property>, i: int)
    requires
        prop_unique(ps),
        0 <= i < ps.len(),
    ensures
        prop_map(ps).contains_key(ps[i].name@),
        prop_map(ps)[ps[i].name@] == ps[i].prop_type@,
    decreases ps.len(),
{
    if i == ps.len() - 1 {
    } else {
        assert(prop_unique(ps.drop_last())) by {
            assert(forall|a: int, b: int|
                0 <= a < b < ps.len() - 1 ==> ps.drop_last()[a].name@ != ps.drop_last()[b].name@);
        }
        assert(ps.drop_last()[i] == ps[i]);
        lemma_prop_map_index(ps.drop_last(), i);
        assert(ps[i].name@ != ps.last().name@);
    }
}

/// Updating the entry that already holds a key denotes the same map as
/// inserting that key.
pub proof fn lemma_kv_map_update<V>(s: Seq<(String, V)>, i: int, p: (String, V))
    requires
        kv_unique(s),
        0 <= i < s.len(),
        p.0@ == s[i].0@,
    ensures
        kv_map(s.update(i, p)) == kv_map(s).insert(p.0@, p.1),
        kv_unique(s.update(i, p)),
    decreases s.len(),
{
    let t = s.update(i, p);
    assert(kv_unique(t)) by {
        assert(forall|a: int, b: int| 0 <= a < b < t.len() ==> t[a].0@ != t[b].0@) by {
            assert(forall|a: int| 0 <= a < t.len() ==> t[a].0@ == s[a].0@);
        }
    }
    if i == s.len() - 1 {
        assert(t.drop_last() =~= s.drop_last());
        assert(kv_map(t) == kv_map(s.drop_last()).insert(p.0@, p.1));
        assert(kv_map(s.drop_last()).insert(s.last().0@, s.last().1).insert(p.0@, p.1)
            =~= kv_map(s.drop_last()).insert(p.0@, p.1));
    } else {
        assert(kv_unique(s.drop_last())) by {
            assert(forall|a: int, b: int|
                0 <= a < b < s.len() - 1 ==> s.drop_last()[a].0@ != s.drop_last()[b].0@);
        }
        assert(s.drop_last()[i] == s[i]);
        lemma_kv_map_update(s.drop_last(), i, p);
        assert(t.drop_last() =~= s.drop_last().update(i, p));
        assert(t.last() == s.last());
        assert(kv_map(t) == kv_map(s.drop_last()).insert(p.0@, p.1).insert(s.last().0@, s.last().1));
        assert(p.0@ != s.last().0@);
        assert(kv_map(s.drop_last()).insert(p.0@, p.1).insert(s.last().0@, s.last().1)
            =~= kv_map(s.drop_last()).insert(s.last().0@, s.last().1).insert(p.0@, p.1));
    }
}

/// Same statement for property lists.
pub proof fn lemma_prop_map_update(ps: Seq<Property>, i: int, p: Property)
    requires
        prop_unique(ps),
        0 <= i < ps.len(),
        p.name@ == ps[i].name@,
    ensures
        prop_map(ps.update(i, p)) == prop_map(ps).insert(p.name@, p.prop_type@),
        prop_unique(ps.update(i, p)),
    decreases ps.len(),
{
    let t = ps.update(i, p);
    assert(prop_unique(t)) by {
        assert(forall|a: int, b: int| 0 <= a < b < t.len() ==> t[a].name@ != t[b].name@) by {
            assert(forall|a: int| 0 <= a < t.len() ==> t[a].name@ == ps[a].name@);
        }
    }
    if i == ps.len() - 1 {
        assert(t.drop_last() =~= ps.drop_last());
        assert(prop_map(ps.drop_last()).insert(ps.last().name@, ps.last().prop_type@).insert(
            p.name@,
            p.prop_type@,
        ) =~= prop_map(ps.drop_last()).insert(p.name@, p.prop_type@));
    } else {
        assert(prop_unique(ps.drop_last())) by {
            assert(forall|a: int, b: int|
                0 <= a < b < ps.len() - 1 ==> ps.drop_last()[a].name@ != ps.drop_last()[b].name@);
        }
        assert(ps.drop_last()[i] == ps[i]);
        lemma_prop_map_update(ps.drop_last(), i, p);
        assert(t.drop_last() =~= ps.drop_last().update(i, p));
        assert(t.last() == ps.last());
        assert(p.name@ != ps.last().name@);
        assert(prop_map(ps.drop_last()).insert(p.name@, p.prop_type@).insert(
            ps.last().name@,
            ps.last().prop_type@,
        ) =~= prop_map(ps.drop_last()).insert(ps.last().name@, ps.last().prop_type@).insert(
            p.name@,
            p.prop_type@,
        ));
    }
}

/// Pushing an entry with a fresh key keeps keys unique and inserts it.
pub proof fn lemma_kv_push_unique<V>(s: Seq<(String, V)>, e: (String, V))
    requires
        kv_unique(s),
        !kv_map(s).contains_key(e.0@),
    ensures
        kv_unique(s.push(e)),
        kv_map(s.push(e)) == kv_map(s).insert(e.0@, e.1),
{
    lemma_kv_map_contains(s, e.0@);
    assert(s.push(e).drop_last() =~= s);
    assert(forall|a: int| 0 <= a < s.len() ==> s.push(e)[a] == s[a]);
    assert(forall|a: int| 0 <= a < s.len() ==> s[a].0@ != e.0@);
}

/// The views of a list of strings.
pub open spec fn names_of(v: Seq<String>) -> Seq<Seq<char>> {
    v.map_values(|s: String| s@)
}

/// A non-empty name list denotes a non-empty name set.
pub proof fn lemma_names_nonempty(v: Seq<String>)
    requires
        v.len() > 0,
    ensures
        names_of(v).to_set().contains(v[0]@),
{
    assert(names_of(v)[0] == v[0]@);
    assert(names_of(v).contains(v[0]@));
}

/// Looks a key up in an association list.
pub fn kv_get<'a, V>(entries: &'a Vec<(String, V)>, name: &str) -> (r: Option<&'a V>)
    requires
        kv_unique(entries@),
    ensures
        match r {
            Some(v) => kv_map(entries@).contains_key(name@) && *v == kv_map(entries@)[name@],
            None => !kv_map(entries@).contains_key(name@),
        },
{
    let mut i: usize = 0;
    while i < entries.len()
        invariant
            kv_unique(entries@),
            0 <= i <= entries@.len(),
            forall|j: int| 0 <= j < i ==> entries@[j].0@ != name@,
        decreases entries@.len() - i,
    {
        let e = &entries[i];
        if crate::strutil::str_eq(e.0.as_str(), name) {
            proof {
                lemma_kv_map_index(entries@, i as int);
            }
            return Some(&e.1);
        }
        i += 1;
    }
    proof {
        lemma_kv_map_contains(entries@, name@);
    }
    None
}

/// Whether an association list holds a key; no uniqueness needed.
pub fn kv_contains<V>(entries: &Vec<(String, V)>, name: &str) -> (r: bool)
    ensures
        r == kv_map(entries@).contains_key(name@),
{
    let mut i: usize = 0;
    while i < entries.len()
        invariant
            0 <= i <= entries@.len(),
            forall|j: int| 0 <= j < i ==> entries@[j].0@ != name@,
        decreases entries@.len() - i,
    {
        let e = &entries[i];
        if crate::strutil::str_eq(e.0.as_str(), name) {
            proof {
                lemma_kv_map_contains(entries@, name@);
            }
            return true;
        }
        i += 1;
    }
    proof {
        lemma_kv_map_contains(entries@, name@);
    }
    false
}

/// Whether a property list declares a name.
pub fn prop_contains(ps: &Vec<Property>, name: &str) -> (r: bool)
    ensures
        r == prop_map(ps@).contains_key(name@),
{
    let mut i: usize = 0;
    while i < ps.len()
        invariant
            0 <= i <= ps@.len(),
            forall|j: int| 0 <= j < i ==> ps@[j].name@ != name@,
        decreases ps@.len() - i,
    {
        if crate::strutil::str_eq(ps[i].name.as_str(), name) {
            proof {
                lemma_prop_map_contains(ps@, name@);
            }
            return true;
        }
        i += 1;
    }
    proof {
        lemma_prop_map_contains(ps@, name@);
    }
    false
}

/// The declared type of a name in a property list.
pub fn prop_get<'a>(ps: &'a Vec<Property>, name: &str) -> (r: Option<&'a String>)
    requires
        prop_unique(ps@),
    ensures
        match r {
            Some(t) => prop_map(ps@).contains_key(name@) && t@ == prop_map(ps@)[name@],
            None => !prop_map(ps@).contains_key(name@),
        },
{
    let mut i: usize = 0;
    while i < ps.len()
        invariant
            prop_unique(ps@),
            0 <= i <= ps@.len(),
            forall|j: int| 0 <= j < i ==> ps@[j].name@ != name@,
        decreases ps@.len() - i,
    {
        let p = &ps[i];
        if crate::strutil::str_eq(p.name.as_str(), name) {
            proof {
                lemma_prop_map_index(ps@, i as int);
            }
            return Some(&p.prop_type);
        }
        i += 1;
    }
    proof {
        lemma_prop_map_contains(ps@, name@);
    }
    None
}

/// Inserts, letting the new entry win over an existing one with the same
/// key, as `HashMap::insert` would.
pub fn kv_upsert<V>(entries: &mut Vec<(String, V)>, name: String, v: V)
    requires
        kv_unique(old(entries)@),
    ensures
        kv_unique(final(entries)@),
        kv_map(final(entries)@) == kv_map(old(entries)@).insert(name@, v),
{
    let mut i: usize = 0;
    while i < entries.len()
        invariant
            kv_unique(entries@),
            entries@ == old(entries)@,
            0 <= i <= entries@.len(),
            forall|j: int| 0 <= j < i ==> entries@[j].0@ != name@,
        decreases entries@.len() - i,
    {
        if crate::strutil::str_eq(entries[i].0.as_str(), name.as_str()) {
            proof {
                lemma_kv_map_update(entries@, i as int, (name, v));
            }
            entries.remove(i);
            entries.insert(i, (name, v));
            proof {
                assert(entries@ =~= old(entries)@.update(i as int, entries@[i as int]));
            }
            return ;
        }
        i += 1;
    }
    entries.push((name, v));
    proof {
        assert(entries@.drop_last() =~= old(entries)@);
        assert(kv_unique(entries@)) by {
            assert(forall|a: int, b: int|
                0 <= a < b < entries@.len() ==> entries@[a].0@ != entries@[b].0@) by {
                assert(forall|a: int| 0 <= a < old(entries)@.len()
                    ==> entries@[a] == old(entries)@[a]);
            }
        }
    }
}

/// Inserts a property, letting the last occurrence of a name win.
pub fn prop_upsert(ps: &mut Vec<Property>, name: String, prop_type: String)
    requires
        prop_unique(old(ps)@),
    ensures
        prop_unique(final(ps)@),
        prop_map(final(ps)@) == prop_map(old(ps)@).insert(name@, prop_type@),
{
    let mut i: usize = 0;
    while i < ps.len()
        invariant
            prop_unique(ps@),
            ps@ == old(ps)@,
            0 <= i <= ps@.len(),
            forall|j: int| 0 <= j < i ==> ps@[j].name@ != name@,
        decreases ps@.len() - i,
    {
        if crate::strutil::str_eq(ps[i].name.as_str(), name.as_str()) {
            let p = Property { name, prop_type };
            proof {
                lemma_prop_map_update(ps@, i as int, p);
            }
            ps.remove(i);
            ps.insert(i, p);
            proof {
                assert(ps@ =~= old(ps)@.update(i as int, ps@[i as int]));
            }
            return ;
        }
        i += 1;
    }
    ps.push(Property { name, prop_type });
    proof {
        assert(ps@.drop_last() =~= old(ps)@);
        assert(prop_unique(ps@)) by {
            assert(forall|a: int, b: int|
                0 <= a < b < ps@.len() ==> ps@[a].name@ != ps@[b].name@) by {
                assert(forall|a: int| 0 <= a < old(ps)@.len() ==> ps@[a] == old(ps)@[a]);
            }
        }
    }
}

impl ParsedSchema {
    /// The node mapping as a map from names to property lists.
    pub open spec fn nodes_map(&self) -> Map<Seq<char>, Vec<Property>> {
        kv_map(self.nodes@)
    }

    pub open spec fn edges_map(&self) -> Map<Seq<char>, EdgeInfo> {
        kv_map(self.edges@)
    }

    pub open spec fn vectors_map(&self) -> Map<Seq<char>, Vec<Property>> {
        kv_map(self.vectors@)
    }

    /// Keys are unique in every mapping, and every property list has
    /// unique names.
    pub open spec fn wf(&self) -> bool {
        &&& kv_unique(self.nodes@)
        &&& kv_unique(self.edges@)
        &&& kv_unique(self.vectors@)
        &&& forall|k: Seq<char>| #[trigger] self.nodes_map().contains_key(k)
            ==> prop_unique(self.nodes_map()[k]@)
        &&& forall|k: Seq<char>| #[trigger] self.edges_map().contains_key(k)
            ==> prop_unique(self.edges_map()[k].properties@)
        &&& forall|k: Seq<char>| #[trigger] self.vectors_map().contains_key(k)
            ==> prop_unique(self.vectors_map()[k]@)
    }

    /// An empty schema.
    pub fn empty() -> (r: ParsedSchema)
        ensures
            r.wf(),
            r.nodes_map() == Map::<Seq<char>, Vec<Property>>::empty(),
            r.edges_map() == Map::<Seq<char>, EdgeInfo>::empty(),
            r.vectors_map() == Map::<Seq<char>, Vec<Property>>::empty(),
            r.nodes@.len() == 0 && r.edges@.len() == 0 && r.vectors@.len() == 0,
    {
        ParsedSchema { nodes: Vec::new(), edges: Vec::new(), vectors: Vec::new() }
    }
}

} // verus!
