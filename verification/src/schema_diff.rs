//! The schema validator: a structural diff of a learner's schema model
//! against a reference model.
//!
//! Existence is compared per category as a set difference over names;
//! extra entities are reported but never fail the check.  Properties of
//! entities present on both sides are compared by name: a name on one
//! side only is missing or extra, a name on both sides with differing
//! declared types is a wrong-type finding, never counted as missing and
//! extra at once.  Matched edges additionally compare their `From` and
//! `To` types.

use vstd::prelude::*;

use crate::model::{
    kv_map, kv_unique, lemma_kv_map_contains, lemma_kv_map_index, lemma_names_nonempty,
    lemma_prop_map_contains, lemma_prop_map_index, names_of, prop_contains, prop_get, prop_map,
    prop_unique, EdgeInfo, ParsedSchema, Property,
};
use crate::schema_parse::{SpecEdge, SpecSchema};
use crate::strutil::str_eq;

verus! {

broadcast use vstd::seq_lib::lemma_seq_contains_after_push;

/// Per-entity property findings: names the user lacks, names the user
/// added, and `(name, expected type, user type)` triples for names whose
/// declared types differ.
pub struct PropertyErrors {
    pub missing: Vec<String>,
    pub extra: Vec<String>,
    pub wrong_type: Vec<(String, String, String)>,
}

/// Per-edge findings: endpoint-type mismatches as `(user, expected)`
/// pairs, and the nested property findings.
pub struct EdgeErrors {
    pub from_type_mismatch: Option<(String, String)>,
    pub to_type_mismatch: Option<(String, String)>,
    pub property_errors: PropertyErrors,
}

/// The full report of a schema diff.
pub struct ValidationResult {
    pub is_correct: bool,
    pub missing_nodes: Vec<String>,
    pub extra_nodes: Vec<String>,
    pub property_errors: Vec<(String, PropertyErrors)>,
    pub missing_edges: Vec<String>,
    pub extra_edges: Vec<String>,
    pub edge_errors: Vec<(String, EdgeErrors)>,
    pub missing_vectors: Vec<String>,
    pub extra_vectors: Vec<String>,
    pub vector_errors: Vec<(String, PropertyErrors)>,
}

/// The views of a list of wrong-type triples.
pub open spec fn triples_of(v: Seq<(String, String, String)>) -> Seq<(Seq<char>, Seq<char>, Seq<char>)> {
    v.map_values(|t: (String, String, String)| (t.0@, t.1@, t.2@))
}

/// The names on both sides whose declared types differ.
pub open spec fn wrong_names(u: Map<Seq<char>, Seq<char>>, e: Map<Seq<char>, Seq<char>>) -> Set<
    Seq<char>,
> {
    Set::new(|k: Seq<char>| u.dom().contains(k) && e.dom().contains(k) && u[k] != e[k])
}

/// No property finding at all between two property maps.
pub open spec fn prop_diff_empty(u: Map<Seq<char>, Seq<char>>, e: Map<Seq<char>, Seq<char>>) -> bool {
    &&& e.dom().subset_of(u.dom())
    &&& u.dom().subset_of(e.dom())
    &&& forall|k: Seq<char>| #[trigger] e.dom().contains(k) && u.dom().contains(k) ==> u[k] == e[k]
}

/// What a `PropertyErrors` value must report about two property maps.
pub open spec fn prop_errors_ok(
    pe: &PropertyErrors,
    u: Map<Seq<char>, Seq<char>>,
    e: Map<Seq<char>, Seq<char>>,
) -> bool {
    &&& names_of(pe.missing@).to_set() == e.dom().difference(u.dom())
    &&& names_of(pe.missing@).no_duplicates()
    &&& names_of(pe.extra@).to_set() == u.dom().difference(e.dom())
    &&& names_of(pe.extra@).no_duplicates()
    &&& forall|tr: (Seq<char>, Seq<char>, Seq<char>)| #[trigger] triples_of(
        pe.wrong_type@,
    ).contains(tr) <==> wrong_names(u, e).contains(tr.0) && tr.1 == e[tr.0] && tr.2 == u[tr.0]
    &&& triples_of(pe.wrong_type@).map_values(|tr: (Seq<char>, Seq<char>, Seq<char>)| tr.0).no_duplicates()
}

/// No finding for a matched edge.
pub open spec fn edge_clean(u: SpecEdge, e: SpecEdge) -> bool {
    u.from == e.from && u.to == e.to && prop_diff_empty(u.props, e.props)
}

/// What an `EdgeErrors` value must report about two matched edges.
pub open spec fn edge_errors_ok(ee: &EdgeErrors, u: SpecEdge, e: SpecEdge) -> bool {
    &&& match ee.from_type_mismatch {
        Some(p) => u.from != e.from && p.0@ == u.from && p.1@ == e.from,
        None => u.from == e.from,
    }
    &&& match ee.to_type_mismatch {
        Some(p) => u.to != e.to && p.0@ == u.to && p.1@ == e.to,
        None => u.to == e.to,
    }
    &&& prop_errors_ok(&ee.property_errors, u.props, e.props)
}

/// The schema diff reports nothing the check counts as failure: nothing
/// expected is missing and every matched entity is clean.  Extra
/// entities do not appear here.
pub open spec fn spec_schema_correct(u: SpecSchema, e: SpecSchema) -> bool {
    &&& e.nodes.dom().subset_of(u.nodes.dom())
    &&& forall|k: Seq<char>| #[trigger] e.nodes.dom().contains(k) && u.nodes.dom().contains(k)
        ==> prop_diff_empty(u.nodes[k], e.nodes[k])
    &&& e.edges.dom().subset_of(u.edges.dom())
    &&& forall|k: Seq<char>| #[trigger] e.edges.dom().contains(k) && u.edges.dom().contains(k)
        ==> edge_clean(u.edges[k], e.edges[k])
    &&& e.vectors.dom().subset_of(u.vectors.dom())
    &&& forall|k: Seq<char>| #[trigger] e.vectors.dom().contains(k) && u.vectors.dom().contains(k)
        ==> prop_diff_empty(u.vectors[k], e.vectors[k])
}

/// The keys of `a` that are not keys of `b`, without duplicates.
pub(crate) fn diff_missing_names<V>(a: &Vec<(String, V)>, b: &Vec<(String, V)>) -> (r: Vec<String>)
    requires
        kv_unique(a@),
    ensures
        names_of(r@).to_set() == kv_map(a@).dom().difference(kv_map(b@).dom()),
        names_of(r@).no_duplicates(),
        r@.len() == 0 <==> kv_map(a@).dom().difference(kv_map(b@).dom()) =~= Set::<Seq<char>>::empty(),
{
    let mut out: Vec<String> = Vec::new();
    let mut i: usize = 0;
    while i < a.len()
        invariant
            kv_unique(a@),
            0 <= i <= a@.len(),
            forall|t: Seq<char>| #[trigger] names_of(out@).contains(t) <==> exists|j: int|
                0 <= j < i && a@[j].0@ == t && !kv_map(b@).dom().contains(t),
            names_of(out@).no_duplicates(),
        decreases a@.len() - i,
    {
        let e = &a[i];
        if !crate::model::kv_contains(b, e.0.as_str()) {
            let ghost old_out = out@;
            let copied = e.0.clone();
            out.push(copied);
            proof {
                assert(names_of(out@) =~= names_of(old_out).push(a@[i as int].0@));
                assert(!names_of(old_out).contains(a@[i as int].0@)) by {
                    if names_of(old_out).contains(a@[i as int].0@) {
                        let j = choose|j: int|
                            0 <= j < i && a@[j].0@ == a@[i as int].0@ && !kv_map(
                                b@,
                            ).dom().contains(a@[j].0@);
                        assert(a@[j].0@ != a@[i as int].0@);
                    }
                }
                assert(names_of(out@).no_duplicates());
                assert(forall|t: Seq<char>| #[trigger] names_of(out@).contains(t) <==> exists|j: int|
                    0 <= j <= i && a@[j].0@ == t && !kv_map(b@).dom().contains(t));
            }
        } else {
            proof {
                assert(forall|t: Seq<char>| #[trigger] names_of(out@).contains(t) <==> exists|j: int|
                    0 <= j <= i && a@[j].0@ == t && !kv_map(b@).dom().contains(t)) by {
                    assert(forall|j: int| 0 <= j <= i && a@[j].0@ == a@[i as int].0@
                        ==> kv_map(b@).dom().contains(a@[j].0@));
                }
            }
        }
        i += 1;
    }
    proof {
        assert(names_of(out@).to_set() =~= kv_map(a@).dom().difference(kv_map(b@).dom())) by {
            assert(forall|t: Seq<char>| #[trigger] kv_map(a@).dom().contains(t) ==> (exists|j: int|
                0 <= j < a@.len() && a@[j].0@ == t)) by {
                assert(forall|t: Seq<char>| #[trigger] kv_map(a@).contains_key(t) ==> (exists|j: int|
                    0 <= j < a@.len() && a@[j].0@ == t)) by {
                    assert forall|t: Seq<char>| #[trigger] kv_map(a@).contains_key(t) implies
                        exists|j: int| 0 <= j < a@.len() && a@[j].0@ == t by {
                        lemma_kv_map_contains(a@, t);
                    }
                }
            }
            assert forall|j: int| 0 <= j < a@.len() implies #[trigger] kv_map(a@).dom().contains(
                a@[j].0@,
            ) by {
                lemma_kv_map_contains(a@, a@[j].0@);
            }
        }
        if out@.len() > 0 {
            lemma_names_nonempty(out@);
        }
    }
    out
}

/// The property names of `a` that `b` does not declare, without
/// duplicates.
fn diff_missing_props(a: &Vec<Property>, b: &Vec<Property>) -> (r: Vec<String>)
    requires
        prop_unique(a@),
    ensures
        names_of(r@).to_set() == prop_map(a@).dom().difference(prop_map(b@).dom()),
        names_of(r@).no_duplicates(),
{
    let mut out: Vec<String> = Vec::new();
    let mut i: usize = 0;
    while i < a.len()
        invariant
            prop_unique(a@),
            0 <= i <= a@.len(),
            forall|t: Seq<char>| #[trigger] names_of(out@).contains(t) <==> exists|j: int|
                0 <= j < i && a@[j].name@ == t && !prop_map(b@).dom().contains(t),
            names_of(out@).no_duplicates(),
        decreases a@.len() - i,
    {
        let p = &a[i];
        if !prop_contains(b, p.name.as_str()) {
            let ghost old_out = out@;
            let copied = p.name.clone();
            out.push(copied);
            proof {
                assert(names_of(out@) =~= names_of(old_out).push(a@[i as int].name@));
                assert(!names_of(old_out).contains(a@[i as int].name@)) by {
                    if names_of(old_out).contains(a@[i as int].name@) {
                        let j = choose|j: int|
                            0 <= j < i && a@[j].name@ == a@[i as int].name@ && !prop_map(
                                b@,
                            ).dom().contains(a@[j].name@);
                        assert(a@[j].name@ != a@[i as int].name@);
                    }
                }
                assert(names_of(out@).no_duplicates());
                assert(forall|t: Seq<char>| #[trigger] names_of(out@).contains(t) <==> exists|j: int|
                    0 <= j <= i && a@[j].name@ == t && !prop_map(b@).dom().contains(t));
            }
        } else {
            proof {
                assert(forall|t: Seq<char>| #[trigger] names_of(out@).contains(t) <==> exists|j: int|
                    0 <= j <= i && a@[j].name@ == t && !prop_map(b@).dom().contains(t)) by {
                    assert(forall|j: int| 0 <= j <= i && a@[j].name@ == a@[i as int].name@
                        ==> prop_map(b@).dom().contains(a@[j].name@));
                }
            }
        }
        i += 1;
    }
    proof {
        assert(names_of(out@).to_set() =~= prop_map(a@).dom().difference(prop_map(b@).dom())) by {
            assert forall|t: Seq<char>| #[trigger] prop_map(a@).contains_key(t) implies
                exists|j: int| 0 <= j < a@.len() && a@[j].name@ == t by {
                lemma_prop_map_contains(a@, t);
            }
            assert forall|j: int| 0 <= j < a@.len() implies #[trigger] prop_map(a@).dom().contains(
                a@[j].name@,
            ) by {
                lemma_prop_map_contains(a@, a@[j].name@);
            }
        }
    }
    out
}

/// The `(name, expected type, user type)` triples for names both sides
/// declare with differing types, one triple per such name.
fn diff_wrong_types(user: &Vec<Property>, exp: &Vec<Property>) -> (r: Vec<(String, String, String)>)
    requires
        prop_unique(user@),
        prop_unique(exp@),
    ensures
        forall|tr: (Seq<char>, Seq<char>, Seq<char>)| #[trigger] triples_of(r@).contains(tr)
            <==> wrong_names(prop_map(user@), prop_map(exp@)).contains(tr.0) && tr.1 == prop_map(
            exp@,
        )[tr.0] && tr.2 == prop_map(user@)[tr.0],
        triples_of(r@).map_values(|tr: (Seq<char>, Seq<char>, Seq<char>)| tr.0).no_duplicates(),
{
    let ghost um = prop_map(user@);
    let ghost em = prop_map(exp@);
    let mut out: Vec<(String, String, String)> = Vec::new();
    let mut i: usize = 0;
    while i < exp.len()
        invariant
            prop_unique(user@),
            prop_unique(exp@),
            um == prop_map(user@),
            em == prop_map(exp@),
            0 <= i <= exp@.len(),
            forall|tr: (Seq<char>, Seq<char>, Seq<char>)| #[trigger] triples_of(out@).contains(tr)
                <==> exists|j: int|
                0 <= j < i && exp@[j].name@ == tr.0 && um.dom().contains(tr.0) && um[tr.0]
                    != em[tr.0] && tr.1 == em[tr.0] && tr.2 == um[tr.0],
            triples_of(out@).map_values(|tr: (Seq<char>, Seq<char>, Seq<char>)| tr.0).no_duplicates(),
        decreases exp@.len() - i,
    {
        let p = &exp[i];
        proof {
            lemma_prop_map_index(exp@, i as int);
        }
        let mut pushed = false;
        match prop_get(user, p.name.as_str()) {
            Some(ut) => {
                if !str_eq(ut.as_str(), p.prop_type.as_str()) {
                    let ghost old_out = out@;
                    let tr = (p.name.clone(), p.prop_type.clone(), ut.clone());
                    out.push(tr);
                    pushed = true;
                    proof {
                        let trv = (exp@[i as int].name@, em[exp@[i as int].name@], um[exp@[
                            i as int
                        ].name@]);
                        assert(triples_of(out@) =~= triples_of(old_out).push(trv));
                        let keyf = |t: (Seq<char>, Seq<char>, Seq<char>)| t.0;
                        assert(!triples_of(old_out).map_values(keyf).contains(trv.0)) by {
                            if triples_of(old_out).map_values(keyf).contains(trv.0) {
                                let x = choose|x: int|
                                    0 <= x < triples_of(old_out).len() && triples_of(old_out).map_values(
                                        keyf,
                                    )[x] == trv.0;
                                assert(triples_of(old_out).contains(triples_of(old_out)[x]));
                                let j = choose|j: int|
                                    0 <= j < i && exp@[j].name@ == triples_of(old_out)[x].0
                                        && um.dom().contains(triples_of(old_out)[x].0) && um[triples_of(
                                        old_out,
                                    )[x].0] != em[triples_of(old_out)[x].0];
                                assert(exp@[j].name@ != exp@[i as int].name@);
                            }
                        }
                        assert(triples_of(out@).map_values(keyf) =~= triples_of(old_out).map_values(
                            keyf,
                        ).push(trv.0));
                        assert(triples_of(out@).map_values(keyf).no_duplicates());
                    }
                }
            },
            None => {
            },
        }
        proof {
            if !pushed {
                assert(forall|tr: (Seq<char>, Seq<char>, Seq<char>)| #[trigger] triples_of(
                    out@,
                ).contains(tr) <==> exists|j: int|
                    0 <= j <= i && exp@[j].name@ == tr.0 && um.dom().contains(tr.0) && um[tr.0]
                        != em[tr.0] && tr.1 == em[tr.0] && tr.2 == um[tr.0]) by {
                    assert(forall|j: int, tr: (Seq<char>, Seq<char>, Seq<char>)|
                        0 <= j <= i && exp@[j].name@ == exp@[i as int].name@ && tr.0 == exp@[
                            j
                        ].name@ && um.dom().contains(tr.0) ==> um[tr.0] == em[tr.0]
                            || exp@[j].name@ != exp@[i as int].name@ || j == i);
                }
            } else {
                assert(forall|tr: (Seq<char>, Seq<char>, Seq<char>)| #[trigger] triples_of(
                    out@,
                ).contains(tr) <==> exists|j: int|
                    0 <= j <= i && exp@[j].name@ == tr.0 && um.dom().contains(tr.0) && um[tr.0]
                        != em[tr.0] && tr.1 == em[tr.0] && tr.2 == um[tr.0]);
            }
        }
        i += 1;
    }
    proof {
        assert forall|tr: (Seq<char>, Seq<char>, Seq<char>)| #[trigger] triples_of(out@).contains(
            tr,
        ) <==> wrong_names(um, em).contains(tr.0) && tr.1 == em[tr.0] && tr.2 == um[tr.0] by {
            if wrong_names(um, em).contains(tr.0) {
                lemma_prop_map_contains(exp@, tr.0);
            }
            if triples_of(out@).contains(tr) {
                let j = choose|j: int|
                    0 <= j < exp@.len() && exp@[j].name@ == tr.0 && um.dom().contains(tr.0)
                        && um[tr.0] != em[tr.0] && tr.1 == em[tr.0] && tr.2 == um[tr.0];
                lemma_prop_map_contains(exp@, tr.0);
            }
        }
    }
    out
}

/// The full property diff of two property lists.
pub fn prop_errors_of(user: &Vec<Property>, exp: &Vec<Property>) -> (r: PropertyErrors)
    requires
        prop_unique(user@),
        prop_unique(exp@),
    ensures
        prop_errors_ok(&r, prop_map(user@), prop_map(exp@)),
{
    PropertyErrors {
        missing: diff_missing_props(exp, user),
        extra: diff_missing_props(user, exp),
        wrong_type: diff_wrong_types(user, exp),
    }
}

/// Whether a property diff reported anything.
fn prop_errors_nonempty(pe: &PropertyErrors) -> (r: bool)
    ensures
        r == (pe.missing@.len() > 0 || pe.extra@.len() > 0 || pe.wrong_type@.len() > 0),
{
    pe.missing.len() > 0 || pe.extra.len() > 0 || pe.wrong_type.len() > 0
}

/// What a name-difference list must report: the names of `a` not in `b`.
pub open spec fn name_diff_ok(v: Seq<String>, a: Set<Seq<char>>, b: Set<Seq<char>>) -> bool {
    &&& names_of(v).to_set() == a.difference(b)
    &&& names_of(v).no_duplicates()
}

/// What the per-node (or per-vector) error map must report.
pub open spec fn node_errors_ok(
    entries: Seq<(String, PropertyErrors)>,
    u: Map<Seq<char>, Map<Seq<char>, Seq<char>>>,
    e: Map<Seq<char>, Map<Seq<char>, Seq<char>>>,
) -> bool {
    &&& kv_unique(entries)
    &&& forall|k: Seq<char>| #[trigger] kv_map(entries).contains_key(k) <==> u.dom().contains(k)
        && e.dom().contains(k) && !prop_diff_empty(u[k], e[k])
    &&& forall|k: Seq<char>| #[trigger] kv_map(entries).contains_key(k) ==> prop_errors_ok(
        &kv_map(entries)[k],
        u[k],
        e[k],
    )
}

/// What the per-edge error map must report.
pub open spec fn edge_errors_map_ok(
    entries: Seq<(String, EdgeErrors)>,
    u: Map<Seq<char>, SpecEdge>,
    e: Map<Seq<char>, SpecEdge>,
) -> bool {
    &&& kv_unique(entries)
    &&& forall|k: Seq<char>| #[trigger] kv_map(entries).contains_key(k) <==> u.dom().contains(k)
        && e.dom().contains(k) && !edge_clean(u[k], e[k])
    &&& forall|k: Seq<char>| #[trigger] kv_map(entries).contains_key(k) ==> edge_errors_ok(
        &kv_map(entries)[k],
        u[k],
        e[k],
    )
}

/// An empty report is exactly a clean property diff.
proof fn lemma_prop_errors_empty(pe: &PropertyErrors, u: Map<Seq<char>, Seq<char>>, e: Map<Seq<char>, Seq<char>>)
    requires
        prop_errors_ok(pe, u, e),
    ensures
        (pe.missing@.len() == 0 && pe.extra@.len() == 0 && pe.wrong_type@.len() == 0)
            <==> prop_diff_empty(u, e),
{
    if pe.missing@.len() == 0 && pe.extra@.len() == 0 && pe.wrong_type@.len() == 0 {
        assert(names_of(pe.missing@).to_set() =~= Set::<Seq<char>>::empty());
        assert(names_of(pe.extra@).to_set() =~= Set::<Seq<char>>::empty());
        assert forall|k: Seq<char>| #[trigger] e.dom().contains(k) implies u.dom().contains(k) by {
            if !u.dom().contains(k) {
                assert(e.dom().difference(u.dom()).contains(k));
            }
        }
        assert forall|k: Seq<char>| #[trigger] u.dom().contains(k) implies e.dom().contains(k) by {
            if !e.dom().contains(k) {
                assert(u.dom().difference(e.dom()).contains(k));
            }
        }
        assert forall|k: Seq<char>| #[trigger] e.dom().contains(k) && u.dom().contains(k) implies
            u[k] == e[k] by {
            if u[k] != e[k] {
                let tr = (k, e[k], u[k]);
                assert(wrong_names(u, e).contains(k));
                assert(triples_of(pe.wrong_type@).contains(tr));
            }
        }
    }
    if prop_diff_empty(u, e) {
        if pe.missing@.len() > 0 {
            lemma_names_nonempty(pe.missing@);
            assert(e.dom().difference(u.dom()).contains(pe.missing@[0]@));
        }
        if pe.extra@.len() > 0 {
            lemma_names_nonempty(pe.extra@);
            assert(u.dom().difference(e.dom()).contains(pe.extra@[0]@));
        }
        if pe.wrong_type@.len() > 0 {
            let tr0 = triples_of(pe.wrong_type@)[0];
            assert(triples_of(pe.wrong_type@).contains(tr0));
            assert(wrong_names(u, e).contains(tr0.0));
        }
    }
}

/// The property maps both `user` and `exp` name, at a key of `exp`.
spec fn pm_at(entries: Seq<(String, Vec<Property>)>, k: Seq<char>) -> Map<Seq<char>, Seq<char>> {
    prop_map(kv_map(entries)[k]@)
}

/// The per-node property error map: one entry for each name defined on
/// both sides whose property diff reports anything.
fn collect_prop_errors(
    user: &Vec<(String, Vec<Property>)>,
    exp: &Vec<(String, Vec<Property>)>,
) -> (r: Vec<(String, PropertyErrors)>)
    requires
        kv_unique(user@),
        kv_unique(exp@),
        forall|k: Seq<char>| #[trigger] kv_map(user@).contains_key(k) ==> prop_unique(
            kv_map(user@)[k]@,
        ),
        forall|k: Seq<char>| #[trigger] kv_map(exp@).contains_key(k) ==> prop_unique(
            kv_map(exp@)[k]@,
        ),
    ensures
        kv_unique(r@),
        forall|k: Seq<char>| #[trigger] kv_map(r@).contains_key(k) <==> kv_map(
            user@,
        ).contains_key(k) && kv_map(exp@).contains_key(k) && !prop_diff_empty(
            pm_at(user@, k),
            pm_at(exp@, k),
        ),
        forall|k: Seq<char>| #[trigger] kv_map(r@).contains_key(k) ==> prop_errors_ok(
            &kv_map(r@)[k],
            pm_at(user@, k),
            pm_at(exp@, k),
        ),
{
    let mut out: Vec<(String, PropertyErrors)> = Vec::new();
    let mut i: usize = 0;
    while i < exp.len()
        invariant
            kv_unique(user@),
            kv_unique(exp@),
            forall|k: Seq<char>| #[trigger] kv_map(user@).contains_key(k) ==> prop_unique(
                kv_map(user@)[k]@,
            ),
            forall|k: Seq<char>| #[trigger] kv_map(exp@).contains_key(k) ==> prop_unique(
                kv_map(exp@)[k]@,
            ),
            0 <= i <= exp@.len(),
            kv_unique(out@),
            forall|k: Seq<char>| #[trigger] kv_map(out@).contains_key(k) <==> (exists|j: int|
                0 <= j < i && exp@[j].0@ == k) && kv_map(user@).contains_key(k) && kv_map(
                exp@,
            ).contains_key(k) && !prop_diff_empty(pm_at(user@, k), pm_at(exp@, k)),
            forall|k: Seq<char>| #[trigger] kv_map(out@).contains_key(k) ==> prop_errors_ok(
                &kv_map(out@)[k],
                pm_at(user@, k),
                pm_at(exp@, k),
            ),
        decreases exp@.len() - i,
    {
        let e = &exp[i];
        let ghost k_i = e.0@;
        proof {
            lemma_kv_map_index(exp@, i as int);
        }
        match crate::model::kv_get(user, e.0.as_str()) {
            Some(u_ps) => {
                let pe = prop_errors_of(u_ps, &e.1);
                proof {
                    lemma_prop_errors_empty(&pe, pm_at(user@, k_i), pm_at(exp@, k_i));
                }
                if prop_errors_nonempty(&pe) {
                    let ghost old_out = out@;
                    let key = e.0.clone();
                    proof {
                        if kv_map(out@).contains_key(k_i) {
                            let j = choose|j: int| 0 <= j < i && exp@[j].0@ == k_i;
                            assert(exp@[j].0@ != exp@[i as int].0@);
                        }
                        crate::model::lemma_kv_push_unique(out@, (key, pe));
                    }
                    out.push((key, pe));
                    proof {
                        assert forall|k: Seq<char>| #[trigger] kv_map(out@).contains_key(k) <==> (
                        exists|j: int| 0 <= j <= i && exp@[j].0@ == k) && kv_map(
                            user@,
                        ).contains_key(k) && kv_map(exp@).contains_key(k) && !prop_diff_empty(
                            pm_at(user@, k),
                            pm_at(exp@, k),
                        ) by {
                            if k == k_i {
                                assert(exp@[i as int].0@ == k);
                            } else {
                                assert(kv_map(out@).contains_key(k) == kv_map(
                                    old_out,
                                ).contains_key(k));
                                assert((exists|j: int| 0 <= j <= i && exp@[j].0@ == k) == (
                                exists|j: int| 0 <= j < i && exp@[j].0@ == k));
                            }
                        }
                    }
                } else {
                    proof {
                        assert forall|k: Seq<char>| #[trigger] kv_map(out@).contains_key(k) <==> (
                        exists|j: int| 0 <= j <= i && exp@[j].0@ == k) && kv_map(
                            user@,
                        ).contains_key(k) && kv_map(exp@).contains_key(k) && !prop_diff_empty(
                            pm_at(user@, k),
                            pm_at(exp@, k),
                        ) by {
                            if k != k_i {
                                assert((exists|j: int| 0 <= j <= i && exp@[j].0@ == k) == (
                                exists|j: int| 0 <= j < i && exp@[j].0@ == k));
                            }
                        }
                    }
                }
            },
            None => {
                proof {
                    assert forall|k: Seq<char>| #[trigger] kv_map(out@).contains_key(k) <==> (
                    exists|j: int| 0 <= j <= i && exp@[j].0@ == k) && kv_map(user@).contains_key(
                        k,
                    ) && kv_map(exp@).contains_key(k) && !prop_diff_empty(
                        pm_at(user@, k),
                        pm_at(exp@, k),
                    ) by {
                        if k != k_i {
                            assert((exists|j: int| 0 <= j <= i && exp@[j].0@ == k) == (exists|j: int|
                                0 <= j < i && exp@[j].0@ == k));
                        }
                    }
                }
            },
        }
        i += 1;
    }
    proof {
        assert forall|k: Seq<char>| #[trigger] kv_map(out@).contains_key(k) <==> kv_map(
            user@,
        ).contains_key(k) && kv_map(exp@).contains_key(k) && !prop_diff_empty(
            pm_at(user@, k),
            pm_at(exp@, k),
        ) by {
            lemma_kv_map_contains(exp@, k);
        }
    }
    out
}

/// The structural edge representation at a key.
spec fn edge_at(entries: Seq<(String, EdgeInfo)>, k: Seq<char>) -> SpecEdge {
    let e = kv_map(entries)[k];
    SpecEdge { from: e.from_type@, to: e.to_type@, props: prop_map(e.properties@) }
}

/// The per-edge error map: one entry for each edge defined on both sides
/// whose endpoints or properties differ.
fn collect_edge_errors(
    user: &Vec<(String, EdgeInfo)>,
    exp: &Vec<(String, EdgeInfo)>,
) -> (r: Vec<(String, EdgeErrors)>)
    requires
        kv_unique(user@),
        kv_unique(exp@),
        forall|k: Seq<char>| #[trigger] kv_map(user@).contains_key(k) ==> prop_unique(
            kv_map(user@)[k].properties@,
        ),
        forall|k: Seq<char>| #[trigger] kv_map(exp@).contains_key(k) ==> prop_unique(
            kv_map(exp@)[k].properties@,
        ),
    ensures
        kv_unique(r@),
        forall|k: Seq<char>| #[trigger] kv_map(r@).contains_key(k) <==> kv_map(
            user@,
        ).contains_key(k) && kv_map(exp@).contains_key(k) && !edge_clean(
            edge_at(user@, k),
            edge_at(exp@, k),
        ),
        forall|k: Seq<char>| #[trigger] kv_map(r@).contains_key(k) ==> edge_errors_ok(
            &kv_map(r@)[k],
            edge_at(user@, k),
            edge_at(exp@, k),
        ),
{
    let mut out: Vec<(String, EdgeErrors)> = Vec::new();
    let mut i: usize = 0;
    while i < exp.len()
        invariant
            kv_unique(user@),
            kv_unique(exp@),
            forall|k: Seq<char>| #[trigger] kv_map(user@).contains_key(k) ==> prop_unique(
                kv_map(user@)[k].properties@,
            ),
            forall|k: Seq<char>| #[trigger] kv_map(exp@).contains_key(k) ==> prop_unique(
                kv_map(exp@)[k].properties@,
            ),
            0 <= i <= exp@.len(),
            kv_unique(out@),
            forall|k: Seq<char>| #[trigger] kv_map(out@).contains_key(k) <==> (exists|j: int|
                0 <= j < i && exp@[j].0@ == k) && kv_map(user@).contains_key(k) && kv_map(
                exp@,
            ).contains_key(k) && !edge_clean(edge_at(user@, k), edge_at(exp@, k)),
            forall|k: Seq<char>| #[trigger] kv_map(out@).contains_key(k) ==> edge_errors_ok(
                &kv_map(out@)[k],
                edge_at(user@, k),
                edge_at(exp@, k),
            ),
        decreases exp@.len() - i,
    {
        let e = &exp[i];
        let ghost k_i = e.0@;
        proof {
            lemma_kv_map_index(exp@, i as int);
        }
        match crate::model::kv_get(user, e.0.as_str()) {
            Some(u_edge) => {
                let from_mismatch = !str_eq(u_edge.from_type.as_str(), e.1.from_type.as_str());
                let to_mismatch = !str_eq(u_edge.to_type.as_str(), e.1.to_type.as_str());
                let pe = prop_errors_of(&u_edge.properties, &e.1.properties);
                proof {
                    lemma_prop_errors_empty(
                        &pe,
                        edge_at(user@, k_i).props,
                        edge_at(exp@, k_i).props,
                    );
                }
                if from_mismatch || to_mismatch || prop_errors_nonempty(&pe) {
                    let ee = EdgeErrors {
                        from_type_mismatch: if from_mismatch {
                            Some((u_edge.from_type.clone(), e.1.from_type.clone()))
                        } else {
                            None
                        },
                        to_type_mismatch: if to_mismatch {
                            Some((u_edge.to_type.clone(), e.1.to_type.clone()))
                        } else {
                            None
                        },
                        property_errors: pe,
                    };
                    let ghost old_out = out@;
                    let key = e.0.clone();
                    proof {
                        if kv_map(out@).contains_key(k_i) {
                            let j = choose|j: int| 0 <= j < i && exp@[j].0@ == k_i;
                            assert(exp@[j].0@ != exp@[i as int].0@);
                        }
                        crate::model::lemma_kv_push_unique(out@, (key, ee));
                    }
                    out.push((key, ee));
                    proof {
                        assert forall|k: Seq<char>| #[trigger] kv_map(out@).contains_key(k) <==> (
                        exists|j: int| 0 <= j <= i && exp@[j].0@ == k) && kv_map(
                            user@,
                        ).contains_key(k) && kv_map(exp@).contains_key(k) && !edge_clean(
                            edge_at(user@, k),
                            edge_at(exp@, k),
                        ) by {
                            if k == k_i {
                                assert(exp@[i as int].0@ == k);
                            } else {
                                assert(kv_map(out@).contains_key(k) == kv_map(
                                    old_out,
                                ).contains_key(k));
                                assert((exists|j: int| 0 <= j <= i && exp@[j].0@ == k) == (
                                exists|j: int| 0 <= j < i && exp@[j].0@ == k));
                            }
                        }
                    }
                } else {
                    proof {
                        assert forall|k: Seq<char>| #[trigger] kv_map(out@).contains_key(k) <==> (
                        exists|j: int| 0 <= j <= i && exp@[j].0@ == k) && kv_map(
                            user@,
                        ).contains_key(k) && kv_map(exp@).contains_key(k) && !edge_clean(
                            edge_at(user@, k),
                            edge_at(exp@, k),
                        ) by {
                            if k != k_i {
                                assert((exists|j: int| 0 <= j <= i && exp@[j].0@ == k) == (
                                exists|j: int| 0 <= j < i && exp@[j].0@ == k));
                            }
                        }
                    }
                }
            },
            None => {
                proof {
                    assert forall|k: Seq<char>| #[trigger] kv_map(out@).contains_key(k) <==> (
                    exists|j: int| 0 <= j <= i && exp@[j].0@ == k) && kv_map(user@).contains_key(
                        k,
                    ) && kv_map(exp@).contains_key(k) && !edge_clean(
                        edge_at(user@, k),
                        edge_at(exp@, k),
                    ) by {
                        if k != k_i {
                            assert((exists|j: int| 0 <= j <= i && exp@[j].0@ == k) == (exists|j: int|
                                0 <= j < i && exp@[j].0@ == k));
                        }
                    }
                }
            },
        }
        i += 1;
    }
    proof {
        assert forall|k: Seq<char>| #[trigger] kv_map(out@).contains_key(k) <==> kv_map(
            user@,
        ).contains_key(k) && kv_map(exp@).contains_key(k) && !edge_clean(
            edge_at(user@, k),
            edge_at(exp@, k),
        ) by {
            lemma_kv_map_contains(exp@, k);
        }
    }
    out
}

impl ParsedSchema {
    /// Diffs this (the learner's) schema model against the reference
    /// model.  The report lists every missing and extra name per
    /// category, itemizes property and endpoint findings for entities
    /// defined on both sides, and `is_correct` holds exactly when
    /// nothing expected is missing and every matched entity is clean.
    pub fn validate_answer(&self, expected: &ParsedSchema) -> (r: ValidationResult)
        requires
            self.wf(),
            expected.wf(),
        ensures
            name_diff_ok(r.missing_nodes@, expected.deep_nodes().dom(), self.deep_nodes().dom()),
            name_diff_ok(r.extra_nodes@, self.deep_nodes().dom(), expected.deep_nodes().dom()),
            node_errors_ok(r.property_errors@, self.deep_nodes(), expected.deep_nodes()),
            name_diff_ok(r.missing_edges@, expected.deep_edges().dom(), self.deep_edges().dom()),
            name_diff_ok(r.extra_edges@, self.deep_edges().dom(), expected.deep_edges().dom()),
            edge_errors_map_ok(r.edge_errors@, self.deep_edges(), expected.deep_edges()),
            name_diff_ok(
                r.missing_vectors@,
                expected.deep_vectors().dom(),
                self.deep_vectors().dom(),
            ),
            name_diff_ok(r.extra_vectors@, self.deep_vectors().dom(), expected.deep_vectors().dom()),
            node_errors_ok(r.vector_errors@, self.deep_vectors(), expected.deep_vectors()),
            r.is_correct == spec_schema_correct(self.deep(), expected.deep()),
    {
        proof {
            assert(self.deep_nodes().dom() =~= kv_map(self.nodes@).dom());
            assert(expected.deep_nodes().dom() =~= kv_map(expected.nodes@).dom());
            assert(self.deep_edges().dom() =~= kv_map(self.edges@).dom());
            assert(expected.deep_edges().dom() =~= kv_map(expected.edges@).dom());
            assert(self.deep_vectors().dom() =~= kv_map(self.vectors@).dom());
            assert(expected.deep_vectors().dom() =~= kv_map(expected.vectors@).dom());
            assert(forall|k: Seq<char>| #[trigger] kv_map(self.nodes@).contains_key(k)
                ==> self.deep_nodes()[k] == pm_at(self.nodes@, k));
            assert(forall|k: Seq<char>| #[trigger] kv_map(expected.nodes@).contains_key(k)
                ==> expected.deep_nodes()[k] == pm_at(expected.nodes@, k));
            assert(forall|k: Seq<char>| #[trigger] kv_map(self.edges@).contains_key(k)
                ==> self.deep_edges()[k] == edge_at(self.edges@, k));
            assert(forall|k: Seq<char>| #[trigger] kv_map(expected.edges@).contains_key(k)
                ==> expected.deep_edges()[k] == edge_at(expected.edges@, k));
            assert(forall|k: Seq<char>| #[trigger] kv_map(self.vectors@).contains_key(k)
                ==> self.deep_vectors()[k] == pm_at(self.vectors@, k));
            assert(forall|k: Seq<char>| #[trigger] kv_map(expected.vectors@).contains_key(k)
                ==> expected.deep_vectors()[k] == pm_at(expected.vectors@, k));
        }
        let missing_nodes = diff_missing_names(&expected.nodes, &self.nodes);
        let extra_nodes = diff_missing_names(&self.nodes, &expected.nodes);
        let property_errors = collect_prop_errors(&self.nodes, &expected.nodes);
        let missing_edges = diff_missing_names(&expected.edges, &self.edges);
        let extra_edges = diff_missing_names(&self.edges, &expected.edges);
        let edge_errors = collect_edge_errors(&self.edges, &expected.edges);
        let missing_vectors = diff_missing_names(&expected.vectors, &self.vectors);
        let extra_vectors = diff_missing_names(&self.vectors, &expected.vectors);
        let vector_errors = collect_prop_errors(&self.vectors, &expected.vectors);
        let is_correct = missing_nodes.is_empty() && property_errors.is_empty()
            && missing_edges.is_empty() && edge_errors.is_empty() && missing_vectors.is_empty()
            && vector_errors.is_empty();
        proof {
            let u = self.deep();
            let e = expected.deep();
            if e.nodes.dom().subset_of(u.nodes.dom()) {
                assert(e.nodes.dom().difference(u.nodes.dom()) =~= Set::<Seq<char>>::empty());
            }
            if missing_nodes@.len() == 0 {
                assert forall|k: Seq<char>| #[trigger] e.nodes.dom().contains(k) implies
                    u.nodes.dom().contains(k) by {
                    if !u.nodes.dom().contains(k) {
                        assert(e.nodes.dom().difference(u.nodes.dom()).contains(k));
                    }
                }
            }
            if e.edges.dom().subset_of(u.edges.dom()) {
                assert(e.edges.dom().difference(u.edges.dom()) =~= Set::<Seq<char>>::empty());
            }
            if missing_edges@.len() == 0 {
                assert forall|k: Seq<char>| #[trigger] e.edges.dom().contains(k) implies
                    u.edges.dom().contains(k) by {
                    if !u.edges.dom().contains(k) {
                        assert(e.edges.dom().difference(u.edges.dom()).contains(k));
                    }
                }
            }
            if e.vectors.dom().subset_of(u.vectors.dom()) {
                assert(e.vectors.dom().difference(u.vectors.dom()) =~= Set::<Seq<char>>::empty());
            }
            if missing_vectors@.len() == 0 {
                assert forall|k: Seq<char>| #[trigger] e.vectors.dom().contains(k) implies
                    u.vectors.dom().contains(k) by {
                    if !u.vectors.dom().contains(k) {
                        assert(e.vectors.dom().difference(u.vectors.dom()).contains(k));
                    }
                }
            }
            if property_errors@.len() == 0 {
                assert forall|k: Seq<char>| #[trigger] e.nodes.dom().contains(k)
                    && u.nodes.dom().contains(k) implies prop_diff_empty(
                    u.nodes[k],
                    e.nodes[k],
                ) by {
                    lemma_kv_map_contains(property_errors@, k);
                    assert(!kv_map(property_errors@).contains_key(k));
                    assert(kv_map(self.nodes@).contains_key(k));
                    assert(kv_map(expected.nodes@).contains_key(k));
                    assert(u.nodes[k] == pm_at(self.nodes@, k));
                    assert(e.nodes[k] == pm_at(expected.nodes@, k));
                }
            } else {
                let k0 = property_errors@[0].0@;
                lemma_kv_map_contains(property_errors@, k0);
                assert(kv_map(property_errors@).contains_key(k0));
                assert(u.nodes.dom().contains(k0) && e.nodes.dom().contains(k0));
                assert(u.nodes[k0] == pm_at(self.nodes@, k0));
                assert(e.nodes[k0] == pm_at(expected.nodes@, k0));
                assert(!prop_diff_empty(u.nodes[k0], e.nodes[k0]));
            }
            if edge_errors@.len() == 0 {
                assert forall|k: Seq<char>| #[trigger] e.edges.dom().contains(k)
                    && u.edges.dom().contains(k) implies edge_clean(u.edges[k], e.edges[k]) by {
                    lemma_kv_map_contains(edge_errors@, k);
                    assert(!kv_map(edge_errors@).contains_key(k));
                    assert(kv_map(self.edges@).contains_key(k));
                    assert(kv_map(expected.edges@).contains_key(k));
                    assert(u.edges[k] == edge_at(self.edges@, k));
                    assert(e.edges[k] == edge_at(expected.edges@, k));
                }
            } else {
                let k0 = edge_errors@[0].0@;
                lemma_kv_map_contains(edge_errors@, k0);
                assert(kv_map(edge_errors@).contains_key(k0));
                assert(u.edges.dom().contains(k0) && e.edges.dom().contains(k0));
                assert(u.edges[k0] == edge_at(self.edges@, k0));
                assert(e.edges[k0] == edge_at(expected.edges@, k0));
                assert(!edge_clean(u.edges[k0], e.edges[k0]));
            }
            if vector_errors@.len() == 0 {
                assert forall|k: Seq<char>| #[trigger] e.vectors.dom().contains(k)
                    && u.vectors.dom().contains(k) implies prop_diff_empty(
                    u.vectors[k],
                    e.vectors[k],
                ) by {
                    lemma_kv_map_contains(vector_errors@, k);
                    assert(!kv_map(vector_errors@).contains_key(k));
                    assert(kv_map(self.vectors@).contains_key(k));
                    assert(kv_map(expected.vectors@).contains_key(k));
                    assert(u.vectors[k] == pm_at(self.vectors@, k));
                    assert(e.vectors[k] == pm_at(expected.vectors@, k));
                }
            } else {
                let k0 = vector_errors@[0].0@;
                lemma_kv_map_contains(vector_errors@, k0);
                assert(kv_map(vector_errors@).contains_key(k0));
                assert(u.vectors.dom().contains(k0) && e.vectors.dom().contains(k0));
                assert(u.vectors[k0] == pm_at(self.vectors@, k0));
                assert(e.vectors[k0] == pm_at(expected.vectors@, k0));
                assert(!prop_diff_empty(u.vectors[k0], e.vectors[k0]));
            }
        }
        ValidationResult {
            is_correct,
            missing_nodes,
            extra_nodes,
            property_errors,
            missing_edges,
            extra_edges,
            edge_errors,
            missing_vectors,
            extra_vectors,
            vector_errors,
        }
    }
}

} // verus!
