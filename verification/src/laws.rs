//! General laws of the parsers and validators, stated and proved once
//! for all inputs.  Each law is phrased over the same spec functions the
//! executable functions' contracts use, so it carries over to every call.

use vstd::prelude::*;

use crate::model::{names_of, ParsedSchema};
use crate::query::{
    is_skippable, kept_of, spec_parse_queries, spec_parse_query_lines, ParsedQueries, SpecQuery,
};
use crate::query_diff::spec_queries_correct;
use crate::schema_diff::{
    edge_clean, prop_diff_empty, prop_errors_ok, triples_of, wrong_names, PropertyErrors,
};
use crate::schema_diff::spec_schema_correct;
use crate::schema_parse::{spec_parse_schema, SpecSchema};
use crate::strutil::trim_seq;

verus! {

/// Parsing identical schema text twice yields models with the same
/// node, edge and vector mappings: the parse result is a function of
/// the text alone.
pub proof fn lemma_parse_schema_deterministic(a: &ParsedSchema, b: &ParsedSchema, text: Seq<char>)
    requires
        a.deep() == spec_parse_schema(text),
        b.deep() == spec_parse_schema(text),
    ensures
        a.deep_nodes() == b.deep_nodes(),
        a.deep_edges() == b.deep_edges(),
        a.deep_vectors() == b.deep_vectors(),
{
}

/// Parsing identical query text twice yields the same query mapping.
pub proof fn lemma_parse_queries_deterministic(
    a: &ParsedQueries,
    b: &ParsedQueries,
    text: Seq<char>,
)
    requires
        a.deep() == spec_parse_queries(text),
        b.deep() == spec_parse_queries(text),
    ensures
        a.deep() == b.deep(),
{
}

/// Diffing any schema model against itself finds nothing: every
/// matched entity is clean, nothing is missing, and so the report's
/// `is_correct` is true and all its difference sets are empty.
pub proof fn lemma_diff_schema_self(m: SpecSchema)
    ensures
        spec_schema_correct(m, m),
        m.nodes.dom().difference(m.nodes.dom()) =~= Set::<Seq<char>>::empty(),
        m.edges.dom().difference(m.edges.dom()) =~= Set::<Seq<char>>::empty(),
        m.vectors.dom().difference(m.vectors.dom()) =~= Set::<Seq<char>>::empty(),
{
    assert forall|k: Seq<char>| #[trigger] m.nodes.dom().contains(k) && m.nodes.dom().contains(
        k,
    ) implies prop_diff_empty(m.nodes[k], m.nodes[k]) by {
    }
    assert forall|k: Seq<char>| #[trigger] m.edges.dom().contains(k) && m.edges.dom().contains(
        k,
    ) implies edge_clean(m.edges[k], m.edges[k]) by {
    }
}

/// Diffing any query model against itself finds nothing.
pub proof fn lemma_diff_queries_self(m: Map<Seq<char>, SpecQuery>)
    ensures
        spec_queries_correct(m, m),
        m.dom().difference(m.dom()) =~= Set::<Seq<char>>::empty(),
{
}

/// For models whose name sets are disjoint, the missing set is exactly
/// the expected side's names and the extra set is exactly the user
/// side's names, in every category.
pub proof fn lemma_diff_schema_disjoint(u: SpecSchema, e: SpecSchema)
    requires
        u.nodes.dom().disjoint(e.nodes.dom()),
        u.edges.dom().disjoint(e.edges.dom()),
        u.vectors.dom().disjoint(e.vectors.dom()),
    ensures
        e.nodes.dom().difference(u.nodes.dom()) =~= e.nodes.dom(),
        u.nodes.dom().difference(e.nodes.dom()) =~= u.nodes.dom(),
        e.edges.dom().difference(u.edges.dom()) =~= e.edges.dom(),
        u.edges.dom().difference(e.edges.dom()) =~= u.edges.dom(),
        e.vectors.dom().difference(u.vectors.dom()) =~= e.vectors.dom(),
        u.vectors.dom().difference(e.vectors.dom()) =~= u.vectors.dom(),
{
}

/// A property name declared on both sides with differing types appears
/// in the wrong-type list, exactly once, and in neither the missing nor
/// the extra list of the same report.
pub proof fn lemma_wrong_type_reported_once(
    pe: &PropertyErrors,
    u: Map<Seq<char>, Seq<char>>,
    e: Map<Seq<char>, Seq<char>>,
    k: Seq<char>,
)
    requires
        prop_errors_ok(pe, u, e),
        u.dom().contains(k),
        e.dom().contains(k),
        u[k] != e[k],
    ensures
        triples_of(pe.wrong_type@).contains((k, e[k], u[k])),
        forall|x: int| 0 <= x < pe.wrong_type@.len() && #[trigger] triples_of(pe.wrong_type@)[x].0
            == k ==> triples_of(pe.wrong_type@)[x] == (k, e[k], u[k]),
        forall|x: int, y: int|
            0 <= x < y < pe.wrong_type@.len() && #[trigger] triples_of(pe.wrong_type@)[x].0 == k
                ==> #[trigger] triples_of(pe.wrong_type@)[y].0 != k,
        !names_of(pe.missing@).contains(k),
        !names_of(pe.extra@).contains(k),
{
    assert(wrong_names(u, e).contains(k));
    assert(triples_of(pe.wrong_type@).contains((k, e[k], u[k])));
    let keyf = |tr: (Seq<char>, Seq<char>, Seq<char>)| tr.0;
    assert forall|x: int|
        0 <= x < pe.wrong_type@.len() && #[trigger] triples_of(pe.wrong_type@)[x].0 == k implies
        triples_of(pe.wrong_type@)[x] == (k, e[k], u[k]) by {
        let tr = triples_of(pe.wrong_type@)[x];
        assert(triples_of(pe.wrong_type@).contains(tr));
        assert(tr.1 == e[k] && tr.2 == u[k]);
    }
    assert forall|x: int, y: int|
        0 <= x < y < pe.wrong_type@.len() && #[trigger] triples_of(pe.wrong_type@)[x].0 == k
        implies #[trigger] triples_of(pe.wrong_type@)[y].0 != k by {
        let keys = triples_of(pe.wrong_type@).map_values(keyf);
        assert(keys[x] == triples_of(pe.wrong_type@)[x].0);
        assert(keys[y] == triples_of(pe.wrong_type@)[y].0);
    }
    if names_of(pe.missing@).contains(k) {
        assert(names_of(pe.missing@).to_set().contains(k));
        assert(e.dom().difference(u.dom()).contains(k));
    }
    if names_of(pe.extra@).contains(k) {
        assert(names_of(pe.extra@).to_set().contains(k));
        assert(u.dom().difference(e.dom()).contains(k));
    }
}

/// Dropping an element the filter rejects leaves the filtered sequence
/// unchanged, wherever it was inserted.
proof fn lemma_filter_insert_dropped<A>(s: Seq<A>, i: int, x: A, pred: spec_fn(A) -> bool)
    requires
        0 <= i <= s.len(),
        !pred(x),
    ensures
        s.insert(i, x).filter(pred) == s.filter(pred),
    decreases s.len(),
{
    reveal(Seq::filter);
    let t = s.insert(i, x);
    if i == s.len() {
        assert(t =~= s.push(x));
        assert(t.drop_last() =~= s);
    } else {
        assert(t.last() == s.last());
        assert(t.drop_last() =~= s.drop_last().insert(i, x));
        lemma_filter_insert_dropped(s.drop_last(), i, x, pred);
    }
}

/// Inserting a blank or `//`-comment line anywhere in a query file
/// leaves the lines the parser reads unchanged.
pub proof fn lemma_skippable_line_dropped(ls: Seq<Seq<char>>, i: int, l: Seq<char>)
    requires
        0 <= i <= ls.len(),
        is_skippable(trim_seq(l)),
    ensures
        kept_of(ls.insert(i, l)) == kept_of(ls),
{
    let tf = |line: Seq<char>| trim_seq(line);
    let pred = |line: Seq<char>| !is_skippable(line);
    assert(ls.insert(i, l).map_values(tf) =~= ls.map_values(tf).insert(i, trim_seq(l)));
    lemma_filter_insert_dropped(ls.map_values(tf), i, trim_seq(l), pred);
}

/// Inserting a blank or `//`-comment line anywhere in a query file does
/// not change the parsed query model.
pub proof fn lemma_query_parse_comment_invariant(ls: Seq<Seq<char>>, i: int, l: Seq<char>)
    requires
        0 <= i <= ls.len(),
        is_skippable(trim_seq(l)),
    ensures
        spec_parse_query_lines(ls.insert(i, l)) == spec_parse_query_lines(ls),
{
    lemma_skippable_line_dropped(ls, i, l);
}

} // verus!

