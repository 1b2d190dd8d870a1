//! The query validator: compares a learner's parsed queries against a
//! reference set.
//!
//! Expected queries the learner lacks are missing; extra queries are
//! never penalized.  For names defined on both sides, the raw parameter
//! strings must match verbatim, and the bodies must match after
//! normalization (lines trimmed, blank lines dropped, joined with single
//! spaces).  A mismatch yields one human-readable error entry per query.

use vstd::prelude::*;

use crate::model::{kv_map, kv_unique, lemma_kv_map_contains, lemma_kv_map_index, names_of};
use crate::query::{spec_normalize_body, normalize_query_body, ParsedQueries, ParsedQuery, SpecQuery};
use crate::schema_diff::name_diff_ok;
use crate::strutil::str_eq;

verus! {

/// The full report of a query diff.
pub struct QueryValidationResult {
    pub is_correct: bool,
    pub missing_queries: Vec<String>,
    pub extra_queries: Vec<String>,
    pub query_errors: Vec<(String, String)>,
}

/// The message reporting a parameter-list mismatch.
pub open spec fn params_mismatch_msg(e: Seq<char>, u: Seq<char>) -> Seq<char> {
    "Parameters mismatch. Expected: ("@ + e + "), Got: ("@ + u + ")"@
}

/// The message reporting a body mismatch.
pub open spec fn body_mismatch_msg() -> Seq<char> {
    "Query body differs from expected implementation"@
}

/// A matched query has a finding: parameters differ verbatim, or the
/// normalized bodies differ.
pub open spec fn query_has_error(uq: SpecQuery, eq: SpecQuery) -> bool {
    uq.params != eq.params || spec_normalize_body(uq.body) != spec_normalize_body(eq.body)
}

/// The error text for a matched query with a finding.
pub open spec fn query_error_msg(uq: SpecQuery, eq: SpecQuery) -> Seq<char> {
    let pm = uq.params != eq.params;
    let bm = spec_normalize_body(uq.body) != spec_normalize_body(eq.body);
    if pm && bm {
        params_mismatch_msg(eq.params, uq.params) + ". "@ + body_mismatch_msg()
    } else if pm {
        params_mismatch_msg(eq.params, uq.params)
    } else {
        body_mismatch_msg()
    }
}

/// What the per-query error map must report.
pub open spec fn query_errors_map_ok(
    entries: Seq<(String, String)>,
    u: Map<Seq<char>, SpecQuery>,
    e: Map<Seq<char>, SpecQuery>,
) -> bool {
    &&& kv_unique(entries)
    &&& forall|k: Seq<char>| #[trigger] kv_map(entries).contains_key(k) <==> u.dom().contains(k)
        && e.dom().contains(k) && query_has_error(u[k], e[k])
    &&& forall|k: Seq<char>| #[trigger] kv_map(entries).contains_key(k) ==> kv_map(entries)[k]@
        == query_error_msg(u[k], e[k])
}

/// The query diff reports nothing: nothing expected is missing and every
/// matched query is clean.
pub open spec fn spec_queries_correct(
    u: Map<Seq<char>, SpecQuery>,
    e: Map<Seq<char>, SpecQuery>,
) -> bool {
    &&& e.dom().subset_of(u.dom())
    &&& forall|k: Seq<char>| #[trigger] e.dom().contains(k) && u.dom().contains(k)
        ==> !query_has_error(u[k], e[k])
}

/// Builds the error text for a matched query.
fn build_error_msg(pm: bool, bm: bool, exp_params: &String, user_params: &String) -> (r: String)
    requires
        pm || bm,
    ensures
        pm && bm ==> r@ == params_mismatch_msg(exp_params@, user_params@) + ". "@
            + body_mismatch_msg(),
        pm && !bm ==> r@ == params_mismatch_msg(exp_params@, user_params@),
        !pm && bm ==> r@ == body_mismatch_msg(),
{
    if pm {
        let mut s = String::from_str("Parameters mismatch. Expected: (");
        s.append(exp_params.as_str());
        s.append("), Got: (");
        s.append(user_params.as_str());
        s.append(")");
        if bm {
            s.append(". ");
            s.append("Query body differs from expected implementation");
        }
        s
    } else {
        String::from_str("Query body differs from expected implementation")
    }
}

/// The specification view of an entry's query.
spec fn q_at(entries: Seq<(String, ParsedQuery)>, k: Seq<char>) -> SpecQuery {
    SpecQuery { params: kv_map(entries)[k].parameters@, body: kv_map(entries)[k].body@ }
}

/// One error entry for each query defined on both sides with a finding.
fn collect_query_errors(
    user: &Vec<(String, ParsedQuery)>,
    exp: &Vec<(String, ParsedQuery)>,
) -> (r: Vec<(String, String)>)
    requires
        kv_unique(user@),
        kv_unique(exp@),
    ensures
        kv_unique(r@),
        forall|k: Seq<char>| #[trigger] kv_map(r@).contains_key(k) <==> kv_map(
            user@,
        ).contains_key(k) && kv_map(exp@).contains_key(k) && query_has_error(
            q_at(user@, k),
            q_at(exp@, k),
        ),
        forall|k: Seq<char>| #[trigger] kv_map(r@).contains_key(k) ==> kv_map(r@)[k]@
            == query_error_msg(q_at(user@, k), q_at(exp@, k)),
{
    let mut out: Vec<(String, String)> = Vec::new();
    let mut i: usize = 0;
    while i < exp.len()
        invariant
            kv_unique(user@),
            kv_unique(exp@),
            0 <= i <= exp@.len(),
            kv_unique(out@),
            forall|k: Seq<char>| #[trigger] kv_map(out@).contains_key(k) <==> (exists|j: int|
                0 <= j < i && exp@[j].0@ == k) && kv_map(user@).contains_key(k) && kv_map(
                exp@,
            ).contains_key(k) && query_has_error(q_at(user@, k), q_at(exp@, k)),
            forall|k: Seq<char>| #[trigger] kv_map(out@).contains_key(k) ==> kv_map(out@)[k]@
                == query_error_msg(q_at(user@, k), q_at(exp@, k)),
        decreases exp@.len() - i,
    {
        let e = &exp[i];
        let ghost k_i = e.0@;
        proof {
            lemma_kv_map_index(exp@, i as int);
        }
        match crate::model::kv_get(user, e.0.as_str()) {
            Some(u_q) => {
                let pm = !str_eq(u_q.parameters.as_str(), e.1.parameters.as_str());
                let ub = normalize_query_body(u_q.body.as_str());
                let eb = normalize_query_body(e.1.body.as_str());
                let bm = !str_eq(ub.as_str(), eb.as_str());
                if pm || bm {
                    let msg = build_error_msg(pm, bm, &e.1.parameters, &u_q.parameters);
                    let ghost old_out = out@;
                    let key = e.0.clone();
                    proof {
                        if kv_map(out@).contains_key(k_i) {
                            let j = choose|j: int| 0 <= j < i && exp@[j].0@ == k_i;
                            assert(exp@[j].0@ != exp@[i as int].0@);
                        }
                        crate::model::lemma_kv_push_unique(out@, (key, msg));
                    }
                    out.push((key, msg));
                    proof {
                        assert forall|k: Seq<char>| #[trigger] kv_map(out@).contains_key(k) <==> (
                        exists|j: int| 0 <= j <= i && exp@[j].0@ == k) && kv_map(
                            user@,
                        ).contains_key(k) && kv_map(exp@).contains_key(k) && query_has_error(
                            q_at(user@, k),
                            q_at(exp@, k),
                        ) by {
                            if k == k_i {
                                assert(exp@[i as int].0@ == k);
                            } else {
                                assert(kv_map(out@).contains_key(k) == kv_map(
                                    old_out,
                                ).contains_key(k));
                                assert((exists|j: int| 0 <= j <= i && exp@[j].0@ == k) == (
                                exists|j: int| 0 <= j < i && exp@[j].0@ == k));
                            }
                        }
                    }
                } else {
                    proof {
                        assert forall|k: Seq<char>| #[trigger] kv_map(out@).contains_key(k) <==> (
                        exists|j: int| 0 <= j <= i && exp@[j].0@ == k) && kv_map(
                            user@,
                        ).contains_key(k) && kv_map(exp@).contains_key(k) && query_has_error(
                            q_at(user@, k),
                            q_at(exp@, k),
                        ) by {
                            if k != k_i {
                                assert((exists|j: int| 0 <= j <= i && exp@[j].0@ == k) == (
                                exists|j: int| 0 <= j < i && exp@[j].0@ == k));
                            }
                        }
                    }
                }
            },
            None => {
                proof {
                    assert forall|k: Seq<char>| #[trigger] kv_map(out@).contains_key(k) <==> (
                    exists|j: int| 0 <= j <= i && exp@[j].0@ == k) && kv_map(user@).contains_key(
                        k,
                    ) && kv_map(exp@).contains_key(k) && query_has_error(
                        q_at(user@, k),
                        q_at(exp@, k),
                    ) by {
                        if k != k_i {
                            assert((exists|j: int| 0 <= j <= i && exp@[j].0@ == k) == (exists|j: int|
                                0 <= j < i && exp@[j].0@ == k));
                        }
                    }
                }
            },
        }
        i += 1;
    }
    proof {
        assert forall|k: Seq<char>| #[trigger] kv_map(out@).contains_key(k) <==> kv_map(
            user@,
        ).contains_key(k) && kv_map(exp@).contains_key(k) && query_has_error(
            q_at(user@, k),
            q_at(exp@, k),
        ) by {
            lemma_kv_map_contains(exp@, k);
        }
    }
    out
}

impl ParsedQueries {
    /// Diffs this (the learner's) query model against the reference
    /// model.  Missing names, one error entry per differing matched
    /// query; extra queries are never reported or penalized, and
    /// `is_correct` holds exactly when nothing is missing and every
    /// matched query is clean.
    pub fn validate_against(&self, expected: &ParsedQueries) -> (r: QueryValidationResult)
        requires
            self.wf(),
            expected.wf(),
        ensures
            name_diff_ok(r.missing_queries@, expected.deep().dom(), self.deep().dom()),
            r.extra_queries@.len() == 0,
            query_errors_map_ok(r.query_errors@, self.deep(), expected.deep()),
            r.is_correct == spec_queries_correct(self.deep(), expected.deep()),
    {
        proof {
            assert(self.deep().dom() =~= kv_map(self.queries@).dom());
            assert(expected.deep().dom() =~= kv_map(expected.queries@).dom());
            assert(forall|k: Seq<char>| #[trigger] kv_map(self.queries@).contains_key(k)
                ==> self.deep()[k] == q_at(self.queries@, k));
            assert(forall|k: Seq<char>| #[trigger] kv_map(expected.queries@).contains_key(k)
                ==> expected.deep()[k] == q_at(expected.queries@, k));
        }
        let missing_queries = crate::schema_diff::diff_missing_names(
            &expected.queries,
            &self.queries,
        );
        let extra_queries: Vec<String> = Vec::new();
        let query_errors = collect_query_errors(&self.queries, &expected.queries);
        let is_correct = missing_queries.is_empty() && extra_queries.is_empty()
            && query_errors.is_empty();
        proof {
            let u = self.deep();
            let e = expected.deep();
            if e.dom().subset_of(u.dom()) {
                assert(e.dom().difference(u.dom()) =~= Set::<Seq<char>>::empty());
            }
            if missing_queries@.len() == 0 {
                assert forall|k: Seq<char>| #[trigger] e.dom().contains(k) implies u.dom().contains(
                    k,
                ) by {
                    if !u.dom().contains(k) {
                        assert(e.dom().difference(u.dom()).contains(k));
                    }
                }
            }
            if query_errors@.len() == 0 {
                assert forall|k: Seq<char>| #[trigger] e.dom().contains(k) && u.dom().contains(
                    k,
                ) implies !query_has_error(u[k], e[k]) by {
                    lemma_kv_map_contains(query_errors@, k);
                    assert(!kv_map(query_errors@).contains_key(k));
                    assert(kv_map(self.queries@).contains_key(k));
                    assert(kv_map(expected.queries@).contains_key(k));
                    assert(u[k] == q_at(self.queries@, k));
                    assert(e[k] == q_at(expected.queries@, k));
                }
            } else {
                let k0 = query_errors@[0].0@;
                lemma_kv_map_contains(query_errors@, k0);
                assert(kv_map(query_errors@).contains_key(k0));
                assert(u.dom().contains(k0) && e.dom().contains(k0));
                assert(u[k0] == q_at(self.queries@, k0));
                assert(e[k0] == q_at(expected.queries@, k0));
                assert(query_has_error(u[k0], e[k0]));
            }
        }
        QueryValidationResult { is_correct, missing_queries, extra_queries, query_errors }
    }
}

} // verus!
