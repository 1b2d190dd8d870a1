//! The query-DSL parser.
//!
//! Blank lines and `//` comment lines are insignificant everywhere.  A
//! definition starts at a line beginning `QUERY `; its header runs to the
//! first ` =>`, the name is the header text before the first `(`, and the
//! raw parameter string is the text between that `(` and the last `)` of
//! the header.  Every following kept line belongs to the body until the
//! next `QUERY ` line, which is not consumed.  Malformed headers start no
//! definition and their lines are dropped: parsing is total.

use vstd::prelude::*;

use crate::model::{kv_map, kv_unique, kv_upsert};
use crate::strutil::{
    find_char, find_sub, find_substr, first_index_of, join_strings, join_with, last_index_of,
    lines_of, rfind_char, split_lines, starts_with, trim, trim_seq,
};

verus! {

/// One parsed query: its name, raw parameter-list text, and body text.
pub struct ParsedQuery {
    pub name: String,
    pub parameters: String,
    pub body: String,
}

/// A parsed queries file: a name-keyed mapping of query definitions.
pub struct ParsedQueries {
    pub queries: Vec<(String, ParsedQuery)>,
}

/// A query signature, mathematically.
#[verifier::ext_equal]
pub struct SpecQuery {
    pub params: Seq<char>,
    pub body: Seq<char>,
}

/// Parser state: outside any definition, or collecting a body.
pub enum SpecQueryMode {
    Top,
    InQuery { name: Seq<char>, params: Seq<char>, body: Seq<Seq<char>> },
}

/// The `QUERY ` keyword that opens a definition.
pub open spec fn query_keyword() -> Seq<char> {
    seq!['Q', 'U', 'E', 'R', 'Y', ' ']
}

/// The ` =>` separator that ends a header.
pub open spec fn arrow_marker() -> Seq<char> {
    seq![' ', '=', '>']
}

/// A trimmed line the parser skips everywhere: empty or a `//` comment.
pub open spec fn is_skippable(line: Seq<char>) -> bool {
    line.len() == 0 || seq!['/', '/'].is_prefix_of(line)
}

/// The lines the query parser actually reads, out of raw input lines:
/// each line trimmed, blank and comment lines dropped.
pub open spec fn kept_of(ls: Seq<Seq<char>>) -> Seq<Seq<char>> {
    ls.map_values(|l: Seq<char>| trim_seq(l)).filter(|l: Seq<char>| !is_skippable(l))
}

/// The lines the query parser actually reads from a text.
pub open spec fn kept_lines(text: Seq<char>) -> Seq<Seq<char>> {
    kept_of(lines_of(text))
}

/// What a kept line does when the parser stands outside a definition.
/// The header is read up to the first ` =>`; a missing ` =>`, one that
/// overlaps the keyword, or a header without `(` starts nothing.  A
/// header whose last `)` does not follow the `(` is read as if the `)`
/// were absent, so the parameter text runs to the header's end.
pub open spec fn query_top_step(line: Seq<char>) -> SpecQueryMode {
    if query_keyword().is_prefix_of(line) {
        let a = find_sub(line, arrow_marker());
        if a < 6 {
            SpecQueryMode::Top
        } else {
            let def = line.subrange(6, a);
            let p = first_index_of(def, '(');
            if p == -1 {
                SpecQueryMode::Top
            } else {
                let e = last_index_of(def, ')');
                let pe = if e >= p + 1 { e } else { def.len() as int };
                SpecQueryMode::InQuery {
                    name: trim_seq(def.subrange(0, p)),
                    params: trim_seq(def.subrange(p + 1, pe)),
                    body: Seq::empty(),
                }
            }
        }
    } else {
        SpecQueryMode::Top
    }
}

/// Closing a definition inserts it, the last definition of a name winning;
/// the body lines are joined with newlines.
pub open spec fn query_commit(
    mode: SpecQueryMode,
    acc: Map<Seq<char>, SpecQuery>,
) -> Map<Seq<char>, SpecQuery> {
    match mode {
        SpecQueryMode::Top => acc,
        SpecQueryMode::InQuery { name, params, body } => acc.insert(
            name,
            SpecQuery { params, body: join_with(body, seq!['\n']) },
        ),
    }
}

/// One transition of the parser on a kept line.
pub open spec fn query_step(
    st: (SpecQueryMode, Map<Seq<char>, SpecQuery>),
    line: Seq<char>,
) -> (SpecQueryMode, Map<Seq<char>, SpecQuery>) {
    match st.0 {
        SpecQueryMode::Top => (query_top_step(line), st.1),
        SpecQueryMode::InQuery { name, params, body } => {
            if query_keyword().is_prefix_of(line) {
                (query_top_step(line), query_commit(st.0, st.1))
            } else {
                (SpecQueryMode::InQuery { name, params, body: body.push(line) }, st.1)
            }
        },
    }
}

/// Runs the parser over the kept lines from `i` on.
pub open spec fn query_run(
    lines: Seq<Seq<char>>,
    i: int,
    st: (SpecQueryMode, Map<Seq<char>, SpecQuery>),
) -> (SpecQueryMode, Map<Seq<char>, SpecQuery>)
    decreases lines.len() - i,
{
    if i < 0 || i >= lines.len() {
        st
    } else {
        query_run(lines, i + 1, query_step(st, lines[i]))
    }
}

/// The model that a sequence of raw input lines denotes.
pub open spec fn spec_parse_query_lines(ls: Seq<Seq<char>>) -> Map<Seq<char>, SpecQuery> {
    let st = query_run(kept_of(ls), 0, (SpecQueryMode::Top, Map::empty()));
    query_commit(st.0, st.1)
}

/// The model that parsing a queries text denotes.
pub open spec fn spec_parse_queries(text: Seq<char>) -> Map<Seq<char>, SpecQuery> {
    spec_parse_query_lines(lines_of(text))
}

/// Executable parser state; its meaning is `SpecQueryMode`.
enum QueryMode {
    Top,
    InQuery { name: String, params: String, body: Vec<String> },
}

impl QueryMode {
    spec fn view_mode(&self) -> SpecQueryMode {
        match self {
            QueryMode::Top => SpecQueryMode::Top,
            QueryMode::InQuery { name, params, body } => SpecQueryMode::InQuery {
                name: name@,
                params: params@,
                body: body@.map_values(|l: String| l@),
            },
        }
    }
}

impl ParsedQueries {
    /// The mapping as a map from names to signatures.
    pub open spec fn deep(&self) -> Map<Seq<char>, SpecQuery> {
        kv_map(self.queries@).map_values(
            |q: ParsedQuery| SpecQuery { params: q.parameters@, body: q.body@ },
        )
    }

    /// Keys are unique and each entry's key is its query's name.
    pub open spec fn wf(&self) -> bool {
        &&& kv_unique(self.queries@)
        &&& forall|k: Seq<char>| #[trigger] kv_map(self.queries@).contains_key(k)
            ==> kv_map(self.queries@)[k].name@ == k
    }
}

/// Reads a definition header from a kept line; `None` when the line does
/// not start a definition.
fn parse_query_header(line: &str) -> (r: Option<(String, String)>)
    ensures
        match r {
            Some(p) => query_top_step(line@) == (SpecQueryMode::InQuery {
                name: p.0@,
                params: p.1@,
                body: Seq::<Seq<char>>::empty(),
            }),
            None => query_top_step(line@) == SpecQueryMode::Top,
        },
{
    proof {
        reveal_strlit("QUERY ");
        reveal_strlit(" =>");
        assert("QUERY "@ =~= query_keyword());
        assert(" =>"@ =~= arrow_marker());
    }
    if !starts_with(line, "QUERY ") {
        return None;
    }
    let a = match find_substr(line, " =>") {
        Some(a) => a,
        None => {
            return None;
        },
    };
    if a < 6 {
        return None;
    }
    let def = line.substring_char(6, a);
    let p = match find_char(def, '(') {
        Some(p) => p,
        None => {
            proof {
                assert(def@ == line@.subrange(6, a as int));
            }
            return None;
        },
    };
    proof {
        assert(def@ == line@.subrange(6, a as int));
    }
    let dn = def.unicode_len();
    let name = trim(def.substring_char(0, p)).to_owned();
    let pe = match rfind_char(def, ')') {
        Some(e) => {
            if e >= p + 1 {
                e
            } else {
                dn
            }
        },
        None => dn,
    };
    let params = trim(def.substring_char(p + 1, pe)).to_owned();
    Some((name, params))
}

/// Commits a finished (or end-of-input) definition into the model.
fn commit_query(model: &mut ParsedQueries, mode: QueryMode)
    requires
        old(model).wf(),
    ensures
        final(model).wf(),
        final(model).deep() == query_commit(mode.view_mode(), old(model).deep()),
{
    let ghost pre = *model;
    let ghost m = mode;
    match mode {
        QueryMode::Top => {
        },
        QueryMode::InQuery { name, params, body } => {
            let ghost name_v = name@;
            let body_str = join_strings(&body, "\n");
            proof {
                reveal_strlit("\n");
                assert("\n"@ =~= seq!['\n']);
            }
            let q = ParsedQuery { name: name.clone(), parameters: params, body: body_str };
            let ghost q_e = q;
            let ghost q_v = SpecQuery { params: q.parameters@, body: q.body@ };
            kv_upsert(&mut model.queries, name, q);
            proof {
                assert(kv_map(model.queries@) == kv_map(pre.queries@).insert(name_v, q_e));
                assert(forall|k: Seq<char>| #[trigger] kv_map(model.queries@).contains_key(k)
                    && k != name_v ==> kv_map(pre.queries@).contains_key(k)
                    && kv_map(model.queries@)[k] == kv_map(pre.queries@)[k]);
                assert(model.deep() =~= pre.deep().insert(name_v, q_v));
            }
        },
    }
}

impl ParsedQueries {
    /// Parses query-DSL text.  Total: malformed lines are dropped, and
    /// the result is exactly the model of the spec-level state machine.
    pub fn parse(content: &str) -> (r: Result<ParsedQueries, String>)
        ensures
            r is Ok,
            r matches Ok(m) ==> m.wf() && m.deep() == spec_parse_queries(content@),
    {
        let raw = split_lines(content);
        let ghost lv = lines_of(content@);
        let ghost tl = lv.map_values(|l: Seq<char>| trim_seq(l));
        let mut kept: Vec<String> = Vec::new();
        let mut i: usize = 0;
        proof {
            reveal_strlit("//");
            assert("//"@ =~= seq!['/', '/']);
            assert(tl.take(0) =~= Seq::<Seq<char>>::empty());
            assert(kept@.map_values(|l: String| l@) =~= tl.take(0).filter(
                |l: Seq<char>| !is_skippable(l),
            )) by {
                reveal(Seq::filter);
            }
        }
        while i < raw.len()
            invariant
                raw@.map_values(|t: String| t@) == lv,
                tl == lv.map_values(|l: Seq<char>| trim_seq(l)),
                0 <= i <= raw@.len(),
                kept@.map_values(|l: String| l@) == tl.take(i as int).filter(
                    |l: Seq<char>| !is_skippable(l),
                ),
            decreases raw@.len() - i,
        {
            let t = trim(raw[i].as_str());
            proof {
                assert(raw@.map_values(|t: String| t@)[i as int] == raw@[i as int]@);
                assert(t@ == trim_seq(lv[i as int]));
                assert(tl[i as int] == trim_seq(lv[i as int]));
                reveal_strlit("//");
                assert("//"@ =~= seq!['/', '/']);
            }
            let keep_it = if t.unicode_len() == 0 {
                false
            } else {
                !starts_with(t, "//")
            };
            proof {
                assert(keep_it == !is_skippable(t@));
                let pred = |l: Seq<char>| !is_skippable(l);
                assert(tl.take(i + 1).drop_last() =~= tl.take(i as int));
                assert(tl.take(i + 1).last() == tl[i as int]);
                reveal(Seq::filter);
                if keep_it {
                    assert(tl.take(i + 1).filter(pred) == tl.take(i as int).filter(pred).push(
                        tl[i as int],
                    ));
                } else {
                    assert(tl.take(i + 1).filter(pred) == tl.take(i as int).filter(pred));
                }
            }
            if keep_it {
                let t_owned = t.to_owned();
                proof {
                    assert(kept@.push(t_owned).map_values(|l: String| l@) =~= kept@.map_values(
                        |l: String| l@,
                    ).push(t_owned@));
                }
                kept.push(t_owned);
            }
            i += 1;
        }
        proof {
            assert(tl.take(raw@.len() as int) =~= tl);
            assert(kept@.map_values(|l: String| l@) == kept_lines(content@));
        }
        // The state machine over the kept lines.
        let ghost kl = kept_lines(content@);
        let mut model = ParsedQueries { queries: Vec::new() };
        let mut mode = QueryMode::Top;
        let mut j: usize = 0;
        proof {
            assert(model.deep() =~= Map::<Seq<char>, SpecQuery>::empty());
        }
        while j < kept.len()
            invariant
                kept@.map_values(|l: String| l@) == kl,
                0 <= j <= kept@.len(),
                model.wf(),
                query_run(kl, j as int, (mode.view_mode(), model.deep())) == query_run(
                    kl,
                    0,
                    (SpecQueryMode::Top, Map::<Seq<char>, SpecQuery>::empty()),
                ),
            decreases kept@.len() - j,
        {
            let line = kept[j].as_str();
            proof {
                assert(kept@.map_values(|l: String| l@)[j as int] == kept@[j as int]@);
                assert(line@ == kl[j as int]);
                reveal_strlit("QUERY ");
                assert("QUERY "@ =~= query_keyword());
            }
            let ghost spec_next = query_step((mode.view_mode(), model.deep()), line@);
            let cur = mode;
            mode = match cur {
                QueryMode::Top => {
                    match parse_query_header(line) {
                        Some((name, params)) => {
                            let body0: Vec<String> = Vec::new();
                            proof {
                                assert(body0@.map_values(|l: String| l@)
                                    =~= Seq::<Seq<char>>::empty());
                            }
                            QueryMode::InQuery { name, params, body: body0 }
                        },
                        None => QueryMode::Top,
                    }
                },
                QueryMode::InQuery { name, params, body } => {
                    if starts_with(line, "QUERY ") {
                        commit_query(&mut model, QueryMode::InQuery { name, params, body });
                        match parse_query_header(line) {
                            Some((name2, params2)) => {
                                let body0: Vec<String> = Vec::new();
                                proof {
                                    assert(body0@.map_values(|l: String| l@)
                                        =~= Seq::<Seq<char>>::empty());
                                }
                                QueryMode::InQuery { name: name2, params: params2, body: body0 }
                            },
                            None => QueryMode::Top,
                        }
                    } else {
                        let mut body2 = body;
                        let line_owned = line.to_owned();
                        proof {
                            assert(body2@.push(line_owned).map_values(|l: String| l@)
                                =~= body2@.map_values(|l: String| l@).push(line_owned@));
                        }
                        body2.push(line_owned);
                        QueryMode::InQuery { name, params, body: body2 }
                    }
                },
            };
            proof {
                assert((mode.view_mode(), model.deep()) == spec_next);
            }
            j += 1;
        }
        commit_query(&mut model, mode);
        Ok(model)
    }
}

/// A query body normalized for comparison: lines trimmed, empty lines
/// dropped, the rest joined with single spaces.
pub open spec fn spec_normalize_body(body: Seq<char>) -> Seq<char> {
    join_with(
        lines_of(body).map_values(|l: Seq<char>| trim_seq(l)).filter(|l: Seq<char>| l.len() != 0),
        seq![' '],
    )
}

/// Normalizes a query body for comparison.
pub fn normalize_query_body(body: &str) -> (r: String)
    ensures
        r@ == spec_normalize_body(body@),
{
    let raw = split_lines(body);
    let ghost lv = lines_of(body@);
    let ghost tl = lv.map_values(|l: Seq<char>| trim_seq(l));
    let mut kept: Vec<String> = Vec::new();
    let mut i: usize = 0;
    proof {
        assert(tl.take(0) =~= Seq::<Seq<char>>::empty());
        assert(kept@.map_values(|l: String| l@) =~= tl.take(0).filter(
            |l: Seq<char>| l.len() != 0,
        )) by {
            reveal(Seq::filter);
        }
    }
    while i < raw.len()
        invariant
            raw@.map_values(|t: String| t@) == lv,
            tl == lv.map_values(|l: Seq<char>| trim_seq(l)),
            0 <= i <= raw@.len(),
            kept@.map_values(|l: String| l@) == tl.take(i as int).filter(
                |l: Seq<char>| l.len() != 0,
            ),
        decreases raw@.len() - i,
    {
        let t = trim(raw[i].as_str());
        proof {
            assert(raw@.map_values(|t: String| t@)[i as int] == raw@[i as int]@);
            assert(t@ == trim_seq(lv[i as int]));
            assert(tl[i as int] == trim_seq(lv[i as int]));
        }
        let keep_it = t.unicode_len() != 0;
        proof {
            let pred = |l: Seq<char>| l.len() != 0;
            assert(tl.take(i + 1).drop_last() =~= tl.take(i as int));
            assert(tl.take(i + 1).last() == tl[i as int]);
            reveal(Seq::filter);
            if keep_it {
                assert(tl.take(i + 1).filter(pred) == tl.take(i as int).filter(pred).push(
                    tl[i as int],
                ));
            } else {
                assert(tl.take(i + 1).filter(pred) == tl.take(i as int).filter(pred));
            }
        }
        if keep_it {
            let t_owned = t.to_owned();
            proof {
                assert(kept@.push(t_owned).map_values(|l: String| l@) =~= kept@.map_values(
                    |l: String| l@,
                ).push(t_owned@));
            }
            kept.push(t_owned);
        }
        i += 1;
    }
    proof {
        assert(tl.take(raw@.len() as int) =~= tl);
    }
    let r = join_strings(&kept, " ");
    proof {
        reveal_strlit(" ");
        assert(" "@ =~= seq![' ']);
    }
    r
}

} // verus!
