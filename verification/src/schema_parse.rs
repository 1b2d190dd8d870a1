//! The schema-DSL parser.
//!
//! A block opens on a trimmed line starting `N::`, `E::` or `V::` that also
//! holds a `{`; it closes on a line that is exactly `}` (or at end of
//! input).  Interior lines of node and vector blocks are `name: type`
//! properties split at the first `:`.  Interior lines of edge blocks set
//! `From` and `To`, and collect properties only after a `Properties:`
//! marker line.  Anything unrecognized is skipped, so parsing is total.
//!
//! The parser is a forward state machine over trimmed lines; its meaning
//! is the spec-level state machine below, one transition per line.

use vstd::prelude::*;

use crate::model::{prop_map, prop_unique, prop_upsert, kv_upsert};
use crate::model::{EdgeInfo, ParsedSchema, Property};
use crate::strutil::{
    find_char, first_index_of, lines_of, split_lines, starts_with, str_eq,
    strip_back, strip_trailing, trim, trim_seq,
};

verus! {

/// An edge definition, mathematically.
#[verifier::ext_equal]
pub struct SpecEdge {
    pub from: Seq<char>,
    pub to: Seq<char>,
    pub props: Map<Seq<char>, Seq<char>>,
}

/// A schema model, mathematically: three name-keyed mappings.
#[verifier::ext_equal]
pub struct SpecSchema {
    pub nodes: Map<Seq<char>, Map<Seq<char>, Seq<char>>>,
    pub edges: Map<Seq<char>, SpecEdge>,
    pub vectors: Map<Seq<char>, Map<Seq<char>, Seq<char>>>,
}

/// Parser state: outside any block, or inside one kind of block.
pub enum SpecSchemaMode {
    Top,
    InNode { name: Seq<char>, props: Map<Seq<char>, Seq<char>> },
    InVector { name: Seq<char>, props: Map<Seq<char>, Seq<char>> },
    InEdge {
        name: Seq<char>,
        from: Seq<char>,
        to: Seq<char>,
        props: Map<Seq<char>, Seq<char>>,
        in_props: bool,
    },
}

pub open spec fn spec_schema_empty() -> SpecSchema {
    SpecSchema {
        nodes: Map::empty(),
        edges: Map::empty(),
        vectors: Map::empty(),
    }
}

/// A trimmed line that opens a block: `N::`, `E::` or `V::`.
pub open spec fn is_block_opener(line: Seq<char>) -> bool {
    &&& line.len() >= 3
    &&& line[1] == ':'
    &&& line[2] == ':'
    &&& (line[0] == 'N' || line[0] == 'E' || line[0] == 'V')
}

/// The `Properties:` marker that starts an edge's property sub-block.
pub open spec fn properties_marker() -> Seq<char> {
    seq!['P', 'r', 'o', 'p', 'e', 'r', 't', 'i', 'e', 's', ':']
}

/// What a trimmed line does when the parser stands outside any block.
pub open spec fn schema_top_step(line: Seq<char>) -> SpecSchemaMode {
    if is_block_opener(line) {
        let rest = line.subrange(3, line.len() as int);
        let b = first_index_of(rest, '{');
        if b == -1 {
            SpecSchemaMode::Top
        } else {
            let name = trim_seq(rest.subrange(0, b));
            if line[0] == 'N' {
                SpecSchemaMode::InNode { name, props: Map::empty() }
            } else if line[0] == 'V' {
                SpecSchemaMode::InVector { name, props: Map::empty() }
            } else {
                SpecSchemaMode::InEdge {
                    name,
                    from: Seq::empty(),
                    to: Seq::empty(),
                    props: Map::empty(),
                    in_props: false,
                }
            }
        }
    } else {
        SpecSchemaMode::Top
    }
}

/// What a trimmed interior line of a node or vector block contributes:
/// a `name: type` property when it holds a `:`, nothing otherwise.
pub open spec fn node_interior_props(
    props: Map<Seq<char>, Seq<char>>,
    line: Seq<char>,
) -> Map<Seq<char>, Seq<char>> {
    let k = first_index_of(line, ':');
    if k == -1 {
        props
    } else {
        props.insert(
            trim_seq(line.subrange(0, k)),
            trim_seq(line.subrange(k + 1, line.len() as int)),
        )
    }
}

/// What a trimmed interior line of an edge block does.
pub open spec fn edge_interior_step(
    from: Seq<char>,
    to: Seq<char>,
    props: Map<Seq<char>, Seq<char>>,
    in_props: bool,
    line: Seq<char>,
) -> (Seq<char>, Seq<char>, Map<Seq<char>, Seq<char>>, bool) {
    if properties_marker().is_prefix_of(line) {
        (from, to, props, true)
    } else {
        let k = first_index_of(line, ':');
        if k == -1 {
            (from, to, props, in_props)
        } else {
            let left = trim_seq(line.subrange(0, k));
            let value = strip_back(trim_seq(line.subrange(k + 1, line.len() as int)), ',');
            if left == seq!['F', 'r', 'o', 'm'] {
                (value, to, props, in_props)
            } else if left == seq!['T', 'o'] {
                (from, value, props, in_props)
            } else if in_props {
                (from, to, props.insert(left, value), in_props)
            } else {
                (from, to, props, in_props)
            }
        }
    }
}

/// Closing a block inserts the finished entity, the last definition of a
/// name winning.
pub open spec fn schema_commit(mode: SpecSchemaMode, acc: SpecSchema) -> SpecSchema {
    match mode {
        SpecSchemaMode::Top => acc,
        SpecSchemaMode::InNode { name, props } => SpecSchema {
            nodes: acc.nodes.insert(name, props),
            edges: acc.edges,
            vectors: acc.vectors,
        },
        SpecSchemaMode::InVector { name, props } => SpecSchema {
            nodes: acc.nodes,
            edges: acc.edges,
            vectors: acc.vectors.insert(name, props),
        },
        SpecSchemaMode::InEdge { name, from, to, props, .. } => SpecSchema {
            nodes: acc.nodes,
            edges: acc.edges.insert(name, SpecEdge { from, to, props }),
            vectors: acc.vectors,
        },
    }
}

/// One transition of the parser on a trimmed line.
pub open spec fn schema_step(
    st: (SpecSchemaMode, SpecSchema),
    line: Seq<char>,
) -> (SpecSchemaMode, SpecSchema) {
    match st.0 {
        SpecSchemaMode::Top => (schema_top_step(line), st.1),
        SpecSchemaMode::InNode { name, props } => {
            if line == seq!['}'] {
                (SpecSchemaMode::Top, schema_commit(st.0, st.1))
            } else {
                (SpecSchemaMode::InNode { name, props: node_interior_props(props, line) }, st.1)
            }
        },
        SpecSchemaMode::InVector { name, props } => {
            if line == seq!['}'] {
                (SpecSchemaMode::Top, schema_commit(st.0, st.1))
            } else {
                (SpecSchemaMode::InVector { name, props: node_interior_props(props, line) }, st.1)
            }
        },
        SpecSchemaMode::InEdge { name, from, to, props, in_props } => {
            if line == seq!['}'] {
                (SpecSchemaMode::Top, schema_commit(st.0, st.1))
            } else {
                let next = edge_interior_step(from, to, props, in_props, line);
                (
                    SpecSchemaMode::InEdge {
                        name,
                        from: next.0,
                        to: next.1,
                        props: next.2,
                        in_props: next.3,
                    },
                    st.1,
                )
            }
        },
    }
}

/// Runs the parser over the lines from `i` on, trimming each.
pub open spec fn schema_run(
    lines: Seq<Seq<char>>,
    i: int,
    st: (SpecSchemaMode, SpecSchema),
) -> (SpecSchemaMode, SpecSchema)
    decreases lines.len() - i,
{
    if i < 0 || i >= lines.len() {
        st
    } else {
        schema_run(lines, i + 1, schema_step(st, trim_seq(lines[i])))
    }
}

/// The model that parsing a schema text denotes: run the state machine
/// over the lines and commit any block still open at end of input.
pub open spec fn spec_parse_schema(text: Seq<char>) -> SpecSchema {
    let st = schema_run(lines_of(text), 0, (SpecSchemaMode::Top, spec_schema_empty()));
    schema_commit(st.0, st.1)
}

/// Executable parser state; its meaning is `SpecSchemaMode`.
enum SchemaMode {
    Top,
    InNode { name: String, props: Vec<Property> },
    InVector { name: String, props: Vec<Property> },
    InEdge { name: String, from: String, to: String, props: Vec<Property>, in_props: bool },
}

impl SchemaMode {
    spec fn view_mode(&self) -> SpecSchemaMode {
        match self {
            SchemaMode::Top => SpecSchemaMode::Top,
            SchemaMode::InNode { name, props } => SpecSchemaMode::InNode {
                name: name@,
                props: prop_map(props@),
            },
            SchemaMode::InVector { name, props } => SpecSchemaMode::InVector {
                name: name@,
                props: prop_map(props@),
            },
            SchemaMode::InEdge { name, from, to, props, in_props } => SpecSchemaMode::InEdge {
                name: name@,
                from: from@,
                to: to@,
                props: prop_map(props@),
                in_props: *in_props,
            },
        }
    }

    spec fn inv(&self) -> bool {
        match self {
            SchemaMode::Top => true,
            SchemaMode::InNode { props, .. } => prop_unique(props@),
            SchemaMode::InVector { props, .. } => prop_unique(props@),
            SchemaMode::InEdge { props, .. } => prop_unique(props@),
        }
    }
}

impl ParsedSchema {
    /// The node mapping, each property list read as a name-to-type map.
    pub open spec fn deep_nodes(&self) -> Map<Seq<char>, Map<Seq<char>, Seq<char>>> {
        self.nodes_map().map_values(|ps: Vec<Property>| prop_map(ps@))
    }

    pub open spec fn deep_edges(&self) -> Map<Seq<char>, SpecEdge> {
        self.edges_map().map_values(
            |e: EdgeInfo| SpecEdge { from: e.from_type@, to: e.to_type@, props: prop_map(e.properties@) },
        )
    }

    pub open spec fn deep_vectors(&self) -> Map<Seq<char>, Map<Seq<char>, Seq<char>>> {
        self.vectors_map().map_values(|ps: Vec<Property>| prop_map(ps@))
    }

    /// The mathematical schema this value denotes.
    pub open spec fn deep(&self) -> SpecSchema {
        SpecSchema { nodes: self.deep_nodes(), edges: self.deep_edges(), vectors: self.deep_vectors() }
    }
}

/// Commits a finished (or end-of-input) block into the model.
fn commit_mode(model: &mut ParsedSchema, mode: SchemaMode)
    requires
        old(model).wf(),
        mode.inv(),
    ensures
        final(model).wf(),
        final(model).deep() == schema_commit(mode.view_mode(), old(model).deep()),
{
    let ghost pre = *model;
    let ghost m = mode;
    match mode {
        SchemaMode::Top => {
        },
        SchemaMode::InNode { name, props } => {
            let ghost name_v = name@;
            let ghost props_v = props@;
            kv_upsert(&mut model.nodes, name, props);
            proof {
                assert(model.nodes_map() == pre.nodes_map().insert(name_v, props));
                assert(forall|k: Seq<char>| #[trigger] model.nodes_map().contains_key(k)
                    ==> prop_unique(model.nodes_map()[k]@)) by {
                    assert(forall|k: Seq<char>| #[trigger] model.nodes_map().contains_key(k)
                        && k != name_v ==> pre.nodes_map().contains_key(k)
                        && model.nodes_map()[k] == pre.nodes_map()[k]);
                }
                assert(model.deep_nodes() =~= pre.deep_nodes().insert(name_v, prop_map(props_v)));
                assert(model.deep_edges() =~= pre.deep_edges());
                assert(model.deep_vectors() =~= pre.deep_vectors());
                assert(model.deep() =~= schema_commit(m.view_mode(), pre.deep()));
            }
        },
        SchemaMode::InVector { name, props } => {
            let ghost name_v = name@;
            let ghost props_v = props@;
            kv_upsert(&mut model.vectors, name, props);
            proof {
                assert(model.vectors_map() == pre.vectors_map().insert(name_v, props));
                assert(forall|k: Seq<char>| #[trigger] model.vectors_map().contains_key(k)
                    ==> prop_unique(model.vectors_map()[k]@)) by {
                    assert(forall|k: Seq<char>| #[trigger] model.vectors_map().contains_key(k)
                        && k != name_v ==> pre.vectors_map().contains_key(k)
                        && model.vectors_map()[k] == pre.vectors_map()[k]);
                }
                assert(model.deep_vectors() =~= pre.deep_vectors().insert(
                    name_v,
                    prop_map(props_v),
                ));
                assert(model.deep_nodes() =~= pre.deep_nodes());
                assert(model.deep_edges() =~= pre.deep_edges());
                assert(model.deep() =~= schema_commit(m.view_mode(), pre.deep()));
            }
        },
        SchemaMode::InEdge { name, from, to, props, .. } => {
            let ghost name_v = name@;
            let edge = EdgeInfo { from_type: from, to_type: to, properties: props };
            let ghost edge_e = edge;
            let ghost edge_v = SpecEdge {
                from: edge.from_type@,
                to: edge.to_type@,
                props: prop_map(edge.properties@),
            };
            kv_upsert(&mut model.edges, name, edge);
            proof {
                assert(model.edges_map() == pre.edges_map().insert(name_v, edge_e));
                assert(forall|k: Seq<char>| #[trigger] model.edges_map().contains_key(k)
                    ==> prop_unique(model.edges_map()[k].properties@)) by {
                    assert(forall|k: Seq<char>| #[trigger] model.edges_map().contains_key(k)
                        && k != name_v ==> pre.edges_map().contains_key(k)
                        && model.edges_map()[k] == pre.edges_map()[k]);
                }
                assert(model.deep_edges() =~= pre.deep_edges().insert(name_v, edge_v));
                assert(model.deep_nodes() =~= pre.deep_nodes());
                assert(model.deep_vectors() =~= pre.deep_vectors());
                assert(model.deep() =~= schema_commit(m.view_mode(), pre.deep()));
            }
        },
    }
}

/// Classifies a trimmed line as a block opener: the kind of block and the
/// text after the three-character prefix.
pub fn detect_schema_type<'a>(line: &'a str) -> (r: Option<(&'static str, &'a str)>)
    ensures
        match r {
            Some(p) => {
                &&& is_block_opener(line@)
                &&& p.1@ == line@.subrange(3, line@.len() as int)
                &&& (p.0@ == "node"@ <==> line@[0] == 'N')
                &&& (p.0@ == "edge"@ <==> line@[0] == 'E')
                &&& (p.0@ == "vector"@ <==> line@[0] == 'V')
            },
            None => !is_block_opener(line@),
        },
{
    proof {
        reveal_strlit("node");
        reveal_strlit("edge");
        reveal_strlit("vector");
        assert("node"@ != "edge"@) by {
            if "node"@ == "edge"@ {
                assert("node"@[0] == "edge"@[0]);
            }
        }
        assert("node"@ != "vector"@) by {
            if "node"@ == "vector"@ {
                assert("node"@.len() == "vector"@.len());
            }
        }
        assert("edge"@ != "vector"@) by {
            if "edge"@ == "vector"@ {
                assert("edge"@.len() == "vector"@.len());
            }
        }
    }
    let n = line.unicode_len();
    if n >= 3 && line.get_char(1) == ':' && line.get_char(2) == ':' {
        let c0 = line.get_char(0);
        if c0 == 'N' {
            return Some(("node", line.substring_char(3, n)));
        }
        if c0 == 'E' {
            return Some(("edge", line.substring_char(3, n)));
        }
        if c0 == 'V' {
            return Some(("vector", line.substring_char(3, n)));
        }
    }
    None
}

impl ParsedSchema {
    /// Parses schema text.  Total: malformed lines are skipped, and the
    /// result is exactly the model of the spec-level state machine.
    pub fn parse(content: &str) -> (r: Result<ParsedSchema, String>)
        ensures
            r is Ok,
            r matches Ok(m) ==> m.wf() && m.deep() == spec_parse_schema(content@),
    {
        let lines = split_lines(content);
        let ghost lv = lines_of(content@);
        let mut model = ParsedSchema::empty();
        let mut mode = SchemaMode::Top;
        let mut i: usize = 0;
        proof {
            assert(model.deep_nodes() =~= spec_schema_empty().nodes);
            assert(model.deep_edges() =~= spec_schema_empty().edges);
            assert(model.deep_vectors() =~= spec_schema_empty().vectors);
            assert(model.deep() =~= spec_schema_empty());
        }
        while i < lines.len()
            invariant
                lines@.map_values(|t: String| t@) == lv,
                0 <= i <= lines@.len(),
                model.wf(),
                mode.inv(),
                schema_run(lv, i as int, (mode.view_mode(), model.deep())) == schema_run(
                    lv,
                    0,
                    (SpecSchemaMode::Top, spec_schema_empty()),
                ),
            decreases lines@.len() - i,
        {
            let line = trim(lines[i].as_str());
            proof {
                assert(lines@.map_values(|t: String| t@)[i as int] == lines@[i as int]@);
                assert(line@ == trim_seq(lv[i as int]));
            }
            let ghost pre_st = (mode.view_mode(), model.deep());
            let ghost spec_next = schema_step(pre_st, line@);
            let cur = mode;
            mode = match cur {
                SchemaMode::Top => {
                    match detect_schema_type(line) {
                        Some((kind, after)) => {
                            match find_char(after, '{') {
                                Some(b) => {
                                    let name = trim(after.substring_char(0, b)).to_owned();
                                    proof {
                                        assert(after@.subrange(0, b as int) == line@.subrange(
                                            3,
                                            line@.len() as int,
                                        ).subrange(0, b as int));
                                        reveal_strlit("edge");
                                        reveal_strlit("vector");
                                    }
                                    if str_eq(kind, "edge") {
                                        SchemaMode::InEdge {
                                            name,
                                            from: String::new(),
                                            to: String::new(),
                                            props: Vec::new(),
                                            in_props: false,
                                        }
                                    } else if str_eq(kind, "vector") {
                                        SchemaMode::InVector { name, props: Vec::new() }
                                    } else {
                                        SchemaMode::InNode { name, props: Vec::new() }
                                    }
                                },
                                None => SchemaMode::Top,
                            }
                        },
                        None => SchemaMode::Top,
                    }
                },
                SchemaMode::InNode { name, props } => {
                    if str_eq(line, "}") {
                        proof {
                            reveal_strlit("}");
                            assert("}"@ =~= seq!['}']);
                        }
                        commit_mode(&mut model, SchemaMode::InNode { name, props });
                        SchemaMode::Top
                    } else {
                        proof {
                            reveal_strlit("}");
                            assert("}"@ =~= seq!['}']);
                        }
                        match find_char(line, ':') {
                            Some(k) => {
                                let n = line.unicode_len();
                                let pname = trim(line.substring_char(0, k)).to_owned();
                                let ptype = trim(line.substring_char(k + 1, n)).to_owned();
                                let mut props2 = props;
                                prop_upsert(&mut props2, pname, ptype);
                                SchemaMode::InNode { name, props: props2 }
                            },
                            None => SchemaMode::InNode { name, props },
                        }
                    }
                },
                SchemaMode::InVector { name, props } => {
                    if str_eq(line, "}") {
                        proof {
                            reveal_strlit("}");
                            assert("}"@ =~= seq!['}']);
                        }
                        commit_mode(&mut model, SchemaMode::InVector { name, props });
                        SchemaMode::Top
                    } else {
                        proof {
                            reveal_strlit("}");
                            assert("}"@ =~= seq!['}']);
                        }
                        match find_char(line, ':') {
                            Some(k) => {
                                let n = line.unicode_len();
                                let pname = trim(line.substring_char(0, k)).to_owned();
                                let ptype = trim(line.substring_char(k + 1, n)).to_owned();
                                let mut props2 = props;
                                prop_upsert(&mut props2, pname, ptype);
                                SchemaMode::InVector { name, props: props2 }
                            },
                            None => SchemaMode::InVector { name, props },
                        }
                    }
                },
                SchemaMode::InEdge { name, from, to, props, in_props } => {
                    if str_eq(line, "}") {
                        proof {
                            reveal_strlit("}");
                            assert("}"@ =~= seq!['}']);
                        }
                        commit_mode(
                            &mut model,
                            SchemaMode::InEdge { name, from, to, props, in_props },
                        );
                        SchemaMode::Top
                    } else {
                        proof {
                            reveal_strlit("}");
                            assert("}"@ =~= seq!['}']);
                            reveal_strlit("Properties:");
                        }
                        if starts_with(line, "Properties:") {
                            proof {
                                assert("Properties:"@ =~= properties_marker());
                            }
                            SchemaMode::InEdge { name, from, to, props, in_props: true }
                        } else {
                            proof {
                                assert("Properties:"@ =~= properties_marker());
                            }
                            match find_char(line, ':') {
                                Some(k) => {
                                    let n = line.unicode_len();
                                    let left = trim(line.substring_char(0, k));
                                    let value = strip_trailing(
                                        trim(line.substring_char(k + 1, n)),
                                        ',',
                                    ).to_owned();
                                    proof {
                                        reveal_strlit("From");
                                        reveal_strlit("To");
                                        assert("From"@ =~= seq!['F', 'r', 'o', 'm']);
                                        assert("To"@ =~= seq!['T', 'o']);
                                    }
                                    if str_eq(left, "From") {
                                        SchemaMode::InEdge { name, from: value, to, props, in_props }
                                    } else if str_eq(left, "To") {
                                        SchemaMode::InEdge { name, from, to: value, props, in_props }
                                    } else if in_props {
                                        let mut props2 = props;
                                        prop_upsert(&mut props2, left.to_owned(), value);
                                        SchemaMode::InEdge {
                                            name,
                                            from,
                                            to,
                                            props: props2,
                                            in_props,
                                        }
                                    } else {
                                        SchemaMode::InEdge { name, from, to, props, in_props }
                                    }
                                },
                                None => SchemaMode::InEdge { name, from, to, props, in_props },
                            }
                        }
                    }
                },
            };
            proof {
                assert((mode.view_mode(), model.deep()) == spec_next);
            }
            i += 1;
        }
        proof {
            assert(schema_run(lv, i as int, (mode.view_mode(), model.deep()))
                == (mode.view_mode(), model.deep()));
        }
        commit_mode(&mut model, mode);
        Ok(model)
    }
}

} // verus!
