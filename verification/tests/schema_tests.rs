//! Schema parser and validator behavior on concrete inputs.

use helixir::model::ParsedSchema;

fn parse(text: &str) -> ParsedSchema {
    ParsedSchema::parse(text).unwrap()
}

fn props_of<'a>(m: &'a ParsedSchema, name: &str) -> &'a Vec<helixir::model::Property> {
    &m.nodes.iter().find(|e| e.0 == name).unwrap().1
}

#[test]
fn parses_single_node() {
    let m = parse("N::Continent {\n  name: String\n}\n");
    assert_eq!(m.nodes.len(), 1);
    assert_eq!(m.nodes[0].0, "Continent");
    let ps = props_of(&m, "Continent");
    assert_eq!(ps.len(), 1);
    assert_eq!(ps[0].name, "name");
    assert_eq!(ps[0].prop_type, "String");
    assert!(m.edges.is_empty());
    assert!(m.vectors.is_empty());
}

#[test]
fn parses_node_edge_vector() {
    let text = "N::City {\n  name: String\n  description: String\n}\nE::Country_to_City {\n  From: Country,\n  To: City\n}\nV::CityDescription {\n  vector: [F64]\n}\n";
    let m = parse(text);
    assert_eq!(m.nodes.len(), 1);
    assert_eq!(m.edges.len(), 1);
    assert_eq!(m.vectors.len(), 1);
    let e = &m.edges[0];
    assert_eq!(e.0, "Country_to_City");
    assert_eq!(e.1.from_type, "Country");
    assert_eq!(e.1.to_type, "City");
    assert!(e.1.properties.is_empty());
    assert_eq!(m.vectors[0].0, "CityDescription");
    assert_eq!(m.vectors[0].1[0].name, "vector");
    assert_eq!(m.vectors[0].1[0].prop_type, "[F64]");
}

#[test]
fn edge_properties_only_after_marker() {
    let text = "E::Road {\n  lanes: U64,\n  From: City,\n  To: City,\n  Properties:\n  length: U64,\n}\n";
    let m = parse(text);
    let e = &m.edges[0].1;
    assert_eq!(e.from_type, "City");
    assert_eq!(e.to_type, "City");
    // `lanes` stood before the marker, so only `length` belongs to the edge.
    assert_eq!(e.properties.len(), 1);
    assert_eq!(e.properties[0].name, "length");
    assert_eq!(e.properties[0].prop_type, "U64");
}

#[test]
fn edge_values_lose_trailing_commas() {
    let m = parse("E::A_to_B {\n  From: A,\n  To: B,,\n}\n");
    let e = &m.edges[0].1;
    assert_eq!(e.from_type, "A");
    assert_eq!(e.to_type, "B");
}

#[test]
fn node_type_keeps_trailing_comma() {
    // Node property types are only trimmed; no comma stripping happens.
    let m = parse("N::C {\n  name: String,\n}\n");
    assert_eq!(props_of(&m, "C")[0].prop_type, "String,");
}

#[test]
fn opener_without_brace_is_skipped() {
    let m = parse("N::Lost\nN::Found {\n  name: String\n}\n");
    assert_eq!(m.nodes.len(), 1);
    assert_eq!(m.nodes[0].0, "Found");
}

#[test]
fn unterminated_block_still_commits() {
    let m = parse("N::Open {\n  name: String\n");
    assert_eq!(m.nodes.len(), 1);
    assert_eq!(m.nodes[0].0, "Open");
    assert_eq!(props_of(&m, "Open").len(), 1);
}

#[test]
fn duplicate_definition_last_wins() {
    let m = parse("N::A {\n  x: U64\n}\nN::A {\n  y: U64\n}\n");
    assert_eq!(m.nodes.len(), 1);
    let ps = props_of(&m, "A");
    assert_eq!(ps.len(), 1);
    assert_eq!(ps[0].name, "y");
}

#[test]
fn duplicate_property_last_wins() {
    let m = parse("N::A {\n  x: U64\n  x: String\n}\n");
    let ps = props_of(&m, "A");
    assert_eq!(ps.len(), 1);
    assert_eq!(ps[0].name, "x");
    assert_eq!(ps[0].prop_type, "String");
}

#[test]
fn no_comment_stripping_in_schema() {
    // The schema parser does not treat `//` lines specially: inside a
    // block such a line is split at its first `:` like any other.
    let m = parse("N::A {\n  // note: aside\n  x: U64\n}\n");
    let ps = props_of(&m, "A");
    assert_eq!(ps.len(), 2);
    assert_eq!(ps[0].name, "// note");
    assert_eq!(ps[0].prop_type, "aside");
}

#[test]
fn parse_is_idempotent_on_same_text() {
    let text = "N::A {\n  x: U64\n}\nE::A_to_A {\n  From: A,\n  To: A\n}\nV::AV {\n  v: [F64]\n}\n";
    let m1 = parse(text);
    let m2 = parse(text);
    assert_eq!(m1.nodes.len(), m2.nodes.len());
    for (name, ps) in m1.nodes.iter() {
        let other = &m2.nodes.iter().find(|e| &e.0 == name).unwrap().1;
        assert_eq!(ps.len(), other.len());
        for p in ps.iter() {
            let q = other.iter().find(|q| q.name == p.name).unwrap();
            assert_eq!(p.prop_type, q.prop_type);
        }
    }
    assert_eq!(m1.edges.len(), m2.edges.len());
    for (name, e1) in m1.edges.iter() {
        let e2 = &m2.edges.iter().find(|e| &e.0 == name).unwrap().1;
        assert_eq!(e1.from_type, e2.from_type);
        assert_eq!(e1.to_type, e2.to_type);
        assert_eq!(e1.properties.len(), e2.properties.len());
    }
    assert_eq!(m1.vectors.len(), m2.vectors.len());
}

#[test]
fn diff_of_model_against_itself_is_correct() {
    let text = "N::A {\n  x: U64\n}\nE::A_to_A {\n  From: A,\n  To: A\n}\nV::AV {\n  v: [F64]\n}\n";
    let user = parse(text);
    let expected = parse(text);
    let r = user.validate_answer(&expected);
    assert!(r.is_correct);
    assert!(r.missing_nodes.is_empty());
    assert!(r.extra_nodes.is_empty());
    assert!(r.property_errors.is_empty());
    assert!(r.missing_edges.is_empty());
    assert!(r.extra_edges.is_empty());
    assert!(r.edge_errors.is_empty());
    assert!(r.missing_vectors.is_empty());
    assert!(r.extra_vectors.is_empty());
    assert!(r.vector_errors.is_empty());
}

#[test]
fn disjoint_models_report_exact_sets() {
    let user = parse("N::A {\n  x: U64\n}\nN::B {\n  y: U64\n}\n");
    let expected = parse("N::C {\n  z: U64\n}\n");
    let r = user.validate_answer(&expected);
    assert_eq!(r.missing_nodes, vec!["C".to_string()]);
    let mut extra = r.extra_nodes.clone();
    extra.sort();
    assert_eq!(extra, vec!["A".to_string(), "B".to_string()]);
    assert!(!r.is_correct);
}

#[test]
fn scenario_matching_continent() {
    let expected = parse("N::Continent {\n  name: String\n}\n");
    let user = parse("N::Continent {\n  name: String\n}\n");
    let r = user.validate_answer(&expected);
    assert!(r.is_correct);
    assert!(r.missing_nodes.is_empty());
    assert!(r.extra_nodes.is_empty());
    assert!(r.property_errors.is_empty());
    assert!(r.missing_edges.is_empty());
    assert!(r.edge_errors.is_empty());
    assert!(r.missing_vectors.is_empty());
    assert!(r.vector_errors.is_empty());
}

#[test]
fn scenario_wrong_property_type() {
    let expected = parse("N::Continent {\n  name: String\n}\n");
    let user = parse("N::Continent {\n  name: Str\n}\n");
    let r = user.validate_answer(&expected);
    assert!(!r.is_correct);
    assert_eq!(r.property_errors.len(), 1);
    let (node, pe) = &r.property_errors[0];
    assert_eq!(node, "Continent");
    assert_eq!(
        pe.wrong_type,
        vec![("name".to_string(), "String".to_string(), "Str".to_string())]
    );
    assert!(pe.missing.is_empty());
    assert!(pe.extra.is_empty());
}

#[test]
fn scenario_missing_edge() {
    let expected = parse("E::A {\n  From: X,\n  To: Y\n}\n");
    let user = parse("");
    let r = user.validate_answer(&expected);
    assert_eq!(r.missing_edges, vec!["A".to_string()]);
    assert!(r.edge_errors.is_empty());
    assert!(!r.is_correct);
}

#[test]
fn scenario_edge_to_type_mismatch() {
    let expected = parse("E::Country_to_Capital {\n  From: Country,\n  To: City\n}\n");
    let user = parse("E::Country_to_Capital {\n  From: Country,\n  To: Country\n}\n");
    let r = user.validate_answer(&expected);
    assert!(!r.is_correct);
    assert_eq!(r.edge_errors.len(), 1);
    let (name, ee) = &r.edge_errors[0];
    assert_eq!(name, "Country_to_Capital");
    assert!(ee.from_type_mismatch.is_none());
    assert_eq!(
        ee.to_type_mismatch,
        Some(("Country".to_string(), "City".to_string()))
    );
}

#[test]
fn extra_entities_never_fail_the_check() {
    let expected = parse("N::A {\n  x: U64\n}\n");
    let user = parse("N::A {\n  x: U64\n}\nN::B {\n  y: U64\n}\nV::W {\n  v: [F64]\n}\n");
    let r = user.validate_answer(&expected);
    assert!(r.is_correct);
    assert_eq!(r.extra_nodes, vec!["B".to_string()]);
    assert_eq!(r.extra_vectors, vec!["W".to_string()]);
}

#[test]
fn missing_and_extra_properties_reported() {
    let expected = parse("N::A {\n  x: U64\n  y: U64\n}\n");
    let user = parse("N::A {\n  x: U64\n  z: U64\n}\n");
    let r = user.validate_answer(&expected);
    assert!(!r.is_correct);
    let (_, pe) = &r.property_errors[0];
    assert_eq!(pe.missing, vec!["y".to_string()]);
    assert_eq!(pe.extra, vec!["z".to_string()]);
    assert!(pe.wrong_type.is_empty());
}

#[test]
fn vector_property_type_mismatch() {
    let expected = parse("V::D {\n  vector: [F64]\n}\n");
    let user = parse("V::D {\n  vector: [F32]\n}\n");
    let r = user.validate_answer(&expected);
    assert!(!r.is_correct);
    assert_eq!(r.vector_errors.len(), 1);
    let (name, pe) = &r.vector_errors[0];
    assert_eq!(name, "D");
    assert_eq!(
        pe.wrong_type,
        vec![("vector".to_string(), "[F64]".to_string(), "[F32]".to_string())]
    );
}

#[test]
fn empty_input_gives_empty_model() {
    let m = parse("");
    assert!(m.nodes.is_empty());
    assert!(m.edges.is_empty());
    assert!(m.vectors.is_empty());
}

#[test]
fn garbage_input_still_parses() {
    let m = ParsedSchema::parse("}{:: nonsense ::\n}}}\n:::\n").unwrap();
    assert!(m.nodes.is_empty() && m.edges.is_empty() && m.vectors.is_empty());
}

#[test]
fn inline_properties_marker_sets_flag() {
    // `Properties: {` is still a marker line: it starts with the marker.
    let m = ParsedSchema::parse("E::R {\n  From: A,\n  To: B,\n  Properties: {\n  w: U64\n}\n")
        .unwrap();
    let e = &m.edges[0].1;
    assert_eq!(e.properties.len(), 1);
    assert_eq!(e.properties[0].name, "w");
}

#[test]
fn from_inside_properties_block_sets_endpoint() {
    // `From:` keeps its meaning even after the marker; it never becomes
    // an edge property.
    let m = ParsedSchema::parse("E::R {\n  Properties:\n  From: X\n}\n").unwrap();
    let e = &m.edges[0].1;
    assert_eq!(e.from_type, "X");
    assert!(e.properties.is_empty());
}

#[test]
fn close_brace_must_stand_alone() {
    // A `}` with other text on the line does not close the block; it is
    // read as an interior line.
    let m = ParsedSchema::parse("N::A {\n  x: U64 }\n}\n").unwrap();
    let ps = &m.nodes[0].1;
    assert_eq!(ps.len(), 1);
    assert_eq!(ps[0].prop_type, "U64 }");
}

#[test]
fn crlf_input_parses_like_lf() {
    let m = ParsedSchema::parse("N::A {\r\n  x: U64\r\n}\r\n").unwrap();
    assert_eq!(m.nodes[0].0, "A");
    assert_eq!(m.nodes[0].1[0].prop_type, "U64");
}

#[test]
fn node_and_vector_may_share_a_name() {
    let m = ParsedSchema::parse("N::D {\n  x: U64\n}\nV::D {\n  v: [F64]\n}\n").unwrap();
    assert_eq!(m.nodes.len(), 1);
    assert_eq!(m.vectors.len(), 1);
    let expected = ParsedSchema::parse("N::D {\n  x: U64\n}\nV::D {\n  v: [F64]\n}\n").unwrap();
    assert!(m.validate_answer(&expected).is_correct);
}

#[test]
fn edge_property_wrong_type_reported_in_nested_errors() {
    let expected =
        ParsedSchema::parse("E::R {\n  From: A,\n  To: B,\n  Properties:\n  w: U64\n}\n").unwrap();
    let user =
        ParsedSchema::parse("E::R {\n  From: A,\n  To: B,\n  Properties:\n  w: I64\n}\n").unwrap();
    let r = user.validate_answer(&expected);
    assert!(!r.is_correct);
    let (_, ee) = &r.edge_errors[0];
    assert!(ee.from_type_mismatch.is_none());
    assert!(ee.to_type_mismatch.is_none());
    assert_eq!(
        ee.property_errors.wrong_type,
        vec![("w".to_string(), "U64".to_string(), "I64".to_string())]
    );
}
