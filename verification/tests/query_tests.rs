//! Query parser and validator behavior on concrete inputs.

use helixir::query::{normalize_query_body, ParsedQueries, ParsedQuery};

fn parse_q(text: &str) -> ParsedQueries {
    ParsedQueries::parse(text).unwrap()
}

fn query_of<'a>(m: &'a ParsedQueries, name: &str) -> &'a ParsedQuery {
    &m.queries.iter().find(|e| e.0 == name).unwrap().1
}

#[test]
fn parses_single_query() {
    let m = parse_q("QUERY createContinent (name: String) =>\n  AddN<Continent>({name: name})\n");
    assert_eq!(m.queries.len(), 1);
    let q = query_of(&m, "createContinent");
    assert_eq!(q.name, "createContinent");
    assert_eq!(q.parameters, "name: String");
    assert_eq!(q.body, "AddN<Continent>({name: name})");
}

#[test]
fn parses_two_queries_without_consuming_headers() {
    let text = "QUERY a(x: ID) =>\n  N<A>(x)\nQUERY b(y: ID) =>\n  N<B>(y)\n";
    let m = parse_q(text);
    assert_eq!(m.queries.len(), 2);
    assert_eq!(query_of(&m, "a").body, "N<A>(x)");
    assert_eq!(query_of(&m, "b").body, "N<B>(y)");
}

#[test]
fn multiline_body_joined_with_newlines() {
    let m = parse_q("QUERY a() =>\n  first\n  second\n");
    assert_eq!(query_of(&m, "a").body, "first\nsecond");
}

#[test]
fn comments_and_blank_lines_skipped_everywhere() {
    let with_noise =
        "// header comment\n\nQUERY a(x: ID) =>\n// inside\n  first\n\n  second\n\n// tail\n";
    let clean = "QUERY a(x: ID) =>\n  first\n  second\n";
    let m1 = parse_q(with_noise);
    let m2 = parse_q(clean);
    assert_eq!(m1.queries.len(), m2.queries.len());
    let q1 = query_of(&m1, "a");
    let q2 = query_of(&m2, "a");
    assert_eq!(q1.parameters, q2.parameters);
    assert_eq!(q1.body, q2.body);
}

#[test]
fn header_without_arrow_starts_nothing() {
    let m = parse_q("QUERY broken(x: ID)\n  stray\nQUERY ok() =>\n  body\n");
    assert_eq!(m.queries.len(), 1);
    assert_eq!(query_of(&m, "ok").body, "body");
}

#[test]
fn header_without_paren_starts_nothing() {
    let m = parse_q("QUERY broken =>\n  stray\n");
    assert!(m.queries.is_empty());
}

#[test]
fn parameters_run_to_last_close_paren() {
    let m = parse_q("QUERY f(g: Fn(A), x: ID) =>\n  body\n");
    assert_eq!(query_of(&m, "f").parameters, "g: Fn(A), x: ID");
}

#[test]
fn duplicate_query_name_last_wins() {
    let m = parse_q("QUERY a() =>\n  one\nQUERY a() =>\n  two\n");
    assert_eq!(m.queries.len(), 1);
    assert_eq!(query_of(&m, "a").body, "two");
}

#[test]
fn normalize_collapses_lines_and_blanks() {
    assert_eq!(normalize_query_body("  a  \n\n b\n"), "a b");
    assert_eq!(normalize_query_body(""), "");
    assert_eq!(normalize_query_body("\n\n"), "");
}

#[test]
fn query_diff_of_model_against_itself_is_correct() {
    let text = "QUERY a(x: ID) =>\n  N<A>(x)\nQUERY b() =>\n  N<B>()\n";
    let user = parse_q(text);
    let expected = parse_q(text);
    let r = user.validate_against(&expected);
    assert!(r.is_correct);
    assert!(r.missing_queries.is_empty());
    assert!(r.extra_queries.is_empty());
    assert!(r.query_errors.is_empty());
}

#[test]
fn scenario_blank_line_in_body_still_correct() {
    let expected = parse_q(
        "QUERY createCity(country_id: ID, name: String) =>\n  AddN<City>({name: name})\n  N<Country>(country_id)\n",
    );
    let user = parse_q(
        "QUERY createCity(country_id: ID, name: String) =>\n  AddN<City>({name: name})\n\n  N<Country>(country_id)\n",
    );
    let r = user.validate_against(&expected);
    assert!(r.is_correct);
}

#[test]
fn missing_query_reported() {
    let expected = parse_q("QUERY a() =>\n  body\n");
    let user = parse_q("");
    let r = user.validate_against(&expected);
    assert_eq!(r.missing_queries, vec!["a".to_string()]);
    assert!(!r.is_correct);
}

#[test]
fn extra_queries_never_penalized() {
    let expected = parse_q("QUERY a() =>\n  body\n");
    let user = parse_q("QUERY a() =>\n  body\nQUERY b() =>\n  other\n");
    let r = user.validate_against(&expected);
    assert!(r.is_correct);
    assert!(r.extra_queries.is_empty());
}

#[test]
fn parameter_mismatch_message() {
    let expected = parse_q("QUERY a(x: ID) =>\n  body\n");
    let user = parse_q("QUERY a(y: ID) =>\n  body\n");
    let r = user.validate_against(&expected);
    assert!(!r.is_correct);
    assert_eq!(r.query_errors.len(), 1);
    assert_eq!(r.query_errors[0].0, "a");
    assert_eq!(
        r.query_errors[0].1,
        "Parameters mismatch. Expected: (x: ID), Got: (y: ID)"
    );
}

#[test]
fn body_mismatch_message() {
    let expected = parse_q("QUERY a() =>\n  one\n");
    let user = parse_q("QUERY a() =>\n  two\n");
    let r = user.validate_against(&expected);
    assert!(!r.is_correct);
    assert_eq!(
        r.query_errors[0].1,
        "Query body differs from expected implementation"
    );
}

#[test]
fn both_mismatches_joined() {
    let expected = parse_q("QUERY a(x: ID) =>\n  one\n");
    let user = parse_q("QUERY a(y: ID) =>\n  two\n");
    let r = user.validate_against(&expected);
    assert_eq!(
        r.query_errors[0].1,
        "Parameters mismatch. Expected: (x: ID), Got: (y: ID). Query body differs from expected implementation"
    );
}

#[test]
fn whitespace_in_parameters_is_significant() {
    let expected = parse_q("QUERY a(x: ID, y: ID) =>\n  body\n");
    let user = parse_q("QUERY a(x: ID,  y: ID) =>\n  body\n");
    let r = user.validate_against(&expected);
    assert!(!r.is_correct);
}

#[test]
fn query_parse_idempotent() {
    let text = "QUERY a(x: ID) =>\n  N<A>(x)\nQUERY b() =>\n  N<B>()\n";
    let m1 = parse_q(text);
    let m2 = parse_q(text);
    assert_eq!(m1.queries.len(), m2.queries.len());
    for (name, q1) in m1.queries.iter() {
        let q2 = query_of(&m2, name);
        assert_eq!(q1.parameters, q2.parameters);
        assert_eq!(q1.body, q2.body);
    }
}

#[test]
fn query_text_is_never_rejected() {
    assert!(ParsedQueries::parse("=> ( ) QUERY\n)(").is_ok());
    assert!(ParsedQueries::parse("").unwrap().queries.is_empty());
}

#[test]
fn arrow_overlapping_keyword_starts_nothing() {
    let m = parse_q("QUERY =>\n  stray\n");
    assert!(m.queries.is_empty());
}

#[test]
fn close_paren_before_open_paren_reads_to_end() {
    // The header's last `)` stands before its first `(`; the parameter
    // text then runs to the header's end.
    let m = parse_q("QUERY a) b(x: ID =>\n  body\n");
    assert_eq!(m.queries.len(), 1);
    let q = &m.queries[0].1;
    assert_eq!(q.name, "a) b");
    assert_eq!(q.parameters, "x: ID");
}

#[test]
fn body_ends_at_next_query_line_even_if_malformed() {
    // The second QUERY line lacks ` =>`, so it opens nothing, but it
    // still terminates the first body; the line after it is dropped.
    let m = parse_q("QUERY a() =>\n  body\nQUERY broken\n  stray\n");
    assert_eq!(m.queries.len(), 1);
    assert_eq!(query_of(&m, "a").body, "body");
}

#[test]
fn body_normalization_is_whitespace_insensitive_per_line_only() {
    // Leading and trailing space on a line vanishes, but interior
    // spacing stays significant.
    let expected = parse_q("QUERY a() =>\n  x <- N<A>\n");
    let user1 = parse_q("QUERY a() =>\n      x <- N<A>   \n");
    let user2 = parse_q("QUERY a() =>\n  x  <-  N<A>\n");
    assert!(user1.validate_against(&expected).is_correct);
    assert!(!user2.validate_against(&expected).is_correct);
}
