use archive_catalog::query::{clean_value, parse_query, ranking_expression, sanitize, strip_filters};

#[test]
fn spaces_become_and_of_prefix_matches() {
    assert_eq!(parse_query("foo bar"), "foo:*&bar:*");
    assert_eq!(ranking_expression("foo bar"), "foo:*&bar:*");
}

#[test]
fn dollar_suffix_means_exact_match() {
    assert_eq!(parse_query("foo$"), "foo");
    assert_eq!(parse_query("foo$$ bar"), "foo&bar:*");
}

#[test]
fn alternatives_are_grouped() {
    assert_eq!(parse_query("foo|bar"), "(foo:*)|(bar:*)");
    assert_eq!(parse_query("a b|c d"), "(a:*&b:*)|(c:*&d:*)");
}

#[test]
fn leading_minus_negates() {
    assert_eq!(parse_query("-foo"), "!foo:*");
    assert_eq!(parse_query("-foo$"), "!foo");
}

#[test]
fn empty_input_gives_empty_expression() {
    assert_eq!(parse_query(""), "");
    assert_eq!(ranking_expression("   "), "");
    assert_eq!(parse_query("|"), "");
}

#[test]
fn facet_filter_alone_gives_empty_expression() {
    assert_eq!(ranking_expression("artist:jane"), "");
    assert_eq!(ranking_expression("-tag:loli"), "");
}

#[test]
fn facet_filters_are_removed_from_free_text() {
    assert_eq!(clean_value("foo artist:jane bar"), "foo bar");
    assert_eq!(ranking_expression("foo artist:jane bar"), "foo:*&bar:*");
    assert_eq!(clean_value("title:\"x y\" z"), "z");
}

#[test]
fn sanitize_strips_operators_and_collapses_whitespace() {
    assert_eq!(sanitize("  a [b]  (c)~&d  "), "a b cd");
    assert_eq!(sanitize("x\t\ny"), "x y");
    assert_eq!(sanitize(""), "");
}

#[test]
fn strip_filters_takes_given_matches() {
    let filters = vec![("x:1".to_string(), "x".to_string(), "1".to_string())];
    assert_eq!(strip_filters("a x:1 b x:1", &filters), "a b");
    assert_eq!(strip_filters("a:b  c", &vec![]), "ab c");
}

#[test]
fn ampersand_separates_tokens() {
    assert_eq!(parse_query("a&b"), "a:*&b:*");
    assert_eq!(parse_query("a&&b c"), "a:*&b:*&c:*");
    assert_eq!(parse_query("a&b|c"), "(a:*&b:*)|(c:*)");
}

#[test]
fn unicode_whitespace_is_collapsed() {
    assert_eq!(sanitize("x\u{3000}\u{A0}y\u{2028}"), "x y");
}
