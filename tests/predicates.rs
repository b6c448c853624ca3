use archive_catalog::predicate::{build_filter, parse_i64, compile_predicates, facet_predicates, parse_blacklist, Exclusion};
use archive_catalog::registry::{Facet, TagType};

fn groups(v: &[&[&str]]) -> Vec<Vec<String>> {
    v.iter().map(|g| g.iter().map(|s| s.to_string()).collect()).collect()
}

#[test]
fn artist_filter_gives_one_predicate() {
    let p = facet_predicates("artist:jane");
    assert_eq!(p.len(), 1);
    assert_eq!(p[0].facet, Facet::Artist);
    assert!(!p[0].negated);
    assert_eq!(p[0].groups, groups(&[&["jane"]]));
}

#[test]
fn negated_tag_filter() {
    let p = facet_predicates("-tag:loli");
    assert_eq!(p.len(), 1);
    assert_eq!(p[0].facet, Facet::AnyTag);
    assert!(p[0].negated);
    assert_eq!(p[0].groups, groups(&[&["loli"]]));
}

#[test]
fn value_shapes() {
    let p = facet_predicates("Female:\"big*\" misc:'a|b&c' parody:(x)");
    assert_eq!(p.len(), 3);
    assert_eq!(p[0].facet, Facet::FemaleTag);
    assert_eq!(p[0].groups, groups(&[&["big%"]]));
    assert_eq!(p[1].facet, Facet::MiscTag);
    assert_eq!(p[1].groups, groups(&[&["a"], &["b", "c"]]));
    assert_eq!(p[2].facet, Facet::Parody);
    assert_eq!(p[2].groups, groups(&[&["x"]]));
}

#[test]
fn facets_without_registry_entry_are_ignored() {
    assert!(facet_predicates("title:foo pages:12").is_empty());
    assert!(facet_predicates("colour:red").is_empty());
    let p = facet_predicates("event:c99 other:x male:y");
    let facets: Vec<Facet> = p.iter().map(|q| q.facet).collect();
    assert_eq!(facets, vec![Facet::Event, Facet::MiscTag, Facet::MaleTag]);
}

#[test]
fn compile_from_given_matches() {
    let m = vec![
        ("-circle:x".to_string(), "circle".to_string(), "x".to_string()),
        ("title:y".to_string(), "title".to_string(), "y".to_string()),
    ];
    let p = compile_predicates(&m);
    assert_eq!(p.len(), 1);
    assert_eq!(p[0].facet, Facet::Circle);
    assert!(p[0].negated);
}

#[test]
fn blacklist_entries() {
    let b: Vec<String> = vec!["a:7", "zz:3", "p:x", "c", "ps:-2", "m:+5"].into_iter().map(String::from).collect();
    assert_eq!(
        parse_blacklist(&b),
        vec![
            Exclusion { tag_type: TagType::Artist, id: 7 },
            Exclusion { tag_type: TagType::Tag, id: 3 },
            Exclusion { tag_type: TagType::Publisher, id: -2 },
            Exclusion { tag_type: TagType::Magazine, id: 5 },
        ]
    );
}

#[test]
fn blacklisted_artist_is_excluded_whatever_the_text() {
    let f = build_filter("jane artist:jane", &vec!["a:42".to_string()]);
    assert_eq!(f.predicates.len(), 1);
    assert_eq!(f.exclusions, vec![Exclusion { tag_type: TagType::Artist, id: 42 }]);
    let g = build_filter("", &vec!["a:42".to_string()]);
    assert!(g.predicates.is_empty());
    assert_eq!(g.exclusions, vec![Exclusion { tag_type: TagType::Artist, id: 42 }]);
}

#[test]
fn decimal_ids() {
    assert_eq!(parse_i64("42"), Some(42));
    assert_eq!(parse_i64("-9223372036854775808"), Some(i64::MIN));
    assert_eq!(parse_i64("9223372036854775807"), Some(i64::MAX));
    assert_eq!(parse_i64("9223372036854775808"), None);
    assert_eq!(parse_i64("+7"), Some(7));
    assert_eq!(parse_i64("-"), None);
    assert_eq!(parse_i64(""), None);
    assert_eq!(parse_i64("4x"), None);
    assert_eq!(parse_i64("99999999999999999999x"), None);
}
