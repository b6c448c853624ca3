use archive_catalog::sync::{
    apply_aliases,
    image_deletions, relation_changes, resolve_ids, source_changes, tag_entries, tag_relation_changes, tag_terms,
    taxonomy_entries, terms_to_create, ArchiveImage, ArchiveSource, Tag, TagRelation, Taxonomy, TermRow,
};

fn names(v: &[&str]) -> Vec<String> {
    v.iter().map(|s| s.to_string()).collect()
}

fn rows(v: &[(i64, &str)]) -> Vec<TermRow> {
    v.iter().map(|(id, s)| TermRow { id: *id, slug: s.to_string() }).collect()
}

#[test]
fn entries_carry_slugs() {
    let e = taxonomy_entries(&names(&["Jane Doe", "ACME"]));
    assert_eq!(e[0].slug, "jane-doe");
    assert_eq!(e[0].name, "Jane Doe");
    assert_eq!(e[1].slug, "acme");
}

#[test]
fn transition_deletes_old_inserts_new_keeps_shared() {
    // current relations {A, B}, desired {B, C}
    let current = rows(&[(1, "a"), (2, "b")]);
    let desired = taxonomy_entries(&names(&["A", "B", "C"][1..].to_vec()));
    let (deletes, inserts) = relation_changes(&current, &desired);
    assert_eq!(deletes, vec![1]);
    assert_eq!(inserts, names(&["c"]));
}

#[test]
fn second_synchronization_changes_nothing() {
    let desired = taxonomy_entries(&names(&["B", "C", "C"]));
    let (d1, i1) = relation_changes(&rows(&[(1, "a"), (2, "b")]), &desired);
    assert_eq!(d1, vec![1]);
    assert_eq!(i1, names(&["c"]));
    let after = rows(&[(2, "b"), (3, "c")]);
    let (d2, i2) = relation_changes(&after, &desired);
    assert!(d2.is_empty());
    assert!(i2.is_empty());
}

#[test]
fn empty_desired_set_deletes_all() {
    let (d, i) = relation_changes(&rows(&[(1, "a"), (2, "b")]), &vec![]);
    assert_eq!(d, vec![1, 2]);
    assert!(i.is_empty());
}

#[test]
fn registry_terms_created_once_per_slug() {
    let entries = taxonomy_entries(&names(&["Foo", "foo", "Bar", "Baz"]));
    let created = terms_to_create(&entries, &rows(&[(5, "bar")]));
    let got: Vec<(String, String)> = created.iter().map(|t| (t.slug.clone(), t.name.clone())).collect();
    assert_eq!(got, vec![("foo".to_string(), "Foo".to_string()), ("baz".to_string(), "Baz".to_string())]);
}

#[test]
fn ids_resolved_by_slug() {
    let known = rows(&[(5, "bar"), (6, "foo"), (7, "foo")]);
    assert_eq!(resolve_ids(&names(&["foo", "bar"]), &known), Some(vec![6, 5]));
    assert_eq!(resolve_ids(&names(&["foo", "nope"]), &known), None);
    assert_eq!(resolve_ids(&vec![], &known), Some(vec![]));
}

#[test]
fn tags_keyed_by_slug_and_namespace() {
    let desired = tag_entries(&vec![
        ("Big Hat".to_string(), "female".to_string()),
        ("Big Hat".to_string(), "male".to_string()),
    ]);
    assert_eq!(desired[0].slug, "big-hat");
    let current = vec![
        TagRelation { tag_id: 1, slug: "big-hat".to_string(), namespace: "female".to_string() },
        TagRelation { tag_id: 1, slug: "big-hat".to_string(), namespace: "misc".to_string() },
    ];
    let (deletes, inserts) = tag_relation_changes(&current, &desired);
    assert_eq!(deletes.len(), 1);
    assert_eq!(deletes[0].namespace, "misc");
    assert_eq!(inserts, vec![("big-hat".to_string(), "male".to_string())]);
    let terms: Vec<Taxonomy> = tag_terms(&desired);
    assert_eq!(terms.len(), 2);
    assert_eq!(terms[0].name, "Big Hat");
}

#[test]
fn tag_sync_is_idempotent() {
    let desired: Vec<Tag> = tag_entries(&vec![("x".to_string(), "misc".to_string())]);
    let current = vec![TagRelation { tag_id: 3, slug: "x".to_string(), namespace: "misc".to_string() }];
    let (d, i) = tag_relation_changes(&current, &desired);
    assert!(d.is_empty());
    assert!(i.is_empty());
}

fn src(name: &str, url: Option<&str>) -> ArchiveSource {
    ArchiveSource { name: name.to_string(), url: url.map(String::from) }
}

#[test]
fn sources_diffed_by_name_and_url() {
    let existing = vec![src("a", Some("u1")), src("b", None)];
    let input = vec![src("a", Some("u2")), src("c", None)];
    let (d, i) = source_changes(&existing, &input, false);
    let dn: Vec<&str> = d.iter().map(|s| s.name.as_str()).collect();
    assert_eq!(dn, vec!["a", "b"]);
    assert_eq!(i.len(), 2);
    assert_eq!(i[0].url.as_deref(), Some("u2"));
    let (dm, im) = source_changes(&existing, &input, true);
    assert!(dm.is_empty());
    assert_eq!(im.len(), 2);
}

fn img(page: i16) -> ArchiveImage {
    ArchiveImage { filename: format!("{page}.png"), page_number: page, width: None, height: None }
}

#[test]
fn images_deleted_by_page_number() {
    let existing = vec![img(1), img(2), img(3)];
    let input = vec![img(2), img(3), img(4)];
    assert_eq!(image_deletions(&existing, &input), vec![1]);
    assert!(image_deletions(&input, &input).is_empty());
}

#[test]
fn aliases_replace_display_names_only() {
    let tags = tag_entries(&vec![("big hat".to_string(), "misc".to_string())]);
    let r = apply_aliases(&tags, &vec!["Big Hat".to_string()]);
    assert_eq!(r[0].name, "Big Hat");
    assert_eq!(r[0].slug, "big-hat");
    assert_eq!(r[0].namespace, "misc");
}
