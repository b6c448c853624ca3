use archive_catalog::predicate::build_filter;
use archive_catalog::render::{render_filter, render_order, SqlPiece};
use archive_catalog::search::{SortColumn, SortOrder};

fn flat(pieces: &[SqlPiece]) -> String {
    pieces
        .iter()
        .map(|p| match p {
            SqlPiece::Sql(s) => s.clone(),
            SqlPiece::Text(v) => format!("<{v}>"),
            SqlPiece::Id(i) => format!("<{i}>"),
        })
        .collect()
}

#[test]
fn artist_predicate_checks_name_or_slug() {
    let f = build_filter("artist:jane", &vec![]);
    assert_eq!(
        flat(&render_filter(&f)),
        " AND (((EXISTS (SELECT 1 FROM archive_artists LEFT JOIN artists ON artists.id = archive_artists.artist_id \
WHERE archive_artists.archive_id = archives.id AND artists.name ILIKE <jane>) OR EXISTS (SELECT 1 FROM archive_artists \
LEFT JOIN artists ON artists.id = archive_artists.artist_id WHERE archive_artists.archive_id = archives.id AND \
artists.slug ILIKE <jane>))))"
    );
}

#[test]
fn negated_tag_predicate_with_namespace() {
    let f = build_filter("-male:a|b&c", &vec![]);
    let text = flat(&render_filter(&f));
    assert!(text.starts_with(" AND NOT (((EXISTS (SELECT 1 FROM archive_tags"));
    assert_eq!(text.matches(" AND namespace ILIKE 'male'").count(), 6);
    assert_eq!(text.matches(" OR (").count(), 1);
    assert_eq!(text.matches(" AND (").count(), 1);
}

#[test]
fn blacklist_renders_not_exists_by_id() {
    let f = build_filter("", &vec!["c:12".to_string()]);
    assert_eq!(
        flat(&render_filter(&f)),
        " AND NOT EXISTS (SELECT 1 FROM archive_circles WHERE archive_id = archives.id AND circle_id = <12>)"
    );
}

#[test]
fn order_clause() {
    assert_eq!(render_order(&vec![SortColumn::Rank, SortColumn::CreatedAt], SortOrder::Desc), " ORDER BY rank DESC, created_at DESC");
    assert_eq!(render_order(&vec![SortColumn::Title], SortOrder::Asc), " ORDER BY archives.title ASC");
    assert_eq!(render_order(&vec![], SortOrder::Asc), "");
}

#[test]
fn blacklisted_artist_clause_whatever_the_text() {
    let clause = " AND NOT EXISTS (SELECT 1 FROM archive_artists WHERE archive_id = archives.id AND artist_id = <42>)";
    for value in ["", "foo", "foo artist:jane -tag:x"] {
        let pieces = render_filter(&build_filter(value, &vec!["a:42".to_string()]));
        let text = flat(&pieces);
        assert!(text.ends_with(clause));
        assert_eq!(text.matches("NOT EXISTS (SELECT 1 FROM archive_artists WHERE").count(), 1);
        assert!(matches!(pieces[pieces.len() - 2], SqlPiece::Id(42)));
    }
}
