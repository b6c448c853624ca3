use archive_catalog::archive::{
    cover_of, plan_upsert, Archive, ArchiveRelations, ExistingArchive, ImageDimensions, UpsertArchiveData, UpsertError,
    UpsertPlan,
};
use archive_catalog::registry::TagType;
use archive_catalog::sync::ArchiveImage;

fn empty() -> UpsertArchiveData {
    UpsertArchiveData {
        id: None,
        title: None,
        slug: None,
        description: None,
        path: None,
        hash: None,
        pages: None,
        size: None,
        thumbnail: None,
        language: None,
        released_at: None,
        deleted_at: None,
        has_metadata: None,
        artists: None,
        circles: None,
        magazines: None,
        events: None,
        publishers: None,
        parodies: None,
        tags: None,
        sources: None,
        images: None,
    }
}

fn full() -> UpsertArchiveData {
    let mut d = empty();
    d.title = Some("My Title".to_string());
    d.path = Some("/a/b.zip".to_string());
    d.hash = Some("h1".to_string());
    d.pages = Some(20);
    d.size = Some(1000);
    d.thumbnail = Some(1);
    d
}

fn existing() -> ExistingArchive {
    ExistingArchive { id: 9, slug: "s".to_string(), path: "/old.zip".to_string(), hash: "h1".to_string() }
}

#[test]
fn first_insert_keeps_hash_and_slugs_title() {
    match plan_upsert(&full(), &None) {
        Ok(UpsertPlan::Insert { row }) => {
            assert_eq!(row.hash, "h1");
            assert_eq!(row.slug, "my-title");
            assert_eq!(row.pages, 20);
            assert!(!row.has_metadata);
        }
        other => panic!("{other:?}"),
    }
}

#[test]
fn first_insert_needs_required_fields() {
    let mut d = full();
    d.thumbnail = None;
    assert!(matches!(plan_upsert(&d, &None), Err(UpsertError::InsufficientData)));
    assert!(matches!(plan_upsert(&empty(), &None), Err(UpsertError::InsufficientData)));
}

#[test]
fn same_hash_updates_in_place() {
    let mut d = empty();
    d.path = Some("/old.zip".to_string());
    d.hash = Some("h1".to_string());
    d.title = Some("New".to_string());
    match plan_upsert(&d, &Some(existing())) {
        Ok(UpsertPlan::Update { update, link_path }) => {
            assert_eq!(update.id, 9);
            assert_eq!(update.title.as_deref(), Some("New"));
            assert_eq!(update.path, None);
            assert_eq!(update.description, None);
            assert_eq!(update.deleted_at, None);
            assert_eq!(link_path.as_deref(), Some("/old.zip"));
        }
        other => panic!("{other:?}"),
    }
}

#[test]
fn changed_hash_versions() {
    let mut d = full();
    d.hash = Some("h2".to_string());
    match plan_upsert(&d, &Some(existing())) {
        Ok(UpsertPlan::Version { old_id, old_hash, new_hash, link_path }) => {
            assert_eq!(old_id, 9);
            assert_eq!(old_hash, "h1");
            assert_eq!(new_hash, "h2");
            assert_eq!(link_path, "/old.zip");
        }
        other => panic!("{other:?}"),
    }
}

#[test]
fn cover_needs_a_known_dimension() {
    let images = vec![
        ArchiveImage { filename: "1".to_string(), page_number: 1, width: None, height: None },
        ArchiveImage { filename: "2".to_string(), page_number: 2, width: Some(300), height: None },
    ];
    assert_eq!(cover_of(&images, 1), None);
    assert_eq!(cover_of(&images, 2), Some(ImageDimensions { width: Some(300), height: None }));
    assert_eq!(cover_of(&images, 3), None);
}

#[test]
fn relations_start_empty() {
    let a = Archive {
        id: 3,
        slug: "s".to_string(),
        title: "t".to_string(),
        description: None,
        hash: "h".to_string(),
        pages: 2,
        size: 10,
        cover: None,
        thumbnail: 1,
        images: vec![],
        created_at: 0,
        released_at: 0,
    };
    let r = ArchiveRelations::from(a);
    assert_eq!(r.id, 3);
    assert_eq!(r.hash, "h");
    assert!(r.artists.is_empty() && r.tags.is_empty() && r.sources.is_empty());
}

#[test]
fn registry_names() {
    assert_eq!(TagType::Artist.table(), "artists");
    assert_eq!(TagType::Parody.table(), "parodies");
    assert_eq!(TagType::Publisher.id(), "publisher_id");
    assert_eq!(TagType::Tag.relation(), "archive_tags");
}
