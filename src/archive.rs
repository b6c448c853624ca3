//! Archive records and the archive writer's decisions: whether an upsert
//! inserts, updates in place or versions, and what it writes.
use vstd::prelude::*;
use crate::sync::{ArchiveImage, ArchiveSource, Tag, Taxonomy, opt_view, slugify, slugify_of};

verus! {

/// Width and height of a page image, where known.
#[derive(PartialEq, Eq, Debug, Clone, Copy, Structural)]
pub struct ImageDimensions {
    pub width: Option<i16>,
    pub height: Option<i16>,
}

/// An archive's own fields; times are seconds since the Unix epoch.
#[derive(Debug, Clone)]
pub struct Archive {
    pub id: i64,
    pub slug: String,
    pub title: String,
    pub description: Option<String>,
    pub hash: String,
    pub pages: i16,
    pub size: i64,
    pub cover: Option<ImageDimensions>,
    pub thumbnail: i16,
    pub images: Vec<ArchiveImage>,
    pub created_at: i64,
    pub released_at: i64,
}

/// An archive's file location.
#[derive(Debug, Clone)]
pub struct ArchiveFile {
    pub id: i64,
    pub path: String,
    pub thumbnail: i16,
}

/// An archive's id and slug.
#[derive(Debug, Clone)]
pub struct ArchiveId {
    pub id: i64,
    pub slug: String,
}

/// An archive with its relations.
#[derive(Debug, Clone)]
pub struct ArchiveRelations {
    pub id: i64,
    pub slug: String,
    pub title: String,
    pub description: Option<String>,
    pub hash: String,
    pub pages: i16,
    pub size: i64,
    pub cover: Option<ImageDimensions>,
    pub thumbnail: i16,
    pub images: Vec<ArchiveImage>,
    pub created_at: i64,
    pub released_at: i64,
    pub artists: Vec<Taxonomy>,
    pub circles: Vec<Taxonomy>,
    pub magazines: Vec<Taxonomy>,
    pub events: Vec<Taxonomy>,
    pub publishers: Vec<Taxonomy>,
    pub parodies: Vec<Taxonomy>,
    pub tags: Vec<Tag>,
    pub sources: Vec<ArchiveSource>,
}

impl ArchiveRelations {
    /// The archive with no relations yet.
    pub fn from(a: Archive) -> (r: ArchiveRelations)
        ensures
            r.id == a.id,
            r.slug == a.slug,
            r.title == a.title,
            r.description == a.description,
            r.hash == a.hash,
            r.pages == a.pages,
            r.size == a.size,
            r.cover == a.cover,
            r.thumbnail == a.thumbnail,
            r.images == a.images,
            r.created_at == a.created_at,
            r.released_at == a.released_at,
            r.artists@.len() == 0,
            r.circles@.len() == 0,
            r.magazines@.len() == 0,
            r.events@.len() == 0,
            r.publishers@.len() == 0,
            r.parodies@.len() == 0,
            r.tags@.len() == 0,
            r.sources@.len() == 0,
    {
        ArchiveRelations {
            id: a.id,
            slug: a.slug,
            title: a.title,
            description: a.description,
            hash: a.hash,
            pages: a.pages,
            size: a.size,
            cover: a.cover,
            thumbnail: a.thumbnail,
            images: a.images,
            created_at: a.created_at,
            released_at: a.released_at,
            artists: Vec::new(),
            circles: Vec::new(),
            magazines: Vec::new(),
            events: Vec::new(),
            publishers: Vec::new(),
            parodies: Vec::new(),
            tags: Vec::new(),
            sources: Vec::new(),
        }
    }
}

/// The cover an archive shows: the dimensions of the image on its thumbnail
/// page, where at least one of them is known.
pub open spec fn cover_spec(images: Seq<ArchiveImage>, thumbnail: i16) -> Option<ImageDimensions>
    decreases images.len(),
{
    if images.len() == 0 {
        None
    } else if images[0].page_number == thumbnail {
        if images[0].width is Some || images[0].height is Some {
            Some(ImageDimensions { width: images[0].width, height: images[0].height })
        } else {
            None
        }
    } else {
        cover_spec(images.skip(1), thumbnail)
    }
}

pub fn cover_of(images: &Vec<ArchiveImage>, thumbnail: i16) -> (r: Option<ImageDimensions>)
    ensures
        r == cover_spec(images@, thumbnail),
{
    let mut i: usize = 0;
    assert(images@.skip(0) =~= images@);
    while i < images.len()
        invariant
            i <= images.len(),
            cover_spec(images@, thumbnail) == cover_spec(images@.skip(i as int), thumbnail),
        decreases images.len() - i,
    {
        assert(images@.skip(i as int)[0] == images@[i as int]);
        assert(images@.skip(i as int).skip(1) =~= images@.skip(i + 1));
        if images[i].page_number == thumbnail {
            if images[i].width.is_some() || images[i].height.is_some() {
                return Some(ImageDimensions { width: images[i].width, height: images[i].height });
            }
            return None;
        }
        i += 1;
    }
    None
}

/// The input of an upsert; every field is optional.
#[derive(Debug, Clone)]
pub struct UpsertArchiveData {
    pub id: Option<i64>,
    pub title: Option<String>,
    pub slug: Option<String>,
    pub description: Option<String>,
    pub path: Option<String>,
    pub hash: Option<String>,
    pub pages: Option<i16>,
    pub size: Option<i64>,
    pub thumbnail: Option<i16>,
    pub language: Option<String>,
    pub released_at: Option<i64>,
    pub deleted_at: Option<i64>,
    pub has_metadata: Option<bool>,
    pub artists: Option<Vec<String>>,
    pub circles: Option<Vec<String>>,
    pub magazines: Option<Vec<String>>,
    pub events: Option<Vec<String>>,
    pub publishers: Option<Vec<String>>,
    pub parodies: Option<Vec<String>>,
    pub tags: Option<Vec<(String, String)>>,
    pub sources: Option<Vec<ArchiveSource>>,
    pub images: Option<Vec<ArchiveImage>>,
}

/// The relation input of an upsert; an absent list leaves that relation alone.
#[derive(Debug, Clone)]
pub struct Relations {
    pub artists: Option<Vec<String>>,
    pub circles: Option<Vec<String>>,
    pub magazines: Option<Vec<String>>,
    pub events: Option<Vec<String>>,
    pub publishers: Option<Vec<String>>,
    pub parodies: Option<Vec<String>>,
    pub tags: Option<Vec<(String, String)>>,
    pub sources: Option<Vec<ArchiveSource>>,
    pub images: Option<Vec<ArchiveImage>>,
}

impl UpsertArchiveData {
    /// The relation lists of the input, to synchronize onto the archive written.
    pub fn into_relations(self) -> (r: Relations)
        ensures
            r.artists == self.artists,
            r.circles == self.circles,
            r.magazines == self.magazines,
            r.events == self.events,
            r.publishers == self.publishers,
            r.parodies == self.parodies,
            r.tags == self.tags,
            r.sources == self.sources,
            r.images == self.images,
    {
        Relations {
            artists: self.artists,
            circles: self.circles,
            magazines: self.magazines,
            events: self.events,
            publishers: self.publishers,
            parodies: self.parodies,
            tags: self.tags,
            sources: self.sources,
            images: self.images,
        }
    }
}

/// The live archive an upsert's identity lookup (by id, path or hash) found.
#[derive(Debug, Clone)]
pub struct ExistingArchive {
    pub id: i64,
    pub slug: String,
    pub path: String,
    pub hash: String,
}

/// The row a first insert creates.
#[derive(Debug, Clone)]
pub struct NewArchive {
    pub slug: String,
    pub title: String,
    pub description: Option<String>,
    pub path: String,
    pub hash: String,
    pub pages: i16,
    pub size: i64,
    pub thumbnail: i16,
    pub language: Option<String>,
    pub released_at: Option<i64>,
    pub has_metadata: bool,
}

/// An in-place update: `None` leaves a column as it is, except `description`,
/// `language` and `deleted_at`, which are always written.
#[derive(Debug, Clone)]
pub struct ArchiveUpdate {
    pub id: i64,
    pub title: Option<String>,
    pub slug: Option<String>,
    pub description: Option<String>,
    pub path: Option<String>,
    pub pages: Option<i16>,
    pub size: Option<i64>,
    pub thumbnail: Option<i16>,
    pub language: Option<String>,
    pub released_at: Option<i64>,
    pub deleted_at: Option<i64>,
    pub has_metadata: Option<bool>,
}

/// What an upsert does, before its relations are synchronized onto the
/// archive it names and the symlink of `link_path` is refreshed.
#[derive(Debug, Clone)]
pub enum UpsertPlan {
    Insert { row: NewArchive },
    Update { update: ArchiveUpdate, link_path: Option<String> },
    /// Copy the old row under the new hash, move the relations to the copy,
    /// soft-delete the old row.
    Version { old_id: i64, old_hash: String, new_hash: String, link_path: String },
}

/// Why an upsert cannot proceed.
#[derive(PartialEq, Eq, Debug, Clone, Copy, Structural)]
pub enum UpsertError {
    /// No live archive matched, and a required field of a first insert is missing.
    InsufficientData,
}

/// Title, path, hash, pages, size and thumbnail are all given.
pub open spec fn required_present(d: UpsertArchiveData) -> bool {
    d.title is Some && d.path is Some && d.hash is Some && d.pages is Some && d.size is Some
        && d.thumbnail is Some
}

/// The input names a hash other than the found archive's.
pub open spec fn hash_changed(d: UpsertArchiveData, e: ExistingArchive) -> bool {
    d.hash is Some && d.hash->0@ != e.hash@
}

/// What the writer decides for an input and the result of its identity lookup.
pub open spec fn plan_meets(d: UpsertArchiveData, found: Option<ExistingArchive>, r: Result<UpsertPlan, UpsertError>) -> bool {
    match found {
        None => if required_present(d) {
            match r {
                Ok(UpsertPlan::Insert { row }) => {
                    &&& row.title@ == d.title->0@
                    &&& row.slug@ == (match d.slug {
                        Some(s) => s@,
                        None => slugify_of(d.title->0@),
                    })
                    &&& opt_view(row.description) == opt_view(d.description)
                    &&& row.path@ == d.path->0@
                    &&& row.hash@ == d.hash->0@
                    &&& row.pages == d.pages->0
                    &&& row.size == d.size->0
                    &&& row.thumbnail == d.thumbnail->0
                    &&& opt_view(row.language) == opt_view(d.language)
                    &&& row.released_at == d.released_at
                    &&& row.has_metadata == (d.has_metadata == Some(true))
                },
                _ => false,
            }
        } else {
            r == Err::<UpsertPlan, UpsertError>(UpsertError::InsufficientData)
        },
        Some(e) => if hash_changed(d, e) {
            match r {
                Ok(UpsertPlan::Version { old_id, old_hash, new_hash, link_path }) => {
                    &&& old_id == e.id
                    &&& old_hash@ == e.hash@
                    &&& new_hash@ == d.hash->0@
                    &&& link_path@ == e.path@
                },
                _ => false,
            }
        } else {
            match r {
                Ok(UpsertPlan::Update { update, link_path }) => {
                    &&& update.id == e.id
                    &&& opt_view(update.title) == opt_view(d.title)
                    &&& opt_view(update.slug) == opt_view(d.slug)
                    &&& opt_view(update.description) == opt_view(d.description)
                    &&& opt_view(update.path) == (match d.path {
                        Some(p) => if p@ != e.path@ {
                            Some(p@)
                        } else {
                            None
                        },
                        None => None,
                    })
                    &&& update.pages == d.pages
                    &&& update.size == d.size
                    &&& update.thumbnail == d.thumbnail
                    &&& opt_view(update.language) == opt_view(d.language)
                    &&& update.released_at == d.released_at
                    &&& update.deleted_at == d.deleted_at
                    &&& update.has_metadata == d.has_metadata
                    &&& opt_view(link_path) == opt_view(d.path)
                },
                _ => false,
            }
        },
    }
}

fn copy_string(s: &String) -> (r: String)
    ensures
        r@ == s@,
{
    s.clone()
}

fn copy_opt_string(o: &Option<String>) -> (r: Option<String>)
    ensures
        opt_view(r) == opt_view(*o),
{
    match o {
        Some(s) => Some(s.clone()),
        None => None,
    }
}

/// Decides what an upsert does, given what its identity lookup found.
pub fn plan_upsert(data: &UpsertArchiveData, found: &Option<ExistingArchive>) -> (r: Result<UpsertPlan, UpsertError>)
    ensures
        plan_meets(*data, *found, r),
{
    match found {
        None => {
            match (&data.title, &data.path, &data.hash, data.pages, data.size, data.thumbnail) {
                (Some(title), Some(path), Some(hash), Some(pages), Some(size), Some(thumbnail)) => {
                    let slug = match &data.slug {
                        Some(s) => copy_string(s),
                        None => slugify(title.as_str()),
                    };
                    let has_metadata = match data.has_metadata {
                        Some(b) => b,
                        None => false,
                    };
                    Ok(UpsertPlan::Insert {
                        row: NewArchive {
                            slug,
                            title: copy_string(title),
                            description: copy_opt_string(&data.description),
                            path: copy_string(path),
                            hash: copy_string(hash),
                            pages,
                            size,
                            thumbnail,
                            language: copy_opt_string(&data.language),
                            released_at: data.released_at,
                            has_metadata,
                        },
                    })
                },
                _ => Err(UpsertError::InsufficientData),
            }
        },
        Some(e) => {
            let changed = match &data.hash {
                Some(h) => *h != e.hash,
                None => false,
            };
            if changed {
                let new_hash = match &data.hash {
                    Some(h) => copy_string(h),
                    None => copy_string(&e.hash),
                };
                return Ok(UpsertPlan::Version {
                    old_id: e.id,
                    old_hash: copy_string(&e.hash),
                    new_hash,
                    link_path: copy_string(&e.path),
                });
            }
            let path = match &data.path {
                Some(p) => if *p != e.path {
                    Some(copy_string(p))
                } else {
                    None
                },
                None => None,
            };
            Ok(UpsertPlan::Update {
                update: ArchiveUpdate {
                    id: e.id,
                    title: copy_opt_string(&data.title),
                    slug: copy_opt_string(&data.slug),
                    description: copy_opt_string(&data.description),
                    path,
                    pages: data.pages,
                    size: data.size,
                    thumbnail: data.thumbnail,
                    language: copy_opt_string(&data.language),
                    released_at: data.released_at,
                    deleted_at: data.deleted_at,
                    has_metadata: data.has_metadata,
                },
                link_path: copy_opt_string(&data.path),
            })
        },
    }
}

/// The archive rows of a store, by id: content hash and whether the row is live.
pub type StoreRows = Map<i64, (Seq<char>, bool)>;

/// The archive an upsert's relations are synchronized onto and whose id it
/// returns; `new_id` is the id the store assigns to a new row.
pub open spec fn written_id(plan: UpsertPlan, new_id: i64) -> i64 {
    match plan {
        UpsertPlan::Update { update, .. } => update.id,
        _ => new_id,
    }
}

/// The store's archive rows once a plan is carried out.
pub open spec fn after_plan(store: StoreRows, plan: UpsertPlan, new_id: i64) -> StoreRows {
    match plan {
        UpsertPlan::Insert { row } => store.insert(new_id, (row.hash@, true)),
        UpsertPlan::Update { update, .. } => store.insert(update.id, (store[update.id].0, update.deleted_at is None)),
        UpsertPlan::Version { old_id, new_hash, .. } => store.insert(old_id, (store[old_id].0, false)).insert(
            new_id,
            (new_hash@, true),
        ),
    }
}

/// A first insert with every required field stores the archive under the
/// given hash: fetching the returned id gives that hash back.
pub proof fn lemma_first_insert_keeps_hash(
    d: UpsertArchiveData,
    r: Result<UpsertPlan, UpsertError>,
    store: StoreRows,
    new_id: i64,
)
    requires
        required_present(d),
        plan_meets(d, None, r),
    ensures
        r is Ok,
        after_plan(store, r->Ok_0, new_id).contains_key(written_id(r->Ok_0, new_id)),
        after_plan(store, r->Ok_0, new_id)[written_id(r->Ok_0, new_id)] == (d.hash->0@, true),
{
}

/// Re-ingesting a live archive keeps its id while the hash is unchanged (or
/// not given); with a different hash the archive gets a new id holding the new
/// hash, its relations go to that id, and the old row stays, soft-deleted.
pub proof fn lemma_reingest(
    d: UpsertArchiveData,
    e: ExistingArchive,
    r: Result<UpsertPlan, UpsertError>,
    store: StoreRows,
    new_id: i64,
)
    requires
        plan_meets(d, Some(e), r),
        store.contains_key(e.id),
        new_id != e.id,
    ensures
        r is Ok,
        !hash_changed(d, e) ==> written_id(r->Ok_0, new_id) == e.id && after_plan(store, r->Ok_0, new_id)[e.id].0
            == store[e.id].0,
        hash_changed(d, e) ==> {
            &&& written_id(r->Ok_0, new_id) == new_id
            &&& after_plan(store, r->Ok_0, new_id)[new_id] == (d.hash->0@, true)
            &&& after_plan(store, r->Ok_0, new_id).contains_key(e.id)
            &&& after_plan(store, r->Ok_0, new_id)[e.id] == (store[e.id].0, false)
        },
{
}

} // verus!
