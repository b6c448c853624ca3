//! The taxonomy synchronizer's decisions: which registry terms to create,
//! which relation rows of an archive to delete and which to insert, and the
//! same for sources and images. Terms are never deleted, only relation rows.
use vstd::prelude::*;
use crate::predicate::string_views;

verus! {

/// A registry term (or tag) with its id.
#[derive(Debug, Clone)]
pub struct TermRow {
    pub id: i64,
    pub slug: String,
}

/// A registry term with its id, slug and display name.
#[derive(Debug, Clone)]
pub struct TaxonomyId {
    pub id: i64,
    pub slug: String,
    pub name: String,
}

/// A term of an archive's input: its slug and display name.
#[derive(Debug, Clone)]
pub struct Taxonomy {
    pub slug: String,
    pub name: String,
}

/// A tag of an archive's input; the namespace belongs to the relation.
#[derive(Debug, Clone)]
pub struct Tag {
    pub slug: String,
    pub name: String,
    pub namespace: String,
}

/// A tag relation row of an archive.
#[derive(Debug, Clone)]
pub struct TagRelation {
    pub tag_id: i64,
    pub slug: String,
    pub namespace: String,
}

/// The elements of `xs` that are not in `ys`, in order.
pub open spec fn missing<A>(xs: Seq<A>, ys: Seq<A>) -> Seq<A>
    decreases xs.len(),
{
    if xs.len() == 0 {
        Seq::empty()
    } else if ys.contains(xs.last()) {
        missing(xs.drop_last(), ys)
    } else {
        missing(xs.drop_last(), ys).push(xs.last())
    }
}

/// The keys of `desired` that are not in `present`, each once, at its first place.
pub open spec fn fresh<A>(desired: Seq<A>, present: Seq<A>) -> Seq<A>
    decreases desired.len(),
{
    if desired.len() == 0 {
        Seq::empty()
    } else {
        let r = fresh(desired.drop_last(), present);
        if present.contains(desired.last()) || r.contains(desired.last()) {
            r
        } else {
            r.push(desired.last())
        }
    }
}

/// The relation rows whose key is not desired: the delete-set.
pub open spec fn stale<A>(current: Seq<(i64, A)>, desired: Seq<A>) -> Seq<(i64, A)>
    decreases current.len(),
{
    if current.len() == 0 {
        Seq::empty()
    } else if desired.contains(current.last().1) {
        stale(current.drop_last(), desired)
    } else {
        stale(current.drop_last(), desired).push(current.last())
    }
}

/// The relation rows whose key is desired: those a synchronization leaves untouched.
pub open spec fn kept<A>(current: Seq<(i64, A)>, desired: Seq<A>) -> Seq<(i64, A)>
    decreases current.len(),
{
    if current.len() == 0 {
        Seq::empty()
    } else if desired.contains(current.last().1) {
        kept(current.drop_last(), desired).push(current.last())
    } else {
        kept(current.drop_last(), desired)
    }
}

pub open spec fn keys<A>(rows: Seq<(i64, A)>) -> Seq<A> {
    rows.map_values(|r: (i64, A)| r.1)
}

proof fn lemma_push_contains<A>(s: Seq<A>, a: A, x: A)
    ensures
        s.push(a).contains(x) == (s.contains(x) || x == a),
{
    if s.contains(x) {
        let i = choose|i: int| 0 <= i < s.len() && s[i] == x;
        assert(s.push(a)[i] == x);
    }
    if x == a {
        assert(s.push(a)[s.len() as int] == a);
    }
    if s.push(a).contains(x) {
        let i = choose|i: int| 0 <= i < s.push(a).len() && s.push(a)[i] == x;
        if i < s.len() {
            assert(s[i] == x);
        }
    }
}

proof fn lemma_last_contains<A>(s: Seq<A>, x: A)
    requires
        s.len() > 0,
    ensures
        s.contains(x) == (s.drop_last().contains(x) || x == s.last()),
{
    assert(s == s.drop_last().push(s.last()));
    lemma_push_contains(s.drop_last(), s.last(), x);
}

proof fn lemma_keys_last<A>(rows: Seq<(i64, A)>)
    requires
        rows.len() > 0,
    ensures
        keys(rows.drop_last()) == keys(rows).drop_last(),
        keys(rows).last() == rows.last().1,
        keys(rows).len() == rows.len(),
{
    assert(keys(rows.drop_last()) =~= keys(rows).drop_last());
}

proof fn lemma_kept_keys<A>(current: Seq<(i64, A)>, desired: Seq<A>, x: A)
    ensures
        keys(kept(current, desired)).contains(x) <==> (keys(current).contains(x) && desired.contains(x)),
    decreases current.len(),
{
    if current.len() > 0 {
        lemma_kept_keys(current.drop_last(), desired, x);
        lemma_keys_last(current);
        lemma_last_contains(keys(current), x);
        let k = kept(current.drop_last(), desired);
        if desired.contains(current.last().1) {
            assert(keys(k.push(current.last())) =~= keys(k).push(current.last().1));
            lemma_push_contains(keys(k), current.last().1, x);
        }
    }
}

proof fn lemma_fresh_contains<A>(desired: Seq<A>, present: Seq<A>, x: A)
    ensures
        fresh(desired, present).contains(x) <==> (desired.contains(x) && !present.contains(x)),
    decreases desired.len(),
{
    if desired.len() > 0 {
        lemma_fresh_contains(desired.drop_last(), present, x);
        lemma_last_contains(desired, x);
        let r = fresh(desired.drop_last(), present);
        lemma_push_contains(r, desired.last(), x);
        lemma_fresh_contains(desired.drop_last(), present, desired.last());
    }
}

proof fn lemma_stale_empty<A>(current: Seq<(i64, A)>, desired: Seq<A>)
    requires
        forall|i: int| 0 <= i < current.len() ==> desired.contains(#[trigger] current[i].1),
    ensures
        stale(current, desired) == Seq::<(i64, A)>::empty(),
    decreases current.len(),
{
    if current.len() > 0 {
        assert(desired.contains(current[current.len() - 1].1));
        lemma_stale_empty(current.drop_last(), desired);
    }
}

proof fn lemma_fresh_empty<A>(desired: Seq<A>, present: Seq<A>)
    requires
        forall|i: int| 0 <= i < desired.len() ==> present.contains(#[trigger] desired[i]),
    ensures
        fresh(desired, present) == Seq::<A>::empty(),
    decreases desired.len(),
{
    if desired.len() > 0 {
        assert(present.contains(desired[desired.len() - 1]));
        lemma_fresh_empty(desired.drop_last(), present);
    }
}

/// After a synchronization (delete-set removed, insert-set added) an archive's
/// relation keys are exactly the desired ones; no row whose key is desired
/// is deleted.
pub proof fn lemma_sync_reaches_desired<A>(current: Seq<(i64, A)>, desired: Seq<A>)
    ensures
        keys(kept(current, desired)).to_set() + fresh(desired, keys(current)).to_set() == desired.to_set(),
        forall|i: int| 0 <= i < current.len() && desired.contains(#[trigger] current[i].1)
            ==> !stale(current, desired).contains(current[i]),
{
    assert forall|x: A| (keys(kept(current, desired)).to_set() + fresh(desired, keys(current)).to_set()).contains(x)
        == desired.to_set().contains(x) by {
        lemma_kept_keys(current, desired, x);
        lemma_fresh_contains(desired, keys(current), x);
    }
    assert(keys(kept(current, desired)).to_set() + fresh(desired, keys(current)).to_set() =~= desired.to_set());
    assert forall|i: int| 0 <= i < current.len() && desired.contains(#[trigger] current[i].1)
        implies !stale(current, desired).contains(current[i]) by {
        lemma_stale_keys_undesired(current, desired);
    }
}

proof fn lemma_stale_keys_undesired<A>(current: Seq<(i64, A)>, desired: Seq<A>)
    ensures
        forall|j: int| 0 <= j < stale(current, desired).len() ==> !desired.contains(#[trigger] stale(current, desired)[j].1),
    decreases current.len(),
{
    if current.len() > 0 {
        lemma_stale_keys_undesired(current.drop_last(), desired);
        let p = stale(current.drop_last(), desired);
        if !desired.contains(current.last().1) {
            assert forall|j: int| 0 <= j < p.push(current.last()).len() implies !desired.contains(
                #[trigger] p.push(current.last())[j].1) by {
                if j < p.len() {
                    assert(p.push(current.last())[j] == p[j]);
                }
            }
        }
    }
}

proof fn lemma_fresh_no_duplicates<A>(desired: Seq<A>, present: Seq<A>)
    ensures
        fresh(desired, present).no_duplicates(),
    decreases desired.len(),
{
    if desired.len() > 0 {
        lemma_fresh_no_duplicates(desired.drop_last(), present);
        let r = fresh(desired.drop_last(), present);
        if !(present.contains(desired.last()) || r.contains(desired.last())) {
            assert forall|i: int, j: int| 0 <= i < r.push(desired.last()).len() && 0 <= j < r.push(desired.last()).len()
                && i != j implies r.push(desired.last())[i] != r.push(desired.last())[j] by {
                if i < r.len() && j < r.len() {
                } else if i < r.len() {
                    assert(r.contains(r[i]));
                } else {
                    assert(r.contains(r[j]));
                }
            }
        }
    }
}

proof fn lemma_keys_append<A>(a: Seq<(i64, A)>, b: Seq<(i64, A)>, x: A)
    ensures
        keys(a + b).contains(x) == (keys(a).contains(x) || keys(b).contains(x)),
{
    assert(keys(a + b) =~= keys(a) + keys(b));
    if keys(a).contains(x) {
        let i = choose|i: int| 0 <= i < keys(a).len() && keys(a)[i] == x;
        assert((keys(a) + keys(b))[i] == x);
    }
    if keys(b).contains(x) {
        let i = choose|i: int| 0 <= i < keys(b).len() && keys(b)[i] == x;
        assert((keys(a) + keys(b))[keys(a).len() + i] == x);
    }
    if keys(a + b).contains(x) {
        let i = choose|i: int| 0 <= i < keys(a + b).len() && keys(a + b)[i] == x;
        if i < keys(a).len() {
            assert(keys(a)[i] == x);
        } else {
            assert(keys(b)[i - keys(a).len()] == x);
        }
    }
}

/// Synchronizing twice with the same input: the first call inserts each
/// missing key once; after it (untouched rows plus the rows it inserted) the
/// second call deletes nothing and inserts nothing.
pub proof fn lemma_sync_twice<A>(current: Seq<(i64, A)>, desired: Seq<A>, inserted: Seq<(i64, A)>)
    requires
        keys(inserted) == fresh(desired, keys(current)),
    ensures
        fresh(desired, keys(current)).no_duplicates(),
        stale(kept(current, desired) + inserted, desired) == Seq::<(i64, A)>::empty(),
        fresh(desired, keys(kept(current, desired) + inserted)) == Seq::<A>::empty(),
{
    lemma_fresh_no_duplicates(desired, keys(current));
    let after = kept(current, desired) + inserted;
    lemma_sync_reaches_desired(current, desired);
    assert forall|x: A| keys(after).to_set().contains(x) == desired.to_set().contains(x) by {
        lemma_keys_append(kept(current, desired), inserted, x);
        assert((keys(kept(current, desired)).to_set() + fresh(desired, keys(current)).to_set()).contains(x)
            == desired.to_set().contains(x));
    }
    assert(keys(after).to_set() =~= desired.to_set());
    lemma_sync_idempotent(after, desired);
}

/// Synchronizing an archive whose relation keys already are the desired ones
/// deletes nothing and inserts nothing, so a second synchronization with the
/// same input changes no row.
pub proof fn lemma_sync_idempotent<A>(current: Seq<(i64, A)>, desired: Seq<A>)
    requires
        keys(current).to_set() == desired.to_set(),
    ensures
        stale(current, desired) == Seq::<(i64, A)>::empty(),
        fresh(desired, keys(current)) == Seq::<A>::empty(),
{
    assert forall|i: int| 0 <= i < current.len() implies desired.contains(#[trigger] current[i].1) by {
        assert(keys(current)[i] == current[i].1);
        assert(keys(current).to_set().contains(current[i].1));
    }
    lemma_stale_empty(current, desired);
    assert forall|i: int| 0 <= i < desired.len() implies keys(current).contains(#[trigger] desired[i]) by {
        assert(desired.to_set().contains(desired[i]));
    }
    lemma_fresh_empty(desired, keys(current));
}

pub open spec fn term_rows(v: Seq<TermRow>) -> Seq<(i64, Seq<char>)> {
    v.map_values(|r: TermRow| (r.id, r.slug@))
}

pub open spec fn entry_slugs(v: Seq<Taxonomy>) -> Seq<Seq<char>> {
    v.map_values(|t: Taxonomy| t.slug@)
}

pub open spec fn entries_view(v: Seq<Taxonomy>) -> Seq<(Seq<char>, Seq<char>)> {
    v.map_values(|t: Taxonomy| (t.slug@, t.name@))
}

pub open spec fn tag_relation_rows(v: Seq<TagRelation>) -> Seq<(i64, (Seq<char>, Seq<char>))> {
    v.map_values(|r: TagRelation| (r.tag_id, (r.slug@, r.namespace@)))
}

pub open spec fn tag_keys(v: Seq<Tag>) -> Seq<(Seq<char>, Seq<char>)> {
    v.map_values(|t: Tag| (t.slug@, t.namespace@))
}

pub open spec fn ids_of<A>(rows: Seq<(i64, A)>) -> Seq<i64> {
    rows.map_values(|r: (i64, A)| r.0)
}

fn row_has_slug(rows: &Vec<TermRow>, s: &String) -> (r: bool)
    ensures
        r == keys(term_rows(rows@)).contains(s@),
{
    let mut i: usize = 0;
    while i < rows.len()
        invariant
            i <= rows.len(),
            forall|j: int| 0 <= j < i ==> keys(term_rows(rows@))[j] != s@,
        decreases rows.len() - i,
    {
        if rows[i].slug == *s {
            assert(keys(term_rows(rows@))[i as int] == s@);
            return true;
        }
        i += 1;
    }
    false
}

fn entry_has_slug(entries: &Vec<Taxonomy>, s: &String) -> (r: bool)
    ensures
        r == entry_slugs(entries@).contains(s@),
{
    let mut i: usize = 0;
    while i < entries.len()
        invariant
            i <= entries.len(),
            forall|j: int| 0 <= j < i ==> entry_slugs(entries@)[j] != s@,
        decreases entries.len() - i,
    {
        if entries[i].slug == *s {
            assert(entry_slugs(entries@)[i as int] == s@);
            return true;
        }
        i += 1;
    }
    false
}

fn has_string(v: &Vec<String>, s: &String) -> (r: bool)
    ensures
        r == string_views(v@).contains(s@),
{
    let mut i: usize = 0;
    while i < v.len()
        invariant
            i <= v.len(),
            forall|j: int| 0 <= j < i ==> string_views(v@)[j] != s@,
        decreases v.len() - i,
    {
        if v[i] == *s {
            assert(string_views(v@)[i as int] == s@);
            return true;
        }
        i += 1;
    }
    false
}

/// The input terms that the registry lacks, one per slug, at its first place.
pub open spec fn unregistered(entries: Seq<(Seq<char>, Seq<char>)>, known: Seq<Seq<char>>) -> Seq<(Seq<char>, Seq<char>)>
    decreases entries.len(),
{
    if entries.len() == 0 {
        Seq::empty()
    } else {
        let r = unregistered(entries.drop_last(), known);
        let e = entries.last();
        if known.contains(e.0) || r.map_values(|x: (Seq<char>, Seq<char>)| x.0).contains(e.0) {
            r
        } else {
            r.push(e)
        }
    }
}

/// The terms of an archive's input to add to the registry: those whose slug
/// no registered row has, de-duplicated by slug.
pub fn terms_to_create(entries: &Vec<Taxonomy>, registered: &Vec<TermRow>) -> (r: Vec<Taxonomy>)
    ensures
        entries_view(r@) == unregistered(entries_view(entries@), keys(term_rows(registered@))),
{
    let mut r: Vec<Taxonomy> = Vec::new();
    let mut i: usize = 0;
    while i < entries.len()
        invariant
            i <= entries.len(),
            entries_view(r@) == unregistered(entries_view(entries@).take(i as int), keys(term_rows(registered@))),
        decreases entries.len() - i,
    {
        let ghost es = entries_view(entries@).take(i + 1);
        assert(es.drop_last() =~= entries_view(entries@).take(i as int));
        assert(entry_slugs(r@) =~= entries_view(r@).map_values(|x: (Seq<char>, Seq<char>)| x.0));
        let e = &entries[i];
        if !row_has_slug(registered, &e.slug) && !entry_has_slug(&r, &e.slug) {
            let ghost before = entries_view(r@);
            let c = Taxonomy { slug: e.slug.clone(), name: e.name.clone() };
            r.push(c);
            assert(entries_view(r@) =~= before.push((e.slug@, e.name@)));
        }
        i += 1;
    }
    assert(entries_view(entries@).take(entries.len() as int) =~= entries_view(entries@));
    r
}

/// The changes that bring an archive's relation rows of one taxonomy to the
/// desired terms: the term ids of the rows to delete, and the slugs to link.
pub fn relation_changes(current: &Vec<TermRow>, desired: &Vec<Taxonomy>) -> (r: (Vec<i64>, Vec<String>))
    ensures
        r.0@ == ids_of(stale(term_rows(current@), entry_slugs(desired@))),
        string_views(r.1@) == fresh(entry_slugs(desired@), keys(term_rows(current@))),
{
    let mut deletes: Vec<i64> = Vec::new();
    let mut i: usize = 0;
    while i < current.len()
        invariant
            i <= current.len(),
            deletes@ == ids_of(stale(term_rows(current@).take(i as int), entry_slugs(desired@))),
        decreases current.len() - i,
    {
        let ghost rs = term_rows(current@).take(i + 1);
        assert(rs.drop_last() =~= term_rows(current@).take(i as int));
        if !entry_has_slug(desired, &current[i].slug) {
            let ghost before = stale(term_rows(current@).take(i as int), entry_slugs(desired@));
            deletes.push(current[i].id);
            assert(deletes@ =~= ids_of(before.push(rs.last())));
        }
        i += 1;
    }
    assert(term_rows(current@).take(current.len() as int) =~= term_rows(current@));
    let mut inserts: Vec<String> = Vec::new();
    let mut j: usize = 0;
    while j < desired.len()
        invariant
            j <= desired.len(),
            string_views(inserts@) == fresh(entry_slugs(desired@).take(j as int), keys(term_rows(current@))),
        decreases desired.len() - j,
    {
        let ghost ds = entry_slugs(desired@).take(j + 1);
        assert(ds.drop_last() =~= entry_slugs(desired@).take(j as int));
        let s = &desired[j].slug;
        if !row_has_slug(current, s) && !has_string(&inserts, s) {
            let ghost before = string_views(inserts@);
            inserts.push(s.clone());
            assert(string_views(inserts@) =~= before.push(s@));
        }
        j += 1;
    }
    assert(entry_slugs(desired@).take(desired.len() as int) =~= entry_slugs(desired@));
    (deletes, inserts)
}

/// The id of the first row with this slug.
pub open spec fn id_for<A>(rows: Seq<(i64, A)>, key: A) -> Option<i64>
    decreases rows.len(),
{
    if rows.len() == 0 {
        None
    } else {
        match id_for(rows.drop_last(), key) {
            Some(id) => Some(id),
            None => if rows.last().1 == key {
                Some(rows.last().0)
            } else {
                None
            },
        }
    }
}

/// The ids of the given slugs, each looked up among the known rows; `None`
/// where one is not there.
pub open spec fn ids_for(rows: Seq<(i64, Seq<char>)>, slugs: Seq<Seq<char>>) -> Option<Seq<i64>>
    decreases slugs.len(),
{
    if slugs.len() == 0 {
        Some(Seq::empty())
    } else {
        match (ids_for(rows, slugs.drop_last()), id_for(rows, slugs.last())) {
            (Some(ids), Some(id)) => Some(ids.push(id)),
            _ => None,
        }
    }
}

fn find_id(rows: &Vec<TermRow>, s: &String) -> (r: Option<i64>)
    ensures
        r == id_for(term_rows(rows@), s@),
{
    let mut i: usize = 0;
    while i < rows.len()
        invariant
            i <= rows.len(),
            id_for(term_rows(rows@).take(i as int), s@) is None,
        decreases rows.len() - i,
    {
        let ghost rs = term_rows(rows@).take(i + 1);
        assert(rs.drop_last() =~= term_rows(rows@).take(i as int));
        if rows[i].slug == *s {
            proof {
                lemma_id_for_prefix(term_rows(rows@), i + 1, s@);
            }
            return Some(rows[i].id);
        }
        i += 1;
    }
    assert(term_rows(rows@).take(rows.len() as int) =~= term_rows(rows@));
    None
}

proof fn lemma_id_for_prefix<A>(rows: Seq<(i64, A)>, n: int, key: A)
    requires
        0 < n <= rows.len(),
        id_for(rows.take(n), key) is Some,
    ensures
        id_for(rows, key) == id_for(rows.take(n), key),
    decreases rows.len(),
{
    if n < rows.len() {
        assert(rows.drop_last().take(n) =~= rows.take(n));
        lemma_id_for_prefix(rows.drop_last(), n, key);
    } else {
        assert(rows.take(n) =~= rows);
    }
}

/// The term ids of the slugs to link, from the registry rows found or created.
pub fn resolve_ids(slugs: &Vec<String>, known: &Vec<TermRow>) -> (r: Option<Vec<i64>>)
    ensures
        match r {
            Some(v) => ids_for(term_rows(known@), string_views(slugs@)) == Some(v@),
            None => ids_for(term_rows(known@), string_views(slugs@)) is None,
        },
{
    let mut ids: Vec<i64> = Vec::new();
    let mut i: usize = 0;
    while i < slugs.len()
        invariant
            i <= slugs.len(),
            ids_for(term_rows(known@), string_views(slugs@).take(i as int)) == Some(ids@),
        decreases slugs.len() - i,
    {
        let ghost ss = string_views(slugs@).take(i + 1);
        assert(ss.drop_last() =~= string_views(slugs@).take(i as int));
        match find_id(known, &slugs[i]) {
            Some(id) => ids.push(id),
            None => {
                proof {
                    lemma_ids_for_none(term_rows(known@), string_views(slugs@), i + 1);
                }
                return None;
            },
        }
        i += 1;
    }
    assert(string_views(slugs@).take(slugs.len() as int) =~= string_views(slugs@));
    Some(ids)
}

proof fn lemma_ids_for_none(rows: Seq<(i64, Seq<char>)>, slugs: Seq<Seq<char>>, n: int)
    requires
        0 < n <= slugs.len(),
        ids_for(rows, slugs.take(n)) is None,
    ensures
        ids_for(rows, slugs) is None,
    decreases slugs.len(),
{
    if n < slugs.len() {
        assert(slugs.drop_last().take(n) =~= slugs.take(n));
        lemma_ids_for_none(rows, slugs.drop_last(), n);
    } else {
        assert(slugs.take(n) =~= slugs);
    }
}

/// The slug the `slug` crate derives from a name.
pub uninterp spec fn slugify_of(s: Seq<char>) -> Seq<char>;

/// Relies on slug's `slugify`: the canonical slug of a name, a function of the name alone.
#[verifier::external_body]
pub(crate) fn slugify(name: &str) -> (r: String)
    ensures
        r@ == slugify_of(name@),
{
    slug::slugify(name)
}

pub open spec fn slugged(names: Seq<Seq<char>>) -> Seq<(Seq<char>, Seq<char>)> {
    names.map_values(|n: Seq<char>| (slugify_of(n), n))
}

/// The terms of an archive's input names: each with its slug.
pub fn taxonomy_entries(names: &Vec<String>) -> (r: Vec<Taxonomy>)
    ensures
        entries_view(r@) == slugged(string_views(names@)),
{
    let mut r: Vec<Taxonomy> = Vec::new();
    let mut i: usize = 0;
    while i < names.len()
        invariant
            i <= names.len(),
            entries_view(r@) =~= slugged(string_views(names@).take(i as int)),
        decreases names.len() - i,
    {
        let ghost before = entries_view(r@);
        let t = Taxonomy { slug: slugify(names[i].as_str()), name: names[i].clone() };
        r.push(t);
        assert(entries_view(r@) =~= before.push((t.slug@, t.name@)));
        i += 1;
        assert(slugged(string_views(names@).take(i as int)) =~= slugged(string_views(names@).take(i - 1)).push(
            (slugify_of(names@[i - 1]@), names@[i - 1]@)));
    }
    assert(string_views(names@).take(names.len() as int) =~= string_views(names@));
    r
}

pub open spec fn pair_views(v: Seq<(String, String)>) -> Seq<(Seq<char>, Seq<char>)> {
    v.map_values(|p: (String, String)| (p.0@, p.1@))
}

pub open spec fn tags_view(v: Seq<Tag>) -> Seq<(Seq<char>, Seq<char>, Seq<char>)> {
    v.map_values(|t: Tag| (t.slug@, t.name@, t.namespace@))
}

pub open spec fn slugged_tags(tags: Seq<(Seq<char>, Seq<char>)>) -> Seq<(Seq<char>, Seq<char>, Seq<char>)> {
    tags.map_values(|p: (Seq<char>, Seq<char>)| (slugify_of(p.0), p.0, p.1))
}

/// The tags of an archive's input (name, namespace) pairs, each with its slug.
pub fn tag_entries(tags: &Vec<(String, String)>) -> (r: Vec<Tag>)
    ensures
        tags_view(r@) == slugged_tags(pair_views(tags@)),
{
    let mut r: Vec<Tag> = Vec::new();
    let mut i: usize = 0;
    while i < tags.len()
        invariant
            i <= tags.len(),
            tags_view(r@) =~= slugged_tags(pair_views(tags@).take(i as int)),
        decreases tags.len() - i,
    {
        let ghost before = tags_view(r@);
        let t = Tag { slug: slugify(tags[i].0.as_str()), name: tags[i].0.clone(), namespace: tags[i].1.clone() };
        r.push(t);
        assert(tags_view(r@) =~= before.push((t.slug@, t.name@, t.namespace@)));
        i += 1;
        assert(slugged_tags(pair_views(tags@).take(i as int)) =~= slugged_tags(pair_views(tags@).take(i - 1)).push(
            (slugify_of(tags@[i - 1].0@), tags@[i - 1].0@, tags@[i - 1].1@)));
    }
    assert(pair_views(tags@).take(tags.len() as int) =~= pair_views(tags@));
    r
}

/// The tags with their display names replaced by the canonical ones, one per
/// tag in order; slugs and namespaces are kept.
pub fn apply_aliases(tags: &Vec<Tag>, canonical: &Vec<String>) -> (r: Vec<Tag>)
    requires
        canonical.len() == tags.len(),
    ensures
        r@.len() == tags@.len(),
        forall|i: int| 0 <= i < r@.len() ==> {
            &&& (#[trigger] r@[i]).slug@ == tags@[i].slug@
            &&& r@[i].namespace@ == tags@[i].namespace@
            &&& r@[i].name@ == canonical@[i]@
        },
{
    let mut r: Vec<Tag> = Vec::new();
    let mut i: usize = 0;
    while i < tags.len()
        invariant
            i <= tags.len() == canonical.len(),
            r@.len() == i,
            forall|j: int| 0 <= j < i ==> {
                &&& (#[trigger] r@[j]).slug@ == tags@[j].slug@
                &&& r@[j].namespace@ == tags@[j].namespace@
                &&& r@[j].name@ == canonical@[j]@
            },
        decreases tags.len() - i,
    {
        let t = Tag { slug: tags[i].slug.clone(), name: canonical[i].clone(), namespace: tags[i].namespace.clone() };
        r.push(t);
        i += 1;
    }
    r
}

/// The registry terms of a list of tags: slug and display name.
pub fn tag_terms(tags: &Vec<Tag>) -> (r: Vec<Taxonomy>)
    ensures
        entries_view(r@) == tags_view(tags@).map_values(|t: (Seq<char>, Seq<char>, Seq<char>)| (t.0, t.1)),
{
    let mut r: Vec<Taxonomy> = Vec::new();
    let mut i: usize = 0;
    while i < tags.len()
        invariant
            i <= tags.len(),
            entries_view(r@) =~= tags_view(tags@).take(i as int).map_values(|t: (Seq<char>, Seq<char>, Seq<char>)| (t.0, t.1)),
        decreases tags.len() - i,
    {
        let ghost before = entries_view(r@);
        let t = Taxonomy { slug: tags[i].slug.clone(), name: tags[i].name.clone() };
        r.push(t);
        assert(entries_view(r@) =~= before.push((t.slug@, t.name@)));
        i += 1;
    }
    assert(tags_view(tags@).take(tags.len() as int) =~= tags_view(tags@));
    r
}

fn tag_has_key(tags: &Vec<Tag>, slug: &String, ns: &String) -> (r: bool)
    ensures
        r == tag_keys(tags@).contains((slug@, ns@)),
{
    let mut i: usize = 0;
    while i < tags.len()
        invariant
            i <= tags.len(),
            forall|j: int| 0 <= j < i ==> tag_keys(tags@)[j] != (slug@, ns@),
        decreases tags.len() - i,
    {
        if tags[i].slug == *slug && tags[i].namespace == *ns {
            assert(tag_keys(tags@)[i as int] == (slug@, ns@));
            return true;
        }
        i += 1;
    }
    false
}

fn relation_has_key(rows: &Vec<TagRelation>, slug: &String, ns: &String) -> (r: bool)
    ensures
        r == keys(tag_relation_rows(rows@)).contains((slug@, ns@)),
{
    let mut i: usize = 0;
    while i < rows.len()
        invariant
            i <= rows.len(),
            forall|j: int| 0 <= j < i ==> keys(tag_relation_rows(rows@))[j] != (slug@, ns@),
        decreases rows.len() - i,
    {
        if rows[i].slug == *slug && rows[i].namespace == *ns {
            assert(keys(tag_relation_rows(rows@))[i as int] == (slug@, ns@));
            return true;
        }
        i += 1;
    }
    false
}

fn pair_has(v: &Vec<(String, String)>, a: &String, b: &String) -> (r: bool)
    ensures
        r == pair_views(v@).contains((a@, b@)),
{
    let mut i: usize = 0;
    while i < v.len()
        invariant
            i <= v.len(),
            forall|j: int| 0 <= j < i ==> pair_views(v@)[j] != (a@, b@),
        decreases v.len() - i,
    {
        if v[i].0 == *a && v[i].1 == *b {
            assert(pair_views(v@)[i as int] == (a@, b@));
            return true;
        }
        i += 1;
    }
    false
}

/// The changes that bring an archive's tag relations to the desired tags,
/// keyed by (slug, namespace): the rows to delete, and the (slug, namespace)
/// pairs to link.
pub fn tag_relation_changes(current: &Vec<TagRelation>, desired: &Vec<Tag>) -> (r: (Vec<TagRelation>, Vec<(String, String)>))
    ensures
        tag_relation_rows(r.0@) == stale(tag_relation_rows(current@), tag_keys(desired@)),
        pair_views(r.1@) == fresh(tag_keys(desired@), keys(tag_relation_rows(current@))),
{
    let mut deletes: Vec<TagRelation> = Vec::new();
    let mut i: usize = 0;
    while i < current.len()
        invariant
            i <= current.len(),
            tag_relation_rows(deletes@) == stale(tag_relation_rows(current@).take(i as int), tag_keys(desired@)),
        decreases current.len() - i,
    {
        let ghost rs = tag_relation_rows(current@).take(i + 1);
        assert(rs.drop_last() =~= tag_relation_rows(current@).take(i as int));
        let c = &current[i];
        if !tag_has_key(desired, &c.slug, &c.namespace) {
            let ghost before = tag_relation_rows(deletes@);
            let d = TagRelation { tag_id: c.tag_id, slug: c.slug.clone(), namespace: c.namespace.clone() };
            deletes.push(d);
            assert(tag_relation_rows(deletes@) =~= before.push(rs.last()));
        }
        i += 1;
    }
    assert(tag_relation_rows(current@).take(current.len() as int) =~= tag_relation_rows(current@));
    let mut inserts: Vec<(String, String)> = Vec::new();
    let mut j: usize = 0;
    while j < desired.len()
        invariant
            j <= desired.len(),
            pair_views(inserts@) == fresh(tag_keys(desired@).take(j as int), keys(tag_relation_rows(current@))),
        decreases desired.len() - j,
    {
        let ghost ds = tag_keys(desired@).take(j + 1);
        assert(ds.drop_last() =~= tag_keys(desired@).take(j as int));
        let t = &desired[j];
        if !relation_has_key(current, &t.slug, &t.namespace) && !pair_has(&inserts, &t.slug, &t.namespace) {
            let ghost before = pair_views(inserts@);
            inserts.push((t.slug.clone(), t.namespace.clone()));
            assert(pair_views(inserts@) =~= before.push((t.slug@, t.namespace@)));
        }
        j += 1;
    }
    assert(tag_keys(desired@).take(desired.len() as int) =~= tag_keys(desired@));
    (deletes, inserts)
}

/// An external source of an archive; the name is unique per archive.
#[derive(Debug, Clone)]
pub struct ArchiveSource {
    pub name: String,
    pub url: Option<String>,
}

/// A page image of an archive; the page number is unique per archive.
#[derive(Debug, Clone)]
pub struct ArchiveImage {
    pub filename: String,
    pub page_number: i16,
    pub width: Option<i16>,
    pub height: Option<i16>,
}

pub open spec fn opt_view(o: Option<String>) -> Option<Seq<char>> {
    match o {
        Some(s) => Some(s@),
        None => None,
    }
}

pub open spec fn sources_view(v: Seq<ArchiveSource>) -> Seq<(Seq<char>, Option<Seq<char>>)> {
    v.map_values(|s: ArchiveSource| (s.name@, opt_view(s.url)))
}

pub open spec fn page_numbers(v: Seq<ArchiveImage>) -> Seq<i16> {
    v.map_values(|i: ArchiveImage| i.page_number)
}

fn copy_opt(o: &Option<String>) -> (r: Option<String>)
    ensures
        opt_view(r) == opt_view(*o),
{
    match o {
        Some(s) => Some(s.clone()),
        None => None,
    }
}

fn same_opt(a: &Option<String>, b: &Option<String>) -> (r: bool)
    ensures
        r == (opt_view(*a) == opt_view(*b)),
{
    match (a, b) {
        (Some(x), Some(y)) => *x == *y,
        (None, None) => true,
        _ => false,
    }
}

fn has_source(v: &Vec<ArchiveSource>, s: &ArchiveSource) -> (r: bool)
    ensures
        r == sources_view(v@).contains((s.name@, opt_view(s.url))),
{
    let mut i: usize = 0;
    while i < v.len()
        invariant
            i <= v.len(),
            forall|j: int| 0 <= j < i ==> sources_view(v@)[j] != (s.name@, opt_view(s.url)),
        decreases v.len() - i,
    {
        if v[i].name == s.name && same_opt(&v[i].url, &s.url) {
            assert(sources_view(v@)[i as int] == (s.name@, opt_view(s.url)));
            return true;
        }
        i += 1;
    }
    false
}

fn sources_missing(xs: &Vec<ArchiveSource>, ys: &Vec<ArchiveSource>) -> (r: Vec<ArchiveSource>)
    ensures
        sources_view(r@) == missing(sources_view(xs@), sources_view(ys@)),
{
    let mut r: Vec<ArchiveSource> = Vec::new();
    let mut i: usize = 0;
    while i < xs.len()
        invariant
            i <= xs.len(),
            sources_view(r@) == missing(sources_view(xs@).take(i as int), sources_view(ys@)),
        decreases xs.len() - i,
    {
        let ghost t = sources_view(xs@).take(i + 1);
        assert(t.drop_last() =~= sources_view(xs@).take(i as int));
        if !has_source(ys, &xs[i]) {
            let ghost before = sources_view(r@);
            let c = ArchiveSource { name: xs[i].name.clone(), url: copy_opt(&xs[i].url) };
            r.push(c);
            assert(sources_view(r@) =~= before.push(t.last()));
        }
        i += 1;
    }
    assert(sources_view(xs@).take(xs.len() as int) =~= sources_view(xs@));
    r
}

/// The source rows to delete (none when merging) and to insert (upserting the
/// url on a name already present): rows are compared by (name, url).
pub fn source_changes(existing: &Vec<ArchiveSource>, input: &Vec<ArchiveSource>, merge: bool) -> (r: (Vec<ArchiveSource>, Vec<ArchiveSource>))
    ensures
        sources_view(r.0@) == (if merge {
            Seq::empty()
        } else {
            missing(sources_view(existing@), sources_view(input@))
        }),
        sources_view(r.1@) == missing(sources_view(input@), sources_view(existing@)),
{
    let deletes = if merge {
        let d: Vec<ArchiveSource> = Vec::new();
        assert(sources_view(d@) =~= Seq::empty());
        d
    } else {
        sources_missing(existing, input)
    };
    (deletes, sources_missing(input, existing))
}

fn has_page(v: &Vec<ArchiveImage>, p: i16) -> (r: bool)
    ensures
        r == page_numbers(v@).contains(p),
{
    let mut i: usize = 0;
    while i < v.len()
        invariant
            i <= v.len(),
            forall|j: int| 0 <= j < i ==> page_numbers(v@)[j] != p,
        decreases v.len() - i,
    {
        if v[i].page_number == p {
            assert(page_numbers(v@)[i as int] == p);
            return true;
        }
        i += 1;
    }
    false
}

/// The page numbers whose image rows go: those the input no longer has. Every
/// input row is then upserted on its page number.
pub fn image_deletions(existing: &Vec<ArchiveImage>, input: &Vec<ArchiveImage>) -> (r: Vec<i16>)
    ensures
        r@ == missing(page_numbers(existing@), page_numbers(input@)),
{
    let mut r: Vec<i16> = Vec::new();
    let mut i: usize = 0;
    while i < existing.len()
        invariant
            i <= existing.len(),
            r@ == missing(page_numbers(existing@).take(i as int), page_numbers(input@)),
        decreases existing.len() - i,
    {
        let ghost t = page_numbers(existing@).take(i + 1);
        assert(t.drop_last() =~= page_numbers(existing@).take(i as int));
        if !has_page(input, existing[i].page_number) {
            r.push(existing[i].page_number);
        }
        i += 1;
    }
    assert(page_numbers(existing@).take(existing.len() as int) =~= page_numbers(existing@));
    r
}

} // verus!
