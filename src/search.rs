//! The search executor's own rules: the sort keys of phase 1, the seeded
//! shuffle of a random sort, pagination, the phase-1 order restored on the
//! page's rows, and cover resolution.
use vstd::prelude::*;
use crate::predicate::{SearchFilter, build_filter, predicates_of, predicate_views, blacklist_entries, string_views};
use crate::query::{facet_filters_of, free_text, ranking, ranking_expression, sanitized};

verus! {

/// Number of archives on one page of results.
pub const PAGE_SIZE: usize = 24;

/// The key a search is sorted by.
#[derive(PartialEq, Eq, Debug, Clone, Copy, Structural)]
pub enum Sorting {
    Relevance,
    ReleasedAt,
    CreatedAt,
    Title,
    Pages,
    Random,
}

/// The direction of a sort.
#[derive(PartialEq, Eq, Debug, Clone, Copy, Structural)]
pub enum SortOrder {
    Asc,
    Desc,
}

/// A column the candidate ids are ordered by.
#[derive(PartialEq, Eq, Debug, Clone, Copy, Structural)]
pub enum SortColumn {
    Rank,
    CreatedAt,
    ReleasedAt,
    Title,
    Pages,
}

/// The columns phase 1 orders by, all in the requested direction; empty for a
/// random sort, whose order comes from the shuffle.
pub open spec fn sort_columns(sort: Sorting, ranked: bool) -> Seq<SortColumn> {
    match sort {
        Sorting::Relevance => if ranked {
            seq![SortColumn::Rank, SortColumn::CreatedAt]
        } else {
            seq![SortColumn::CreatedAt]
        },
        Sorting::ReleasedAt => seq![SortColumn::ReleasedAt],
        Sorting::CreatedAt => seq![SortColumn::CreatedAt],
        Sorting::Title => seq![SortColumn::Title],
        Sorting::Pages => seq![SortColumn::Pages, SortColumn::CreatedAt],
        Sorting::Random => seq![],
    }
}

pub fn order_columns(sort: Sorting, ranked: bool) -> (r: Vec<SortColumn>)
    ensures
        r@ == sort_columns(sort, ranked),
{
    let r: Vec<SortColumn> = match sort {
        Sorting::Relevance => if ranked {
            vec![SortColumn::Rank, SortColumn::CreatedAt]
        } else {
            vec![SortColumn::CreatedAt]
        },
        Sorting::ReleasedAt => vec![SortColumn::ReleasedAt],
        Sorting::CreatedAt => vec![SortColumn::CreatedAt],
        Sorting::Title => vec![SortColumn::Title],
        Sorting::Pages => vec![SortColumn::Pages, SortColumn::CreatedAt],
        Sorting::Random => Vec::new(),
    };
    assert(r@ =~= sort_columns(sort, ranked));
    r
}

/// A search request.
#[derive(Debug, Clone)]
pub struct SearchQuery {
    pub value: String,
    /// Entries `namespace:id`.
    pub blacklist: Vec<String>,
    pub sort: Sorting,
    pub order: SortOrder,
    /// 1-based.
    pub page: usize,
    pub seed: Option<String>,
}

/// What phase 1 runs: the ranking expression (empty for none), the filter,
/// and the columns to order by.
#[derive(Debug, Clone)]
pub struct SearchPlan {
    pub ranking: String,
    pub filter: SearchFilter,
    pub columns: Vec<SortColumn>,
    pub order: SortOrder,
}

/// The ranking expression of a raw search string.
pub open spec fn ranking_of(raw: Seq<char>) -> Seq<char> {
    ranking(free_text(sanitized(raw), facet_filters_of(sanitized(raw))))
}

/// Compiles a search request into what phase 1 runs.
pub fn plan_search(query: &SearchQuery) -> (r: SearchPlan)
    ensures
        r.ranking@ == ranking_of(query.value@),
        predicate_views(r.filter.predicates@) == predicates_of(facet_filters_of(query.value@)),
        r.filter.exclusions@ == blacklist_entries(string_views(query.blacklist@)),
        r.columns@ == sort_columns(query.sort, ranking_of(query.value@).len() > 0),
        r.order == query.order,
{
    let ranking = ranking_expression(query.value.as_str());
    let filter = build_filter(query.value.as_str(), &query.blacklist);
    let columns = order_columns(query.sort, !ranking.as_str().is_empty());
    SearchPlan { ranking, filter, columns, order: query.order }
}

/// The SHA-256 digest of a string's UTF-8 bytes.
pub uninterp spec fn sha256_of(s: Seq<char>) -> Seq<u8>;

/// Relies on sha2's `Sha256::digest`: the 32-byte digest of the string's bytes.
#[verifier::external_body]
fn seed_digest(seed: &str) -> (r: Vec<u8>)
    ensures
        r@ == sha256_of(seed@),
        r@.len() == 32,
{
    <sha2::Sha256 as sha2::Digest>::digest(seed.as_bytes()).to_vec()
}

/// The order `StdRng::from_seed(seed)` shuffles `ids` into.
pub uninterp spec fn seeded_shuffle_of(seed: Seq<u8>, ids: Seq<i64>) -> Seq<i64>;

/// Relies on rand's `StdRng::from_seed` and `SliceRandom::shuffle`: a
/// deterministic generator of the seed, and a Fisher-Yates permutation of the ids.
#[verifier::external_body]
fn seeded_shuffle(ids: Vec<i64>, seed: &Vec<u8>) -> (r: Vec<i64>)
    requires
        seed@.len() == 32,
    ensures
        r@ == seeded_shuffle_of(seed@, ids@),
        r@.to_multiset() == ids@.to_multiset(),
{
    let mut ids = ids;
    let mut rng = <rand::rngs::StdRng as rand::SeedableRng>::from_seed(seed.as_slice().try_into().unwrap());
    <[i64] as rand::seq::SliceRandom>::shuffle(&mut ids, &mut rng);
    ids
}

/// The seed string a random sort uses: the caller's, or the empty one.
pub open spec fn seed_text(seed: Option<String>) -> Seq<char> {
    match seed {
        Some(s) => s@,
        None => Seq::empty(),
    }
}

/// The random order of a candidate list under a seed string.
pub open spec fn random_order(seed: Seq<char>, ids: Seq<i64>) -> Seq<i64> {
    seeded_shuffle_of(sha256_of(seed), ids)
}

/// The phase-1 candidate list in its final order: shuffled under the seed for
/// a random sort, as the store ordered it otherwise.
pub open spec fn arranged(sort: Sorting, seed: Option<String>, ids: Seq<i64>) -> Seq<i64> {
    if sort == Sorting::Random {
        random_order(seed_text(seed), ids)
    } else {
        ids
    }
}

/// Puts the phase-1 candidate ids in their final order.
pub fn arrange_candidates(sort: Sorting, seed: &Option<String>, ids: Vec<i64>) -> (r: Vec<i64>)
    ensures
        r@ == arranged(sort, *seed, ids@),
        r@.to_multiset() == ids@.to_multiset(),
{
    if sort == Sorting::Random {
        let digest = match seed {
            Some(s) => seed_digest(s.as_str()),
            None => seed_digest(""),
        };
        proof {
            reveal_strlit("");
            assert(""@ =~= Seq::<char>::empty());
        }
        seeded_shuffle(ids, &digest)
    } else {
        ids
    }
}

/// The ids of 1-based page `page`: positions `[(page - 1) * 24, page * 24)`, clamped.
pub open spec fn page_slice(ids: Seq<i64>, page: int) -> Seq<i64> {
    let lo = if (page - 1) * 24 < ids.len() { (page - 1) * 24 } else { ids.len() as int };
    let hi = if page * 24 < ids.len() { page * 24 } else { ids.len() as int };
    ids.subrange(lo, hi)
}

/// The ids on one page of results.
pub fn paginate(ids: &Vec<i64>, page: usize) -> (r: Vec<i64>)
    requires
        page >= 1,
    ensures
        r@ == page_slice(ids@, page as int),
{
    let n = ids.len();
    let skip = page - 1;
    if skip >= n / PAGE_SIZE + 1 {
        assert(skip * 24 >= n) by (nonlinear_arith)
            requires skip >= n / 24 + 1;
        let r: Vec<i64> = Vec::new();
        assert(r@ =~= page_slice(ids@, page as int));
        return r;
    }
    assert(skip * 24 <= n + 24) by (nonlinear_arith)
        requires skip <= n / 24;
    let lo = if skip * PAGE_SIZE < n { skip * PAGE_SIZE } else { n };
    let hi = if n - lo > PAGE_SIZE { lo + PAGE_SIZE } else { n };
    let mut r: Vec<i64> = Vec::new();
    let mut i: usize = lo;
    while i < hi
        invariant
            lo <= i <= hi <= n == ids.len(),
            r@ == ids@.subrange(lo as int, i as int),
        decreases hi - i,
    {
        r.push(ids[i]);
        i += 1;
        assert(r@ =~= ids@.subrange(lo as int, i as int));
    }
    r
}

/// The first `k` pages, one after another.
pub open spec fn first_pages(ids: Seq<i64>, k: nat) -> Seq<i64>
    decreases k,
{
    if k == 0 {
        Seq::empty()
    } else {
        first_pages(ids, (k - 1) as nat) + page_slice(ids, k as int)
    }
}

/// The number of pages a candidate list fills.
pub open spec fn page_count(ids: Seq<i64>) -> nat {
    ((ids.len() + 23) / 24) as nat
}

proof fn lemma_first_pages_prefix(ids: Seq<i64>, k: nat)
    ensures
        first_pages(ids, k) == ids.take(if k * 24 < ids.len() { (k * 24) as int } else { ids.len() as int }),
    decreases k,
{
    if k > 0 {
        lemma_first_pages_prefix(ids, (k - 1) as nat);
        let a = first_pages(ids, (k - 1) as nat);
        let b = page_slice(ids, k as int);
        assert(a + b =~= ids.take(if k * 24 < ids.len() { (k * 24) as int } else { ids.len() as int }));
    } else {
        assert(ids.take(0) =~= Seq::<i64>::empty());
    }
}

/// Reading every page of a stable candidate list in turn gives back the
/// whole list, each id once and in order; the pages after the last are empty.
pub proof fn lemma_pages_cover_candidates(ids: Seq<i64>, later: int)
    requires
        later > page_count(ids),
    ensures
        first_pages(ids, page_count(ids)) == ids,
        page_slice(ids, later) == Seq::<i64>::empty(),
{
    lemma_first_pages_prefix(ids, page_count(ids));
    assert(page_count(ids) * 24 >= ids.len()) by (nonlinear_arith)
        requires page_count(ids) == (ids.len() + 23) / 24;
    assert(ids.take(ids.len() as int) =~= ids);
    assert((later - 1) * 24 >= ids.len()) by (nonlinear_arith)
        requires later - 1 >= page_count(ids), page_count(ids) * 24 >= ids.len();
    assert(page_slice(ids, later) =~= Seq::<i64>::empty());
}

/// `order` restricted to the ids in `found`, in `order`'s order.
pub open spec fn in_order_of(order: Seq<i64>, found: Seq<i64>) -> Seq<i64>
    decreases order.len(),
{
    if order.len() == 0 {
        Seq::empty()
    } else if found.contains(order.last()) {
        in_order_of(order.drop_last(), found).push(order.last())
    } else {
        in_order_of(order.drop_last(), found)
    }
}

fn holds_id(v: &Vec<i64>, x: i64) -> (r: bool)
    ensures
        r == v@.contains(x),
{
    let mut i: usize = 0;
    while i < v.len()
        invariant
            i <= v.len(),
            forall|j: int| 0 <= j < i ==> v@[j] != x,
        decreases v.len() - i,
    {
        if v[i] == x {
            return true;
        }
        i += 1;
    }
    false
}

/// Puts the rows phase 2 returned for a page back in the page's order: each
/// page id that came back, once per occurrence on the page.
pub fn restore_order(page: &Vec<i64>, found: &Vec<i64>) -> (r: Vec<i64>)
    ensures
        r@ == in_order_of(page@, found@),
{
    let mut r: Vec<i64> = Vec::new();
    let mut i: usize = 0;
    while i < page.len()
        invariant
            i <= page.len(),
            r@ == in_order_of(page@.take(i as int), found@),
        decreases page.len() - i,
    {
        assert(page@.take(i + 1).drop_last() =~= page@.take(i as int));
        if holds_id(found, page[i]) {
            r.push(page[i]);
        }
        i += 1;
    }
    assert(page@.take(page.len() as int) =~= page@);
    r
}

/// The total a search reports: the number of phase-1 candidates, before pagination.
pub fn total_count(ids: &Vec<i64>) -> (r: i64)
    requires
        ids@.len() <= i64::MAX,
    ensures
        r as int == ids@.len(),
{
    ids.len() as i64
}

} // verus!
