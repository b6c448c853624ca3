//! Renders a search filter as SQL conditions on `archives`: text pieces and
//! the values bound between them, in order.
use vstd::prelude::*;
use vstd::string::*;
use crate::predicate::{blacklist_entries, blacklist_entry, lemma_entry_kept, Exclusion, Predicate, PredicateView, SearchFilter, predicate_view, predicate_views, string_views};
use crate::registry::{Facet, TagType};
use crate::search::{SortColumn, SortOrder};

verus! {

/// One piece of a rendered condition.
#[derive(Debug, Clone)]
pub enum SqlPiece {
    /// SQL text.
    Sql(String),
    /// A bound text value.
    Text(String),
    /// A bound id.
    Id(i64),
}

/// The value of a rendered piece.
pub enum Piece {
    Sql(Seq<char>),
    Text(Seq<char>),
    Id(i64),
}

pub open spec fn piece_view(p: SqlPiece) -> Piece {
    match p {
        SqlPiece::Sql(s) => Piece::Sql(s@),
        SqlPiece::Text(s) => Piece::Text(s@),
        SqlPiece::Id(i) => Piece::Id(i),
    }
}

pub open spec fn pieces_view(v: Seq<SqlPiece>) -> Seq<Piece> {
    v.map_values(|p: SqlPiece| piece_view(p))
}

/// `EXISTS (...` up to the `ILIKE` that compares `column` of the facet's terms.
pub open spec fn exists_clause(t: TagType, column: Seq<char>) -> Seq<char> {
    "EXISTS (SELECT 1 FROM "@ + t.relation_name() + " LEFT JOIN "@ + t.table_name() + " ON "@
        + t.table_name() + ".id = "@ + t.relation_name() + "."@ + t.id_column() + " WHERE "@
        + t.relation_name() + ".archive_id = archives.id AND "@ + t.table_name() + "."@ + column
        + " ILIKE "@
}

/// The namespace constraint of a tag facet; empty for the others.
pub open spec fn namespace_clause(f: Facet) -> Seq<char> {
    match f.namespace() {
        Some(ns) => " AND namespace ILIKE '"@ + ns + "'"@,
        None => Seq::empty(),
    }
}

/// A term of the facet whose name or slug matches `v`.
pub open spec fn term_pieces(f: Facet, v: Seq<char>) -> Seq<Piece> {
    seq![
        Piece::Sql(exists_clause(f.tag_type(), "name"@)),
        Piece::Text(v),
        Piece::Sql(namespace_clause(f) + ") OR "@ + exists_clause(f.tag_type(), "slug"@)),
        Piece::Text(v),
        Piece::Sql(namespace_clause(f) + ")"@),
    ]
}

/// The values of one group, each parenthesised, joined by AND.
pub open spec fn values_pieces(f: Facet, vs: Seq<Seq<char>>) -> Seq<Piece>
    decreases vs.len(),
{
    if vs.len() == 0 {
        Seq::empty()
    } else {
        values_pieces(f, vs.drop_last()) + seq![Piece::Sql(if vs.len() == 1 { "("@ } else { " AND ("@ })]
            + term_pieces(f, vs.last()) + seq![Piece::Sql(")"@)]
    }
}

/// The groups of a predicate, each parenthesised, joined by OR.
pub open spec fn groups_pieces(f: Facet, gs: Seq<Seq<Seq<char>>>) -> Seq<Piece>
    decreases gs.len(),
{
    if gs.len() == 0 {
        Seq::empty()
    } else {
        groups_pieces(f, gs.drop_last()) + seq![Piece::Sql(if gs.len() == 1 { "("@ } else { " OR ("@ })]
            + values_pieces(f, gs.last()) + seq![Piece::Sql(")"@)]
    }
}

/// A predicate as a condition: the groups under AND, or under AND NOT when negated.
pub open spec fn predicate_pieces(p: PredicateView) -> Seq<Piece> {
    seq![Piece::Sql(if p.1 { " AND NOT ("@ } else { " AND ("@ })] + groups_pieces(p.0, p.2) + seq![
        Piece::Sql(")"@),
    ]
}

/// An exclusion as a condition: no relation row to the term.
pub open spec fn exclusion_pieces(x: Exclusion) -> Seq<Piece> {
    seq![
        Piece::Sql(" AND NOT EXISTS (SELECT 1 FROM "@ + x.tag_type.relation_name()
            + " WHERE archive_id = archives.id AND "@ + x.tag_type.id_column() + " = "@),
        Piece::Id(x.id),
        Piece::Sql(")"@),
    ]
}

pub open spec fn all_predicate_pieces(ps: Seq<PredicateView>) -> Seq<Piece>
    decreases ps.len(),
{
    if ps.len() == 0 {
        Seq::empty()
    } else {
        all_predicate_pieces(ps.drop_last()) + predicate_pieces(ps.last())
    }
}

pub open spec fn all_exclusion_pieces(xs: Seq<Exclusion>) -> Seq<Piece>
    decreases xs.len(),
{
    if xs.len() == 0 {
        Seq::empty()
    } else {
        all_exclusion_pieces(xs.drop_last()) + exclusion_pieces(xs.last())
    }
}

fn exists_clause_text(t: TagType, column: &str) -> (r: String)
    ensures
        r@ == exists_clause(t, column@),
{
    let rel = t.relation();
    let table = t.table();
    let id = t.id();
    let mut s = String::from_str("EXISTS (SELECT 1 FROM ");
    s.append(rel.as_str());
    s.append(" LEFT JOIN ");
    s.append(table.as_str());
    s.append(" ON ");
    s.append(table.as_str());
    s.append(".id = ");
    s.append(rel.as_str());
    s.append(".");
    s.append(id.as_str());
    s.append(" WHERE ");
    s.append(rel.as_str());
    s.append(".archive_id = archives.id AND ");
    s.append(table.as_str());
    s.append(".");
    s.append(column);
    s.append(" ILIKE ");
    s
}

fn namespace_clause_text(f: Facet) -> (r: String)
    ensures
        r@ == namespace_clause(f),
{
    let ns = match f {
        Facet::MaleTag => "male",
        Facet::FemaleTag => "female",
        Facet::MiscTag => "misc",
        _ => {
            let e = String::new();
            return e;
        },
    };
    let mut s = String::from_str(" AND namespace ILIKE '");
    s.append(ns);
    s.append("'");
    s
}

fn term_pieces_of(f: Facet, v: &String) -> (r: Vec<SqlPiece>)
    ensures
        pieces_view(r@) == term_pieces(f, v@),
{
    let t = f.registry();
    let ns = namespace_clause_text(f);
    let mut middle = ns.clone();
    middle.append(") OR ");
    middle.append(exists_clause_text(t, "slug").as_str());
    let mut last = ns.clone();
    last.append(")");
    let r = vec![
        SqlPiece::Sql(exists_clause_text(t, "name")),
        SqlPiece::Text(v.clone()),
        SqlPiece::Sql(middle),
        SqlPiece::Text(v.clone()),
        SqlPiece::Sql(last),
    ];
    assert(pieces_view(r@) =~= term_pieces(f, v@));
    r
}

fn open_text(first: bool, joiner: &str) -> (r: String)
    ensures
        r@ == (if first { "("@ } else { joiner@ }),
{
    if first {
        String::from_str("(")
    } else {
        String::from_str(joiner)
    }
}

fn values_pieces_of(f: Facet, vs: &Vec<String>) -> (r: Vec<SqlPiece>)
    ensures
        pieces_view(r@) == values_pieces(f, string_views(vs@)),
{
    let mut out: Vec<SqlPiece> = Vec::new();
    let mut i: usize = 0;
    while i < vs.len()
        invariant
            i <= vs.len(),
            pieces_view(out@) == values_pieces(f, string_views(vs@).take(i as int)),
        decreases vs.len() - i,
    {
        let ghost before = out@;
        let ghost t = string_views(vs@).take(i + 1);
        assert(t.drop_last() =~= string_views(vs@).take(i as int));
        let mut step = vec![SqlPiece::Sql(open_text(i == 0, " AND ("))];
        let mut term = term_pieces_of(f, &vs[i]);
        step.append(&mut term);
        step.push(SqlPiece::Sql(String::from_str(")")));
        out.append(&mut step);
        i += 1;
        assert(pieces_view(out@) =~= values_pieces(f, t));
    }
    assert(string_views(vs@).take(vs.len() as int) =~= string_views(vs@));
    out
}

fn groups_pieces_of(f: Facet, gs: &Vec<Vec<String>>) -> (r: Vec<SqlPiece>)
    ensures
        pieces_view(r@) == groups_pieces(f, gs@.map_values(|x: Vec<String>| string_views(x@))),
{
    let ghost gv = gs@.map_values(|x: Vec<String>| string_views(x@));
    let mut out: Vec<SqlPiece> = Vec::new();
    let mut i: usize = 0;
    while i < gs.len()
        invariant
            i <= gs.len(),
            gv == gs@.map_values(|x: Vec<String>| string_views(x@)),
            pieces_view(out@) == groups_pieces(f, gv.take(i as int)),
        decreases gs.len() - i,
    {
        let ghost t = gv.take(i + 1);
        assert(t.drop_last() =~= gv.take(i as int));
        assert(t.last() == string_views(gs@[i as int]@));
        let mut step = vec![SqlPiece::Sql(open_text(i == 0, " OR ("))];
        let mut vals = values_pieces_of(f, &gs[i]);
        step.append(&mut vals);
        step.push(SqlPiece::Sql(String::from_str(")")));
        out.append(&mut step);
        i += 1;
        assert(pieces_view(out@) =~= groups_pieces(f, t));
    }
    assert(gv.take(gs.len() as int) =~= gv);
    out
}

fn predicate_pieces_of(p: &Predicate) -> (r: Vec<SqlPiece>)
    ensures
        pieces_view(r@) == predicate_pieces(predicate_view(*p)),
{
    let head = if p.negated {
        String::from_str(" AND NOT (")
    } else {
        String::from_str(" AND (")
    };
    let mut r = vec![SqlPiece::Sql(head)];
    let mut body = groups_pieces_of(p.facet, &p.groups);
    r.append(&mut body);
    r.push(SqlPiece::Sql(String::from_str(")")));
    assert(pieces_view(r@) =~= predicate_pieces(predicate_view(*p)));
    r
}

fn exclusion_pieces_of(x: Exclusion) -> (r: Vec<SqlPiece>)
    ensures
        pieces_view(r@) == exclusion_pieces(x),
{
    let mut s = String::from_str(" AND NOT EXISTS (SELECT 1 FROM ");
    s.append(x.tag_type.relation().as_str());
    s.append(" WHERE archive_id = archives.id AND ");
    s.append(x.tag_type.id().as_str());
    s.append(" = ");
    let r = vec![SqlPiece::Sql(s), SqlPiece::Id(x.id), SqlPiece::Sql(String::from_str(")"))];
    assert(pieces_view(r@) =~= exclusion_pieces(x));
    r
}

/// The conditions of a search filter, to be appended to a query over
/// `archives`: the predicates, then the exclusions.
pub fn render_filter(filter: &SearchFilter) -> (r: Vec<SqlPiece>)
    ensures
        pieces_view(r@) == all_predicate_pieces(predicate_views(filter.predicates@))
            + all_exclusion_pieces(filter.exclusions@),
{
    let ghost pv = predicate_views(filter.predicates@);
    let mut out: Vec<SqlPiece> = Vec::new();
    let mut i: usize = 0;
    while i < filter.predicates.len()
        invariant
            i <= filter.predicates.len(),
            pv == predicate_views(filter.predicates@),
            pieces_view(out@) == all_predicate_pieces(pv.take(i as int)),
        decreases filter.predicates.len() - i,
    {
        let ghost t = pv.take(i + 1);
        assert(t.drop_last() =~= pv.take(i as int));
        let mut step = predicate_pieces_of(&filter.predicates[i]);
        out.append(&mut step);
        i += 1;
        assert(pieces_view(out@) =~= all_predicate_pieces(t));
    }
    assert(pv.take(filter.predicates.len() as int) =~= pv);
    let ghost head = pieces_view(out@);
    let mut j: usize = 0;
    while j < filter.exclusions.len()
        invariant
            j <= filter.exclusions.len(),
            pieces_view(out@) == head + all_exclusion_pieces(filter.exclusions@.take(j as int)),
        decreases filter.exclusions.len() - j,
    {
        let ghost t = filter.exclusions@.take(j + 1);
        assert(t.drop_last() =~= filter.exclusions@.take(j as int));
        assert(t.last() == filter.exclusions@[j as int]);
        let ghost before = out@;
        let mut step = exclusion_pieces_of(filter.exclusions[j]);
        let ghost added = step@;
        out.append(&mut step);
        assert(pieces_view(out@) =~= pieces_view(before) + pieces_view(added));
        assert(all_exclusion_pieces(t) == all_exclusion_pieces(t.drop_last()) + exclusion_pieces(t.last()));
        j += 1;
        assert(pieces_view(out@) =~= head + all_exclusion_pieces(t));
    }
    assert(filter.exclusions@.take(filter.exclusions.len() as int) =~= filter.exclusions@);
    out
}

pub open spec fn column_name(c: SortColumn) -> Seq<char> {
    match c {
        SortColumn::Rank => "rank"@,
        SortColumn::CreatedAt => "created_at"@,
        SortColumn::ReleasedAt => "released_at"@,
        SortColumn::Title => "archives.title"@,
        SortColumn::Pages => "pages"@,
    }
}

pub open spec fn direction(o: SortOrder) -> Seq<char> {
    match o {
        SortOrder::Asc => "ASC"@,
        SortOrder::Desc => "DESC"@,
    }
}

/// The `ORDER BY` clause of phase 1, every column in the same direction;
/// empty where there is no column.
pub open spec fn order_clause(cols: Seq<SortColumn>, o: SortOrder) -> Seq<char>
    decreases cols.len(),
{
    if cols.len() == 0 {
        Seq::empty()
    } else {
        order_clause(cols.drop_last(), o) + (if cols.len() == 1 { " ORDER BY "@ } else { ", "@ })
            + column_name(cols.last()) + " "@ + direction(o)
    }
}

fn column_text(c: SortColumn) -> (r: &'static str)
    ensures
        r@ == column_name(c),
{
    match c {
        SortColumn::Rank => "rank",
        SortColumn::CreatedAt => "created_at",
        SortColumn::ReleasedAt => "released_at",
        SortColumn::Title => "archives.title",
        SortColumn::Pages => "pages",
    }
}

/// Renders the `ORDER BY` clause of phase 1.
pub fn render_order(cols: &Vec<SortColumn>, o: SortOrder) -> (r: String)
    ensures
        r@ == order_clause(cols@, o),
{
    let dir = match o {
        SortOrder::Asc => "ASC",
        SortOrder::Desc => "DESC",
    };
    let mut s = String::new();
    let mut i: usize = 0;
    while i < cols.len()
        invariant
            i <= cols.len(),
            dir@ == direction(o),
            s@ == order_clause(cols@.take(i as int), o),
        decreases cols.len() - i,
    {
        let ghost t = cols@.take(i + 1);
        assert(t.drop_last() =~= cols@.take(i as int));
        if i == 0 {
            s.append(" ORDER BY ");
        } else {
            s.append(", ");
        }
        s.append(column_text(cols[i]));
        s.append(" ");
        s.append(dir);
        i += 1;
    }
    assert(cols@.take(cols.len() as int) =~= cols@);
    s
}

proof fn lemma_exclusion_rendered(xs: Seq<Exclusion>, x: Exclusion)
    requires
        xs.contains(x),
    ensures
        exists|k: int|
            0 <= k && k + 3 <= all_exclusion_pieces(xs).len() && #[trigger] all_exclusion_pieces(xs).subrange(k, k + 3)
                == exclusion_pieces(x),
    decreases xs.len(),
{
    let a = all_exclusion_pieces(xs.drop_last());
    let b = exclusion_pieces(xs.last());
    assert(all_exclusion_pieces(xs) == a + b);
    if xs.last() == x {
        assert((a + b).subrange(a.len() as int, a.len() as int + 3) =~= b);
    } else {
        let i = choose|i: int| 0 <= i < xs.len() && xs[i] == x;
        assert(xs.drop_last()[i] == x);
        lemma_exclusion_rendered(xs.drop_last(), x);
        let k = choose|k: int| 0 <= k && k + 3 <= a.len() && #[trigger] a.subrange(k, k + 3) == exclusion_pieces(x);
        assert((a + b).subrange(k, k + 3) =~= a.subrange(k, k + 3));
    }
}

/// Every well-formed blacklist entry renders its NOT EXISTS clause, with the
/// term's id bound, whatever the predicates of the search.
pub proof fn lemma_blacklist_rendered(preds: Seq<PredicateView>, blacklist: Seq<Seq<char>>, i: int)
    requires
        0 <= i < blacklist.len(),
        blacklist_entry(blacklist[i]) is Some,
    ensures
        exists|k: int|
            0 <= k && k + 3 <= (all_predicate_pieces(preds) + all_exclusion_pieces(blacklist_entries(blacklist))).len()
                && #[trigger] (all_predicate_pieces(preds) + all_exclusion_pieces(blacklist_entries(blacklist))).subrange(
                k,
                k + 3,
            ) == exclusion_pieces(blacklist_entry(blacklist[i])->0),
{
    let x = blacklist_entry(blacklist[i])->0;
    lemma_entry_kept(blacklist, i);
    let xs = blacklist_entries(blacklist);
    lemma_exclusion_rendered(xs, x);
    let p = all_predicate_pieces(preds);
    let e = all_exclusion_pieces(xs);
    let k = choose|k: int| 0 <= k && k + 3 <= e.len() && #[trigger] e.subrange(k, k + 3) == exclusion_pieces(x);
    assert((p + e).subrange(p.len() as int + k, p.len() as int + k + 3) =~= e.subrange(k, k + 3));
}

} // verus!
