//! The predicate builder: facet filters of a search string become facet
//! predicates, blacklist entries become exclusions, and together they decide
//! which archives a search admits.
use vstd::prelude::*;
use crate::query::{facet_filters, facet_filters_of, filter_views};
use crate::registry::{Facet, TagType, blacklist_namespace, facet_by_name, facet_named, tag_type_of_namespace};
use crate::text::{
    chars_of, pieces, replace_char, replace_char_chars, split_any, split_chars, string_of, strip,
    strip_chars, trim_both, trim_both_chars,
};

verus! {

/// One facet filter: the archive must (or, negated, must not) hold, for some
/// group, a matching term for every value of the group.
#[derive(Debug, Clone)]
pub struct Predicate {
    pub facet: Facet,
    pub negated: bool,
    /// OR across groups, AND within a group; values use `%` as the wildcard.
    pub groups: Vec<Vec<String>>,
}

/// The value of a predicate: facet, negation and groups of values.
pub type PredicateView = (Facet, bool, Seq<Seq<Seq<char>>>);

pub open spec fn string_views(v: Seq<String>) -> Seq<Seq<char>> {
    v.map_values(|s: String| s@)
}

pub open spec fn group_views(g: Seq<Vec<String>>) -> Seq<Seq<Seq<char>>> {
    g.map_values(|x: Vec<String>| string_views(x@))
}

pub open spec fn predicate_view(p: Predicate) -> PredicateView {
    (p.facet, p.negated, group_views(p.groups@))
}

pub open spec fn predicate_views(ps: Seq<Predicate>) -> Seq<PredicateView> {
    ps.map_values(|p: Predicate| predicate_view(p))
}

/// A filter value with quotes trimmed, `*` made the store's wildcard `%`, and parentheses dropped.
pub open spec fn term_text(v: Seq<char>) -> Seq<char> {
    strip(replace_char(trim_both(trim_both(v, '"'), '\''), '*', '%'), seq!['(', ')'])
}

pub open spec fn and_groups(gs: Seq<Seq<char>>) -> Seq<Seq<Seq<char>>> {
    gs.map_values(|g: Seq<char>| split_any(g, seq!['&']))
}

/// The groups of a filter value: split on `|`, each part split on `&`.
pub open spec fn value_groups(v: Seq<char>) -> Seq<Seq<Seq<char>>> {
    and_groups(split_any(term_text(v), seq!['|']))
}

/// The predicate of one filter match; `None` where its facet has no registry entry.
pub open spec fn predicate_of(m: (Seq<char>, Seq<char>, Seq<char>)) -> Option<PredicateView> {
    match facet_named(m.1) {
        Some(f) => Some((f, m.0.len() > 0 && m.0[0] == '-', value_groups(m.2))),
        None => None,
    }
}

/// The predicates of a list of filter matches, in order.
pub open spec fn predicates_of(ms: Seq<(Seq<char>, Seq<char>, Seq<char>)>) -> Seq<PredicateView>
    decreases ms.len(),
{
    if ms.len() == 0 {
        Seq::empty()
    } else {
        match predicate_of(ms.last()) {
            Some(p) => predicates_of(ms.drop_last()).push(p),
            None => predicates_of(ms.drop_last()),
        }
    }
}

fn strings_of(parts: &Vec<Vec<char>>) -> (r: Vec<String>)
    ensures
        string_views(r@) == pieces(parts@),
{
    let mut r: Vec<String> = Vec::new();
    let mut i: usize = 0;
    while i < parts.len()
        invariant
            i <= parts.len(),
            string_views(r@) =~= pieces(parts@).take(i as int),
        decreases parts.len() - i,
    {
        let ghost before = string_views(r@);
        let piece = string_of(&parts[i]);
        r.push(piece);
        assert(string_views(r@) =~= before.push(piece@));
        i += 1;
        assert(pieces(parts@).take(i as int) =~= pieces(parts@).take(i - 1).push(parts@[i - 1]@));
    }
    assert(pieces(parts@).take(parts.len() as int) =~= pieces(parts@));
    r
}

fn value_groups_of(v: &str) -> (r: Vec<Vec<String>>)
    ensures
        group_views(r@) == value_groups(v@),
{
    let t = trim_both_chars(&trim_both_chars(&chars_of(v), '"'), '\'');
    let parens: Vec<char> = vec!['(', ')'];
    assert(parens@ =~= seq!['(', ')']);
    let t = strip_chars(&replace_char_chars(&t, '*', '%'), &parens);
    let bar: Vec<char> = vec!['|'];
    assert(bar@ =~= seq!['|']);
    let amp: Vec<char> = vec!['&'];
    assert(amp@ =~= seq!['&']);
    let ors = split_chars(&t, &bar);
    let mut r: Vec<Vec<String>> = Vec::new();
    let mut i: usize = 0;
    while i < ors.len()
        invariant
            i <= ors.len(),
            amp@ == seq!['&'],
            group_views(r@) =~= and_groups(pieces(ors@).take(i as int)),
        decreases ors.len() - i,
    {
        let g = strings_of(&split_chars(&ors[i], &amp));
        let ghost before = group_views(r@);
        let ghost gv = string_views(g@);
        r.push(g);
        assert(group_views(r@) =~= before.push(gv));
        i += 1;
        assert(and_groups(pieces(ors@).take(i as int)) =~= and_groups(pieces(ors@).take(i - 1)).push(split_any(ors@[i - 1]@, seq!['&'])));
    }
    assert(pieces(ors@).take(ors.len() as int) =~= pieces(ors@));
    r
}

/// Turns facet-filter matches, each (whole match, facet name, value), into
/// predicates; matches whose facet has no registry entry give none.
pub fn compile_predicates(filters: &Vec<(String, String, String)>) -> (r: Vec<Predicate>)
    ensures
        predicate_views(r@) == predicates_of(filter_views(filters@)),
{
    let mut r: Vec<Predicate> = Vec::new();
    let mut i: usize = 0;
    while i < filters.len()
        invariant
            i <= filters.len(),
            predicate_views(r@) == predicates_of(filter_views(filters@).take(i as int)),
        decreases filters.len() - i,
    {
        let ghost ms = filter_views(filters@).take(i + 1);
        assert(ms.drop_last() =~= filter_views(filters@).take(i as int));
        let whole = chars_of(filters[i].0.as_str());
        let name = chars_of(filters[i].1.as_str());
        match facet_by_name(&name) {
            Some(f) => {
                let p = Predicate {
                    facet: f,
                    negated: whole.len() > 0 && whole[0] == '-',
                    groups: value_groups_of(filters[i].2.as_str()),
                };
                let ghost before = predicate_views(r@);
                r.push(p);
                assert(predicate_views(r@) =~= before.push(predicate_view(p)));
            },
            None => {},
        }
        i += 1;
    }
    assert(filter_views(filters@).take(filters.len() as int) =~= filter_views(filters@));
    r
}

/// The facet predicates of a raw search string.
pub fn facet_predicates(value: &str) -> (r: Vec<Predicate>)
    ensures
        predicate_views(r@) == predicates_of(facet_filters_of(value@)),
{
    let filters = facet_filters(value);
    compile_predicates(&filters)
}

/// A blacklist entry: archives linked to this term are never admitted.
#[derive(PartialEq, Eq, Debug, Clone, Copy, Structural)]
pub struct Exclusion {
    pub tag_type: TagType,
    pub id: i64,
}

/// Whether `c` is an ASCII digit.
pub open spec fn is_digit(c: char) -> bool {
    '0' <= c && c <= '9'
}

/// The value of a string of decimal digits.
pub open spec fn decimal(d: Seq<char>) -> int
    decreases d.len(),
{
    if d.len() == 0 {
        0
    } else {
        decimal(d.drop_last()) * 10 + ((d.last() as u32) as int - ('0' as u32) as int)
    }
}

/// The digits part of a numeral: the text after an optional sign.
pub open spec fn unsigned_part(s: Seq<char>) -> Seq<char> {
    if s.len() > 0 && (s[0] == '-' || s[0] == '+') {
        s.skip(1)
    } else {
        s
    }
}

pub open spec fn all_digits(d: Seq<char>) -> bool {
    forall|i: int| 0 <= i < d.len() ==> is_digit(#[trigger] d[i])
}

/// The `i64` a string spells: an optional `+` or `-`, then one or more ASCII
/// digits, of a value in range.
pub open spec fn i64_text(s: Seq<char>) -> Option<i64> {
    let d = unsigned_part(s);
    let v = if s.len() > 0 && s[0] == '-' {
        -decimal(d)
    } else {
        decimal(d)
    };
    if d.len() > 0 && all_digits(d) && i64::MIN <= v <= i64::MAX {
        Some(v as i64)
    } else {
        None
    }
}

proof fn lemma_decimal_nonneg(d: Seq<char>)
    requires
        forall|i: int| 0 <= i < d.len() ==> is_digit(#[trigger] d[i]),
    ensures
        decimal(d) >= 0,
    decreases d.len(),
{
    if d.len() > 0 {
        lemma_decimal_nonneg(d.drop_last());
        assert(is_digit(d[d.len() - 1]));
    }
}

proof fn lemma_decimal_grows(d: Seq<char>, k: int)
    requires
        0 <= k <= d.len(),
        forall|i: int| 0 <= i < d.len() ==> is_digit(#[trigger] d[i]),
    ensures
        decimal(d) >= decimal(d.take(k)),
    decreases d.len(),
{
    if k == d.len() {
        assert(d.take(k) =~= d);
    } else {
        lemma_decimal_grows(d.drop_last(), k);
        assert(d.drop_last().take(k) =~= d.take(k));
        lemma_decimal_nonneg(d.drop_last());
        assert(is_digit(d[d.len() - 1]));
    }
}

/// Parses an optional sign followed by decimal digits into an `i64`; `None`
/// where the text has another shape or the value is out of range.
pub fn parse_i64(s: &str) -> (r: Option<i64>)
    ensures
        r == i64_text(s@),
{
    let c = chars_of(s);
    let neg = c.len() > 0 && c[0] == '-';
    let start: usize = if c.len() > 0 && (c[0] == '-' || c[0] == '+') {
        1
    } else {
        0
    };
    let ghost d = c@.skip(start as int);
    assert(d == unsigned_part(s@));
    if start >= c.len() {
        return None;
    }
    let limit: u128 = if neg {
        0x8000_0000_0000_0000
    } else {
        0x7FFF_FFFF_FFFF_FFFF
    };
    let mut acc: u128 = 0;
    let mut i: usize = start;
    assert(d.take(0) =~= Seq::<char>::empty());
    while i < c.len()
        invariant
            start <= i <= c.len(),
            c@ == s@,
            d == c@.skip(start as int),
            d == unsigned_part(s@),
            neg == (s@.len() > 0 && s@[0] == '-'),
            limit == (if neg { 0x8000_0000_0000_0000u128 } else { 0x7FFF_FFFF_FFFF_FFFFu128 }),
            acc as int == decimal(d.take(i - start)),
            acc <= limit <= 0x8000_0000_0000_0000,
            forall|j: int| 0 <= j < i - start ==> is_digit(#[trigger] d[j]),
        decreases c.len() - i,
    {
        let ch = c[i];
        assert(d[i - start] == ch);
        if !('0' <= ch && ch <= '9') {
            assert(!is_digit(d[i - start]));
            assert(!all_digits(d));
            assert(i64_text(s@) is None);
            return None;
        }
        let digit = (ch as u32 - '0' as u32) as u128;
        let next = acc * 10 + digit;
        assert(d.take(i - start + 1).drop_last() =~= d.take(i - start));
        if next > limit {
            proof {
                if all_digits(d) {
                    lemma_decimal_grows(d, i - start + 1);
                    assert(decimal(d) > limit);
                }
                assert(i64_text(s@) is None);
            }
            return None;
        }
        acc = next;
        i += 1;
    }
    assert(d.take(i - start) =~= d);
    assert(all_digits(d));
    if neg {
        Some((0 - (acc as i128)) as i64)
    } else {
        Some(acc as i64)
    }
}

/// The exclusion a blacklist entry `namespace:id` names; `None` where the id
/// is missing or is not a number.
pub open spec fn blacklist_entry(e: Seq<char>) -> Option<Exclusion> {
    let parts = split_any(e, seq![':']);
    if parts.len() >= 2 {
        match i64_text(parts[1]) {
            Some(id) => Some(Exclusion { tag_type: blacklist_namespace(parts[0]), id }),
            None => None,
        }
    } else {
        None
    }
}

/// The exclusions of a blacklist, in order; malformed entries give none.
pub open spec fn blacklist_entries(es: Seq<Seq<char>>) -> Seq<Exclusion>
    decreases es.len(),
{
    if es.len() == 0 {
        Seq::empty()
    } else {
        match blacklist_entry(es.last()) {
            Some(x) => blacklist_entries(es.drop_last()).push(x),
            None => blacklist_entries(es.drop_last()),
        }
    }
}

fn exclusion_of(e: &str) -> (r: Option<Exclusion>)
    ensures
        r == blacklist_entry(e@),
{
    let colon: Vec<char> = vec![':'];
    assert(colon@ =~= seq![':']);
    let parts = split_chars(&chars_of(e), &colon);
    if parts.len() >= 2 {
        let id_text = string_of(&parts[1]);
        match parse_i64(id_text.as_str()) {
            Some(id) => Some(Exclusion { tag_type: tag_type_of_namespace(&parts[0]), id }),
            None => None,
        }
    } else {
        None
    }
}

/// The exclusions of a blacklist of `namespace:id` entries.
pub fn parse_blacklist(blacklist: &Vec<String>) -> (r: Vec<Exclusion>)
    ensures
        r@ == blacklist_entries(string_views(blacklist@)),
{
    let mut r: Vec<Exclusion> = Vec::new();
    let mut i: usize = 0;
    while i < blacklist.len()
        invariant
            i <= blacklist.len(),
            r@ == blacklist_entries(string_views(blacklist@).take(i as int)),
        decreases blacklist.len() - i,
    {
        assert(string_views(blacklist@).take(i + 1).drop_last() =~= string_views(blacklist@).take(i as int));
        match exclusion_of(blacklist[i].as_str()) {
            Some(x) => r.push(x),
            None => {},
        }
        i += 1;
    }
    assert(string_views(blacklist@).take(blacklist.len() as int) =~= string_views(blacklist@));
    r
}

/// Everything a search constrains besides its ranking expression.
#[derive(Debug, Clone)]
pub struct SearchFilter {
    pub predicates: Vec<Predicate>,
    pub exclusions: Vec<Exclusion>,
}

/// Builds the filter of a search: the facet predicates of its raw string and
/// the exclusions of its blacklist.
pub fn build_filter(value: &str, blacklist: &Vec<String>) -> (r: SearchFilter)
    ensures
        predicate_views(r.predicates@) == predicates_of(facet_filters_of(value@)),
        r.exclusions@ == blacklist_entries(string_views(blacklist@)),
{
    SearchFilter { predicates: facet_predicates(value), exclusions: parse_blacklist(blacklist) }
}

/// Every value of the group has a matching term under the facet.
pub open spec fn group_holds(f: Facet, g: Seq<Seq<char>>, hit: spec_fn(Facet, Seq<char>) -> bool) -> bool {
    forall|k: int| 0 <= k < g.len() ==> #[trigger] hit(f, g[k])
}

/// Whether an archive meets a predicate, where `hit(f, v)` says that it holds
/// a term under facet `f` whose name or slug matches `v`.
pub open spec fn predicate_holds(p: PredicateView, hit: spec_fn(Facet, Seq<char>) -> bool) -> bool {
    let some_group = exists|j: int| 0 <= j < p.2.len() && #[trigger] group_holds(p.0, p.2[j], hit);
    if p.1 {
        !some_group
    } else {
        some_group
    }
}

/// Whether a search with these predicates and exclusions admits an archive
/// whose term matches are `hit` and whose relations are `links`.
pub open spec fn admits(
    preds: Seq<PredicateView>,
    excl: Seq<Exclusion>,
    hit: spec_fn(Facet, Seq<char>) -> bool,
    links: Set<(TagType, i64)>,
) -> bool {
    &&& forall|i: int| 0 <= i < preds.len() ==> predicate_holds(#[trigger] preds[i], hit)
    &&& forall|i: int| 0 <= i < excl.len() ==> !links.contains((#[trigger] excl[i].tag_type, excl[i].id))
}

pub(crate) proof fn lemma_entry_kept(es: Seq<Seq<char>>, i: int)
    requires
        0 <= i < es.len(),
        blacklist_entry(es[i]) is Some,
    ensures
        blacklist_entries(es).contains(blacklist_entry(es[i])->0),
    decreases es.len(),
{
    if i == es.len() - 1 {
        assert(blacklist_entries(es).last() == blacklist_entry(es[i])->0);
    } else {
        lemma_entry_kept(es.drop_last(), i);
        let x = blacklist_entry(es[i])->0;
        let k = choose|k: int| 0 <= k < blacklist_entries(es.drop_last()).len() && blacklist_entries(es.drop_last())[k] == x;
        assert(blacklist_entries(es)[k] == x);
    }
}

/// A blacklisted term keeps every archive linked to it out of the results,
/// whatever the free text and the facet predicates.
pub proof fn lemma_blacklist_excludes_linked(
    preds: Seq<PredicateView>,
    blacklist: Seq<Seq<char>>,
    i: int,
    hit: spec_fn(Facet, Seq<char>) -> bool,
    links: Set<(TagType, i64)>,
)
    requires
        0 <= i < blacklist.len(),
        blacklist_entry(blacklist[i]) is Some,
        links.contains((blacklist_entry(blacklist[i])->0.tag_type, blacklist_entry(blacklist[i])->0.id)),
    ensures
        !admits(preds, blacklist_entries(blacklist), hit, links),
{
    lemma_entry_kept(blacklist, i);
}

} // verus!
