//! The search-string compiler: sanitising a raw search string, separating its
//! facet filters from its free text, and turning the free text into a ranking
//! expression for the store's text-search engine.
use vstd::prelude::*;
use crate::text::{
    append_chars, chars_of, drop_empty, drop_empty_pieces, join, join_chars, normalize_ws, pieces,
    prefix_of, remove_all, remove_all_chars, split_any, split_chars, string_of, strip, strip_chars,
    trim_end, trim_end_chars, normalize_ws_chars,
};

verus! {

/// The facet-filter grammar: an optional `-`, a facet name, `:`, and a quoted or bare value.
pub const FACET_FILTER: &'static str = r#"(?i)-?(artist|circle|magazine|event|publisher|parody|tag|male|female|misc|other|title|pages):(".*?"|'.*?'|[^\s]+)"#;

/// The matches of a regular expression in a string, left to right, each as
/// its groups 0, 1 and 2.
pub uninterp spec fn captures_of(pattern: Seq<char>, s: Seq<char>) -> Seq<(Seq<char>, Seq<char>, Seq<char>)>;

/// The matches of the facet-filter grammar in a string, each as (whole match,
/// facet name, value).
pub open spec fn facet_filters_of(s: Seq<char>) -> Seq<(Seq<char>, Seq<char>, Seq<char>)> {
    captures_of(FACET_FILTER@, s)
}

/// The character sequences held by a list of filter matches.
pub open spec fn filter_views(v: Seq<(String, String, String)>) -> Seq<(Seq<char>, Seq<char>, Seq<char>)> {
    v.map_values(|t: (String, String, String)| (t.0@, t.1@, t.2@))
}

/// Relies on regex's `Regex::new` and `Regex::captures_iter`: the successive
/// non-overlapping matches of the pattern, each as its groups 0, 1 and 2.
/// The pattern is the facet-filter grammar, which compiles and whose groups
/// 1 and 2 take part in every match.
#[verifier::external_body]
fn regex_captures(pattern: &str, s: &str) -> (r: Vec<(String, String, String)>)
    requires
        pattern@ == FACET_FILTER@,
    ensures
        filter_views(r@) == captures_of(pattern@, s@),
{
    let re = regex::Regex::new(pattern).unwrap();
    re.captures_iter(s).map(|c| (c[0].to_string(), c[1].to_string(), c[2].to_string())).collect()
}

/// The facet-filter matches of a string.
pub(crate) fn facet_filters(s: &str) -> (r: Vec<(String, String, String)>)
    ensures
        filter_views(r@) == facet_filters_of(s@),
{
    regex_captures(FACET_FILTER, s)
}

/// The characters a raw search string is stripped of before anything else.
pub open spec fn operator_chars() -> Seq<char> {
    seq!['[', ']', '(', ')', '~', '&']
}

/// A raw search string with operator characters stripped and whitespace normalised.
pub open spec fn sanitized(s: Seq<char>) -> Seq<char> {
    normalize_ws(strip(s, operator_chars()))
}

/// `s` with every occurrence of each match's text removed, match by match.
pub open spec fn remove_matches(s: Seq<char>, ms: Seq<(Seq<char>, Seq<char>, Seq<char>)>) -> Seq<char>
    decreases ms.len(),
{
    if ms.len() == 0 {
        s
    } else {
        remove_all(remove_matches(s, ms.drop_last()), ms.last().0)
    }
}

/// The free text of a search string, given its facet-filter matches: the
/// filters removed, `:` dropped, whitespace normalised.
pub open spec fn free_text(s: Seq<char>, ms: Seq<(Seq<char>, Seq<char>, Seq<char>)>) -> Seq<char> {
    normalize_ws(strip(remove_matches(s, ms), seq![':']))
}

/// One search token: prefix match unless it ends in `$`, `!` for a leading `-`.
pub open spec fn ranked_token(t: Seq<char>) -> Seq<char> {
    let b = if t.len() > 0 && t.last() == '$' {
        trim_end(t, '$')
    } else {
        t + ":*"@
    };
    if b.len() > 0 && b[0] == '-' {
        seq!['!'] + b.skip(1)
    } else {
        b
    }
}

/// One `|`-alternative: its tokens, separated by spaces or `&`, ranked and joined by AND.
pub open spec fn ranked_alternative(a: Seq<char>) -> Seq<char> {
    join(ranked_tokens(drop_empty(split_any(a, seq![' ', '&']))), "&"@)
}

pub open spec fn ranked_tokens(ts: Seq<Seq<char>>) -> Seq<Seq<char>> {
    ts.map_values(|t: Seq<char>| ranked_token(t))
}

pub open spec fn ranked_alternatives(alts: Seq<Seq<char>>) -> Seq<Seq<char>> {
    alts.map_values(|a: Seq<char>| ranked_alternative(a))
}

pub open spec fn parenthesized_all(alts: Seq<Seq<char>>) -> Seq<Seq<char>> {
    alts.map_values(|a: Seq<char>| parenthesized(a))
}

pub open spec fn parenthesized(a: Seq<char>) -> Seq<char> {
    seq!['('] + a + seq![')']
}

/// The ranking expression of a free text: its non-empty alternatives, each
/// parenthesised and joined by OR where there are two or more.
pub open spec fn ranking(q: Seq<char>) -> Seq<char> {
    let alts = drop_empty(ranked_alternatives(split_any(q, seq!['|'])));
    if alts.len() <= 1 {
        join(alts, Seq::empty())
    } else {
        join(parenthesized_all(alts), "|"@)
    }
}

fn ranked_token_chars(t: &Vec<char>) -> (r: Vec<char>)
    ensures
        r@ == ranked_token(t@),
{
    let b = if t.len() > 0 && t[t.len() - 1] == '$' {
        trim_end_chars(t, '$')
    } else {
        let mut b = prefix_of(t, t.len());
        b.push(':');
        b.push('*');
        assert(b@ =~= t@ + ":*"@) by {
            reveal_strlit(":*");
        }
        b
    };
    if b.len() > 0 && b[0] == '-' {
        let mut r: Vec<char> = vec!['!'];
        let mut i: usize = 1;
        while i < b.len()
            invariant
                1 <= i <= b.len(),
                r@ == seq!['!'] + b@.subrange(1, i as int),
            decreases b.len() - i,
        {
            r.push(b[i]);
            i += 1;
            assert(r@ =~= seq!['!'] + b@.subrange(1, i as int));
        }
        assert(b@.subrange(1, b.len() as int) =~= b@.skip(1));
        r
    } else {
        b
    }
}

fn ranked_alternative_chars(a: &Vec<char>) -> (r: Vec<char>)
    ensures
        r@ == ranked_alternative(a@),
{
    let seps: Vec<char> = vec![' ', '&'];
    assert(seps@ =~= seq![' ', '&']);
    let words = drop_empty_pieces(&split_chars(a, &seps));
    let mut ranked: Vec<Vec<char>> = Vec::new();
    let mut i: usize = 0;
    while i < words.len()
        invariant
            i <= words.len(),
            pieces(ranked@) == ranked_tokens(pieces(words@).take(i as int)),
        decreases words.len() - i,
    {
        let t = ranked_token_chars(&words[i]);
        let ghost before = pieces(ranked@);
        ranked.push(t);
        assert(pieces(ranked@) =~= before.push(t@));
        i += 1;
        assert(ranked_tokens(pieces(words@).take(i as int)) =~= ranked_tokens(pieces(words@).take(i - 1)).push(ranked_token(words@[i - 1]@)));
    }
    assert(pieces(words@).take(words.len() as int) =~= pieces(words@));
    let and: Vec<char> = vec!['&'];
    assert(and@ =~= "&"@) by {
        reveal_strlit("&");
    }
    join_chars(&ranked, &and)
}

/// Compiles the free text of a search string into a ranking expression.
pub fn parse_query(query: &str) -> (r: String)
    ensures
        r@ == ranking(query@),
{
    let q = chars_of(query);
    let bar: Vec<char> = vec!['|'];
    assert(bar@ =~= seq!['|']);
    let alts = split_chars(&q, &bar);
    let mut ranked: Vec<Vec<char>> = Vec::new();
    let mut i: usize = 0;
    while i < alts.len()
        invariant
            i <= alts.len(),
            pieces(ranked@) == ranked_alternatives(pieces(alts@).take(i as int)),
        decreases alts.len() - i,
    {
        let t = ranked_alternative_chars(&alts[i]);
        let ghost before = pieces(ranked@);
        ranked.push(t);
        assert(pieces(ranked@) =~= before.push(t@));
        i += 1;
        assert(ranked_alternatives(pieces(alts@).take(i as int)) =~= ranked_alternatives(pieces(alts@).take(i - 1)).push(ranked_alternative(alts@[i - 1]@)));
    }
    assert(pieces(alts@).take(alts.len() as int) =~= pieces(alts@));
    let kept = drop_empty_pieces(&ranked);
    if kept.len() <= 1 {
        let none: Vec<char> = Vec::new();
        return string_of(&join_chars(&kept, &none));
    }
    let mut wrapped: Vec<Vec<char>> = Vec::new();
    let mut j: usize = 0;
    while j < kept.len()
        invariant
            j <= kept.len(),
            pieces(wrapped@) == parenthesized_all(pieces(kept@).take(j as int)),
        decreases kept.len() - j,
    {
        let mut w: Vec<char> = vec!['('];
        append_chars(&mut w, &kept[j]);
        w.push(')');
        assert(w@ =~= parenthesized(kept@[j as int]@));
        let ghost before = pieces(wrapped@);
        let ghost wv = w@;
        wrapped.push(w);
        assert(pieces(wrapped@) =~= before.push(wv));
        j += 1;
        assert(parenthesized_all(pieces(kept@).take(j as int)) =~= parenthesized_all(pieces(kept@).take(j - 1)).push(parenthesized(kept@[j - 1]@)));
    }
    assert(pieces(kept@).take(kept.len() as int) =~= pieces(kept@));
    let or: Vec<char> = vec!['|'];
    assert(or@ =~= "|"@) by {
        reveal_strlit("|");
    }
    string_of(&join_chars(&wrapped, &or))
}

fn operator_char_list() -> (r: Vec<char>)
    ensures
        r@ == operator_chars(),
{
    let r: Vec<char> = vec!['[', ']', '(', ')', '~', '&'];
    assert(r@ =~= operator_chars());
    r
}

/// Strips operator characters from a raw search string and normalises its whitespace.
pub fn sanitize(raw: &str) -> (r: String)
    ensures
        r@ == sanitized(raw@),
{
    let q = chars_of(raw);
    let ops = operator_char_list();
    string_of(&normalize_ws_chars(&strip_chars(&q, &ops)))
}

/// The free text of `value` once the given facet-filter matches are taken out of it.
pub fn strip_filters(value: &str, filters: &Vec<(String, String, String)>) -> (r: String)
    ensures
        r@ == free_text(value@, filter_views(filters@)),
{
    let mut s = chars_of(value);
    let mut i: usize = 0;
    while i < filters.len()
        invariant
            i <= filters.len(),
            s@ == remove_matches(value@, filter_views(filters@).take(i as int)),
        decreases filters.len() - i,
    {
        let pat = chars_of(filters[i].0.as_str());
        s = remove_all_chars(&s, &pat);
        i += 1;
        assert(filter_views(filters@).take(i as int).drop_last() =~= filter_views(filters@).take(i - 1));
    }
    assert(filter_views(filters@).take(filters.len() as int) =~= filter_views(filters@));
    let colon: Vec<char> = vec![':'];
    assert(colon@ =~= seq![':']);
    string_of(&normalize_ws_chars(&strip_chars(&s, &colon)))
}

/// The free text of a search string: its facet filters removed, `:` dropped,
/// whitespace normalised.
pub fn clean_value(query: &str) -> (r: String)
    ensures
        r@ == free_text(query@, facet_filters_of(query@)),
{
    let filters = facet_filters(query);
    strip_filters(query, &filters)
}

/// The ranking expression of a raw search string; empty where it has no free text.
pub fn ranking_expression(raw: &str) -> (r: String)
    ensures
        r@ == ranking(free_text(sanitized(raw@), facet_filters_of(sanitized(raw@)))),
{
    let value = sanitize(raw);
    let clean = clean_value(value.as_str());
    parse_query(clean.as_str())
}

} // verus!
