//! Character-sequence helpers shared by the query compiler, the predicate
//! builder and the renderer.
use vstd::prelude::*;
use vstd::string::*;

verus! {

/// The characters of a string, in order.
pub fn chars_of(s: &str) -> (r: Vec<char>)
    ensures
        r@ == s@,
{
    let n = s.unicode_len();
    let mut r: Vec<char> = Vec::new();
    let mut i: usize = 0;
    while i < n
        invariant
            i <= n == s@.len(),
            r@ == s@.take(i as int),
        decreases n - i,
    {
        r.push(s.get_char(i));
        i += 1;
        assert(r@ =~= s@.take(i as int));
    }
    assert(s@.take(n as int) =~= s@);
    r
}

/// Relies on `String::from_iter` over `char`: the string of exactly these characters.
#[verifier::external_body]
pub(crate) fn string_of(v: &Vec<char>) -> (r: String)
    ensures
        r@ == v@,
{
    String::from_iter(v.iter())
}

/// The character sequences held by a vector of character vectors.
pub open spec fn pieces(v: Seq<Vec<char>>) -> Seq<Seq<char>> {
    v.map_values(|x: Vec<char>| x@)
}

/// Whether `c` is one of `set`.
pub open spec fn one_of(c: char, set: Seq<char>) -> bool {
    set.contains(c)
}

pub fn contains_char(set: &Vec<char>, c: char) -> (r: bool)
    ensures
        r == one_of(c, set@),
{
    let mut i: usize = 0;
    while i < set.len()
        invariant
            i <= set.len(),
            forall|j: int| 0 <= j < i ==> set@[j] != c,
        decreases set.len() - i,
    {
        if set[i] == c {
            return true;
        }
        i += 1;
    }
    false
}

/// The pieces of `s` between separators drawn from `seps`; always at least one piece.
pub open spec fn split_any(s: Seq<char>, seps: Seq<char>) -> Seq<Seq<char>>
    decreases s.len(),
{
    if s.len() == 0 {
        seq![Seq::<char>::empty()]
    } else {
        let r = split_any(s.drop_last(), seps);
        if one_of(s.last(), seps) {
            r.push(Seq::<char>::empty())
        } else {
            r.update(r.len() - 1, r.last().push(s.last()))
        }
    }
}

pub proof fn lemma_split_any_nonempty(s: Seq<char>, seps: Seq<char>)
    ensures
        split_any(s, seps).len() >= 1,
    decreases s.len(),
{
    if s.len() > 0 {
        lemma_split_any_nonempty(s.drop_last(), seps);
    }
}

pub fn split_chars(s: &Vec<char>, seps: &Vec<char>) -> (r: Vec<Vec<char>>)
    ensures
        pieces(r@) == split_any(s@, seps@),
{
    let mut done: Vec<Vec<char>> = Vec::new();
    let mut cur: Vec<char> = Vec::new();
    let mut i: usize = 0;
    while i < s.len()
        invariant
            i <= s.len(),
            pieces(done@).push(cur@) == split_any(s@.take(i as int), seps@),
        decreases s.len() - i,
    {
        let c = s[i];
        proof {
            assert(s@.take(i + 1).drop_last() == s@.take(i as int));
            lemma_split_any_nonempty(s@.take(i as int), seps@);
        }
        if contains_char(seps, c) {
            let ghost before = pieces(done@);
            let ghost piece = cur@;
            done.push(cur);
            cur = Vec::new();
            proof {
                assert(pieces(done@) =~= before.push(piece));
                assert(pieces(done@).push(cur@) =~= split_any(s@.take(i + 1), seps@));
            }
        } else {
            cur.push(c);
            proof {
                let prev = split_any(s@.take(i as int), seps@);
                assert(pieces(done@).push(cur@) =~= prev.update(prev.len() - 1, prev.last().push(c)));
            }
        }
        i += 1;
    }
    assert(s@.take(s.len() as int) == s@);
    let ghost before = pieces(done@);
    let ghost piece = cur@;
    done.push(cur);
    assert(pieces(done@) =~= before.push(piece));
    done
}

/// Appends the characters of `src` to `out`.
pub fn append_chars(out: &mut Vec<char>, src: &Vec<char>)
    ensures
        final(out)@ == old(out)@ + src@,
{
    let mut i: usize = 0;
    while i < src.len()
        invariant
            i <= src.len(),
            out@ == old(out)@ + src@.take(i as int),
        decreases src.len() - i,
    {
        out.push(src[i]);
        i += 1;
        assert(out@ =~= old(out)@ + src@.take(i as int));
    }
    assert(src@.take(src.len() as int) =~= src@);
}

/// The first `n` characters of `s`.
pub fn prefix_of(s: &Vec<char>, n: usize) -> (r: Vec<char>)
    requires
        n <= s.len(),
    ensures
        r@ == s@.take(n as int),
{
    let mut r: Vec<char> = Vec::new();
    let mut i: usize = 0;
    while i < n
        invariant
            i <= n <= s.len(),
            r@ == s@.take(i as int),
        decreases n - i,
    {
        r.push(s[i]);
        i += 1;
        assert(r@ =~= s@.take(i as int));
    }
    r
}

/// The pieces joined, with `sep` between two neighbours.
pub open spec fn join(parts: Seq<Seq<char>>, sep: Seq<char>) -> Seq<char>
    decreases parts.len(),
{
    if parts.len() == 0 {
        Seq::empty()
    } else if parts.len() == 1 {
        parts[0]
    } else {
        join(parts.drop_last(), sep) + sep + parts.last()
    }
}

pub fn join_chars(parts: &Vec<Vec<char>>, sep: &Vec<char>) -> (r: Vec<char>)
    ensures
        r@ == join(pieces(parts@), sep@),
{
    let mut out: Vec<char> = Vec::new();
    let mut i: usize = 0;
    while i < parts.len()
        invariant
            i <= parts.len(),
            out@ == join(pieces(parts@).take(i as int), sep@),
        decreases parts.len() - i,
    {
        proof {
            assert(pieces(parts@).take(i + 1).drop_last() =~= pieces(parts@).take(i as int));
        }
        if i > 0 {
            append_chars(&mut out, sep);
        }
        append_chars(&mut out, &parts[i]);
        i += 1;
        proof {
            if i == 1 {
                assert(out@ =~= join(pieces(parts@).take(i as int), sep@));
            }
        }
    }
    assert(pieces(parts@).take(parts.len() as int) =~= pieces(parts@));
    out
}

/// The pieces that hold at least one character, in order.
pub open spec fn drop_empty(parts: Seq<Seq<char>>) -> Seq<Seq<char>>
    decreases parts.len(),
{
    if parts.len() == 0 {
        parts
    } else if parts.last().len() > 0 {
        drop_empty(parts.drop_last()).push(parts.last())
    } else {
        drop_empty(parts.drop_last())
    }
}

pub fn drop_empty_pieces(parts: &Vec<Vec<char>>) -> (r: Vec<Vec<char>>)
    ensures
        pieces(r@) == drop_empty(pieces(parts@)),
{
    let mut out: Vec<Vec<char>> = Vec::new();
    let mut i: usize = 0;
    while i < parts.len()
        invariant
            i <= parts.len(),
            pieces(out@) == drop_empty(pieces(parts@).take(i as int)),
        decreases parts.len() - i,
    {
        proof {
            assert(pieces(parts@).take(i + 1).drop_last() =~= pieces(parts@).take(i as int));
        }
        let ghost t = pieces(parts@).take(i + 1);
        let ghost before = pieces(out@);
        assert(t.last() == parts@[i as int]@);
        if parts[i].len() > 0 {
            let c = prefix_of(&parts[i], parts[i].len());
            assert(c@ =~= parts@[i as int]@);
            out.push(c);
            assert(pieces(out@) =~= before.push(c@));
            assert(drop_empty(t) == drop_empty(t.drop_last()).push(t.last()));
        } else {
            assert(drop_empty(t) == drop_empty(t.drop_last()));
        }
        i += 1;
    }
    assert(pieces(parts@).take(parts.len() as int) =~= pieces(parts@));
    out
}

/// `s` without the characters of `set`.
pub open spec fn strip(s: Seq<char>, set: Seq<char>) -> Seq<char>
    decreases s.len(),
{
    if s.len() == 0 {
        s
    } else if one_of(s.last(), set) {
        strip(s.drop_last(), set)
    } else {
        strip(s.drop_last(), set).push(s.last())
    }
}

pub fn strip_chars(s: &Vec<char>, set: &Vec<char>) -> (r: Vec<char>)
    ensures
        r@ == strip(s@, set@),
{
    let mut out: Vec<char> = Vec::new();
    let mut i: usize = 0;
    while i < s.len()
        invariant
            i <= s.len(),
            out@ == strip(s@.take(i as int), set@),
        decreases s.len() - i,
    {
        proof {
            assert(s@.take(i + 1).drop_last() =~= s@.take(i as int));
        }
        let ghost t = s@.take(i + 1);
        assert(t.last() == s@[i as int]);
        if !contains_char(set, s[i]) {
            out.push(s[i]);
            assert(strip(t, set@) == strip(t.drop_last(), set@).push(t.last()));
        } else {
            assert(strip(t, set@) == strip(t.drop_last(), set@));
        }
        i += 1;
    }
    assert(s@.take(s.len() as int) =~= s@);
    out
}

/// `s` with every non-overlapping occurrence of `pat`, scanned from the left, removed.
pub open spec fn remove_all(s: Seq<char>, pat: Seq<char>) -> Seq<char>
    decreases s.len(),
{
    if s.len() == 0 {
        s
    } else if 0 < pat.len() <= s.len() && s.take(pat.len() as int) == pat {
        remove_all(s.skip(pat.len() as int), pat)
    } else {
        seq![s[0]] + remove_all(s.skip(1), pat)
    }
}

/// Whether `pat` occurs in `s` at position `at`.
fn occurs_at(s: &Vec<char>, at: usize, pat: &Vec<char>) -> (r: bool)
    requires
        at <= s.len(),
    ensures
        r == (pat.len() <= s.len() - at && s@.skip(at as int).take(pat.len() as int) == pat@),
{
    if pat.len() > s.len() - at {
        return false;
    }
    let mut j: usize = 0;
    while j < pat.len()
        invariant
            j <= pat.len() <= s.len() - at,
            forall|k: int| 0 <= k < j ==> s@[at + k] == pat@[k],
        decreases pat.len() - j,
    {
        if s[at + j] != pat[j] {
            assert(s@.skip(at as int).take(pat.len() as int)[j as int] != pat@[j as int]);
            return false;
        }
        j += 1;
    }
    assert(s@.skip(at as int).take(pat.len() as int) =~= pat@);
    true
}

pub fn remove_all_chars(s: &Vec<char>, pat: &Vec<char>) -> (r: Vec<char>)
    ensures
        r@ == remove_all(s@, pat@),
{
    let mut out: Vec<char> = Vec::new();
    let mut i: usize = 0;
    assert(s@.skip(0) =~= s@);
    while i < s.len()
        invariant
            i <= s.len(),
            remove_all(s@, pat@) == out@ + remove_all(s@.skip(i as int), pat@),
        decreases s.len() - i,
    {
        let ghost rest = s@.skip(i as int);
        if pat.len() > 0 && occurs_at(s, i, pat) {
            assert(rest.skip(pat.len() as int) =~= s@.skip(i + pat.len()));
            i += pat.len();
        } else {
            assert(rest.skip(1) =~= s@.skip(i + 1));
            assert(rest[0] == s@[i as int]);
            out.push(s[i]);
            proof {
                let o = out@.drop_last();
                assert(out@ =~= o + seq![s@[i as int]]);
                assert(out@ + remove_all(s@.skip(i + 1), pat@) =~= o + (seq![s@[i as int]] + remove_all(rest.skip(1), pat@)));
            }
            i += 1;
        }
    }
    assert(remove_all(s@.skip(i as int), pat@) =~= Seq::<char>::empty());
    assert(out@ + Seq::<char>::empty() =~= out@);
    out
}

/// `s` without the run of `c` at its end.
pub open spec fn trim_end(s: Seq<char>, c: char) -> Seq<char>
    decreases s.len(),
{
    if s.len() > 0 && s.last() == c {
        trim_end(s.drop_last(), c)
    } else {
        s
    }
}

pub fn trim_end_chars(s: &Vec<char>, c: char) -> (r: Vec<char>)
    ensures
        r@ == trim_end(s@, c),
{
    let mut n: usize = s.len();
    assert(s@.take(n as int) =~= s@);
    while n > 0 && s[n - 1] == c
        invariant
            n <= s.len(),
            trim_end(s@, c) == trim_end(s@.take(n as int), c),
        decreases n,
    {
        assert(s@.take(n as int).drop_last() =~= s@.take(n - 1));
        n -= 1;
    }
    prefix_of(s, n)
}

/// The characters taken as whitespace when a search string is normalised:
/// those with the Unicode `White_Space` property.
pub open spec fn whitespace() -> Seq<char> {
    seq![
        '\t', '\n', '\x0B', '\x0C', '\r', ' ', '\u{85}', '\u{A0}', '\u{1680}', '\u{2000}', '\u{2001}',
        '\u{2002}', '\u{2003}', '\u{2004}', '\u{2005}', '\u{2006}', '\u{2007}', '\u{2008}', '\u{2009}',
        '\u{200A}', '\u{2028}', '\u{2029}', '\u{202F}', '\u{205F}', '\u{3000}',
    ]
}

pub fn whitespace_chars() -> (r: Vec<char>)
    ensures
        r@ == whitespace(),
{
    let r: Vec<char> = vec![
        '\t', '\n', '\x0B', '\x0C', '\r', ' ', '\u{85}', '\u{A0}', '\u{1680}', '\u{2000}', '\u{2001}',
        '\u{2002}', '\u{2003}', '\u{2004}', '\u{2005}', '\u{2006}', '\u{2007}', '\u{2008}', '\u{2009}',
        '\u{200A}', '\u{2028}', '\u{2029}', '\u{202F}', '\u{205F}', '\u{3000}',
    ];
    assert(r@ =~= whitespace());
    r
}

/// `s` with leading and trailing whitespace dropped and each inner run of it made one space.
pub open spec fn normalize_ws(s: Seq<char>) -> Seq<char> {
    join(drop_empty(split_any(s, whitespace())), seq![' '])
}

pub fn normalize_ws_chars(s: &Vec<char>) -> (r: Vec<char>)
    ensures
        r@ == normalize_ws(s@),
{
    let ws = whitespace_chars();
    let words = drop_empty_pieces(&split_chars(s, &ws));
    let space: Vec<char> = vec![' '];
    assert(space@ =~= seq![' ']);
    join_chars(&words, &space)
}

/// `s` without the run of `c` at its start.
pub open spec fn trim_start(s: Seq<char>, c: char) -> Seq<char>
    decreases s.len(),
{
    if s.len() > 0 && s[0] == c {
        trim_start(s.skip(1), c)
    } else {
        s
    }
}

/// `s` without the runs of `c` at either end.
pub open spec fn trim_both(s: Seq<char>, c: char) -> Seq<char> {
    trim_start(trim_end(s, c), c)
}

pub fn trim_both_chars(s: &Vec<char>, c: char) -> (r: Vec<char>)
    ensures
        r@ == trim_both(s@, c),
{
    let e = trim_end_chars(s, c);
    let mut k: usize = 0;
    assert(e@.skip(0) =~= e@);
    while k < e.len() && e[k] == c
        invariant
            k <= e.len(),
            trim_start(e@, c) == trim_start(e@.skip(k as int), c),
        decreases e.len() - k,
    {
        assert(e@.skip(k as int).skip(1) =~= e@.skip(k + 1));
        k += 1;
    }
    let mut r: Vec<char> = Vec::new();
    let mut i: usize = k;
    while i < e.len()
        invariant
            k <= i <= e.len(),
            r@ == e@.subrange(k as int, i as int),
        decreases e.len() - i,
    {
        r.push(e[i]);
        i += 1;
        assert(r@ =~= e@.subrange(k as int, i as int));
    }
    assert(e@.subrange(k as int, e.len() as int) =~= e@.skip(k as int));
    r
}

/// `s` with each `a` made `b`.
pub open spec fn replace_char(s: Seq<char>, a: char, b: char) -> Seq<char> {
    s.map_values(|c: char| if c == a { b } else { c })
}

pub fn replace_char_chars(s: &Vec<char>, a: char, b: char) -> (r: Vec<char>)
    ensures
        r@ == replace_char(s@, a, b),
{
    let mut r: Vec<char> = Vec::new();
    let mut i: usize = 0;
    while i < s.len()
        invariant
            i <= s.len(),
            r@ =~= replace_char(s@.take(i as int), a, b),
        decreases s.len() - i,
    {
        if s[i] == a {
            r.push(b);
        } else {
            r.push(s[i]);
        }
        i += 1;
        assert(r@ =~= replace_char(s@.take(i as int), a, b));
    }
    assert(s@.take(s.len() as int) =~= s@);
    r
}

} // verus!
