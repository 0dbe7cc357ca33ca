//! Text as sequences of characters: the operations the panel's rules are
//! stated with, and executable versions of them.

use vstd::prelude::*;

verus! {

/// `String::push` appends one character.
pub assume_specification[ String::push ](s: &mut String, c: char)
    ensures
        final(s)@ == old(s)@.push(c),
;

// ---------------------------------------------------------------------------
// Views of lists of strings
// ---------------------------------------------------------------------------

/// The texts of a list of strings.
pub open spec fn texts(v: Seq<String>) -> Seq<Seq<char>> {
    v.map_values(|s: String| s@)
}

/// The text inside an optional string.
pub open spec fn opt_text(o: Option<String>) -> Option<Seq<char>> {
    match o {
        Some(s) => Some(s@),
        None => None,
    }
}

pub proof fn lemma_texts_push(v: Seq<String>, s: String)
    ensures
        texts(v.push(s)) == texts(v).push(s@),
{
    assert(texts(v.push(s)) =~= texts(v).push(s@));
}

// ---------------------------------------------------------------------------
// Characters
// ---------------------------------------------------------------------------

/// The Unicode `White_Space` property.
pub open spec fn white(c: char) -> bool {
    ||| '\u{9}' <= c <= '\u{d}'
    ||| c == ' '
    ||| c == '\u{85}'
    ||| c == '\u{a0}'
    ||| c == '\u{1680}'
    ||| '\u{2000}' <= c <= '\u{200a}'
    ||| c == '\u{2028}'
    ||| c == '\u{2029}'
    ||| c == '\u{202f}'
    ||| c == '\u{205f}'
    ||| c == '\u{3000}'
}

/// An ASCII decimal digit.
pub open spec fn digit(c: char) -> bool {
    '0' <= c <= '9'
}

/// An ASCII letter or decimal digit.
pub open spec fn alphanumeric(c: char) -> bool {
    ('a' <= c <= 'z') || ('A' <= c <= 'Z') || digit(c)
}

pub fn is_white(c: char) -> (r: bool)
    ensures
        r == white(c),
{
    ('\u{9}' <= c && c <= '\u{d}') || c == ' ' || c == '\u{85}' || c == '\u{a0}' || c == '\u{1680}'
        || ('\u{2000}' <= c && c <= '\u{200a}') || c == '\u{2028}' || c == '\u{2029}' || c
        == '\u{202f}' || c == '\u{205f}' || c == '\u{3000}'
}

pub fn is_digit(c: char) -> (r: bool)
    ensures
        r == digit(c),
{
    '0' <= c && c <= '9'
}

pub fn is_alphanumeric(c: char) -> (r: bool)
    ensures
        r == alphanumeric(c),
{
    ('a' <= c && c <= 'z') || ('A' <= c && c <= 'Z') || is_digit(c)
}

// ---------------------------------------------------------------------------
// Between strings and characters
// ---------------------------------------------------------------------------

/// The characters of a string.
pub fn chars_of(s: &str) -> (r: Vec<char>)
    ensures
        r@ == s@,
{
    let mut v: Vec<char> = Vec::new();
    for c in it: s.chars()
        invariant
            v@ == it.seq().take(it.index() as int),
            it.seq() == s@,
    {
        v.push(c);
    }
    v
}

/// The string made of `v[from..to]`.
pub fn string_range(v: &Vec<char>, from: usize, to: usize) -> (r: String)
    requires
        from <= to <= v@.len(),
    ensures
        r@ == v@.subrange(from as int, to as int),
{
    let mut out = String::new();
    let mut i: usize = from;
    while i < to
        invariant
            from <= i <= to <= v@.len(),
            out@ == v@.subrange(from as int, i as int),
        decreases to - i,
    {
        out.push(v[i]);
        i = i + 1;
    }
    out
}

/// The string made of the given characters.
pub fn string_of(v: &Vec<char>) -> (r: String)
    ensures
        r@ == v@,
{
    string_range(v, 0, v.len())
}

/// Adds a text to the end of a list.
pub fn push_text(v: &mut Vec<String>, s: &str)
    ensures
        texts(final(v)@) == texts(old(v)@).push(s@),
        final(v)@.len() == old(v)@.len() + 1,
{
    let t = s.to_owned();
    proof {
        lemma_texts_push(v@, t);
    }
    v.push(t);
}

/// Adds the texts of a list to the end of another.
pub fn push_texts(v: &mut Vec<String>, more: &Vec<String>)
    ensures
        texts(final(v)@) == texts(old(v)@) + texts(more@),
{
    let ghost before = texts(v@);
    let ghost all = texts(more@);
    let mut i: usize = 0;
    assert(before + all.take(0) =~= before);
    while i < more.len()
        invariant
            i <= more@.len(),
            all == texts(more@),
            texts(v@) == before + all.take(i as int),
        decreases more@.len() - i,
    {
        push_text(v, more[i].as_str());
        assert(all[i as int] == more@[i as int]@);
        assert(before + all.take(i + 1) =~= (before + all.take(i as int)).push(all[i as int]));
        i = i + 1;
    }
    assert(all.take(i as int) =~= all);
}

/// A list without texts.
pub fn no_texts() -> (r: Vec<String>)
    ensures
        texts(r@) == Seq::<Seq<char>>::empty(),
        r@.len() == 0,
{
    let r: Vec<String> = Vec::new();
    assert(texts(r@) =~= Seq::<Seq<char>>::empty());
    r
}

/// Do two strings hold the same characters?
pub fn same(a: &str, b: &str) -> (r: bool)
    ensures
        r == (a@ == b@),
{
    a.to_owned() == b.to_owned()
}

/// A copy of a list of strings.
pub fn copy_list(v: &Vec<String>) -> (r: Vec<String>)
    ensures
        texts(r@) == texts(v@),
        r@.len() == v@.len(),
{
    let mut out: Vec<String> = Vec::new();
    let mut i: usize = 0;
    while i < v.len()
        invariant
            i <= v@.len(),
            texts(out@) == texts(v@).take(i as int),
        decreases v@.len() - i,
    {
        let c = v[i].clone();
        proof {
            lemma_texts_push(out@, c);
        }
        out.push(c);
        assert(texts(out@) =~= texts(v@).take(i + 1));
        i = i + 1;
    }
    assert(texts(v@).take(i as int) =~= texts(v@));
    assert(texts(out@).len() == out@.len());
    assert(texts(v@).len() == v@.len());
    out
}

// ---------------------------------------------------------------------------
// Prefixes and occurrences
// ---------------------------------------------------------------------------

/// Does `s` begin with `p`?
pub open spec fn begins(s: Seq<char>, p: Seq<char>) -> bool {
    p.len() <= s.len() && s.subrange(0, p.len() as int) == p
}

/// Does `p` stand in `s` at position `i`?
pub open spec fn occurs_at(s: Seq<char>, p: Seq<char>, i: int) -> bool {
    0 <= i && i + p.len() <= s.len() && s.subrange(i, i + p.len()) == p
}

/// Does `p` stand anywhere in `s`?
pub open spec fn holds(s: Seq<char>, p: Seq<char>) -> bool {
    exists|i: int| occurs_at(s, p, i)
}

/// The first position at or after `i` where `p` stands in `s`.
pub open spec fn find_from(s: Seq<char>, p: Seq<char>, i: int) -> Option<int>
    decreases s.len() - i + 1,
{
    if i < 0 || i + p.len() > s.len() {
        None
    } else if s.subrange(i, i + p.len()) == p {
        Some(i)
    } else {
        find_from(s, p, i + 1)
    }
}

pub proof fn lemma_find_from(s: Seq<char>, p: Seq<char>, i: int)
    requires
        0 <= i,
    ensures
        match find_from(s, p, i) {
            Some(k) => i <= k && occurs_at(s, p, k) && forall|j: int|
                i <= j < k ==> !occurs_at(s, p, j),
            None => forall|j: int| i <= j ==> !occurs_at(s, p, j),
        },
    decreases s.len() - i + 1,
{
    if i + p.len() > s.len() {
    } else if s.subrange(i, i + p.len()) == p {
    } else {
        lemma_find_from(s, p, i + 1);
    }
}

/// `s` split around the first occurrence of `p`.
pub open spec fn split_first(s: Seq<char>, p: Seq<char>) -> Option<(Seq<char>, Seq<char>)> {
    match find_from(s, p, 0) {
        Some(k) => Some((s.subrange(0, k), s.subrange(k + p.len(), s.len() as int))),
        None => None,
    }
}

/// Does `p` stand in `s` at position `i`?
fn matches_at(s: &Vec<char>, p: &Vec<char>, i: usize) -> (r: bool)
    requires
        i <= s@.len(),
    ensures
        r == occurs_at(s@, p@, i as int),
{
    let n: usize = s.len();
    if p.len() > n - i {
        return false;
    }
    let mut j: usize = 0;
    while j < p.len()
        invariant
            n == s@.len(),
            i + p@.len() <= n,
            j <= p@.len(),
            forall|k: int| 0 <= k < j ==> s@[i + k] == p@[k],
        decreases p@.len() - j,
    {
        if s[i + j] != p[j] {
            assert(s@.subrange(i as int, i + p@.len())[j as int] != p@[j as int]);
            return false;
        }
        j = j + 1;
    }
    assert(s@.subrange(i as int, i + p@.len()) =~= p@);
    true
}

/// The first position at or after `from` where `p` stands in `s`.
fn find_chars(s: &Vec<char>, p: &Vec<char>, from: usize) -> (r: Option<usize>)
    requires
        from <= s@.len(),
    ensures
        match r {
            Some(k) => find_from(s@, p@, from as int) == Some(k as int) && k + p@.len() <= s@.len(),
            None => find_from(s@, p@, from as int) is None,
        },
{
    let mut i: usize = from;
    loop
        invariant
            from <= i <= s@.len(),
            find_from(s@, p@, i as int) == find_from(s@, p@, from as int),
        decreases s@.len() - i,
    {
        if matches_at(s, p, i) {
            return Some(i);
        }
        if i >= s.len() {
            assert(find_from(s@, p@, i + 1) is None);
            return None;
        }
        i = i + 1;
    }
}

pub fn starts_with(s: &str, p: &str) -> (r: bool)
    ensures
        r == begins(s@, p@),
{
    let sv = chars_of(s);
    let pv = chars_of(p);
    matches_at(&sv, &pv, 0)
}

pub fn contains(s: &str, p: &str) -> (r: bool)
    ensures
        r == holds(s@, p@),
{
    let sv = chars_of(s);
    let pv = chars_of(p);
    proof {
        lemma_find_from(s@, p@, 0);
    }
    let r = find_chars(&sv, &pv, 0).is_some();
    assert(r ==> occurs_at(s@, p@, find_from(s@, p@, 0).unwrap()));
    r
}

/// The text after the prefix `p`, where `s` begins with it.
pub open spec fn after_prefix(s: Seq<char>, p: Seq<char>) -> Option<Seq<char>> {
    if begins(s, p) {
        Some(s.subrange(p.len() as int, s.len() as int))
    } else {
        None
    }
}

pub fn strip_prefix(s: &str, p: &str) -> (r: Option<String>)
    ensures
        opt_text(r) == after_prefix(s@, p@),
{
    let sv = chars_of(s);
    let pv = chars_of(p);
    if matches_at(&sv, &pv, 0) {
        Some(string_range(&sv, pv.len(), sv.len()))
    } else {
        None
    }
}

/// Does `s` end with `p`?
pub open spec fn ends(s: Seq<char>, p: Seq<char>) -> bool {
    p.len() <= s.len() && s.subrange(s.len() - p.len(), s.len() as int) == p
}

pub fn ends_with(s: &str, p: &str) -> (r: bool)
    ensures
        r == ends(s@, p@),
{
    let sv = chars_of(s);
    let pv = chars_of(p);
    if pv.len() > sv.len() {
        return false;
    }
    matches_at(&sv, &pv, sv.len() - pv.len())
}

/// `s` split around the first occurrence of `p`.
pub fn split_once(s: &str, p: &str) -> (r: Option<(String, String)>)
    ensures
        match r {
            Some(pair) => split_first(s@, p@) == Some((pair.0@, pair.1@)),
            None => split_first(s@, p@) is None,
        },
{
    let sv = chars_of(s);
    let pv = chars_of(p);
    match find_chars(&sv, &pv, 0) {
        Some(k) => {
            proof {
                lemma_find_from(s@, p@, 0);
            }
            let n: usize = sv.len();
            Some((string_range(&sv, 0, k), string_range(&sv, k + pv.len(), n)))
        },
        None => None,
    }
}

// ---------------------------------------------------------------------------
// Trimming
// ---------------------------------------------------------------------------

/// `s` without its leading white space.
pub open spec fn trimmed_start(s: Seq<char>) -> Seq<char>
    decreases s.len(),
{
    if s.len() > 0 && white(s[0]) {
        trimmed_start(s.subrange(1, s.len() as int))
    } else {
        s
    }
}

/// `s` without its trailing white space.
pub open spec fn trimmed_end(s: Seq<char>) -> Seq<char>
    decreases s.len(),
{
    if s.len() > 0 && white(s.last()) {
        trimmed_end(s.drop_last())
    } else {
        s
    }
}

/// `s` without white space at either end.
pub open spec fn trimmed(s: Seq<char>) -> Seq<char> {
    trimmed_end(trimmed_start(s))
}

/// The position of the first character of `v` that is not white space.
pub(crate) fn first_black(v: &Vec<char>) -> (r: usize)
    ensures
        r <= v@.len(),
        trimmed_start(v@) == v@.subrange(r as int, v@.len() as int),
        forall|k: int| 0 <= k < r ==> white(v@[k]),
        r < v@.len() ==> !white(v@[r as int]),
{
    let mut i: usize = 0;
    assert(v@.subrange(0, v@.len() as int) =~= v@);
    while i < v.len() && is_white(v[i])
        invariant
            i <= v@.len(),
            trimmed_start(v@) == trimmed_start(v@.subrange(i as int, v@.len() as int)),
            forall|k: int| 0 <= k < i ==> white(v@[k]),
        decreases v@.len() - i,
    {
        let ghost rest = v@.subrange(i as int, v@.len() as int);
        assert(rest.subrange(1, rest.len() as int) =~= v@.subrange(i + 1, v@.len() as int));
        i = i + 1;
    }
    i
}

pub fn trim_start(s: &str) -> (r: String)
    ensures
        r@ == trimmed_start(s@),
{
    let v = chars_of(s);
    let i = first_black(&v);
    string_range(&v, i, v.len())
}

pub fn trim_end(s: &str) -> (r: String)
    ensures
        r@ == trimmed_end(s@),
{
    let v = chars_of(s);
    let mut j: usize = v.len();
    assert(v@.subrange(0, v@.len() as int) =~= v@);
    while j > 0 && is_white(v[j - 1])
        invariant
            j <= v@.len(),
            trimmed_end(v@) == trimmed_end(v@.subrange(0, j as int)),
        decreases j,
    {
        assert(v@.subrange(0, j as int).drop_last() =~= v@.subrange(0, j - 1));
        j = j - 1;
    }
    string_range(&v, 0, j)
}

pub fn trim(s: &str) -> (r: String)
    ensures
        r@ == trimmed(s@),
{
    trim_end(trim_start(s).as_str())
}

/// The first position at or after `i` that holds white space.
pub open spec fn white_from(s: Seq<char>, i: int) -> Option<int>
    decreases s.len() - i,
{
    if i < 0 || i >= s.len() {
        None
    } else if white(s[i]) {
        Some(i)
    } else {
        white_from(s, i + 1)
    }
}

/// The last position before `i` that holds white space.
pub open spec fn white_before(s: Seq<char>, i: int) -> Option<int>
    decreases i,
{
    if i <= 0 || i > s.len() {
        None
    } else if white(s[i - 1]) {
        Some(i - 1)
    } else {
        white_before(s, i - 1)
    }
}

/// The position of the first white space.
pub(crate) fn find_white(v: &Vec<char>) -> (r: Option<usize>)
    ensures
        match r {
            Some(k) => k < v@.len() && white_from(v@, 0) == Some(k as int),
            None => white_from(v@, 0) is None,
        },
{
    let mut i: usize = 0;
    while i < v.len()
        invariant
            i <= v@.len(),
            white_from(v@, 0) == white_from(v@, i as int),
        decreases v@.len() - i,
    {
        if is_white(v[i]) {
            return Some(i);
        }
        i = i + 1;
    }
    None
}

/// The position of the last white space.
pub(crate) fn rfind_white(v: &Vec<char>) -> (r: Option<usize>)
    ensures
        match r {
            Some(k) => k < v@.len() && white_before(v@, v@.len() as int) == Some(k as int),
            None => white_before(v@, v@.len() as int) is None,
        },
{
    let mut i: usize = v.len();
    while i > 0
        invariant
            i <= v@.len(),
            white_before(v@, v@.len() as int) == white_before(v@, i as int),
        decreases i,
    {
        if is_white(v[i - 1]) {
            return Some(i - 1);
        }
        i = i - 1;
    }
    None
}

// ---------------------------------------------------------------------------
// Splitting
// ---------------------------------------------------------------------------

/// `s` split at every `c`.
pub open spec fn split(s: Seq<char>, c: char) -> Seq<Seq<char>>
    decreases s.len(),
{
    if s.len() == 0 {
        seq![Seq::empty()]
    } else {
        let before = split(s.drop_last(), c);
        if s.last() == c {
            before.push(Seq::empty())
        } else {
            before.drop_last().push(before.last().push(s.last()))
        }
    }
}

pub proof fn lemma_split_nonempty(s: Seq<char>, c: char)
    ensures
        split(s, c).len() > 0,
    decreases s.len(),
{
    if s.len() > 0 {
        lemma_split_nonempty(s.drop_last(), c);
    }
}

/// What holds no `c` is added to the last piece.
pub proof fn lemma_split_plain(a: Seq<char>, b: Seq<char>, c: char)
    requires
        forall|i: int| 0 <= i < b.len() ==> b[i] != c,
    ensures
        split(a + b, c) == split(a, c).drop_last().push(split(a, c).last() + b),
    decreases b.len(),
{
    lemma_split_nonempty(a, c);
    let parts = split(a, c);
    if b.len() == 0 {
        assert(a + b =~= a);
        assert(parts.last() + b =~= parts.last());
        assert(parts =~= parts.drop_last().push(parts.last()));
    } else {
        lemma_split_plain(a, b.drop_last(), c);
        assert((a + b).drop_last() =~= a + b.drop_last());
        let shorter = parts.drop_last().push(parts.last() + b.drop_last());
        assert(shorter.drop_last() =~= parts.drop_last());
        assert((parts.last() + b.drop_last()).push(b.last()) =~= parts.last() + b);
    }
}

/// A `c` parts a text into the pieces before it and those behind it.
pub proof fn lemma_split_pieces(a: Seq<char>, b: Seq<char>, c: char)
    ensures
        split(a.push(c) + b, c) == split(a, c) + split(b, c),
    decreases b.len(),
{
    let whole = a.push(c) + b;
    lemma_split_nonempty(a, c);
    lemma_split_nonempty(b, c);
    if b.len() == 0 {
        assert(whole =~= a.push(c));
        assert(whole.drop_last() =~= a);
        assert(split(whole, c) =~= split(a, c) + split(b, c));
    } else {
        let shorter = b.drop_last();
        lemma_split_pieces(a, shorter, c);
        lemma_split_nonempty(shorter, c);
        assert(whole.drop_last() =~= a.push(c) + shorter);
        assert(split(whole, c) =~= split(a, c) + split(b, c));
    }
}

pub fn split_at_char(s: &str, c: char) -> (r: Vec<String>)
    ensures
        texts(r@) == split(s@, c),
{
    let v = chars_of(s);
    let mut done: Vec<String> = Vec::new();
    let mut cur = String::new();
    let mut i: usize = 0;
    assert(split(v@.take(0), c) =~= texts(done@).push(cur@));
    while i < v.len()
        invariant
            i <= v@.len(),
            split(v@.take(i as int), c) == texts(done@).push(cur@),
        decreases v@.len() - i,
    {
        assert(v@.take(i + 1).drop_last() =~= v@.take(i as int));
        assert(texts(done@).push(cur@).drop_last() =~= texts(done@));
        if v[i] == c {
            proof {
                lemma_texts_push(done@, cur);
            }
            done.push(cur);
            cur = String::new();
        } else {
            cur.push(v[i]);
        }
        i = i + 1;
    }
    assert(v@.take(i as int) =~= v@);
    proof {
        lemma_texts_push(done@, cur);
    }
    done.push(cur);
    done
}

/// A line without the carriage return that ends it.
pub open spec fn without_cr(l: Seq<char>) -> Seq<char> {
    if l.len() > 0 && l.last() == '\r' {
        l.drop_last()
    } else {
        l
    }
}

/// The lines of a text: what stands before each line feed, without a carriage
/// return at its end, then what is left after the last one if anything is.
pub open spec fn lines(s: Seq<char>) -> Seq<Seq<char>> {
    let parts = split(s, '\n');
    let ended = parts.drop_last().map_values(|l: Seq<char>| without_cr(l));
    if parts.last().len() == 0 {
        ended
    } else {
        ended.push(parts.last())
    }
}

pub fn lines_of(s: &str) -> (r: Vec<String>)
    ensures
        texts(r@) == lines(s@),
{
    let parts = split_at_char(s, '\n');
    let ghost all = split(s@, '\n');
    proof {
        lemma_split_nonempty(s@, '\n');
        assert(texts(parts@).len() == parts@.len());
    }
    let n = parts.len();
    let mut out: Vec<String> = Vec::new();
    let mut i: usize = 0;
    while i < n - 1
        invariant
            n == parts@.len(),
            n >= 1,
            i <= n - 1,
            texts(parts@) == all,
            texts(out@) == all.take(i as int).map_values(|l: Seq<char>| without_cr(l)),
        decreases n - i,
    {
        let l = chars_of(parts[i].as_str());
        assert(l@ == all[i as int]);
        let line = if l.len() > 0 && l[l.len() - 1] == '\r' {
            let t = string_range(&l, 0, l.len() - 1);
            assert(t@ =~= l@.drop_last());
            t
        } else {
            string_of(&l)
        };
        proof {
            lemma_texts_push(out@, line);
        }
        out.push(line);
        assert(all.take(i + 1).map_values(|l: Seq<char>| without_cr(l)) =~= all.take(
            i as int,
        ).map_values(|l: Seq<char>| without_cr(l)).push(without_cr(all[i as int])));
        i = i + 1;
    }
    assert(all.take(i as int) =~= all.drop_last());
    assert(parts@[n - 1]@ == all.last());
    if !parts[n - 1].as_str().is_empty() {
        let last = parts[n - 1].clone();
        proof {
            lemma_texts_push(out@, last);
        }
        out.push(last);
    }
    out
}

/// `s` split at every white space character.
pub open spec fn split_white(s: Seq<char>) -> Seq<Seq<char>>
    decreases s.len(),
{
    if s.len() == 0 {
        seq![Seq::empty()]
    } else {
        let before = split_white(s.drop_last());
        if white(s.last()) {
            before.push(Seq::empty())
        } else {
            before.drop_last().push(before.last().push(s.last()))
        }
    }
}

/// The words of a text: its maximal runs of characters that are not white space.
pub open spec fn words(s: Seq<char>) -> Seq<Seq<char>> {
    split_white(s).filter(|w: Seq<char>| w.len() > 0)
}

proof fn lemma_filter_push<A>(s: Seq<A>, keep: spec_fn(A) -> bool, a: A)
    ensures
        s.push(a).filter(keep) == (if keep(a) {
            s.filter(keep).push(a)
        } else {
            s.filter(keep)
        }),
{
    reveal(Seq::filter);
    assert(s.push(a).drop_last() =~= s);
}

pub fn words_of(s: &str) -> (r: Vec<String>)
    ensures
        texts(r@) == words(s@),
{
    let v = chars_of(s);
    let ghost keep = |w: Seq<char>| w.len() > 0;
    let ghost mut all: Seq<Seq<char>> = Seq::empty();
    let mut done: Vec<String> = Vec::new();
    let mut cur = String::new();
    let mut i: usize = 0;
    proof {
        reveal(Seq::filter);
        assert(split_white(v@.take(0)) =~= all.push(cur@));
        assert(texts(done@) =~= all.filter(keep));
    }
    while i < v.len()
        invariant
            i <= v@.len(),
            keep == (|w: Seq<char>| w.len() > 0),
            split_white(v@.take(i as int)) == all.push(cur@),
            texts(done@) == all.filter(keep),
        decreases v@.len() - i,
    {
        assert(v@.take(i + 1).drop_last() =~= v@.take(i as int));
        assert(all.push(cur@).drop_last() =~= all);
        if is_white(v[i]) {
            proof {
                lemma_filter_push(all, keep, cur@);
                lemma_texts_push(done@, cur);
                all = all.push(cur@);
            }
            if !cur.as_str().is_empty() {
                done.push(cur);
            }
            cur = String::new();
        } else {
            cur.push(v[i]);
        }
        i = i + 1;
    }
    assert(v@.take(i as int) =~= v@);
    proof {
        lemma_filter_push(all, keep, cur@);
        lemma_texts_push(done@, cur);
    }
    if !cur.as_str().is_empty() {
        done.push(cur);
    }
    done
}

/// `s` split around its last `c`.
pub open spec fn split_last(s: Seq<char>, c: char) -> Option<(Seq<char>, Seq<char>)>
    decreases s.len(),
{
    if s.len() == 0 {
        None
    } else if s.last() == c {
        Some((s.drop_last(), Seq::empty()))
    } else {
        match split_last(s.drop_last(), c) {
            Some((before, after)) => Some((before, after.push(s.last()))),
            None => None,
        }
    }
}

pub fn rsplit_once(s: &str, c: char) -> (r: Option<(String, String)>)
    ensures
        match r {
            Some(pair) => split_last(s@, c) == Some((pair.0@, pair.1@)),
            None => split_last(s@, c) is None,
        },
{
    let v = chars_of(s);
    let mut last: Option<usize> = None;
    let mut i: usize = 0;
    while i < v.len()
        invariant
            i <= v@.len(),
            match last {
                Some(k) => k < i && split_last(v@.take(i as int), c) == Some(
                    (v@.subrange(0, k as int), v@.subrange(k + 1, i as int)),
                ),
                None => split_last(v@.take(i as int), c) is None,
            },
        decreases v@.len() - i,
    {
        assert(v@.take(i + 1).drop_last() =~= v@.take(i as int));
        if v[i] == c {
            assert(v@.subrange(0, i as int) =~= v@.take(i as int));
            assert(v@.subrange(i + 1, i + 1) =~= Seq::<char>::empty());
            last = Some(i);
        } else {
            proof {
                if let Some(k) = last {
                    assert(v@.subrange(k + 1, i as int).push(v@[i as int]) =~= v@.subrange(
                        k + 1,
                        i + 1,
                    ));
                }
            }
        }
        i = i + 1;
    }
    assert(v@.take(i as int) =~= v@);
    match last {
        Some(k) => Some((string_range(&v, 0, k), string_range(&v, k + 1, v.len()))),
        None => None,
    }
}

// ---------------------------------------------------------------------------
// Joining and replacing
// ---------------------------------------------------------------------------

/// The parts, one after the other, with `sep` between each two of them.
pub open spec fn joined(parts: Seq<Seq<char>>, sep: Seq<char>) -> Seq<char>
    decreases parts.len(),
{
    if parts.len() == 0 {
        Seq::empty()
    } else if parts.len() == 1 {
        parts[0]
    } else {
        joined(parts.drop_last(), sep) + sep + parts.last()
    }
}

pub fn join(parts: &Vec<String>, sep: &str) -> (r: String)
    ensures
        r@ == joined(texts(parts@), sep@),
{
    let mut out = String::new();
    let mut i: usize = 0;
    let ghost all = texts(parts@);
    assert(out@ =~= joined(all.take(0), sep@));
    while i < parts.len()
        invariant
            i <= parts@.len(),
            all == texts(parts@),
            out@ == joined(all.take(i as int), sep@),
        decreases parts@.len() - i,
    {
        assert(all.take(i + 1).drop_last() =~= all.take(i as int));
        assert(all[i as int] == parts@[i as int]@);
        if i > 0 {
            out.append(sep);
        }
        out.append(parts[i].as_str());
        assert(out@ =~= joined(all.take(i + 1), sep@));
        i = i + 1;
    }
    assert(all.take(i as int) =~= all);
    out
}

/// `s` with every occurrence of `p`, found from the left and without overlap,
/// replaced by `with`.
pub open spec fn replaced(s: Seq<char>, p: Seq<char>, with: Seq<char>) -> Seq<char>
    decreases s.len(),
{
    if p.len() == 0 || s.len() < p.len() {
        s
    } else if begins(s, p) {
        with + replaced(s.subrange(p.len() as int, s.len() as int), p, with)
    } else {
        seq![s[0]] + replaced(s.subrange(1, s.len() as int), p, with)
    }
}

pub fn replace(s: &str, p: &str, with: &str) -> (r: String)
    requires
        p@.len() > 0,
    ensures
        r@ == replaced(s@, p@, with@),
{
    let sv = chars_of(s);
    let pv = chars_of(p);
    let mut out = String::new();
    let mut i: usize = 0;
    let ghost n = sv@.len() as int;
    assert(out@ + sv@.subrange(0, n) =~= sv@);
    assert(sv@.subrange(0, n) =~= sv@);
    assert(out@ + replaced(sv@, p@, with@) =~= replaced(sv@, p@, with@));
    while i < sv.len()
        invariant
            n == sv@.len(),
            i <= sv@.len(),
            pv@ == p@,
            pv@.len() > 0,
            out@ + replaced(sv@.subrange(i as int, n), p@, with@) == replaced(sv@, p@, with@),
        decreases sv@.len() - i,
    {
        let ghost rest = sv@.subrange(i as int, n);
        let hit = matches_at(&sv, &pv, i);
        proof {
            if rest.len() >= p@.len() {
                assert(rest.subrange(0, p@.len() as int) =~= sv@.subrange(
                    i as int,
                    i + p@.len(),
                ));
            }
        }
        if hit {
            assert(rest.subrange(p@.len() as int, rest.len() as int) =~= sv@.subrange(
                i + p@.len(),
                n,
            ));
            let ghost before = out@;
            out.append(with);
            assert(out@ + replaced(sv@.subrange(i + p@.len(), n), p@, with@) =~= before + replaced(
                rest,
                p@,
                with@,
            ));
            i = i + pv.len();
        } else {
            assert(rest.subrange(1, rest.len() as int) =~= sv@.subrange(i + 1, n));
            let ghost before = out@;
            out.push(sv[i]);
            proof {
                if rest.len() < p@.len() {
                    assert(replaced(sv@.subrange(i + 1, n), p@, with@) == sv@.subrange(i + 1, n));
                    assert(seq![rest[0]] + sv@.subrange(i + 1, n) =~= rest);
                }
            }
            assert(out@ + replaced(sv@.subrange(i + 1, n), p@, with@) =~= before + (seq![rest[0]]
                + replaced(sv@.subrange(i + 1, n), p@, with@)));
            i = i + 1;
        }
    }
    assert(sv@.subrange(i as int, n) =~= Seq::<char>::empty());
    assert(out@ + Seq::<char>::empty() =~= out@);
    out
}

/// At most the first `n` characters of `s`.
pub open spec fn first_chars(s: Seq<char>, n: int) -> Seq<char> {
    if s.len() <= n {
        s
    } else {
        s.subrange(0, n)
    }
}

pub fn take_chars(s: &str, n: usize) -> (r: String)
    ensures
        r@ == first_chars(s@, n as int),
{
    let v = chars_of(s);
    if v.len() <= n {
        string_of(&v)
    } else {
        string_range(&v, 0, n)
    }
}

// ---------------------------------------------------------------------------
// Numbers
// ---------------------------------------------------------------------------

/// The decimal digit of value `d`.
pub open spec fn digit_char(d: int) -> char {
    if d == 0 {
        '0'
    } else if d == 1 {
        '1'
    } else if d == 2 {
        '2'
    } else if d == 3 {
        '3'
    } else if d == 4 {
        '4'
    } else if d == 5 {
        '5'
    } else if d == 6 {
        '6'
    } else if d == 7 {
        '7'
    } else if d == 8 {
        '8'
    } else {
        '9'
    }
}

/// `n` in decimal notation.
pub open spec fn decimal(n: nat) -> Seq<char>
    decreases n,
{
    if n < 10 {
        seq![digit_char(n as int)]
    } else {
        decimal(n / 10).push(digit_char((n % 10) as int))
    }
}

/// `n` in decimal notation, with a minus sign where it is negative.
pub open spec fn signed_decimal(n: int) -> Seq<char> {
    if n < 0 {
        seq!['-'] + decimal((-n) as nat)
    } else {
        decimal(n as nat)
    }
}

fn digit_of(d: u64) -> (c: char)
    requires
        d < 10,
    ensures
        c == digit_char(d as int),
{
    match d {
        0 => '0',
        1 => '1',
        2 => '2',
        3 => '3',
        4 => '4',
        5 => '5',
        6 => '6',
        7 => '7',
        8 => '8',
        _ => '9',
    }
}

pub fn decimal_of(n: u64) -> (r: String)
    ensures
        r@ == decimal(n as nat),
    decreases n,
{
    if n < 10 {
        let mut out = String::new();
        out.push(digit_of(n));
        assert(out@ =~= decimal(n as nat));
        out
    } else {
        let mut out = decimal_of(n / 10);
        out.push(digit_of(n % 10));
        out
    }
}

pub fn signed_decimal_of(n: i32) -> (r: String)
    ensures
        r@ == signed_decimal(n as int),
{
    if n < 0 {
        let mut out = String::new();
        out.push('-');
        let m = decimal_of((-(n as i64)) as u64);
        out.append(m.as_str());
        assert(out@ =~= signed_decimal(n as int));
        out
    } else {
        decimal_of(n as u64)
    }
}

/// The value of a decimal digit.
pub open spec fn digit_value(c: char) -> nat {
    (c as int - '0' as int) as nat
}

/// The value of a run of decimal digits.
pub open spec fn digits_value(s: Seq<char>) -> nat
    decreases s.len(),
{
    if s.len() == 0 {
        0
    } else {
        digits_value(s.drop_last()) * 10 + digit_value(s.last())
    }
}

/// Is `s` a non-empty run of decimal digits?
pub open spec fn all_digits(s: Seq<char>) -> bool {
    s.len() > 0 && forall|i: int| 0 <= i < s.len() ==> digit(#[trigger] s[i])
}

/// The digits of a number that may carry a plus sign.
pub open spec fn unsigned_digits(s: Seq<char>) -> Seq<char> {
    if s.len() > 0 && s[0] == '+' {
        s.subrange(1, s.len() as int)
    } else {
        s
    }
}

/// The number that `s` writes down, where it is one of at most `max`.
pub open spec fn parsed(s: Seq<char>, max: nat) -> Option<nat> {
    let t = unsigned_digits(s);
    if all_digits(t) && digits_value(t) <= max {
        Some(digits_value(t))
    } else {
        None
    }
}

pub fn parse_uint(s: &str, max: u64) -> (r: Option<u64>)
    ensures
        match r {
            Some(n) => parsed(s@, max as nat) == Some(n as nat),
            None => parsed(s@, max as nat) is None,
        },
{
    let v = chars_of(s);
    let start: usize = if v.len() > 0 && v[0] == '+' {
        1
    } else {
        0
    };
    let n: usize = v.len();
    let ghost t = unsigned_digits(v@);
    assert(t =~= v@.subrange(start as int, n as int));
    if start == n {
        return None;
    }
    let mut value: u64 = 0;
    let mut over = false;
    let mut i: usize = start;
    while i < n
        invariant
            n == v@.len(),
            start <= i <= n,
            t == v@.subrange(start as int, n as int),
            t == unsigned_digits(v@),
            s@ == v@,
            forall|k: int| 0 <= k < i - start ==> digit(#[trigger] t[k]),
            !over ==> value == digits_value(t.take(i - start)) && value <= max,
            over ==> digits_value(t.take(i - start)) > max,
        decreases n - i,
    {
        let c = v[i];
        assert(t[i - start] == c);
        if !is_digit(c) {
            return None;
        }
        assert(t.take(i + 1 - start).drop_last() =~= t.take(i - start));
        if !over {
            let next: u128 = (value as u128) * 10 + ((c as u32 - '0' as u32) as u128);
            if next > max as u128 {
                over = true;
            } else {
                value = next as u64;
            }
        }
        i = i + 1;
    }
    assert(t.take(n - start) =~= t);
    if over {
        None
    } else {
        Some(value)
    }
}

/// A number in decimal notation is made of digits, and they add up to it.
pub proof fn lemma_decimal_all_digits(n: nat)
    ensures
        all_digits(decimal(n)),
        digits_value(decimal(n)) == n,
    decreases n,
{
    if n < 10 {
        let s = decimal(n);
        assert(s.drop_last() =~= Seq::<char>::empty());
        assert(digits_value(s.drop_last()) == 0);
    } else {
        lemma_decimal_all_digits(n / 10);
        let s = decimal(n);
        assert(s.drop_last() =~= decimal(n / 10));
        assert(s.last() == digit_char((n % 10) as int));
    }
}

/// Reading back a number in decimal notation gives the number.
pub proof fn lemma_decimal_parsed(n: nat, max: nat)
    requires
        n <= max,
    ensures
        parsed(decimal(n), max) == Some(n),
{
    lemma_decimal_all_digits(n);
    assert(digit(decimal(n)[0]));
}

// ---------------------------------------------------------------------------
// Order
// ---------------------------------------------------------------------------

/// Does `a` come before `b` in the order of their characters?
pub open spec fn before(a: Seq<char>, b: Seq<char>) -> bool
    decreases a.len(),
{
    if b.len() == 0 {
        false
    } else if a.len() == 0 {
        true
    } else if a[0] != b[0] {
        a[0] < b[0]
    } else {
        before(a.subrange(1, a.len() as int), b.subrange(1, b.len() as int))
    }
}

/// Texts in strictly rising order.
pub open spec fn ascending(s: Seq<Seq<char>>) -> bool {
    forall|i: int, j: int| 0 <= i < j < s.len() ==> before(#[trigger] s[i], #[trigger] s[j])
}

pub proof fn lemma_before_irreflexive(a: Seq<char>)
    ensures
        !before(a, a),
    decreases a.len(),
{
    if a.len() > 0 {
        lemma_before_irreflexive(a.subrange(1, a.len() as int));
    }
}

pub proof fn lemma_before_transitive(a: Seq<char>, b: Seq<char>, c: Seq<char>)
    requires
        before(a, b),
        before(b, c),
    ensures
        before(a, c),
    decreases a.len(),
{
    if a.len() > 0 && a[0] == b[0] && b[0] == c[0] {
        lemma_before_transitive(
            a.subrange(1, a.len() as int),
            b.subrange(1, b.len() as int),
            c.subrange(1, c.len() as int),
        );
    }
}

pub proof fn lemma_before_total(a: Seq<char>, b: Seq<char>)
    ensures
        before(a, b) || before(b, a) || a == b,
    decreases a.len(),
{
    if a.len() == 0 || b.len() == 0 {
        if a.len() == 0 && b.len() == 0 {
            assert(a =~= b);
        }
    } else if a[0] == b[0] {
        let ra = a.subrange(1, a.len() as int);
        let rb = b.subrange(1, b.len() as int);
        lemma_before_total(ra, rb);
        if ra == rb {
            assert(a =~= seq![a[0]] + ra);
            assert(b =~= seq![b[0]] + rb);
        }
    }
}

pub fn is_before(a: &str, b: &str) -> (r: bool)
    ensures
        r == before(a@, b@),
{
    let av = chars_of(a);
    let bv = chars_of(b);
    let ghost na = av@.len() as int;
    let ghost nb = bv@.len() as int;
    assert(av@.subrange(0, na) =~= av@);
    assert(bv@.subrange(0, nb) =~= bv@);
    let mut i: usize = 0;
    loop
        invariant
            na == av@.len(),
            nb == bv@.len(),
            a@ == av@,
            b@ == bv@,
            i <= av@.len(),
            i <= bv@.len(),
            before(a@, b@) == before(
                av@.subrange(i as int, na),
                bv@.subrange(i as int, nb),
            ),
        decreases av@.len() - i,
    {
        if i >= bv.len() {
            return false;
        }
        if i >= av.len() {
            return true;
        }
        if av[i] != bv[i] {
            return av[i] < bv[i];
        }
        let ghost ra = av@.subrange(i as int, na);
        let ghost rb = bv@.subrange(i as int, nb);
        assert(ra.subrange(1, ra.len() as int) =~= av@.subrange(i + 1, na));
        assert(rb.subrange(1, rb.len() as int) =~= bv@.subrange(i + 1, nb));
        i = i + 1;
    }
}

/// Adds a text to an ascending list, unless it is there already.
pub fn insert_ascending(v: &mut Vec<String>, s: String)
    requires
        ascending(texts(old(v)@)),
    ensures
        ascending(texts(final(v)@)),
        texts(final(v)@).to_set() == texts(old(v)@).to_set().insert(s@),
{
    let ghost before_v = texts(v@);
    let mut i: usize = 0;
    while i < v.len() && is_before(v[i].as_str(), s.as_str())
        invariant
            i <= v@.len(),
            before_v == texts(v@),
            forall|k: int| 0 <= k < i ==> before(#[trigger] before_v[k], s@),
        decreases v@.len() - i,
    {
        i = i + 1;
    }
    if i < v.len() && same(v[i].as_str(), s.as_str()) {
        proof {
            assert(before_v[i as int] == s@);
            assert(before_v.to_set() =~= before_v.to_set().insert(s@));
        }
        return;
    }
    proof {
        if i < v@.len() {
            lemma_before_total(before_v[i as int], s@);
        }
        let after = texts(v@.insert(i as int, s));
        assert(after =~= before_v.insert(i as int, s@));
        assert forall|a: int, b: int| 0 <= a < b < after.len() implies before(
            #[trigger] after[a],
            #[trigger] after[b],
        ) by {
            if a < i && b > i {
                assert(before(before_v[a], before_v[b - 1]));
            } else if a == i {
                if b - 1 > i {
                    lemma_before_transitive(s@, before_v[i as int], before_v[b - 1]);
                }
            } else if a > i {
                assert(before(before_v[a - 1], before_v[b - 1]));
            }
        }
        assert forall|t: Seq<char>| after.to_set().contains(t) <==> before_v.to_set().insert(
            s@,
        ).contains(t) by {
            if before_v.contains(t) {
                let k = choose|k: int| 0 <= k < before_v.len() && before_v[k] == t;
                if k < i {
                    assert(after[k] == t);
                } else {
                    assert(after[k + 1] == t);
                }
            }
            if t == s@ {
                assert(after[i as int] == t);
            }
            if after.contains(t) {
                let k = choose|k: int| 0 <= k < after.len() && after[k] == t;
                if k < i {
                    assert(before_v[k] == t);
                } else if k > i {
                    assert(before_v[k - 1] == t);
                }
            }
        }
        assert(after.to_set() =~= before_v.to_set().insert(s@));
    }
    v.insert(i, s);
}

/// An ascending list is determined by its members.
pub proof fn lemma_ascending_unique(a: Seq<Seq<char>>, b: Seq<Seq<char>>)
    requires
        ascending(a),
        ascending(b),
        a.to_set() == b.to_set(),
    ensures
        a == b,
    decreases a.len(),
{
    if a.len() == 0 {
        if b.len() > 0 {
            assert(b.to_set().contains(b[0]));
            assert(a.to_set().contains(b[0]));
            assert(false);
        }
        assert(a =~= b);
    } else {
        assert(a.to_set().contains(a.last()));
        assert(b.contains(a.last()));
        let k = choose|k: int| 0 <= k < b.len() && b[k] == a.last();
        assert(b.to_set().contains(b.last()));
        assert(a.contains(b.last()));
        let m = choose|m: int| 0 <= m < a.len() && a[m] == b.last();
        if a.last() != b.last() {
            assert(before(b[k], b.last()));
            assert(before(a[m], a.last()));
            lemma_before_transitive(b.last(), a.last(), b.last());
            lemma_before_irreflexive(b.last());
        }
        let da = a.drop_last();
        let db = b.drop_last();
        assert forall|t: Seq<char>| da.to_set().contains(t) <==> db.to_set().contains(t) by {
            if da.contains(t) {
                let i = choose|i: int| 0 <= i < da.len() && da[i] == t;
                assert(a[i] == t);
                assert(before(a[i], a.last()));
                assert(a.to_set().contains(t));
                assert(b.contains(t));
                let j = choose|j: int| 0 <= j < b.len() && b[j] == t;
                lemma_before_irreflexive(t);
                assert(j < b.len() - 1);
                assert(db[j] == t);
            }
            if db.contains(t) {
                let i = choose|i: int| 0 <= i < db.len() && db[i] == t;
                assert(b[i] == t);
                assert(before(b[i], b.last()));
                assert(b.to_set().contains(t));
                assert(a.contains(t));
                let j = choose|j: int| 0 <= j < a.len() && a[j] == t;
                lemma_before_irreflexive(t);
                assert(j < a.len() - 1);
                assert(da[j] == t);
            }
        }
        assert(da.to_set() =~= db.to_set());
        lemma_ascending_unique(da, db);
        assert(a =~= da.push(a.last()));
        assert(b =~= db.push(b.last()));
    }
}

/// Is a text among those of a list?
pub fn list_has(v: &Vec<String>, s: &str) -> (r: bool)
    ensures
        r == texts(v@).contains(s@),
{
    let mut i: usize = 0;
    while i < v.len()
        invariant
            i <= v@.len(),
            forall|k: int| 0 <= k < i ==> #[trigger] texts(v@)[k] != s@,
        decreases v@.len() - i,
    {
        if same(v[i].as_str(), s) {
            assert(texts(v@)[i as int] == s@);
            return true;
        }
        i = i + 1;
    }
    false
}

// ---------------------------------------------------------------------------
// What holds of these operations
// ---------------------------------------------------------------------------

/// White space is these characters, and no others.
pub proof fn law_white_space(c: char)
    ensures
        white(c) <==> "\t\n\u{b}\u{c}\r \u{85}\u{a0}\u{1680}\u{2000}\u{2001}\u{2002}\u{2003}\u{2004}\u{2005}\u{2006}\u{2007}\u{2008}\u{2009}\u{200a}\u{2028}\u{2029}\u{202f}\u{205f}\u{3000}"@.contains(
            c,
        ),
{
    reveal_strlit(
        "\t\n\u{b}\u{c}\r \u{85}\u{a0}\u{1680}\u{2000}\u{2001}\u{2002}\u{2003}\u{2004}\u{2005}\u{2006}\u{2007}\u{2008}\u{2009}\u{200a}\u{2028}\u{2029}\u{202f}\u{205f}\u{3000}",
    );
    let s =
        "\t\n\u{b}\u{c}\r \u{85}\u{a0}\u{1680}\u{2000}\u{2001}\u{2002}\u{2003}\u{2004}\u{2005}\u{2006}\u{2007}\u{2008}\u{2009}\u{200a}\u{2028}\u{2029}\u{202f}\u{205f}\u{3000}"@;
    if white(c) {
        let k = if '\u{9}' <= c <= '\u{d}' {
            c as int - 9
        } else if c == ' ' {
            5
        } else if c == '\u{85}' {
            6
        } else if c == '\u{a0}' {
            7
        } else if c == '\u{1680}' {
            8
        } else if c <= '\u{200a}' {
            9 + (c as int - 0x2000)
        } else if c == '\u{2028}' {
            20
        } else if c == '\u{2029}' {
            21
        } else if c == '\u{202f}' {
            22
        } else if c == '\u{205f}' {
            23
        } else {
            24
        };
        assert(s[k] == c);
    }
}

/// The decimal digits are these characters, and no others; each has its own
/// value.
pub proof fn law_digits(c: char)
    ensures
        digit(c) <==> "0123456789"@.contains(c),
        forall|d: int| 0 <= d < 10 ==> #[trigger] digit_char(d) == "0123456789"@[d],
        forall|d: int|
            0 <= d < 10 ==> #[trigger] digit_value("0123456789"@[d]) == d,
{
    reveal_strlit("0123456789");
    if digit(c) {
        assert("0123456789"@[c as int - '0' as int] == c);
    }
}

/// The letters and digits of ASCII are these characters, and no others.
pub proof fn law_letters_and_digits(c: char)
    ensures
        alphanumeric(c)
            <==> "abcdefghijklmnopqrstuvwxyzABCDEFGHIJKLMNOPQRSTUVWXYZ0123456789"@.contains(c),
{
    reveal_strlit("abcdefghijklmnopqrstuvwxyzABCDEFGHIJKLMNOPQRSTUVWXYZ0123456789");
    if alphanumeric(c) {
        let k = if 'a' <= c <= 'z' {
            c as int - 'a' as int
        } else if 'A' <= c <= 'Z' {
            26 + (c as int - 'A' as int)
        } else {
            52 + (c as int - '0' as int)
        };
        assert("abcdefghijklmnopqrstuvwxyzABCDEFGHIJKLMNOPQRSTUVWXYZ0123456789"@[k] == c);
    }
}

/// A text begins, ends and holds what can be cut off it or out of it.
pub proof fn law_parts(s: Seq<char>, a: Seq<char>, b: Seq<char>, p: Seq<char>)
    ensures
        begins(p + b, p),
        ends(a + p, p),
        holds(a + p + b, p),
        begins(s, p) ==> s == p + s.skip(p.len() as int),
        ends(s, p) ==> s == s.take(s.len() - p.len()) + p,
        holds(s, p) ==> exists|x: Seq<char>, y: Seq<char>| s == #[trigger] (x + p + y),
        after_prefix(p + b, p) == Some(b),
        after_prefix(s, p) is Some <==> begins(s, p),
{
    assert((p + b).subrange(0, p.len() as int) =~= p);
    assert((p + b).subrange(p.len() as int, (p + b).len() as int) =~= b);
    assert((a + p).subrange(a.len() as int, (a + p).len() as int) =~= p);
    assert((a + p + b).subrange(a.len() as int, a.len() as int + p.len()) =~= p);
    assert(occurs_at(a + p + b, p, a.len() as int));
    if begins(s, p) {
        assert(s =~= p + s.skip(p.len() as int));
    }
    if ends(s, p) {
        assert(s =~= s.take(s.len() - p.len()) + p);
    }
    if holds(s, p) {
        let i = choose|i: int| occurs_at(s, p, i);
        assert(s =~= s.take(i) + p + s.skip(i + p.len()));
    }
}

proof fn lemma_trimmed_start_white(a: Seq<char>, m: Seq<char>)
    requires
        forall|i: int| 0 <= i < a.len() ==> white(#[trigger] a[i]),
    ensures
        trimmed_start(a + m) == trimmed_start(m),
    decreases a.len(),
{
    if a.len() == 0 {
        assert(a + m =~= m);
    } else {
        let rest = a.skip(1);
        assert((a + m).subrange(1, (a + m).len() as int) =~= rest + m);
        assert((a + m)[0] == a[0]);
        assert forall|i: int| 0 <= i < rest.len() implies white(#[trigger] rest[i]) by {
            assert(rest[i] == a[i + 1]);
        }
        lemma_trimmed_start_white(rest, m);
    }
}

proof fn lemma_trimmed_end_white(m: Seq<char>, b: Seq<char>)
    requires
        forall|i: int| 0 <= i < b.len() ==> white(#[trigger] b[i]),
    ensures
        trimmed_end(m + b) == trimmed_end(m),
    decreases b.len(),
{
    if b.len() == 0 {
        assert(m + b =~= m);
    } else {
        assert((m + b).drop_last() =~= m + b.drop_last());
        assert((m + b).last() == b[b.len() - 1]);
        lemma_trimmed_end_white(m, b.drop_last());
    }
}

/// Trimming takes the white space off the ends of a text, and nothing else.
pub proof fn law_trimming(a: Seq<char>, m: Seq<char>, b: Seq<char>)
    requires
        forall|i: int| 0 <= i < a.len() ==> white(#[trigger] a[i]),
        forall|i: int| 0 <= i < b.len() ==> white(#[trigger] b[i]),
    ensures
        m.len() > 0 && !white(m[0]) ==> trimmed_start(a + m) == m,
        m.len() > 0 && !white(m.last()) ==> trimmed_end(m + b) == m,
        m.len() > 0 && !white(m[0]) && !white(m.last()) ==> trimmed(a + m + b) == m,
        trimmed_start(a).len() == 0,
        trimmed_end(b).len() == 0,
        trimmed(a).len() == 0,
{
    lemma_trimmed_start_white(a, m);
    lemma_trimmed_end_white(m, b);
    lemma_trimmed_start_white(a, m + b);
    assert(a + m + b =~= a + (m + b));
    lemma_trimmed_start_white(a, Seq::empty());
    assert(a + Seq::<char>::empty() =~= a);
    lemma_trimmed_end_white(Seq::empty(), b);
    assert(Seq::<char>::empty() + b =~= b);
}

proof fn lemma_joined_left(x: Seq<char>, rest: Seq<Seq<char>>, sep: Seq<char>)
    requires
        rest.len() > 0,
    ensures
        joined(seq![x] + rest, sep) == x + sep + joined(rest, sep),
    decreases rest.len(),
{
    let all = seq![x] + rest;
    assert(all.last() == rest.last());
    assert(all.drop_last() =~= seq![x] + rest.drop_last());
    if rest.len() == 1 {
        assert(all.drop_last() =~= seq![x]);
        assert(joined(all.drop_last(), sep) == x);
        assert(joined(rest, sep) == rest.last());
    } else {
        assert(joined(all, sep) == joined(all.drop_last(), sep) + sep + all.last());
        lemma_joined_left(x, rest.drop_last(), sep);
        assert(x + sep + joined(rest.drop_last(), sep) + sep + rest.last() =~= x + sep + joined(
            rest,
            sep,
        ));
    }
}

/// Joining puts the separator between the parts, and only there.
pub proof fn law_joining(x: Seq<char>, rest: Seq<Seq<char>>, sep: Seq<char>)
    ensures
        joined(Seq::empty(), sep).len() == 0,
        joined(seq![x], sep) == x,
        rest.len() > 0 ==> joined(seq![x] + rest, sep) == x + sep + joined(rest, sep),
{
    if rest.len() > 0 {
        lemma_joined_left(x, rest, sep);
    }
}

/// Splitting at a character is the inverse of joining with it.
pub proof fn law_split_is_undone_by_joining(s: Seq<char>, c: char)
    ensures
        joined(split(s, c), seq![c]) == s,
        split(s, c).len() > 0,
        forall|i: int, j: int|
            0 <= i < split(s, c).len() && 0 <= j < split(s, c)[i].len() ==> #[trigger] split(
                s,
                c,
            )[i][j] != c,
    decreases s.len(),
{
    if s.len() > 0 {
        let t = s.drop_last();
        law_split_is_undone_by_joining(t, c);
        let parts = split(t, c);
        assert(s =~= t.push(s.last()));
        if s.last() == c {
            assert(split(s, c).drop_last() =~= parts);
            assert(joined(split(s, c), seq![c]) =~= joined(parts, seq![c]) + seq![c]
                + Seq::<char>::empty());
        } else {
            let longer = split(s, c);
            assert(longer.drop_last() =~= parts.drop_last());
            if parts.len() == 1 {
                assert(joined(longer, seq![c]) =~= joined(parts, seq![c]).push(s.last()));
            } else {
                assert(joined(longer, seq![c]) =~= joined(parts, seq![c]).push(s.last()));
            }
        }
    }
}

/// Parts that do not hold a character come back when what joins them is split
/// at it.
pub proof fn law_joining_is_undone_by_split(parts: Seq<Seq<char>>, c: char)
    requires
        parts.len() > 0,
        forall|i: int, j: int|
            0 <= i < parts.len() && 0 <= j < parts[i].len() ==> #[trigger] parts[i][j] != c,
    ensures
        split(joined(parts, seq![c]), c) == parts,
    decreases parts.len(),
{
    let last = parts.last();
    let empty = Seq::<char>::empty();
    assert forall|j: int| 0 <= j < last.len() implies last[j] != c by {
        assert(parts[parts.len() - 1][j] != c);
    }
    lemma_split_plain(empty, last, c);
    assert(empty + last =~= last);
    assert(split(empty, c) =~= seq![empty]);
    assert(split(last, c) =~= seq![last]);
    if parts.len() == 1 {
        assert(parts =~= seq![last]);
    } else {
        let front = parts.drop_last();
        assert forall|i: int, j: int|
            0 <= i < front.len() && 0 <= j < front[i].len() implies #[trigger] front[i][j] != c by {
            assert(parts[i][j] != c);
        }
        law_joining_is_undone_by_split(front, c);
        let j = joined(front, seq![c]);
        lemma_split_pieces(j, last, c);
        assert(joined(parts, seq![c]) =~= j.push(c) + last);
        assert(split(joined(parts, seq![c]), c) =~= parts);
    }
}

/// The lines of a text are what its line feeds part: each without its line end,
/// and the last one only if there is anything of it.
pub proof fn law_lines(l: Seq<char>, rest: Seq<char>)
    requires
        forall|i: int| 0 <= i < l.len() ==> #[trigger] l[i] != '\n',
    ensures
        l.len() == 0 ==> lines(l).len() == 0,
        l.len() > 0 ==> lines(l) == seq![l],
        l.len() == 0 || l.last() != '\r' ==> lines(l + seq!['\n'] + rest) == seq![l] + lines(rest),
        lines(l + seq!['\r', '\n'] + rest) == seq![l] + lines(rest),
{
    let empty = Seq::<char>::empty();
    let cut = |x: Seq<char>| without_cr(x);
    lemma_split_plain(empty, l, '\n');
    assert(empty + l =~= l);
    assert(split(empty, '\n') =~= seq![empty]);
    assert(split(l, '\n') =~= seq![l]);
    assert(lines(l) =~= if l.len() == 0 {
        Seq::<Seq<char>>::empty()
    } else {
        seq![l]
    });
    lemma_split_nonempty(rest, '\n');
    let parts = split(rest, '\n');
    lemma_split_pieces(l, rest, '\n');
    assert(l + seq!['\n'] + rest =~= l.push('\n') + rest);
    let a = split(l.push('\n') + rest, '\n');
    assert(a =~= seq![l] + parts);
    assert(a.drop_last() =~= seq![l] + parts.drop_last());
    assert(a.drop_last().map_values(cut) =~= seq![without_cr(l)] + parts.drop_last().map_values(
        cut,
    ));
    assert(lines(l + seq!['\n'] + rest) =~= seq![without_cr(l)] + lines(rest));
    let r = l.push('\r');
    assert forall|i: int| 0 <= i < r.len() implies r[i] != '\n' by {
        if i < l.len() {
            assert(l[i] != '\n');
        }
    }
    lemma_split_plain(empty, r, '\n');
    assert(empty + r =~= r);
    assert(split(r, '\n') =~= seq![r]);
    lemma_split_pieces(r, rest, '\n');
    assert(l + seq!['\r', '\n'] + rest =~= r.push('\n') + rest);
    let b = split(r.push('\n') + rest, '\n');
    assert(b =~= seq![r] + parts);
    assert(b.drop_last() =~= seq![r] + parts.drop_last());
    assert(without_cr(r) =~= l);
    assert(b.drop_last().map_values(cut) =~= seq![l] + parts.drop_last().map_values(cut));
    assert(lines(l + seq!['\r', '\n'] + rest) =~= seq![l] + lines(rest));
}

proof fn lemma_split_white_plain(a: Seq<char>, w: Seq<char>)
    requires
        forall|i: int| 0 <= i < w.len() ==> !white(#[trigger] w[i]),
    ensures
        split_white(a).len() > 0,
        split_white(a + w) == split_white(a).drop_last().push(split_white(a).last() + w),
    decreases a.len() + w.len(),
{
    if w.len() > 0 {
        lemma_split_white_plain(a, w.drop_last());
        let parts = split_white(a);
        assert((a + w).drop_last() =~= a + w.drop_last());
        assert((a + w).last() == w[w.len() - 1]);
        let shorter = parts.drop_last().push(parts.last() + w.drop_last());
        assert(shorter.drop_last() =~= parts.drop_last());
        assert((parts.last() + w.drop_last()).push(w.last()) =~= parts.last() + w);
    } else {
        if a.len() > 0 {
            lemma_split_white_plain(a.drop_last(), Seq::empty());
        }
        let parts = split_white(a);
        assert(a + w =~= a);
        assert(parts.last() + w =~= parts.last());
        assert(parts =~= parts.drop_last().push(parts.last()));
    }
}

proof fn lemma_split_white_pieces(a: Seq<char>, c: char, b: Seq<char>)
    requires
        white(c),
    ensures
        split_white(a.push(c) + b) == split_white(a) + split_white(b),
    decreases b.len(),
{
    let whole = a.push(c) + b;
    let none = Seq::<char>::empty();
    lemma_split_white_plain(a, none);
    lemma_split_white_plain(b, none);
    if b.len() == 0 {
        assert(whole =~= a.push(c));
        assert(whole.drop_last() =~= a);
        assert(split_white(whole) =~= split_white(a) + split_white(b));
    } else {
        let shorter = b.drop_last();
        lemma_split_white_pieces(a, c, shorter);
        lemma_split_white_plain(shorter, none);
        assert(whole.drop_last() =~= a.push(c) + shorter);
        assert(split_white(whole) =~= split_white(a) + split_white(b));
    }
}

proof fn lemma_filter_concat(a: Seq<Seq<char>>, b: Seq<Seq<char>>, keep: spec_fn(Seq<char>) -> bool)
    ensures
        (a + b).filter(keep) == a.filter(keep) + b.filter(keep),
    decreases b.len(),
{
    reveal(Seq::filter);
    if b.len() == 0 {
        assert(a + b =~= a);
        assert(b.filter(keep) =~= Seq::<Seq<char>>::empty());
        assert(a.filter(keep) + b.filter(keep) =~= a.filter(keep));
    } else {
        lemma_filter_concat(a, b.drop_last(), keep);
        assert((a + b).drop_last() =~= a + b.drop_last());
        assert((a + b).filter(keep) =~= a.filter(keep) + b.filter(keep));
    }
}

/// The words of a text are what its white space parts, however much of it there
/// is.
pub proof fn law_words(c: char, w: Seq<char>, rest: Seq<char>)
    requires
        forall|i: int| 0 <= i < w.len() ==> !white(#[trigger] w[i]),
        white(c),
    ensures
        words(Seq::<char>::empty()).len() == 0,
        w.len() > 0 ==> words(w) == seq![w],
        w.len() > 0 ==> words(w + seq![c] + rest) == seq![w] + words(rest),
        words(seq![c] + rest) == words(rest),
{
    reveal(Seq::filter);
    let none = Seq::<char>::empty();
    let keep = |x: Seq<char>| x.len() > 0;
    assert(split_white(none) =~= seq![none]);
    lemma_filter_push(Seq::<Seq<char>>::empty(), keep, none);
    assert(Seq::<Seq<char>>::empty().push(none) =~= seq![none]);
    assert(words(none) =~= Seq::<Seq<char>>::empty());
    lemma_split_white_plain(none, w);
    assert(none + w =~= w);
    assert(split_white(w) =~= seq![w]);
    lemma_filter_push(Seq::<Seq<char>>::empty(), keep, w);
    assert(Seq::<Seq<char>>::empty().push(w) =~= seq![w]);
    lemma_split_white_pieces(w, c, rest);
    assert(w + seq![c] + rest =~= w.push(c) + rest);
    lemma_filter_concat(seq![w], split_white(rest), keep);
    if w.len() > 0 {
        assert(seq![w].filter(keep) =~= seq![w]);
    }
    lemma_split_white_pieces(none, c, rest);
    assert(seq![c] + rest =~= none.push(c) + rest);
    lemma_filter_concat(seq![none], split_white(rest), keep);
    assert(seq![none].filter(keep) =~= Seq::<Seq<char>>::empty());
    assert(words(seq![c] + rest) =~= words(rest));
}

/// A text is split around its last `c`: there is none behind it.
pub proof fn law_split_around_the_last(a: Seq<char>, b: Seq<char>, c: char)
    requires
        forall|i: int| 0 <= i < b.len() ==> #[trigger] b[i] != c,
    ensures
        split_last(a + seq![c] + b, c) == Some((a, b)),
        split_last(b, c) is None,
    decreases b.len(),
{
    let s = a + seq![c] + b;
    if b.len() == 0 {
        assert(s.drop_last() =~= a);
        assert(b =~= Seq::<char>::empty());
    } else {
        law_split_around_the_last(a, b.drop_last(), c);
        assert(s.drop_last() =~= a + seq![c] + b.drop_last());
        assert(s.last() == b[b.len() - 1]);
        assert(b.drop_last().push(b.last()) =~= b);
    }
}

proof fn lemma_prefix_at(s: Seq<char>, p: Seq<char>, i: int)
    requires
        0 <= i <= s.len(),
    ensures
        p.is_prefix_of(s.skip(i)) <==> occurs_at(s, p, i),
{
    if i + p.len() <= s.len() {
        assert(s.skip(i).subrange(0, p.len() as int) =~= s.subrange(i, i + p.len()));
    }
}

/// A text is split around the first place where `p` stands: the parts make the
/// text again, and `p` stands nowhere before.
pub proof fn law_split_around_the_first(s: Seq<char>, p: Seq<char>)
    ensures
        match split_first(s, p) {
            Some((a, b)) => {
                &&& s == a + p + b
                &&& forall|i: int| 0 <= i < a.len() ==> !p.is_prefix_of(#[trigger] s.skip(i))
            },
            None => forall|i: int| 0 <= i <= s.len() ==> !p.is_prefix_of(#[trigger] s.skip(i)),
        },
{
    lemma_find_from(s, p, 0);
    match find_from(s, p, 0) {
        Some(k) => {
            let a = s.subrange(0, k);
            let b = s.subrange(k + p.len(), s.len() as int);
            assert(s =~= a + p + b);
            assert forall|i: int| 0 <= i < a.len() implies !p.is_prefix_of(#[trigger] s.skip(i)) by {
                lemma_prefix_at(s, p, i);
            }
        },
        None => {
            assert forall|i: int| 0 <= i <= s.len() implies !p.is_prefix_of(#[trigger] s.skip(i)) by {
                lemma_prefix_at(s, p, i);
            }
        },
    }
}

/// A placeholder is replaced wherever it stands, and the text around it is kept.
/// So it is for a placeholder whose first character stands nowhere else in the
/// text before it.
pub proof fn law_replacing(a: Seq<char>, p: Seq<char>, with: Seq<char>, rest: Seq<char>)
    requires
        p.len() > 0,
        forall|i: int| 0 <= i < a.len() ==> #[trigger] a[i] != p[0],
    ensures
        replaced(a, p, with) == a,
        replaced(a + p + rest, p, with) == a + with + replaced(rest, p, with),
    decreases a.len(),
{
    let s = a + p + rest;
    if a.len() == 0 {
        assert(s.subrange(0, p.len() as int) =~= p);
        assert(s.subrange(p.len() as int, s.len() as int) =~= rest);
        assert(a + with + replaced(rest, p, with) =~= with + replaced(rest, p, with));
    } else {
        let t = a.skip(1);
        assert forall|i: int| 0 <= i < t.len() implies #[trigger] t[i] != p[0] by {
            assert(t[i] == a[i + 1]);
        }
        law_replacing(t, p, with, rest);
        assert(a[0] != p[0]);
        assert(s[0] == a[0]);
        if begins(s, p) {
            assert(s.subrange(0, p.len() as int)[0] == p[0]);
        }
        if begins(a, p) {
            assert(a.subrange(0, p.len() as int)[0] == p[0]);
        }
        assert(a.subrange(1, a.len() as int) =~= t);
        assert(s.subrange(1, s.len() as int) =~= t + p + rest);
        assert(seq![a[0]] + t =~= a);
        assert(seq![a[0]] + (t + with + replaced(rest, p, with)) =~= a + with + replaced(
            rest,
            p,
            with,
        ));
    }
}

/// A cut text is a beginning of the text, as long as the limit allows.
pub proof fn law_cutting(s: Seq<char>, n: nat)
    ensures
        first_chars(s, n as int).is_prefix_of(s),
        first_chars(s, n as int).len() == if s.len() < n {
            s.len()
        } else {
            n
        },
{
    assert(first_chars(s, n as int) =~= s.take(first_chars(s, n as int).len() as int));
}

/// A number is written with its most significant digit first, and without a
/// zero in front.
pub proof fn law_decimal_notation(n: nat, d: nat)
    requires
        d < 10,
    ensures
        decimal(d) == seq!["0123456789"@[d as int]],
        n > 0 ==> decimal(n * 10 + d) == decimal(n).push("0123456789"@[d as int]),
        n > 0 ==> signed_decimal(-(n as int)) == "-"@ + decimal(n),
        signed_decimal(n as int) == decimal(n),
{
    law_digits('0');
    reveal_strlit("-");
    assert("-"@ =~= seq!['-']);
    assert((n * 10 + d) / 10 == n);
    assert((n * 10 + d) % 10 == d);
    assert(digit_char(d as int) == "0123456789"@[d as int]);
}

/// A number is read digit by digit; one plus sign may stand in front, and
/// anything else makes it no number. Nothing above the limit is read.
pub proof fn law_number_reading(s: Seq<char>, d: nat, c: char, max: nat)
    requires
        d < 10,
    ensures
        parsed(Seq::<char>::empty(), max) is None,
        d <= max ==> parsed(seq!["0123456789"@[d as int]], max) == Some(d),
        parsed(s, max) matches Some(n) ==> {
            &&& n <= max
            &&& parsed(s.push("0123456789"@[d as int]), max) == (if n * 10 + d <= max {
                Some(n * 10 + d)
            } else {
                None
            })
        },
        !"0123456789"@.contains(c) ==> parsed(s.push(c), max) is None,
        s.len() > 0 && s[0] != '+' ==> parsed(seq!['+'] + s, max) == parsed(s, max),
        parsed(seq!['+', '+'] + s, max) is None,
{
    law_digits(c);
    law_digits('+');
    reveal_strlit("0123456789");
    let x = "0123456789"@[d as int];
    assert("0123456789"@.contains(x));
    law_digits(x);
    let one = seq![x];
    assert(unsigned_digits(one) =~= one);
    assert(one.drop_last() =~= Seq::<char>::empty());
    assert(digits_value(one.drop_last()) == 0);
    assert(digit_value(x) == d);
    assert(digits_value(one) == d);
    if parsed(s, max) is Some {
        let t = unsigned_digits(s);
        assert(unsigned_digits(s.push(x)) =~= t.push(x));
        assert(t.push(x).drop_last() =~= t);
        assert(digits_value(t.push(x)) == digits_value(t) * 10 + d);
        assert forall|i: int| 0 <= i < t.push(x).len() implies digit(#[trigger] t.push(x)[i]) by {
            if i < t.len() {
                assert(digit(t[i]));
            }
        }
    }
    if !"0123456789"@.contains(c) {
        let u = unsigned_digits(s.push(c));
        if u.len() > 0 {
            assert(u[u.len() - 1] == c);
        }
    }
    let p = seq!['+'] + s;
    assert(p.subrange(1, p.len() as int) =~= s);
    let q = seq!['+', '+'] + s;
    assert(q.subrange(1, q.len() as int)[0] == '+');
}

/// The order of texts is that of a dictionary: the first difference decides, and
/// a text comes before what it is the beginning of.
pub proof fn law_dictionary_order(p: Seq<char>, a: char, x: Seq<char>, b: char, y: Seq<char>)
    ensures
        a < b ==> before(p + seq![a] + x, p + seq![b] + y),
        a < b ==> !before(p + seq![b] + y, p + seq![a] + x),
        before(p, p + seq![b] + y),
        !before(p + seq![b] + y, p),
        !before(p, p),
    decreases p.len(),
{
    let l = p + seq![a] + x;
    let r = p + seq![b] + y;
    if p.len() == 0 {
        assert(l[0] == a);
        assert(r[0] == b);
    } else {
        let t = p.skip(1);
        law_dictionary_order(t, a, x, b, y);
        assert(l.subrange(1, l.len() as int) =~= t + seq![a] + x);
        assert(r.subrange(1, r.len() as int) =~= t + seq![b] + y);
        assert(p.subrange(1, p.len() as int) =~= t);
        assert(l[0] == p[0] && r[0] == p[0]);
    }
}

/// What a placeholder cannot reach across parts a text: its parts are replaced
/// each by itself.
pub proof fn law_replacing_in_parts(x: Seq<char>, y: Seq<char>, p: Seq<char>, with: Seq<char>)
    requires
        p.len() > 0,
        y.len() > 0,
        !p.contains(y[0]),
    ensures
        replaced(x + y, p, with) == replaced(x, p, with) + replaced(y, p, with),
        replaced(y, p, with).len() > 0,
        replaced(y, p, with)[0] == y[0],
        replaced(y, p, with).skip(1) == replaced(y.skip(1), p, with),
    decreases x.len(),
{
    let s = x + y;
    let rest = replaced(y, p, with);
    if begins(y, p) {
        assert(y.subrange(0, p.len() as int)[0] == y[0]);
        assert(p[0] == y[0]);
    }
    assert(y.subrange(1, y.len() as int) =~= y.skip(1));
    assert(seq![y[0]] + y.skip(1) =~= y);
    if y.len() >= p.len() {
        assert((seq![y[0]] + replaced(y.skip(1), p, with)).skip(1) =~= replaced(y.skip(1), p, with));
    }
    if x.len() == 0 {
        assert(s =~= y);
        assert(x + rest =~= rest);
    } else if begins(s, p) {
        if p.len() > x.len() {
            assert(s.subrange(0, p.len() as int)[x.len() as int] == y[0]);
            assert(p[x.len() as int] == y[0]);
        }
        assert(x.subrange(0, p.len() as int) =~= s.subrange(0, p.len() as int));
        let t = x.subrange(p.len() as int, x.len() as int);
        assert(s.subrange(p.len() as int, s.len() as int) =~= t + y);
        law_replacing_in_parts(t, y, p, with);
        assert(with + (replaced(t, p, with) + rest) =~= with + replaced(t, p, with) + rest);
    } else {
        let t = x.subrange(1, x.len() as int);
        law_replacing_in_parts(t, y, p, with);
        assert(s.subrange(1, s.len() as int) =~= t + y);
        assert(s[0] == x[0]);
        if x.len() >= p.len() {
            assert(x.subrange(0, p.len() as int) =~= s.subrange(0, p.len() as int));
        }
        assert(seq![x[0]] + t =~= x);
        if s.len() < p.len() {
            assert(replaced(s, p, with) == s);
            assert(replaced(x, p, with) == x);
            assert(rest == y);
        } else if x.len() < p.len() {
            assert(replaced(t, p, with) == t);
            assert(seq![x[0]] + (t + rest) =~= x + rest);
        } else {
            assert(seq![x[0]] + (replaced(t, p, with) + rest) =~= seq![x[0]] + replaced(t, p, with)
                + rest);
        }
    }
}

} // verus!
