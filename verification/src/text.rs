//! Character sequences: the operations on text that the rest of the crate
//! is specified over, each with the `Seq<char>` function it computes.

use vstd::prelude::*;

verus! {

/// `String::push` appends one character and leaves the rest unchanged.
pub assume_specification[ String::push ](s: &mut String, c: char)
    ensures
        final(s)@ == old(s)@.push(c),
;

/// The texts held by a sequence of strings.
pub open spec fn texts(v: Seq<String>) -> Seq<Seq<char>> {
    Seq::new(v.len(), |i: int| v[i]@)
}

/// `p` stands in `s` at index `i`.
pub open spec fn occurs_at(s: Seq<char>, p: Seq<char>, i: int) -> bool {
    0 <= i && i + p.len() <= s.len() && s.subrange(i, i + p.len()) == p
}

/// The least index at or after `i` at which `p` stands in `s`.
pub open spec fn first_at_or_after(s: Seq<char>, p: Seq<char>, i: int) -> Option<int>
    decreases s.len() - i + 1,
{
    if i < 0 || i + p.len() > s.len() {
        None
    } else if occurs_at(s, p, i) {
        Some(i)
    } else {
        first_at_or_after(s, p, i + 1)
    }
}

/// The index of the first occurrence of `p` in `s`.
pub open spec fn position(s: Seq<char>, p: Seq<char>) -> Option<int> {
    first_at_or_after(s, p, 0)
}

/// `p` occurs somewhere in `s`.
pub open spec fn holds(s: Seq<char>, p: Seq<char>) -> bool {
    position(s, p) is Some
}

/// `s` with every occurrence of `p`, taken leftmost first and without
/// overlap, replaced by `w`. An empty `p` occurs nowhere.
pub open spec fn replaced(s: Seq<char>, p: Seq<char>, w: Seq<char>) -> Seq<char>
    decreases s.len(),
{
    if p.len() == 0 || s.len() < p.len() {
        s
    } else if occurs_at(s, p, 0) {
        w + replaced(s.skip(p.len() as int), p, w)
    } else {
        seq![s[0]] + replaced(s.skip(1), p, w)
    }
}

/// The parts in order, with `sep` between each two neighbours.
pub open spec fn joined(parts: Seq<Seq<char>>, sep: Seq<char>) -> Seq<char>
    decreases parts.len(),
{
    if parts.len() == 0 {
        Seq::empty()
    } else if parts.len() == 1 {
        parts[0]
    } else {
        joined(parts.drop_last(), sep) + sep + parts.last()
    }
}

/// The white space that trimming removes.
pub open spec fn is_blank(c: char) -> bool {
    c == ' ' || c == '\t' || c == '\n' || c == '\r' || c == '\u{b}' || c == '\u{c}'
        || c == '\u{85}' || c == '\u{a0}' || c == '\u{1680}' || ('\u{2000}' <= c
        && c <= '\u{200a}') || c == '\u{2028}' || c == '\u{2029}' || c == '\u{202f}'
        || c == '\u{205f}' || c == '\u{3000}'
}

/// `s` without its leading white space.
pub open spec fn trimmed_start(s: Seq<char>) -> Seq<char>
    decreases s.len(),
{
    if s.len() > 0 && is_blank(s[0]) {
        trimmed_start(s.skip(1))
    } else {
        s
    }
}

/// `s` without its trailing white space.
pub open spec fn trimmed_end(s: Seq<char>) -> Seq<char>
    decreases s.len(),
{
    if s.len() > 0 && is_blank(s.last()) {
        trimmed_end(s.drop_last())
    } else {
        s
    }
}

/// `s` without white space at either end.
pub open spec fn trimmed(s: Seq<char>) -> Seq<char> {
    trimmed_end(trimmed_start(s))
}

/// The pieces of `s` between the occurrences of `p`, taken leftmost first
/// and without overlap. An empty `p` splits nothing.
pub open spec fn split_on(s: Seq<char>, p: Seq<char>) -> Seq<Seq<char>>
    decreases s.len(),
{
    if p.len() == 0 {
        seq![s]
    } else {
        match position(s, p) {
            None => seq![s],
            Some(i) => if 0 <= i && i + p.len() <= s.len() {
                seq![s.take(i)] + split_on(s.skip(i + p.len()), p)
            } else {
                seq![s]
            },
        }
    }
}

/// `s` with each character for which `from` holds replaced by `to`.
pub open spec fn with_char(s: Seq<char>, from: char, to: char) -> Seq<char> {
    Seq::new(s.len(), |i: int| if s[i] == from { to } else { s[i] })
}

/// An occurrence found from index `i` on lies within `s`, at or after `i`,
/// and nothing occurs between `i` and it.
pub proof fn lemma_first_at_or_after(s: Seq<char>, p: Seq<char>, i: int)
    requires
        0 <= i,
    ensures
        match first_at_or_after(s, p, i) {
            Some(k) => i <= k && occurs_at(s, p, k) && forall|j: int|
                i <= j < k ==> !occurs_at(s, p, j),
            None => forall|j: int| i <= j ==> !occurs_at(s, p, j),
        },
    decreases s.len() - i + 1,
{
    if i + p.len() <= s.len() && !occurs_at(s, p, i) {
        lemma_first_at_or_after(s, p, i + 1);
    }
}

/// Splitting always yields at least one piece.
pub proof fn lemma_split_nonempty(s: Seq<char>, p: Seq<char>)
    ensures
        split_on(s, p).len() >= 1,
{
}

/// The texts of a sequence that grew by one string.
pub proof fn lemma_texts_push(v: Seq<String>, s: String)
    ensures
        texts(v.push(s)) == texts(v).push(s@),
{
}

/// The characters of `s`, in order.
pub fn chars_of(s: &str) -> (v: Vec<char>)
    ensures
        v@ == s@,
{
    let mut v: Vec<char> = Vec::new();
    for c in it: s.chars()
        invariant
            v@ == it.seq().take(it.index()),
            it.seq() == s@,
    {
        v.push(c);
    }
    v
}

/// The string that holds the characters of `v` from `from` up to `to`.
pub fn string_of_range(v: &Vec<char>, from: usize, to: usize) -> (s: String)
    requires
        from <= to <= v.len(),
    ensures
        s@ == v@.subrange(from as int, to as int),
{
    let mut s = String::new();
    let mut i: usize = from;
    while i < to
        invariant
            from <= i <= to <= v.len(),
            s@ == v@.subrange(from as int, i as int),
        decreases to - i,
    {
        s.push(v[i]);
        i += 1;
    }
    s
}

/// The string that holds exactly the characters of `v`.
pub fn string_of(v: &Vec<char>) -> (s: String)
    ensures
        s@ == v@,
{
    string_of_range(v, 0, v.len())
}

/// Whether `p` stands in `s` at index `i`.
pub fn occurs(s: &Vec<char>, p: &Vec<char>, i: usize) -> (r: bool)
    ensures
        r == occurs_at(s@, p@, i as int),
{
    if p.len() > s.len() || i > s.len() - p.len() {
        return false;
    }
    let mut k: usize = 0;
    while k < p.len()
        invariant
            k <= p.len(),
            i + p.len() <= s.len(),
            forall|j: int| 0 <= j < k ==> s@[i + j] == p@[j],
        decreases p.len() - k,
    {
        if s[i + k] != p[k] {
            return false;
        }
        k += 1;
    }
    assert(s@.subrange(i as int, i + p.len()) =~= p@);
    true
}

/// The first index at or after `start` at which `p` stands in `s`.
pub fn find_in(s: &Vec<char>, p: &Vec<char>, start: usize) -> (r: Option<usize>)
    ensures
        match r {
            Some(k) => first_at_or_after(s@, p@, start as int) == Some(k as int),
            None => first_at_or_after(s@, p@, start as int) is None,
        },
{
    if p.len() > s.len() {
        return None;
    }
    let last: usize = s.len() - p.len();
    let mut i: usize = start;
    while i <= last
        invariant
            start <= i,
            last == s.len() - p.len(),
            first_at_or_after(s@, p@, start as int) == first_at_or_after(s@, p@, i as int),
        decreases last + 1 - i,
    {
        if occurs(s, p, i) {
            return Some(i);
        }
        if i == last {
            assert(first_at_or_after(s@, p@, i + 1) is None);
            return None;
        }
        i += 1;
    }
    None
}

/// Whether two strings hold the same text.
pub fn same(a: &str, b: &str) -> (r: bool)
    ensures
        r == (a@ == b@),
{
    let x = chars_of(a);
    let y = chars_of(b);
    if x.len() != y.len() {
        return false;
    }
    let r = occurs(&x, &y, 0);
    assert(x@.subrange(0, x@.len() as int) == x@);
    r
}

/// Whether `s` begins with `p`.
pub fn starts_with(s: &str, p: &str) -> (r: bool)
    ensures
        r == p@.is_prefix_of(s@),
{
    let x = chars_of(s);
    let y = chars_of(p);
    occurs(&x, &y, 0)
}

/// Whether `s` ends with `p`.
pub fn ends_with(s: &str, p: &str) -> (r: bool)
    ensures
        r == p@.is_suffix_of(s@),
{
    let x = chars_of(s);
    let y = chars_of(p);
    if y.len() > x.len() {
        return false;
    }
    occurs(&x, &y, x.len() - y.len())
}

/// The index of the first occurrence of `p` in `s`.
pub fn find(s: &str, p: &str) -> (r: Option<usize>)
    ensures
        match r {
            Some(k) => position(s@, p@) == Some(k as int),
            None => position(s@, p@) is None,
        },
{
    let x = chars_of(s);
    let y = chars_of(p);
    find_in(&x, &y, 0)
}

/// Whether `p` occurs in `s`.
pub fn contains(s: &str, p: &str) -> (r: bool)
    ensures
        r == holds(s@, p@),
{
    find(s, p).is_some()
}

/// The characters of `s` from `from` up to `to`, as a string.
pub fn slice(s: &str, from: usize, to: usize) -> (r: String)
    requires
        from <= to <= s@.len(),
    ensures
        r@ == s@.subrange(from as int, to as int),
{
    let x = chars_of(s);
    string_of_range(&x, from, to)
}

/// `s` with every occurrence of `p` replaced by `w`.
pub fn replace(s: &str, p: &str, w: &str) -> (r: String)
    ensures
        r@ == replaced(s@, p@, w@),
{
    let x = chars_of(s);
    let y = chars_of(p);
    let mut out = String::new();
    if y.len() == 0 {
        out.append(s);
        return out;
    }
    let mut i: usize = 0;
    assert(x@.skip(0) == x@);
    while i < x.len()
        invariant
            i <= x.len(),
            y.len() > 0,
            x@ == s@,
            y@ == p@,
            out@ + replaced(x@.skip(i as int), y@, w@) == replaced(x@, y@, w@),
        decreases x.len() - i,
    {
        let ghost rest = x@.skip(i as int);
        assert(occurs_at(x@, y@, i as int) == occurs_at(rest, y@, 0)) by {
            if i + y.len() <= x.len() {
                assert(rest.subrange(0, y@.len() as int) == x@.subrange(
                    i as int,
                    i + y@.len(),
                ));
            }
        }
        if occurs(&x, &y, i) {
            out.append(w);
            assert(rest.skip(y@.len() as int) == x@.skip(i + y@.len()));
            i += y.len();
        } else {
            out.push(x[i]);
            assert(rest.skip(1) == x@.skip(i + 1));
            i += 1;
        }
    }
    out
}

/// The strings of `parts` in order, with `sep` between neighbours.
pub fn join(parts: &Vec<String>, sep: &str) -> (r: String)
    ensures
        r@ == joined(texts(parts@), sep@),
{
    let mut out = String::new();
    let mut i: usize = 0;
    while i < parts.len()
        invariant
            i <= parts.len(),
            out@ == joined(texts(parts@).take(i as int), sep@),
        decreases parts.len() - i,
    {
        let ghost done = texts(parts@).take(i as int);
        let ghost next = texts(parts@).take(i + 1);
        assert(next.drop_last() == done);
        if i > 0 {
            out.append(sep);
        }
        out.append(parts[i].as_str());
        i += 1;
    }
    assert(texts(parts@).take(parts.len() as int) == texts(parts@));
    out
}

/// Whether trimming removes `c`.
pub fn blank(c: char) -> (r: bool)
    ensures
        r == is_blank(c),
{
    c == ' ' || c == '\t' || c == '\n' || c == '\r' || c == '\u{b}' || c == '\u{c}' || c
        == '\u{85}' || c == '\u{a0}' || c == '\u{1680}' || ('\u{2000}' <= c && c <= '\u{200a}')
        || c == '\u{2028}' || c == '\u{2029}' || c == '\u{202f}' || c == '\u{205f}' || c
        == '\u{3000}'
}

/// `s` without white space at either end.
pub fn trim(s: &str) -> (r: String)
    ensures
        r@ == trimmed(s@),
{
    let x = chars_of(s);
    let mut from: usize = 0;
    assert(x@.skip(0) == x@);
    while from < x.len() && blank(x[from])
        invariant
            from <= x.len(),
            trimmed_start(x@) == trimmed_start(x@.skip(from as int)),
        decreases x.len() - from,
    {
        assert(x@.skip(from as int).skip(1) == x@.skip(from + 1));
        from += 1;
    }
    let mut to: usize = x.len();
    while to > from && blank(x[to - 1])
        invariant
            from <= to <= x.len(),
            trimmed_start(x@) == x@.subrange(from as int, x.len() as int),
            trimmed(x@) == trimmed_end(x@.subrange(from as int, to as int)),
        decreases to - from,
    {
        assert(x@.subrange(from as int, to as int).drop_last() == x@.subrange(
            from as int,
            to - 1,
        ));
        to -= 1;
    }
    string_of_range(&x, from, to)
}

/// The pieces of `s` between the occurrences of `p`.
pub fn split(s: &str, p: &str) -> (r: Vec<String>)
    ensures
        texts(r@) == split_on(s@, p@),
{
    let x = chars_of(s);
    let y = chars_of(p);
    let mut out: Vec<String> = Vec::new();
    if y.len() == 0 {
        out.push(string_of(&x));
        return out;
    }
    let mut from: usize = 0;
    assert(x@.skip(0) == x@);
    loop
        invariant
            from <= x.len(),
            y.len() > 0,
            x@ == s@,
            y@ == p@,
            texts(out@) + split_on(x@.skip(from as int), y@) == split_on(x@, y@),
        decreases x.len() - from,
    {
        let ghost rest = x@.skip(from as int);
        let ghost before = out@;
        proof {
            lemma_position_skip(x@, y@, from as int);
        }
        match find_in(&x, &y, from) {
            None => {
                out.push(string_of_range(&x, from, x.len()));
                proof {
                    lemma_texts_push(before, out@.last());
                }
                return out;
            },
            Some(k) => {
                proof {
                    lemma_first_at_or_after(x@, y@, from as int);
                }
                out.push(string_of_range(&x, from, k));
                proof {
                    lemma_texts_push(before, out@.last());
                    assert(x@.subrange(from as int, k as int) == rest.take(k - from));
                    assert(rest.skip(k - from + y@.len()) == x@.skip(k + y@.len()));
                }
                from = k + y.len();
            },
        }
    }
}

/// Searching the rest of `s` from `i` on finds what searching `s` from `i`
/// finds, counted from `i`.
pub proof fn lemma_position_skip(s: Seq<char>, p: Seq<char>, i: int)
    requires
        0 <= i <= s.len(),
    ensures
        position(s.skip(i), p) == match first_at_or_after(s, p, i) {
            Some(k) => Some(k - i),
            None => None,
        },
{
    lemma_search_shift(s, p, i, 0);
}

/// Searching the rest of `s` from `j` on and searching `s` from `i + j` on
/// find the same occurrence.
pub proof fn lemma_search_shift(s: Seq<char>, p: Seq<char>, i: int, j: int)
    requires
        0 <= i <= s.len(),
        0 <= j,
    ensures
        first_at_or_after(s.skip(i), p, j) == match first_at_or_after(s, p, i + j) {
            Some(k) => Some(k - i),
            None => None,
        },
    decreases s.len() - i - j + 1,
{
    let t = s.skip(i);
    if j + p.len() <= t.len() {
        assert(t.subrange(j, j + p.len()) == s.subrange(i + j, i + j + p.len()));
        if !occurs_at(t, p, j) {
            lemma_search_shift(s, p, i, j + 1);
        }
    }
}

/// `s` with each `from` replaced by `to`.
pub fn replace_char(s: &str, from: char, to: char) -> (r: String)
    ensures
        r@ == with_char(s@, from, to),
{
    let x = chars_of(s);
    let mut out = String::new();
    let mut i: usize = 0;
    while i < x.len()
        invariant
            i <= x.len(),
            x@ == s@,
            out@ == with_char(x@.take(i as int), from, to),
        decreases x.len() - i,
    {
        let c = if x[i] == from {
            to
        } else {
            x[i]
        };
        out.push(c);
        i += 1;
    }
    out
}

/// Appends one string to `out`.
pub fn push_text(out: &mut Vec<String>, s: String)
    ensures
        texts(final(out)@) == texts(old(out)@).push(s@),
        final(out)@ == old(out)@.push(s),
{
    proof {
        lemma_texts_push(out@, s);
    }
    out.push(s);
}

/// Appends copies of the strings of `more` to `out`.
pub fn append_texts(out: &mut Vec<String>, more: &Vec<String>)
    ensures
        texts(final(out)@) == texts(old(out)@) + texts(more@),
{
    let mut i: usize = 0;
    while i < more.len()
        invariant
            i <= more.len(),
            texts(out@) == texts(old(out)@) + texts(more@).take(i as int),
        decreases more.len() - i,
    {
        push_text(out, more[i].clone());
        i += 1;
    }
}

/// `a` followed by `b`, as a new string.
pub fn glue(a: &str, b: &str) -> (r: String)
    ensures
        r@ == a@ + b@,
{
    let mut out = a.to_string();
    out.append(b);
    out
}

} // verus!
