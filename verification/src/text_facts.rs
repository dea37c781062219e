//! Facts about searching, joining and trimming text that the laws of the
//! library rest on.

use crate::text::{
    holds, is_blank, joined, lemma_first_at_or_after, occurs_at, position, split_on, trimmed,
    trimmed_end, trimmed_start,
};
use vstd::prelude::*;

verus! {

/// A text that does not hold `p` has `p` at no index.
pub proof fn lemma_occurs_nowhere(s: Seq<char>, p: Seq<char>)
    requires
        !holds(s, p),
    ensures
        forall|j: int| !occurs_at(s, p, j),
{
    lemma_first_at_or_after(s, p, 0);
}

/// Where `p` stands at `k` and nowhere before, `k` is its position.
pub proof fn lemma_position_found(s: Seq<char>, p: Seq<char>, k: int)
    requires
        occurs_at(s, p, k),
        forall|j: int| 0 <= j < k ==> !occurs_at(s, p, j),
    ensures
        position(s, p) == Some(k),
{
    lemma_first_at_or_after(s, p, 0);
}

/// Where `p` stands at no index, the text does not hold it.
pub proof fn lemma_position_none(s: Seq<char>, p: Seq<char>)
    requires
        forall|j: int| !occurs_at(s, p, j),
    ensures
        position(s, p) is None,
        !holds(s, p),
{
    lemma_first_at_or_after(s, p, 0);
}

/// What `p` stands at in a part of a text, it stands at in the text.
pub proof fn lemma_occurs_in_part(s: Seq<char>, p: Seq<char>, from: int, to: int, j: int)
    requires
        0 <= from <= to <= s.len(),
        occurs_at(s.subrange(from, to), p, j),
    ensures
        occurs_at(s, p, from + j),
{
    assert(s.subrange(from + j, from + j + p.len()) =~= s.subrange(from, to).subrange(
        j,
        j + p.len(),
    ));
}

/// A part of a text that does not hold `p` does not hold it either.
pub proof fn lemma_part_holds_not(s: Seq<char>, p: Seq<char>, from: int, to: int)
    requires
        0 <= from <= to <= s.len(),
        !holds(s, p),
    ensures
        !holds(s.subrange(from, to), p),
{
    lemma_occurs_nowhere(s, p);
    assert forall|j: int| !occurs_at(s.subrange(from, to), p, j) by {
        if occurs_at(s.subrange(from, to), p, j) {
            lemma_occurs_in_part(s, p, from, to, j);
        }
    }
    lemma_position_none(s.subrange(from, to), p);
}

/// Joined parts begin with the first part and the separator.
pub proof fn lemma_joined_front(parts: Seq<Seq<char>>, sep: Seq<char>)
    requires
        parts.len() >= 2,
    ensures
        joined(parts, sep) == parts[0] + sep + joined(parts.skip(1), sep),
    decreases parts.len(),
{
    if parts.len() == 2 {
        assert(joined(parts.drop_last(), sep) == parts[0]);
    } else {
        let shorter = parts.drop_last();
        lemma_joined_front(shorter, sep);
        assert(shorter.skip(1) =~= parts.skip(1).drop_last());
    }
}

/// How many characters of white space `s` begins with.
pub open spec fn blank_lead(s: Seq<char>) -> nat
    decreases s.len(),
{
    if s.len() > 0 && is_blank(s[0]) {
        1 + blank_lead(s.skip(1))
    } else {
        0
    }
}

/// How many characters of white space `s` ends with.
pub open spec fn blank_tail(s: Seq<char>) -> nat
    decreases s.len(),
{
    if s.len() > 0 && is_blank(s.last()) {
        1 + blank_tail(s.drop_last())
    } else {
        0
    }
}

/// Trimming at the start leaves the text after its leading white space.
pub proof fn lemma_trimmed_start(s: Seq<char>)
    ensures
        blank_lead(s) <= s.len(),
        trimmed_start(s) == s.skip(blank_lead(s) as int),
        trimmed_start(s).len() > 0 ==> !is_blank(trimmed_start(s)[0]),
    decreases s.len(),
{
    if s.len() > 0 && is_blank(s[0]) {
        lemma_trimmed_start(s.skip(1));
    }
}

/// Trimming at the end leaves the text before its trailing white space.
pub proof fn lemma_trimmed_end(s: Seq<char>)
    ensures
        blank_tail(s) <= s.len(),
        trimmed_end(s) == s.take(s.len() - blank_tail(s)),
        trimmed_end(s).len() > 0 ==> !is_blank(trimmed_end(s).last()),
    decreases s.len(),
{
    if s.len() > 0 && is_blank(s.last()) {
        lemma_trimmed_end(s.drop_last());
    }
}

/// A trimmed text is a part of the text.
pub proof fn lemma_trimmed_is_part(s: Seq<char>)
    ensures
        blank_lead(s) + blank_tail(trimmed_start(s)) <= s.len(),
        trimmed(s) == s.subrange(
            blank_lead(s) as int,
            s.len() - blank_tail(trimmed_start(s)),
        ),
{
    lemma_trimmed_start(s);
    lemma_trimmed_end(trimmed_start(s));
}

/// A text that begins and ends with no white space is its own trimming.
pub proof fn lemma_trimmed_fixed(s: Seq<char>)
    requires
        s.len() > 0 ==> !is_blank(s[0]) && !is_blank(s.last()),
    ensures
        trimmed(s) == s,
{
}

/// Trimming a trimmed text changes nothing.
pub proof fn lemma_trimmed_twice(s: Seq<char>)
    ensures
        trimmed(trimmed(s)) == trimmed(s),
{
    lemma_trimmed_start(s);
    let t = trimmed_start(s);
    lemma_trimmed_end(t);
    let r = trimmed_end(t);
    lemma_trimmed_fixed(r);
}

/// White space before a text does not change what trimming leaves.
pub proof fn lemma_trimmed_after_blank(b: char, s: Seq<char>)
    requires
        is_blank(b),
    ensures
        trimmed(seq![b] + s) == trimmed(s),
{
    assert((seq![b] + s).skip(1) =~= s);
}

/// White space after a text does not change what trimming leaves.
pub proof fn lemma_trimmed_before_blank(s: Seq<char>, b: char)
    requires
        is_blank(b),
    ensures
        trimmed(s.push(b)) == trimmed(s),
    decreases s.len(),
{
    if s.len() == 0 {
        assert(s.push(b).skip(1) =~= Seq::<char>::empty());
        assert(trimmed_start(s.push(b)) == trimmed_start(Seq::<char>::empty()));
    } else if is_blank(s[0]) {
        lemma_trimmed_before_blank(s.skip(1), b);
        assert(s.push(b).skip(1) =~= s.skip(1).push(b));
    } else {
        assert(s.push(b).drop_last() =~= s);
    }
}

/// A text that holds a character that is no white space is not trimmed to
/// nothing.
pub proof fn lemma_trimmed_not_empty(s: Seq<char>, i: int)
    requires
        0 <= i < s.len(),
        !is_blank(s[i]),
    ensures
        trimmed(s).len() > 0,
{
    lemma_trimmed_start(s);
    let a = blank_lead(s) as int;
    lemma_lead_is_blank(s, i);
    let t = trimmed_start(s);
    lemma_trimmed_end(t);
    lemma_tail_is_blank(t, i - a);
}

/// Before a character that is no white space lies all leading white
/// space.
pub proof fn lemma_lead_is_blank(s: Seq<char>, i: int)
    requires
        0 <= i < s.len(),
        !is_blank(s[i]),
    ensures
        blank_lead(s) <= i,
    decreases s.len(),
{
    if is_blank(s[0]) {
        lemma_lead_is_blank(s.skip(1), i - 1);
    }
}

/// After a character that is no white space lies all trailing white
/// space.
pub proof fn lemma_tail_is_blank(s: Seq<char>, i: int)
    requires
        0 <= i < s.len(),
        !is_blank(s[i]),
    ensures
        blank_tail(s) < s.len() - i,
    decreases s.len(),
{
    if is_blank(s.last()) {
        lemma_tail_is_blank(s.drop_last(), i);
    }
}

/// A trimmed text holds nothing that the text does not hold.
pub proof fn lemma_trimmed_holds_not(s: Seq<char>, p: Seq<char>)
    requires
        !holds(s, p),
    ensures
        !holds(trimmed(s), p),
{
    lemma_trimmed_is_part(s);
    lemma_part_holds_not(
        s,
        p,
        blank_lead(s) as int,
        s.len() - blank_tail(trimmed_start(s)),
    );
}

/// No piece of a split text holds what the text was split at.
pub proof fn lemma_split_pieces(s: Seq<char>, p: Seq<char>)
    requires
        p.len() > 0,
    ensures
        forall|i: int| 0 <= i < split_on(s, p).len() ==> !holds(#[trigger] split_on(s, p)[i], p),
    decreases s.len(),
{
    lemma_first_at_or_after(s, p, 0);
    match position(s, p) {
        None => {},
        Some(k) => {
            let rest = s.skip(k + p.len());
            lemma_split_pieces(rest, p);
            let first = s.take(k);
            assert forall|j: int| !occurs_at(first, p, j) by {
                if occurs_at(first, p, j) {
                    lemma_occurs_in_part(s, p, 0, k, j);
                }
            }
            lemma_position_none(first, p);
            let all = split_on(s, p);
            assert(all == seq![first] + split_on(rest, p));
        },
    }
}

} // verus!
