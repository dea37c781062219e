//! Merges the configuration of one project into a clangd configuration
//! that other projects may have written to: the head is written anew, the
//! fragments of other projects stay, and the fragment that declares this
//! project's own pattern is replaced.

use crate::text::{
    chars_of, find, holds, join, joined, lemma_first_at_or_after, occurs_at, position, push_text,
    same, slice, split, split_on, texts, trim, trimmed,
};
use crate::text_facts::{
    lemma_joined_front, lemma_occurs_nowhere, lemma_position_found, lemma_position_none,
    lemma_split_pieces, lemma_trimmed_after_blank, lemma_trimmed_before_blank,
    lemma_trimmed_holds_not, lemma_trimmed_not_empty, lemma_trimmed_twice,
};
use vstd::prelude::*;

verus! {

/// What `s` holds up to its first line break, or all of it.
pub open spec fn first_line(s: Seq<char>) -> Seq<char> {
    match position(s, "\n"@) {
        Some(i) => s.take(i),
        None => s,
    }
}

/// The pattern that a fragment declares: what follows its first
/// `PathMatch: ` on the same line, without white space around it. A
/// fragment without such a line declares none.
pub open spec fn declared_pattern(part: Seq<char>) -> Option<Seq<char>> {
    match position(part, "PathMatch: "@) {
        Some(i) => Some(trimmed(first_line(part.skip(i + "PathMatch: "@.len())))),
        None => None,
    }
}

/// The fragment is that of the project with the given pattern: the
/// pattern that it declares is that pattern, white space around either
/// aside.
pub open spec fn declares(part: Seq<char>, path_match: Seq<char>) -> bool {
    declared_pattern(part) == Some(trimmed(path_match))
}

/// Those of the first `n` parts that stay: each trimmed, and without
/// those that declare the pattern.
pub open spec fn kept_parts(parts: Seq<Seq<char>>, path_match: Seq<char>, n: int) -> Seq<
    Seq<char>,
>
    decreases n,
{
    if n <= 0 {
        Seq::empty()
    } else if declares(trimmed(parts[n - 1]), path_match) {
        kept_parts(parts, path_match, n - 1)
    } else {
        kept_parts(parts, path_match, n - 1).push(trimmed(parts[n - 1]))
    }
}

/// The fragments of an existing configuration: what follows its head,
/// split at the document separator.
pub open spec fn fragments_of(existing: Seq<char>) -> Seq<Seq<char>> {
    split_on(existing, "\n---"@).skip(1)
}

/// The parts of the merged configuration: the new head, the fragments of
/// other projects, and the project's fragment last. A blank configuration
/// has no fragments.
pub open spec fn merged_parts(
    existing: Seq<char>,
    head: Seq<char>,
    path_match: Seq<char>,
    fragment: Seq<char>,
) -> Seq<Seq<char>> {
    if trimmed(existing).len() == 0 {
        seq![head, fragment]
    } else {
        seq![head] + kept_parts(
            fragments_of(existing),
            path_match,
            fragments_of(existing).len() as int,
        ) + seq![fragment]
    }
}

/// The merged configuration: its parts with the document separator
/// between them.
pub open spec fn merged(
    existing: Seq<char>,
    head: Seq<char>,
    path_match: Seq<char>,
    fragment: Seq<char>,
) -> Seq<char> {
    joined(merged_parts(existing, head, path_match, fragment), "\n\n---\n"@)
}

/// The pattern that a fragment declares.
pub fn pattern_declared_in(part: &str) -> (r: Option<String>)
    ensures
        match r {
            Some(p) => declared_pattern(part@) == Some(p@),
            None => declared_pattern(part@) is None,
        },
{
    match find(part, "PathMatch: ") {
        Some(i) => {
            proof {
                reveal_strlit("PathMatch: ");
                lemma_first_at_or_after(part@, "PathMatch: "@, 0);
            }
            let n = chars_of(part).len();
            let rest = slice(part, i + 11, n);
            assert(rest@ == part@.skip(i + 11));
            match find(rest.as_str(), "\n") {
                Some(j) => {
                    proof {
                        reveal_strlit("\n");
                        lemma_first_at_or_after(rest@, "\n"@, 0);
                    }
                    assert(rest@.subrange(0, j as int) == rest@.take(j as int));
                    Some(trim(slice(rest.as_str(), 0, j).as_str()))
                },
                None => Some(trim(rest.as_str())),
            }
        },
        None => None,
    }
}

/// Whether the fragment is that of the project with the given pattern.
pub fn is_declared_by(part: &str, path_match: &str) -> (r: bool)
    ensures
        r == declares(part@, path_match@),
{
    match pattern_declared_in(part) {
        Some(p) => same(p.as_str(), trim(path_match).as_str()),
        None => false,
    }
}

/// The configuration that holds the new head, the fragments of the other
/// projects in `existing`, and the fragment of this project.
pub fn merge_clangd_config(
    existing: &str,
    head: &str,
    path_match: &str,
    fragment: &str,
) -> (r: String)
    ensures
        r@ == merged(existing@, head@, path_match@, fragment@),
{
    let mut parts: Vec<String> = Vec::new();
    push_text(&mut parts, head.to_string());
    if trim(existing).as_str().unicode_len() > 0 {
        let old = split(existing, "\n---");
        proof {
            crate::text::lemma_split_nonempty(existing@, "\n---"@);
        }
        let ghost rest = fragments_of(existing@);
        let mut i: usize = 1;
        while i < old.len()
            invariant
                1 <= i <= old.len(),
                texts(old@) == split_on(existing@, "\n---"@),
                rest == fragments_of(existing@),
                texts(parts@) == seq![head@] + kept_parts(rest, path_match@, i - 1),
            decreases old.len() - i,
        {
            let part = trim(old[i].as_str());
            if !is_declared_by(part.as_str(), path_match) {
                push_text(&mut parts, part);
            }
            i += 1;
        }
    }
    push_text(&mut parts, fragment.to_string());
    assert(texts(parts@) =~= merged_parts(existing@, head@, path_match@, fragment@));
    join(&parts, "\n\n---\n")
}

/// The fragments that stay from an existing configuration when the
/// project with the given pattern is merged into it.
pub open spec fn staying(existing: Seq<char>, path_match: Seq<char>) -> Seq<Seq<char>> {
    if trimmed(existing).len() == 0 {
        Seq::empty()
    } else {
        kept_parts(fragments_of(existing), path_match, fragments_of(existing).len() as int)
    }
}

/// The pieces that joined parts are split into: each part with the line
/// break that the separator leaves on either side of it, and `lead` before
/// the first.
pub open spec fn framed(parts: Seq<Seq<char>>, lead: Seq<char>) -> Seq<Seq<char>> {
    Seq::new(
        parts.len(),
        |i: int|
            (if i == 0 {
                lead
            } else {
                seq!['\n']
            }) + parts[i] + (if i + 1 < parts.len() {
                seq!['\n']
            } else {
                Seq::empty()
            }),
    )
}

/// In a text made of `lead`, a part and what follows it, the first
/// separator is the one that follows the part: none where nothing
/// follows.
pub proof fn lemma_first_separator(lead: Seq<char>, part: Seq<char>, tail: Seq<char>)
    requires
        lead.len() == 0 || lead == seq!['\n'],
        !holds(part, "\n---"@),
        lead.len() > 0 ==> !"---"@.is_prefix_of(part),
        tail.len() == 0 || "\n\n---\n"@.is_prefix_of(tail),
    ensures
        tail.len() == 0 ==> position(lead + part + tail, "\n---"@) is None,
        tail.len() > 0 ==> position(lead + part + tail, "\n---"@) == Some(
            (lead.len() + part.len() + 1) as int,
        ),
{
    reveal_strlit("\n---");
    reveal_strlit("\n\n---\n");
    reveal_strlit("---");
    let s = lead + part + tail;
    let sep = "\n---"@;
    let a = lead.len() as int;
    let n = part.len() as int;
    let k = a + n + 1;
    lemma_occurs_nowhere(part, sep);
    if tail.len() > 0 {
        assert(tail[0] == tail.subrange(0, 6)[0]);
        assert(tail[1] == tail.subrange(0, 6)[1]);
        assert(tail[2] == tail.subrange(0, 6)[2]);
        assert(tail[3] == tail.subrange(0, 6)[3]);
        assert(tail[4] == tail.subrange(0, 6)[4]);
    }
    assert forall|j: int| (tail.len() == 0 || j < k) implies !occurs_at(s, sep, j) by {
        if occurs_at(s, sep, j) {
            let w = s.subrange(j, j + 4);
            assert(w[0] == s[j] && w[1] == s[j + 1] && w[2] == s[j + 2] && w[3] == s[j + 3]);
            if a <= j && j + 4 <= a + n {
                assert(part.subrange(j - a, j - a + 4) =~= w);
                assert(occurs_at(part, sep, j - a));
            }
        }
    }
    if tail.len() > 0 {
        assert(s.subrange(k, k + 4) =~= sep);
        lemma_position_found(s, sep, k);
    } else {
        lemma_position_none(s, sep);
    }
}

/// Joined parts that hold no separator of their own, and of which none
/// after `lead` begins like one, are split into the parts again, each
/// framed by the line breaks of the separator.
pub proof fn lemma_split_joined(parts: Seq<Seq<char>>, lead: Seq<char>)
    requires
        parts.len() >= 1,
        lead.len() == 0 || lead == seq!['\n'],
        forall|i: int| 0 <= i < parts.len() ==> !holds(#[trigger] parts[i], "\n---"@),
        forall|i: int|
            0 <= i < parts.len() && (i > 0 || lead.len() > 0) ==> !"---"@.is_prefix_of(
                #[trigger] parts[i],
            ),
    ensures
        split_on(lead + joined(parts, "\n\n---\n"@), "\n---"@) == framed(parts, lead),
    decreases parts.len(),
{
    reveal_strlit("\n---");
    reveal_strlit("\n\n---\n");
    let join = "\n\n---\n"@;
    let first = parts[0];
    if parts.len() == 1 {
        lemma_first_separator(lead, first, Seq::empty());
    } else {
        let rest = parts.skip(1);
        let tail = join + joined(rest, join);
        lemma_joined_front(parts, join);
        let s = lead + joined(parts, join);
        assert(s =~= lead + first + tail);
        lemma_first_separator(lead, first, tail);
        let k: int = (lead.len() + first.len() + 1) as int;
        assert(s.take(k) =~= lead + first + seq!['\n']);
        assert(s.skip(k + 4) =~= seq!['\n'] + joined(rest, join));
        lemma_split_joined(rest, seq!['\n']);
    }
}

/// What stays of an existing configuration: each fragment is trimmed,
/// declares another pattern or none, and holds no separator.
pub proof fn lemma_kept_parts(parts: Seq<Seq<char>>, path_match: Seq<char>, n: int)
    requires
        0 <= n <= parts.len(),
        forall|i: int| 0 <= i < parts.len() ==> !holds(#[trigger] parts[i], "\n---"@),
    ensures
        forall|i: int|
            0 <= i < kept_parts(parts, path_match, n).len() ==> {
                let k = #[trigger] kept_parts(parts, path_match, n)[i];
                trimmed(k) == k && !declares(k, path_match) && !holds(k, "\n---"@)
            },
    decreases n,
{
    if n > 0 {
        lemma_kept_parts(parts, path_match, n - 1);
        lemma_trimmed_twice(parts[n - 1]);
        lemma_trimmed_holds_not(parts[n - 1], "\n---"@);
        let before = kept_parts(parts, path_match, n - 1);
        let all = kept_parts(parts, path_match, n);
        assert forall|i: int| 0 <= i < all.len() implies {
            let k = #[trigger] all[i];
            trimmed(k) == k && !declares(k, path_match) && !holds(k, "\n---"@)
        } by {
            if i < before.len() {
                assert(all[i] == before[i]);
            }
        }
    }
}

/// What stays of a configuration that this merge has written: the
/// fragments that stayed, without the fragment of the project.
pub proof fn lemma_kept_of_framed(
    stay: Seq<Seq<char>>,
    fragment: Seq<char>,
    path_match: Seq<char>,
    n: int,
)
    requires
        0 <= n <= stay.len() + 1,
        forall|i: int|
            0 <= i < stay.len() ==> trimmed(#[trigger] stay[i]) == stay[i] && !declares(
                stay[i],
                path_match,
            ),
        declares(trimmed(fragment), path_match),
    ensures
        kept_parts(framed(stay.push(fragment), seq!['\n']), path_match, n) == if n
            <= stay.len() {
            stay.take(n)
        } else {
            stay
        },
    decreases n,
{
    let pieces = framed(stay.push(fragment), seq!['\n']);
    if n > 0 {
        lemma_kept_of_framed(stay, fragment, path_match, n - 1);
        if n <= stay.len() {
            let k = stay[n - 1];
            assert(pieces[n - 1] =~= (seq!['\n'] + k).push('\n'));
            lemma_trimmed_before_blank(seq!['\n'] + k, '\n');
            lemma_trimmed_after_blank('\n', k);
        } else {
            lemma_trimmed_after_blank('\n', fragment);
        }
    }
}

/// Merging a project into a configuration again changes nothing, and
/// does not repeat the project's fragment: the configuration that a merge
/// has written is what the same merge makes of it. This holds where the
/// head and the fragment hold no separator, the fragment declares the
/// pattern of the project, and neither it nor a fragment that stays begins
/// with three dashes.
pub proof fn lemma_merge_again(
    existing: Seq<char>,
    head: Seq<char>,
    path_match: Seq<char>,
    fragment: Seq<char>,
)
    requires
        !holds(head, "\n---"@),
        !holds(fragment, "\n---"@),
        declares(trimmed(fragment), path_match),
        !"---"@.is_prefix_of(fragment),
        forall|i: int|
            0 <= i < staying(existing, path_match).len() ==> !"---"@.is_prefix_of(
                #[trigger] staying(existing, path_match)[i],
            ),
    ensures
        merged(merged(existing, head, path_match, fragment), head, path_match, fragment)
            == merged(existing, head, path_match, fragment),
        staying(merged(existing, head, path_match, fragment), path_match) == staying(
            existing,
            path_match,
        ),
{
    reveal_strlit("\n---");
    reveal_strlit("\n\n---\n");
    let sep = "\n---"@;
    let join = "\n\n---\n"@;
    let stay = staying(existing, path_match);
    let parts = merged_parts(existing, head, path_match, fragment);
    let written = merged(existing, head, path_match, fragment);
    assert(parts =~= seq![head] + stay + seq![fragment]);
    if trimmed(existing).len() > 0 {
        lemma_split_pieces(existing, sep);
        let old = fragments_of(existing);
        lemma_kept_parts(old, path_match, old.len() as int);
    }
    let after = stay.push(fragment);
    lemma_split_joined(parts, Seq::empty());
    lemma_joined_front(parts, join);
    let dash: int = (head.len() + 2) as int;
    lemma_trimmed_not_empty(written, dash);
    assert(fragments_of(written) =~= framed(after, seq!['\n']));
    lemma_kept_of_framed(stay, fragment, path_match, after.len() as int);
}

} // verus!
