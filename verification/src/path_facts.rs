//! Facts about paths: which sequences of steps are paths that a text can
//! denote, and that the path algebra stays among them.

use crate::paths::{
    advanced, all_names, ancestor_within, common_ancestor, dot, joined_paths, names_among,
    narrowed, parent_of, parsed, relative, root_part, segments, shared_len, walked, well_formed,
    with_extension, Step,
};
use vstd::prelude::*;

verus! {

/// The names among segments are names.
pub proof fn lemma_names_among(segs: Seq<Seq<char>>, n: int)
    ensures
        all_names(names_among(segs, n)),
    decreases n,
{
    if n > 0 {
        lemma_names_among(segs, n - 1);
    }
}

/// What a text denotes is well formed.
pub proof fn lemma_parsed_well_formed(s: Seq<char>)
    ensures
        well_formed(parsed(s)),
{
    let body = if crate::paths::has_drive(s) {
        s.skip(2)
    } else {
        s
    };
    let segs = segments(body);
    lemma_names_among(segs, segs.len() as int);
}

/// A well-formed path stays well formed by one more step.
pub proof fn lemma_advanced_well_formed(acc: Seq<Step>, c: Step)
    requires
        well_formed(acc),
    ensures
        well_formed(advanced(acc, c)),
{
}

/// Reading a path from a well-formed path gives a well-formed path.
pub proof fn lemma_absolute_well_formed(base: Seq<Step>, rel: Seq<Step>, n: int)
    requires
        well_formed(base),
    ensures
        well_formed(walked(base, rel, n)),
    decreases n,
{
    if n > 0 {
        lemma_absolute_well_formed(base, rel, n - 1);
        lemma_advanced_well_formed(walked(base, rel, n - 1), rel[n - 1]);
    }
}

/// What narrowing finds of a well-formed path is well formed.
pub proof fn lemma_narrowed_well_formed(anc: Seq<Step>, p: Seq<Step>)
    requires
        well_formed(anc),
    ensures
        narrowed(anc, p) matches Some(a) ==> well_formed(a),
    decreases anc.len(),
{
    if anc.is_prefix_of(p) {
    } else if anc.len() > 0 && anc.last() is Name {
        lemma_narrowed_well_formed(anc.drop_last(), p);
    }
}

/// The common ancestor of the first paths is well formed where the first
/// of them is.
pub proof fn lemma_ancestor_well_formed(paths: Seq<Seq<Step>>, n: int)
    requires
        1 <= n <= paths.len(),
        well_formed(paths[0]),
    ensures
        ancestor_within(paths, n) matches Some(a) ==> well_formed(a),
    decreases n,
{
    if n > 1 {
        lemma_ancestor_well_formed(paths, n - 1);
        if let Some(b) = ancestor_within(paths, n - 1) {
            lemma_narrowed_well_formed(b, paths[n - 1]);
        }
    }
}

/// The common ancestor of paths of which the first is well formed is well
/// formed.
pub proof fn lemma_common_ancestor_well_formed(paths: Seq<Seq<Step>>)
    requires
        paths.len() > 0 ==> well_formed(paths[0]),
    ensures
        well_formed(common_ancestor(paths)),
{
    if paths.len() > 0 {
        lemma_ancestor_well_formed(paths, paths.len() as int);
    }
}

/// Two paths with the same drive and root share at least the steps of
/// that drive and root.
pub proof fn lemma_shared_covers_root(a: Seq<Step>, b: Seq<Step>)
    requires
        root_part(a) == root_part(b),
    ensures
        shared_len(a, b) >= root_part(a).len(),
{
    let r = root_part(a);
    lemma_shared_bounded(a, b);
    if r.len() >= 1 {
        assert(a[0] == r[0] && b[0] == root_part(b)[0]);
        lemma_shared_bounded(a.skip(1), b.skip(1));
        if r.len() >= 2 {
            assert(a[1] == r[1] && b[1] == root_part(b)[1]);
            lemma_shared_bounded(a.skip(1).skip(1), b.skip(1).skip(1));
        }
    }
}

/// The way from one well-formed path to another is made of names alone.
pub proof fn lemma_relative_names(target: Seq<Step>, base: Seq<Step>)
    requires
        well_formed(target),
    ensures
        relative(target, base) matches Some(r) ==> all_names(r),
{
    if root_part(target) == root_part(base) {
        lemma_shared_covers_root(target, base);
        lemma_shared_bounded(target, base);
    }
}

/// Two paths share no more steps than either has.
pub proof fn lemma_shared_bounded(a: Seq<Step>, b: Seq<Step>)
    ensures
        0 <= shared_len(a, b) <= a.len(),
        shared_len(a, b) <= b.len(),
    decreases a.len(),
{
    if a.len() > 0 && b.len() > 0 && a[0] == b[0] {
        lemma_shared_bounded(a.skip(1), b.skip(1));
    }
}

/// Joining, taking the parent and replacing the extension keep
/// well-formed paths well formed.
pub proof fn lemma_parts_well_formed(a: Seq<Step>, b: Seq<Step>, ext: Seq<char>)
    requires
        well_formed(a),
        well_formed(b),
    ensures
        well_formed(joined_paths(a, b)),
        well_formed(parent_of(a)),
        well_formed(with_extension(a, ext)),
        well_formed(dot()),
{
}

} // verus!
