//! What holds of the library as a whole: laws that relate several of its
//! functions, each stated over the functions' own contracts.

use crate::config::ToolchainConfig;
use crate::graph::{edge_count, edges_among, graph_text, EdgeKind, StatementModel};
use crate::host::Host;
use crate::models::Project;
use crate::ninja::{
    archiver_command, compile_statements, compiler_command, final_statements, graph_of, is_archive,
    object_files, placed, special_outputs, special_statements,
};
use crate::parser::{is_source_name, kept_among, link_order, sources_among, specials_among};
use crate::paths::{
    ancestor_within, common_ancestor, dot, has_file_name, narrowed, parent_of, renamed,
    separator_of, Step,
};
use crate::xml::XmlNode;
use vstd::prelude::*;

verus! {

/// How many edges of one kind a statement is.
pub open spec fn counts_as(s: StatementModel, kind: EdgeKind) -> nat {
    match s {
        StatementModel::Edge(e) => if e.kind == kind {
            1
        } else {
            0
        },
        StatementModel::Rule(_) => 0,
    }
}

/// Statements that agree in their first `n` places hold as many edges of a
/// kind there.
pub proof fn lemma_edges_agree(
    a: Seq<StatementModel>,
    b: Seq<StatementModel>,
    kind: EdgeKind,
    n: int,
)
    requires
        n <= a.len(),
        n <= b.len(),
        forall|i: int| 0 <= i < n ==> a[i] == b[i],
    ensures
        edges_among(a, kind, n) == edges_among(b, kind, n),
    decreases n,
{
    if n > 0 {
        lemma_edges_agree(a, b, kind, n - 1);
    }
}

/// One more statement adds what it counts as.
pub proof fn lemma_edges_push(s: Seq<StatementModel>, x: StatementModel, kind: EdgeKind)
    ensures
        edges_among(s.push(x), kind, s.len() as int + 1) == edges_among(s, kind, s.len() as int)
            + counts_as(x, kind),
{
    lemma_edges_agree(s.push(x), s, kind, s.len() as int);
}

/// The edges of two sequences of statements add up.
pub proof fn lemma_edges_concat(
    a: Seq<StatementModel>,
    b: Seq<StatementModel>,
    kind: EdgeKind,
    k: int,
)
    requires
        0 <= k <= b.len(),
    ensures
        edges_among(a + b, kind, a.len() as int + k) == edges_among(a, kind, a.len() as int)
            + edges_among(b, kind, k),
    decreases k,
{
    if k == 0 {
        lemma_edges_agree(a + b, a, kind, a.len() as int);
    } else {
        lemma_edges_concat(a, b, kind, k - 1);
    }
}

/// The statements of `n` special files are `n` special edges and as
/// many rules.
pub proof fn lemma_special_statements(
    p: Project,
    dir: Seq<Step>,
    compiler: Seq<char>,
    sep: char,
    n: int,
    kind: EdgeKind,
)
    requires
        0 <= n,
    ensures
        special_statements(p, dir, compiler, sep, n).len() == 2 * n,
        edges_among(special_statements(p, dir, compiler, sep, n), kind, 2 * n) == if kind
            == EdgeKind::Special {
            n
        } else {
            0
        },
    decreases n,
{
    if n > 0 {
        lemma_special_statements(p, dir, compiler, sep, n - 1, kind);
        let before = special_statements(p, dir, compiler, sep, n - 1);
        let all = special_statements(p, dir, compiler, sep, n);
        let rule = all[2 * n - 2];
        let edge = all[2 * n - 1];
        lemma_edges_push(before, rule, kind);
        lemma_edges_push(before.push(rule), edge, kind);
    }
}

/// The statements of `n` source files are `n` compile edges.
pub proof fn lemma_compile_statements(
    p: Project,
    dir: Seq<Step>,
    sep: char,
    n: int,
    kind: EdgeKind,
)
    requires
        0 <= n,
    ensures
        compile_statements(p, dir, sep, n).len() == n,
        edges_among(compile_statements(p, dir, sep, n), kind, n) == if kind == EdgeKind::Compile {
            n
        } else {
            0
        },
    decreases n,
{
    if n > 0 {
        lemma_compile_statements(p, dir, sep, n - 1, kind);
        let before = compile_statements(p, dir, sep, n - 1);
        let all = compile_statements(p, dir, sep, n);
        lemma_edges_push(before, all[n - 1], kind);
    }
}

/// How many edges of a kind the build graph of a project has.
pub proof fn lemma_edges_of_kind(
    p: Project,
    dir: Seq<Step>,
    t: ToolchainConfig,
    host: Host,
    kind: EdgeKind,
)
    ensures
        edge_count(graph_of(p, dir, t, host), kind) == match kind {
            EdgeKind::Special => p.special_files.len(),
            EdgeKind::Compile => p.source_files.len(),
            EdgeKind::Archive => if is_archive(p) {
                1
            } else {
                0
            },
            EdgeKind::Link => if is_archive(p) {
                0
            } else {
                1
            },
        },
{
    let sep = separator_of(host.style);
    let compiler = compiler_command(t, host);
    let m = p.special_files.len() as int;
    let n = p.source_files.len() as int;
    let head = seq![StatementModel::Rule(crate::ninja::compile_rule(compiler))];
    let specials = special_statements(p, dir, compiler, sep, m);
    let compiles = compile_statements(p, dir, sep, n);
    let last = final_statements(p, dir, t, host);
    lemma_special_statements(p, dir, compiler, sep, m, kind);
    lemma_compile_statements(p, dir, sep, n, kind);
    lemma_edges_concat(head, specials, kind, 2 * m);
    lemma_edges_concat(head + specials, compiles, kind, n);
    lemma_edges_concat(head + specials + compiles, last, kind, 2);
    assert(edges_among(head, kind, 1) == 0) by {
        assert(edges_among(head, kind, 0) == 0);
    }
    assert(edges_among(last, kind, 2) == counts_as(last[1], kind)) by {
        assert(edges_among(last, kind, 0) == 0);
        assert(edges_among(last, kind, 1) == 0);
    }
}

/// The build graph of a project has one compile edge for each source
/// file, one special edge for each special file, and one edge for the
/// final target, which either links or archives.
pub proof fn lemma_edge_counts(p: Project, dir: Seq<Step>, t: ToolchainConfig, host: Host)
    ensures
        edge_count(graph_of(p, dir, t, host), EdgeKind::Compile) == p.source_files.len(),
        edge_count(graph_of(p, dir, t, host), EdgeKind::Special) == p.special_files.len(),
        edge_count(graph_of(p, dir, t, host), EdgeKind::Link) + edge_count(
            graph_of(p, dir, t, host),
            EdgeKind::Archive,
        ) == 1,
{
    lemma_edges_of_kind(p, dir, t, host, EdgeKind::Compile);
    lemma_edges_of_kind(p, dir, t, host, EdgeKind::Special);
    lemma_edges_of_kind(p, dir, t, host, EdgeKind::Link);
    lemma_edges_of_kind(p, dir, t, host, EdgeKind::Archive);
}

/// The edge of the final target stands last, is built from the object
/// files of the source files in their order, and waits for the output of
/// every special file without taking it as an input. The default target is
/// what it builds.
pub proof fn lemma_final_edge(p: Project, dir: Seq<Step>, t: ToolchainConfig, host: Host)
    ensures
        graph_of(p, dir, t, host).statements.last() matches StatementModel::Edge(e) && e.inputs
            == object_files(p, dir, separator_of(host.style)) && special_outputs(
            p,
            dir,
            compiler_command(t, host),
            separator_of(host.style),
            p.special_files.len() as int,
        ).is_prefix_of(e.implicit) && e.output == graph_of(p, dir, t, host).default_target,
{
    let last = final_statements(p, dir, t, host);
}

/// A project whose output ends in `.a` is archived: the rule before its
/// last edge first deletes an output that is there and then calls the
/// archiver.
pub proof fn lemma_archive_deletes_first(
    p: Project,
    dir: Seq<Step>,
    t: ToolchainConfig,
    host: Host,
)
    requires
        is_archive(p),
    ensures
        graph_of(p, dir, t, host).statements[graph_of(p, dir, t, host).statements.len() - 2]
            matches StatementModel::Rule(r) && r.command
            == "cmd /c (if exist \"$out\" del /q \"$out\") & "@ + archiver_command(t, host)
            + " crs $out $in"@,
        graph_of(p, dir, t, host).statements.last() matches StatementModel::Edge(e) && e.kind
            == EdgeKind::Archive && e.rule == "ar"@,
{
}

/// Two texts that are both the ninja text of one project on one machine
/// are the same text.
pub proof fn lemma_generation_repeats(
    first: String,
    second: String,
    p: Project,
    dir: Seq<Step>,
    t: ToolchainConfig,
    host: Host,
)
    requires
        first@ == graph_text(graph_of(p, dir, t, host)),
        second@ == graph_text(graph_of(p, dir, t, host)),
    ensures
        first@ == second@,
{
}

/// The link order keeps the libraries of the targets last and in their
/// own order, names every library of either scope, and names before them
/// only libraries of the project that no target names.
pub proof fn lemma_link_order(broad: Seq<Seq<char>>, narrow: Seq<Seq<char>>)
    ensures
        narrow.is_suffix_of(link_order(broad, narrow)),
        forall|x: Seq<char>|
            #[trigger] link_order(broad, narrow).contains(x) <==> broad.contains(x)
                || narrow.contains(x),
        forall|i: int|
            0 <= i < link_order(broad, narrow).len() - narrow.len() ==> broad.contains(
                #[trigger] link_order(broad, narrow)[i],
            ) && !narrow.contains(link_order(broad, narrow)[i]),
{
    let kept = kept_among(broad, narrow, broad.len() as int);
    let all = link_order(broad, narrow);
    lemma_kept(broad, narrow, broad.len() as int);
    assert(all.subrange(all.len() - narrow.len(), all.len() as int) =~= narrow);
    assert forall|x: Seq<char>| #[trigger] all.contains(x) <==> broad.contains(x)
        || narrow.contains(x) by {
        if all.contains(x) {
            let i = choose|i: int| 0 <= i < all.len() && all[i] == x;
        }
        if narrow.contains(x) {
        } else if broad.contains(x) {
            let i = choose|i: int| 0 <= i < kept.len() && kept[i] == x;
            assert(all[i] == x);
        }
    }
}

/// What is kept of the first `n` libraries of the project: each is one of
/// them and named by no target, and each of them that no target names is
/// kept.
pub proof fn lemma_kept(broad: Seq<Seq<char>>, narrow: Seq<Seq<char>>, n: int)
    requires
        0 <= n <= broad.len(),
    ensures
        forall|i: int|
            0 <= i < kept_among(broad, narrow, n).len() ==> !narrow.contains(
                #[trigger] kept_among(broad, narrow, n)[i],
            ) && exists|j: int|
                0 <= j < n && #[trigger] broad[j] == kept_among(broad, narrow, n)[i],
        forall|j: int|
            0 <= j < n && !narrow.contains(#[trigger] broad[j]) ==> kept_among(
                broad,
                narrow,
                n,
            ).contains(broad[j]),
    decreases n,
{
    let kept = kept_among(broad, narrow, n);
    if n > 0 {
        lemma_kept(broad, narrow, n - 1);
        let before = kept_among(broad, narrow, n - 1);
        assert forall|j: int|
            0 <= j < n && !narrow.contains(#[trigger] broad[j]) implies kept.contains(broad[j]) by {
            if j < n - 1 {
                let i = choose|i: int| 0 <= i < before.len() && before[i] == broad[j];
                assert(kept[i] == broad[j]);
            } else {
                assert(kept[kept.len() - 1] == broad[j]);
            }
        }
    }
}

/// What is kept of libraries that do not repeat does not repeat.
pub proof fn lemma_kept_no_repeats(broad: Seq<Seq<char>>, narrow: Seq<Seq<char>>, n: int)
    requires
        0 <= n <= broad.len(),
        broad.no_duplicates(),
    ensures
        kept_among(broad, narrow, n).no_duplicates(),
    decreases n,
{
    if n > 0 {
        lemma_kept_no_repeats(broad, narrow, n - 1);
        lemma_kept(broad, narrow, n - 1);
        let before = kept_among(broad, narrow, n - 1);
        let all = kept_among(broad, narrow, n);
        assert forall|i: int, j: int| 0 <= i < all.len() && 0 <= j < all.len() && i != j implies all[i]
            != all[j] by {
            if i < before.len() && j < before.len() {
                assert(all[i] == before[i] && all[j] == before[j]);
            } else {
                let inner = if i < before.len() {
                    i
                } else {
                    j
                };
                let k = choose|k: int| 0 <= k < n - 1 && #[trigger] broad[k] == before[inner];
                assert(broad[k] != broad[n - 1]);
            }
        }
    }
}

/// Where neither the project nor the targets repeat a library, the link
/// order names every library once.
pub proof fn lemma_link_order_no_repeats(broad: Seq<Seq<char>>, narrow: Seq<Seq<char>>)
    requires
        broad.no_duplicates(),
        narrow.no_duplicates(),
    ensures
        link_order(broad, narrow).no_duplicates(),
{
    let kept = kept_among(broad, narrow, broad.len() as int);
    let all = link_order(broad, narrow);
    lemma_kept_no_repeats(broad, narrow, broad.len() as int);
    lemma_kept(broad, narrow, broad.len() as int);
    assert forall|i: int, j: int| 0 <= i < all.len() && 0 <= j < all.len() && i != j implies all[i]
        != all[j] by {
        if i < kept.len() && j < kept.len() {
            assert(all[i] == kept[i] && all[j] == kept[j]);
        } else if i >= kept.len() && j >= kept.len() {
            assert(all[i] == narrow[i - kept.len()] && all[j] == narrow[j - kept.len()]);
        } else {
            let (a, b) = if i < kept.len() {
                (i, j)
            } else {
                (j, i)
            };
            assert(all[a] == kept[a]);
            assert(all[b] == narrow[b - kept.len()]);
            assert(narrow.contains(narrow[b - kept.len()]));
        }
    }
}

/// What narrowing finds is a beginning of both paths, and every common
/// beginning of the two is a beginning of it.
pub proof fn lemma_narrowed(anc: Seq<Step>, p: Seq<Step>)
    ensures
        narrowed(anc, p) matches Some(a) ==> a.is_prefix_of(anc) && a.is_prefix_of(p)
            && forall|c: Seq<Step>|
            c.is_prefix_of(anc) && c.is_prefix_of(p) ==> #[trigger] c.is_prefix_of(a),
    decreases anc.len(),
{
    if anc.is_prefix_of(p) {
    } else if anc.len() > 0 && anc.last() is Name {
        lemma_narrowed(anc.drop_last(), p);
    }
}

/// The common ancestor of the first `n` paths is a beginning of the parent
/// of the first path and of each of the others, and the longest such:
/// every directory that they all lie in is a beginning of it.
pub proof fn lemma_common_ancestor(paths: Seq<Seq<Step>>, n: int)
    requires
        1 <= n <= paths.len(),
    ensures
        ancestor_within(paths, n) matches Some(a) ==> a.is_prefix_of(parent_of(paths[0]))
            && (forall|i: int| 1 <= i < n ==> a.is_prefix_of(#[trigger] paths[i]))
            && forall|c: Seq<Step>|
            c.is_prefix_of(parent_of(paths[0])) && (forall|i: int|
                1 <= i < n ==> c.is_prefix_of(#[trigger] paths[i])) ==> #[trigger] c.is_prefix_of(
                a,
            ),
    decreases n,
{
    if n > 1 {
        lemma_common_ancestor(paths, n - 1);
        if let Some(b) = ancestor_within(paths, n - 1) {
            lemma_narrowed(b, paths[n - 1]);
        }
    }
}

/// The common ancestor of one path is its parent.
pub proof fn lemma_single_path_ancestor(p: Seq<Step>)
    ensures
        common_ancestor(seq![p]) == parent_of(p),
{
}

/// Narrowing a path that begins with a drive or the root by a path that
/// begins otherwise finds nothing.
pub proof fn lemma_narrowed_other_root(anc: Seq<Step>, p: Seq<Step>)
    requires
        anc.len() > 0,
        !(anc[0] is Name),
        p.len() == 0 || p[0] != anc[0],
    ensures
        narrowed(anc, p) is None,
    decreases anc.len(),
{
    if anc.last() is Name {
        lemma_narrowed_other_root(anc.drop_last(), p);
    }
}

/// What narrowing finds of a path that begins with a drive or the root
/// begins with the same step.
pub proof fn lemma_narrowed_keeps_root(anc: Seq<Step>, p: Seq<Step>)
    requires
        anc.len() > 0,
        !(anc[0] is Name),
    ensures
        narrowed(anc, p) matches Some(a) ==> a.len() > 0 && a[0] == anc[0],
    decreases anc.len(),
{
    if anc.is_prefix_of(p) {
    } else if anc.last() is Name {
        lemma_narrowed_keeps_root(anc.drop_last(), p);
    }
}

/// The common ancestor of paths that begin with a drive or the root still
/// begins with the first step of the first of them.
pub proof fn lemma_ancestor_keeps_root(paths: Seq<Seq<Step>>, n: int)
    requires
        1 <= n <= paths.len(),
        parent_of(paths[0]).len() > 0,
        !(paths[0][0] is Name),
    ensures
        ancestor_within(paths, n) matches Some(a) ==> a.len() > 0 && a[0] == paths[0][0],
    decreases n,
{
    if n > 1 {
        lemma_ancestor_keeps_root(paths, n - 1);
        if let Some(b) = ancestor_within(paths, n - 1) {
            lemma_narrowed_keeps_root(b, paths[n - 1]);
        }
    }
}

/// Paths on different roots have no common ancestor but `.`: where the
/// first path lies in a directory under a drive or the root, and another
/// path begins with another step, the common ancestor is `.`.
pub proof fn lemma_different_roots(paths: Seq<Seq<Step>>, k: int)
    requires
        1 <= k < paths.len(),
        parent_of(paths[0]).len() > 0,
        !(paths[0][0] is Name),
        paths[k].len() == 0 || paths[k][0] != paths[0][0],
    ensures
        common_ancestor(paths) == dot(),
{
    lemma_ancestor_keeps_root(paths, k);
    if let Some(b) = ancestor_within(paths, k) {
        lemma_narrowed_other_root(b, paths[k]);
    }
    crate::paths::lemma_ancestor_lost(paths, k + 1, paths.len() as int);
}

/// The object file mirrors where the source file lies: a file that lies
/// under the common ancestor by the steps `below` has its object file
/// under the object directory by the same steps, with the extension `o`.
pub proof fn lemma_object_mirrors(
    ancestor: Seq<Step>,
    below: Seq<Step>,
    fallback: Seq<Step>,
    object_dir: Seq<Step>,
)
    requires
        below.len() > 0,
        below[0] is Name,
        has_file_name(below),
    ensures
        placed(ancestor + below, ancestor, fallback, object_dir) == (object_dir
            + below.drop_last()).push(Step::Name(renamed(below.last()->Name_0, "o"@))),
{
    let file = ancestor + below;
}

/// The library name of a file begins with `lib`, and a name that begins
/// with `lib` is its own library name.
pub proof fn lemma_archive_name(name: Seq<char>)
    ensures
        "lib"@.is_prefix_of(crate::ninja::archive_name(name)),
        "lib"@.is_prefix_of(name) ==> crate::ninja::archive_name(name) == name,
        crate::ninja::archive_name(crate::ninja::archive_name(name)) == crate::ninja::archive_name(
            name,
        ),
{
}

/// No unit is both a source file and a special file: every source file
/// has a source name, and no special file has one.
pub proof fn lemma_units_partition(nodes: Seq<XmlNode>, units: Seq<usize>, id: Seq<char>, n: int)
    ensures
        forall|i: int|
            0 <= i < sources_among(nodes, units, n).len() ==> is_source_name(
                #[trigger] sources_among(nodes, units, n)[i],
            ),
        forall|j: int|
            0 <= j < specials_among(nodes, units, id, n).len() ==> !is_source_name(
                (#[trigger] specials_among(nodes, units, id, n)[j]).filename,
            ),
    decreases n,
{
    if n > 0 {
        lemma_units_partition(nodes, units, id, n - 1);
        let earlier = sources_among(nodes, units, n - 1);
        let before = specials_among(nodes, units, id, n - 1);
    }
}

/// The source files and the special files of a project that was read
/// name different files.
pub proof fn lemma_project_partition(nodes: Seq<XmlNode>, p: usize)
    ensures
        crate::parser::project_at(nodes, p) matches Ok(project) ==> forall|i: int, j: int|
            0 <= i < project.source_files.len() && 0 <= j < project.special_files.len()
                ==> #[trigger] project.source_files[i]
                != (#[trigger] project.special_files[j]).filename,
{
    let units = crate::xml::children_of(nodes, p, "Unit"@);
    let options = crate::xml::children_of(nodes, p, "Option"@);
    let id = crate::parser::first_or(
        crate::parser::values_of(nodes, options, "compiler"@),
        "riscv32-v2"@,
    );
    lemma_units_partition(nodes, units, id, units.len() as int);
}

/// A reference that names a file by its path is found at that one place
/// or not at all, whatever the search directories are.
pub proof fn lemma_path_reference(
    lib: Seq<char>,
    flags: Seq<Seq<char>>,
    root: Seq<Step>,
    host: Host,
)
    requires
        crate::resolver::is_path_reference(lib),
    ensures
        crate::resolver::resolved(lib, flags, root, host) == if host.has(
            crate::paths::rendered(
                crate::paths::joined_paths(root, crate::paths::parsed(lib)),
                separator_of(host.style),
            ),
        ) {
            Some(
                crate::resolver::located(
                    crate::paths::joined_paths(root, crate::paths::parsed(lib)),
                    root,
                    separator_of(host.style),
                ),
            )
        } else {
            None
        },
{
    let places = crate::resolver::candidates(lib, flags, root);
    assert(crate::resolver::first_present(places, host, 1) is None);
}

} // verus!
