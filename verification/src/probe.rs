//! What a generator needs to know of the machine: the paths whose
//! presence and short names decide what is generated.

use crate::config::ToolchainConfig;
use crate::generator::compile_commands;
use crate::host::Host;
use crate::models::{Project, ProjectInfo};
use crate::ninja::{graph_of, resolved_among};
use crate::paths::{parsed, rendered, separator_of, views_of, LogicalPath, PathStyle, Step};
use crate::resolver::{candidates, first_present, library_candidates};
use crate::text::{append_texts, push_text, texts};
use vstd::prelude::*;

verus! {

/// The text of each place.
pub open spec fn rendered_all(places: Seq<Seq<Step>>, sep: char) -> Seq<Seq<char>> {
    Seq::new(places.len(), |i: int| rendered(places[i], sep))
}

/// The places where the first `n` libraries of the project may lie.
pub open spec fn library_places(p: Project, root: Seq<Step>, sep: char, n: int) -> Seq<Seq<char>>
    decreases n,
{
    if n <= 0 {
        Seq::empty()
    } else {
        library_places(p, root, sep, n - 1) + rendered_all(
            candidates(p.linker_libs[n - 1], p.linker_lib_dirs, root),
            sep,
        )
    }
}

/// The paths to ask the machine about before generating for a project:
/// the compiler, the linker and the archiver of the toolchain, every place
/// where a library may lie, and the source files.
pub open spec fn questions(
    p: Project,
    dir: Seq<Step>,
    t: ToolchainConfig,
    sep: char,
) -> Seq<Seq<char>> {
    seq![t.compiler(), t.linker(p.linker_type), t.archiver()] + library_places(
        p,
        dir,
        sep,
        p.linker_libs.len() as int,
    ) + p.source_files
}

/// Two machines give the same answers about a path.
pub open spec fn same_answers(a: Host, b: Host, path: Seq<char>) -> bool {
    a.has(path) == b.has(path) && a.short(path) == b.short(path)
}

/// The text of each place in the given style.
pub fn render_all(places: &Vec<LogicalPath>, style: PathStyle) -> (r: Vec<String>)
    ensures
        texts(r@) == rendered_all(views_of(places@), separator_of(style)),
{
    let ghost sep = separator_of(style);
    let mut out: Vec<String> = Vec::new();
    let mut i: usize = 0;
    while i < places.len()
        invariant
            i <= places.len(),
            sep == separator_of(style),
            out@.len() == i,
            forall|j: int|
                0 <= j < i ==> #[trigger] texts(out@)[j] == rendered(views_of(places@)[j], sep),
        decreases places.len() - i,
    {
        push_text(&mut out, places[i].render(style));
        i += 1;
    }
    out
}

/// The paths to ask the machine about before generating for a project
/// that lies in `project_dir`.
pub fn paths_to_probe(
    project: &ProjectInfo,
    project_dir: &str,
    toolchain: &ToolchainConfig,
    style: PathStyle,
) -> (r: Vec<String>)
    ensures
        texts(r@) == questions(project@, parsed(project_dir@), *toolchain, separator_of(style)),
{
    let ghost sep = separator_of(style);
    let ghost p = project@;
    let dir = LogicalPath::parse(project_dir);
    let mut out: Vec<String> = Vec::new();
    push_text(&mut out, toolchain.compiler_path());
    push_text(&mut out, toolchain.linker_path(project.linker_type.as_str()));
    push_text(&mut out, toolchain.ar_path());
    let ghost tools = seq![
        toolchain.compiler(),
        toolchain.linker(p.linker_type),
        toolchain.archiver(),
    ];
    let mut i: usize = 0;
    while i < project.linker_libs.len()
        invariant
            i <= project.linker_libs.len(),
            sep == separator_of(style),
            p == project@,
            texts(out@) == tools + library_places(p, dir@, sep, i as int),
        decreases project.linker_libs.len() - i,
    {
        let places = library_candidates(
            project.linker_libs[i].as_str(),
            &project.linker_lib_dirs,
            &dir,
        );
        let more = render_all(&places, style);
        append_texts(&mut out, &more);
        i += 1;
    }
    append_texts(&mut out, &project.source_files);
    out
}

/// The first place that exists is the same on two machines that agree on
/// which of the places exist.
pub proof fn lemma_first_present_same(places: Seq<Seq<Step>>, a: Host, b: Host, i: int)
    requires
        a.style == b.style,
        forall|j: int|
            0 <= j < places.len() ==> a.has(
                rendered(#[trigger] places[j], separator_of(a.style)),
            ) == b.has(rendered(places[j], separator_of(a.style))),
    ensures
        first_present(places, a, i) == first_present(places, b, i),
    decreases places.len() - i + 1,
{
    if 0 <= i < places.len() {
        lemma_first_present_same(places, a, b, i + 1);
    }
}

/// Every place where one of the first `n` libraries may lie is among the
/// places that are asked about.
pub proof fn lemma_place_is_asked(p: Project, root: Seq<Step>, sep: char, n: int, k: int, j: int)
    requires
        0 <= k < n <= p.linker_libs.len(),
        0 <= j < candidates(p.linker_libs[k], p.linker_lib_dirs, root).len(),
    ensures
        library_places(p, root, sep, n).contains(
            rendered(candidates(p.linker_libs[k], p.linker_lib_dirs, root)[j], sep),
        ),
    decreases n,
{
    let x = rendered(candidates(p.linker_libs[k], p.linker_lib_dirs, root)[j], sep);
    let before = library_places(p, root, sep, n - 1);
    let all = library_places(p, root, sep, n);
    if k == n - 1 {
        assert(all[before.len() + j] == x);
    } else {
        lemma_place_is_asked(p, root, sep, n - 1, k, j);
        let i = choose|i: int| 0 <= i < before.len() && before[i] == x;
        assert(all[i] == x);
    }
}

/// The libraries that are found are the same on two machines that agree
/// on the places that are asked about.
pub proof fn lemma_resolved_same(p: Project, root: Seq<Step>, a: Host, b: Host, n: int)
    requires
        a.style == b.style,
        0 <= n <= p.linker_libs.len(),
        forall|x: Seq<char>|
            #[trigger] library_places(
                p,
                root,
                separator_of(a.style),
                p.linker_libs.len() as int,
            ).contains(x) ==> a.has(x) == b.has(x),
    ensures
        resolved_among(p, root, a, n) == resolved_among(p, root, b, n),
    decreases n,
{
    if n > 0 {
        lemma_resolved_same(p, root, a, b, n - 1);
        let sep = separator_of(a.style);
        let places = candidates(p.linker_libs[n - 1], p.linker_lib_dirs, root);
        assert forall|j: int| 0 <= j < places.len() implies a.has(
            rendered(#[trigger] places[j], sep),
        ) == b.has(rendered(places[j], sep)) by {
            lemma_place_is_asked(p, root, sep, p.linker_libs.len() as int, n - 1, j);
        }
        lemma_first_present_same(places, a, b, 0);
    }
}

/// The answers to the questions decide what is generated: two machines
/// that write paths in the same style and give the same answers about the
/// paths to ask about yield the same build graph and the same compilation
/// database.
pub proof fn lemma_questions_suffice(
    p: Project,
    dir: Seq<char>,
    t: ToolchainConfig,
    a: Host,
    b: Host,
)
    requires
        a.style == b.style,
        forall|i: int|
            0 <= i < questions(p, parsed(dir), t, separator_of(a.style)).len() ==> same_answers(
                a,
                b,
                #[trigger] questions(p, parsed(dir), t, separator_of(a.style))[i],
            ),
    ensures
        graph_of(p, parsed(dir), t, a) == graph_of(p, parsed(dir), t, b),
        compile_commands(p, dir, t, a) == compile_commands(p, dir, t, b),
{
    let sep = separator_of(a.style);
    let root = parsed(dir);
    let asked = questions(p, root, t, sep);
    let places = library_places(p, root, sep, p.linker_libs.len() as int);
    assert(asked[0] == t.compiler());
    assert(asked[1] == t.linker(p.linker_type));
    assert(asked[2] == t.archiver());
    assert forall|x: Seq<char>| #[trigger] places.contains(x) implies a.has(x) == b.has(x) by {
        let i = choose|i: int| 0 <= i < places.len() && places[i] == x;
        assert(asked[3 + i] == x);
    }
    lemma_resolved_same(p, root, a, b, p.linker_libs.len() as int);
    assert(compile_commands(p, dir, t, a) =~= compile_commands(p, dir, t, b)) by {
        assert forall|i: int| 0 <= i < p.source_files.len() implies a.short(
            #[trigger] p.source_files[i],
        ) == b.short(p.source_files[i]) by {
            assert(asked[3 + places.len() + i] == p.source_files[i]);
        }
    }
}

} // verus!
