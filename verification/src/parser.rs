//! Reads a project description: from the nodes of its XML document to the
//! project model.

use crate::config::ToolchainConfig;
use crate::models::{March, MarchInfo, Project, ProjectInfo, SpecialFile, SpecialFileBuildInfo};
use crate::paths::{extension_of, parsed, LogicalPath};
use crate::text::{
    append_texts, chars_of, find, glue, holds, join, joined, position, push_text, replace,
    replaced, same, slice, starts_with, texts, trim, trimmed,
};
use crate::xml::{children_of, entries_of, is_child, XmlDocument, XmlNode};
use vstd::prelude::*;

verus! {

/// Why a text is no project description.
#[derive(Clone, Copy, Debug, PartialEq, Eq, Structural)]
pub enum ProjectError {
    /// The text is no XML document.
    InvalidXml,
    /// The document has no root element with a `Project` element in it.
    NoProject,
    /// The project names no file to build.
    NoUnits,
}

impl ProjectError {
    /// The words that say what went wrong.
    pub open spec fn text(&self) -> Seq<char> {
        match self {
            ProjectError::InvalidXml => "The project file is no XML document."@,
            ProjectError::NoProject => "No <Project> found"@,
            ProjectError::NoUnits => {
                "No source files (.c/.cpp) or special files found in project."@
            },
        }
    }

    /// The words that say what went wrong.
    pub fn message(&self) -> (r: String)
        ensures
            r@ == self.text(),
    {
        match self {
            ProjectError::InvalidXml => "The project file is no XML document.".to_string(),
            ProjectError::NoProject => "No <Project> found".to_string(),
            ProjectError::NoUnits => {
                "No source files (.c/.cpp) or special files found in project.".to_string()
            },
        }
    }
}

/// The values of the attribute `key` on the first `n` of the nodes `ids`
/// that carry it.
pub open spec fn values_among(
    nodes: Seq<XmlNode>,
    ids: Seq<usize>,
    key: Seq<char>,
    n: int,
) -> Seq<Seq<char>>
    decreases n,
{
    if n <= 0 {
        Seq::empty()
    } else {
        match nodes[ids[n - 1] as int].attr(key) {
            Some(v) => values_among(nodes, ids, key, n - 1).push(v),
            None => values_among(nodes, ids, key, n - 1),
        }
    }
}

/// The values of the attribute `key` on those of the nodes `ids` that
/// carry it.
pub open spec fn values_of(
    nodes: Seq<XmlNode>,
    ids: Seq<usize>,
    key: Seq<char>,
) -> Seq<Seq<char>> {
    values_among(nodes, ids, key, ids.len() as int)
}

/// Node `j` is a `Target` in a `Build` of the project.
pub open spec fn is_target(nodes: Seq<XmlNode>, j: int, project: usize) -> bool {
    nodes[j].name@ == "Target"@ && match nodes[j].parent {
        Some(b) => b < nodes.len() && is_child(nodes, b as int, project, "Build"@),
        None => false,
    }
}

/// The targets of the project among the first `n` nodes, in document
/// order.
pub open spec fn targets_among(nodes: Seq<XmlNode>, project: usize, n: int) -> Seq<usize>
    decreases n,
{
    if n <= 0 {
        Seq::empty()
    } else if is_target(nodes, n - 1, project) {
        targets_among(nodes, project, n - 1).push((n - 1) as usize)
    } else {
        targets_among(nodes, project, n - 1)
    }
}

/// The targets of the project, in document order.
pub open spec fn targets_of(nodes: Seq<XmlNode>, project: usize) -> Seq<usize> {
    targets_among(nodes, project, nodes.len() as int)
}

/// What one scope (the project or a target) says under `key` in the `Add`
/// entries of its first `section`.
pub open spec fn said(
    nodes: Seq<XmlNode>,
    scope: usize,
    section: Seq<char>,
    key: Seq<char>,
) -> Seq<Seq<char>> {
    values_of(nodes, entries_of(nodes, scope, section, "Add"@), key)
}

/// What the first `n` of the targets say, target after target.
pub open spec fn gathered_among(
    nodes: Seq<XmlNode>,
    targets: Seq<usize>,
    section: Seq<char>,
    key: Seq<char>,
    n: int,
) -> Seq<Seq<char>>
    decreases n,
{
    if n <= 0 {
        Seq::empty()
    } else {
        gathered_among(nodes, targets, section, key, n - 1) + said(
            nodes,
            targets[n - 1],
            section,
            key,
        )
    }
}

/// What the project says and then what each of its targets says: the
/// broader scope first, the targets in document order.
pub open spec fn all_said(
    nodes: Seq<XmlNode>,
    project: usize,
    section: Seq<char>,
    key: Seq<char>,
) -> Seq<Seq<char>> {
    said(nodes, project, section, key) + gathered_among(
        nodes,
        targets_of(nodes, project),
        section,
        key,
        targets_of(nodes, project).len() as int,
    )
}

/// Each value with `prefix` before it.
pub open spec fn prefixed(values: Seq<Seq<char>>, prefix: Seq<char>) -> Seq<Seq<char>> {
    Seq::new(values.len(), |i: int| prefix + values[i])
}

/// A library reference as the linker takes it: one that holds a separator
/// is a path and stays as it is; a bare name becomes a `-l` flag, without
/// a leading `lib`.
pub open spec fn library_flag(lib: Seq<char>) -> Seq<char> {
    if holds(lib, "/"@) || holds(lib, "\\"@) {
        lib
    } else if "lib"@.is_prefix_of(lib) {
        "-l"@ + lib.skip(3)
    } else {
        "-l"@ + lib
    }
}

/// Each library reference as the linker takes it.
pub open spec fn library_flags(libs: Seq<Seq<char>>) -> Seq<Seq<char>> {
    Seq::new(libs.len(), |i: int| library_flag(libs[i]))
}

/// The first `n` of `broad` that are not among `narrow`, in order.
pub open spec fn kept_among(
    broad: Seq<Seq<char>>,
    narrow: Seq<Seq<char>>,
    n: int,
) -> Seq<Seq<char>>
    decreases n,
{
    if n <= 0 {
        Seq::empty()
    } else if narrow.contains(broad[n - 1]) {
        kept_among(broad, narrow, n - 1)
    } else {
        kept_among(broad, narrow, n - 1).push(broad[n - 1])
    }
}

/// The link order: the libraries of the project that no target names,
/// then the libraries of the targets.
pub open spec fn link_order(broad: Seq<Seq<char>>, narrow: Seq<Seq<char>>) -> Seq<Seq<char>> {
    kept_among(broad, narrow, broad.len() as int) + narrow
}

/// `s` without every leading repetition of `p`.
pub open spec fn stripped(s: Seq<char>, p: Seq<char>) -> Seq<char>
    decreases s.len(),
{
    if p.len() > 0 && p.is_prefix_of(s) {
        stripped(s.skip(p.len() as int), p)
    } else {
        s
    }
}

/// The selection after one more flag: a `-march=` flag becomes the full
/// form, and where an `x` follows a non-empty base in its value, what
/// stands before that `x` becomes the base form.
pub open spec fn march_step(m: March, flag: Seq<char>) -> March {
    if "-march="@.is_prefix_of(flag) {
        let value = stripped(flag, "-march="@);
        match position(value, "x"@) {
            Some(i) => if i > 0 {
                March { full: flag, base: Some("-march="@ + value.take(i)), custom: true }
            } else {
                March { full: flag, base: m.base, custom: m.custom }
            },
            None => March { full: flag, base: m.base, custom: m.custom },
        }
    } else {
        m
    }
}

/// The selection that the first `n` flags make.
pub open spec fn march_among(flags: Seq<Seq<char>>, n: int) -> March
    decreases n,
{
    if n <= 0 {
        March { full: Seq::empty(), base: None, custom: false }
    } else {
        march_step(march_among(flags, n - 1), flags[n - 1])
    }
}

/// The values of the attribute `key` on those of the nodes `ids` that
/// carry it.
pub(crate) fn values(doc: &XmlDocument, ids: &Vec<usize>, key: &str) -> (r: Vec<String>)
    requires
        forall|k: int| 0 <= k < ids@.len() ==> #[trigger] ids@[k] < doc.nodes.len(),
    ensures
        texts(r@) == values_of(doc.nodes@, ids@, key@),
{
    let mut out: Vec<String> = Vec::new();
    let mut i: usize = 0;
    while i < ids.len()
        invariant
            i <= ids.len(),
            forall|k: int| 0 <= k < ids@.len() ==> #[trigger] ids@[k] < doc.nodes.len(),
            texts(out@) == values_among(doc.nodes@, ids@, key@, i as int),
        decreases ids.len() - i,
    {
        match doc.nodes[ids[i]].attribute(key) {
            Some(v) => {
                push_text(&mut out, v);
            },
            None => {},
        }
        i += 1;
    }
    out
}

/// The targets of the project, in document order.
pub fn targets(doc: &XmlDocument, project: usize) -> (r: Vec<usize>)
    ensures
        r@ == targets_of(doc.nodes@, project),
        forall|k: int| 0 <= k < r@.len() ==> #[trigger] r@[k] < doc.nodes.len(),
{
    let mut out: Vec<usize> = Vec::new();
    let mut i: usize = 0;
    while i < doc.nodes.len()
        invariant
            i <= doc.nodes.len(),
            out@ == targets_among(doc.nodes@, project, i as int),
            forall|k: int| 0 <= k < out@.len() ==> #[trigger] out@[k] < doc.nodes.len(),
        decreases doc.nodes.len() - i,
    {
        let node = &doc.nodes[i];
        let in_build = match node.parent {
            Some(b) => b < doc.nodes.len() && same(doc.nodes[b].name.as_str(), "Build")
                && match doc.nodes[b].parent {
                Some(p) => p == project,
                None => false,
            },
            None => false,
        };
        if in_build && same(node.name.as_str(), "Target") {
            out.push(i);
        }
        i += 1;
    }
    out
}

/// What one scope says under `key` in the `Add` entries of its first
/// `section`.
pub fn spoken(doc: &XmlDocument, scope: usize, section: &str, key: &str) -> (r: Vec<String>)
    ensures
        texts(r@) == said(doc.nodes@, scope, section@, key@),
{
    let adds = doc.entries(scope, section, "Add");
    values(doc, &adds, key)
}

/// What the targets say, target after target.
pub fn gathered(
    doc: &XmlDocument,
    targets: &Vec<usize>,
    section: &str,
    key: &str,
) -> (r: Vec<String>)
    ensures
        texts(r@) == gathered_among(
            doc.nodes@,
            targets@,
            section@,
            key@,
            targets@.len() as int,
        ),
{
    let mut out: Vec<String> = Vec::new();
    let mut i: usize = 0;
    while i < targets.len()
        invariant
            i <= targets.len(),
            texts(out@) == gathered_among(doc.nodes@, targets@, section@, key@, i as int),
        decreases targets.len() - i,
    {
        let more = spoken(doc, targets[i], section, key);
        append_texts(&mut out, &more);
        i += 1;
    }
    out
}

/// What the project says and then what each of its targets says.
pub(crate) fn all_spoken(
    doc: &XmlDocument,
    project: usize,
    targets: &Vec<usize>,
    section: &str,
    key: &str,
) -> (r: Vec<String>)
    requires
        targets@ == targets_of(doc.nodes@, project),
    ensures
        texts(r@) == all_said(doc.nodes@, project, section@, key@),
{
    let mut out = spoken(doc, project, section, key);
    let more = gathered(doc, targets, section, key);
    append_texts(&mut out, &more);
    out
}

/// Each value with `prefix` before it.
pub fn with_prefix(values: &Vec<String>, prefix: &str) -> (r: Vec<String>)
    ensures
        texts(r@) == prefixed(texts(values@), prefix@),
{
    let mut out: Vec<String> = Vec::new();
    let mut i: usize = 0;
    while i < values.len()
        invariant
            i <= values.len(),
            texts(out@) == prefixed(texts(values@).take(i as int), prefix@),
        decreases values.len() - i,
    {
        push_text(&mut out, glue(prefix, values[i].as_str()));
        i += 1;
    }
    out
}

/// A library reference as the linker takes it.
pub fn to_library_flag(lib: &str) -> (r: String)
    ensures
        r@ == library_flag(lib@),
{
    if crate::text::contains(lib, "/") || crate::text::contains(lib, "\\") {
        lib.to_string()
    } else if starts_with(lib, "lib") {
        proof {
            reveal_strlit("lib");
        }
        let x = chars_of(lib);
        glue("-l", slice(lib, 3, x.len()).as_str())
    } else {
        glue("-l", lib)
    }
}

/// Each library reference as the linker takes it.
pub fn to_library_flags(libs: &Vec<String>) -> (r: Vec<String>)
    ensures
        texts(r@) == library_flags(texts(libs@)),
{
    let mut out: Vec<String> = Vec::new();
    let mut i: usize = 0;
    while i < libs.len()
        invariant
            i <= libs.len(),
            texts(out@) == library_flags(texts(libs@).take(i as int)),
        decreases libs.len() - i,
    {
        push_text(&mut out, to_library_flag(libs[i].as_str()));
        i += 1;
    }
    out
}

/// Whether `s` is among `all`.
pub fn is_among(all: &Vec<String>, s: &str) -> (r: bool)
    ensures
        r == texts(all@).contains(s@),
{
    let mut i: usize = 0;
    while i < all.len()
        invariant
            i <= all.len(),
            forall|j: int| 0 <= j < i ==> texts(all@)[j] != s@,
        decreases all.len() - i,
    {
        assert(texts(all@)[i as int] == all@[i as int]@);
        if same(all[i].as_str(), s) {
            return true;
        }
        i += 1;
    }
    false
}

/// The link order of the libraries of the project (`broad`) and of its
/// targets (`narrow`): a library that a target names leaves the project's
/// list, and the targets' libraries come last, in their own order.
pub fn merge_libraries(broad: &Vec<String>, narrow: &Vec<String>) -> (r: Vec<String>)
    ensures
        texts(r@) == link_order(texts(broad@), texts(narrow@)),
{
    let mut out: Vec<String> = Vec::new();
    let mut i: usize = 0;
    while i < broad.len()
        invariant
            i <= broad.len(),
            texts(out@) == kept_among(texts(broad@), texts(narrow@), i as int),
        decreases broad.len() - i,
    {
        if !is_among(narrow, broad[i].as_str()) {
            push_text(&mut out, broad[i].clone());
        }
        i += 1;
    }
    append_texts(&mut out, narrow);
    out
}

/// `s` without every leading repetition of `p`.
pub fn strip_leading(s: &str, p: &str) -> (r: String)
    ensures
        r@ == stripped(s@, p@),
{
    let x = chars_of(s);
    let y = chars_of(p);
    let mut from: usize = 0;
    assert(x@.skip(0) == x@);
    if y.len() > 0 {
        while crate::text::occurs(&x, &y, from)
            invariant
                from <= x.len(),
                y.len() > 0,
                stripped(x@, y@) == stripped(x@.skip(from as int), y@),
            decreases x.len() - from,
        {
            assert(x@.skip(from as int).skip(y@.len() as int) == x@.skip(from + y@.len()));
            from += y.len();
        }
        assert(!y@.is_prefix_of(x@.skip(from as int))) by {
            if y@.len() <= x@.skip(from as int).len() {
                assert(x@.skip(from as int).subrange(0, y@.len() as int) == x@.subrange(
                    from as int,
                    from + y@.len(),
                ));
            }
        }
    }
    crate::text::string_of_range(&x, from, x.len())
}

/// The `-march=` selection that a list of flags makes.
pub fn march_of(flags: &Vec<String>) -> (r: MarchInfo)
    ensures
        r@ == march_among(texts(flags@), flags@.len() as int),
{
    let mut m = MarchInfo::default();
    let mut i: usize = 0;
    while i < flags.len()
        invariant
            i <= flags.len(),
            m@ == march_among(texts(flags@), i as int),
        decreases flags.len() - i,
    {
        let flag = &flags[i];
        if starts_with(flag.as_str(), "-march=") {
            let value = strip_leading(flag.as_str(), "-march=");
            m.full_march = flag.clone();
            match find(value.as_str(), "x") {
                Some(k) => {
                    if k > 0 {
                        proof {
                            crate::text::lemma_first_at_or_after(value@, "x"@, 0);
                        }
                        m.base_march = Some(
                            glue("-march=", slice(value.as_str(), 0, k).as_str()),
                        );
                        m.has_custom_extension = true;
                    }
                },
                None => {},
            }
        }
        i += 1;
    }
    m
}

/// What the tokens of a command stand for.
pub struct Macros {
    pub compiler: Seq<char>,
    pub options: Seq<char>,
    pub includes: Seq<char>,
    pub project_name: Seq<char>,
}

/// A command with its tokens replaced, one token after the other: the
/// compiler, the options, the include flags, the project's name and the
/// project's directory, which is written `.\`. Anything else stays.
pub open spec fn expanded(cmd: Seq<char>, m: Macros) -> Seq<char> {
    replaced(
        replaced(
            replaced(
                replaced(replaced(cmd, "$compiler"@, m.compiler), "$options"@, m.options),
                "$includes"@,
                m.includes,
            ),
            "$(PROJECT_NAME)"@,
            m.project_name,
        ),
        "$(PROJECT_DIR)"@,
        ".\\"@,
    )
}

/// The commands among the first `n` values: each trimmed, the empty ones
/// left out, the tokens of the others replaced.
pub open spec fn commands_among(values: Seq<Seq<char>>, m: Macros, n: int) -> Seq<Seq<char>>
    decreases n,
{
    if n <= 0 {
        Seq::empty()
    } else if trimmed(values[n - 1]).len() == 0 {
        commands_among(values, m, n - 1)
    } else {
        commands_among(values, m, n - 1).push(expanded(trimmed(values[n - 1]), m))
    }
}

/// What the tokens stand for in a project: the compiler of its toolchain
/// in quotes, its flags and its include flags, each list joined by spaces,
/// and its name.
pub open spec fn macros_of(
    compiler_id: Seq<char>,
    flags: Seq<Seq<char>>,
    includes: Seq<Seq<char>>,
    name: Seq<char>,
) -> Macros {
    Macros {
        compiler: "\""@ + crate::config::compiler_in(
            crate::config::default_base(crate::config::version_for(compiler_id)),
        ) + "\""@,
        options: joined(flags, " "@),
        includes: joined(includes, " "@),
        project_name: name,
    }
}

/// A file with this name is compiled by the common rule: its extension
/// is one of `c`, `cpp`, `C`, `CPP`, `S` and `s`.
pub open spec fn is_source_name(f: Seq<char>) -> bool {
    match extension_of(parsed(f)) {
        Some(e) => e == "c"@ || e == "cpp"@ || e == "C"@ || e == "CPP"@ || e == "S"@ || e
            == "s"@,
        None => false,
    }
}

/// The names of the source files among the first `n` units.
pub open spec fn sources_among(nodes: Seq<XmlNode>, units: Seq<usize>, n: int) -> Seq<Seq<char>>
    decreases n,
{
    if n <= 0 {
        Seq::empty()
    } else {
        match nodes[units[n - 1] as int].attr("filename"@) {
            Some(f) => if is_source_name(f) {
                sources_among(nodes, units, n - 1).push(f)
            } else {
                sources_among(nodes, units, n - 1)
            },
            None => sources_among(nodes, units, n - 1),
        }
    }
}

/// One of the first `n` options asks for the file to be built.
pub open spec fn wants_build(nodes: Seq<XmlNode>, options: Seq<usize>, n: int) -> bool
    decreases n,
{
    if n <= 0 {
        false
    } else {
        wants_build(nodes, options, n - 1) || nodes[options[n - 1] as int].attr("compile"@)
            == Some("1"@)
    }
}

/// The build command that an option offers, with the compiler it is for:
/// the option names both, is marked as used, and the command is not blank.
pub open spec fn offer(node: XmlNode) -> Option<(Seq<char>, Seq<char>)> {
    match (node.attr("compiler"@), node.attr("buildCommand"@)) {
        (Some(c), Some(b)) => if node.attr("use"@) == Some("1"@) && trimmed(b).len() > 0 {
            Some((c, trimmed(b)))
        } else {
            None
        },
        _ => None,
    }
}

/// The first offer among the first `n` options.
pub open spec fn first_offer(
    nodes: Seq<XmlNode>,
    options: Seq<usize>,
    n: int,
) -> Option<(Seq<char>, Seq<char>)>
    decreases n,
{
    if n <= 0 {
        None
    } else {
        match first_offer(nodes, options, n - 1) {
            Some(o) => Some(o),
            None => offer(nodes[options[n - 1] as int]),
        }
    }
}

/// The first offer for the compiler `id` among the first `n` options.
pub open spec fn matching_offer(
    nodes: Seq<XmlNode>,
    options: Seq<usize>,
    id: Seq<char>,
    n: int,
) -> Option<(Seq<char>, Seq<char>)>
    decreases n,
{
    if n <= 0 {
        None
    } else {
        match matching_offer(nodes, options, id, n - 1) {
            Some(o) => Some(o),
            None => match offer(nodes[options[n - 1] as int]) {
                Some(o) => if o.0 == id {
                    Some(o)
                } else {
                    None
                },
                None => None,
            },
        }
    }
}

/// The special file that a unit declares: its name is no source name, one
/// of its options asks for it to be built, and one offers a command. The
/// first offer for the project's compiler is taken, else the first offer.
pub open spec fn special_at(
    nodes: Seq<XmlNode>,
    unit: usize,
    id: Seq<char>,
) -> Option<SpecialFile> {
    let options = children_of(nodes, unit, "Option"@);
    let n = options.len() as int;
    match nodes[unit as int].attr("filename"@) {
        Some(f) => if !is_source_name(f) && wants_build(nodes, options, n) {
            match matching_offer(nodes, options, id, n) {
                Some(o) => Some(SpecialFile { filename: f, compiler_id: o.0, build_command: o.1 }),
                None => match first_offer(nodes, options, n) {
                    Some(o) => Some(
                        SpecialFile { filename: f, compiler_id: o.0, build_command: o.1 },
                    ),
                    None => None,
                },
            }
        } else {
            None
        },
        None => None,
    }
}

/// The special files among the first `n` units.
pub open spec fn specials_among(
    nodes: Seq<XmlNode>,
    units: Seq<usize>,
    id: Seq<char>,
    n: int,
) -> Seq<SpecialFile>
    decreases n,
{
    if n <= 0 {
        Seq::empty()
    } else {
        match special_at(nodes, units[n - 1], id) {
            Some(s) => specials_among(nodes, units, id, n - 1).push(s),
            None => specials_among(nodes, units, id, n - 1),
        }
    }
}

/// What a target sets under `key`: the value on the last of its options
/// that carries the attribute.
pub open spec fn target_setting(
    nodes: Seq<XmlNode>,
    target: usize,
    key: Seq<char>,
) -> Option<Seq<char>> {
    let all = values_of(nodes, children_of(nodes, target, "Option"@), key);
    if all.len() > 0 {
        Some(all.last())
    } else {
        None
    }
}

/// The setting of the first of the first `n` targets that sets `key` to
/// something not empty; the empty text where none does. Later targets are
/// not asked.
pub open spec fn setting_among(
    nodes: Seq<XmlNode>,
    targets: Seq<usize>,
    key: Seq<char>,
    n: int,
) -> Seq<char>
    decreases n,
{
    if n <= 0 {
        Seq::empty()
    } else if setting_among(nodes, targets, key, n - 1).len() > 0 {
        setting_among(nodes, targets, key, n - 1)
    } else {
        match target_setting(nodes, targets[n - 1], key) {
            Some(v) => v,
            None => Seq::empty(),
        }
    }
}

/// The first of the values, or `fallback` where there is none.
pub open spec fn first_or(values: Seq<Seq<char>>, fallback: Seq<char>) -> Seq<char> {
    if values.len() > 0 {
        values[0]
    } else {
        fallback
    }
}

/// `s`, or `fallback` where `s` is empty.
pub open spec fn or_default(s: Seq<char>, fallback: Seq<char>) -> Seq<char> {
    if s.len() > 0 {
        s
    } else {
        fallback
    }
}

/// The project that the element `p` of a document describes.
pub open spec fn project_at(nodes: Seq<XmlNode>, p: usize) -> Result<Project, ProjectError> {
    let options = children_of(nodes, p, "Option"@);
    let name = first_or(values_of(nodes, options, "title"@), "output"@);
    let id = first_or(values_of(nodes, options, "compiler"@), "riscv32-v2"@);
    let targets = targets_of(nodes, p);
    let flags = all_said(nodes, p, "Compiler"@, "option"@);
    let includes = prefixed(all_said(nodes, p, "Compiler"@, "directory"@), "-I"@);
    let macros = macros_of(id, flags, includes, name);
    let extra = entries_of(nodes, p, "ExtraCommands"@, "Add"@);
    let befores = values_of(nodes, extra, "before"@);
    let afters = values_of(nodes, extra, "after"@);
    let units = children_of(nodes, p, "Unit"@);
    let sources = sources_among(nodes, units, units.len() as int);
    let specials = specials_among(nodes, units, id, units.len() as int);
    if sources.len() == 0 && specials.len() == 0 {
        Err(ProjectError::NoUnits)
    } else {
        Ok(
            Project {
                compiler_id: id,
                project_name: name,
                global_cflags: flags,
                include_dirs: includes,
                source_files: sources,
                special_files: specials,
                prebuild_commands: commands_among(befores, macros, befores.len() as int),
                postbuild_commands: commands_among(afters, macros, afters.len() as int),
                march_info: march_among(flags, flags.len() as int),
                object_output: or_default(
                    setting_among(nodes, targets, "object_output"@, targets.len() as int),
                    "./"@,
                ),
                output: or_default(
                    setting_among(nodes, targets, "output"@, targets.len() as int),
                    name + ".elf"@,
                ),
                linker_options: said(nodes, p, "Linker"@, "option"@),
                linker_libs: link_order(
                    library_flags(said(nodes, p, "Linker"@, "library"@)),
                    library_flags(
                        gathered_among(
                            nodes,
                            targets,
                            "Linker"@,
                            "library"@,
                            targets.len() as int,
                        ),
                    ),
                ),
                linker_lib_dirs: prefixed(all_said(nodes, p, "Linker"@, "directory"@), "-L"@),
                linker_type: "gcc"@,
            },
        )
    }
}

/// The project that a document describes: the one that the first
/// `Project` element in its root element describes.
pub open spec fn project_of(nodes: Seq<XmlNode>) -> Result<Project, ProjectError> {
    match crate::xml::root_among(nodes, nodes.len() as int) {
        None => Err(ProjectError::NoProject),
        Some(root) => match crate::xml::first_child_of(nodes, root, "Project"@) {
            None => Err(ProjectError::NoProject),
            Some(p) => project_at(nodes, p),
        },
    }
}

/// The project that a text describes: none where `roxmltree` finds the text
/// to be no XML document.
pub open spec fn project_of_text(text: Seq<char>) -> Result<Project, ProjectError> {
    match crate::xml::xml_nodes(text) {
        None => Err(ProjectError::InvalidXml),
        Some(nodes) => project_of(nodes),
    }
}

/// A command with its tokens replaced.
pub fn expand(
    cmd: &str,
    compiler: &str,
    options: &str,
    includes: &str,
    project_name: &str,
) -> (r: String)
    ensures
        r@ == expanded(
            cmd@,
            Macros {
                compiler: compiler@,
                options: options@,
                includes: includes@,
                project_name: project_name@,
            },
        ),
{
    let a = replace(cmd, "$compiler", compiler);
    let b = replace(a.as_str(), "$options", options);
    let c = replace(b.as_str(), "$includes", includes);
    let d = replace(c.as_str(), "$(PROJECT_NAME)", project_name);
    replace(d.as_str(), "$(PROJECT_DIR)", ".\\")
}

/// The commands among the values: each trimmed, the empty ones left out,
/// the tokens of the others replaced.
pub fn extra_commands(
    values: &Vec<String>,
    compiler: &str,
    options: &str,
    includes: &str,
    project_name: &str,
) -> (r: Vec<String>)
    ensures
        texts(r@) == commands_among(
            texts(values@),
            Macros {
                compiler: compiler@,
                options: options@,
                includes: includes@,
                project_name: project_name@,
            },
            values@.len() as int,
        ),
{
    let ghost m = Macros {
        compiler: compiler@,
        options: options@,
        includes: includes@,
        project_name: project_name@,
    };
    let mut out: Vec<String> = Vec::new();
    let mut i: usize = 0;
    while i < values.len()
        invariant
            i <= values.len(),
            m == (Macros {
                compiler: compiler@,
                options: options@,
                includes: includes@,
                project_name: project_name@,
            }),
            texts(out@) == commands_among(texts(values@), m, i as int),
        decreases values.len() - i,
    {
        let t = trim(values[i].as_str());
        if t.as_str().unicode_len() > 0 {
            push_text(&mut out, expand(t.as_str(), compiler, options, includes, project_name));
        }
        i += 1;
    }
    out
}

/// Whether a file with this name is compiled by the common rule.
pub fn has_source_name(f: &str) -> (r: bool)
    ensures
        r == is_source_name(f@),
{
    match LogicalPath::parse(f).extension() {
        Some(e) => same(e.as_str(), "c") || same(e.as_str(), "cpp") || same(e.as_str(), "C")
            || same(e.as_str(), "CPP") || same(e.as_str(), "S") || same(e.as_str(), "s"),
        None => false,
    }
}

/// The build command that an option offers, with the compiler it is for.
pub fn offered(node: &XmlNode) -> (r: Option<(String, String)>)
    ensures
        match r {
            Some(o) => offer(*node) == Some((o.0@, o.1@)),
            None => offer(*node) is None,
        },
{
    match (node.attribute("compiler"), node.attribute("buildCommand")) {
        (Some(c), Some(b)) => {
            let used = match node.attribute("use") {
                Some(u) => same(u.as_str(), "1"),
                None => false,
            };
            let t = trim(b.as_str());
            if used && t.as_str().unicode_len() > 0 {
                Some((c, t))
            } else {
                None
            }
        },
        _ => None,
    }
}

/// The special file that a unit declares.
pub(crate) fn special_file(
    doc: &XmlDocument,
    unit: usize,
    id: &str,
) -> (r: Option<SpecialFileBuildInfo>)
    requires
        unit < doc.nodes.len(),
    ensures
        match r {
            Some(s) => special_at(doc.nodes@, unit, id@) == Some(s@),
            None => special_at(doc.nodes@, unit, id@) is None,
        },
{
    let name = match doc.nodes[unit].attribute("filename") {
        Some(f) => f,
        None => {
            return None;
        },
    };
    if has_source_name(name.as_str()) {
        return None;
    }
    let options = doc.children(unit, "Option");
    let mut wanted = false;
    let mut first: Option<(String, String)> = None;
    let mut matching: Option<(String, String)> = None;
    let mut i: usize = 0;
    while i < options.len()
        invariant
            i <= options.len(),
            forall|k: int| 0 <= k < options@.len() ==> #[trigger] options@[k] < doc.nodes.len(),
            wanted == wants_build(doc.nodes@, options@, i as int),
            matching is Some ==> first is Some,
            match first {
                Some(o) => first_offer(doc.nodes@, options@, i as int) == Some((o.0@, o.1@)),
                None => first_offer(doc.nodes@, options@, i as int) is None,
            },
            match matching {
                Some(o) => matching_offer(doc.nodes@, options@, id@, i as int) == Some(
                    (o.0@, o.1@),
                ),
                None => matching_offer(doc.nodes@, options@, id@, i as int) is None,
            },
        decreases options.len() - i,
    {
        let node = &doc.nodes[options[i]];
        match node.attribute("compile") {
            Some(c) => {
                if same(c.as_str(), "1") {
                    wanted = true;
                }
            },
            None => {},
        }
        if matching.is_none() {
            match offered(node) {
                Some(o) => {
                    if same(o.0.as_str(), id) {
                        if first.is_none() {
                            first = Some((o.0.clone(), o.1.clone()));
                        }
                        matching = Some(o);
                    } else if first.is_none() {
                        first = Some(o);
                    }
                },
                None => {},
            }
        }
        i += 1;
    }
    if !wanted {
        return None;
    }
    match matching {
        Some(o) => Some(
            SpecialFileBuildInfo { filename: name, compiler_id: o.0, build_command: o.1 },
        ),
        None => match first {
            Some(o) => Some(
                SpecialFileBuildInfo { filename: name, compiler_id: o.0, build_command: o.1 },
            ),
            None => None,
        },
    }
}

/// What a target sets under `key`.
pub fn setting_of(doc: &XmlDocument, target: usize, key: &str) -> (r: Option<String>)
    ensures
        match r {
            Some(v) => target_setting(doc.nodes@, target, key@) == Some(v@),
            None => target_setting(doc.nodes@, target, key@) is None,
        },
{
    let options = doc.children(target, "Option");
    let all = values(doc, &options, key);
    if all.len() > 0 {
        Some(all[all.len() - 1].clone())
    } else {
        None
    }
}

/// The setting of the first target that sets `key` to something not
/// empty.
pub fn first_setting(doc: &XmlDocument, targets: &Vec<usize>, key: &str) -> (r: String)
    ensures
        r@ == setting_among(doc.nodes@, targets@, key@, targets@.len() as int),
{
    let mut i: usize = 0;
    while i < targets.len()
        invariant
            i <= targets.len(),
            setting_among(doc.nodes@, targets@, key@, i as int).len() == 0,
        decreases targets.len() - i,
    {
        match setting_of(doc, targets[i], key) {
            Some(v) => {
                if v.as_str().unicode_len() > 0 {
                    proof {
                        lemma_setting_kept(
                            doc.nodes@,
                            targets@,
                            key@,
                            i + 1,
                            targets@.len() as int,
                        );
                    }
                    return v;
                }
            },
            None => {},
        }
        i += 1;
    }
    String::new()
}

/// A setting found among the first `n` targets is the setting among more
/// of them.
pub proof fn lemma_setting_kept(
    nodes: Seq<XmlNode>,
    targets: Seq<usize>,
    key: Seq<char>,
    n: int,
    m: int,
)
    requires
        n <= m,
        setting_among(nodes, targets, key, n).len() > 0,
    ensures
        setting_among(nodes, targets, key, m) == setting_among(nodes, targets, key, n),
    decreases m - n,
{
    if n < m {
        lemma_setting_kept(nodes, targets, key, n, m - 1);
    }
}

/// The project that the element `p` of a document describes.
pub fn project_from_element(
    doc: &XmlDocument,
    p: usize,
) -> (r: Result<ProjectInfo, ProjectError>)
    ensures
        match r {
            Ok(info) => project_at(doc.nodes@, p) == Ok::<Project, ProjectError>(info@),
            Err(e) => project_at(doc.nodes@, p) == Err::<Project, ProjectError>(e),
        },
{
    let options = doc.children(p, "Option");
    let titles = values(doc, &options, "title");
    let project_name = if titles.len() > 0 {
        titles[0].clone()
    } else {
        "output".to_string()
    };
    let ids = values(doc, &options, "compiler");
    let compiler_id = if ids.len() > 0 {
        ids[0].clone()
    } else {
        "riscv32-v2".to_string()
    };
    let targets = targets(doc, p);
    let global_cflags = all_spoken(doc, p, &targets, "Compiler", "option");
    let include_dirs = with_prefix(
        &all_spoken(doc, p, &targets, "Compiler", "directory"),
        "-I",
    );
    let toolchain = ToolchainConfig::for_compiler_id(compiler_id.as_str());
    let mut compiler = "\"".to_string();
    compiler.append(toolchain.compiler_path().as_str());
    compiler.append("\"");
    let options_text = join(&global_cflags, " ");
    let includes_text = join(&include_dirs, " ");
    let extra = doc.entries(p, "ExtraCommands", "Add");
    let befores = values(doc, &extra, "before");
    let afters = values(doc, &extra, "after");
    let prebuild_commands = extra_commands(
        &befores,
        compiler.as_str(),
        options_text.as_str(),
        includes_text.as_str(),
        project_name.as_str(),
    );
    let postbuild_commands = extra_commands(
        &afters,
        compiler.as_str(),
        options_text.as_str(),
        includes_text.as_str(),
        project_name.as_str(),
    );
    let units = doc.children(p, "Unit");
    let mut source_files: Vec<String> = Vec::new();
    let mut special_files: Vec<SpecialFileBuildInfo> = Vec::new();
    let mut i: usize = 0;
    while i < units.len()
        invariant
            i <= units.len(),
            forall|k: int| 0 <= k < units@.len() ==> #[trigger] units@[k] < doc.nodes.len(),
            texts(source_files@) == sources_among(doc.nodes@, units@, i as int),
            crate::models::specials(special_files@) == specials_among(
                doc.nodes@,
                units@,
                compiler_id@,
                i as int,
            ),
        decreases units.len() - i,
    {
        let unit = units[i];
        match doc.nodes[unit].attribute("filename") {
            Some(f) => {
                if has_source_name(f.as_str()) {
                    push_text(&mut source_files, f);
                }
            },
            None => {},
        }
        match special_file(doc, unit, compiler_id.as_str()) {
            Some(s) => {
                proof {
                    crate::models::lemma_specials_push(special_files@, s);
                }
                special_files.push(s);
            },
            None => {},
        }
        i += 1;
    }
    if source_files.len() == 0 && special_files.len() == 0 {
        return Err(ProjectError::NoUnits);
    }
    let found_objects = first_setting(doc, &targets, "object_output");
    let object_output = if found_objects.as_str().unicode_len() > 0 {
        found_objects
    } else {
        "./".to_string()
    };
    let found_output = first_setting(doc, &targets, "output");
    let output = if found_output.as_str().unicode_len() > 0 {
        found_output
    } else {
        glue(project_name.as_str(), ".elf")
    };
    let linker_options = spoken(doc, p, "Linker", "option");
    let broad = to_library_flags(&spoken(doc, p, "Linker", "library"));
    let narrow = to_library_flags(&gathered(doc, &targets, "Linker", "library"));
    let linker_libs = merge_libraries(&broad, &narrow);
    let linker_lib_dirs = with_prefix(
        &all_spoken(doc, p, &targets, "Linker", "directory"),
        "-L",
    );
    let march_info = march_of(&global_cflags);
    let info = ProjectInfo {
        compiler_id,
        project_name,
        global_cflags,
        include_dirs,
        source_files,
        special_files,
        prebuild_commands,
        postbuild_commands,
        march_info,
        object_output,
        output,
        linker_options,
        linker_libs,
        linker_lib_dirs,
        linker_type: "gcc".to_string(),
    };
    Ok(info)
}

/// The project that a document describes.
pub fn project_from_document(doc: &XmlDocument) -> (r: Result<ProjectInfo, ProjectError>)
    ensures
        match r {
            Ok(info) => project_of(doc.nodes@) == Ok::<Project, ProjectError>(info@),
            Err(e) => project_of(doc.nodes@) == Err::<Project, ProjectError>(e),
        },
{
    match doc.root_element() {
        None => Err(ProjectError::NoProject),
        Some(root) => match doc.first_child(root, "Project") {
            None => Err(ProjectError::NoProject),
            Some(p) => project_from_element(doc, p),
        },
    }
}

/// The project that a text describes.
pub fn parse_cbp_file(xml_content: &str) -> (r: Result<ProjectInfo, ProjectError>)
    ensures
        match r {
            Ok(info) => project_of_text(xml_content@) == Ok::<Project, ProjectError>(info@),
            Err(e) => project_of_text(xml_content@) == Err::<Project, ProjectError>(e),
        },
{
    match crate::xml::read_nodes(xml_content) {
        Ok(nodes) => project_from_document(&XmlDocument { nodes }),
        Err(_) => Err(ProjectError::InvalidXml),
    }
}

} // verus!
