//! From a project to its build graph: where the object files go, what each
//! file is built by, and what the final target is made of.

use crate::config::ToolchainConfig;
use crate::graph::{
    lemma_statements_push, statements_of, Binding, BindingModel, BuildGraph, Edge, EdgeKind,
    EdgeModel, GraphModel, Rule, RuleModel, Statement, StatementModel,
};
use crate::host::Host;
use crate::models::{Project, ProjectInfo, SpecialFile, SpecialFileBuildInfo};
use crate::parser::ProjectError;
use crate::paths::{
    absolute, common_ancestor, find_common_ancestor, get_clean_absolute_path, has_file_name,
    joined_paths, lemma_steps_push, normalize_str, parent_of, parsed, rendered, separator_of,
    steps, views_of, with_extension, with_separator, Component, LogicalPath, PathStyle, Step,
};
use crate::resolver::{lemma_views_push, resolve_library_path, resolved};
use crate::text::{
    chars_of, contains, ends_with, find, glue, holds, join, joined, lemma_first_at_or_after,
    position, push_text, replace, replace_char, replaced, same, slice, starts_with, texts,
    with_char,
};
use vstd::prelude::*;

verus! {

/// The command that stands for a tool: the short name of its path where
/// the path exists, else the bare name of the tool.
pub open spec fn tool_command(host: Host, path: Seq<char>, placeholder: Seq<char>) -> Seq<char> {
    if host.has(path) {
        host.short(path)
    } else {
        placeholder
    }
}

/// The command that stands for the compiler.
pub open spec fn compiler_command(t: ToolchainConfig, host: Host) -> Seq<char> {
    tool_command(host, t.compiler(), "riscv32-elf-gcc"@)
}

/// The command that stands for the linker of the given type.
pub open spec fn linker_command(
    t: ToolchainConfig,
    host: Host,
    linker_type: Seq<char>,
) -> Seq<char> {
    tool_command(
        host,
        t.linker(linker_type),
        if linker_type == "ld"@ {
            "riscv32-elf-ld"@
        } else {
            "riscv32-elf-gcc"@
        },
    )
}

/// The command that stands for the archiver.
pub open spec fn archiver_command(t: ToolchainConfig, host: Host) -> Seq<char> {
    tool_command(host, t.archiver(), "riscv32-elf-ar"@)
}

/// Each value with its separators written as `sep`.
pub open spec fn separated(values: Seq<Seq<char>>, sep: char) -> Seq<Seq<char>> {
    Seq::new(values.len(), |i: int| with_separator(values[i], sep))
}

/// The flags that every source file is compiled with: the project's
/// flags, then its include flags.
pub open spec fn base_flags(p: Project, sep: char) -> Seq<Seq<char>> {
    separated(p.global_cflags, sep) + separated(p.include_dirs, sep)
}

/// Where each source file lies, read from the project's directory.
pub open spec fn source_paths(dir: Seq<Step>, sources: Seq<Seq<char>>) -> Seq<Seq<Step>> {
    Seq::new(sources.len(), |i: int| absolute(dir, parsed(sources[i])))
}

/// The directory that all source files of the project lie in.
pub open spec fn source_ancestor(p: Project, dir: Seq<Step>) -> Seq<Step> {
    common_ancestor(source_paths(dir, p.source_files))
}

/// The file name of a path as a path, or the path itself where it ends in
/// no file name.
pub open spec fn file_part(src: Seq<Step>) -> Seq<Step> {
    if has_file_name(src) {
        seq![src.last()]
    } else {
        src
    }
}

/// Where the object file of a file goes: under the object directory, by
/// the same steps by which the file lies under the common ancestor, with
/// the extension `o`. A file that does not lie under the ancestor goes by
/// `fallback` instead.
pub open spec fn placed(
    file: Seq<Step>,
    ancestor: Seq<Step>,
    fallback: Seq<Step>,
    object_dir: Seq<Step>,
) -> Seq<Step> {
    with_extension(
        joined_paths(
            object_dir,
            if ancestor.is_prefix_of(file) {
                file.skip(ancestor.len() as int)
            } else {
                fallback
            },
        ),
        "o"@,
    )
}

/// The object file of a source file of the project.
pub open spec fn object_file(
    p: Project,
    dir: Seq<Step>,
    source: Seq<char>,
    sep: char,
) -> Seq<char> {
    rendered(
        placed(
            absolute(dir, parsed(source)),
            source_ancestor(p, dir),
            file_part(parsed(source)),
            parsed(p.object_output),
        ),
        sep,
    )
}

/// The object files of the project, in the order of its source files.
pub open spec fn object_files(p: Project, dir: Seq<Step>, sep: char) -> Seq<Seq<char>> {
    Seq::new(p.source_files.len(), |i: int| object_file(p, dir, p.source_files[i], sep))
}

/// What the tokens of a build command stand for, as mathematical values.
pub struct TokenTexts {
    pub compiler: Seq<char>,
    pub options: Seq<char>,
    pub includes: Seq<char>,
    pub object_dir: Seq<char>,
    pub output_dir: Seq<char>,
}

/// What the tokens of a build command stand for.
#[derive(Debug)]
pub struct Tokens {
    pub compiler: String,
    pub options: String,
    pub includes: String,
    pub object_dir: String,
    pub output_dir: String,
}

impl View for Tokens {
    type V = TokenTexts;

    open spec fn view(&self) -> TokenTexts {
        TokenTexts {
            compiler: self.compiler@,
            options: self.options@,
            includes: self.includes@,
            object_dir: self.object_dir@,
            output_dir: self.output_dir@,
        }
    }
}

/// The directory that the final target is written to; `.` where the
/// output names no directory.
pub open spec fn output_dir(p: Project, sep: char) -> Seq<char> {
    if parent_of(parsed(p.output)).len() == 0 {
        "."@
    } else {
        rendered(parent_of(parsed(p.output)), sep)
    }
}

/// What the tokens stand for in a project: the compiler, the compile flags
/// and the include flags, each list joined by spaces, the directory of the
/// object files and the directory of the final target.
pub open spec fn tokens_of(p: Project, compiler: Seq<char>, sep: char) -> TokenTexts {
    TokenTexts {
        compiler,
        options: joined(base_flags(p, sep), " "@),
        includes: joined(separated(p.include_dirs, sep), " "@),
        object_dir: with_separator(p.object_output, sep),
        output_dir: output_dir(p, sep),
    }
}

/// The build command of a special file with its tokens replaced, one token
/// after the other: the compiler, the options, the include flags, the
/// file, the object directory and the directory of the final target.
pub open spec fn special_command(
    template: Seq<char>,
    file: Seq<char>,
    t: TokenTexts,
) -> Seq<char> {
    replaced(
        replaced(
            replaced(
                replaced(
                    replaced(replaced(template, "$compiler"@, t.compiler), "$options"@, t.options),
                    "$includes"@,
                    t.includes,
                ),
                "$file"@,
                file,
            ),
            "$(TARGET_OBJECT_DIR)"@,
            t.object_dir,
        ),
        "$(TARGET_OUTPUT_DIR)"@,
        t.output_dir,
    )
}

/// The output that a command names: what follows its first `-o `, up to
/// the next space.
pub open spec fn named_output(cmd: Seq<char>) -> Option<Seq<char>> {
    match position(cmd, "-o "@) {
        Some(i) => {
            let rest = cmd.skip(i + 3);
            match position(rest, " "@) {
                Some(j) => Some(rest.take(j)),
                None => Some(rest),
            }
        },
        None => None,
    }
}

/// The command looks like a call of a compiler.
pub open spec fn invokes_compiler(cmd: Seq<char>) -> bool {
    holds(cmd, "gcc"@) || holds(cmd, "g++"@) || holds(cmd, "clang"@)
}

/// The name of the rule of a special file: `special_` and the file's name
/// with each dot, slash, backslash and colon written as an underscore.
pub open spec fn special_rule_name(filename: Seq<char>) -> Seq<char> {
    "special_"@ + with_char(
        with_char(with_char(with_char(filename, '.', '_'), '/', '_'), '\\', '_'),
        ':',
        '_',
    )
}

/// The rule of a special file. An empty command becomes one that writes
/// an empty output; a command that calls a compiler also writes what its
/// output depends on.
pub open spec fn special_rule(s: SpecialFile, file: Seq<char>, t: TokenTexts) -> RuleModel {
    let cmd = special_command(s.build_command, file, t);
    if cmd.len() == 0 {
        RuleModel {
            name: special_rule_name(s.filename),
            command: "cmd /c type nul > $out"@,
            depfile: None,
            deps: None,
        }
    } else if invokes_compiler(cmd) {
        RuleModel {
            name: special_rule_name(s.filename),
            command: cmd + " -MMD -MF $out.d"@,
            depfile: Some("$out.d"@),
            deps: Some("gcc"@),
        }
    } else {
        RuleModel { name: special_rule_name(s.filename), command: cmd, depfile: None, deps: None }
    }
}

/// The output of a special file: the one that its command names, else its
/// place under the object directory.
pub open spec fn special_output(
    s: SpecialFile,
    p: Project,
    dir: Seq<Step>,
    compiler: Seq<char>,
    sep: char,
) -> Seq<char> {
    match named_output(
        special_command(
            s.build_command,
            with_separator(s.filename, sep),
            tokens_of(p, compiler, sep),
        ),
    ) {
        Some(o) => with_separator(o, sep),
        None => rendered(
            placed(
                absolute(dir, parsed(s.filename)),
                source_ancestor(p, dir),
                parsed(s.filename),
                parsed(p.object_output),
            ),
            sep,
        ),
    }
}

/// The edge of a special file.
pub open spec fn special_edge(
    s: SpecialFile,
    p: Project,
    dir: Seq<Step>,
    compiler: Seq<char>,
    sep: char,
) -> EdgeModel {
    EdgeModel {
        kind: EdgeKind::Special,
        output: special_output(s, p, dir, compiler, sep),
        rule: special_rule_name(s.filename),
        inputs: seq![with_separator(s.filename, sep)],
        implicit: Seq::empty(),
        bindings: Seq::empty(),
    }
}

/// The rule and the edge of each of the first `n` special files.
pub open spec fn special_statements(
    p: Project,
    dir: Seq<Step>,
    compiler: Seq<char>,
    sep: char,
    n: int,
) -> Seq<StatementModel>
    decreases n,
{
    if n <= 0 {
        Seq::empty()
    } else {
        special_statements(p, dir, compiler, sep, n - 1).push(
            StatementModel::Rule(
                special_rule(
                    p.special_files[n - 1],
                    with_separator(p.special_files[n - 1].filename, sep),
                    tokens_of(p, compiler, sep),
                ),
            ),
        ).push(StatementModel::Edge(special_edge(p.special_files[n - 1], p, dir, compiler, sep)))
    }
}

/// The outputs of the first `n` special files.
pub open spec fn special_outputs(
    p: Project,
    dir: Seq<Step>,
    compiler: Seq<char>,
    sep: char,
    n: int,
) -> Seq<Seq<char>>
    decreases n,
{
    if n <= 0 {
        Seq::empty()
    } else {
        special_outputs(p, dir, compiler, sep, n - 1).push(
            special_output(p.special_files[n - 1], p, dir, compiler, sep),
        )
    }
}

/// The rule by which source files are compiled.
pub open spec fn compile_rule(compiler: Seq<char>) -> RuleModel {
    RuleModel {
        name: "cc"@,
        command: compiler + " $flags -MMD -MF $out.d -c $in -o $out"@,
        depfile: Some("$out.d"@),
        deps: Some("gcc"@),
    }
}

/// The edge that compiles one source file.
pub open spec fn compile_edge(
    p: Project,
    dir: Seq<Step>,
    source: Seq<char>,
    sep: char,
) -> EdgeModel {
    EdgeModel {
        kind: EdgeKind::Compile,
        output: object_file(p, dir, source, sep),
        rule: "cc"@,
        inputs: seq![with_separator(source, sep)],
        implicit: Seq::empty(),
        bindings: seq![
            BindingModel { name: "flags"@, value: joined(base_flags(p, sep), " "@) },
        ],
    }
}

/// The edges that compile the first `n` source files.
pub open spec fn compile_statements(
    p: Project,
    dir: Seq<Step>,
    sep: char,
    n: int,
) -> Seq<StatementModel>
    decreases n,
{
    if n <= 0 {
        Seq::empty()
    } else {
        compile_statements(p, dir, sep, n - 1).push(
            StatementModel::Edge(compile_edge(p, dir, p.source_files[n - 1], sep)),
        )
    }
}

/// The project builds a static library: its output ends in `.a`.
pub open spec fn is_archive(p: Project) -> bool {
    ".a"@.is_suffix_of(p.output)
}

/// The file name of a static library: `name` with `lib` before it, unless
/// it begins with `lib` already.
pub open spec fn archive_name(name: Seq<char>) -> Seq<char> {
    if "lib"@.is_prefix_of(name) {
        name
    } else {
        "lib"@ + name
    }
}

/// The final target of the project: its output, and for a static library
/// whose file name lacks the `lib`, the output under its library name.
pub open spec fn target_name(p: Project, sep: char) -> Seq<char> {
    let path = parsed(p.output);
    if is_archive(p) && has_file_name(path) && !"lib"@.is_prefix_of(path.last()->Name_0) {
        rendered(path.drop_last().push(Step::Name(archive_name(path.last()->Name_0))), sep)
    } else {
        with_separator(p.output, sep)
    }
}

/// The linker options as they are passed: the object directory put in for
/// its token, separators written as `sep`.
pub open spec fn pre_flags(p: Project, sep: char) -> Seq<Seq<char>> {
    Seq::new(
        p.linker_options.len(),
        |i: int|
            with_separator(
                replaced(
                    p.linker_options[i],
                    "$(TARGET_OBJECT_DIR)"@,
                    with_separator(p.object_output, sep),
                ),
                sep,
            ),
    )
}

/// The files of those of the first `n` libraries that were found.
pub open spec fn resolved_among(
    p: Project,
    root: Seq<Step>,
    host: Host,
    n: int,
) -> Seq<Seq<char>>
    decreases n,
{
    if n <= 0 {
        Seq::empty()
    } else {
        match resolved(p.linker_libs[n - 1], p.linker_lib_dirs, root, host) {
            Some(path) => resolved_among(p, root, host, n - 1).push(path),
            None => resolved_among(p, root, host, n - 1),
        }
    }
}

/// The binding of `name` to the values joined by spaces; none for no
/// values.
pub open spec fn binding_if(name: Seq<char>, values: Seq<Seq<char>>) -> Seq<BindingModel> {
    if values.len() > 0 {
        seq![BindingModel { name, value: joined(values, " "@) }]
    } else {
        Seq::empty()
    }
}

/// The rule that links: the options, then the inputs, and only after them
/// the search directories and the libraries.
pub open spec fn link_rule(linker: Seq<char>) -> RuleModel {
    RuleModel {
        name: "link"@,
        command: linker + " $pre_flags $in $lib_dirs $lib_flags -o $out"@,
        depfile: None,
        deps: None,
    }
}

/// The rule that archives: it deletes an output that is there before it
/// calls the archiver.
pub open spec fn archive_rule(archiver: Seq<char>) -> RuleModel {
    RuleModel {
        name: "ar"@,
        command: "cmd /c (if exist \"$out\" del /q \"$out\") & "@ + archiver + " crs $out $in"@,
        depfile: None,
        deps: None,
    }
}

/// The edge that links the executable: from the object files, waiting for
/// the outputs of the special files and for the libraries that were found.
pub open spec fn link_edge(
    p: Project,
    dir: Seq<Step>,
    compiler: Seq<char>,
    host: Host,
) -> EdgeModel {
    let sep = separator_of(host.style);
    EdgeModel {
        kind: EdgeKind::Link,
        output: target_name(p, sep),
        rule: "link"@,
        inputs: object_files(p, dir, sep),
        implicit: special_outputs(p, dir, compiler, sep, p.special_files.len() as int)
            + resolved_among(p, dir, host, p.linker_libs.len() as int),
        bindings: binding_if("pre_flags"@, pre_flags(p, sep)) + binding_if(
            "lib_dirs"@,
            separated(p.linker_lib_dirs, sep),
        ) + binding_if("lib_flags"@, separated(p.linker_libs, sep)),
    }
}

/// The edge that archives the static library: from the object files,
/// waiting for the outputs of the special files.
pub open spec fn archive_edge(
    p: Project,
    dir: Seq<Step>,
    compiler: Seq<char>,
    sep: char,
) -> EdgeModel {
    EdgeModel {
        kind: EdgeKind::Archive,
        output: target_name(p, sep),
        rule: "ar"@,
        inputs: object_files(p, dir, sep),
        implicit: special_outputs(p, dir, compiler, sep, p.special_files.len() as int),
        bindings: Seq::empty(),
    }
}

/// The rule and the edge of the final target.
pub open spec fn final_statements(
    p: Project,
    dir: Seq<Step>,
    t: ToolchainConfig,
    host: Host,
) -> Seq<StatementModel> {
    let sep = separator_of(host.style);
    let compiler = compiler_command(t, host);
    if is_archive(p) {
        seq![
            StatementModel::Rule(archive_rule(archiver_command(t, host))),
            StatementModel::Edge(archive_edge(p, dir, compiler, sep)),
        ]
    } else {
        seq![
            StatementModel::Rule(link_rule(linker_command(t, host, p.linker_type))),
            StatementModel::Edge(link_edge(p, dir, compiler, host)),
        ]
    }
}

/// The build graph of a project that lies in `dir`: the compile rule; for
/// each special file its rule and its edge; for each source file its edge;
/// the rule and the edge of the final target, which is the default.
pub open spec fn graph_of(
    p: Project,
    dir: Seq<Step>,
    t: ToolchainConfig,
    host: Host,
) -> GraphModel {
    let sep = separator_of(host.style);
    let compiler = compiler_command(t, host);
    GraphModel {
        statements: seq![StatementModel::Rule(compile_rule(compiler))] + special_statements(
            p,
            dir,
            compiler,
            sep,
            p.special_files.len() as int,
        ) + compile_statements(p, dir, sep, p.source_files.len() as int) + final_statements(
            p,
            dir,
            t,
            host,
        ),
        default_target: target_name(p, sep),
    }
}

/// The command that stands for a tool.
pub fn tool_for(host: &Host, path: &str, placeholder: &str) -> (r: String)
    ensures
        r@ == tool_command(*host, path@, placeholder@),
{
    if host.is_present(path) {
        host.shorten(path)
    } else {
        placeholder.to_string()
    }
}

/// Each value with its separators written in the given style.
pub fn separate_all(values: &Vec<String>, style: PathStyle) -> (r: Vec<String>)
    ensures
        texts(r@) == separated(texts(values@), separator_of(style)),
{
    let ghost sep = separator_of(style);
    let mut out: Vec<String> = Vec::new();
    let mut i: usize = 0;
    while i < values.len()
        invariant
            i <= values.len(),
            sep == separator_of(style),
            texts(out@) == separated(texts(values@).take(i as int), sep),
        decreases values.len() - i,
    {
        push_text(&mut out, normalize_str(values[i].as_str(), style));
        i += 1;
    }
    out
}

/// The flags that every source file is compiled with.
pub fn flags_for(project: &ProjectInfo, style: PathStyle) -> (r: Vec<String>)
    ensures
        texts(r@) == base_flags(project@, separator_of(style)),
{
    let mut out = separate_all(&project.global_cflags, style);
    let more = separate_all(&project.include_dirs, style);
    crate::text::append_texts(&mut out, &more);
    out
}

/// Where each source file lies, read from the project's directory.
pub fn absolute_sources(dir: &LogicalPath, sources: &Vec<String>) -> (r: Vec<LogicalPath>)
    ensures
        views_of(r@) == source_paths(dir@, texts(sources@)),
{
    let mut out: Vec<LogicalPath> = Vec::new();
    let mut i: usize = 0;
    while i < sources.len()
        invariant
            i <= sources.len(),
            views_of(out@) == source_paths(dir@, texts(sources@).take(i as int)),
        decreases sources.len() - i,
    {
        let path = get_clean_absolute_path(dir, &LogicalPath::parse(sources[i].as_str()));
        proof {
            lemma_views_push(out@, path);
        }
        out.push(path);
        i += 1;
    }
    out
}

/// The file name of a path as a path, or the path itself where it ends in
/// no file name.
pub fn file_part_of(src: &LogicalPath) -> (r: LogicalPath)
    ensures
        r@ == file_part(src@),
{
    match src.file_name() {
        Some(name) => {
            let mut out: Vec<Component> = Vec::new();
            out.push(Component::Name(name));
            LogicalPath { components: out }
        },
        None => src.duplicate(),
    }
}

/// Where the object file of a file goes.
pub fn place(
    file: &LogicalPath,
    ancestor: &LogicalPath,
    fallback: LogicalPath,
    object_dir: &LogicalPath,
) -> (r: LogicalPath)
    ensures
        r@ == placed(file@, ancestor@, fallback@, object_dir@),
{
    let below = match file.strip_prefix(ancestor) {
        Some(rest) => rest,
        None => fallback,
    };
    object_dir.join(&below).with_extension("o")
}

/// What the tokens of a build command stand for in a project.
pub fn tokens_for(project: &ProjectInfo, compiler: &str, style: PathStyle) -> (r: Tokens)
    ensures
        r@ == tokens_of(project@, compiler@, separator_of(style)),
{
    let target_dir = LogicalPath::parse(project.output.as_str()).parent();
    let output_dir = if target_dir.components.len() == 0 {
        ".".to_string()
    } else {
        target_dir.render(style)
    };
    Tokens {
        compiler: compiler.to_string(),
        options: join(&flags_for(project, style), " "),
        includes: join(&separate_all(&project.include_dirs, style), " "),
        object_dir: normalize_str(project.object_output.as_str(), style),
        output_dir,
    }
}

/// The build command of a special file with its tokens replaced.
pub fn expand_special(template: &str, file: &str, t: &Tokens) -> (r: String)
    ensures
        r@ == special_command(template@, file@, t@),
{
    let a = replace(template, "$compiler", t.compiler.as_str());
    let b = replace(a.as_str(), "$options", t.options.as_str());
    let c = replace(b.as_str(), "$includes", t.includes.as_str());
    let d = replace(c.as_str(), "$file", file);
    let e = replace(d.as_str(), "$(TARGET_OBJECT_DIR)", t.object_dir.as_str());
    replace(e.as_str(), "$(TARGET_OUTPUT_DIR)", t.output_dir.as_str())
}

/// The output that a command names.
pub fn output_named_in(cmd: &str) -> (r: Option<String>)
    ensures
        match r {
            Some(o) => named_output(cmd@) == Some(o@),
            None => named_output(cmd@) is None,
        },
{
    match find(cmd, "-o ") {
        Some(i) => {
            proof {
                reveal_strlit("-o ");
                lemma_first_at_or_after(cmd@, "-o "@, 0);
            }
            let n = chars_of(cmd).len();
            let rest = slice(cmd, i + 3, n);
            match find(rest.as_str(), " ") {
                Some(j) => {
                    proof {
                        reveal_strlit(" ");
                        lemma_first_at_or_after(rest@, " "@, 0);
                    }
                    Some(slice(rest.as_str(), 0, j))
                },
                None => Some(rest),
            }
        },
        None => None,
    }
}

/// Whether the command looks like a call of a compiler.
pub fn calls_compiler(cmd: &str) -> (r: bool)
    ensures
        r == invokes_compiler(cmd@),
{
    contains(cmd, "gcc") || contains(cmd, "g++") || contains(cmd, "clang")
}

/// The name of the rule of a special file.
pub fn rule_name_for(filename: &str) -> (r: String)
    ensures
        r@ == special_rule_name(filename@),
{
    let a = replace_char(filename, '.', '_');
    let b = replace_char(a.as_str(), '/', '_');
    let c = replace_char(b.as_str(), '\\', '_');
    let d = replace_char(c.as_str(), ':', '_');
    glue("special_", d.as_str())
}

/// The rule of a special file.
pub fn special_rule_for(s: &SpecialFileBuildInfo, file: &str, t: &Tokens) -> (r: Rule)
    ensures
        r@ == special_rule(s@, file@, t@),
{
    let cmd = expand_special(s.build_command.as_str(), file, t);
    let name = rule_name_for(s.filename.as_str());
    if cmd.as_str().unicode_len() == 0 {
        Rule { name, command: "cmd /c type nul > $out".to_string(), depfile: None, deps: None }
    } else if calls_compiler(cmd.as_str()) {
        Rule {
            name,
            command: glue(cmd.as_str(), " -MMD -MF $out.d"),
            depfile: Some("$out.d".to_string()),
            deps: Some("gcc".to_string()),
        }
    } else {
        Rule { name, command: cmd, depfile: None, deps: None }
    }
}

/// The edge of a special file.
pub(crate) fn special_edge_for(
    s: &SpecialFileBuildInfo,
    project: &ProjectInfo,
    dir: &LogicalPath,
    ancestor: &LogicalPath,
    object_dir: &LogicalPath,
    t: &Tokens,
    style: PathStyle,
) -> (r: Edge)
    requires
        ancestor@ == source_ancestor(project@, dir@),
        object_dir@ == parsed(project@.object_output),
        t@ == tokens_of(project@, t.compiler@, separator_of(style)),
    ensures
        r@ == special_edge(s@, project@, dir@, t.compiler@, separator_of(style)),
{
    let file = normalize_str(s.filename.as_str(), style);
    let cmd = expand_special(s.build_command.as_str(), file.as_str(), t);
    let output = match output_named_in(cmd.as_str()) {
        Some(o) => normalize_str(o.as_str(), style),
        None => {
            let path = LogicalPath::parse(s.filename.as_str());
            place(&get_clean_absolute_path(dir, &path), ancestor, path, object_dir).render(style)
        },
    };
    let mut inputs: Vec<String> = Vec::new();
    inputs.push(file);
    let r = Edge {
        kind: EdgeKind::Special,
        output,
        rule: rule_name_for(s.filename.as_str()),
        inputs,
        implicit: Vec::new(),
        bindings: Vec::new(),
    };
    assert(r@.inputs =~= seq![with_separator(s@.filename, separator_of(style))]);
    assert(r@.implicit =~= Seq::<Seq<char>>::empty());
    assert(r@.bindings =~= Seq::<BindingModel>::empty());
    r
}

/// The edge that compiles one source file.
pub(crate) fn compile_edge_for(
    source: &str,
    project: &ProjectInfo,
    dir: &LogicalPath,
    ancestor: &LogicalPath,
    object_dir: &LogicalPath,
    flags: &str,
    style: PathStyle,
) -> (r: Edge)
    requires
        ancestor@ == source_ancestor(project@, dir@),
        object_dir@ == parsed(project@.object_output),
        flags@ == joined(base_flags(project@, separator_of(style)), " "@),
    ensures
        r@ == compile_edge(project@, dir@, source@, separator_of(style)),
{
    let path = LogicalPath::parse(source);
    let output = place(
        &get_clean_absolute_path(dir, &path),
        ancestor,
        file_part_of(&path),
        object_dir,
    ).render(style);
    let mut inputs: Vec<String> = Vec::new();
    inputs.push(normalize_str(source, style));
    let mut bindings: Vec<Binding> = Vec::new();
    bindings.push(Binding { name: "flags".to_string(), value: flags.to_string() });
    let r = Edge {
        kind: EdgeKind::Compile,
        output,
        rule: "cc".to_string(),
        inputs,
        implicit: Vec::new(),
        bindings,
    };
    assert(r@.inputs =~= seq![with_separator(source@, separator_of(style))]);
    assert(r@.implicit =~= Seq::<Seq<char>>::empty());
    assert(r@.bindings =~= seq![BindingModel { name: "flags"@, value: flags@ }]);
    r
}

/// The final target of the project.
pub fn target_for(project: &ProjectInfo, style: PathStyle) -> (r: String)
    ensures
        r@ == target_name(project@, separator_of(style)),
{
    if ends_with(project.output.as_str(), ".a") {
        let path = LogicalPath::parse(project.output.as_str());
        match path.file_name() {
            Some(name) => {
                if !starts_with(name.as_str(), "lib") {
                    let n = path.components.len();
                    let mut out = crate::paths::copy_range(&path.components, 0, n - 1);
                    let ghost before = out@;
                    out.push(Component::Name(glue("lib", name.as_str())));
                    proof {
                        lemma_steps_push(before, out@.last());
                    }
                    return LogicalPath { components: out }.render(style);
                }
            },
            None => {},
        }
    }
    normalize_str(project.output.as_str(), style)
}

/// The linker options as they are passed.
pub fn pre_flags_for(project: &ProjectInfo, style: PathStyle) -> (r: Vec<String>)
    ensures
        texts(r@) == pre_flags(project@, separator_of(style)),
{
    let ghost sep = separator_of(style);
    let object_dir = normalize_str(project.object_output.as_str(), style);
    let mut out: Vec<String> = Vec::new();
    let mut i: usize = 0;
    while i < project.linker_options.len()
        invariant
            i <= project.linker_options.len(),
            sep == separator_of(style),
            object_dir@ == with_separator(project@.object_output, sep),
            out@.len() == i,
            forall|k: int| 0 <= k < i ==> #[trigger] texts(out@)[k] == pre_flags(project@, sep)[k],
        decreases project.linker_options.len() - i,
    {
        let filled = replace(
            project.linker_options[i].as_str(),
            "$(TARGET_OBJECT_DIR)",
            object_dir.as_str(),
        );
        push_text(&mut out, normalize_str(filled.as_str(), style));
        i += 1;
    }
    out
}

/// The files of the libraries that were found.
pub fn resolved_for(project: &ProjectInfo, root: &LogicalPath, host: &Host) -> (r: Vec<String>)
    ensures
        texts(r@) == resolved_among(project@, root@, *host, project@.linker_libs.len() as int),
{
    let mut out: Vec<String> = Vec::new();
    let mut i: usize = 0;
    while i < project.linker_libs.len()
        invariant
            i <= project.linker_libs.len(),
            texts(out@) == resolved_among(project@, root@, *host, i as int),
        decreases project.linker_libs.len() - i,
    {
        match resolve_library_path(
            project.linker_libs[i].as_str(),
            &project.linker_lib_dirs,
            root,
            host,
        ) {
            Some(path) => {
                push_text(&mut out, path);
            },
            None => {},
        }
        i += 1;
    }
    out
}

/// Binds `name` to the values joined by spaces, if there are any.
pub fn bind(out: &mut Vec<Binding>, name: &str, values: &Vec<String>)
    ensures
        crate::graph::bindings_of(final(out)@) == crate::graph::bindings_of(old(out)@) + binding_if(
            name@,
            texts(values@),
        ),
{
    if values.len() > 0 {
        let b = Binding { name: name.to_string(), value: join(values, " ") };
        proof {
            crate::graph::lemma_bindings_push(out@, b);
        }
        out.push(b);
    }
}

/// Appends one statement.
pub fn push_statement(out: &mut Vec<Statement>, s: Statement)
    ensures
        statements_of(final(out)@) == statements_of(old(out)@).push(s@),
{
    proof {
        lemma_statements_push(out@, s);
    }
    out.push(s);
}

/// The build graph of a project that lies in `project_dir`, by what the
/// machine reported.
pub fn build_graph(
    project: &ProjectInfo,
    project_dir: &str,
    toolchain: &ToolchainConfig,
    host: &Host,
) -> (g: BuildGraph)
    ensures
        g@ == graph_of(project@, parsed(project_dir@), *toolchain, *host),
        crate::graph::edge_count(g@, EdgeKind::Compile) == project@.source_files.len(),
        crate::graph::edge_count(g@, EdgeKind::Special) == project@.special_files.len(),
        crate::graph::edge_count(g@, EdgeKind::Link) + crate::graph::edge_count(
            g@,
            EdgeKind::Archive,
        ) == 1,
{
    proof {
        crate::laws::lemma_edge_counts(project@, parsed(project_dir@), *toolchain, *host);
    }
    let style = host.style;
    let ghost sep = separator_of(style);
    let ghost p = project@;
    let dir = LogicalPath::parse(project_dir);
    let compiler = tool_for(host, toolchain.compiler_path().as_str(), "riscv32-elf-gcc");
    let ancestor = find_common_ancestor(&absolute_sources(&dir, &project.source_files));
    let object_dir = LogicalPath::parse(project.object_output.as_str());
    let tokens = tokens_for(project, compiler.as_str(), style);
    let flags = join(&flags_for(project, style), " ");
    let mut out: Vec<Statement> = Vec::new();
    out.push(
        Statement::Rule(
            Rule {
                name: "cc".to_string(),
                command: glue(compiler.as_str(), " $flags -MMD -MF $out.d -c $in -o $out"),
                depfile: Some("$out.d".to_string()),
                deps: Some("gcc".to_string()),
            },
        ),
    );
    let ghost head = seq![StatementModel::Rule(compile_rule(compiler@))];
    let mut special_outs: Vec<String> = Vec::new();
    let mut i: usize = 0;
    while i < project.special_files.len()
        invariant
            i <= project.special_files.len(),
            sep == separator_of(style),
            p == project@,
            ancestor@ == source_ancestor(p, dir@),
            object_dir@ == parsed(p.object_output),
            tokens@ == tokens_of(p, compiler@, sep),
            tokens.compiler@ == compiler@,
            statements_of(out@) == head + special_statements(p, dir@, compiler@, sep, i as int),
            texts(special_outs@) == special_outputs(p, dir@, compiler@, sep, i as int),
        decreases project.special_files.len() - i,
    {
        let s = &project.special_files[i];
        let file = normalize_str(s.filename.as_str(), style);
        let rule = special_rule_for(s, file.as_str(), &tokens);
        let edge = special_edge_for(s, project, &dir, &ancestor, &object_dir, &tokens, style);
        push_text(&mut special_outs, edge.output.clone());
        push_statement(&mut out, Statement::Rule(rule));
        push_statement(&mut out, Statement::Edge(edge));
        i += 1;
    }
    let ghost specials = head + special_statements(
        p,
        dir@,
        compiler@,
        sep,
        p.special_files.len() as int,
    );
    let mut objects: Vec<String> = Vec::new();
    let mut k: usize = 0;
    while k < project.source_files.len()
        invariant
            k <= project.source_files.len(),
            sep == separator_of(style),
            p == project@,
            ancestor@ == source_ancestor(p, dir@),
            object_dir@ == parsed(p.object_output),
            flags@ == joined(base_flags(p, sep), " "@),
            statements_of(out@) == specials + compile_statements(p, dir@, sep, k as int),
            objects@.len() == k,
            forall|j: int|
                0 <= j < k ==> #[trigger] texts(objects@)[j] == object_files(p, dir@, sep)[j],
        decreases project.source_files.len() - k,
    {
        let source = &project.source_files[k];
        let edge = compile_edge_for(
            source.as_str(),
            project,
            &dir,
            &ancestor,
            &object_dir,
            flags.as_str(),
            style,
        );
        push_text(&mut objects, edge.output.clone());
        push_statement(&mut out, Statement::Edge(edge));
        k += 1;
    }
    assert(texts(objects@) =~= object_files(p, dir@, sep));
    let ghost compiled = specials + compile_statements(
        p,
        dir@,
        sep,
        p.source_files.len() as int,
    );
    let target = target_for(project, style);
    if ends_with(project.output.as_str(), ".a") {
        let archiver = tool_for(host, toolchain.ar_path().as_str(), "riscv32-elf-ar");
        let mut command = "cmd /c (if exist \"$out\" del /q \"$out\") & ".to_string();
        command.append(archiver.as_str());
        command.append(" crs $out $in");
        let rule = Rule { name: "ar".to_string(), command, depfile: None, deps: None };
        let edge = Edge {
            kind: EdgeKind::Archive,
            output: target.clone(),
            rule: "ar".to_string(),
            inputs: objects,
            implicit: special_outs,
            bindings: Vec::new(),
        };
        assert(edge@.bindings =~= Seq::<BindingModel>::empty());
        push_statement(&mut out, Statement::Rule(rule));
        push_statement(&mut out, Statement::Edge(edge));
        assert(compiled.push(StatementModel::Rule(rule@)).push(StatementModel::Edge(edge@))
            == compiled + final_statements(p, dir@, *toolchain, *host));
    } else {
        let placeholder = if same(project.linker_type.as_str(), "ld") {
            "riscv32-elf-ld"
        } else {
            "riscv32-elf-gcc"
        };
        let linker = tool_for(
            host,
            toolchain.linker_path(project.linker_type.as_str()).as_str(),
            placeholder,
        );
        let rule = Rule {
            name: "link".to_string(),
            command: glue(linker.as_str(), " $pre_flags $in $lib_dirs $lib_flags -o $out"),
            depfile: None,
            deps: None,
        };
        let mut implicit = special_outs;
        crate::text::append_texts(&mut implicit, &resolved_for(project, &dir, host));
        let mut bindings: Vec<Binding> = Vec::new();
        bind(&mut bindings, "pre_flags", &pre_flags_for(project, style));
        bind(&mut bindings, "lib_dirs", &separate_all(&project.linker_lib_dirs, style));
        bind(&mut bindings, "lib_flags", &separate_all(&project.linker_libs, style));
        let edge = Edge {
            kind: EdgeKind::Link,
            output: target.clone(),
            rule: "link".to_string(),
            inputs: objects,
            implicit,
            bindings,
        };
        push_statement(&mut out, Statement::Rule(rule));
        push_statement(&mut out, Statement::Edge(edge));
        assert(compiled.push(StatementModel::Rule(rule@)).push(StatementModel::Edge(edge@))
            == compiled + final_statements(p, dir@, *toolchain, *host));
    }
    BuildGraph { statements: out, default_target: target }
}

/// The ninja text of the build graph of a project. Never fails.
pub fn generate_ninja_build(
    project_info: &ProjectInfo,
    project_dir: &str,
    toolchain: &ToolchainConfig,
    host: &Host,
) -> (r: Result<String, ProjectError>)
    ensures
        r matches Ok(text) && text@ == crate::graph::graph_text(
            graph_of(project_info@, parsed(project_dir@), *toolchain, *host),
        ),
{
    Ok(build_graph(project_info, project_dir, toolchain, host).render())
}

} // verus!
