//! What is written beside the build graph: the clangd configuration, the
//! compilation database and the script that runs the build.

use crate::config::ToolchainConfig;
use crate::host::Host;
use crate::models::{
    commands, lemma_commands_push, Command, CompileCommand, March, Project, ProjectInfo,
};
use crate::ninja::{compiler_command, tool_for};
use crate::parser::{prefixed, with_prefix, ProjectError};
use crate::paths::{
    compute_relative_path, parsed, relative, rendered, LogicalPath, PathStyle, Step,
};
use crate::text::{
    append_texts, contains, glue, holds, join, joined, push_text, replace, replaced, same,
    starts_with, texts,
};
use vstd::prelude::*;

verus! {

/// The flag is passed on to clangd as it is.
pub open spec fn is_passed_on(flag: Seq<char>) -> bool {
    !"-march="@.is_prefix_of(flag) && flag != "-mjump-tables-in-text"@
}

/// Those of the first `n` flags that are passed on to clangd.
pub open spec fn passed_on(flags: Seq<Seq<char>>, n: int) -> Seq<Seq<char>>
    decreases n,
{
    if n <= 0 {
        Seq::empty()
    } else if is_passed_on(flags[n - 1]) {
        passed_on(flags, n - 1).push(flags[n - 1])
    } else {
        passed_on(flags, n - 1)
    }
}

/// The `-march=` flag that clangd is given: the base form where the
/// project's flag has a custom extension, else the project's flag.
pub open spec fn march_added(m: March) -> Seq<Seq<char>> {
    if m.custom {
        match m.base {
            Some(b) => seq![b],
            None => Seq::empty(),
        }
    } else if m.full.len() > 0 {
        seq![m.full]
    } else {
        Seq::empty()
    }
}

/// The flags that clangd adds: the language and the target, the
/// toolchain's header directories, the project's flags, and the
/// architecture.
pub open spec fn added_flags(p: Project, t: ToolchainConfig) -> Seq<Seq<char>> {
    seq!["-xc"@, "-target riscv32-unknown-elf"@] + prefixed(t.includes(), "-I"@) + passed_on(
        p.global_cflags,
        p.global_cflags.len() as int,
    ) + march_added(p.march_info)
}

/// The flags that clangd removes: the project's `-march=` flag and the
/// flag that clangd does not know.
pub open spec fn removed_flags(m: March) -> Seq<Seq<char>> {
    if m.full.len() > 0 {
        seq![m.full, "-mjump-tables-in-text"@]
    } else {
        seq!["-mjump-tables-in-text"@]
    }
}

/// The list items of the first `n` flags that are added, each backslash
/// doubled.
pub open spec fn added_items(flags: Seq<Seq<char>>, n: int) -> Seq<char>
    decreases n,
{
    if n <= 0 {
        Seq::empty()
    } else {
        added_items(flags, n - 1) + "    - "@ + replaced(flags[n - 1], "\\"@, "\\\\"@) + "\n"@
    }
}

/// The list items of the first `n` flags that are removed.
pub open spec fn removed_items(flags: Seq<Seq<char>>, n: int) -> Seq<char>
    decreases n,
{
    if n <= 0 {
        Seq::empty()
    } else {
        removed_items(flags, n - 1) + "    - "@ + flags[n - 1] + "\n"@
    }
}

/// The head of a clangd configuration: the flags to add and to remove.
pub open spec fn clangd_config(p: Project, t: ToolchainConfig) -> Seq<char> {
    "CompileFlags:\n  Add:\n"@ + added_items(added_flags(p, t), added_flags(p, t).len() as int)
        + "  Remove:\n"@ + removed_items(
        removed_flags(p.march_info),
        removed_flags(p.march_info).len() as int,
    )
}

/// An argument as it stands in a command line: in double quotes, with its
/// own double quotes escaped, where it holds a space, a tab or a double
/// quote; else as it is.
pub open spec fn quoted(arg: Seq<char>) -> Seq<char> {
    if holds(arg, " "@) || holds(arg, "\t"@) || holds(arg, "\""@) {
        "\""@ + replaced(arg, "\""@, "\\\""@) + "\""@
    } else {
        arg
    }
}

/// Each argument as it stands in a command line.
pub open spec fn quoted_all(args: Seq<Seq<char>>) -> Seq<Seq<char>> {
    Seq::new(args.len(), |i: int| quoted(args[i]))
}

/// The arguments that compile one source file: the compiler, `-c`, the
/// project's flags and include flags, and the file.
pub open spec fn compile_arguments(
    p: Project,
    compiler: Seq<char>,
    file: Seq<char>,
) -> Seq<Seq<char>> {
    seq![compiler, "-c"@] + p.global_cflags + p.include_dirs + seq![file]
}

/// The record of one source file.
pub open spec fn compile_command(
    p: Project,
    dir: Seq<char>,
    compiler: Seq<char>,
    host: Host,
    source: Seq<char>,
) -> Command {
    Command {
        directory: dir,
        command: joined(quoted_all(compile_arguments(p, compiler, host.short(source))), " "@),
        file: source,
    }
}

/// The compilation database: one record for each source file, in order.
pub open spec fn compile_commands(
    p: Project,
    dir: Seq<char>,
    t: ToolchainConfig,
    host: Host,
) -> Seq<Command> {
    Seq::new(
        p.source_files.len(),
        |i: int| compile_command(p, dir, compiler_command(t, host), host, p.source_files[i]),
    )
}

/// The lines that run the first `n` commands, each from the directory of
/// the script and with the project's name put in for its token.
pub open spec fn command_lines(cmds: Seq<Seq<char>>, name: Seq<char>, n: int) -> Seq<char>
    decreases n,
{
    if n <= 0 {
        Seq::empty()
    } else {
        command_lines(cmds, name, n - 1) + "pushd %~dp0\ncall "@ + replaced(
            cmds[n - 1],
            "$(PROJECT_NAME)"@,
            name,
        ) + "\npopd\n"@
    }
}

/// A block of the script that runs commands: a remark, the lines, and an
/// empty line; nothing for no commands.
pub open spec fn command_block(
    remark: Seq<char>,
    cmds: Seq<Seq<char>>,
    name: Seq<char>,
) -> Seq<char> {
    if cmds.len() > 0 {
        remark + command_lines(cmds, name, cmds.len() as int) + "\n"@
    } else {
        Seq::empty()
    }
}

/// The program that runs the build graph: the given one, else `ninja`.
pub open spec fn ninja_program(ninja_path: Option<Seq<char>>) -> Seq<char> {
    match ninja_path {
        Some(path) => path,
        None => "ninja"@,
    }
}

/// The script that runs the build: it puts the toolchain on the search
/// path, runs the commands that come before the build, runs the build
/// graph and hands on its exit code where that is not zero, and runs the
/// commands that come after.
pub open spec fn build_script(
    p: Project,
    t: ToolchainConfig,
    ninja_path: Option<Seq<char>>,
) -> Seq<char> {
    "@echo off\nrem Generated by cbp2clangd\n\ncd /d \"%~dp0\"\n\nrem Set toolchain path\nset PATH="@
        + t.base() + "\\bin;%PATH%\n\n"@ + command_block(
        "rem Prebuild commands\n"@,
        p.prebuild_commands,
        p.project_name,
    ) + "rem Build project with ninja\n"@ + ninja_program(ninja_path)
        + " -f build.ninja\nif %errorlevel% neq 0 exit /b %errorlevel%\n\n"@ + command_block(
        "rem Postbuild commands\n"@,
        p.postbuild_commands,
        p.project_name,
    ) + "rem Build completed successfully\necho Build completed successfully\n\n"@
}

/// A path as it is written in a clangd configuration, from the workspace:
/// relative to it, with forward slashes, where the two share their drive
/// and root; else whole.
pub open spec fn from_workspace(path: Seq<Step>, workspace: Seq<Step>) -> Seq<char> {
    match relative(path, workspace) {
        Some(r) => rendered(r, '/'),
        None => rendered(path, '/'),
    }
}

/// The pattern that matches the files of a project: everything under the
/// project's directory, seen from the workspace.
pub open spec fn path_pattern(dir: Seq<Step>, workspace: Seq<Step>) -> Seq<char> {
    if from_workspace(dir, workspace).len() == 0 {
        ".*"@
    } else {
        from_workspace(dir, workspace) + "/.*"@
    }
}

/// The directory of the compilation database as it is written in the
/// fragment: `.` for the workspace itself.
pub open spec fn database_dir(objects: Seq<Step>, workspace: Seq<Step>) -> Seq<char> {
    if from_workspace(objects, workspace).len() == 0 {
        "."@
    } else {
        from_workspace(objects, workspace)
    }
}

/// The fragment of a project: for the files that its pattern matches, the
/// compilation database in its object directory.
pub open spec fn clangd_fragment(
    dir: Seq<Step>,
    workspace: Seq<Step>,
    objects: Seq<Step>,
) -> Seq<char> {
    "If:\n  PathMatch: "@ + path_pattern(dir, workspace)
        + "\nCompileFlags:\n  CompilationDatabase: "@ + database_dir(objects, workspace) + "\n"@
}

/// Those of the flags that are passed on to clangd.
pub fn flags_passed_on(flags: &Vec<String>) -> (r: Vec<String>)
    ensures
        texts(r@) == passed_on(texts(flags@), flags@.len() as int),
{
    let mut out: Vec<String> = Vec::new();
    let mut i: usize = 0;
    while i < flags.len()
        invariant
            i <= flags.len(),
            texts(out@) == passed_on(texts(flags@), i as int),
        decreases flags.len() - i,
    {
        let flag = &flags[i];
        if !starts_with(flag.as_str(), "-march=") && !same(
            flag.as_str(),
            "-mjump-tables-in-text",
        ) {
            push_text(&mut out, flag.clone());
        }
        i += 1;
    }
    out
}

/// The head of the clangd configuration of a project. Never fails.
pub fn generate_clangd_config(
    project_info: &ProjectInfo,
    toolchain: &ToolchainConfig,
) -> (r: Result<String, ProjectError>)
    ensures
        r matches Ok(text) && text@ == clangd_config(project_info@, *toolchain),
{
    let ghost p = project_info@;
    let mut add: Vec<String> = Vec::new();
    push_text(&mut add, "-xc".to_string());
    push_text(&mut add, "-target riscv32-unknown-elf".to_string());
    assert(texts(add@) =~= seq!["-xc"@, "-target riscv32-unknown-elf"@]);
    append_texts(&mut add, &with_prefix(&toolchain.include_paths(), "-I"));
    append_texts(&mut add, &flags_passed_on(&project_info.global_cflags));
    let march = &project_info.march_info;
    let ghost before = texts(add@);
    if march.has_custom_extension {
        match &march.base_march {
            Some(b) => {
                push_text(&mut add, b.clone());
                assert(before.push(b@) == before + seq![b@]);
            },
            None => {},
        }
    } else if march.full_march.as_str().unicode_len() > 0 {
        push_text(&mut add, march.full_march.clone());
        assert(before.push(march.full_march@) == before + seq![march.full_march@]);
    }
    let mut remove: Vec<String> = Vec::new();
    if march.full_march.as_str().unicode_len() > 0 {
        push_text(&mut remove, march.full_march.clone());
    }
    push_text(&mut remove, "-mjump-tables-in-text".to_string());
    assert(texts(remove@) =~= removed_flags(p.march_info));
    let mut added = String::new();
    let mut i: usize = 0;
    while i < add.len()
        invariant
            i <= add.len(),
            added@ == added_items(texts(add@), i as int),
        decreases add.len() - i,
    {
        let mut item = "    - ".to_string();
        item.append(replace(add[i].as_str(), "\\", "\\\\").as_str());
        item.append("\n");
        added.append(item.as_str());
        i += 1;
    }
    let mut removed = String::new();
    let mut k: usize = 0;
    while k < remove.len()
        invariant
            k <= remove.len(),
            removed@ == removed_items(texts(remove@), k as int),
        decreases remove.len() - k,
    {
        let mut item = "    - ".to_string();
        item.append(remove[k].as_str());
        item.append("\n");
        removed.append(item.as_str());
        k += 1;
    }
    let mut out = "CompileFlags:\n  Add:\n".to_string();
    out.append(added.as_str());
    out.append("  Remove:\n");
    out.append(removed.as_str());
    Ok(out)
}

/// An argument as it stands in a command line.
pub fn quote(arg: &str) -> (r: String)
    ensures
        r@ == quoted(arg@),
{
    if contains(arg, " ") || contains(arg, "\t") || contains(arg, "\"") {
        let mut out = "\"".to_string();
        out.append(replace(arg, "\"", "\\\"").as_str());
        out.append("\"");
        out
    } else {
        arg.to_string()
    }
}

/// The command line that compiles one source file.
pub fn command_line(project: &ProjectInfo, compiler: &str, file: &str) -> (r: String)
    ensures
        r@ == joined(quoted_all(compile_arguments(project@, compiler@, file@)), " "@),
{
    let mut args: Vec<String> = Vec::new();
    push_text(&mut args, compiler.to_string());
    push_text(&mut args, "-c".to_string());
    assert(texts(args@) =~= seq![compiler@, "-c"@]);
    append_texts(&mut args, &project.global_cflags);
    append_texts(&mut args, &project.include_dirs);
    let ghost before = texts(args@);
    push_text(&mut args, file.to_string());
    assert(before.push(file@) == before + seq![file@]);
    let mut out: Vec<String> = Vec::new();
    let mut i: usize = 0;
    while i < args.len()
        invariant
            i <= args.len(),
            texts(out@) == quoted_all(texts(args@).take(i as int)),
        decreases args.len() - i,
    {
        push_text(&mut out, quote(args[i].as_str()));
        i += 1;
    }
    assert(texts(args@).take(args.len() as int) == texts(args@));
    join(&out, " ")
}

/// The compilation database of a project that lies in `project_dir`.
pub fn generate_compile_commands(
    project_info: &ProjectInfo,
    project_dir: &str,
    toolchain: &ToolchainConfig,
    host: &Host,
) -> (r: Vec<CompileCommand>)
    ensures
        commands(r@) == compile_commands(project_info@, project_dir@, *toolchain, *host),
        r@.len() == project_info@.source_files.len(),
{
    let ghost p = project_info@;
    let compiler = tool_for(host, toolchain.compiler_path().as_str(), "riscv32-elf-gcc");
    let mut out: Vec<CompileCommand> = Vec::new();
    let mut i: usize = 0;
    while i < project_info.source_files.len()
        invariant
            i <= project_info.source_files.len(),
            p == project_info@,
            compiler@ == compiler_command(*toolchain, *host),
            out@.len() == i,
            forall|k: int|
                0 <= k < i ==> #[trigger] commands(out@)[k] == compile_commands(
                    p,
                    project_dir@,
                    *toolchain,
                    *host,
                )[k],
        decreases project_info.source_files.len() - i,
    {
        let source = &project_info.source_files[i];
        let file = host.shorten(source.as_str());
        let record = CompileCommand {
            directory: project_dir.to_string(),
            command: command_line(project_info, compiler.as_str(), file.as_str()),
            file: source.clone(),
        };
        proof {
            lemma_commands_push(out@, record);
        }
        out.push(record);
        i += 1;
    }
    out
}

/// A block of the script that runs commands.
pub fn block_of(remark: &str, cmds: &Vec<String>, name: &str) -> (r: String)
    ensures
        r@ == command_block(remark@, texts(cmds@), name@),
{
    if cmds.len() == 0 {
        return String::new();
    }
    let mut lines = String::new();
    let mut i: usize = 0;
    while i < cmds.len()
        invariant
            i <= cmds.len(),
            lines@ == command_lines(texts(cmds@), name@, i as int),
        decreases cmds.len() - i,
    {
        let mut line = "pushd %~dp0\ncall ".to_string();
        line.append(replace(cmds[i].as_str(), "$(PROJECT_NAME)", name).as_str());
        line.append("\npopd\n");
        lines.append(line.as_str());
        i += 1;
    }
    let mut out = remark.to_string();
    out.append(lines.as_str());
    out.append("\n");
    out
}

/// The script that runs the build of a project.
pub fn generate_build_script(
    project_info: &ProjectInfo,
    toolchain: &ToolchainConfig,
    _project_dir: &str,
    ninja_path: Option<&str>,
) -> (r: String)
    ensures
        r@ == build_script(
            project_info@,
            *toolchain,
            match ninja_path {
                Some(path) => Some(path@),
                None => None,
            },
        ),
{
    let mut out =
        "@echo off\nrem Generated by cbp2clangd\n\ncd /d \"%~dp0\"\n\nrem Set toolchain path\nset PATH=".to_string();
    out.append(toolchain.get_base_path().as_str());
    out.append("\\bin;%PATH%\n\n");
    out.append(
        block_of(
            "rem Prebuild commands\n",
            &project_info.prebuild_commands,
            project_info.project_name.as_str(),
        ).as_str(),
    );
    out.append("rem Build project with ninja\n");
    match ninja_path {
        Some(path) => {
            out.append(path);
        },
        None => {
            out.append("ninja");
        },
    }
    out.append(" -f build.ninja\nif %errorlevel% neq 0 exit /b %errorlevel%\n\n");
    out.append(
        block_of(
            "rem Postbuild commands\n",
            &project_info.postbuild_commands,
            project_info.project_name.as_str(),
        ).as_str(),
    );
    out.append("rem Build completed successfully\necho Build completed successfully\n\n");
    out
}

/// A path as it is written in a clangd configuration, from the workspace.
pub fn seen_from(path: &LogicalPath, workspace: &LogicalPath) -> (r: String)
    ensures
        r@ == from_workspace(path@, workspace@),
{
    match compute_relative_path(path, workspace) {
        Some(rel) => rel.render(PathStyle::Posix),
        None => path.render(PathStyle::Posix),
    }
}

/// The pattern that matches the files of a project and the fragment that
/// names its compilation database. Never fails.
pub fn generate_clangd_fragment(
    project_dir: &str,
    workspace_root: &str,
    object_output: &str,
) -> (r: Result<(String, String), ProjectError>)
    ensures
        r matches Ok(pair) && pair.0@ == path_pattern(
            parsed(project_dir@),
            parsed(workspace_root@),
        ) && pair.1@ == clangd_fragment(
            parsed(project_dir@),
            parsed(workspace_root@),
            parsed(object_output@),
        ),
{
    let workspace = LogicalPath::parse(workspace_root);
    let dir = seen_from(&LogicalPath::parse(project_dir), &workspace);
    let pattern = if dir.as_str().unicode_len() == 0 {
        ".*".to_string()
    } else {
        glue(dir.as_str(), "/.*")
    };
    let objects = seen_from(&LogicalPath::parse(object_output), &workspace);
    let database = if objects.as_str().unicode_len() == 0 {
        ".".to_string()
    } else {
        objects
    };
    let mut out = "If:\n  PathMatch: ".to_string();
    out.append(pattern.as_str());
    out.append("\nCompileFlags:\n  CompilationDatabase: ");
    out.append(database.as_str());
    out.append("\n");
    Ok((pattern, out))
}

} // verus!
