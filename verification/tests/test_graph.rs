use cbp2clangd::graph::{escape, EdgeKind, Statement};
use cbp2clangd::host::{Host, ShortName};
use cbp2clangd::models::{MarchInfo, ProjectInfo, SpecialFileBuildInfo};
use cbp2clangd::ninja::{build_graph, target_for};
use cbp2clangd::paths::PathStyle;
use cbp2clangd::{generate_ninja_build, parse_cbp_file, ToolchainConfig};

fn project(sources: &[&str], object_output: &str, output: &str) -> ProjectInfo {
    ProjectInfo {
        compiler_id: "riscv32-v2".to_string(),
        project_name: "demo".to_string(),
        global_cflags: Vec::new(),
        include_dirs: Vec::new(),
        source_files: sources.iter().map(|s| s.to_string()).collect(),
        special_files: Vec::new(),
        prebuild_commands: Vec::new(),
        postbuild_commands: Vec::new(),
        march_info: MarchInfo::default(),
        object_output: object_output.to_string(),
        output: output.to_string(),
        linker_options: Vec::new(),
        linker_libs: Vec::new(),
        linker_lib_dirs: Vec::new(),
        linker_type: "gcc".to_string(),
    }
}

fn special(filename: &str, command: &str) -> SpecialFileBuildInfo {
    SpecialFileBuildInfo {
        filename: filename.to_string(),
        compiler_id: "riscv32-v2".to_string(),
        build_command: command.to_string(),
    }
}

fn toolchain() -> ToolchainConfig {
    ToolchainConfig::from_compiler_id("riscv32-v2").unwrap()
}

fn count(statements: &[Statement], kind: EdgeKind) -> usize {
    statements
        .iter()
        .filter(|s| matches!(s, Statement::Edge(e) if e.kind == kind))
        .count()
}

const CHATBOT: &str = r#"<?xml version="1.0" encoding="UTF-8"?><CodeBlocks_project_file><Project><Option title="chatbot"/><Build><Target title="Debug"><Option output="Output/bin/chatbot.elf" object_output="Output/obj/Debug"/><Linker><Add library="m"/></Linker></Target></Build><Compiler><Add option="-Wall"/></Compiler><Unit filename="src/chatbot.c"><Option compile="1"/></Unit></Project></CodeBlocks_project_file>"#;

#[test]
fn chatbot_executable_scenario() {
    let p = parse_cbp_file(CHATBOT).unwrap();
    let g = build_graph(&p, ".", &toolchain(), &Host::new(PathStyle::Posix));
    assert_eq!(g.default_target, "Output/bin/chatbot.elf");
    assert_eq!(g.statements.len(), 4);
    match &g.statements[1] {
        Statement::Edge(e) => {
            assert_eq!(e.kind, EdgeKind::Compile);
            assert_eq!(e.output, "Output/obj/Debug/chatbot.o");
            assert_eq!(e.rule, "cc");
            assert_eq!(e.inputs, vec!["src/chatbot.c"]);
            assert_eq!(e.bindings.len(), 1);
            assert_eq!(e.bindings[0].name, "flags");
            assert_eq!(e.bindings[0].value, "-Wall");
        }
        _ => panic!("the second statement is the compile edge"),
    }
    match &g.statements[3] {
        Statement::Edge(e) => {
            assert_eq!(e.kind, EdgeKind::Link);
            assert_eq!(e.output, "Output/bin/chatbot.elf");
            assert_eq!(e.inputs, vec!["Output/obj/Debug/chatbot.o"]);
            assert!(e.implicit.is_empty());
            assert_eq!(e.bindings.len(), 1);
            assert_eq!(e.bindings[0].name, "lib_flags");
            assert_eq!(e.bindings[0].value, "-lm");
        }
        _ => panic!("the last statement is the link edge"),
    }
    let text = generate_ninja_build(&p, ".", &toolchain(), &Host::new(PathStyle::Posix)).unwrap();
    assert_eq!(
        text,
        "# Generated by cbp2clangd\n\n\
         rule cc\n  command = riscv32-elf-gcc $flags -MMD -MF $out.d -c $in -o $out\n  depfile = $out.d\n  deps = gcc\n\n\
         build Output/obj/Debug/chatbot.o: cc src/chatbot.c\n  flags = -Wall\n\n\
         rule link\n  command = riscv32-elf-gcc $pre_flags $in $lib_dirs $lib_flags -o $out\n\n\
         build Output/bin/chatbot.elf: link Output/obj/Debug/chatbot.o\n  lib_flags = -lm\n\n\
         default Output/bin/chatbot.elf\n"
    );
    assert_eq!(text, g.render());
}

#[test]
fn chatbot_archive_scenario() {
    let p = parse_cbp_file(&CHATBOT.replace("chatbot.elf", "chatbot.a")).unwrap();
    let g = build_graph(&p, ".", &toolchain(), &Host::new(PathStyle::Posix));
    assert_eq!(g.default_target, "Output/bin/libchatbot.a");
    match &g.statements[2] {
        Statement::Rule(r) => {
            assert_eq!(r.name, "ar");
            assert_eq!(
                r.command,
                "cmd /c (if exist \"$out\" del /q \"$out\") & riscv32-elf-ar crs $out $in"
            );
            assert_eq!(r.depfile, None);
        }
        _ => panic!("the third statement is the archive rule"),
    }
    match &g.statements[3] {
        Statement::Edge(e) => {
            assert_eq!(e.kind, EdgeKind::Archive);
            assert_eq!(e.output, "Output/bin/libchatbot.a");
            assert_eq!(e.rule, "ar");
            assert_eq!(e.inputs, vec!["Output/obj/Debug/chatbot.o"]);
            assert!(e.bindings.is_empty());
        }
        _ => panic!("the last statement is the archive edge"),
    }
    let text = g.render();
    assert!(text.ends_with(
        "rule ar\n  command = cmd /c (if exist \"$out\" del /q \"$out\") & riscv32-elf-ar crs $out $in\n\n\
         build Output/bin/libchatbot.a: ar Output/obj/Debug/chatbot.o\n\n\
         default Output/bin/libchatbot.a\n"
    ));
    assert!(!text.contains("rule link"));
}

#[test]
fn one_edge_for_each_file_and_one_for_the_target() {
    let mut p = project(&["a.c", "b/c.c", "b/d.c"], "obj", "app.elf");
    p.special_files.push(special("x.ld.in", "cp $file $(TARGET_OBJECT_DIR)/x.ld"));
    p.special_files.push(special("y.bin", ""));
    let g = build_graph(&p, "/w", &toolchain(), &Host::new(PathStyle::Posix));
    assert_eq!(count(&g.statements, EdgeKind::Compile), 3);
    assert_eq!(count(&g.statements, EdgeKind::Special), 2);
    assert_eq!(count(&g.statements, EdgeKind::Link), 1);
    assert_eq!(count(&g.statements, EdgeKind::Archive), 0);
    p.output = "app.a".to_string();
    let g = build_graph(&p, "/w", &toolchain(), &Host::new(PathStyle::Posix));
    assert_eq!(count(&g.statements, EdgeKind::Compile), 3);
    assert_eq!(count(&g.statements, EdgeKind::Special), 2);
    assert_eq!(count(&g.statements, EdgeKind::Link), 0);
    assert_eq!(count(&g.statements, EdgeKind::Archive), 1);
    let none = project(&[], "obj", "app.elf");
    let g = build_graph(&none, "/w", &toolchain(), &Host::new(PathStyle::Posix));
    assert_eq!(count(&g.statements, EdgeKind::Compile), 0);
    assert_eq!(count(&g.statements, EdgeKind::Link), 1);
    assert_eq!(g.statements.len(), 3);
}

#[test]
fn statements_stand_in_the_order_special_compile_final() {
    let mut p = project(&["a.c"], "obj", "app.elf");
    p.special_files.push(special("x.bin", "tool $file"));
    let g = build_graph(&p, "/w", &toolchain(), &Host::new(PathStyle::Posix));
    let kinds: Vec<String> = g
        .statements
        .iter()
        .map(|s| match s {
            Statement::Rule(r) => format!("rule {}", r.name),
            Statement::Edge(e) => format!("edge {}", e.rule),
        })
        .collect();
    assert_eq!(
        kinds,
        vec![
            "rule cc",
            "rule special_x_bin",
            "edge special_x_bin",
            "edge cc",
            "rule link",
            "edge link"
        ]
    );
}

#[test]
fn object_files_mirror_the_source_tree() {
    let p = project(&["src/main.c", "src/sub/x.c"], "out/", "app.elf");
    let g = build_graph(&p, "C:\\P", &toolchain(), &Host::new(PathStyle::Posix));
    match &g.statements[2] {
        Statement::Edge(e) => {
            assert_eq!(e.output, "out/sub/x.o");
            assert_eq!(e.inputs, vec!["src/sub/x.c"]);
        }
        _ => panic!("the third statement is a compile edge"),
    }
    match &g.statements[4] {
        Statement::Edge(e) => assert_eq!(e.inputs, vec!["out/main.o", "out/sub/x.o"]),
        _ => panic!("the last statement is the link edge"),
    }
}

#[test]
fn sources_outside_the_ancestor_go_by_their_file_name() {
    let p = project(&["C:\\a\\one.c", "D:\\b\\two.c"], "obj", "app.elf");
    let g = build_graph(&p, "C:\\P", &toolchain(), &Host::new(PathStyle::Windows));
    match &g.statements[4] {
        Statement::Edge(e) => assert_eq!(e.inputs, vec!["obj\\one.o", "obj\\two.o"]),
        _ => panic!("the last statement is the link edge"),
    }
}

#[test]
fn static_library_names_get_the_lib_prefix() {
    let named = |output: &str| target_for(&project(&["a.c"], "obj", output), PathStyle::Posix);
    assert_eq!(named("app.a"), "libapp.a");
    assert_eq!(named("libapp.a"), "libapp.a");
    assert_eq!(named("bin/app.a"), "bin/libapp.a");
    assert_eq!(named("bin\\libapp.a"), "bin/libapp.a");
    assert_eq!(named("bin/app.elf"), "bin/app.elf");
    assert_eq!(named("bin/.a"), "bin/lib.a");
    let windows = target_for(&project(&["a.c"], "obj", "bin/app.a"), PathStyle::Windows);
    assert_eq!(windows, "bin\\libapp.a");
}

#[test]
fn paths_with_spaces_and_colons_are_escaped() {
    assert_eq!(escape("C:\\my dir\\a b.o"), "C$:\\my$ dir\\a$ b.o");
    assert_eq!(escape("plain/path.o"), "plain/path.o");
    let p = project(&["my src/a b.c"], "C:/out dir", "C:/bin/app.elf");
    let text = generate_ninja_build(&p, "C:\\P", &toolchain(), &Host::new(PathStyle::Windows))
        .unwrap();
    assert!(text.contains("build C$:\\out$ dir\\a$ b.o: cc my$ src\\a$ b.c\n"));
    assert!(text.contains("build C$:\\bin\\app.elf: link C$:\\out$ dir\\a$ b.o\n"));
    assert!(text.ends_with("default C$:\\bin\\app.elf\n"));
}

#[test]
fn special_file_with_a_named_output() {
    let mut p = project(&["a.c"], "obj/dbg", "bin/app.elf");
    p.global_cflags.push("-O2".to_string());
    p.include_dirs.push("-Iinc/x".to_string());
    p.special_files.push(special(
        "boot/start.asm",
        "$compiler $options -c $file -o $(TARGET_OBJECT_DIR)/start.o $includes | $(TARGET_OUTPUT_DIR)",
    ));
    let g = build_graph(&p, "/w", &toolchain(), &Host::new(PathStyle::Posix));
    match &g.statements[1] {
        Statement::Rule(r) => {
            assert_eq!(r.name, "special_boot_start_asm");
            assert_eq!(
                r.command,
                "riscv32-elf-gcc -O2 -Iinc/x -c boot/start.asm -o obj/dbg/start.o -Iinc/x | bin -MMD -MF $out.d"
            );
            assert_eq!(r.depfile, Some("$out.d".to_string()));
            assert_eq!(r.deps, Some("gcc".to_string()));
        }
        _ => panic!("the second statement is the special rule"),
    }
    match &g.statements[2] {
        Statement::Edge(e) => {
            assert_eq!(e.kind, EdgeKind::Special);
            assert_eq!(e.output, "obj/dbg/start.o");
            assert_eq!(e.inputs, vec!["boot/start.asm"]);
        }
        _ => panic!("the third statement is the special edge"),
    }
    match &g.statements[5] {
        Statement::Edge(e) => {
            assert_eq!(e.inputs, vec!["obj/dbg/a.o"]);
            assert_eq!(e.implicit, vec!["obj/dbg/start.o"]);
        }
        _ => panic!("the last statement is the link edge"),
    }
}

#[test]
fn special_file_without_a_command_gets_a_placeholder() {
    let mut p = project(&["src/a.c"], "obj", "app.elf");
    p.special_files.push(special("src/gen/table.dat", ""));
    p.special_files.push(special("other.dat", "tool $file"));
    let g = build_graph(&p, "/w", &toolchain(), &Host::new(PathStyle::Posix));
    match (&g.statements[1], &g.statements[2]) {
        (Statement::Rule(r), Statement::Edge(e)) => {
            assert_eq!(r.command, "cmd /c type nul > $out");
            assert_eq!(r.depfile, None);
            assert_eq!(r.deps, None);
            assert_eq!(e.output, "obj/gen/table.o");
        }
        _ => panic!("a rule and an edge for the first special file"),
    }
    match (&g.statements[3], &g.statements[4]) {
        (Statement::Rule(r), Statement::Edge(e)) => {
            assert_eq!(r.command, "tool other.dat");
            assert_eq!(r.depfile, None);
            assert_eq!(e.output, "obj/other.o");
        }
        _ => panic!("a rule and an edge for the second special file"),
    }
}

#[test]
fn link_edge_carries_options_directories_and_libraries() {
    let mut p = project(&["a.c"], "obj/dbg", "app.elf");
    p.linker_options.push("-Wl,-Map=$(TARGET_OBJECT_DIR)/app.map".to_string());
    p.linker_lib_dirs.push("-Llibs/net".to_string());
    p.linker_libs.push("-lnet".to_string());
    p.linker_libs.push("libs/extra/libx.a".to_string());
    let mut host = Host::new(PathStyle::Windows);
    host.files.push("C:\\P\\libs\\net\\libnet.a".to_string());
    let text = generate_ninja_build(&p, "C:\\P", &toolchain(), &host).unwrap();
    assert!(text.contains(
        "build app.elf: link obj\\dbg\\a.o | libs\\net\\libnet.a\n  \
         pre_flags = -Wl,-Map=obj\\dbg\\app.map\n  \
         lib_dirs = -Llibs\\net\n  \
         lib_flags = -lnet libs\\extra\\libx.a\n\n"
    ));
}

#[test]
fn tools_that_exist_are_called_by_their_short_names() {
    let t = toolchain();
    let p = project(&["a.c"], "obj", "app.elf");
    let mut host = Host::new(PathStyle::Windows);
    host.files.push(t.compiler_path());
    let text = generate_ninja_build(&p, "C:\\P", &t, &host).unwrap();
    assert!(text.contains(&format!("  command = {} $flags", t.compiler_path())));
    assert!(text.contains(&format!("  command = {} $pre_flags", t.compiler_path())));
    host.short_names.push(ShortName {
        path: t.compiler_path(),
        short: "C:\\PROGRA~2\\gcc.exe".to_string(),
    });
    let text = generate_ninja_build(&p, "C:\\P", &t, &host).unwrap();
    assert!(text.contains("  command = C:\\PROGRA~2\\gcc.exe $flags"));
    let mut ld = project(&["a.c"], "obj", "app.elf");
    ld.linker_type = "ld".to_string();
    let text = generate_ninja_build(&ld, "C:\\P", &t, &Host::new(PathStyle::Windows)).unwrap();
    assert!(text.contains("  command = riscv32-elf-ld $pre_flags"));
}

#[test]
fn generating_twice_gives_the_same_text() {
    let p = parse_cbp_file(CHATBOT).unwrap();
    let host = Host::new(PathStyle::Windows);
    let first = generate_ninja_build(&p, "C:\\P", &toolchain(), &host).unwrap();
    let second = generate_ninja_build(&p, "C:\\P", &toolchain(), &host).unwrap();
    assert_eq!(first, second);
}
