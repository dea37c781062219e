use cbp2clangd::generator::quote;
use cbp2clangd::host::{Host, ShortName};
use cbp2clangd::merge::{is_declared_by, pattern_declared_in};
use cbp2clangd::models::{MarchInfo, ProjectInfo};
use cbp2clangd::paths::PathStyle;
use cbp2clangd::{
    generate_build_script, generate_clangd_config, generate_clangd_fragment,
    generate_compile_commands, merge_clangd_config, ToolchainConfig,
};

fn project() -> ProjectInfo {
    ProjectInfo {
        compiler_id: "riscv32-v2".to_string(),
        project_name: "demo".to_string(),
        global_cflags: vec!["-Wall".to_string()],
        include_dirs: vec!["-Iinc".to_string()],
        source_files: vec!["src/a.c".to_string(), "my dir/b.c".to_string()],
        special_files: Vec::new(),
        prebuild_commands: Vec::new(),
        postbuild_commands: Vec::new(),
        march_info: MarchInfo::default(),
        object_output: "obj".to_string(),
        output: "demo.elf".to_string(),
        linker_options: Vec::new(),
        linker_libs: Vec::new(),
        linker_lib_dirs: Vec::new(),
        linker_type: "gcc".to_string(),
    }
}

fn toolchain() -> ToolchainConfig {
    ToolchainConfig {
        version_name: "V2".to_string(),
        gcc_version: "10.2.0".to_string(),
        toolchain_base_path: Some("D:\\tc".to_string()),
    }
}

#[test]
fn clangd_config_without_march() {
    let text = generate_clangd_config(&project(), &toolchain()).unwrap();
    assert_eq!(
        text,
        "CompileFlags:\n  Add:\n    - -xc\n    - -target riscv32-unknown-elf\n    \
         - -ID:\\\\tc\\\\lib\\\\gcc\\\\riscv32-elf\\\\10.2.0\\\\include\n    \
         - -ID:\\\\tc\\\\lib\\\\gcc\\\\riscv32-elf\\\\10.2.0\\\\include-fixed\n    \
         - -ID:\\\\tc\\\\riscv32-elf\\\\include\n    \
         - -Wall\n  Remove:\n    - -mjump-tables-in-text\n"
    );
}

#[test]
fn clangd_config_with_a_custom_march() {
    let mut p = project();
    p.global_cflags = vec![
        "-march=rv32imacxcustom".to_string(),
        "-mjump-tables-in-text".to_string(),
        "-O2".to_string(),
    ];
    p.march_info = MarchInfo {
        full_march: "-march=rv32imacxcustom".to_string(),
        base_march: Some("-march=rv32imac".to_string()),
        has_custom_extension: true,
    };
    let text = generate_clangd_config(&p, &toolchain()).unwrap();
    assert!(text.ends_with(
        "    - -O2\n    - -march=rv32imac\n  Remove:\n    - -march=rv32imacxcustom\n    - -mjump-tables-in-text\n"
    ));
    assert!(!text.contains("    - -mjump-tables-in-text\n    - -O2"));
    p.march_info = MarchInfo {
        full_march: "-march=rv32i".to_string(),
        base_march: None,
        has_custom_extension: false,
    };
    let text = generate_clangd_config(&p, &toolchain()).unwrap();
    assert!(text.ends_with(
        "    - -O2\n    - -march=rv32i\n  Remove:\n    - -march=rv32i\n    - -mjump-tables-in-text\n"
    ));
}

#[test]
fn arguments_are_quoted_where_they_need_it() {
    assert_eq!(quote("-Wall"), "-Wall");
    assert_eq!(quote("my dir/b.c"), "\"my dir/b.c\"");
    assert_eq!(quote("-DNAME=\"x\""), "\"-DNAME=\\\"x\\\"\"");
    assert_eq!(quote("a\tb"), "\"a\tb\"");
    assert_eq!(quote(""), "");
}

#[test]
fn compilation_database_has_one_record_for_each_source() {
    let p = project();
    let host = Host::new(PathStyle::Windows);
    let records = generate_compile_commands(&p, "C:\\proj", &toolchain(), &host);
    assert_eq!(records.len(), 2);
    assert_eq!(records[0].directory, "C:\\proj");
    assert_eq!(records[0].file, "src/a.c");
    assert_eq!(records[0].command, "riscv32-elf-gcc -c -Wall -Iinc src/a.c");
    assert_eq!(records[1].file, "my dir/b.c");
    assert_eq!(records[1].command, "riscv32-elf-gcc -c -Wall -Iinc \"my dir/b.c\"");
}

#[test]
fn compilation_database_uses_short_names() {
    let p = project();
    let t = toolchain();
    let mut host = Host::new(PathStyle::Windows);
    host.files.push(t.compiler_path());
    host.short_names.push(ShortName {
        path: "my dir/b.c".to_string(),
        short: "MYDIR~1/b.c".to_string(),
    });
    let records = generate_compile_commands(&p, "C:\\proj", &t, &host);
    assert_eq!(records[0].command, "D:\\tc\\bin\\riscv32-elf-gcc.exe -c -Wall -Iinc src/a.c");
    assert_eq!(records[1].command, "D:\\tc\\bin\\riscv32-elf-gcc.exe -c -Wall -Iinc MYDIR~1/b.c");
    assert_eq!(records[1].file, "my dir/b.c");
}

#[test]
fn build_script_without_extra_commands() {
    let text = generate_build_script(&project(), &toolchain(), "C:\\proj", None);
    assert_eq!(
        text,
        "@echo off\nrem Generated by cbp2clangd\n\ncd /d \"%~dp0\"\n\n\
         rem Set toolchain path\nset PATH=D:\\tc\\bin;%PATH%\n\n\
         rem Build project with ninja\nninja -f build.ninja\n\
         if %errorlevel% neq 0 exit /b %errorlevel%\n\n\
         rem Build completed successfully\necho Build completed successfully\n\n"
    );
}

#[test]
fn build_script_with_extra_commands_and_a_ninja_path() {
    let mut p = project();
    p.prebuild_commands = vec!["echo $(PROJECT_NAME)".to_string(), "prepare.bat".to_string()];
    p.postbuild_commands = vec!["pack.bat $(PROJECT_NAME).elf".to_string()];
    let text = generate_build_script(&p, &toolchain(), "C:\\proj", Some("C:\\bin\\ninja.exe"));
    assert_eq!(
        text,
        "@echo off\nrem Generated by cbp2clangd\n\ncd /d \"%~dp0\"\n\n\
         rem Set toolchain path\nset PATH=D:\\tc\\bin;%PATH%\n\n\
         rem Prebuild commands\n\
         pushd %~dp0\ncall echo demo\npopd\n\
         pushd %~dp0\ncall prepare.bat\npopd\n\n\
         rem Build project with ninja\nC:\\bin\\ninja.exe -f build.ninja\n\
         if %errorlevel% neq 0 exit /b %errorlevel%\n\n\
         rem Postbuild commands\n\
         pushd %~dp0\ncall pack.bat demo.elf\npopd\n\n\
         rem Build completed successfully\necho Build completed successfully\n\n"
    );
}

#[test]
fn fragment_names_the_pattern_and_the_database() {
    let (pattern, fragment) =
        generate_clangd_fragment("C:\\w\\apps\\demo", "C:\\w", "C:\\w\\apps\\demo\\out\\obj")
            .unwrap();
    assert_eq!(pattern, "apps/demo/.*");
    assert_eq!(
        fragment,
        "If:\n  PathMatch: apps/demo/.*\nCompileFlags:\n  CompilationDatabase: apps/demo/out/obj\n"
    );
    let (pattern, fragment) = generate_clangd_fragment("/w", "/w", "/w").unwrap();
    assert_eq!(pattern, ".*");
    assert_eq!(fragment, "If:\n  PathMatch: .*\nCompileFlags:\n  CompilationDatabase: .\n");
    let (pattern, fragment) = generate_clangd_fragment("D:\\p", "C:\\w", "D:\\p\\obj").unwrap();
    assert_eq!(pattern, "D:/p/.*");
    assert!(fragment.ends_with("CompilationDatabase: D:/p/obj\n"));
    let (pattern, _) = generate_clangd_fragment("/w/a", "/w/b/c", "/w/a").unwrap();
    assert_eq!(pattern, "../../a/.*");
}

#[test]
fn merging_into_nothing_gives_head_and_fragment() {
    let merged = merge_clangd_config("", "HEAD\n", "p/.*", "If:\n  PathMatch: p/.*\n");
    assert_eq!(merged, "HEAD\n\n\n---\nIf:\n  PathMatch: p/.*\n");
    let blank = merge_clangd_config(" \n\t", "HEAD\n", "p/.*", "If:\n  PathMatch: p/.*\n");
    assert_eq!(blank, merged);
}

#[test]
fn merging_keeps_the_fragments_of_other_projects() {
    let existing = "OLD HEAD\n\n---\nIf:\n  PathMatch: q/.*\nCompileFlags:\n  CompilationDatabase: q/obj\n";
    let merged = merge_clangd_config(existing, "HEAD\n", "p/.*", "If:\n  PathMatch: p/.*\n");
    assert_eq!(
        merged,
        "HEAD\n\n\n---\nIf:\n  PathMatch: q/.*\nCompileFlags:\n  CompilationDatabase: q/obj\n\n---\nIf:\n  PathMatch: p/.*\n"
    );
}

#[test]
fn merging_again_does_not_repeat_the_fragment() {
    let head = "CompileFlags:\n  Add:\n    - -xc\n";
    let fragment = "If:\n  PathMatch: p/.*\nCompileFlags:\n  CompilationDatabase: p/obj\n";
    let other = "If:\n  PathMatch: q/.*\nCompileFlags:\n  CompilationDatabase: q/obj\n";
    let first = merge_clangd_config("", head, "p/.*", fragment);
    let second = merge_clangd_config(&first, head, "p/.*", fragment);
    assert_eq!(first, second);
    let with_other = merge_clangd_config(&first, head, "q/.*", other);
    assert_eq!(with_other.matches("PathMatch: p/.*").count(), 1);
    assert_eq!(with_other.matches("PathMatch: q/.*").count(), 1);
    let again = merge_clangd_config(&with_other, head, "q/.*", other);
    assert_eq!(again, with_other);
    let back = merge_clangd_config(&with_other, head, "p/.*", fragment);
    assert_eq!(back.matches("PathMatch: p/.*").count(), 1);
    assert_eq!(back.matches("PathMatch: q/.*").count(), 1);
    assert!(back.ends_with(fragment));
    assert_eq!(merge_clangd_config(&back, head, "p/.*", fragment), back);
}

#[test]
fn a_fragment_declares_the_pattern_on_its_path_match_line() {
    assert_eq!(
        pattern_declared_in("If:\n  PathMatch: apps/demo/.*\nCompileFlags:\n"),
        Some("apps/demo/.*".to_string())
    );
    assert_eq!(pattern_declared_in("If:\n  PathMatch:   a/.* \r\nrest"), Some("a/.*".to_string()));
    assert_eq!(pattern_declared_in("If:\n  PathMatch: a/.*"), Some("a/.*".to_string()));
    assert_eq!(pattern_declared_in("If:\n  PathMatch: \nrest"), Some("".to_string()));
    assert_eq!(pattern_declared_in("CompileFlags:\n  Add:\n"), None);
    assert!(is_declared_by("If:\n  PathMatch: a/.*\n", "a/.*"));
    assert!(is_declared_by("If:\n  PathMatch: a/.*\n", " a/.* "));
    assert!(!is_declared_by("If:\n  PathMatch: a/.*x\n", "a/.*"));
    assert!(!is_declared_by("If:\n  PathMatch: a/.*\n", "a/.*x"));
    assert!(!is_declared_by("If:\n  PathMatch: b/.*\n# was PathMatch: a/.*\n", "a/.*"));
    assert!(!is_declared_by("no pattern", ""));
}

#[test]
fn merging_keeps_a_fragment_whose_pattern_only_begins_alike() {
    let longer = "If:\n  PathMatch: a/.*x\nCompileFlags:\n  CompilationDatabase: ax\n";
    let own = "If:\n  PathMatch: a/.*\nCompileFlags:\n  CompilationDatabase: a\n";
    let existing = format!("OLD\n\n---\n{}\n---\n{}", longer, own);
    let merged = merge_clangd_config(&existing, "HEAD\n", "a/.*", own);
    assert_eq!(
        merged,
        format!("HEAD\n\n\n---\n{}\n\n---\n{}", longer.trim(), own)
    );
    assert_eq!(merge_clangd_config(&merged, "HEAD\n", "a/.*", own), merged);
}
