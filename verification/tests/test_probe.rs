use cbp2clangd::host::Host;
use cbp2clangd::models::{MarchInfo, ProjectInfo};
use cbp2clangd::paths::PathStyle;
use cbp2clangd::probe::paths_to_probe;
use cbp2clangd::{generate_ninja_build, ToolchainConfig};

fn project() -> ProjectInfo {
    ProjectInfo {
        compiler_id: "riscv32-v2".to_string(),
        project_name: "demo".to_string(),
        global_cflags: Vec::new(),
        include_dirs: Vec::new(),
        source_files: vec!["src/a.c".to_string(), "my dir/b.c".to_string()],
        special_files: Vec::new(),
        prebuild_commands: Vec::new(),
        postbuild_commands: Vec::new(),
        march_info: MarchInfo::default(),
        object_output: "obj".to_string(),
        output: "demo.elf".to_string(),
        linker_options: Vec::new(),
        linker_libs: vec!["-lm".to_string(), "net".to_string()],
        linker_lib_dirs: vec!["-Llibs".to_string()],
        linker_type: "ld".to_string(),
    }
}

fn toolchain() -> ToolchainConfig {
    ToolchainConfig {
        version_name: "V2".to_string(),
        gcc_version: "10.2.0".to_string(),
        toolchain_base_path: Some("/tc".to_string()),
    }
}

#[test]
fn the_paths_to_ask_about() {
    let asked = paths_to_probe(&project(), "/w/p", &toolchain(), PathStyle::Posix);
    assert_eq!(
        asked,
        vec![
            "/tc\\bin\\riscv32-elf-gcc.exe",
            "/tc\\bin\\riscv32-elf-ld.exe",
            "/tc\\bin\\riscv32-elf-ar.exe",
            "/w/p/libs/libm.a",
            "/w/p/libs/libnet.a",
            "src/a.c",
            "my dir/b.c",
        ]
    );
}

#[test]
fn answers_about_other_paths_change_nothing() {
    let p = project();
    let t = toolchain();
    let mut host = Host::new(PathStyle::Posix);
    host.files.push("/w/p/libs/libnet.a".to_string());
    let text = generate_ninja_build(&p, "/w/p", &t, &host).unwrap();
    assert!(text.contains("build demo.elf: link obj/src/a.o obj/my$ dir/b.o | libs/libnet.a\n"));
    host.files.push("/somewhere/else".to_string());
    host.files.push("/w/p/libs/libz.a".to_string());
    assert_eq!(generate_ninja_build(&p, "/w/p", &t, &host).unwrap(), text);
}
