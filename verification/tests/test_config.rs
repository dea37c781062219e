use cbp2clangd::host::Host;
use cbp2clangd::paths::PathStyle;
use cbp2clangd::ToolchainConfig;

#[test]
fn compiler_ids_select_toolchains() {
    let v1 = ToolchainConfig::from_compiler_id("riscv32").unwrap();
    assert_eq!(v1.version_name, "V1");
    assert_eq!(v1.gcc_version, "6.1.0");
    assert!(v1.toolchain_base_path.is_none());
    let v2 = ToolchainConfig::from_compiler_id("riscv32-v2").unwrap();
    assert_eq!(v2.version_name, "V2");
    assert_eq!(v2.gcc_version, "10.2.0");
    let v3 = ToolchainConfig::from_compiler_id("riscv32-v3").unwrap();
    assert_eq!(v3.version_name, "V3");
    assert_eq!(v3.gcc_version, "14.2.0");
    assert!(ToolchainConfig::from_compiler_id("gcc").is_none());
    assert!(ToolchainConfig::from_compiler_id("").is_none());
}

#[test]
fn unknown_compiler_ids_stand_for_the_second_version() {
    let t = ToolchainConfig::for_compiler_id("something-else");
    assert_eq!(t.version_name, "V2");
    assert_eq!(t.gcc_version, "10.2.0");
    assert_eq!(ToolchainConfig::for_compiler_id("riscv32-v3").version_name, "V3");
}

#[test]
fn tool_paths_in_the_usual_place() {
    let t = ToolchainConfig::from_compiler_id("riscv32-v2").unwrap();
    assert_eq!(t.get_base_path(), "C:\\Program Files (x86)\\RV32-Toolchain\\RV32-V2");
    assert_eq!(
        t.compiler_path(),
        "C:\\Program Files (x86)\\RV32-Toolchain\\RV32-V2\\bin\\riscv32-elf-gcc.exe"
    );
    assert_eq!(
        t.linker_path("ld"),
        "C:\\Program Files (x86)\\RV32-Toolchain\\RV32-V2\\bin\\riscv32-elf-ld.exe"
    );
    assert_eq!(t.linker_path("gcc"), t.compiler_path());
    assert_eq!(t.linker_path("anything"), t.compiler_path());
    assert_eq!(
        t.ar_path(),
        "C:\\Program Files (x86)\\RV32-Toolchain\\RV32-V2\\bin\\riscv32-elf-ar.exe"
    );
    assert_eq!(
        t.include_paths(),
        vec![
            "C:\\Program Files (x86)\\RV32-Toolchain\\RV32-V2\\lib\\gcc\\riscv32-elf\\10.2.0\\include",
            "C:\\Program Files (x86)\\RV32-Toolchain\\RV32-V2\\lib\\gcc\\riscv32-elf\\10.2.0\\include-fixed",
            "C:\\Program Files (x86)\\RV32-Toolchain\\RV32-V2\\riscv32-elf\\include",
        ]
    );
}

#[test]
fn tool_paths_in_a_custom_place() {
    let t = ToolchainConfig {
        version_name: "V9".to_string(),
        gcc_version: "1.2.3".to_string(),
        toolchain_base_path: Some("D:\\tools".to_string()),
    };
    assert_eq!(t.get_base_path(), "D:\\tools");
    assert_eq!(t.compiler_path(), "D:\\tools\\bin\\riscv32-elf-gcc.exe");
    assert_eq!(t.include_paths()[0], "D:\\tools\\lib\\gcc\\riscv32-elf\\1.2.3\\include");
}

#[test]
fn compiler_is_available_where_the_machine_found_it() {
    let t = ToolchainConfig::from_compiler_id("riscv32-v2").unwrap();
    let mut host = Host::new(PathStyle::Windows);
    assert!(!t.is_compiler_available(&host));
    host.files.push(t.ar_path());
    assert!(!t.is_compiler_available(&host));
    host.files.push(t.compiler_path());
    assert!(t.is_compiler_available(&host));
}
