use cbp2clangd::cli::{interpret_arguments, output_dir_of, CliError};
use cbp2clangd::parser::ProjectError;
use cbp2clangd::paths::PathStyle;

fn args(words: &[&str]) -> Vec<String> {
    words.iter().map(|w| w.to_string()).collect()
}

#[test]
fn a_project_alone_writes_beside_itself() {
    let a = interpret_arguments(&args(&["prog", "work/app/demo.cbp"]), "/cwd", PathStyle::Posix)
        .unwrap();
    assert_eq!(a.cbp_path, Some("work/app/demo.cbp".to_string()));
    assert_eq!(a.output_dir, Some("work/app".to_string()));
    assert!(!a.show_version);
    assert!(!a.debug);
    assert!(!a.test_mode);
    assert_eq!(a.linker_type, "gcc");
    let bare = interpret_arguments(&args(&["prog", "demo.cbp"]), "/cwd", PathStyle::Posix).unwrap();
    assert_eq!(bare.output_dir, Some(".".to_string()));
}

#[test]
fn an_output_directory_is_read_from_the_projects_directory() {
    let a = interpret_arguments(
        &args(&["prog", "work\\demo.cbp", "..\\out"]),
        "C:\\cwd",
        PathStyle::Windows,
    )
    .unwrap();
    assert_eq!(a.output_dir, Some("work\\..\\out".to_string()));
    let b = interpret_arguments(
        &args(&["prog", "work\\demo.cbp", "D:\\out"]),
        "C:\\cwd",
        PathStyle::Windows,
    )
    .unwrap();
    assert_eq!(b.output_dir, Some("D:\\out".to_string()));
    assert_eq!(output_dir_of("a/b/c.cbp", Some("x"), PathStyle::Posix), "a/b/x");
    assert_eq!(output_dir_of("c.cbp", None, PathStyle::Posix), ".");
}

#[test]
fn options_are_taken_out_wherever_they_stand() {
    let a = interpret_arguments(
        &args(&["prog", "--linker", "ld", "demo.cbp", "--debug", "out"]),
        "/cwd",
        PathStyle::Posix,
    )
    .unwrap();
    assert!(a.debug);
    assert_eq!(a.linker_type, "ld");
    assert_eq!(a.cbp_path, Some("demo.cbp".to_string()));
    assert_eq!(a.output_dir, Some("out".to_string()));
    let b = interpret_arguments(&args(&["prog", "-l", "gold", "demo.cbp"]), "/cwd", PathStyle::Posix)
        .unwrap();
    assert_eq!(b.linker_type, "gold");
}

#[test]
fn the_version_is_asked_for_alone() {
    let a = interpret_arguments(&args(&["prog", "--version"]), "/cwd", PathStyle::Posix).unwrap();
    assert!(a.show_version);
    assert_eq!(a.cbp_path, None);
    assert_eq!(a.output_dir, None);
    let b = interpret_arguments(&args(&["prog", "--debug", "-v"]), "/cwd", PathStyle::Posix)
        .unwrap();
    assert!(b.show_version);
    assert!(b.debug);
    let c = interpret_arguments(&args(&["prog", "-v", "x"]), "/cwd", PathStyle::Posix).unwrap();
    assert!(!c.show_version);
    assert_eq!(c.cbp_path, Some("-v".to_string()));
}

#[test]
fn the_test_mode_needs_no_project() {
    let a = interpret_arguments(&args(&["prog", "--test"]), "/cwd", PathStyle::Posix).unwrap();
    assert!(a.test_mode);
    assert_eq!(a.cbp_path, Some("--test".to_string()));
    assert_eq!(a.output_dir, Some("/cwd".to_string()));
    let b = interpret_arguments(
        &args(&["prog", "--test", "-l", "ld", "a", "b", "c"]),
        "/cwd",
        PathStyle::Posix,
    )
    .unwrap();
    assert!(b.test_mode);
    assert_eq!(b.linker_type, "ld");
}

#[test]
fn arguments_that_ask_for_nothing_are_refused() {
    let refuse = |words: &[&str]| {
        interpret_arguments(&args(words), "/cwd", PathStyle::Posix).unwrap_err()
    };
    assert_eq!(refuse(&["prog"]), CliError::Usage);
    assert_eq!(refuse(&[]), CliError::Usage);
    assert_eq!(refuse(&["prog", "a", "b", "c"]), CliError::Usage);
    assert_eq!(refuse(&["prog", "demo.cbp", "--linker"]), CliError::LinkerNeedsValue);
    assert_eq!(refuse(&["prog", "--test", "-l"]), CliError::LinkerNeedsValue);
    assert_eq!(refuse(&["prog", "--linker", "--debug", "demo.cbp"]), CliError::Usage);
}

#[test]
fn errors_say_what_went_wrong() {
    assert_eq!(ProjectError::NoProject.message(), "No <Project> found");
    assert_eq!(
        ProjectError::NoUnits.message(),
        "No source files (.c/.cpp) or special files found in project."
    );
    assert_eq!(ProjectError::InvalidXml.message(), "The project file is no XML document.");
}
