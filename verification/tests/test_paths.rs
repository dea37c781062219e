use cbp2clangd::paths::{
    compute_relative_path, find_common_ancestor, get_clean_absolute_path, normalize_path,
    normalize_str, sanitize_flag, Component, LogicalPath, PathStyle,
};

fn windows(path: &LogicalPath) -> String {
    path.render(PathStyle::Windows)
}

fn posix(path: &LogicalPath) -> String {
    path.render(PathStyle::Posix)
}

#[test]
fn parse_reads_drive_root_and_names() {
    let path = LogicalPath::parse("C:\\P\\src\\main.c");
    assert_eq!(path.components.len(), 5);
    assert!(matches!(&path.components[0], Component::Prefix(d) if d == "C:"));
    assert!(matches!(&path.components[1], Component::Root));
    assert!(matches!(&path.components[2], Component::Name(n) if n == "P"));
    assert!(matches!(&path.components[4], Component::Name(n) if n == "main.c"));
    assert_eq!(windows(&path), "C:\\P\\src\\main.c");
    assert_eq!(posix(&path), "C:/P/src/main.c");
}

#[test]
fn parse_takes_both_slashes_and_skips_empty_segments() {
    let path = LogicalPath::parse("a//b\\c/");
    assert_eq!(posix(&path), "a/b/c");
    assert_eq!(windows(&path), "a\\b\\c");
}

#[test]
fn parse_keeps_a_leading_dot_only() {
    assert_eq!(posix(&LogicalPath::parse("./a/./b")), "./a/b");
    assert_eq!(posix(&LogicalPath::parse("/./a")), "/a");
    assert_eq!(posix(&LogicalPath::parse(".")), ".");
    assert_eq!(posix(&LogicalPath::parse("")), "");
    assert_eq!(posix(&LogicalPath::parse("a/../b")), "a/../b");
}

#[test]
fn absolute_walks_the_relative_path() {
    let base = LogicalPath::parse("C:\\proj\\app");
    let abs = get_clean_absolute_path(&base, &LogicalPath::parse("../../lib/./x.c"));
    assert_eq!(windows(&abs), "C:\\lib\\x.c");
}

#[test]
fn absolute_does_not_leave_the_root() {
    let base = LogicalPath::parse("/a");
    let abs = get_clean_absolute_path(&base, &LogicalPath::parse("../../../b"));
    assert_eq!(posix(&abs), "/b");
    let drive = get_clean_absolute_path(
        &LogicalPath::parse("C:\\"),
        &LogicalPath::parse("..\\x"),
    );
    assert_eq!(windows(&drive), "C:\\x");
}

#[test]
fn absolute_starts_anew_at_a_root_or_drive() {
    let base = LogicalPath::parse("C:\\proj");
    let other = get_clean_absolute_path(&base, &LogicalPath::parse("D:\\lib\\y.c"));
    assert_eq!(windows(&other), "D:\\lib\\y.c");
    let rooted = get_clean_absolute_path(&base, &LogicalPath::parse("/usr/z.c"));
    assert_eq!(posix(&rooted), "/usr/z.c");
}

#[test]
fn common_ancestor_of_three_paths() {
    let paths = vec![
        LogicalPath::parse("C:\\P\\src\\main.c"),
        LogicalPath::parse("C:\\P\\src\\utils\\h.c"),
        LogicalPath::parse("C:\\P\\drivers\\g.c"),
    ];
    assert_eq!(windows(&find_common_ancestor(&paths)), "C:\\P");
}

#[test]
fn common_ancestor_of_one_path_is_its_parent() {
    let paths = vec![LogicalPath::parse("C:\\P\\src\\main.c")];
    assert_eq!(windows(&find_common_ancestor(&paths)), "C:\\P\\src");
}

#[test]
fn common_ancestor_on_different_roots_is_dot() {
    let paths = vec![
        LogicalPath::parse("C:\\P\\src\\main.c"),
        LogicalPath::parse("D:\\Q\\other.c"),
    ];
    assert_eq!(windows(&find_common_ancestor(&paths)), ".");
}

#[test]
fn common_ancestor_of_no_path_is_dot() {
    let paths: Vec<LogicalPath> = Vec::new();
    assert_eq!(posix(&find_common_ancestor(&paths)), ".");
}

#[test]
fn common_ancestor_of_relative_paths_may_be_empty() {
    let paths = vec![LogicalPath::parse("a/x.c"), LogicalPath::parse("b/y.c")];
    assert_eq!(posix(&find_common_ancestor(&paths)), "");
}

#[test]
fn relative_goes_up_and_down() {
    let target = LogicalPath::parse("C:\\P\\libs\\net\\libnet.a");
    let base = LogicalPath::parse("C:\\P\\app\\build");
    let rel = compute_relative_path(&target, &base).unwrap();
    assert_eq!(windows(&rel), "..\\..\\libs\\net\\libnet.a");
}

#[test]
fn relative_of_a_path_below_the_base() {
    let target = LogicalPath::parse("/w/p/out/obj");
    let base = LogicalPath::parse("/w");
    assert_eq!(posix(&compute_relative_path(&target, &base).unwrap()), "p/out/obj");
    let same = compute_relative_path(&base, &base).unwrap();
    assert_eq!(posix(&same), "");
}

#[test]
fn relative_across_drives_is_none() {
    let target = LogicalPath::parse("D:\\x");
    let base = LogicalPath::parse("C:\\y");
    assert!(compute_relative_path(&target, &base).is_none());
    let rooted = LogicalPath::parse("/x");
    let bare = LogicalPath::parse("x");
    assert!(compute_relative_path(&rooted, &bare).is_none());
}

#[test]
fn extension_is_what_follows_the_last_dot() {
    assert_eq!(LogicalPath::parse("src/a.b.c").extension(), Some("c".to_string()));
    assert_eq!(LogicalPath::parse("src/.hidden").extension(), None);
    assert_eq!(LogicalPath::parse("src/plain").extension(), None);
    assert_eq!(LogicalPath::parse("src/..").extension(), None);
    assert_eq!(LogicalPath::parse("a.").extension(), Some("".to_string()));
}

#[test]
fn with_extension_replaces_the_extension() {
    assert_eq!(posix(&LogicalPath::parse("out/sub/x.c").with_extension("o")), "out/sub/x.o");
    assert_eq!(posix(&LogicalPath::parse("out/x").with_extension("o")), "out/x.o");
    assert_eq!(posix(&LogicalPath::parse("out/.x").with_extension("o")), "out/.x.o");
    assert_eq!(posix(&LogicalPath::parse("out/..").with_extension("o")), "out/..");
}

#[test]
fn join_keeps_an_absolute_second_path() {
    let base = LogicalPath::parse("/a/b");
    assert_eq!(posix(&base.join(&LogicalPath::parse("c/d"))), "/a/b/c/d");
    assert_eq!(posix(&base.join(&LogicalPath::parse("/c"))), "/c");
}

#[test]
fn strip_prefix_and_parent_and_file_name() {
    let path = LogicalPath::parse("/a/b/c.txt");
    let base = LogicalPath::parse("/a");
    assert_eq!(posix(&path.strip_prefix(&base).unwrap()), "b/c.txt");
    assert!(path.strip_prefix(&LogicalPath::parse("/x")).is_none());
    assert!(path.starts_with(&base));
    assert!(!base.starts_with(&path));
    assert_eq!(posix(&path.parent()), "/a/b");
    assert_eq!(posix(&LogicalPath::parse("/").parent()), "");
    assert_eq!(path.file_name(), Some("c.txt".to_string()));
    assert_eq!(LogicalPath::parse("/").file_name(), None);
    assert!(path.is_absolute());
    assert!(!LogicalPath::parse("a").is_absolute());
}

#[test]
fn normalizing_writes_the_separator_of_the_style() {
    assert_eq!(normalize_str("a/b\\c", PathStyle::Windows), "a\\b\\c");
    assert_eq!(normalize_str("a/b\\c", PathStyle::Posix), "a/b/c");
    assert_eq!(sanitize_flag("-Isrc/include", PathStyle::Windows), "-Isrc\\include");
    assert_eq!(
        normalize_path(&LogicalPath::parse("Output/obj"), PathStyle::Windows),
        "Output\\obj"
    );
}
