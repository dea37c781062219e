use cbp2clangd::host::{Host, ShortName};
use cbp2clangd::paths::{LogicalPath, PathStyle};
use cbp2clangd::resolver::{decorate, library_candidates, names_a_path, resolve_library_path};

fn dirs(flags: &[&str]) -> Vec<String> {
    flags.iter().map(|s| s.to_string()).collect()
}

fn rendered(places: &[LogicalPath]) -> Vec<String> {
    places.iter().map(|p| p.render(PathStyle::Posix)).collect()
}

#[test]
fn references_are_paths_or_bare_names() {
    assert!(names_a_path("libs/libx.a"));
    assert!(names_a_path("start.o"));
    assert!(names_a_path("C:\\sdk\\liby.a"));
    assert!(!names_a_path("-lm"));
    assert!(!names_a_path("-lfoo.a"));
    assert!(!names_a_path("net"));
    assert!(!names_a_path("libs/net"));
    assert_eq!(decorate("-lm"), "libm.a");
    assert_eq!(decorate("net"), "libnet.a");
    assert_eq!(decorate("-l"), "lib.a");
}

#[test]
fn candidates_follow_the_order_of_the_directories() {
    let root = LogicalPath::parse("/w/p");
    let places = library_candidates("-lm", &dirs(&["-Llibs", "-L/opt/lib", "plain"]), &root);
    assert_eq!(
        rendered(&places),
        vec!["/w/p/libs/libm.a", "/opt/lib/libm.a", "/w/p/plain/libm.a"]
    );
    let places = library_candidates("net", &dirs(&["-La", "-Lb"]), &root);
    assert_eq!(rendered(&places), vec!["/w/p/a/libnet.a", "/w/p/b/libnet.a"]);
    let places = library_candidates("-lm", &dirs(&[]), &root);
    assert!(places.is_empty());
}

#[test]
fn a_path_has_one_place() {
    let root = LogicalPath::parse("/w/p");
    let places = library_candidates("../x/liby.a", &dirs(&[]), &root);
    assert_eq!(rendered(&places), vec!["/w/p/../x/liby.a"]);
    let places = library_candidates("../x/liby.a", &dirs(&["-La", "-Lb"]), &root);
    assert_eq!(rendered(&places), vec!["/w/p/../x/liby.a"]);
    let places = library_candidates("/opt/start.o", &dirs(&["-La"]), &root);
    assert_eq!(rendered(&places), vec!["/opt/start.o"]);
}

#[test]
fn the_first_place_that_exists_wins() {
    let root = LogicalPath::parse("/w/p");
    let flags = dirs(&["-La", "-Lb", "-L/opt"]);
    let mut host = Host::new(PathStyle::Posix);
    assert_eq!(resolve_library_path("-lm", &flags, &root, &host), None);
    host.files.push("/opt/libm.a".to_string());
    assert_eq!(
        resolve_library_path("-lm", &flags, &root, &host),
        Some("../../opt/libm.a".to_string())
    );
    host.files.push("/w/p/b/libm.a".to_string());
    assert_eq!(resolve_library_path("-lm", &flags, &root, &host), Some("b/libm.a".to_string()));
    host.files.push("/w/p/a/libm.a".to_string());
    assert_eq!(resolve_library_path("-lm", &flags, &root, &host), Some("a/libm.a".to_string()));
    assert_eq!(resolve_library_path("-lz", &flags, &root, &host), None);
}

#[test]
fn a_path_is_not_looked_for_in_the_directories() {
    let root = LogicalPath::parse("C:\\P");
    let flags = dirs(&["-Ld"]);
    let mut host = Host::new(PathStyle::Windows);
    host.files.push("C:\\P\\d\\libs\\libx.a".to_string());
    assert_eq!(resolve_library_path("libs/libx.a", &flags, &root, &host), None);
    host.files.push("C:\\P\\libs\\libx.a".to_string());
    assert_eq!(
        resolve_library_path("libs/libx.a", &flags, &root, &host),
        Some("libs\\libx.a".to_string())
    );
    assert_eq!(resolve_library_path("D:/sdk/liby.a", &flags, &root, &host), None);
    host.files.push("D:\\sdk\\liby.a".to_string());
    assert_eq!(
        resolve_library_path("D:/sdk/liby.a", &flags, &root, &host),
        Some("D:\\sdk\\liby.a".to_string())
    );
}

#[test]
fn a_bare_name_is_looked_for_decorated_only() {
    let root = LogicalPath::parse("/w/p");
    let flags = dirs(&["-La"]);
    let mut host = Host::new(PathStyle::Posix);
    host.files.push("/w/p/net".to_string());
    host.files.push("/w/p/a/net".to_string());
    assert_eq!(resolve_library_path("net", &flags, &root, &host), None);
    host.files.push("/w/p/a/libnet.a".to_string());
    assert_eq!(resolve_library_path("net", &flags, &root, &host), Some("a/libnet.a".to_string()));
}

#[test]
fn host_answers_by_what_was_recorded() {
    let mut host = Host::new(PathStyle::Posix);
    assert!(!host.is_present("a"));
    assert_eq!(host.shorten("a b"), "a b");
    host.files.push("a".to_string());
    host.short_names.push(ShortName { path: "a b".to_string(), short: "AB~1".to_string() });
    host.short_names.push(ShortName { path: "a b".to_string(), short: "later".to_string() });
    assert!(host.is_present("a"));
    assert!(!host.is_present("b"));
    assert_eq!(host.shorten("a b"), "AB~1");
    assert_eq!(host.shorten("c"), "c");
}
