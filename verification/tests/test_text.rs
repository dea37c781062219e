use cbp2clangd::text::{
    chars_of, glue, contains, ends_with, find, join, replace, replace_char, same, slice, split,
    starts_with, string_of, trim,
};

#[test]
fn chars_and_back() {
    let v = chars_of("héllo");
    assert_eq!(v, vec!['h', 'é', 'l', 'l', 'o']);
    assert_eq!(string_of(&v), "héllo");
    assert_eq!(slice("héllo", 1, 3), "él");
    assert_eq!(glue("ab", "cd"), "abcd");
}

#[test]
fn replace_takes_leftmost_matches_without_overlap() {
    assert_eq!(replace("aaa", "aa", "b"), "ba");
    assert_eq!(replace("x$filey$file", "$file", "F"), "xFyF");
    assert_eq!(replace("abc", "", "zz"), "abc");
    assert_eq!(replace("abc", "abcd", "zz"), "abc");
    assert_eq!(replace("", "a", "b"), "");
}

#[test]
fn find_gives_the_first_index_in_characters() {
    assert_eq!(find("éé-o x", "-o "), Some(2));
    assert_eq!(find("abc", "d"), None);
    assert_eq!(find("abc", ""), Some(0));
    assert!(contains("riscv32-elf-gcc", "gcc"));
    assert!(!contains("ld", "gcc"));
}

#[test]
fn prefix_suffix_and_equality() {
    assert!(starts_with("-march=rv32", "-march="));
    assert!(!starts_with("-m", "-march="));
    assert!(ends_with("libx.a", ".a"));
    assert!(!ends_with("a", ".a"));
    assert!(same("abc", "abc"));
    assert!(!same("abc", "abd"));
    assert!(!same("abc", "ab"));
}

#[test]
fn trim_removes_white_space_at_both_ends() {
    assert_eq!(trim("  \t a b \r\n"), "a b");
    assert_eq!(trim("\u{a0}x\u{3000}"), "x");
    assert_eq!(trim("   "), "");
    assert_eq!(trim(""), "");
}

#[test]
fn split_and_join() {
    assert_eq!(split("a\n---b\n---c", "\n---"), vec!["a", "b", "c"]);
    assert_eq!(split("abc", "\n---"), vec!["abc"]);
    assert_eq!(split("", "x"), vec![""]);
    assert_eq!(split("xax", "x"), vec!["", "a", ""]);
    let parts = vec!["a".to_string(), "b".to_string(), "c".to_string()];
    assert_eq!(join(&parts, ", "), "a, b, c");
    assert_eq!(join(&Vec::new(), ", "), "");
    assert_eq!(join(&vec!["only".to_string()], ", "), "only");
}

#[test]
fn replace_char_replaces_every_one() {
    assert_eq!(replace_char("a.b.c", '.', '_'), "a_b_c");
    assert_eq!(replace_char("abc", '.', '_'), "abc");
}
