use rex::paths::{
    entry_is_safe, file_name, is_loader_name, join, same_text, starts_with, with_suffix,
};

#[test]
fn join_puts_one_separator_between() {
    assert_eq!(join("/tmp", "hello_bundle"), "/tmp/hello_bundle");
    assert_eq!(join("/tmp/", "hello_bundle"), "/tmp/hello_bundle");
    assert_eq!(join("a", "b"), "a/b");
    assert_eq!(join("/", "bin"), "/bin");
}

#[test]
fn join_with_an_empty_side() {
    assert_eq!(join("", "bins"), "bins");
    assert_eq!(join("/tmp", ""), "/tmp/");
    assert_eq!(join("", ""), "");
}

#[test]
fn join_lets_an_absolute_part_stand_alone() {
    assert_eq!(join("/work", "/etc/passwd"), "/etc/passwd");
    assert_eq!(join("", "/x"), "/x");
}

#[test]
fn join_agrees_with_std_paths() {
    for (base, part) in [("/tmp", "x"), ("/tmp/", "x"), ("", "x"), ("a/b", "c/d"), ("/a", "/b")] {
        let expected = std::path::Path::new(base).join(part);
        assert_eq!(join(base, part), expected.to_str().unwrap());
    }
}

#[test]
fn file_name_is_the_last_component() {
    assert_eq!(file_name("/bin/ls"), Some(String::from("ls")));
    assert_eq!(file_name("ls"), Some(String::from("ls")));
    assert_eq!(file_name("./target/release/hello"), Some(String::from("hello")));
    assert_eq!(file_name("/usr/lib/libc.so.6"), Some(String::from("libc.so.6")));
    assert_eq!(file_name("/opt/h\u{e9}llo"), Some(String::from("h\u{e9}llo")));
    assert_eq!(file_name("/a/..b"), Some(String::from("..b")));
    assert_eq!(file_name("/a/..."), Some(String::from("...")));
}

#[test]
fn file_name_skips_separators_and_dots_at_the_end() {
    assert_eq!(file_name("/w/assets/"), Some(String::from("assets")));
    assert_eq!(file_name("assets/"), Some(String::from("assets")));
    assert_eq!(file_name("/bin//"), Some(String::from("bin")));
    assert_eq!(file_name("a/b/."), Some(String::from("b")));
    assert_eq!(file_name("a/b/./"), Some(String::from("b")));
    assert_eq!(file_name("a/b/././/"), Some(String::from("b")));
    assert_eq!(file_name("a/b."), Some(String::from("b.")));
    assert_eq!(file_name("a/.b"), Some(String::from(".b")));
    assert_eq!(file_name("./a"), Some(String::from("a")));
}

#[test]
fn file_name_is_missing_where_nothing_is_named() {
    assert_eq!(file_name(""), None);
    assert_eq!(file_name("/"), None);
    assert_eq!(file_name("//"), None);
    assert_eq!(file_name("."), None);
    assert_eq!(file_name("./"), None);
    assert_eq!(file_name("/."), None);
    assert_eq!(file_name("./."), None);
    assert_eq!(file_name(".."), None);
    assert_eq!(file_name("../"), None);
    assert_eq!(file_name("/a/b/.."), None);
    assert_eq!(file_name("/a/b/../"), None);
    assert_eq!(file_name("/a/b/../."), None);
}

#[test]
fn file_name_agrees_with_std_paths() {
    let paths = [
        "", "/", "//", ".", "..", "./", "../", "/.", "/..", "./.", "../.", "a", "a/", "a//", "a/.",
        "a/./", "a/..", "a/../", "a/b", "/a/b", "/a/b/", "/a/b/.", "/a/b/./.", "/a/b/..", "a.",
        ".a", "..a", "a..", "...", "a/...", "a/.../", "/w/assets/", "./a", "././a/./", "a//b//",
        "/bin/ls", "h\u{e9}llo/w\u{f6}rld/", "a/ /", " ",
    ];
    for path in paths {
        let expected = std::path::Path::new(path)
            .file_name()
            .map(|name| name.to_str().unwrap().to_string());
        assert_eq!(file_name(path), expected, "file name of {:?}", path);
    }
}

#[test]
fn starts_with_compares_the_prefix() {
    assert!(starts_with("ld-linux-x86-64.so.2", "ld-linux"));
    assert!(starts_with("abc", ""));
    assert!(starts_with("abc", "abc"));
    assert!(!starts_with("ab", "abc"));
    assert!(!starts_with("xbc", "abc"));
    assert!(!starts_with("", "a"));
}

#[test]
fn loader_names_are_recognised() {
    assert!(is_loader_name("ld-linux-x86-64.so.2"));
    assert!(is_loader_name("ld-linux.so.2"));
    assert!(is_loader_name("ld-musl-x86_64.so.1"));
    assert!(is_loader_name("ld-linux"));
    assert!(!is_loader_name("libc.so.6"));
    assert!(!is_loader_name("ld.so"));
    assert!(!is_loader_name("libld-linux.so"));
    assert!(!is_loader_name(""));
}

#[test]
fn relative_entries_are_safe() {
    assert!(entry_is_safe("hello_bundle/hello"));
    assert!(entry_is_safe("hello_bundle/libs/libc.so.6"));
    assert!(entry_is_safe("hello_bundle/"));
    assert!(entry_is_safe(""));
    assert!(entry_is_safe("a"));
    assert!(entry_is_safe("./a"));
    assert!(entry_is_safe("a/..b/c"));
    assert!(entry_is_safe("a/b../c"));
    assert!(entry_is_safe("a/.../c"));
}

#[test]
fn absolute_entries_are_unsafe() {
    assert!(!entry_is_safe("/etc/passwd"));
    assert!(!entry_is_safe("/"));
}

#[test]
fn entries_that_climb_are_unsafe() {
    assert!(!entry_is_safe(".."));
    assert!(!entry_is_safe("../x"));
    assert!(!entry_is_safe("a/.."));
    assert!(!entry_is_safe("a/../b"));
    assert!(!entry_is_safe("hello_bundle/../../etc/passwd"));
}

#[test]
fn texts_are_compared_and_extended() {
    assert!(same_text("--rex-help", "--rex-help"));
    assert!(!same_text("--rex-help", "--rex-helps"));
    assert!(same_text("", ""));
    assert_eq!(with_suffix("hello", "_bundle"), "hello_bundle");
    assert_eq!(with_suffix("", ".Rex"), ".Rex");
}

#[test]
fn entries_are_admitted_or_refused() {
    assert_eq!(rex::paths::check_entry("hello_bundle/libs/libc.so.6"), Ok(()));
    assert_eq!(rex::paths::check_entry(""), Ok(()));
    assert_eq!(
        rex::paths::check_entry("../escape"),
        Err(rex::error::RexError::UnsafeEntry)
    );
    assert_eq!(rex::paths::check_entry("/abs"), Err(rex::error::RexError::UnsafeEntry));
}

#[test]
fn one_unsafe_entry_refuses_the_list() {
    let good = vec![String::from("a_bundle/"), String::from("a_bundle/a"), String::from("")];
    assert_eq!(rex::paths::check_entries(&good), Ok(()));
    assert_eq!(rex::paths::check_entries(&vec![]), Ok(()));
    let bad = vec![String::from("a_bundle/a"), String::from("a_bundle/../../x"), String::from("b")];
    assert_eq!(rex::paths::check_entries(&bad), Err(rex::error::RexError::UnsafeEntry));
    let last = vec![String::from("a"), String::from("/abs")];
    assert_eq!(rex::paths::check_entries(&last), Err(rex::error::RexError::UnsafeEntry));
}
