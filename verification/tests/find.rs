use chat_console::find::{contains_chars, Entry, FindWalk};
use std::path::PathBuf;

fn file<D>(path: &str, name: &str) -> Entry<D> {
    Entry::File { path: path.to_string(), name: Some(name.to_string()) }
}

fn chars(text: &str) -> Vec<char> {
    text.chars().collect()
}

#[test]
fn find_reports_the_file_whose_name_holds_the_pattern() {
    let mut walk = FindWalk::new("log".to_string(), PathBuf::from("."));
    assert_eq!(walk.next_dir(), Some(PathBuf::from(".")));
    walk.visit(Entry::Directory(PathBuf::from("./a")));
    walk.visit(Entry::Directory(PathBuf::from("./b")));
    assert_eq!(walk.next_dir(), Some(PathBuf::from("./b")));
    walk.visit(file("./b/notes.md", "notes.md"));
    assert_eq!(walk.next_dir(), Some(PathBuf::from("./a")));
    walk.visit(file("./a/log1.txt", "log1.txt"));
    assert_eq!(walk.next_dir(), None);
    assert_eq!(walk.found, vec!["./a/log1.txt".to_string()]);
    assert_eq!(walk.report(), "匹配到 1 个文件:\n./a/log1.txt");
}

#[test]
fn find_without_a_match_reports_none() {
    let mut walk = FindWalk::new("zzz".to_string(), 0u32);
    assert_eq!(walk.next_dir(), Some(0));
    walk.visit(file("a.txt", "a.txt"));
    assert_eq!(walk.next_dir(), None);
    assert_eq!(walk.next_dir(), None);
    assert_eq!(walk.report(), "匹配到 0 个文件:\n");
}

#[test]
fn find_lists_matches_in_the_order_found() {
    let mut walk = FindWalk::new("a".to_string(), 0u32);
    walk.visit(file("x/a1", "a1"));
    walk.visit(file("x/b", "b"));
    walk.visit(file("y/ba", "ba"));
    walk.visit(file("z/a", "a"));
    assert_eq!(walk.report(), "匹配到 3 个文件:\nx/a1\ny/ba\nz/a");
}

#[test]
fn find_counts_in_decimal() {
    let mut walk = FindWalk::new("".to_string(), 0u32);
    for i in 0..12 {
        walk.visit(file(&format!("f{}", i), "f"));
    }
    let report = walk.report();
    assert!(report.starts_with("匹配到 12 个文件:\nf0\nf1\n"));
    assert!(report.ends_with("\nf11"));
}

#[test]
fn find_looks_at_the_name_not_the_path() {
    let mut walk = FindWalk::new("log".to_string(), 0u32);
    walk.visit(file("logs/notes.md", "notes.md"));
    walk.visit(Entry::File { path: "log".to_string(), name: None });
    assert_eq!(walk.found, Vec::<String>::new());
    walk.visit(Entry::Directory(7));
    assert_eq!(walk.pending, vec![0, 7]);
    assert_eq!(walk.found, Vec::<String>::new());
}

#[test]
fn find_with_an_empty_pattern_takes_every_named_file() {
    let mut walk = FindWalk::new("".to_string(), 0u32);
    walk.visit(file("a", "a"));
    walk.visit(file("b", ""));
    walk.visit(Entry::File { path: "c".to_string(), name: None });
    assert_eq!(walk.found, vec!["a".to_string(), "b".to_string()]);
}

#[test]
fn find_reads_the_directory_added_last() {
    let mut walk = FindWalk::new("x".to_string(), 1u32);
    assert_eq!(walk.next_dir(), Some(1));
    walk.visit(Entry::Directory(2));
    walk.visit(Entry::Directory(3));
    assert_eq!(walk.next_dir(), Some(3));
    walk.visit(Entry::Directory(4));
    assert_eq!(walk.next_dir(), Some(4));
    assert_eq!(walk.next_dir(), Some(2));
    assert_eq!(walk.next_dir(), None);
}

#[test]
fn contains_chars_finds_a_run_anywhere() {
    assert!(contains_chars(&chars("log1.txt"), &chars("log")));
    assert!(contains_chars(&chars("my.log"), &chars("log")));
    assert!(contains_chars(&chars("a-log-b"), &chars("log")));
    assert!(contains_chars(&chars("log"), &chars("log")));
    assert!(contains_chars(&chars("lolog"), &chars("log")));
    assert!(contains_chars(&chars("abc"), &chars("")));
    assert!(contains_chars(&chars(""), &chars("")));
    assert!(!contains_chars(&chars("notes.md"), &chars("log")));
    assert!(!contains_chars(&chars("lo"), &chars("log")));
    assert!(!contains_chars(&chars(""), &chars("log")));
    assert!(!contains_chars(&chars("lgo"), &chars("log")));
    assert!(contains_chars(&chars("日本語"), &chars("本")));
}
