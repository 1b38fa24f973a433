use gia_gui::catalog::{md_names, text_less_eq};

fn names(v: &[&str]) -> Vec<String> {
    v.iter().map(|s| String::from(*s)).collect()
}

#[test]
fn md_files_stripped_and_sorted() {
    let found = names(&["write.md", "notes.txt", "Review.md", "analyze.md", "README"]);
    assert_eq!(md_names(&found), names(&["Review", "analyze", "write"]));
}

#[test]
fn repeated_suffix_removed() {
    assert_eq!(md_names(&names(&["a.md.md", "b.mdx", ".md"])), names(&["", "a"]));
}

#[test]
fn empty_and_duplicates() {
    assert!(md_names(&Vec::new()).is_empty());
    assert_eq!(md_names(&names(&["b.md", "a.md", "b.md"])), names(&["a", "b", "b"]));
}

#[test]
fn order_matches_std() {
    let found = names(&["é.md", "e.md", "z.md", "ab.md", "a.md", "Z.md"]);
    let mut expected: Vec<String> =
        found.iter().map(|s| s.trim_end_matches(".md").to_string()).collect();
    expected.sort();
    assert_eq!(md_names(&found), expected);
}

#[test]
fn text_order() {
    assert!(text_less_eq("a", "b"));
    assert!(text_less_eq("a", "ab"));
    assert!(!text_less_eq("ab", "a"));
    assert!(text_less_eq("", ""));
    assert!(text_less_eq("Z", "a"));
}
