use notes_index::extract::extract_title;
use notes_index::files::{classify_entry, describe_entry, entry_order, EntryAction, FileEntry};
use std::cmp::Ordering;

#[test]
fn frontmatter_title_is_unquoted() {
    let content = "---\ntitle: \"Hello World\"\n---\nbody";
    assert_eq!(extract_title(content, "notes/x.md"), Some("Hello World".to_string()));
}

#[test]
fn plain_document_takes_file_stem() {
    assert_eq!(extract_title("just text", "notes/plain.md"), Some("plain".to_string()));
}

#[test]
fn single_quotes_are_stripped_once() {
    let content = "---\ntitle: ''Quoted''\n---\n";
    assert_eq!(extract_title(content, "a.md"), Some("'Quoted'".to_string()));
}

#[test]
fn unmatched_quotes_are_kept() {
    let content = "---\ntitle: \"Half\n---\n";
    assert_eq!(extract_title(content, "a.md"), Some("\"Half".to_string()));
}

#[test]
fn title_key_may_be_indented_and_value_trimmed() {
    let content = "---\nauthor: me\n   title:    Spaced Out  \r\n---\nbody";
    assert_eq!(extract_title(content, "a.md"), Some("Spaced Out".to_string()));
}

#[test]
fn value_keeps_later_colons() {
    let content = "---\ntitle: Part: One\n---\n";
    assert_eq!(extract_title(content, "a.md"), Some("Part: One".to_string()));
}

#[test]
fn unclosed_frontmatter_falls_back_to_file_name() {
    let content = "---\ntitle: Never closed\nbody";
    assert_eq!(extract_title(content, "dir/sub/note.txt.md"), Some("note.txt".to_string()));
}

#[test]
fn frontmatter_without_title_falls_back() {
    let content = "---\ntags: a\n---\ntitle: not in block";
    assert_eq!(extract_title(content, "/abs/Daily.md"), Some("Daily".to_string()));
}

#[test]
fn hidden_file_name_keeps_its_dot() {
    assert_eq!(extract_title("", "dir/.hidden"), Some(".hidden".to_string()));
}

#[test]
fn degenerate_path_has_no_title() {
    assert_eq!(extract_title("", "dir/"), None);
    assert_eq!(extract_title("", ""), None);
}

#[test]
fn empty_title_value_is_kept() {
    let content = "---\ntitle:\n---\n";
    assert_eq!(extract_title(content, "a.md"), Some(String::new()));
}

#[test]
fn crawl_classifies_entries() {
    assert_eq!(classify_entry("notes", true), EntryAction::Descend);
    assert_eq!(classify_entry(".git", true), EntryAction::Skip);
    assert_eq!(classify_entry("a.md", false), EntryAction::Index);
    assert_eq!(classify_entry("a.MD", false), EntryAction::Skip);
    assert_eq!(classify_entry("a.txt", false), EntryAction::Skip);
    assert_eq!(classify_entry(".md", false), EntryAction::Skip);
    assert_eq!(classify_entry("x.tar.md", false), EntryAction::Index);
    assert_eq!(classify_entry("md", false), EntryAction::Skip);
}

#[test]
fn directory_entries_have_no_size() {
    let e = describe_entry("d".to_string(), "/x/d".to_string(), true, Some(4096), None);
    assert_eq!(e.size, None);
    assert_eq!(e.modified, None);
    let f = describe_entry("f.md".to_string(), "/x/f.md".to_string(), false, Some(12), Some(0));
    assert_eq!(f.size, Some(12));
    assert_eq!(f.modified, Some("1970-01-01T00:00:00+00:00".to_string()));
}

#[test]
fn out_of_range_time_gives_empty_text() {
    let f = describe_entry("f".to_string(), "f".to_string(), false, None, Some(i64::MAX));
    assert_eq!(f.modified, Some(String::new()));
}

#[test]
fn file_entry_new_keeps_fields() {
    let e = FileEntry::new("n".to_string(), "p".to_string(), false, Some(3), Some("t".to_string()));
    assert_eq!(e.name, "n");
    assert_eq!(e.path, "p");
    assert!(!e.is_directory);
    assert_eq!(e.size, Some(3));
    assert_eq!(e.modified, Some("t".to_string()));
}

#[test]
fn listing_puts_directories_first_then_names_ignoring_case() {
    let e = |n: &str, d: bool| FileEntry::new(n.to_string(), n.to_string(), d, None, None);
    assert_eq!(entry_order(&e("zeta", true), &e("alpha", false)), Ordering::Less);
    assert_eq!(entry_order(&e("alpha", false), &e("zeta", true)), Ordering::Greater);
    assert_eq!(entry_order(&e("Beta", false), &e("alpha", false)), Ordering::Greater);
    assert_eq!(entry_order(&e("ab", false), &e("AB", false)), Ordering::Equal);
    assert_eq!(entry_order(&e("ab", false), &e("abc", false)), Ordering::Less);
    let mut v = vec![e("b.md", false), e("Docs", true), e("A.md", false), e("archive", true)];
    v.sort_by(entry_order);
    let names: Vec<&str> = v.iter().map(|x| x.name.as_str()).collect();
    assert_eq!(names, vec!["archive", "Docs", "A.md", "b.md"]);
}
