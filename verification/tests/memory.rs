use asterbot::host::core_failure;
use asterbot::memory::{note_name, note_names, stands_at_or_before};

fn names(list: &[&str]) -> Vec<String> {
    list.iter().map(|s| s.to_string()).collect()
}

#[test]
fn note_files_end_in_md() {
    assert_eq!(note_name("todo.md"), Some("todo".to_string()));
    assert_eq!(note_name("a.b.md"), Some("a.b".to_string()));
    assert_eq!(note_name("..md"), Some(".".to_string()));
    assert_eq!(note_name("é.md"), Some("é".to_string()));
    assert_eq!(note_name(".md"), None);
    assert_eq!(note_name("md"), None);
    assert_eq!(note_name("todo.MD"), None);
    assert_eq!(note_name("todo.md "), None);
    assert_eq!(note_name("todo.mdx"), None);
    assert_eq!(note_name("todo"), None);
    assert_eq!(note_name(""), None);
}

#[test]
fn note_names_agree_with_path_rules() {
    for file in ["todo.md", "a.b.md", "..md", ".md", "md", "x.MD", "todo", "notes.txt", ".hidden.md"] {
        let path = std::path::Path::new(file);
        let expected = if path.extension().and_then(|e| e.to_str()) == Some("md") {
            path.file_stem().and_then(|s| s.to_str()).map(|s| s.to_string())
        } else {
            None
        };
        assert_eq!(note_name(file), expected, "{file:?}");
    }
}

#[test]
fn notes_are_listed_in_order() {
    assert_eq!(
        note_names(&names(&["todo.md", "ideas.md", "skip.txt", "Zeta.md", "a.md", "ideas2.md", ".md"])),
        names(&["Zeta", "a", "ideas", "ideas2", "todo"])
    );
    assert_eq!(note_names(&names(&[])), names(&[]));
    assert_eq!(note_names(&names(&["x", "y.txt"])), names(&[]));
    assert_eq!(note_names(&names(&["b.md", "b.md", "a.md"])), names(&["a", "b", "b"]));
}

#[test]
fn note_order_is_the_order_of_strings() {
    let files = names(&["é.md", "z.md", "ab.md", "a.md", "B.md", "日本.md", "aa.md", "\u{1F600}.md"]);
    let mut expected: Vec<String> = files.iter().map(|f| f[..f.len() - 3].to_string()).collect();
    expected.sort();
    assert_eq!(note_names(&files), expected);
}

#[test]
fn text_order_compares_character_by_character() {
    let c = |s: &str| s.chars().collect::<Vec<char>>();
    assert!(stands_at_or_before(&c(""), &c("")));
    assert!(stands_at_or_before(&c(""), &c("a")));
    assert!(!stands_at_or_before(&c("a"), &c("")));
    assert!(stands_at_or_before(&c("a"), &c("a")));
    assert!(stands_at_or_before(&c("a"), &c("ab")));
    assert!(!stands_at_or_before(&c("ab"), &c("a")));
    assert!(stands_at_or_before(&c("ab"), &c("b")));
    assert!(stands_at_or_before(&c("B"), &c("a")));
    assert!(!stands_at_or_before(&c("b"), &c("a")));
}

#[test]
fn core_failure_names_the_core() {
    assert_eq!(
        core_failure("asterbot:core", "boom"),
        "error: core component 'asterbot:core' failed: boom"
    );
}
