use zeus_fm::strutil::{basename_of, parent_of, str_eq, str_lt};

#[test]
fn parent_of_nested_path() {
    assert_eq!(parent_of("/top/docs"), Some("/top".to_string()));
    assert_eq!(parent_of("/top/docs/inner"), Some("/top/docs".to_string()));
}

#[test]
fn parent_of_first_level_is_root() {
    assert_eq!(parent_of("/top"), Some("/".to_string()));
}

#[test]
fn parent_of_root_is_none() {
    assert_eq!(parent_of("/"), None);
}

#[test]
fn parent_of_bare_name_is_none() {
    assert_eq!(parent_of("top"), None);
    assert_eq!(parent_of(""), None);
}

#[test]
fn basename_of_paths() {
    assert_eq!(basename_of("/top/docs"), "docs".to_string());
    assert_eq!(basename_of("/x"), "x".to_string());
    assert_eq!(basename_of("plain"), "plain".to_string());
}

#[test]
fn str_lt_is_lexicographic() {
    assert!(str_lt("abc", "abd"));
    assert!(str_lt("ab", "abc"));
    assert!(!str_lt("abc", "abc"));
    assert!(!str_lt("b", "abc"));
    assert!(str_lt("", "a"));
}

#[test]
fn str_eq_is_exact() {
    assert!(str_eq("abc", "abc"));
    assert!(!str_eq("abc", "abd"));
    assert!(!str_eq("abc", "ab"));
    assert!(str_eq("", ""));
}
