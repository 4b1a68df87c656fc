use forge_rs::path_utils::{
    clean_path_components, expand_tilde, expand_tilde_with, file_name, join, normalize,
    normalize_with, path_is_under,
};

const CWD: &str = "/home/tester/work";

fn is_absolute(p: &str) -> bool {
    p.starts_with('/')
}

#[test]
fn test_expand_tilde_with_tilde_path() {
    let expanded = expand_tilde("~/test/file.txt");

    // Should not start with ~ anymore
    assert!(!expanded.starts_with("~"));

    // Should be an absolute path
    assert!(is_absolute(&expanded) || dirs::home_dir().is_some());
}

#[test]
fn test_expand_tilde_without_tilde() {
    let expanded = expand_tilde("/absolute/path/file.txt");
    assert_eq!(expanded, "/absolute/path/file.txt");
}

#[test]
fn test_expand_tilde_relative_path() {
    let expanded = expand_tilde("relative/path/file.txt");
    assert_eq!(expanded, "relative/path/file.txt");
}

#[test]
fn test_normalize_absolute_path() {
    let normalized = normalize("/tmp/test", CWD);
    assert!(is_absolute(&normalized));
    assert_eq!(normalized, "/tmp/test");
}

#[test]
fn test_normalize_relative_path_becomes_absolute() {
    let normalized = normalize("test/file.txt", CWD);
    assert!(is_absolute(&normalized));
}

#[test]
fn test_normalize_tilde_path() {
    let normalized = normalize("~/Documents/test.txt", CWD);
    assert!(!normalized.contains('~'));
    assert!(is_absolute(&normalized));
}

#[test]
fn test_normalize_empty_path() {
    let normalized = normalize("", CWD);
    assert!(is_absolute(&normalized));
}

#[test]
fn test_normalize_dot_path() {
    let normalized = normalize(".", CWD);
    assert!(is_absolute(&normalized));
}

#[test]
fn test_expand_tilde_with_subpath() {
    let expanded = expand_tilde("~/test/subdir/file.txt");
    assert!(expanded.contains("test"));
    assert!(expanded.contains("subdir"));
    assert!(expanded.contains("file.txt"));
}

#[test]
fn test_normalize_preserves_path_components() {
    let normalized = normalize("~/config/nvim/init.lua", CWD);
    assert!(normalized.contains("config"));
    assert!(normalized.contains("nvim"));
    assert!(normalized.contains("init.lua"));
}

#[test]
fn test_normalize_removes_leading_dot_slash() {
    let normalized = normalize("/home/user/./config/file.txt", CWD);
    assert!(!normalized.contains("/./"), "Path should not contain /./");
    assert!(normalized.contains("/home/user/config/file.txt"));
}

#[test]
fn test_normalize_removes_parent_dir_refs() {
    let normalized = normalize("/home/user/../other/file.txt", CWD);
    assert!(!normalized.contains("/../"), "Path should not contain /../");
    assert!(normalized.contains("/home/other/file.txt"));
}

#[test]
fn test_normalize_handles_multiple_dots() {
    let normalized = normalize("/home/./user/./config/./file.txt", CWD);
    assert!(!normalized.contains("/./"), "Path should not contain any /./");
    assert_eq!(normalized, "/home/user/config/file.txt");
}

#[test]
fn test_normalize_relative_path_with_dot() {
    let normalized = normalize("./config/file.txt", CWD);
    assert!(is_absolute(&normalized));
    assert!(!normalized.contains("/./"), "Path should not contain /./");
}

#[test]
fn expand_tilde_uses_given_home() {
    assert_eq!(expand_tilde_with("~/.bashrc", Some("/home/ann")), "/home/ann/.bashrc");
    assert_eq!(expand_tilde_with("~", Some("/home/ann")), "/home/ann");
    assert_eq!(expand_tilde_with("~/.bashrc", None), "~/.bashrc");
    assert_eq!(expand_tilde_with("~ann/x", Some("/home/ann")), "~ann/x");
}

#[test]
fn normalize_with_exact_results() {
    assert_eq!(normalize_with("~/.bashrc", Some("/home/ann"), CWD), "/home/ann/.bashrc");
    assert_eq!(normalize_with("a/../b/./c", None, "/w"), "/w/b/c");
    assert_eq!(normalize_with("", None, "/w"), "/w");
    assert_eq!(normalize_with("../x", None, "/w/"), "/w/x");
    assert_eq!(normalize_with("/..", None, "/w"), "/");
    assert_eq!(normalize_with("//a//b/", None, "/w"), "/a/b");
}

#[test]
fn clean_path_components_keeps_relative_paths_relative() {
    assert_eq!(clean_path_components("a/./b/../c"), "a/c");
    assert_eq!(clean_path_components("/a/b/.."), "/a");
    assert_eq!(clean_path_components("./."), "");
}

#[test]
fn file_name_and_join() {
    assert_eq!(file_name("/home/ann/.bashrc"), Some(".bashrc".to_string()));
    assert_eq!(file_name("/"), None);
    assert_eq!(file_name("dir/sub/"), Some("sub".to_string()));
    assert_eq!(join("/forge", ".bashrc"), "/forge/.bashrc");
    assert_eq!(join("/forge/", "a"), "/forge/a");
    assert_eq!(join("/forge", "/abs"), "/abs");
    assert_eq!(join("/forge", ""), "/forge");
}

#[test]
fn path_is_under_direct_and_recursive() {
    assert!(path_is_under("/f/a", "/f", false));
    assert!(!path_is_under("/f/a/b", "/f", false));
    assert!(path_is_under("/f/a/b", "/f", true));
    assert!(!path_is_under("/f", "/f", true));
    assert!(!path_is_under("/fa/b", "/f", true));
    assert!(path_is_under("/x", "/", false));
}
