use marko_core::errors::FsError;
use marko_core::paths::is_hidden;
use marko_core::paths::is_markdown;
use marko_core::paths::join_path;
use marko_core::paths::parent_dir;
use marko_core::paths::resolve_path;

#[test]
fn resolve_accepts_plain_relative_path() {
    let r = resolve_path("/root", "a/b.md").unwrap();
    assert_eq!(r, "/root/a/b.md");
}

#[test]
fn resolve_accepts_dots_inside_names() {
    assert_eq!(resolve_path("/root", "a..b.md").unwrap(), "/root/a..b.md");
    assert_eq!(resolve_path("/root", "...").unwrap(), "/root/...");
    assert_eq!(resolve_path("/root", "a/.../b").unwrap(), "/root/a/.../b");
}

#[test]
fn resolve_rejects_parent_components_anywhere() {
    assert_eq!(resolve_path("/root", "a/../../b"), Err(FsError::PathEscape));
    assert_eq!(resolve_path("/root", "../x"), Err(FsError::PathEscape));
    assert_eq!(resolve_path("/root", ".."), Err(FsError::PathEscape));
    assert_eq!(resolve_path("/root", "a/.."), Err(FsError::PathEscape));
    assert_eq!(resolve_path("/root", "a/../b"), Err(FsError::PathEscape));
}

#[test]
fn resolve_rejects_absolute_paths() {
    assert_eq!(resolve_path("/root", "/etc/passwd"), Err(FsError::InvalidPath));
    assert_eq!(resolve_path("/root", "/"), Err(FsError::InvalidPath));
    assert_eq!(resolve_path("/root", "/../x"), Err(FsError::InvalidPath));
}

#[test]
fn resolve_rejects_blank_paths() {
    assert_eq!(resolve_path("/root", ""), Err(FsError::InvalidPath));
    assert_eq!(resolve_path("/root", "   "), Err(FsError::InvalidPath));
    assert_eq!(resolve_path("/root", " \t\n"), Err(FsError::InvalidPath));
}

#[test]
fn resolve_rejects_unicode_whitespace_only_paths() {
    assert_eq!(resolve_path("/root", "\u{000b}"), Err(FsError::InvalidPath));
    assert_eq!(resolve_path("/root", "\u{0085}"), Err(FsError::InvalidPath));
    assert_eq!(resolve_path("/root", "\u{00a0}\u{3000}"), Err(FsError::InvalidPath));
    assert_eq!(
        resolve_path("/root", "\u{2000}\u{200a}\u{2028}\u{2029}\u{202f}\u{205f}\u{1680}"),
        Err(FsError::InvalidPath)
    );
    assert_eq!(
        resolve_path("/root", "\u{00a0}a").unwrap(),
        "/root/\u{00a0}a"
    );
}

#[test]
fn join_inserts_one_separator() {
    assert_eq!(join_path("/root", "x"), "/root/x");
}

#[test]
fn parent_of_resolved_path() {
    assert_eq!(parent_dir("/root/a/b.md"), "/root/a");
    assert_eq!(parent_dir("/root/b.md"), "/root");
}

#[test]
fn hidden_names_start_with_a_dot() {
    assert!(is_hidden(".git"));
    assert!(is_hidden("."));
    assert!(!is_hidden("a"));
    assert!(!is_hidden(""));
    assert!(!is_hidden("a.git"));
}

#[test]
fn markdown_extensions_match_case_insensitively() {
    assert!(is_markdown("a.md"));
    assert!(is_markdown("a.MD"));
    assert!(is_markdown("a.Md"));
    assert!(is_markdown("b.markdown"));
    assert!(is_markdown("B.MARKDOWN"));
    assert!(is_markdown(".bashrc.md"));
}

#[test]
fn non_markdown_extensions_do_not_match() {
    assert!(!is_markdown("c.txt"));
    assert!(!is_markdown("noext"));
    assert!(!is_markdown("a.mdx"));
    assert!(!is_markdown("a."));
    assert!(!is_markdown("md"));
}

#[test]
fn leading_dot_alone_is_no_extension() {
    assert!(!is_markdown(".md"));
    assert!(!is_markdown(".markdown"));
}

#[test]
fn error_messages_name_the_failure() {
    assert_eq!(
        FsError::PathEscape.message(),
        "Parent paths are not allowed"
    );
    assert_eq!(
        FsError::NotADirectory.message(),
        "Selected path is not a directory"
    );
    assert!(!FsError::ScanFailed.message().is_empty());
    assert!(!FsError::LockFailed.message().is_empty());
}
