use marko_core::catalog::list_entries;
use marko_core::catalog::snapshot_from_state;
use marko_core::markdown::list_markdown_files;
use marko_core::models::EntryKind;
use marko_core::models::FsRootInfo;
use marko_core::models::RawEntry;
use marko_core::models::RootKind;

fn raw(path: &str, rel: &str, name: &str, is_dir: bool) -> RawEntry {
    RawEntry {
        path: path.to_string(),
        rel_path: rel.to_string(),
        name: name.to_string(),
        is_dir,
    }
}

fn sample_listing() -> Vec<RawEntry> {
    vec![
        raw("/r/b.md", "b.md", "b.md", false),
        raw("/r/A", "A", "A", true),
        raw("/r/A/a.md", "A/a.md", "a.md", false),
        raw("/r/.git", ".git", ".git", true),
        raw("/r/.git/config", ".git/config", "config", false),
    ]
}

#[test]
fn catalog_sorts_and_prunes_hidden_subtrees() {
    let entries = list_entries(true, &sample_listing());
    assert_eq!(entries.len(), 3);
    assert_eq!(entries[0].path, "A");
    assert_eq!(entries[0].name, "A");
    assert_eq!(entries[0].kind, EntryKind::Folder);
    assert_eq!(entries[1].path, "A/a.md");
    assert_eq!(entries[1].name, "a.md");
    assert_eq!(entries[1].kind, EntryKind::File);
    assert_eq!(entries[2].path, "b.md");
    assert_eq!(entries[2].name, "b.md");
    assert_eq!(entries[2].kind, EntryKind::File);
}

#[test]
fn catalog_of_missing_root_is_empty_not_an_error() {
    let entries = list_entries(false, &sample_listing());
    assert!(entries.is_empty());
}

#[test]
fn folders_appear_even_when_empty_or_without_markdown() {
    let listing = vec![
        raw("/r/E", "E", "E", true),
        raw("/r/E/x.txt", "E/x.txt", "x.txt", false),
    ];
    let entries = list_entries(true, &listing);
    assert_eq!(entries.len(), 1);
    assert_eq!(entries[0].path, "E");
    assert_eq!(entries[0].kind, EntryKind::Folder);
}

#[test]
fn non_markdown_files_are_omitted() {
    let listing = vec![
        raw("/r/a.txt", "a.txt", "a.txt", false),
        raw("/r/n.md", "n.md", "n.md", false),
        raw("/r/u.MD", "u.MD", "u.MD", false),
    ];
    let entries = list_entries(true, &listing);
    assert_eq!(entries.len(), 2);
    assert_eq!(entries[0].path, "n.md");
    assert_eq!(entries[1].path, "u.MD");
}

#[test]
fn catalog_order_is_independent_of_traversal_order() {
    let mut listing = sample_listing();
    listing.reverse();
    let entries = list_entries(true, &listing);
    assert_eq!(entries.len(), 3);
    assert_eq!(entries[0].path, "A");
    assert_eq!(entries[1].path, "A/a.md");
    assert_eq!(entries[2].path, "b.md");
}

#[test]
fn snapshot_carries_root_and_entries() {
    let root = FsRootInfo {
        kind: RootKind::External,
        path: "/r".to_string(),
    };
    let snap = snapshot_from_state(root, true, &sample_listing());
    assert_eq!(snap.root.kind, RootKind::External);
    assert_eq!(snap.root.path, "/r");
    assert_eq!(snap.entries.len(), 3);
    assert_eq!(snap.entries[0].path, "A");
}

#[test]
fn scanner_keeps_hidden_markdown_and_files_only() {
    let listing = vec![
        raw("/p/z.md", "z.md", "z.md", false),
        raw("/p/.h/a.md", ".h/a.md", "a.md", false),
        raw("/p/D", "D", "D", true),
        raw("/p/D/c.markdown", "D/c.markdown", "c.markdown", false),
        raw("/p/D/c.txt", "D/c.txt", "c.txt", false),
    ];
    let files = list_markdown_files(&listing);
    assert_eq!(files.len(), 3);
    assert_eq!(files[0].relative_path, ".h/a.md");
    assert_eq!(files[0].path, "/p/.h/a.md");
    assert_eq!(files[1].relative_path, "D/c.markdown");
    assert_eq!(files[2].relative_path, "z.md");
}

#[test]
fn scanner_of_empty_listing_is_empty() {
    let files = list_markdown_files(&Vec::new());
    assert!(files.is_empty());
}
