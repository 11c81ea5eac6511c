use marko_core::errors::FsError;
use marko_core::models::RawEntry;
use marko_core::service::ensure_default_file;
use marko_core::service::plan_create_dir;
use marko_core::service::plan_create_file;
use marko_core::service::plan_delete_path;
use marko_core::service::plan_rename_path;
use marko_core::service::plan_write_file;
use marko_core::service::FsAction;

fn raw(rel: &str, name: &str, is_dir: bool) -> RawEntry {
    RawEntry {
        path: format!("/r/{rel}"),
        rel_path: rel.to_string(),
        name: name.to_string(),
        is_dir,
    }
}

#[test]
fn write_plan_ensures_parent_then_writes() {
    let plan = plan_write_file("/r", "a/b.md", "hello".to_string()).unwrap();
    assert_eq!(plan.len(), 2);
    match &plan[0] {
        FsAction::CreateDirAll { path } => assert_eq!(path.as_str(), "/r/a"),
        other => panic!("unexpected action: {other:?}"),
    }
    match &plan[1] {
        FsAction::WriteFile { path, content } => {
            assert_eq!(path.as_str(), "/r/a/b.md");
            assert_eq!(content.as_str(), "hello");
        }
        other => panic!("unexpected action: {other:?}"),
    }
}

#[test]
fn write_plan_keeps_empty_content() {
    let plan = plan_write_file("/r", "e.md", String::new()).unwrap();
    match &plan[1] {
        FsAction::WriteFile { path, content } => {
            assert_eq!(path.as_str(), "/r/e.md");
            assert_eq!(content.as_str(), "");
        }
        other => panic!("unexpected action: {other:?}"),
    }
}

#[test]
fn write_plan_refuses_escapes_before_any_effect() {
    assert_eq!(
        plan_write_file("/r", "../x", "boom".to_string()),
        Err(FsError::PathEscape)
    );
    assert_eq!(
        plan_write_file("/r", "/x", "boom".to_string()),
        Err(FsError::InvalidPath)
    );
}

#[test]
fn create_plan_is_conditional_on_absence() {
    let plan = plan_create_file("/r", "n/new.md").unwrap();
    assert_eq!(plan.len(), 2);
    match &plan[0] {
        FsAction::CreateDirAll { path } => assert_eq!(path.as_str(), "/r/n"),
        other => panic!("unexpected action: {other:?}"),
    }
    match &plan[1] {
        FsAction::CreateFileIfMissing { path } => assert_eq!(path.as_str(), "/r/n/new.md"),
        other => panic!("unexpected action: {other:?}"),
    }
}

#[test]
fn create_dir_plan_targets_the_resolved_path() {
    let plan = plan_create_dir("/r", "a/b").unwrap();
    assert_eq!(plan.len(), 1);
    match &plan[0] {
        FsAction::CreateDirAll { path } => assert_eq!(path.as_str(), "/r/a/b"),
        other => panic!("unexpected action: {other:?}"),
    }
}

#[test]
fn delete_plan_follows_the_probe() {
    let plan = plan_delete_path("/r", "gone.md", false).unwrap();
    assert_eq!(plan.len(), 1);
    match &plan[0] {
        FsAction::RemoveFile { path } => assert_eq!(path.as_str(), "/r/gone.md"),
        other => panic!("unexpected action: {other:?}"),
    }
    let plan = plan_delete_path("/r", "dir", true).unwrap();
    match &plan[0] {
        FsAction::RemoveDirAll { path } => assert_eq!(path.as_str(), "/r/dir"),
        other => panic!("unexpected action: {other:?}"),
    }
}

#[test]
fn rename_plan_prepares_destination_parent() {
    let plan = plan_rename_path("/r", "old.md", "sub/new.md").unwrap();
    assert_eq!(plan.len(), 2);
    match &plan[0] {
        FsAction::CreateDirAll { path } => assert_eq!(path.as_str(), "/r/sub"),
        other => panic!("unexpected action: {other:?}"),
    }
    match &plan[1] {
        FsAction::Rename { from, to } => {
            assert_eq!(from.as_str(), "/r/old.md");
            assert_eq!(to.as_str(), "/r/sub/new.md");
        }
        other => panic!("unexpected action: {other:?}"),
    }
}

#[test]
fn rename_plan_validates_source_first() {
    assert_eq!(
        plan_rename_path("/r", "../a", "../b"),
        Err(FsError::PathEscape)
    );
    assert_eq!(
        plan_rename_path("/r", "a.md", ""),
        Err(FsError::InvalidPath)
    );
}

fn expect_default_plan(r: Option<Vec<FsAction>>) {
    let plan = r.expect("a default-file plan was owed");
    assert_eq!(plan.len(), 1);
    match &plan[0] {
        FsAction::CreateFileIfMissing { path } => assert_eq!(path.as_str(), "/r/Untitled.md"),
        other => panic!("unexpected action: {other:?}"),
    }
}

#[test]
fn empty_root_calls_for_the_default_file() {
    expect_default_plan(ensure_default_file("/r", &Vec::new()));
}

#[test]
fn any_visible_markdown_file_suppresses_the_default() {
    let listing = vec![raw("deep/nested/note.md", "note.md", false)];
    assert!(ensure_default_file("/r", &listing).is_none());
}

#[test]
fn hidden_markdown_does_not_suppress_the_default() {
    let listing = vec![raw(".hidden/a.md", "a.md", false)];
    expect_default_plan(ensure_default_file("/r", &listing));
}

#[test]
fn occupied_default_name_is_never_clobbered() {
    let listing = vec![raw("Untitled.md", "Untitled.md", true)];
    assert!(ensure_default_file("/r", &listing).is_none());
}

#[test]
fn default_file_is_created_only_once() {
    expect_default_plan(ensure_default_file("/r", &Vec::new()));
    let after = vec![raw("Untitled.md", "Untitled.md", false)];
    assert!(ensure_default_file("/r", &after).is_none());
}

#[test]
fn non_markdown_files_do_not_suppress_the_default() {
    let listing = vec![raw("notes.txt", "notes.txt", false), raw("sub", "sub", true)];
    expect_default_plan(ensure_default_file("/r", &listing));
}
