use marko_core::errors::FsError;
use marko_core::models::RootKind;
use marko_core::run;
use marko_core::state::apply_set_root;
use marko_core::state::FsState;
use marko_core::watcher::ChangeWatcher;
use marko_core::watcher::is_structural;
use marko_core::watcher::WatchKind;

#[test]
fn run_starts_on_the_internal_root() {
    let data = run("/home/u/.local/share/app");
    assert_eq!(data.root_kind, RootKind::Internal);
    assert_eq!(data.internal_root, "/home/u/.local/share/app/marko/workspace");
    assert_eq!(data.root_path, data.internal_root);
}

#[test]
fn state_reports_its_active_root() {
    let state = FsState::new(run("/data"));
    let info = state.get_root_info();
    assert_eq!(info.kind, RootKind::Internal);
    assert_eq!(info.path, "/data/marko/workspace");
}

#[test]
fn switching_to_a_directory_makes_it_the_external_root() {
    let state = FsState::new(run("/data"));
    let info = state.set_root(Some("/elsewhere/notes".to_string()), true).unwrap();
    assert_eq!(info.kind, RootKind::External);
    assert_eq!(info.path, "/elsewhere/notes");
    let seen = state.get_root_info();
    assert_eq!(seen.kind, RootKind::External);
    assert_eq!(seen.path, "/elsewhere/notes");
}

#[test]
fn switching_to_a_non_directory_is_refused() {
    let state = FsState::new(run("/data"));
    let r = state.set_root(Some("/elsewhere/notes.txt".to_string()), false);
    assert_eq!(r.unwrap_err(), FsError::NotADirectory);
    let seen = state.get_root_info();
    assert_eq!(seen.kind, RootKind::Internal);
    assert_eq!(seen.path, "/data/marko/workspace");
}

#[test]
fn switching_back_restores_the_internal_root() {
    let state = FsState::new(run("/data"));
    state.set_root(Some("/elsewhere".to_string()), true).unwrap();
    let info = state.set_root(None, false).unwrap();
    assert_eq!(info.kind, RootKind::Internal);
    assert_eq!(info.path, "/data/marko/workspace");
}

#[test]
fn apply_set_root_repoints_in_place() {
    let mut data = run("/data");
    let info = apply_set_root(&mut data, Some("/ext".to_string()), true).unwrap();
    assert_eq!(info.kind, RootKind::External);
    assert_eq!(data.root_path, "/ext");
    assert_eq!(data.internal_root, "/data/marko/workspace");
    let info = apply_set_root(&mut data, None, false).unwrap();
    assert_eq!(info.kind, RootKind::Internal);
    assert_eq!(data.root_path, "/data/marko/workspace");
}

#[test]
fn structural_kinds_are_exactly_the_catalog_changing_ones() {
    assert!(is_structural(&WatchKind::Any));
    assert!(is_structural(&WatchKind::Create));
    assert!(is_structural(&WatchKind::Remove));
    assert!(is_structural(&WatchKind::ModifyName));
    assert!(is_structural(&WatchKind::ModifyMetadata));
    assert!(is_structural(&WatchKind::ModifyAny));
    assert!(!is_structural(&WatchKind::ModifyData));
    assert!(!is_structural(&WatchKind::ModifyOther));
    assert!(!is_structural(&WatchKind::Access));
    assert!(!is_structural(&WatchKind::Other));
}

#[test]
fn a_burst_of_many_changes_notifies_once() {
    let mut w = ChangeWatcher::new();
    assert!(w.rearm("/root", true));
    let burst = vec![
        WatchKind::Create,
        WatchKind::Remove,
        WatchKind::ModifyName,
        WatchKind::Create,
        WatchKind::ModifyMetadata,
    ];
    assert_eq!(w.process_burst("/root", &burst), 1);
}

#[test]
fn content_only_changes_do_not_notify() {
    let mut w = ChangeWatcher::new();
    w.rearm("/root", true);
    let burst = vec![WatchKind::ModifyData, WatchKind::Access, WatchKind::Other];
    assert_eq!(w.process_burst("/root", &burst), 0);
}

#[test]
fn an_unarmed_watcher_never_notifies() {
    let w = ChangeWatcher::new();
    assert_eq!(w.process_burst("/root", &vec![WatchKind::Create]), 0);
}

#[test]
fn a_missing_root_leaves_the_watcher_unarmed() {
    let mut w = ChangeWatcher::new();
    assert!(!w.rearm("/not/yet", false));
    assert_eq!(w.process_burst("/not/yet", &vec![WatchKind::Create]), 0);
}

#[test]
fn rearm_stops_reports_for_the_old_root() {
    let mut w = ChangeWatcher::new();
    w.rearm("/root/a", true);
    assert_eq!(w.process_burst("/root/a", &vec![WatchKind::Create]), 1);
    w.rearm("/root/b", true);
    assert_eq!(w.process_burst("/root/a", &vec![WatchKind::Create]), 0);
    assert_eq!(w.process_burst("/root/b", &vec![WatchKind::Remove]), 1);
}

#[test]
fn disarm_releases_the_registration() {
    let mut w = ChangeWatcher::new();
    w.rearm("/root", true);
    w.disarm();
    assert_eq!(w.process_burst("/root", &vec![WatchKind::Create]), 0);
}
