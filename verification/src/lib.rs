//! Core of a single-root markdown workspace: path sandboxing under an active
//! root directory, catalog construction (folders and markdown files, hidden
//! entries pruned, sorted), the shared active-root state under a
//! reader/writer lock, the debouncing change watcher, and the planning of
//! filesystem mutations against a disk model.
//!
//! All filesystem reads and writes happen outside this crate; the functions
//! here take plain values (listings, existence flags) and return plain values
//! (entries, resolved paths, action plans).
use vstd::prelude::*;
use vstd::string::StringExecFns;

pub mod catalog;
pub mod errors;
pub mod markdown;
pub mod models;
pub mod paths;
pub mod service;
pub mod sort;
pub mod state;
pub mod text;
pub mod watcher;

use crate::models::RootKind;
use crate::state::FsStateData;
use crate::state::state_wf;

verus! {

/// Computes the workspace state with which a run of the application
/// starts: the app-private internal root below the application data
/// directory, active until a root switch.
pub fn run(app_data_dir: &str) -> (s: FsStateData)
    ensures
        s.root_kind is Internal,
        s.internal_root@ == app_data_dir@ + "/marko/workspace"@,
        s.root_path == s.internal_root,
        state_wf(s),
{
    let internal = String::from_str(app_data_dir).concat("/marko/workspace");
    FsStateData {
        root_kind: RootKind::Internal,
        root_path: internal.clone(),
        internal_root: internal,
    }
}

} // verus!
