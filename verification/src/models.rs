//! The data model of the workspace: the active root descriptor, catalog
//! entries, snapshots, and the raw directory listing that the unverified
//! traversal hands to the verified catalog builder.
//!
//! Paths are modelled as `/`-separated strings without a trailing separator;
//! relative paths carry no leading `/`.
use vstd::prelude::*;

verus! {

/// Whether the active root is the app-private internal directory or a
/// user-chosen external directory. Provenance only: operations behave the
/// same either way.
#[derive(Clone, Copy, Debug, PartialEq, Eq, Structural)]
pub enum RootKind {
    Internal,
    External,
}

/// Whether a catalog entry is a markdown file or a folder.
#[derive(Clone, Copy, Debug, PartialEq, Eq, Structural)]
pub enum EntryKind {
    File,
    Folder,
}

/// A markdown file found by the stateless scanner: its absolute path and its
/// path relative to the scanned root.
#[derive(Clone, Debug)]
pub struct MarkdownFile {
    pub path: String,
    pub relative_path: String,
}

/// One catalog entry under the active root: the root-relative path, the
/// entry's own name, and its kind.
#[derive(Clone, Debug)]
pub struct FsEntry {
    pub path: String,
    pub name: String,
    pub kind: EntryKind,
}

/// The active root: its provenance and its absolute path.
#[derive(Clone, Debug)]
pub struct FsRootInfo {
    pub kind: RootKind,
    pub path: String,
}

/// A full catalog: the root it was scanned under and its entries, sorted
/// ascending by relative path.
#[derive(Clone, Debug)]
pub struct FsSnapshot {
    pub root: FsRootInfo,
    pub entries: Vec<FsEntry>,
}

/// A pending file write request: the message type with which callers enqueue
/// updates instead of performing disk I/O synchronously. `source_id` lets a
/// caller correlate an acknowledgement.
#[derive(Clone, Debug)]
pub struct FsFileUpdate {
    pub path: String,
    pub content: String,
    pub source_id: Option<String>,
}

/// One entry of a raw recursive directory listing, as the unverified
/// traversal reports it: the absolute path, the path relative to the walked
/// root, the entry's own name, and whether it is a directory. Hidden entries
/// are not filtered here; the catalog builder prunes them.
#[derive(Clone, Debug)]
pub struct RawEntry {
    pub path: String,
    pub rel_path: String,
    pub name: String,
    pub is_dir: bool,
}

} // verus!
