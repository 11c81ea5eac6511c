//! The error taxonomy of the workspace core.
//!
//! Validation errors (`InvalidPath`, `PathEscape`, `NotADirectory`) are
//! produced by the verified logic before any filesystem effect. The
//! `*Failed` variants stand for I/O failures that the unverified shell
//! reports; the underlying cause is formatted at that boundary.
use vstd::prelude::*;
use vstd::string::StringExecFns;

verus! {

/// Why a workspace operation was refused or failed.
#[derive(Clone, Copy, Debug, PartialEq, Eq, Structural)]
pub enum FsError {
    /// The supplied relative path is empty, whitespace-only or absolute.
    InvalidPath,
    /// The supplied relative path holds a parent-directory component.
    PathEscape,
    /// The target of a root switch does not exist or is not a directory.
    NotADirectory,
    /// Reading a file failed.
    ReadFailed,
    /// Writing a file failed.
    WriteFailed,
    /// Creating a file or directory failed.
    CreateFailed,
    /// Deleting a file or directory failed.
    DeleteFailed,
    /// Moving a file or directory failed.
    RenameFailed,
    /// Walking the directory tree for a catalog failed.
    ScanFailed,
    /// The shared workspace state could not be locked. The verified lock of
    /// this crate cannot fail, so the library itself never produces this.
    LockFailed,
}

/// The fixed message text of each error variant.
pub open spec fn spec_message(e: FsError) -> Seq<char> {
    match e {
        FsError::InvalidPath => "Path must be a non-empty relative path"@,
        FsError::PathEscape => "Parent paths are not allowed"@,
        FsError::NotADirectory => "Selected path is not a directory"@,
        FsError::ReadFailed => "Failed to read file"@,
        FsError::WriteFailed => "Failed to write file"@,
        FsError::CreateFailed => "Failed to create file or directory"@,
        FsError::DeleteFailed => "Failed to delete path"@,
        FsError::RenameFailed => "Failed to rename path"@,
        FsError::ScanFailed => "Failed to scan directory"@,
        FsError::LockFailed => "Failed to lock workspace state"@,
    }
}

impl FsError {
    /// A short human-readable description of the failure.
    pub fn message(&self) -> (r: String)
        ensures
            r@ == spec_message(*self),
    {
        match self {
            FsError::InvalidPath => String::from_str("Path must be a non-empty relative path"),
            FsError::PathEscape => String::from_str("Parent paths are not allowed"),
            FsError::NotADirectory => String::from_str("Selected path is not a directory"),
            FsError::ReadFailed => String::from_str("Failed to read file"),
            FsError::WriteFailed => String::from_str("Failed to write file"),
            FsError::CreateFailed => String::from_str("Failed to create file or directory"),
            FsError::DeleteFailed => String::from_str("Failed to delete path"),
            FsError::RenameFailed => String::from_str("Failed to rename path"),
            FsError::ScanFailed => String::from_str("Failed to scan directory"),
            FsError::LockFailed => String::from_str("Failed to lock workspace state"),
        }
    }
}

} // verus!
