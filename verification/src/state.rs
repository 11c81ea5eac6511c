//! The shared workspace state: which root is active. Exactly one root is
//! active at a time; the app-private internal root is fixed for the life of
//! the state, and the active root is either that internal root or a
//! user-chosen external directory.
//!
//! The state is shared under a verified reader/writer lock: many concurrent
//! readers or one exclusive writer. Acquiring the lock cannot fail, so
//! concurrent readers never observe a locking error.
use vstd::prelude::*;
use vstd::rwlock::RwLock;

use crate::errors::FsError;
use crate::models::FsRootInfo;
use crate::models::RootKind;

verus! {

/// The active root and the fixed internal root.
pub struct FsStateData {
    pub root_kind: RootKind,
    pub root_path: String,
    pub internal_root: String,
}

/// Well-formedness of the state: whenever the internal root is active, the
/// active path is the internal root itself.
pub open spec fn state_wf(d: FsStateData) -> bool {
    d.root_kind is Internal ==> d.root_path@ == d.internal_root@
}

/// The invariant every value stored in the state lock satisfies: it is
/// well-formed, and its internal root is the one fixed at construction.
pub open spec fn state_pred(internal: Seq<char>) -> spec_fn(FsStateData) -> bool {
    |d: FsStateData| state_wf(d) && d.internal_root@ == internal
}

/// The shared workspace state under its reader/writer lock, together with
/// the (ghost) internal root it was built with, which every stored value
/// keeps.
pub struct FsState {
    pub lock: RwLock<FsStateData, spec_fn(FsStateData) -> bool>,
    pub internal: Ghost<Seq<char>>,
}

/// Repoints the active root.
///
/// With a path, requires the caller to have probed that the path is an
/// existing directory; refuses it with `NotADirectory` otherwise, leaving
/// the state untouched. With no path, falls back to the internal root.
/// Returns the new descriptor.
pub fn apply_set_root(d: &mut FsStateData, path: Option<String>, path_is_dir: bool) -> (r: Result<
    FsRootInfo,
    FsError,
>)
    requires
        state_wf(*old(d)),
    ensures
        state_wf(*final(d)),
        final(d).internal_root == old(d).internal_root,
        match path {
            Some(p) => {
                if path_is_dir {
                    &&& r is Ok
                    &&& final(d).root_kind is External
                    &&& final(d).root_path == p
                    &&& r->Ok_0.kind is External
                    &&& r->Ok_0.path@ == p@
                } else {
                    &&& r == Result::<FsRootInfo, FsError>::Err(FsError::NotADirectory)
                    &&& *final(d) == *old(d)
                }
            },
            None => {
                &&& r is Ok
                &&& final(d).root_kind is Internal
                &&& final(d).root_path == old(d).internal_root
                &&& r->Ok_0.kind is Internal
                &&& r->Ok_0.path@ == old(d).internal_root@
            },
        },
{
    match path {
        Some(p) => {
            if !path_is_dir {
                return Err(FsError::NotADirectory);
            }
            d.root_kind = RootKind::External;
            d.root_path = p;
            Ok(FsRootInfo { kind: RootKind::External, path: d.root_path.clone() })
        },
        None => {
            d.root_kind = RootKind::Internal;
            d.root_path = d.internal_root.clone();
            Ok(FsRootInfo { kind: RootKind::Internal, path: d.root_path.clone() })
        },
    }
}

impl FsState {
    /// Whether the lock of this state carries the state invariant for this
    /// state's own internal root.
    pub open spec fn wf(&self) -> bool {
        self.lock.pred() == state_pred(self.internal@)
    }

    /// Wraps an initial state in its lock; the state's internal root is the
    /// initial value's, for good.
    pub fn new(data: FsStateData) -> (s: Self)
        requires
            state_wf(data),
        ensures
            s.wf(),
            s.internal@ == data.internal_root@,
    {
        let ghost internal = data.internal_root@;
        FsState {
            lock: RwLock::new(data, Ghost(state_pred(internal))),
            internal: Ghost(internal),
        }
    }

    /// Returns a copy of the active root current while the read lock was
    /// held, which is held only for the copy. Whenever the copy reports the
    /// internal kind, its path is this state's fixed internal root.
    /// Concurrent readers do not block each other, and acquiring the lock
    /// cannot fail.
    pub fn get_root_info(&self) -> (r: FsRootInfo)
        requires
            self.wf(),
        ensures
            r.kind is Internal ==> r.path@ == self.internal@,
    {
        let handle = self.lock.acquire_read();
        let data = handle.borrow();
        let info = FsRootInfo { kind: data.root_kind, path: data.root_path.clone() };
        handle.release_read();
        info
    }

    /// Switches the active root under the exclusive write lock, held only
    /// to validate and repoint; no filesystem work happens under it.
    ///
    /// `path_is_dir` is the caller's probe of the requested path. With
    /// `Some` path the switch succeeds exactly when the probe did, and the
    /// new root is external at that path; with `None` it always succeeds
    /// and the internal root becomes active again.
    pub fn set_root(&self, path: Option<String>, path_is_dir: bool) -> (r: Result<
        FsRootInfo,
        FsError,
    >)
        requires
            self.wf(),
        ensures
            match r {
                Ok(info) => {
                    match path {
                        Some(p) => path_is_dir && info.kind is External && info.path@ == p@,
                        None => info.kind is Internal && info.path@ == self.internal@,
                    }
                },
                Err(e) => path is Some && !path_is_dir && e == FsError::NotADirectory,
            },
    {
        let (mut data, handle) = self.lock.acquire_write();
        let r = apply_set_root(&mut data, path, path_is_dir);
        handle.release_write(data);
        r
    }
}

} // verus!
