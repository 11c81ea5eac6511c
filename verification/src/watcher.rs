//! The change watcher's decision core. The unverified shell registers a
//! native recursive filesystem watch and drains its event queue; the logic
//! here decides what a drained burst amounts to: at most one coalesced
//! "workspace changed" notification, and only while the watcher is armed
//! for the root the burst came from.
//!
//! The watcher is a two-state machine, unarmed or armed for one root, and
//! rearming releases the previous registration before the new one exists,
//! so a stale registration never reports for a newer root.
use vstd::prelude::*;
use vstd::string::StringExecFns;

use crate::text::str_eq;

verus! {

/// The kind of one native filesystem event, as far as the watcher reads it.
#[derive(Clone, Copy, Debug, PartialEq, Eq, Structural)]
pub enum WatchKind {
    /// An unclassified event; treated as structural to stay safe.
    Any,
    /// Something was created.
    Create,
    /// Something was removed.
    Remove,
    /// A name changed: a rename or move.
    ModifyName,
    /// Metadata changed.
    ModifyMetadata,
    /// An unclassified modification.
    ModifyAny,
    /// File content changed in place.
    ModifyData,
    /// Some other modification.
    ModifyOther,
    /// Something was read.
    Access,
    /// Some other event.
    Other,
}

/// The kinds that indicate a structural change of the catalog: creation,
/// removal, rename or metadata change, and the unclassified kinds. Pure
/// in-place content changes and accesses are not structural.
pub open spec fn spec_structural(k: WatchKind) -> bool {
    ||| k is Any
    ||| k is Create
    ||| k is Remove
    ||| k is ModifyName
    ||| k is ModifyMetadata
    ||| k is ModifyAny
}

/// Whether the event kind indicates a structural change.
pub fn is_structural(k: &WatchKind) -> (r: bool)
    ensures
        r == spec_structural(*k),
{
    matches!(
        k,
        WatchKind::Any | WatchKind::Create | WatchKind::Remove | WatchKind::ModifyName
            | WatchKind::ModifyMetadata | WatchKind::ModifyAny
    )
}

/// The watcher's state: unarmed, or armed for exactly one root.
pub struct ChangeWatcher {
    pub armed_root: Option<String>,
}

impl ChangeWatcher {
    /// No registration is live.
    pub open spec fn unarmed(&self) -> bool {
        self.armed_root is None
    }

    /// The one live registration watches `root`.
    pub open spec fn armed_for(&self, root: Seq<char>) -> bool {
        self.armed_root is Some && self.armed_root->0@ == root
    }

    /// A fresh, unarmed watcher.
    pub fn new() -> (w: Self)
        ensures
            w.unarmed(),
    {
        ChangeWatcher { armed_root: None }
    }

    /// Replaces whatever registration was live: the old one is released
    /// first, then, only if the root exists, the watcher arms for the new
    /// root. A root that does not exist yet is skipped without error,
    /// matching the lazily created internal root.
    pub fn rearm(&mut self, root: &str, root_exists: bool) -> (armed: bool)
        ensures
            armed == root_exists,
            root_exists ==> final(self).armed_for(root@),
            !root_exists ==> final(self).unarmed(),
            forall|other: Seq<char>| final(self).armed_for(other) ==> other == root@,
    {
        self.armed_root = None;
        if root_exists {
            self.armed_root = Some(String::from_str(root));
            true
        } else {
            false
        }
    }

    /// Releases the registration, as process shutdown does.
    pub fn disarm(&mut self)
        ensures
            final(self).unarmed(),
    {
        self.armed_root = None;
    }

    /// Whether a drained burst from `source_root` is published: only while
    /// armed for that very root, and only when some event of the burst is
    /// structural.
    pub open spec fn burst_notifies(&self, source_root: Seq<char>, kinds: Seq<WatchKind>) -> bool {
        self.armed_for(source_root) && exists|i: int|
            0 <= i < kinds.len() && spec_structural(kinds[i])
    }

    /// Decides what one drained burst of events amounts to: the number of
    /// "workspace changed" notifications to publish, at most one however
    /// large the burst. Non-structural events alone, or a burst from a
    /// root the watcher is not armed for, publish nothing.
    pub fn process_burst(&self, source_root: &str, kinds: &Vec<WatchKind>) -> (n: usize)
        ensures
            n <= 1,
            n == 1 <==> self.burst_notifies(source_root@, kinds@),
    {
        match &self.armed_root {
            None => 0,
            Some(armed) => {
                if !str_eq(armed.as_str(), source_root) {
                    return 0;
                }
                let mut i: usize = 0;
                while i < kinds.len()
                    invariant
                        i <= kinds@.len(),
                        forall|j: int| 0 <= j < i ==> !spec_structural(kinds@[j]),
                        self.armed_for(source_root@),
                    decreases kinds@.len() - i,
                {
                    if is_structural(&kinds[i]) {
                        return 1;
                    }
                    i = i + 1;
                }
                0
            },
        }
    }
}

/// Debounce: while armed, a burst of any number of structural changes is
/// published as a single coalesced notification, not one per change.
pub proof fn lemma_debounce_coalesces(w: ChangeWatcher, root: Seq<char>, kinds: Seq<WatchKind>)
    requires
        w.armed_for(root),
        kinds.len() > 0,
        forall|i: int| 0 <= i < kinds.len() ==> spec_structural(kinds[i]),
    ensures
        w.burst_notifies(root, kinds),
{
    assert(spec_structural(kinds[0]));
}

/// Rearm correctness: once the watcher is armed for a new root, a burst
/// from any other root publishes nothing, while a structural burst from the
/// new root still publishes its one notification.
pub proof fn lemma_rearm_redirects(
    w: ChangeWatcher,
    old_root: Seq<char>,
    new_root: Seq<char>,
    kinds: Seq<WatchKind>,
)
    requires
        w.armed_for(new_root),
        old_root != new_root,
    ensures
        !w.burst_notifies(old_root, kinds),
        (exists|i: int| 0 <= i < kinds.len() && spec_structural(kinds[i]))
            ==> w.burst_notifies(new_root, kinds),
{
}

} // verus!
