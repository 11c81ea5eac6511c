//! The mutating workspace operations. Each operation validates and resolves
//! its caller-supplied relative paths and returns the exact plan of
//! filesystem actions for the unverified shell to perform; validation
//! errors precede any side effect. The effect of a plan is pinned down
//! against an abstract disk model, and the laws at the end of the module
//! state what running a plan leaves on that disk.
//!
//! The model is deliberately coarse where the workspace never looks:
//! `CreateDirAll` records only the directory it is asked for, and a
//! directory rename moves the directory itself, not the recorded paths
//! below it. File contents, the concern of the laws, are tracked exactly.
use vstd::prelude::*;
use vstd::string::StringExecFns;

use crate::errors::FsError;
use crate::models::RawEntry;
use crate::paths::is_markdown;
use crate::paths::joined;
use crate::paths::lemma_joined_injective;
use crate::paths::parent_dir;
use crate::paths::rel_is_hidden;
use crate::paths::resolve_ok;
use crate::paths::resolve_path;
use crate::paths::spec_hidden_rel;
use crate::paths::spec_is_markdown;
use crate::paths::spec_parent;
use crate::paths::spec_resolve_err;
use crate::text::lemma_last_index_of;
use crate::text::str_eq;

verus! {

/// One filesystem mutation the unverified shell performs on the library's
/// behalf.
#[derive(Clone, Debug, PartialEq, Eq)]
pub enum FsAction {
    /// Create the directory and all missing ancestors; idempotent.
    CreateDirAll { path: String },
    /// Write the full content at the path, overwriting.
    WriteFile { path: String, content: String },
    /// Create an empty file at the path unless something already exists
    /// there; idempotent.
    CreateFileIfMissing { path: String },
    /// Remove the single file at the path.
    RemoveFile { path: String },
    /// Remove the directory at the path with everything below it.
    RemoveDirAll { path: String },
    /// Move whatever is at `from` to `to`.
    Rename { from: String, to: String },
}

/// An abstract disk: file contents by path, and the directories known to
/// exist.
#[verifier::ext_equal]
pub struct DiskModel {
    pub files: Map<Seq<char>, Seq<char>>,
    pub dirs: Set<Seq<char>>,
}

/// Whether `p` lies strictly below the directory `dir`.
pub open spec fn under_dir(p: Seq<char>, dir: Seq<char>) -> bool {
    let pre = dir + seq!['/'];
    pre.len() <= p.len() && p.take(pre.len() as int) == pre
}

/// What one action leaves of the disk.
pub open spec fn apply_action(d: DiskModel, a: FsAction) -> DiskModel {
    match a {
        FsAction::CreateDirAll { path } => DiskModel { files: d.files, dirs: d.dirs.insert(path@) },
        FsAction::WriteFile { path, content } => DiskModel {
            files: d.files.insert(path@, content@),
            dirs: d.dirs,
        },
        FsAction::CreateFileIfMissing { path } => {
            if d.files.dom().contains(path@) || d.dirs.contains(path@) {
                d
            } else {
                DiskModel { files: d.files.insert(path@, Seq::empty()), dirs: d.dirs }
            }
        },
        FsAction::RemoveFile { path } => DiskModel { files: d.files.remove(path@), dirs: d.dirs },
        FsAction::RemoveDirAll { path } => DiskModel {
            files: d.files.restrict(
                Set::new(|k: Seq<char>| !(k == path@) && !under_dir(k, path@)),
            ),
            dirs: d.dirs.filter(|q: Seq<char>| !(q == path@) && !under_dir(q, path@)),
        },
        FsAction::Rename { from, to } => {
            if d.files.dom().contains(from@) {
                DiskModel { files: d.files.remove(from@).insert(to@, d.files[from@]), dirs: d.dirs }
            } else if d.dirs.contains(from@) {
                DiskModel { files: d.files, dirs: d.dirs.remove(from@).insert(to@) }
            } else {
                d
            }
        },
    }
}

/// What a plan, run front to back, leaves of the disk.
pub open spec fn apply_actions(d: DiskModel, plan: Seq<FsAction>) -> DiskModel
    decreases plan.len(),
{
    if plan.len() == 0 {
        d
    } else {
        apply_actions(apply_action(d, plan[0]), plan.skip(1))
    }
}

/// The content readable at a path, if a file is there.
pub open spec fn file_at(d: DiskModel, p: Seq<char>) -> Option<Seq<char>> {
    if d.files.dom().contains(p) {
        Some(d.files[p])
    } else {
        None
    }
}

/// The write plan: ensure the parent directories, then write the content.
pub open spec fn write_plan_shape(
    plan: Seq<FsAction>,
    root: Seq<char>,
    rel: Seq<char>,
    content: Seq<char>,
) -> bool {
    let resolved = joined(root, rel);
    &&& plan.len() == 2
    &&& plan[0] matches FsAction::CreateDirAll { path } && path@ == spec_parent(resolved)
    &&& plan[1] matches FsAction::WriteFile { path, content: c } && path@ == resolved && c@
        == content
}

/// The create plan: ensure the parent directories, then create the file
/// only if nothing is there yet.
pub open spec fn create_plan_shape(plan: Seq<FsAction>, root: Seq<char>, rel: Seq<char>) -> bool {
    let resolved = joined(root, rel);
    &&& plan.len() == 2
    &&& plan[0] matches FsAction::CreateDirAll { path } && path@ == spec_parent(resolved)
    &&& plan[1] matches FsAction::CreateFileIfMissing { path } && path@ == resolved
}

/// The rename plan: ensure the destination's parent directories, then move.
pub open spec fn rename_plan_shape(
    plan: Seq<FsAction>,
    root: Seq<char>,
    rel_from: Seq<char>,
    rel_to: Seq<char>,
) -> bool {
    &&& plan.len() == 2
    &&& plan[0] matches FsAction::CreateDirAll { path } && path@ == spec_parent(
        joined(root, rel_to),
    )
    &&& plan[1] matches FsAction::Rename { from, to } && from@ == joined(root, rel_from) && to@
        == joined(root, rel_to)
}

/// A resolved path holds the separator the join inserted.
proof fn lemma_joined_has_separator(root: Seq<char>, rel: Seq<char>)
    ensures
        crate::text::last_index_of(joined(root, rel), '/') >= root.len(),
{
    lemma_last_index_of(joined(root, rel), '/');
    assert(joined(root, rel)[root.len() as int] == '/');
}

/// Plans a full overwrite of the file at a relative path under the root.
/// Refuses exactly the paths `resolve_path` refuses, before any effect.
pub fn plan_write_file(root: &str, path: &str, content: String) -> (r: Result<
    Vec<FsAction>,
    FsError,
>)
    ensures
        match r {
            Ok(plan) => resolve_ok(path@) && write_plan_shape(plan@, root@, path@, content@),
            Err(e) => !resolve_ok(path@) && e == spec_resolve_err(path@),
        },
{
    let resolved = match resolve_path(root, path) {
        Ok(p) => p,
        Err(e) => {
            return Err(e);
        },
    };
    proof {
        lemma_joined_has_separator(root@, path@);
    }
    let parent = parent_dir(resolved.as_str());
    let mut plan: Vec<FsAction> = Vec::new();
    plan.push(FsAction::CreateDirAll { path: parent });
    plan.push(FsAction::WriteFile { path: resolved, content });
    Ok(plan)
}

/// Plans the creation of an empty file at a relative path under the root,
/// a no-op when something already exists there. Refuses exactly the paths
/// `resolve_path` refuses, before any effect.
pub fn plan_create_file(root: &str, path: &str) -> (r: Result<Vec<FsAction>, FsError>)
    ensures
        match r {
            Ok(plan) => resolve_ok(path@) && create_plan_shape(plan@, root@, path@),
            Err(e) => !resolve_ok(path@) && e == spec_resolve_err(path@),
        },
{
    let resolved = match resolve_path(root, path) {
        Ok(p) => p,
        Err(e) => {
            return Err(e);
        },
    };
    proof {
        lemma_joined_has_separator(root@, path@);
    }
    let parent = parent_dir(resolved.as_str());
    let mut plan: Vec<FsAction> = Vec::new();
    plan.push(FsAction::CreateDirAll { path: parent });
    plan.push(FsAction::CreateFileIfMissing { path: resolved });
    Ok(plan)
}

/// Plans the creation of a directory, ancestors included, at a relative
/// path under the root. Refuses exactly the paths `resolve_path` refuses.
pub fn plan_create_dir(root: &str, path: &str) -> (r: Result<Vec<FsAction>, FsError>)
    ensures
        match r {
            Ok(plan) => {
                &&& resolve_ok(path@)
                &&& plan@.len() == 1
                &&& plan@[0] matches FsAction::CreateDirAll { path: p } && p@ == joined(
                    root@,
                    path@,
                )
            },
            Err(e) => !resolve_ok(path@) && e == spec_resolve_err(path@),
        },
{
    let resolved = match resolve_path(root, path) {
        Ok(p) => p,
        Err(e) => {
            return Err(e);
        },
    };
    let mut plan: Vec<FsAction> = Vec::new();
    plan.push(FsAction::CreateDirAll { path: resolved });
    Ok(plan)
}

/// Plans the removal of the entry at a relative path under the root;
/// `target_is_dir` is the caller's probe of what is there. Refuses exactly
/// the paths `resolve_path` refuses, before any effect.
pub fn plan_delete_path(root: &str, path: &str, target_is_dir: bool) -> (r: Result<
    Vec<FsAction>,
    FsError,
>)
    ensures
        match r {
            Ok(plan) => {
                &&& resolve_ok(path@)
                &&& plan@.len() == 1
                &&& (if target_is_dir {
                    plan@[0] matches FsAction::RemoveDirAll { path: p } && p@ == joined(
                        root@,
                        path@,
                    )
                } else {
                    plan@[0] matches FsAction::RemoveFile { path: p } && p@ == joined(root@, path@)
                })
            },
            Err(e) => !resolve_ok(path@) && e == spec_resolve_err(path@),
        },
{
    let resolved = match resolve_path(root, path) {
        Ok(p) => p,
        Err(e) => {
            return Err(e);
        },
    };
    let mut plan: Vec<FsAction> = Vec::new();
    if target_is_dir {
        plan.push(FsAction::RemoveDirAll { path: resolved });
    } else {
        plan.push(FsAction::RemoveFile { path: resolved });
    }
    Ok(plan)
}

/// Plans an atomic-where-possible move between two relative paths under the
/// root. Both paths are validated, source first, before any effect.
pub fn plan_rename_path(root: &str, from: &str, to: &str) -> (r: Result<Vec<FsAction>, FsError>)
    ensures
        match r {
            Ok(plan) => {
                &&& resolve_ok(from@)
                &&& resolve_ok(to@)
                &&& rename_plan_shape(plan@, root@, from@, to@)
            },
            Err(e) => {
                ||| !resolve_ok(from@) && e == spec_resolve_err(from@)
                ||| resolve_ok(from@) && !resolve_ok(to@) && e == spec_resolve_err(to@)
            },
        },
{
    let resolved_from = match resolve_path(root, from) {
        Ok(p) => p,
        Err(e) => {
            return Err(e);
        },
    };
    let resolved_to = match resolve_path(root, to) {
        Ok(p) => p,
        Err(e) => {
            return Err(e);
        },
    };
    proof {
        lemma_joined_has_separator(root@, to@);
    }
    let parent = parent_dir(resolved_to.as_str());
    let mut plan: Vec<FsAction> = Vec::new();
    plan.push(FsAction::CreateDirAll { path: parent });
    plan.push(FsAction::Rename { from: resolved_from, to: resolved_to });
    Ok(plan)
}

/// A listed file that keeps the root from needing its default file: a
/// visible markdown file anywhere below the root.
pub open spec fn spec_visible_markdown(r: RawEntry) -> bool {
    !r.is_dir && !spec_hidden_rel(r.rel_path@) && spec_is_markdown(r.name@)
}

/// Whether the root's listing calls for the default file: no visible
/// markdown file anywhere below the root, and nothing already occupying
/// the default name directly under it.
pub open spec fn needs_default(raw: Seq<RawEntry>) -> bool {
    &&& !(exists|i: int| 0 <= i < raw.len() && spec_visible_markdown(raw[i]))
    &&& !(exists|i: int| 0 <= i < raw.len() && raw[i].rel_path@ == "Untitled.md"@)
}

/// The name of the default file, directly under the root.
pub open spec fn default_file_name() -> Seq<char> {
    "Untitled.md"@
}

/// The default-file plan: create the one empty file under the default name
/// directly under the root, only if nothing is there yet.
pub open spec fn default_plan_shape(plan: Seq<FsAction>, root: Seq<char>) -> bool {
    &&& plan.len() == 1
    &&& plan[0] matches FsAction::CreateFileIfMissing { path } && path@ == joined(
        root,
        default_file_name(),
    )
}

/// Decides whether switching to the internal root must create its default
/// file: returns the plan creating the one empty `Untitled.md` directly
/// under the root, or nothing when some visible markdown file already
/// exists anywhere below it, or when the default name is already taken.
pub fn ensure_default_file(root: &str, raw: &Vec<RawEntry>) -> (r: Option<Vec<FsAction>>)
    ensures
        r is Some <==> needs_default(raw@),
        r is Some ==> default_plan_shape(r->0@, root@),
{
    let mut i: usize = 0;
    while i < raw.len()
        invariant
            i <= raw@.len(),
            forall|j: int| 0 <= j < i ==> !spec_visible_markdown(raw@[j]),
            forall|j: int| 0 <= j < i ==> raw@[j].rel_path@ != "Untitled.md"@,
        decreases raw@.len() - i,
    {
        let r = &raw[i];
        if !r.is_dir && !rel_is_hidden(r.rel_path.as_str()) && is_markdown(r.name.as_str()) {
            return None;
        }
        if str_eq(r.rel_path.as_str(), "Untitled.md") {
            return None;
        }
        i = i + 1;
    }
    let target = crate::paths::join_path(root, "Untitled.md");
    let mut plan: Vec<FsAction> = Vec::new();
    plan.push(FsAction::CreateFileIfMissing { path: target });
    Some(plan)
}

/// A freshly created, still empty root needs its default file.
pub proof fn lemma_default_file_on_empty(raw: Seq<RawEntry>)
    requires
        raw.len() == 0,
    ensures
        needs_default(raw),
{
}

/// Once the default name is listed under the root, no further default file
/// is called for: switching to the internal root again creates nothing.
pub proof fn lemma_default_file_once(raw: Seq<RawEntry>, i: int)
    requires
        0 <= i < raw.len(),
        raw[i].rel_path@ == "Untitled.md"@,
    ensures
        !needs_default(raw),
{
}

/// The default-file plan touches nothing but its own target: it never
/// truncates what is already there, it creates the one empty file where the
/// target is free, and it leaves every other path and every directory as it
/// was.
pub proof fn lemma_default_plan_effect(d: DiskModel, plan: Seq<FsAction>, root: Seq<char>)
    requires
        default_plan_shape(plan, root),
    ensures
        ({
            let target = joined(root, default_file_name());
            let d2 = apply_actions(d, plan);
            &&& file_at(d, target) is Some ==> file_at(d2, target) == file_at(d, target)
            &&& (file_at(d, target) is None && !d.dirs.contains(target)) ==> file_at(d2, target)
                == Some(Seq::<char>::empty())
            &&& forall|p: Seq<char>| p != target ==> file_at(d2, p) == file_at(d, p)
            &&& d2.dirs == d.dirs
        }),
{
    reveal_with_fuel(apply_actions, 3);
    assert(plan.skip(1).len() == 0);
}

/// A two-action plan applies as its two actions in order.
proof fn lemma_apply_two(d: DiskModel, plan: Seq<FsAction>)
    requires
        plan.len() == 2,
    ensures
        apply_actions(d, plan) == apply_action(apply_action(d, plan[0]), plan[1]),
{
    reveal_with_fuel(apply_actions, 3);
    assert(plan.skip(1).len() == 1);
    assert(plan.skip(1)[0] == plan[1]);
    assert(plan.skip(1).skip(1).len() == 0);
}

/// The parent of a resolved path is a strict prefix of it.
proof fn lemma_parent_is_shorter(root: Seq<char>, rel: Seq<char>)
    ensures
        spec_parent(joined(root, rel)).len() < joined(root, rel).len(),
        spec_parent(joined(root, rel)) != joined(root, rel),
{
    lemma_joined_has_separator(root, rel);
    lemma_last_index_of(joined(root, rel), '/');
}

/// Idempotence of file creation: a plan of `plan_create_file`'s shape run a
/// second time changes nothing, and the first run never truncates what a
/// file at the target already holds; on a target where nothing is, it
/// leaves one empty file.
pub proof fn lemma_create_file_idempotent(
    d: DiskModel,
    plan: Seq<FsAction>,
    root: Seq<char>,
    rel: Seq<char>,
)
    requires
        create_plan_shape(plan, root, rel),
    ensures
        ({
            let target = joined(root, rel);
            let once = apply_actions(d, plan);
            let twice = apply_actions(once, plan);
            &&& twice == once
            &&& file_at(d, target) is Some ==> file_at(once, target) == file_at(d, target)
            &&& (file_at(d, target) is None && !d.dirs.contains(target)) ==> file_at(once, target)
                == Some(Seq::<char>::empty())
        }),
{
    let once = apply_actions(d, plan);
    lemma_apply_two(d, plan);
    lemma_apply_two(once, plan);
    lemma_parent_is_shorter(root, rel);
    assert(apply_actions(once, plan) =~= once);
}

/// Round trip: a plan of `plan_write_file`'s shape leaves the resolved path
/// reading back exactly the written content, the empty string included.
pub proof fn lemma_write_read_round_trip(
    d: DiskModel,
    plan: Seq<FsAction>,
    root: Seq<char>,
    rel: Seq<char>,
    content: Seq<char>,
)
    requires
        write_plan_shape(plan, root, rel, content),
    ensures
        file_at(apply_actions(d, plan), joined(root, rel)) == Some(content),
{
    lemma_apply_two(d, plan);
}

/// A write plan reads and writes only its own target: every other path
/// reads afterwards what it read before.
proof fn lemma_write_plan_preserves_other(
    d: DiskModel,
    plan: Seq<FsAction>,
    root: Seq<char>,
    rel: Seq<char>,
    content: Seq<char>,
    other: Seq<char>,
)
    requires
        write_plan_shape(plan, root, rel, content),
        other != joined(root, rel),
    ensures
        file_at(apply_actions(d, plan), other) == file_at(d, other),
{
    lemma_apply_two(d, plan);
}

/// What a sequence of plans, run front to back, leaves of the disk.
pub open spec fn apply_plans(d: DiskModel, plans: Seq<Seq<FsAction>>) -> DiskModel
    decreases plans.len(),
{
    if plans.len() == 0 {
        d
    } else {
        apply_actions(apply_plans(d, plans.drop_last()), plans.last())
    }
}

/// Independent writes: however many write plans for pairwise-distinct
/// relative paths under one root run one after another, in whatever order
/// the sequence lists them, every path afterwards reads back exactly its
/// own content. This is the serialized view of concurrent writers to
/// distinct paths.
pub proof fn lemma_independent_writes(
    d: DiskModel,
    plans: Seq<Seq<FsAction>>,
    root: Seq<char>,
    rels: Seq<Seq<char>>,
    contents: Seq<Seq<char>>,
)
    requires
        plans.len() == rels.len(),
        plans.len() == contents.len(),
        forall|i: int|
            0 <= i < plans.len() ==> write_plan_shape(#[trigger] plans[i], root, rels[i], contents[i]),
        forall|i: int, j: int| 0 <= i < j < rels.len() ==> rels[i] != rels[j],
    ensures
        forall|i: int|
            0 <= i < plans.len() ==> file_at(apply_plans(d, plans), joined(root, #[trigger] rels[i]))
                == Some(contents[i]),
    decreases plans.len(),
{
    if plans.len() > 0 {
        let shorter = plans.drop_last();
        assert(forall|t: int| 0 <= t < shorter.len() ==> shorter[t] == #[trigger] plans[t]);
        assert(forall|t: int| 0 <= t < shorter.len() ==> rels.drop_last()[t] == #[trigger] rels[t]);
        assert(forall|t: int|
            0 <= t < shorter.len() ==> contents.drop_last()[t] == #[trigger] contents[t]);
        lemma_independent_writes(d, shorter, root, rels.drop_last(), contents.drop_last());
        let before = apply_plans(d, shorter);
        let last = plans.len() - 1;
        lemma_write_read_round_trip(before, plans[last], root, rels[last], contents[last]);
        assert forall|i: int| 0 <= i < last implies file_at(
            apply_plans(d, plans),
            joined(root, #[trigger] rels[i]),
        ) == Some(contents[i]) by {
            lemma_joined_injective(root, rels[i], rels[last]);
            lemma_write_plan_preserves_other(
                before,
                plans[last],
                root,
                rels[last],
                contents[last],
                joined(root, rels[i]),
            );
        }
    }
}

/// Renaming moves content: a plan of `plan_rename_path`'s shape, run where
/// the source path holds a file and the two paths differ, leaves nothing
/// readable at the source and the source's former content at the
/// destination.
pub proof fn lemma_rename_moves(
    d: DiskModel,
    plan: Seq<FsAction>,
    root: Seq<char>,
    rel_from: Seq<char>,
    rel_to: Seq<char>,
)
    requires
        rename_plan_shape(plan, root, rel_from, rel_to),
        rel_from != rel_to,
        file_at(d, joined(root, rel_from)) is Some,
    ensures
        ({
            let d2 = apply_actions(d, plan);
            &&& file_at(d2, joined(root, rel_from)) is None
            &&& file_at(d2, joined(root, rel_to)) == file_at(d, joined(root, rel_from))
        }),
{
    lemma_joined_injective(root, rel_from, rel_to);
    lemma_apply_two(d, plan);
}

} // verus!
