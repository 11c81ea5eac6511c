//! The workspace catalog: from a raw recursive listing of the root to the
//! ordered entries the callers see. Hidden entries and everything below a
//! hidden directory are pruned, directories are kept as folders, files are
//! kept only with a markdown extension, and the result is sorted ascending
//! by relative path, independent of traversal order.
//!
//! Entries are produced fresh from each listing, never cached: the
//! filesystem is the source of truth.
use vstd::prelude::*;

use crate::models::EntryKind;
use crate::models::FsEntry;
use crate::models::FsRootInfo;
use crate::models::FsSnapshot;
use crate::models::RawEntry;
use crate::paths::is_markdown;
use crate::paths::rel_is_hidden;
use crate::paths::spec_hidden_rel;
use crate::paths::spec_is_markdown;
use crate::sort::keys_distinct;
use crate::sort::sort_by_key;
use crate::sort::SortKey;
use crate::text::lex_le;

verus! {

/// Whether the catalog keeps the raw entry: nothing on its relative path is
/// hidden, and it is a directory or a markdown file.
pub open spec fn included(r: RawEntry) -> bool {
    !spec_hidden_rel(r.rel_path@) && (r.is_dir || spec_is_markdown(r.name@))
}

/// The catalog entry a kept raw entry becomes.
pub open spec fn entry_of(r: RawEntry) -> FsEntry {
    FsEntry {
        path: r.rel_path,
        name: r.name,
        kind: if r.is_dir {
            EntryKind::Folder
        } else {
            EntryKind::File
        },
    }
}

/// The catalog of a raw listing, still in listing order.
pub open spec fn catalog_of(raw: Seq<RawEntry>) -> Seq<FsEntry>
    decreases raw.len(),
{
    if raw.len() == 0 {
        Seq::empty()
    } else {
        let rest = catalog_of(raw.drop_last());
        if included(raw.last()) {
            rest.push(entry_of(raw.last()))
        } else {
            rest
        }
    }
}

/// Entries in ascending order of relative path.
pub open spec fn entries_sorted(es: Seq<FsEntry>) -> bool {
    forall|i: int, j: int| 0 <= i < j < es.len() ==> lex_le(es[i].path@, es[j].path@)
}

/// Keeps and converts the raw entries, in listing order.
fn build_entries(raw: &Vec<RawEntry>) -> (es: Vec<FsEntry>)
    ensures
        es@ == catalog_of(raw@),
{
    let mut es: Vec<FsEntry> = Vec::new();
    let mut i: usize = 0;
    proof {
        assert(raw@.take(0) =~= Seq::<RawEntry>::empty());
    }
    while i < raw.len()
        invariant
            i <= raw@.len(),
            es@ == catalog_of(raw@.take(i as int)),
        decreases raw@.len() - i,
    {
        let r = &raw[i];
        let hidden = rel_is_hidden(r.rel_path.as_str());
        let keep = !hidden && (r.is_dir || is_markdown(r.name.as_str()));
        if keep {
            es.push(
                FsEntry {
                    path: r.rel_path.clone(),
                    name: r.name.clone(),
                    kind: if r.is_dir {
                        EntryKind::Folder
                    } else {
                        EntryKind::File
                    },
                },
            );
        }
        proof {
            assert(raw@.take(i + 1).drop_last() =~= raw@.take(i as int));
            assert(raw@.take(i + 1).last() == raw@[i as int]);
        }
        i = i + 1;
    }
    proof {
        assert(raw@.take(raw@.len() as int) =~= raw@);
    }
    es
}

/// Pairwise-distinct relative paths in a raw listing, as a real traversal
/// always yields.
pub open spec fn rel_paths_distinct(raw: Seq<RawEntry>) -> bool {
    forall|i: int, j: int| 0 <= i < j < raw.len() ==> raw[i].rel_path@ != raw[j].rel_path@
}

/// Pairwise-distinct catalog entry paths.
pub open spec fn entry_paths_distinct(es: Seq<FsEntry>) -> bool {
    forall|i: int, j: int| 0 <= i < j < es.len() ==> es[i].path@ != es[j].path@
}

impl SortKey for FsEntry {
    /// A catalog entry is ordered by its relative path.
    open spec fn key(&self) -> Seq<char> {
        self.path@
    }

    fn key_str(&self) -> (r: &str) {
        self.path.as_str()
    }
}

/// A raw entry whose name is the last component of its relative path, as a
/// real traversal always reports it.
pub open spec fn raw_entry_consistent(r: RawEntry) -> bool {
    &&& r.rel_path@.len() > 0
    &&& r.name@ == r.rel_path@.skip(crate::text::last_index_of(r.rel_path@, '/') + 1)
}

/// A catalog entry whose name is the last component of its path.
pub open spec fn entry_consistent(e: FsEntry) -> bool {
    &&& e.path@.len() > 0
    &&& e.name@ == e.path@.skip(crate::text::last_index_of(e.path@, '/') + 1)
}

/// Every catalog entry is the image of a kept entry of the listing.
proof fn lemma_catalog_source_at(raw: Seq<RawEntry>, t: int)
    requires
        0 <= t < catalog_of(raw).len(),
    ensures
        exists|i: int|
            0 <= i < raw.len() && included(raw[i]) && catalog_of(raw)[t] == entry_of(raw[i]),
    decreases raw.len(),
{
    let rest = catalog_of(raw.drop_last());
    if t < rest.len() {
        lemma_catalog_source_at(raw.drop_last(), t);
        let i = choose|i: int|
            0 <= i < raw.drop_last().len() && included(raw.drop_last()[i]) && rest[t] == entry_of(
                raw.drop_last()[i],
            );
        assert(raw.drop_last()[i] == raw[i]);
        assert(catalog_of(raw)[t] == rest[t]);
        assert(0 <= i < raw.len() && included(raw[i]) && catalog_of(raw)[t] == entry_of(raw[i]));
    } else {
        assert(included(raw.last()));
        let w = raw.len() - 1;
        assert(0 <= w < raw.len() && included(raw[w]) && catalog_of(raw)[t] == entry_of(raw[w]));
    }
}

/// Distinct listing paths give distinct catalog paths.
proof fn lemma_catalog_distinct(raw: Seq<RawEntry>)
    requires
        rel_paths_distinct(raw),
    ensures
        entry_paths_distinct(catalog_of(raw)),
    decreases raw.len(),
{
    if raw.len() > 0 {
        assert(forall|t: int| 0 <= t < raw.len() - 1 ==> raw.drop_last()[t] == raw[t]);
        assert(rel_paths_distinct(raw.drop_last()));
        lemma_catalog_distinct(raw.drop_last());
        let rest = catalog_of(raw.drop_last());
        if included(raw.last()) {
            assert forall|t: int| 0 <= t < rest.len() implies rest[t].path@ != raw[raw.len()
                - 1].rel_path@ by {
                lemma_catalog_source_at(raw.drop_last(), t);
                let i = choose|i: int|
                    0 <= i < raw.drop_last().len() && included(raw.drop_last()[i]) && rest[t]
                        == entry_of(raw.drop_last()[i]);
                assert(raw.drop_last()[i] == raw[i]);
                assert(raw[i].rel_path@ != raw[raw.len() - 1].rel_path@);
            }
            let whole = catalog_of(raw);
            assert forall|m: int, n: int| 0 <= m < n < whole.len() implies #[trigger] whole[m].path@
                != #[trigger] whole[n].path@ by {
                if n < rest.len() {
                    assert(whole[m] == rest[m]);
                    assert(whole[n] == rest[n]);
                } else {
                    assert(whole[m] == rest[m]);
                    assert(whole[n] == entry_of(raw[raw.len() - 1]));
                }
            }
        }
    }
}

/// Builds the catalog for the active root from a raw recursive listing.
///
/// A root that does not exist yields an empty catalog, not an error:
/// switching to a root that has not been created yet is a valid transient
/// state. Otherwise the result holds exactly the kept entries of the
/// listing, sorted ascending by relative path. On a listing with distinct
/// relative paths, as a real traversal yields, the entry paths are distinct
/// too, so the order is strict and repeated calls on an unchanged listing
/// agree; and where the listing names entries consistently, each entry's
/// name is the last component of its path.
pub fn list_entries(root_exists: bool, raw: &Vec<RawEntry>) -> (es: Vec<FsEntry>)
    ensures
        !root_exists ==> es@ == Seq::<FsEntry>::empty(),
        root_exists ==> entries_sorted(es@) && es@.to_multiset() == catalog_of(raw@).to_multiset(),
        root_exists && rel_paths_distinct(raw@) ==> entry_paths_distinct(es@),
        root_exists && (forall|i: int| 0 <= i < raw@.len() ==> raw_entry_consistent(
            #[trigger] raw@[i],
        )) ==> forall|t: int| 0 <= t < es@.len() ==> entry_consistent(#[trigger] es@[t]),
{
    if !root_exists {
        let es: Vec<FsEntry> = Vec::new();
        proof {
            assert(es@ =~= Seq::<FsEntry>::empty());
        }
        return es;
    }
    let mut es = build_entries(raw);
    proof {
        if rel_paths_distinct(raw@) {
            lemma_catalog_distinct(raw@);
            assert forall|i: int, j: int| 0 <= i < j < es@.len() implies #[trigger] es@[i].key()
                != #[trigger] es@[j].key() by {
                assert(es@[i].path@ != es@[j].path@);
            }
            assert(keys_distinct(es@));
        }
    }
    let ghost catalog = es@;
    sort_by_key(&mut es);
    proof {
        assert forall|i: int, j: int| 0 <= i < j < es@.len() implies lex_le(
            #[trigger] es@[i].path@,
            #[trigger] es@[j].path@,
        ) by {
            assert(lex_le(es@[i].key(), es@[j].key()));
        }
        assert(entries_sorted(es@));
        if rel_paths_distinct(raw@) {
            assert forall|i: int, j: int| 0 <= i < j < es@.len() implies #[trigger] es@[i].path@
                != #[trigger] es@[j].path@ by {
                assert(es@[i].key() != es@[j].key());
            }
            assert(entry_paths_distinct(es@));
        }
        if forall|i: int| 0 <= i < raw@.len() ==> raw_entry_consistent(#[trigger] raw@[i]) {
            assert forall|t: int| 0 <= t < es@.len() implies entry_consistent(
                #[trigger] es@[t],
            ) by {
                assert(catalog.contains(es@[t]));
                let c = choose|c: int| 0 <= c < catalog.len() && catalog[c] == es@[t];
                assert(catalog[c] == catalog_of(raw@)[c]);
                lemma_catalog_source_at(raw@, c);
                let i = choose|i: int|
                    0 <= i < raw@.len() && included(raw@[i]) && catalog[c] == entry_of(raw@[i]);
                assert(raw_entry_consistent(raw@[i]));
            }
        }
    }
    es
}

/// Combines the active root descriptor with the catalog of its listing into
/// one snapshot.
pub fn snapshot_from_state(root: FsRootInfo, root_exists: bool, raw: &Vec<RawEntry>) -> (s:
    FsSnapshot)
    ensures
        s.root == root,
        !root_exists ==> s.entries@ == Seq::<FsEntry>::empty(),
        root_exists ==> entries_sorted(s.entries@) && s.entries@.to_multiset() == catalog_of(
            raw@,
        ).to_multiset(),
        root_exists && rel_paths_distinct(raw@) ==> entry_paths_distinct(s.entries@),
        root_exists && (forall|i: int| 0 <= i < raw@.len() ==> raw_entry_consistent(
            #[trigger] raw@[i],
        )) ==> forall|t: int| 0 <= t < s.entries@.len() ==> entry_consistent(
            #[trigger] s.entries@[t],
        ),
{
    let entries = list_entries(root_exists, raw);
    FsSnapshot { root, entries }
}

} // verus!
