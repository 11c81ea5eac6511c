//! The stateless markdown scanner: lists the markdown files below an
//! arbitrary given directory, from a raw recursive listing. Unlike the
//! workspace catalog it keeps hidden entries and reports files only, sorted
//! ascending by relative path. It shares no state with the workspace.
use vstd::prelude::*;

use crate::models::MarkdownFile;
use crate::models::RawEntry;
use crate::paths::is_markdown;
use crate::paths::spec_is_markdown;
use crate::sort::keys_distinct;
use crate::sort::sort_by_key;
use crate::sort::SortKey;
use crate::text::lex_le;

verus! {

/// Whether the scanner reports the raw entry: a file with a markdown
/// extension, hidden or not.
pub open spec fn markdown_included(r: RawEntry) -> bool {
    !r.is_dir && spec_is_markdown(r.name@)
}

/// The record a reported file becomes: its absolute and its root-relative
/// path.
pub open spec fn markdown_of(r: RawEntry) -> MarkdownFile {
    MarkdownFile { path: r.path, relative_path: r.rel_path }
}

/// The reported files of a raw listing, still in listing order.
pub open spec fn markdown_files_of(raw: Seq<RawEntry>) -> Seq<MarkdownFile>
    decreases raw.len(),
{
    if raw.len() == 0 {
        Seq::empty()
    } else {
        let rest = markdown_files_of(raw.drop_last());
        if markdown_included(raw.last()) {
            rest.push(markdown_of(raw.last()))
        } else {
            rest
        }
    }
}

/// Files in ascending order of relative path.
pub open spec fn markdown_sorted(fs: Seq<MarkdownFile>) -> bool {
    forall|i: int, j: int|
        0 <= i < j < fs.len() ==> lex_le(fs[i].relative_path@, fs[j].relative_path@)
}

/// Pairwise-distinct relative paths in a raw listing.
pub open spec fn scan_rel_paths_distinct(raw: Seq<RawEntry>) -> bool {
    forall|i: int, j: int| 0 <= i < j < raw.len() ==> raw[i].rel_path@ != raw[j].rel_path@
}

/// Pairwise-distinct relative paths among the reported files.
pub open spec fn markdown_paths_distinct(fs: Seq<MarkdownFile>) -> bool {
    forall|i: int, j: int| 0 <= i < j < fs.len() ==> fs[i].relative_path@ != fs[j].relative_path@
}

impl SortKey for MarkdownFile {
    /// A scanned file is ordered by its relative path.
    open spec fn key(&self) -> Seq<char> {
        self.relative_path@
    }

    fn key_str(&self) -> (r: &str) {
        self.relative_path.as_str()
    }
}

/// Every reported file is the image of a kept entry of the listing.
proof fn lemma_markdown_source_at(raw: Seq<RawEntry>, t: int)
    requires
        0 <= t < markdown_files_of(raw).len(),
    ensures
        exists|i: int|
            0 <= i < raw.len() && markdown_included(raw[i]) && markdown_files_of(raw)[t]
                == markdown_of(raw[i]),
    decreases raw.len(),
{
    let rest = markdown_files_of(raw.drop_last());
    if t < rest.len() {
        lemma_markdown_source_at(raw.drop_last(), t);
        let i = choose|i: int|
            0 <= i < raw.drop_last().len() && markdown_included(raw.drop_last()[i]) && rest[t]
                == markdown_of(raw.drop_last()[i]);
        assert(raw.drop_last()[i] == raw[i]);
        assert(markdown_files_of(raw)[t] == rest[t]);
        assert(0 <= i < raw.len() && markdown_included(raw[i]) && markdown_files_of(raw)[t]
            == markdown_of(raw[i]));
    } else {
        assert(markdown_included(raw.last()));
        let w = raw.len() - 1;
        assert(0 <= w < raw.len() && markdown_included(raw[w]) && markdown_files_of(raw)[t]
            == markdown_of(raw[w]));
    }
}

/// Distinct listing paths give distinct reported paths.
proof fn lemma_markdown_distinct(raw: Seq<RawEntry>)
    requires
        scan_rel_paths_distinct(raw),
    ensures
        markdown_paths_distinct(markdown_files_of(raw)),
    decreases raw.len(),
{
    if raw.len() > 0 {
        assert(forall|t: int| 0 <= t < raw.len() - 1 ==> raw.drop_last()[t] == raw[t]);
        assert(scan_rel_paths_distinct(raw.drop_last()));
        lemma_markdown_distinct(raw.drop_last());
        let rest = markdown_files_of(raw.drop_last());
        if markdown_included(raw.last()) {
            assert forall|t: int| 0 <= t < rest.len() implies rest[t].relative_path@
                != raw[raw.len() - 1].rel_path@ by {
                lemma_markdown_source_at(raw.drop_last(), t);
                let i = choose|i: int|
                    0 <= i < raw.drop_last().len() && markdown_included(raw.drop_last()[i])
                        && rest[t] == markdown_of(raw.drop_last()[i]);
                assert(raw.drop_last()[i] == raw[i]);
                assert(raw[i].rel_path@ != raw[raw.len() - 1].rel_path@);
            }
            let whole = markdown_files_of(raw);
            assert forall|m: int, n: int| 0 <= m < n < whole.len() implies
                #[trigger] whole[m].relative_path@ != #[trigger] whole[n].relative_path@ by {
                if n < rest.len() {
                    assert(whole[m] == rest[m]);
                    assert(whole[n] == rest[n]);
                } else {
                    assert(whole[m] == rest[m]);
                    assert(whole[n] == markdown_of(raw[raw.len() - 1]));
                }
            }
        }
    }
}

/// Keeps and converts the raw entries, in listing order.
fn collect_markdown_files(raw: &Vec<RawEntry>) -> (fs: Vec<MarkdownFile>)
    ensures
        fs@ == markdown_files_of(raw@),
{
    let mut fs: Vec<MarkdownFile> = Vec::new();
    let mut i: usize = 0;
    proof {
        assert(raw@.take(0) =~= Seq::<RawEntry>::empty());
    }
    while i < raw.len()
        invariant
            i <= raw@.len(),
            fs@ == markdown_files_of(raw@.take(i as int)),
        decreases raw@.len() - i,
    {
        let r = &raw[i];
        if !r.is_dir && is_markdown(r.name.as_str()) {
            fs.push(MarkdownFile { path: r.path.clone(), relative_path: r.rel_path.clone() });
        }
        proof {
            assert(raw@.take(i + 1).drop_last() =~= raw@.take(i as int));
            assert(raw@.take(i + 1).last() == raw@[i as int]);
        }
        i = i + 1;
    }
    proof {
        assert(raw@.take(raw@.len() as int) =~= raw@);
    }
    fs
}

/// Lists the markdown files of a raw recursive listing: exactly the files
/// with a markdown extension, sorted ascending by relative path. On a
/// listing with distinct relative paths, as a real traversal yields, the
/// reported paths are distinct too, so the order is strict and repeated
/// calls on an unchanged listing agree.
pub fn list_markdown_files(raw: &Vec<RawEntry>) -> (fs: Vec<MarkdownFile>)
    ensures
        markdown_sorted(fs@),
        fs@.to_multiset() == markdown_files_of(raw@).to_multiset(),
        scan_rel_paths_distinct(raw@) ==> markdown_paths_distinct(fs@),
{
    let mut fs = collect_markdown_files(raw);
    proof {
        if scan_rel_paths_distinct(raw@) {
            lemma_markdown_distinct(raw@);
            assert forall|i: int, j: int| 0 <= i < j < fs@.len() implies #[trigger] fs@[i].key()
                != #[trigger] fs@[j].key() by {
                assert(fs@[i].relative_path@ != fs@[j].relative_path@);
            }
            assert(keys_distinct(fs@));
        }
    }
    sort_by_key(&mut fs);
    proof {
        assert forall|i: int, j: int| 0 <= i < j < fs@.len() implies lex_le(
            #[trigger] fs@[i].relative_path@,
            #[trigger] fs@[j].relative_path@,
        ) by {
            assert(lex_le(fs@[i].key(), fs@[j].key()));
        }
        assert(markdown_sorted(fs@));
        if scan_rel_paths_distinct(raw@) {
            assert forall|i: int, j: int| 0 <= i < j < fs@.len() implies
                #[trigger] fs@[i].relative_path@ != #[trigger] fs@[j].relative_path@ by {
                assert(fs@[i].key() != fs@[j].key());
            }
            assert(markdown_paths_distinct(fs@));
        }
    }
    fs
}

} // verus!
