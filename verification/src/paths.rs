//! Path sandboxing. A caller-supplied relative path is joined under the
//! active root only after purely syntactic checks: it must be non-blank, not
//! absolute, and free of parent-directory (`..`) components. No
//! canonicalization is performed; escaping through symlinks inside the root
//! is a documented boundary of this layer, not defended against here.
//!
//! Paths follow the `/`-separated convention throughout.
use vstd::prelude::*;
use vstd::string::StrSliceExecFns;
use vstd::string::StringExecFns;

use crate::errors::FsError;
use crate::text::find_last;
use crate::text::last_index_of;
use crate::text::lemma_last_index_of;

verus! {

/// The whitespace characters a blank path may consist of: the Unicode
/// `White_Space` set (tab through carriage return, space, next line,
/// no-break space, ogham space mark, the en-quad to hair-space range, the
/// line and paragraph separators, narrow no-break space, medium
/// mathematical space, and ideographic space).
pub open spec fn is_space(c: char) -> bool {
    let v = c as u32;
    ||| (9 <= v && v <= 13)
    ||| v == 32
    ||| v == 0x85
    ||| v == 0xa0
    ||| v == 0x1680
    ||| (0x2000 <= v && v <= 0x200a)
    ||| v == 0x2028
    ||| v == 0x2029
    ||| v == 0x202f
    ||| v == 0x205f
    ||| v == 0x3000
}

/// Whether the character is whitespace.
fn is_space_char(c: char) -> (r: bool)
    ensures
        r == is_space(c),
{
    let v = c as u32;
    (9 <= v && v <= 13) || v == 32 || v == 0x85 || v == 0xa0 || v == 0x1680 || (0x2000 <= v && v
        <= 0x200a) || v == 0x2028 || v == 0x2029 || v == 0x202f || v == 0x205f || v == 0x3000
}

/// A path string that holds no visible character at all (the empty string
/// included).
pub open spec fn spec_blank(s: Seq<char>) -> bool {
    forall|i: int| 0 <= i < s.len() ==> is_space(s[i])
}

/// An absolute path under this library's fixed POSIX path convention: one
/// that starts with the separator. The library commits to `/`-separated
/// paths throughout; on a host with another convention (drive letters,
/// backslashes), the shell around the library must normalize or refuse
/// host-absolute paths before they reach `resolve_path`, which checks this
/// predicate and no host-specific one.
pub open spec fn spec_absolute(s: Seq<char>) -> bool {
    s.len() > 0 && s[0] == '/'
}

/// Position `i` starts a path component that is exactly `..`: two dots
/// delimited by separators or the ends of the string.
pub open spec fn dotdot_at(s: Seq<char>, i: int) -> bool {
    &&& 0 <= i
    &&& i + 2 <= s.len()
    &&& s[i] == '.'
    &&& s[i + 1] == '.'
    &&& (i == 0 || s[i - 1] == '/')
    &&& (i + 2 == s.len() || s[i + 2] == '/')
}

/// Whether any component of the path is a parent-directory reference.
pub open spec fn has_parent_component(s: Seq<char>) -> bool {
    exists|i: int| dotdot_at(s, i)
}

/// Position `i` starts a path component whose first character is `.`.
pub open spec fn dot_component_at(s: Seq<char>, i: int) -> bool {
    &&& 0 <= i < s.len()
    &&& s[i] == '.'
    &&& (i == 0 || s[i - 1] == '/')
}

/// Whether the relative path names a hidden entry or one below a hidden
/// directory: some component starts with `.`.
pub open spec fn spec_hidden_rel(s: Seq<char>) -> bool {
    exists|i: int| dot_component_at(s, i)
}

/// An entry name that the catalog hides: its first character is `.`.
pub open spec fn spec_is_hidden(name: Seq<char>) -> bool {
    name.len() > 0 && name[0] == '.'
}

/// The root and a relative path joined with a single separator.
pub open spec fn joined(root: Seq<char>, relative: Seq<char>) -> Seq<char> {
    root + seq!['/'] + relative
}

/// A relative path that `resolve_path` accepts.
pub open spec fn resolve_ok(relative: Seq<char>) -> bool {
    !spec_blank(relative) && !spec_absolute(relative) && !has_parent_component(relative)
}

/// The error with which `resolve_path` refuses a relative path.
pub open spec fn spec_resolve_err(relative: Seq<char>) -> FsError {
    if spec_blank(relative) || spec_absolute(relative) {
        FsError::InvalidPath
    } else {
        FsError::PathEscape
    }
}

/// The Unicode scalar value of `c`, ASCII upper case folded to lower case.
pub open spec fn lower_scalar(c: char) -> u32 {
    if 65 <= c as u32 <= 90 {
        (c as u32 + 32) as u32
    } else {
        c as u32
    }
}

/// An extension that reads `md` ignoring ASCII case.
pub open spec fn is_md_ext(e: Seq<char>) -> bool {
    e.len() == 2 && lower_scalar(e[0]) == 'm' as u32 && lower_scalar(e[1]) == 'd' as u32
}

/// An extension that reads `markdown` ignoring ASCII case.
pub open spec fn is_markdown_ext(e: Seq<char>) -> bool {
    &&& e.len() == 8
    &&& lower_scalar(e[0]) == 'm' as u32
    &&& lower_scalar(e[1]) == 'a' as u32
    &&& lower_scalar(e[2]) == 'r' as u32
    &&& lower_scalar(e[3]) == 'k' as u32
    &&& lower_scalar(e[4]) == 'd' as u32
    &&& lower_scalar(e[5]) == 'o' as u32
    &&& lower_scalar(e[6]) == 'w' as u32
    &&& lower_scalar(e[7]) == 'n' as u32
}

/// A file name with a markdown extension: the part after the last dot reads
/// `md` or `markdown` ignoring ASCII case. A name whose only dot is its
/// leading character (such as `.md`) has no extension at all.
pub open spec fn spec_is_markdown(name: Seq<char>) -> bool {
    let j = last_index_of(name, '.');
    j >= 1 && (is_md_ext(name.skip(j + 1)) || is_markdown_ext(name.skip(j + 1)))
}

/// Whether the entry name is hidden: its first character is `.`.
pub fn is_hidden(name: &str) -> (r: bool)
    ensures
        r == spec_is_hidden(name@),
{
    if name.unicode_len() == 0 {
        false
    } else {
        name.get_char(0) == '.'
    }
}

/// Whether some component of the relative path starts with `.`, so that the
/// catalog skips the entry and everything below it.
pub fn rel_is_hidden(rel: &str) -> (r: bool)
    ensures
        r == spec_hidden_rel(rel@),
{
    let len = rel.unicode_len();
    let mut i: usize = 0;
    while i < len
        invariant
            i <= len,
            len == rel@.len(),
            forall|j: int| 0 <= j < i ==> !dot_component_at(rel@, j),
        decreases len - i,
    {
        if rel.get_char(i) == '.' && (i == 0 || rel.get_char(i - 1) == '/') {
            proof {
                assert(dot_component_at(rel@, i as int));
            }
            return true;
        }
        i = i + 1;
    }
    false
}

/// The ASCII-lowered scalar value of `c`.
fn lower(c: char) -> (r: u32)
    ensures
        r == lower_scalar(c),
{
    let v = c as u32;
    if 65 <= v && v <= 90 {
        v + 32
    } else {
        v
    }
}

/// Whether the file name carries a markdown extension (`md` or `markdown`,
/// ASCII case ignored).
pub fn is_markdown(name: &str) -> (r: bool)
    ensures
        r == spec_is_markdown(name@),
{
    let len = name.unicode_len();
    proof {
        lemma_last_index_of(name@, '.');
    }
    match find_last(name, '.') {
        None => false,
        Some(j) => {
            if j == 0 {
                false
            } else {
                let ext_len = len - (j + 1);
                let ghost ext = name@.skip(j + 1);
                proof {
                    assert(ext.len() == ext_len);
                    assert(forall|k: int|
                        0 <= k < ext.len() ==> ext[k] == name@[j + 1 + k]);
                }
                if ext_len == 2 {
                    lower(name.get_char(j + 1)) == 109 && lower(name.get_char(j + 2)) == 100
                } else if ext_len == 8 {
                    lower(name.get_char(j + 1)) == 109 && lower(name.get_char(j + 2)) == 97
                        && lower(name.get_char(j + 3)) == 114 && lower(name.get_char(j + 4)) == 107
                        && lower(name.get_char(j + 5)) == 100 && lower(name.get_char(j + 6)) == 111
                        && lower(name.get_char(j + 7)) == 119 && lower(name.get_char(j + 8)) == 110
                } else {
                    false
                }
            }
        },
    }
}

/// Whether the path is blank: empty or whitespace only.
fn is_blank(s: &str) -> (r: bool)
    ensures
        r == spec_blank(s@),
{
    let len = s.unicode_len();
    let mut i: usize = 0;
    while i < len
        invariant
            i <= len,
            len == s@.len(),
            forall|j: int| 0 <= j < i ==> is_space(s@[j]),
        decreases len - i,
    {
        if !is_space_char(s.get_char(i)) {
            return false;
        }
        i = i + 1;
    }
    true
}

/// Whether any component of the path is exactly `..`.
fn has_dotdot(s: &str) -> (r: bool)
    ensures
        r == has_parent_component(s@),
{
    let len = s.unicode_len();
    let mut i: usize = 0;
    while i < len
        invariant
            i <= len,
            len == s@.len(),
            forall|j: int| 0 <= j < i ==> !dotdot_at(s@, j),
        decreases len - i,
    {
        if i + 1 < len && s.get_char(i) == '.' && s.get_char(i + 1) == '.' && (i == 0
            || s.get_char(i - 1) == '/') && (i + 2 == len || s.get_char(i + 2) == '/') {
            proof {
                assert(dotdot_at(s@, i as int));
            }
            return true;
        }
        i = i + 1;
    }
    false
}

/// Joins the root and a relative path with a single separator.
pub fn join_path(root: &str, relative: &str) -> (r: String)
    ensures
        r@ == joined(root@, relative@),
{
    let r = String::from_str(root).concat("/").concat(relative);
    proof {
        reveal_strlit("/");
        assert("/"@ =~= seq!['/']);
        assert(r@ =~= joined(root@, relative@));
    }
    r
}

/// Maps a caller-supplied relative path to its place under the root.
///
/// Refuses a blank or absolute path with `InvalidPath` and any path holding
/// a `..` component, wherever it stands, with `PathEscape`; these checks are
/// purely syntactic and precede the join. On success returns the root joined
/// with the path, not otherwise validated for existence. No side effects.
/// Absoluteness means `spec_absolute`: the library's fixed `/` convention,
/// not a host-probed one (see there).
pub fn resolve_path(root: &str, relative: &str) -> (r: Result<String, FsError>)
    ensures
        match r {
            Ok(p) => resolve_ok(relative@) && p@ == joined(root@, relative@),
            Err(e) => !resolve_ok(relative@) && e == spec_resolve_err(relative@),
        },
{
    if is_blank(relative) {
        return Err(FsError::InvalidPath);
    }
    if relative.unicode_len() > 0 && relative.get_char(0) == '/' {
        return Err(FsError::InvalidPath);
    }
    proof {
        assert(!spec_absolute(relative@));
    }
    if has_dotdot(relative) {
        return Err(FsError::PathEscape);
    }
    Ok(join_path(root, relative))
}

/// A relative path holding a parent-traversal component is refused as an
/// escape, at whatever depth or position the component stands.
pub proof fn lemma_parent_component_refused(relative: Seq<char>)
    requires
        !spec_absolute(relative),
        has_parent_component(relative),
    ensures
        !resolve_ok(relative),
        spec_resolve_err(relative) == FsError::PathEscape,
{
    let i = choose|i: int| dotdot_at(relative, i);
    assert(relative[i] == '.');
    assert(!is_space(relative[i]));
    assert(!spec_blank(relative));
}

/// An absolute path is refused outright.
pub proof fn lemma_absolute_refused(relative: Seq<char>)
    requires
        spec_absolute(relative),
    ensures
        !resolve_ok(relative),
        spec_resolve_err(relative) == FsError::InvalidPath,
{
}

/// Distinct relative paths resolve to distinct places under the same root.
pub proof fn lemma_joined_injective(root: Seq<char>, a: Seq<char>, b: Seq<char>)
    requires
        a != b,
    ensures
        joined(root, a) != joined(root, b),
{
    assert(joined(root, a).skip(root.len() as int + 1) =~= a);
    assert(joined(root, b).skip(root.len() as int + 1) =~= b);
}

/// The prefix of the path before its last separator.
pub open spec fn spec_parent(s: Seq<char>) -> Seq<char> {
    s.take(last_index_of(s, '/'))
}

/// The directory part of a path that holds a separator, as `resolve_path`'s
/// results always do.
pub fn parent_dir(s: &str) -> (r: String)
    requires
        last_index_of(s@, '/') >= 0,
    ensures
        r@ == spec_parent(s@),
{
    proof {
        lemma_last_index_of(s@, '/');
    }
    match find_last(s, '/') {
        Some(j) => {
            let p = s.substring_char(0, j);
            proof {
                assert(p@ =~= spec_parent(s@));
            }
            String::from_str(p)
        },
        None => String::new(),
    }
}

} // verus!
