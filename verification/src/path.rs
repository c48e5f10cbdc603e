//! Install locations and material file paths as plain text.
//!
//! Targets are Windows install trees, so both `/` and `\` separate path
//! segments, and `\` is the separator the library writes.

use vstd::prelude::*;
use crate::text::{chars_of, contains, contains_text, lower, text_of, to_ascii_lower};

verus! {

/// How a target tree can be written to.
#[derive(Clone, Copy, Debug, PartialEq, Eq, Structural)]
pub enum ProtectionLevel {
    /// Ordinary user-writable storage.
    Open,
    /// Inside the OS-managed, signature-verified package store.
    Protected,
}

/// The directory name that marks the package store.
pub open spec fn store_marker() -> Seq<char> {
    "windowsapps"@
}

/// The protection level of an install location: `Protected` exactly when
/// the location, with ASCII capitals lowered, names the package store.
pub open spec fn protection_of(location: Seq<char>) -> ProtectionLevel {
    if contains_text(lower(location), store_marker()) {
        ProtectionLevel::Protected
    } else {
        ProtectionLevel::Open
    }
}

/// Computes [`protection_of`].
pub fn classify(install_location: &str) -> (level: ProtectionLevel)
    ensures
        level == protection_of(install_location@),
{
    let lowered = to_ascii_lower(install_location);
    if contains(lowered.as_str(), "windowsapps") {
        ProtectionLevel::Protected
    } else {
        ProtectionLevel::Open
    }
}

/// Whether an install location lies outside the package store.
pub fn is_sideloaded(install_location: &str) -> (r: bool)
    ensures
        r == (protection_of(install_location@) == ProtectionLevel::Open),
{
    match classify(install_location) {
        ProtectionLevel::Open => true,
        ProtectionLevel::Protected => false,
    }
}

/// Whether `c` separates path segments.
pub open spec fn is_separator(c: char) -> bool {
    c == '/' || c == '\\'
}

/// The position just after the last separator of `path`, or 0 where it has
/// none.
pub open spec fn name_start(path: Seq<char>) -> int
    decreases path.len(),
{
    if path.len() == 0 {
        0
    } else if is_separator(path.last()) {
        path.len() as int
    } else {
        name_start(path.drop_last())
    }
}

/// What follows the last separator of `path`.
pub open spec fn last_segment(path: Seq<char>) -> Seq<char> {
    path.subrange(name_start(path), path.len() as int)
}

/// The file name of `path`: its last segment, unless that is empty, `.` or
/// `..`.
pub open spec fn file_name_of(path: Seq<char>) -> Option<Seq<char>> {
    let name = last_segment(path);
    if name.len() == 0 || name == seq!['.'] || name == seq!['.', '.'] {
        None
    } else {
        Some(name)
    }
}

/// `name_start` lies within the path, nothing after it is a separator, and
/// the character before it is one.
pub proof fn lemma_name_start(path: Seq<char>)
    ensures
        0 <= name_start(path) <= path.len(),
        forall|j: int| name_start(path) <= j < path.len() ==> !is_separator(path[j]),
        name_start(path) > 0 ==> is_separator(path[name_start(path) - 1]),
    decreases path.len(),
{
    if path.len() > 0 && !is_separator(path.last()) {
        let front = path.drop_last();
        lemma_name_start(front);
        assert forall|j: int| name_start(path) <= j < path.len() implies !is_separator(
            path[j],
        ) by {
            if j < front.len() {
                assert(path[j] == front[j]);
            }
        }
        if name_start(path) > 0 {
            assert(path[name_start(path) - 1] == front[name_start(front) - 1]);
        }
    }
}

/// A position with the two properties of [`lemma_name_start`] is
/// `name_start`.
pub proof fn lemma_name_start_unique(path: Seq<char>, at: int)
    requires
        0 <= at <= path.len(),
        forall|j: int| at <= j < path.len() ==> !is_separator(path[j]),
        at > 0 ==> is_separator(path[at - 1]),
    ensures
        name_start(path) == at,
{
    lemma_name_start(path);
    let found = name_start(path);
    if found < at {
        assert(is_separator(path[at - 1]));
    } else if found > at {
        assert(is_separator(path[found - 1]));
    }
}

/// Computes [`file_name_of`].
pub fn file_name(path: &str) -> (name: Option<String>)
    ensures
        match name {
            Some(n) => file_name_of(path@) == Some(n@),
            None => file_name_of(path@) is None,
        },
{
    let p = chars_of(path);
    let mut at: usize = p.len();
    while at > 0 && !(p[at - 1] == '/' || p[at - 1] == '\\')
        invariant
            at <= p.len(),
            forall|j: int| at <= j < p.len() ==> !is_separator(p@[j]),
        decreases at,
    {
        at = at - 1;
    }
    proof {
        lemma_name_start_unique(p@, at as int);
    }
    let mut tail: Vec<char> = Vec::new();
    let mut i: usize = at;
    while i < p.len()
        invariant
            at <= i <= p.len(),
            tail@ == p@.subrange(at as int, i as int),
        decreases p.len() - i,
    {
        tail.push(p[i]);
        i = i + 1;
    }
    let is_dot = tail.len() == 1 && tail[0] == '.';
    let is_dots = tail.len() == 2 && tail[0] == '.' && tail[1] == '.';
    proof {
        assert(is_dot == (tail@ =~= seq!['.']));
        assert(is_dots == (tail@ =~= seq!['.', '.']));
    }
    if tail.len() == 0 || is_dot || is_dots {
        None
    } else {
        Some(text_of(&tail))
    }
}

/// `base` followed by the relative segment `name`, with one `\` between
/// them unless `base` is empty or already ends in a separator.
pub open spec fn joined_path(base: Seq<char>, name: Seq<char>) -> Seq<char> {
    if base.len() == 0 {
        name
    } else if is_separator(base.last()) {
        base + name
    } else {
        base.push('\\') + name
    }
}

/// Computes [`joined_path`].
pub fn join_path(base: &str, name: &str) -> (out: String)
    ensures
        out@ == joined_path(base@, name@),
{
    let b = chars_of(base);
    let mut out = String::new();
    out.append(base);
    if b.len() > 0 && !(b[b.len() - 1] == '/' || b[b.len() - 1] == '\\') {
        out.append("\\");
        proof {
            reveal_strlit("\\");
            assert("\\"@ =~= seq!['\\']);
        }
    }
    out.append(name);
    out
}

/// The directory under an install location that holds the renderer's
/// material files: `data\renderer\materials`.
pub open spec fn materials_dir_of(location: Seq<char>) -> Seq<char> {
    joined_path(joined_path(joined_path(location, "data"@), "renderer"@), "materials"@)
}

/// Computes [`materials_dir_of`].
pub fn materials_dir(install_location: &str) -> (out: String)
    ensures
        out@ == materials_dir_of(install_location@),
{
    let data = join_path(install_location, "data");
    let renderer = join_path(data.as_str(), "renderer");
    join_path(renderer.as_str(), "materials")
}

/// The position of the last `.` of a file name, or -1 where it has none.
pub open spec fn last_dot(name: Seq<char>) -> int
    decreases name.len(),
{
    if name.len() == 0 {
        -1
    } else if name.last() == '.' {
        name.len() - 1
    } else {
        last_dot(name.drop_last())
    }
}

/// The stem of a file name: what stands before its last `.`, or the whole
/// name where it has no `.` or only the one it begins with.
pub open spec fn stem_of_name(name: Seq<char>) -> Seq<char> {
    if last_dot(name) <= 0 {
        name
    } else {
        name.subrange(0, last_dot(name))
    }
}

/// The extension of a file name: what follows its last `.`, if it has one
/// that it does not begin with.
pub open spec fn extension_of_name(name: Seq<char>) -> Option<Seq<char>> {
    if last_dot(name) <= 0 {
        None
    } else {
        Some(name.subrange(last_dot(name) + 1, name.len() as int))
    }
}

/// The stem of the file name of `path`.
pub open spec fn file_stem_of(path: Seq<char>) -> Option<Seq<char>> {
    match file_name_of(path) {
        Some(name) => Some(stem_of_name(name)),
        None => None,
    }
}

/// The extension of the file name of `path`.
pub open spec fn extension_of(path: Seq<char>) -> Option<Seq<char>> {
    match file_name_of(path) {
        Some(name) => extension_of_name(name),
        None => None,
    }
}

/// A position that holds a `.` with none after it is [`last_dot`]; so is
/// -1 where there is no `.` at all.
pub proof fn lemma_last_dot_unique(name: Seq<char>, at: int)
    requires
        -1 <= at < name.len(),
        at >= 0 ==> name[at] == '.',
        forall|j: int| at < j < name.len() ==> name[j] != '.',
    ensures
        last_dot(name) == at,
    decreases name.len(),
{
    if name.len() > 0 && name.last() != '.' {
        let front = name.drop_last();
        assert forall|j: int| at < j < front.len() implies front[j] != '.' by {
            assert(front[j] == name[j]);
        }
        if at >= 0 {
            assert(front[at] == name[at]);
        }
        lemma_last_dot_unique(front, at);
    }
}

/// Splits the file name of `path` at its last `.` into stem and extension.
pub fn stem_and_extension(path: &str) -> (r: Option<(String, Option<String>)>)
    ensures
        match r {
            Some((stem, ext)) => file_stem_of(path@) == Some(stem@) && match ext {
                Some(e) => extension_of(path@) == Some(e@),
                None => extension_of(path@) is None,
            },
            None => file_name_of(path@) is None,
        },
{
    let name = match file_name(path) {
        Some(name) => chars_of(name.as_str()),
        None => {
            return None;
        },
    };
    let mut at: usize = name.len();
    while at > 0 && name[at - 1] != '.'
        invariant
            at <= name.len(),
            forall|j: int| at <= j < name.len() ==> name@[j] != '.',
        decreases at,
    {
        at = at - 1;
    }
    proof {
        lemma_last_dot_unique(name@, at - 1);
    }
    if at <= 1 {
        return Some((text_of(&name), None));
    }
    let mut stem = String::new();
    let mut i: usize = 0;
    while i < at - 1
        invariant
            1 < at <= name.len(),
            i <= at - 1,
            stem@ == name@.subrange(0, i as int),
        decreases at - 1 - i,
    {
        crate::text::push_char(&mut stem, name[i]);
        i = i + 1;
    }
    let mut ext = String::new();
    let mut k: usize = at;
    while k < name.len()
        invariant
            at <= k <= name.len(),
            ext@ == name@.subrange(at as int, k as int),
        decreases name.len() - k,
    {
        crate::text::push_char(&mut ext, name[k]);
        k = k + 1;
    }
    Some((stem, Some(ext)))
}

} // verus!
