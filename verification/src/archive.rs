//! Names inside package archives.
//!
//! A package is an archive of material files. Reading and writing the
//! archive is the caller's business; what each entry name means is decided
//! here.

use vstd::prelude::*;
use crate::path::{join_path, joined_path};
use crate::text::{ends_with, has_suffix, replace_char, replaced};

verus! {

/// What an entry of an archive is unpacked as.
#[derive(Debug, PartialEq, Eq)]
pub enum Unpacked {
    /// A directory to create at `path`.
    Directory { path: String },
    /// A file to write at `path`.
    File { path: String },
}

/// What an [`Unpacked`] holds, as text.
pub enum UnpackedView {
    Directory { path: Seq<char> },
    File { path: Seq<char> },
}

impl View for Unpacked {
    type V = UnpackedView;

    open spec fn view(&self) -> UnpackedView {
        match self {
            Unpacked::Directory { path } => UnpackedView::Directory { path: path@ },
            Unpacked::File { path } => UnpackedView::File { path: path@ },
        }
    }
}

/// What the entry `name` is unpacked as under `out_dir`: a directory where
/// the name ends in `/`, a file otherwise, at the name joined to the
/// directory.
pub open spec fn unpacked_as(out_dir: Seq<char>, name: Seq<char>) -> UnpackedView {
    if has_suffix(name, "/"@) {
        UnpackedView::Directory { path: joined_path(out_dir, name) }
    } else {
        UnpackedView::File { path: joined_path(out_dir, name) }
    }
}

/// Computes [`unpacked_as`].
pub fn unpack_entry(out_dir: &str, name: &str) -> (r: Unpacked)
    ensures
        r@ == unpacked_as(out_dir@, name@),
{
    let path = join_path(out_dir, name);
    if ends_with(name, "/") {
        Unpacked::Directory { path }
    } else {
        Unpacked::File { path }
    }
}

/// The name under which a path below the packed directory enters the
/// archive: the path relative to that directory with `/` for every `\`,
/// and a `/` at the end for a directory. The packed directory itself,
/// whose relative path is empty, gets no entry.
pub open spec fn entry_name_of(relative: Seq<char>, is_file: bool) -> Option<Seq<char>> {
    if is_file {
        Some(replaced(relative, '\\', "/"@))
    } else if replaced(relative, '\\', "/"@).len() > 0 {
        Some(replaced(relative, '\\', "/"@) + "/"@)
    } else {
        None
    }
}

/// Computes [`entry_name_of`].
pub fn entry_name(relative: &str, is_file: bool) -> (r: Option<String>)
    ensures
        match r {
            Some(name) => entry_name_of(relative@, is_file) == Some(name@),
            None => entry_name_of(relative@, is_file) is None,
        },
{
    let mut name = replace_char(relative, '\\', "/");
    if is_file {
        Some(name)
    } else if name.as_str().unicode_len() > 0 {
        name.append("/");
        Some(name)
    } else {
        None
    }
}

} // verus!
