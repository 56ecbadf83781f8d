//! Decisions taken while walking a directory: what each listed entry is, and which
//! entries a name-based ignore list leaves out.

use vstd::prelude::*;

verus! {

/// What a directory listing tells about one entry, as plain values.
#[derive(Debug)]
pub struct EntryInfo {
    /// The entry's full path.
    pub path: String,
    /// The last component of the path.
    pub name: String,
    /// The path leads to a directory (following symbolic links).
    pub is_dir: bool,
    /// The entry itself is a symbolic link.
    pub is_symlink: bool,
    /// The path leads to a regular file (following symbolic links).
    pub is_file: bool,
}

/// How a walk treats an entry.
#[derive(Debug, PartialEq, Eq, Structural, Clone, Copy)]
pub enum EntryKind {
    /// Descend into it.
    Dir,
    /// Skip it: a link that does not lead to a directory.
    Symlink,
    /// Take it as a file.
    File,
    /// Neither: skip it.
    Other,
}

/// A directory comes first (also through a link), then a link, then a regular file.
pub open spec fn kind_of(e: EntryInfo) -> EntryKind {
    if e.is_dir {
        EntryKind::Dir
    } else if e.is_symlink {
        EntryKind::Symlink
    } else if e.is_file {
        EntryKind::File
    } else {
        EntryKind::Other
    }
}

/// How entries are taken, by what the listing tells: a directory (also through a
/// link) is descended into; a link that does not lead to a directory is skipped and
/// never taken as a file, whatever it leads to; a plain regular file is taken; an
/// entry that is none of these is skipped.
pub proof fn lemma_entry_kinds(e: EntryInfo)
    ensures
        e.is_dir <==> kind_of(e) == EntryKind::Dir,
        !e.is_dir && e.is_symlink <==> kind_of(e) == EntryKind::Symlink,
        kind_of(e) == EntryKind::File <==> (!e.is_dir && !e.is_symlink && e.is_file),
        kind_of(e) == EntryKind::Other <==> (!e.is_dir && !e.is_symlink && !e.is_file),
{
}

/// Classifies one listed entry.
pub fn classify(e: &EntryInfo) -> (k: EntryKind)
    ensures
        k == kind_of(*e),
        e.is_dir ==> k == EntryKind::Dir,
        !e.is_dir && e.is_symlink ==> k == EntryKind::Symlink,
        !e.is_dir && !e.is_symlink && e.is_file ==> k == EntryKind::File,
        !e.is_dir && !e.is_symlink && !e.is_file ==> k == EntryKind::Other,
{
    if e.is_dir {
        EntryKind::Dir
    } else if e.is_symlink {
        EntryKind::Symlink
    } else if e.is_file {
        EntryKind::File
    } else {
        EntryKind::Other
    }
}

/// Two spaces per level of depth.
pub open spec fn indent(level: nat) -> Seq<char>
    decreases level,
{
    if level == 0 {
        Seq::empty()
    } else {
        indent((level - 1) as nat) + "  "@
    }
}

/// The line of a directory tree for an entry at depth `level`: the indent, then
/// `└─` before the last entry of its directory or `├─` before the others, then the
/// entry's name; an entry without a name gets only the indent.
pub open spec fn tree_line(level: nat, is_last: bool, name: Option<Seq<char>>) -> Seq<char> {
    match name {
        Some(n) => indent(level) + (if is_last { "└"@ } else { "├"@ }) + "─"@ + n,
        None => indent(level),
    }
}

/// Writes the line of a directory tree for one entry.
pub fn tree_entry_line(level: u32, is_last: bool, name: Option<&str>) -> (r: String)
    ensures
        r@ == tree_line(level as nat, is_last, match name {
            Some(n) => Some(n@),
            None => None,
        }),
{
    let mut out = String::new();
    let mut l: u32 = 0;
    while l < level
        invariant
            l <= level,
            out@ == indent(l as nat),
        decreases level - l,
    {
        out.append("  ");
        l = l + 1;
    }
    match name {
        Some(n) => {
            if is_last {
                out.append("└");
            } else {
                out.append("├");
            }
            out.append("─");
            out.append(n);
        },
        None => {},
    }
    out
}

} // verus!
