//! Entries of a walked directory tree, and the filter that says which of them
//! are never worked on.

use crate::text::{contains, has_prefix, occurs_at, occurs_in, starts_with};
use vstd::prelude::*;

verus! {

/// One node of the tree, as plain values.
#[derive(Clone, Debug, PartialEq, Eq)]
pub struct FileEntry {
    /// The full path, as it is displayed.
    pub path: String,
    /// The last component of the path. Where that component is not valid
    /// Unicode, this is its text with U+FFFD in place of what could not be read.
    pub file_name: String,
    /// Whether the last component of the path is valid Unicode.
    pub unicode_name: bool,
    /// Whether the path leads to a directory.
    pub is_dir: bool,
    /// Whether the path itself is a symbolic link.
    pub is_symlink: bool,
}

/// The model of a [`FileEntry`].
pub struct EntryView {
    pub path: Seq<char>,
    pub file_name: Seq<char>,
    pub unicode_name: bool,
    pub is_dir: bool,
    pub is_symlink: bool,
}

impl View for FileEntry {
    type V = EntryView;

    open spec fn view(&self) -> EntryView {
        EntryView {
            path: self.path@,
            file_name: self.file_name@,
            unicode_name: self.unicode_name,
            is_dir: self.is_dir,
            is_symlink: self.is_symlink,
        }
    }
}

/// The name of the directory, directly under the root, that receives
/// quarantined files.
pub open spec fn trash_dir_name() -> Seq<char> {
    "trash"@
}

/// What a path holds when it lies in a trash directory.
pub open spec fn trash_marker() -> Seq<char> {
    "/trash"@
}

/// The entry's name begins with a dot. A name that is not valid Unicode is
/// never hidden.
pub open spec fn hidden(entry: EntryView) -> bool {
    entry.unicode_name && has_prefix(entry.file_name, "."@)
}

/// The entry's path holds the trash marker. The test is on the text of the
/// path alone, so a path such as `/data/trashcan/a` counts as well.
pub open spec fn in_trash(entry: EntryView) -> bool {
    occurs_in(entry.path, trash_marker())
}

/// The entry is left alone: it is a symbolic link, hidden, in a trash
/// directory, or a directory.
pub open spec fn skipped(entry: EntryView) -> bool {
    entry.is_symlink || hidden(entry) || in_trash(entry) || entry.is_dir
}

/// The name of the trash directory.
pub fn trash_dir() -> (name: &'static str)
    ensures
        name@ == trash_dir_name(),
{
    "trash"
}

/// Whether the entry's name marks it as hidden.
pub fn is_hidden(entry: &FileEntry) -> (b: bool)
    ensures
        b == hidden(entry@),
{
    entry.unicode_name && starts_with(entry.file_name.as_str(), ".")
}

/// Whether the entry lies in a trash directory.
pub fn is_in_trash(entry: &FileEntry) -> (b: bool)
    ensures
        b == in_trash(entry@),
{
    contains(entry.path.as_str(), "/trash")
}

/// Whether the filter leaves the entry alone.
pub fn should_skip(entry: &FileEntry) -> (b: bool)
    ensures
        b == skipped(entry@),
{
    entry.is_symlink || is_hidden(entry) || is_in_trash(entry) || entry.is_dir
}

/// The trash directory of any root, and whatever lies in it, is left alone.
pub proof fn lemma_trash_is_left_alone(entry: EntryView, root: Seq<char>, rest: Seq<char>)
    requires
        entry.path == root + seq!['/'] + trash_dir_name() + rest,
    ensures
        in_trash(entry),
        skipped(entry),
{
    reveal_strlit("trash");
    reveal_strlit("/trash");
    let at = root.len() as int;
    assert(entry.path.subrange(at, at + trash_marker().len()) =~= trash_marker());
    assert(occurs_at(entry.path, trash_marker(), at));
}

} // verus!
