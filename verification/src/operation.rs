//! The two operations, and what each decides for one entry.

use crate::entry::{should_skip, skipped, EntryView, FileEntry};
use crate::text::{ends_with, has_suffix, occurs_in, trimmed, without};
use crate::trim::{
    active_patterns, first_renamed, lemma_override_comes_first, lemma_settled_name_is_kept,
    TrimPatterns,
};
use vstd::prelude::*;

verus! {

/// The end of a name that marks a file as a duplicate to be quarantined.
pub open spec fn delete_marker() -> Seq<char> {
    "(1).mp4"@
}

/// The entry's name ends with the delete marker. A name that is not valid
/// Unicode never does.
pub open spec fn delete_candidate(entry: EntryView) -> bool {
    entry.unicode_name && has_suffix(entry.file_name, delete_marker())
}

/// Whether the delete operation quarantines a file with the entry's name.
pub fn is_delete_file(entry: &FileEntry) -> (b: bool)
    ensures
        b == delete_candidate(entry@),
{
    entry.unicode_name && ends_with(entry.file_name.as_str(), "(1).mp4")
}

/// What a run does to the files it finds.
#[derive(Clone, Debug, PartialEq, Eq)]
pub enum Operation {
    /// Move files whose name ends with the delete marker to the trash directory.
    Delete,
    /// Rename files whose name holds one of the patterns.
    Trim { patterns: TrimPatterns },
}

/// The model of an [`Operation`].
pub enum OperationView {
    Delete,
    Trim { patterns: Seq<Seq<char>> },
}

impl View for Operation {
    type V = OperationView;

    open spec fn view(&self) -> OperationView {
        match self {
            Operation::Delete => OperationView::Delete,
            Operation::Trim { patterns } => OperationView::Trim { patterns: patterns@ },
        }
    }
}

/// What is to be done with one entry.
#[derive(Clone, Debug, PartialEq, Eq)]
pub enum Action {
    /// The filter leaves the entry alone. It is not counted.
    Skip,
    /// The entry is counted, and nothing is done to it.
    NoMatch,
    /// The file is moved into the trash directory and keeps its name there.
    MoveToTrash { file_name: String },
    /// The file gets `new_name` in the directory it is in.
    Rename { file_name: String, new_name: String },
}

/// The model of an [`Action`].
pub enum ActionView {
    Skip,
    NoMatch,
    MoveToTrash { file_name: Seq<char> },
    Rename { file_name: Seq<char>, new_name: Seq<char> },
}

impl View for Action {
    type V = ActionView;

    open spec fn view(&self) -> ActionView {
        match self {
            Action::Skip => ActionView::Skip,
            Action::NoMatch => ActionView::NoMatch,
            Action::MoveToTrash { file_name } => ActionView::MoveToTrash { file_name: file_name@ },
            Action::Rename { file_name, new_name } => ActionView::Rename {
                file_name: file_name@,
                new_name: new_name@,
            },
        }
    }
}

impl ActionView {
    /// The entry passed the filter and was handed to the operation.
    pub open spec fn dispatched(self) -> bool {
        !(self is Skip)
    }

    /// The message that reports the action as a success: the name the file had.
    /// Only a move and a rename are successes.
    pub open spec fn message(self) -> Option<Seq<char>> {
        match self {
            ActionView::Skip => None,
            ActionView::NoMatch => None,
            ActionView::MoveToTrash { file_name } => Some(file_name),
            ActionView::Rename { file_name, new_name } => Some(file_name),
        }
    }
}

impl Action {
    /// The message that reports the action as a success, where it is one.
    pub fn message(&self) -> (m: Option<&str>)
        ensures
            match m {
                Some(text) => self@.message() == Some(text@),
                None => self@.message() is None,
            },
    {
        match self {
            Action::Skip => None,
            Action::NoMatch => None,
            Action::MoveToTrash { file_name } => Some(file_name.as_str()),
            Action::Rename { file_name, new_name } => Some(file_name.as_str()),
        }
    }
}

/// The action that `operation` takes on `entry`. An entry that the filter leaves
/// alone is skipped, whatever the operation. Of the others, the delete
/// operation moves those whose name ends with the delete marker, and the trim
/// operation renames those in whose name a pattern occurs, by the first such
/// pattern.
pub open spec fn planned(entry: EntryView, operation: OperationView) -> ActionView {
    if skipped(entry) {
        ActionView::Skip
    } else {
        match operation {
            OperationView::Delete => {
                if delete_candidate(entry) {
                    ActionView::MoveToTrash { file_name: entry.file_name }
                } else {
                    ActionView::NoMatch
                }
            },
            OperationView::Trim { patterns } => {
                match first_renamed(patterns, entry.file_name) {
                    Some(new_name) => ActionView::Rename { file_name: entry.file_name, new_name },
                    None => ActionView::NoMatch,
                }
            },
        }
    }
}

/// Decides what `operation` does with `entry`.
pub fn decide(entry: &FileEntry, operation: &Operation) -> (action: Action)
    ensures
        action@ == planned(entry@, operation@),
{
    if should_skip(entry) {
        return Action::Skip;
    }
    match operation {
        Operation::Delete => {
            if is_delete_file(entry) {
                Action::MoveToTrash { file_name: entry.file_name.clone() }
            } else {
                Action::NoMatch
            }
        },
        Operation::Trim { patterns } => {
            match patterns.first_rename(entry) {
                Some(new_name) => Action::Rename { file_name: entry.file_name.clone(), new_name },
                None => Action::NoMatch,
            }
        },
    }
}

/// An entry that is a symbolic link, hidden, in a trash directory or a
/// directory is handed to neither operation and reports no success; every
/// other entry is handed on.
pub proof fn lemma_filter_excludes(entry: EntryView, operation: OperationView)
    ensures
        skipped(entry) <==> planned(entry, operation) is Skip,
        skipped(entry) ==> !planned(entry, operation).dispatched(),
        skipped(entry) ==> planned(entry, operation).message() is None,
{
}

/// A file whose name holds no pattern of the list is not renamed: a trim run
/// over names that an earlier run has settled changes nothing and reports no
/// success.
pub proof fn lemma_settled_entry_is_not_renamed(entry: EntryView, patterns: Seq<Seq<char>>)
    requires
        forall|j: int|
            0 <= j < patterns.len() ==> !occurs_in(entry.file_name, #[trigger] patterns[j]),
    ensures
        !(planned(entry, OperationView::Trim { patterns }) is Rename),
        planned(entry, OperationView::Trim { patterns }).message() is None,
{
    lemma_settled_name_is_kept(patterns, entry.file_name);
}

/// With a pattern of the caller's own, a file that passes the filter and has
/// that pattern in its name is renamed by it, whichever built-in patterns the
/// name holds as well.
pub proof fn lemma_override_renames_first(entry: EntryView, user: Seq<char>)
    requires
        !skipped(entry),
        occurs_in(entry.file_name, user),
    ensures
        planned(entry, OperationView::Trim { patterns: active_patterns(Some(user)) })
            == (ActionView::Rename {
            file_name: entry.file_name,
            new_name: trimmed(without(entry.file_name, user)),
        }),
{
    lemma_override_comes_first(user, entry.file_name);
}

/// Under the delete operation a file is moved exactly when it passes the
/// filter and its name ends with the delete marker, and it keeps its name.
pub proof fn lemma_delete_moves_marked_files(entry: EntryView)
    ensures
        planned(entry, OperationView::Delete) is MoveToTrash <==> !skipped(entry)
            && delete_candidate(entry),
        planned(entry, OperationView::Delete) is MoveToTrash ==> planned(
            entry,
            OperationView::Delete,
        )->MoveToTrash_file_name == entry.file_name,
        !(planned(entry, OperationView::Delete) is Rename),
{
}

} // verus!
