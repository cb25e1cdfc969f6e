//! Removing files one after the other: in which order, and what a failure leaves.

use crate::catalog::ScreenMemoryDeleteResult;
use crate::segment::{metadata_file, sanitized};
use vstd::prelude::*;
use vstd::string::*;

verus! {

/// How the attempt to remove a file ended.
pub enum Removal {
    Removed,
    NotFound,
    Failed(String),
}

/// What the user is told when the file at `path` could not be removed.
pub open spec fn removal_message(path: Seq<char>, err: Seq<char>) -> Seq<char> {
    "remove "@ + path + " failed: "@ + err
}

/// Whether the file at `path` is gone after `removal`: a file that was not there is.
pub fn remove_file_if_exists(path: &str, removal: Removal) -> (r: Result<(), String>)
    ensures
        match removal {
            Removal::Failed(err) => r matches Err(message) && message@ == removal_message(
                path@,
                err@,
            ),
            _ => r is Ok,
        },
        r matches Err(message) ==> (removal matches Removal::Failed(err) && message@ == "remove "@
            + path@ + " failed: "@ + err@),
{
    match removal {
        Removal::Removed => Ok(()),
        Removal::NotFound => Ok(()),
        Removal::Failed(err) => {
            let message = "remove ".to_string().concat(path).concat(" failed: ").concat(
                err.as_str(),
            );
            Err(message)
        },
    }
}

/// A file that is to be removed.
pub enum RemovalFile {
    /// The file at this path.
    Path(String),
    /// The metadata file of this name, within the storage folder.
    Metadata(String),
}

/// `file` is the metadata file of the segment with this id.
pub open spec fn is_metadata_file_of(file: RemovalFile, segment_id: Seq<char>) -> bool {
    file matches RemovalFile::Metadata(name) && name@ == metadata_file(segment_id)
}

/// Files that are removed one after the other, and the result once all of them are gone.
pub struct Removals {
    pub files: Vec<RemovalFile>,
    /// The number of the file whose turn it is.
    pub next: usize,
    pub result: ScreenMemoryDeleteResult,
}

/// What has to be done next about removals.
pub enum RemovalAction {
    /// Remove this file.
    Remove(RemovalFile),
    /// All files are gone.
    Done(ScreenMemoryDeleteResult),
    /// A file could not be removed, and the removal is given up, for this reason.
    Fail(String),
}

fn same_file(file: &RemovalFile) -> (r: RemovalFile)
    ensures
        r == *file,
{
    match file {
        RemovalFile::Path(path) => RemovalFile::Path(path.clone()),
        RemovalFile::Metadata(name) => RemovalFile::Metadata(name.clone()),
    }
}

impl Removals {
    /// The file whose turn it is, if any, is one of the files.
    pub open spec fn is_valid(self) -> bool {
        self.next <= self.files@.len()
    }

    /// A file is still to be removed.
    pub open spec fn has_file_left(self) -> bool {
        self.next < self.files@.len()
    }

    /// What has to be done next: remove the file whose turn it is.
    pub open spec fn action(self) -> RemovalAction {
        if self.has_file_left() {
            RemovalAction::Remove(self.files@[self.next as int])
        } else {
            RemovalAction::Done(self.result)
        }
    }

    /// The removals once `n` more files are gone.
    pub open spec fn advanced(self, n: int) -> Removals {
        Removals { next: (self.next + n) as usize, ..self }
    }

    /// What has to be done first.
    pub fn next_action(&self) -> (r: RemovalAction)
        ensures
            r == self.action(),
    {
        if self.next < self.files.len() {
            RemovalAction::Remove(same_file(&self.files[self.next]))
        } else {
            RemovalAction::Done(self.result)
        }
    }

    /// Decides what follows the removal of the file whose turn it was, which lies at `path`. A
    /// failure ends the removals with its message, and the files behind it stay.
    pub fn after_removal(&mut self, path: &str, removal: Removal) -> (r: RemovalAction)
        requires
            old(self).has_file_left(),
        ensures
            final(self).is_valid(),
            match removal {
                Removal::Failed(err) => *final(self) == *old(self) && (r matches RemovalAction::Fail(
                    message,
                ) && message@ == removal_message(path@, err@)),
                _ => *final(self) == old(self).advanced(1) && r == final(self).action(),
            },
            final(self).files == old(self).files,
            final(self).result == old(self).result,
            !(removal is Failed) ==> final(self).next == old(self).next + 1,
            !(removal is Failed) && old(self).next + 1 < old(self).files@.len() ==> r
                == RemovalAction::Remove(old(self).files@[old(self).next + 1]),
            !(removal is Failed) && old(self).next + 1 == old(self).files@.len() ==> r
                == RemovalAction::Done(old(self).result),
    {
        match remove_file_if_exists(path, removal) {
            Ok(()) => {
                assert(self.next < self.files.len());
                self.next = self.next + 1;
                self.next_action()
            },
            Err(message) => RemovalAction::Fail(message),
        }
    }
}

/// `outcomes` are those of the files of `removals`, from the one whose turn it is: there is one for
/// a file only where none before it failed.
pub open spec fn is_course_of(removals: Removals, outcomes: Seq<Removal>) -> bool {
    &&& removals.next + outcomes.len() <= removals.files@.len()
    &&& forall|i: int| 0 <= i < outcomes.len() - 1 ==> !(#[trigger] outcomes[i] is Failed)
}

/// No file is touched after one that could not be removed.
pub proof fn failed_removal_is_the_last(removals: Removals, outcomes: Seq<Removal>, i: int)
    requires
        is_course_of(removals, outcomes),
        0 <= i < outcomes.len(),
        outcomes[i] is Failed,
    ensures
        i == outcomes.len() - 1,
{
}

/// Removals that are done have made sure of every file, in order: each was removed or was not there.
pub proof fn done_removals_took_every_file(removals: Removals, outcomes: Seq<Removal>)
    requires
        is_course_of(removals, outcomes),
        outcomes.len() > 0 ==> !(outcomes.last() is Failed),
        removals.advanced(outcomes.len() as int).action() is Done,
    ensures
        outcomes.len() == removals.files@.len() - removals.next,
        forall|i: int| 0 <= i < outcomes.len() ==> !(#[trigger] outcomes[i] is Failed),
{
}

/// Removals ask for their files in order, one at a time, and are done after the last one.
pub proof fn removals_ask_for_their_files_in_order(removals: Removals, n: int)
    requires
        0 <= n <= removals.files@.len() - removals.next,
    ensures
        removals.next + n < removals.files@.len() ==> removals.advanced(n).action()
            == RemovalAction::Remove(removals.files@[removals.next + n]),
        removals.next + n == removals.files@.len() ==> removals.advanced(n).action()
            == RemovalAction::Done(removals.result),
        removals.advanced(n).files == removals.files,
        removals.advanced(n).result == removals.result,
{
    assert(removals.files.len() == removals.files@.len());
}

/// What the user is told of a file that could not be removed.
pub proof fn failed_removal_is_told_with_its_path(path: Seq<char>, err: Seq<char>)
    ensures
        removal_message(path, err) == "remove "@ + path + " failed: "@ + err,
{
}

/// The metadata file of a segment is named after its sanitized id.
pub proof fn metadata_file_is_named_after_the_id(file: RemovalFile, segment_id: Seq<char>)
    ensures
        is_metadata_file_of(file, segment_id) <==> (file matches RemovalFile::Metadata(name) && name@
            == sanitized(segment_id) + ".json"@),
{
}

} // verus!
