//! Decisions of the command-line commands, apart from the I/O that surrounds them.
use crate::readme::{padded5, push_padded5};
use vstd::prelude::*;
use vstd::string::StringExecFns;

verus! {

/// Arguments of the commands that act on one puzzle.
pub struct GeneralArguments {
    pub puzzle_id: u16,
}

/// Name of the folder that a puzzle is scaffolded into: `p`, the five-digit id, ` - `, title.
pub open spec fn folder_name_of(id: u16, title: Seq<char>) -> Seq<char> {
    "p"@ + padded5(id as nat) + " - "@ + title
}

/// The folder name for a puzzle.
pub fn puzzle_folder_name(id: u16, title: &str) -> (r: String)
    ensures
        r@ == folder_name_of(id, title@),
{
    let mut name = String::from_str("p");
    push_padded5(&mut name, id);
    name.append(" - ");
    name.append(title);
    name
}

/// What is wrong with the configured puzzle directory, judged from its text alone.
#[derive(Clone, Copy, Debug, PartialEq, Eq, Structural)]
pub enum DirectoryProblem {
    Empty,
    NotAbsolute,
}

/// The configured directory must be set and absolute.
pub fn check_directory_setting(directory: &str, is_absolute: bool) -> (r: Option<DirectoryProblem>)
    ensures
        r == if directory@.len() == 0 {
            Some(DirectoryProblem::Empty)
        } else if !is_absolute {
            Some(DirectoryProblem::NotAbsolute)
        } else {
            None
        },
{
    if directory.is_empty() {
        Some(DirectoryProblem::Empty)
    } else if !is_absolute {
        Some(DirectoryProblem::NotAbsolute)
    } else {
        None
    }
}

/// What is wrong with one entry of the puzzle directory.
#[derive(Clone, Copy, Debug, PartialEq, Eq, Structural)]
pub enum EntryProblem {
    UnknownDirectory,
    NotADirectory,
}

/// The subdirectories that the puzzle directory may hold.
pub open spec fn is_known_directory(name: Seq<char>) -> bool {
    name == "working"@ || name == "solution"@
}

/// A stray file that file browsers leave behind and that is tolerated.
pub open spec fn is_ignored_file(name: Seq<char>) -> bool {
    name == ".DS_Store"@
}

/// The puzzle directory may hold only the `working` and `solution` directories, besides
/// ignored files.
pub fn check_directory_entry(is_dir: bool, file_name: &str) -> (r: Option<EntryProblem>)
    ensures
        r == if is_dir {
            if is_known_directory(file_name@) {
                None
            } else {
                Some(EntryProblem::UnknownDirectory)
            }
        } else if is_ignored_file(file_name@) {
            None
        } else {
            Some(EntryProblem::NotADirectory)
        },
{
    let name = String::from_str(file_name);
    if is_dir {
        if name == String::from_str("working") || name == String::from_str("solution") {
            None
        } else {
            Some(EntryProblem::UnknownDirectory)
        }
    } else if name == String::from_str(".DS_Store") {
        None
    } else {
        Some(EntryProblem::NotADirectory)
    }
}

} // verus!
