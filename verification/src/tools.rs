//! The one decision of the file tools: how a path is to be removed.

use vstd::prelude::*;

verus! {

/// The ways of removing a path.
#[derive(Clone, Copy, PartialEq, Eq, Structural, Debug)]
pub enum Removal {
    /// Remove a directory with all that is in it.
    Tree,
    /// Remove a directory that must be empty.
    EmptyDirectory,
    /// Remove a file.
    File,
}

/// How to remove a path: a directory with or without its contents, as the
/// caller asked, and anything else as a file.
pub open spec fn removal_of(is_dir: bool, recursive: bool) -> Removal {
    if !is_dir {
        Removal::File
    } else if recursive {
        Removal::Tree
    } else {
        Removal::EmptyDirectory
    }
}

/// Decides how to remove a path, given whether it is a directory and whether
/// the caller asked for its contents to go with it.
pub fn removal_for(is_dir: bool, recursive: bool) -> (r: Removal)
    ensures
        r == removal_of(is_dir, recursive),
{
    if is_dir {
        if recursive {
            Removal::Tree
        } else {
            Removal::EmptyDirectory
        }
    } else {
        Removal::File
    }
}

} // verus!
