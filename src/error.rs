use vstd::prelude::*;

verus! {

/// Why a rename session ended without doing all that was asked of it.
#[derive(Debug)]
pub enum Error {
    /// Writing, reading or editing the temporary buffer failed; holds the
    /// message of the underlying failure. No rename was attempted.
    IOError(String),
    /// The edited buffer has another number of lines than there were names;
    /// holds every edited line, so that the user can see what went wrong.
    /// No rename was attempted.
    WrongLength(Vec<String>),
    /// Renaming the first path to the second failed with the message in the
    /// third field. Earlier renames of the session stay applied; later ones
    /// were not attempted.
    RenameError(String, String, String),
}

} // verus!
