//! The location of the importer executable.

use std::path::PathBuf;
use vstd::prelude::*;

verus! {

/// `std::path::PathBuf`, carried through as an opaque value: nothing in this
/// library looks inside a path.
#[verifier::external_type_specification]
#[verifier::external_body]
pub struct ExPathBuf(PathBuf);

/// Where the importer executable lives.
///
/// The location is fixed when the state is created; the field is private and
/// no method changes it, so every invocation sees the same path.
pub struct CsvToDbState {
    exe_path: PathBuf,
}

impl CsvToDbState {
    /// The path this state was created with.
    pub closed spec fn location(&self) -> PathBuf {
        self.exe_path
    }

    /// Creates the state for the executable at `exe_path`.
    pub fn new(exe_path: PathBuf) -> (state: Self)
        ensures
            state.location() == exe_path,
    {
        Self { exe_path }
    }

    /// The path of the importer executable.
    pub fn exe_path(&self) -> (path: &PathBuf)
        ensures
            *path == self.location(),
    {
        &self.exe_path
    }
}

} // verus!
