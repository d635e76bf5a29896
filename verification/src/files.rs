//! The file system as the library consults it.
use vstd::prelude::*;

verus! {

/// Whether a file or directory exists at `path`, by
/// `std::path::Path::exists`. What is on disk can change at any time, so
/// nothing is promised of the answer.
#[verifier::external_body]
pub(crate) fn path_exists(path: &str) -> bool {
    std::path::Path::new(path).exists()
}

} // verus!
