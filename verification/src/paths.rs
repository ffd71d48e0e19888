//! Filesystem path values carried through the library untouched.
use vstd::prelude::*;

verus! {

/// `std::path::PathBuf` as an opaque value: the library stores and
/// hands back paths, the caller resolves them against the filesystem.
#[verifier::external_type_specification]
#[verifier::external_body]
pub struct ExPathBuf(std::path::PathBuf);

} // verus!
