use vstd::prelude::*;

verus! {

/// The four terminal failure kinds of a package-build session.
///
/// Every component failure aborts the remaining pipeline steps and is
/// surfaced as one of these; the caller maps each kind to one fixed
/// message and a non-zero exit.
#[derive(Debug, Clone, Copy, PartialEq, Eq, Structural)]
pub enum Error {
    /// Filesystem or subprocess plumbing failed, or a skeleton file's
    /// placeholder token did not occur exactly once.
    IoError,
    /// A vector asset could not be parsed or rendered.
    ImageError,
    /// The external page-extraction tool is missing from the environment.
    InkscapeNotFound,
    /// The source document yielded zero usable pages.
    PDFInvalid,
}

} // verus!
