use vstd::prelude::*;

verus! {

/// Errors a DDM decode or conversion can surface.
///
/// Every failure is fatal to the whole run: the container is rejected as a
/// unit, with no partial output and no per-mesh recovery.
#[derive(Clone, Copy, Debug, PartialEq, Eq, Structural)]
pub enum DdmError {
    /// The container is malformed: an unrecognized magic tag, a missing null
    /// terminator in the texture-name field, or a name that is not UTF-8.
    FormatError,
    /// The stream ended before a read could be satisfied, or a seek left the
    /// stream's bounds.
    IOError,
    /// A face group references more distinct vertices than the 16-bit
    /// compact-index space can number.
    IndexOverflow,
}

} // verus!
