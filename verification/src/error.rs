//! The ways a configuration can be refused.

use vstd::prelude::*;

verus! {

/// A configuration that an engine cannot run on. Every constructor that takes
/// configuration reports one of these instead of building a value, so that no
/// step of a running engine ever meets a malformed table.
#[derive(Clone, Copy, Debug, PartialEq, Eq, Structural)]
pub enum ConfigError {
    /// A random range whose upper bound lies below its lower bound.
    InvertedRange,
    /// A band that breaks `floor <= baseline <= ceiling <= 100`.
    InvalidBand,
    /// Segment breakpoints that do not strictly increase from above zero, so
    /// that a segment would hold no time at all.
    OverlappingSegments,
    /// A baseline or a ceiling that grows from one segment to a later one.
    RisingProfile,
    /// A tick that adds nothing to the counter, or a unit of elapsed time
    /// that no count makes up.
    ZeroTimeUnit,
    /// A boundary period of zero length.
    ZeroBoundary,
}

} // verus!
