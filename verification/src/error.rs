//! The ways in which a scan, or a single entry of it, can fail.

use crate::query::ConstructKind;
use vstd::prelude::*;

verus! {

/// Why a single entry was left out of the scan. The scan goes on.
#[derive(Clone, Copy, Debug, PartialEq, Eq, Structural)]
pub enum FileSkipError {
    /// The entry could not be read.
    Unreadable,
    /// The content of the file is not text.
    NotText,
    /// The content is not syntactically valid Java.
    Parse,
    /// A matched identifier does not span whole characters of the content.
    Span,
    /// The entry is neither a regular file nor a directory.
    NotRegular,
    /// The entry is a directory that the scan has entered before.
    Cycle,
}

/// The pattern of a construct kind does not compile against the grammar. This
/// is a defect of the pattern, found when the patterns are compiled.
#[derive(Clone, Copy, Debug, PartialEq, Eq, Structural)]
pub struct PatternCompileError {
    pub kind: ConstructKind,
}

/// Why a scan as a whole failed.
#[derive(Clone, Copy, Debug, PartialEq, Eq, Structural)]
pub enum FatalError {
    /// The root of the scan cannot be visited at all.
    Root,
    /// The findings log could not be written, and the caller requires it.
    Write,
    /// The caller called the scan off.
    Cancelled,
}

/// What the caller wants done when the findings log cannot be written.
#[derive(Clone, Copy, Debug, PartialEq, Eq, Structural)]
pub enum WritePolicy {
    /// The log is required: a failed write fails the scan.
    Required,
    /// The log is optional: a failed write is noted and the scan goes on.
    BestEffort,
}

} // verus!
