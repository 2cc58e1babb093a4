//! The faults that a call into the library can answer with.

use vstd::prelude::*;

verus! {

/// The ways in which a call into the library can fail. None is retried: each
/// names a defect in the data that was handed in.
#[derive(Clone, Copy, Debug, PartialEq, Eq, Structural)]
pub enum Fault {
    /// The requested time lies in none of the segments that a curve still
    /// has ahead of its cursor.
    OutOfDomain,
    /// An identifier names no parameter or part of the model.
    UnknownParameterId,
    /// A motion or physics description breaks a rule of its structure.
    MalformedDescriptor,
}

} // verus!
