//! The kinds of operation that carry no numbers, and the unit of time.

use vstd::prelude::*;

verus! {

/// The unit in which the time of an operation is counted.
#[derive(Debug, PartialEq, Eq, Clone, Copy, Structural)]
pub enum TimeUnit {
    DT,
}

/// A barrier: nothing may be moved across it.
#[derive(Debug, PartialEq, Eq, Clone, Copy, Structural)]
pub struct Barrier {}

/// A measurement.
#[derive(Debug, PartialEq, Eq, Clone, Copy, Structural)]
pub struct Measurement {}

} // verus!
