//! The error that grid access reports.

use vstd::prelude::*;

verus! {

/// Why an access to a grid was refused.
#[derive(Copy, Clone, Debug, PartialEq, Eq, Structural)]
pub enum GridError {
    /// The row or the column lies outside the grid.
    OutOfBounds,
}

} // verus!
