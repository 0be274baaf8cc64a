//! What can go wrong when a fit is set up.

use vstd::prelude::*;

verus! {

/// Why a fit was refused. Both are found before any numeric work starts.
#[derive(Debug, Clone, Copy, PartialEq, Eq, Structural)]
pub enum RegressionError {
    /// The polynomial order is beyond the accepted cap, or there are no samples.
    ConfigurationError,
    /// The inputs do not have matching lengths, or there are fewer samples than
    /// coefficients.
    DimensionError,
}

} // verus!
