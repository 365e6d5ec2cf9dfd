//! The configurations the engine refuses.

use vstd::prelude::*;

verus! {

/// A configuration the engine refuses to run with.
#[derive(Clone, Copy, Debug, PartialEq, Eq, Structural)]
pub enum ConfigError {
    /// A layer was asked for with no input features.
    ZeroWidth,
    /// The number of weights does not fit the machine's word.
    TooLarge,
    /// Fewer initial draws were supplied than the layer has weights.
    TooFewDraws,
    /// A gradient was asked for over a batch of no examples.
    EmptyBatch,
    /// A score was asked for over a validation set of no examples.
    EmptyValidation,
}

} // verus!
