//! Operator failures.
use vstd::prelude::*;

verus! {

/// Why an operator could not produce its result.
#[derive(Debug, PartialEq, Eq)]
pub enum OpError {
    /// The node supplies `got` inputs where the operator needs at least `needed`.
    MissingOperand { needed: usize, got: usize },
    /// The operand shapes cannot be combined.
    ShapeMismatch { left: Vec<usize>, right: Vec<usize> },
    /// A convolution operand is not four-dimensional.
    NotFourDimensional { input: Vec<usize>, weight: Vec<usize> },
    /// Channel counts do not fit the group count.
    ChannelMismatch { in_channels: usize, out_channels: usize, weight_channels: usize, group: usize },
    /// An attribute holds a value the operator cannot use.
    InvalidAttribute { name: String },
    /// The input has an empty spatial axis where "SAME" padding needs its length.
    EmptyInput { input: Vec<usize> },
    /// The kernel is empty, or larger than the padded input.
    InvalidKernel { kernel: Vec<usize> },
    /// The bias does not hold one value per output channel.
    InvalidBias { bias: Vec<usize>, out_channels: usize },
    /// The sizes involved do not fit in `usize`.
    TooLarge,
}

} // verus!
