use vstd::prelude::*;

verus! {

/// The two ways a layer can refuse its input.
#[derive(Clone, Copy, Debug, PartialEq, Eq, Structural)]
pub enum LinearError {
    /// An input or output dimension of zero was asked for at construction.
    InvalidDimension,
    /// A batch, a cell vector or a bias vector does not have the shape that the
    /// layer or matrix was configured with.
    ShapeMismatch,
}

} // verus!
