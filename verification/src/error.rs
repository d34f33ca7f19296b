use vstd::prelude::*;

verus! {

/// Why no map was generated.
#[derive(Clone, Copy, Debug, PartialEq, Eq, Structural)]
pub enum GenerationError {
    /// The grid is too small to have an interior, or a grid handed in does
    /// not have the stated size.
    InvalidDimension,
    /// A rule asks to be applied a negative number of times.
    InvalidRule,
    /// The operating system gave no entropy to seed the generator with.
    RandomSourceExhausted,
}

} // verus!
