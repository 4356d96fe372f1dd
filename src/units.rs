use vstd::prelude::*;

verus! {

/// A duration counted in whole samples.
#[derive(Clone, Copy, Debug, PartialEq, Eq, Structural, PartialOrd, Default)]
pub struct Samples(pub usize);

} // verus!
