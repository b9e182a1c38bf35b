//! The tag that marks a type as a two-dimensional primitive.

use vstd::prelude::*;

verus! {

/// A shape of the plane. The trait has no methods: it only lets generic code
/// ask for "any two-dimensional primitive".
pub trait Primitive2d {
}

} // verus!
