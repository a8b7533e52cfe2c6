//! A helper trait for values built around one attribute datum.

use vstd::prelude::*;

verus! {

/// A value constructed from, and carrying, one attribute datum that it
/// can hand back to its user.
pub trait Attribute {
    type Attribute;

    fn from_attr(attr: Self::Attribute) -> Self where Self: core::marker::Sized;

    fn attr(&self) -> &Self::Attribute;
}

} // verus!
