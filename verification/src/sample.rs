//! A small declaration to try the generators on: a wrapper that is generic over a
//! trait and holds values of the trait's associated type, so that a bound for
//! printing belongs on `T::Value` and not on `T` itself. A derive that puts the
//! bound on `T` does not fit it, which is why the wrapper carries none here.

use std::fmt::Debug;
use vstd::prelude::*;

verus! {

/// A family of values.
pub trait Trait {
    type Value;
}

/// A wrapper around the values of a [`Trait`].
pub struct Wrapper<T: Trait> {
    field: Field<T>,
}

#[derive(Debug)]
struct Field<T: Trait> {
    values: Vec<T::Value>,
}

/// Compiles exactly where `F` can be printed for debugging; does nothing when run.
pub fn assert_debug<F: Debug>() {
}

} // verus!
