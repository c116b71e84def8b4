//! Named critical exponents used in finite-size scaling.
use vstd::prelude::*;

verus! {

/// A critical exponent.
#[derive(Debug)]
pub struct CriticalExponent<V> {
    /// Name of the exponent
    pub name: String,
    /// Numerical value
    pub value: V,
}

impl<V> CriticalExponent<V> {
    /// An exponent with the given name and value.
    pub fn new(name: &str, value: V) -> (e: Self)
        ensures
            e.name@ == name@,
            e.value == value,
    {
        CriticalExponent { name: String::from_str(name), value }
    }
}

} // verus!
