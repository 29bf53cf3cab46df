//! Small helpers.
use vstd::prelude::*;

verus! {

/// The two elements of a slice of length two.
pub fn array_to_pair<T>(array: &[T]) -> (r: (&T, &T))
    requires
        array@.len() == 2,
    ensures
        *r.0 == array@[0],
        *r.1 == array@[1],
{
    (&array[0], &array[1])
}

} // verus!
