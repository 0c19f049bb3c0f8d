//! Sequences of values seen through their views.

use vstd::prelude::*;

verus! {

/// The views of the items of `items`, in order.
pub open spec fn views<T: View>(items: Seq<T>) -> Seq<T::V> {
    Seq::new(items.len(), |i: int| items[i]@)
}

} // verus!
