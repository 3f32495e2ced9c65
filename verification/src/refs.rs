//! Specification helpers relating references handed out by the library to the values they
//! point to.
use vstd::prelude::*;

verus! {

/// `refs` points, in order, to the elements of `values`.
pub open spec fn points_to_each<T>(refs: Seq<&T>, values: Seq<T>) -> bool {
    &&& refs.len() == values.len()
    &&& forall|i: int| 0 <= i < refs.len() ==> *#[trigger] refs[i] == values[i]
}

/// `r` is `None` exactly when `v` is, and otherwise points to the value in `v`.
pub open spec fn points_to_option<T>(r: Option<&T>, v: Option<T>) -> bool {
    match (r, v) {
        (Some(a), Some(b)) => *a == b,
        (None, None) => true,
        _ => false,
    }
}

} // verus!
