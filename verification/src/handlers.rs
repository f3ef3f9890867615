//! What a guest's `Custom`-impact handler is handed.

use vstd::prelude::*;

verus! {

/// One invocation of a handler: the parameter blob its `Custom` impact
/// carried.
pub struct HandlerCall<'a> {
    pub params: &'a [u8],
}

} // verus!
