//! What a handler does unless it is told otherwise.

use vstd::prelude::*;
use vstd::slice::slice_to_vec;

verus! {

/// The payload with which a ping is answered by default: its own.
pub fn default_pong(payload: &[u8]) -> (pong: Vec<u8>)
    ensures
        pong@ == payload@,
{
    slice_to_vec(payload)
}

} // verus!
