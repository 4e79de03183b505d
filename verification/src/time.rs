//! Spans of time.

use std::time::Duration;
use vstd::prelude::*;

verus! {

/// What `Duration::from_secs` returns: the span of so many seconds.
pub uninterp spec fn seconds(secs: u64) -> Duration;

/// `std::time::Duration::from_secs`: the span of so many whole seconds.
pub assume_specification[ Duration::from_secs ](secs: u64) -> (duration: Duration)
    ensures
        duration == seconds(secs),
;

} // verus!
