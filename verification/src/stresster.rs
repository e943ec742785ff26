//! The dispatcher's bookkeeping: the bounded command channel's capacity and
//! the spawn-loop control that decides when the run stops spawning senders.

use vstd::prelude::*;

verus! {

/// The bounded capacity of the aggregation command channel; bounded but
/// non-zero, so that a full channel applies backpressure to senders.
pub const CHANNEL_CAPACITY: usize = 50;

/// The load generator: owns the shutdown sequencing of one run.
#[derive(Debug, Clone)]
pub struct Stresster {
    /// Where the run's log lines are appended.
    pub log_path: String,
}

impl Stresster {
    /// The spawn-loop decision taken after one sender has been spawned at
    /// the given index (counted from one): `None` stops the loop once
    /// exactly `total_requests` senders exist, and with `total_requests`
    /// zero the loop never stops by itself.
    pub fn next_index_after_spawn(index: i32, total_requests: i32) -> (r: Option<i32>)
        requires
            total_requests == 0 || 1 <= index <= total_requests,
        ensures
            match r {
                None => total_requests != 0 && index == total_requests,
                Some(next) => {
                    &&& (total_requests == 0 ==> next == index)
                    &&& (total_requests != 0 ==> index < total_requests && next == index + 1)
                },
            },
    {
        if total_requests != 0 {
            if index == total_requests {
                None
            } else {
                Some(index + 1)
            }
        } else {
            Some(index)
        }
    }
}

} // verus!
