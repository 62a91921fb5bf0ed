//! Periodic maintenance of the tables.

use crate::state::{OverallState, OverallView, StateView};
use vstd::prelude::*;

verus! {

/// Seconds between two maintenance ticks, which is the length of a
/// rate-limit window.
pub const RATELIMIT_WINDOW_SECONDS: u64 = 60;

/// Seconds between two exports of the analytics to the counters.
pub const EXPORT_PERIOD_SECONDS: u64 = 10;

/// One maintenance tick: if the firewall is enabled, a new rate-limit
/// window starts with all counters forgotten; nothing else changes.
pub fn manage_maps(overall: &mut OverallState)
    requires
        old(overall).wf(),
    ensures
        final(overall).wf(),
        final(overall)@ == match old(overall)@.state {
            Some(state) => OverallView {
                state: Some(StateView { limits: Seq::empty(), ..state }),
                ..old(overall)@
            },
            None => old(overall)@,
        },
{
    overall.clear_ratelimits();
}

} // verus!
