use vstd::prelude::*;

use std::time::Duration;

verus! {

/// The duration that std's `Duration::from_secs` gives for `secs` seconds.
pub uninterp spec fn duration_of_secs(secs: u64) -> Duration;

/// std's `Duration::from_secs`. Its result depends on `secs` alone and is named
/// `duration_of_secs`.
#[verifier::external_body]
fn secs(n: u64) -> (r: Duration)
    ensures
        r == duration_of_secs(n),
{
    Duration::from_secs(n)
}

/// How often the node finder's tasks run.
#[derive(Debug, Clone, Copy)]
pub struct NodeFinderIntervals {
    pub connect: Duration,
    pub compute: Duration,
    pub communicate: Duration,
}

impl Default for NodeFinderIntervals {
    /// Connecting every 20 seconds, computing every 60, communicating every 20.
    fn default() -> (r: Self)
        ensures
            r.connect == duration_of_secs(20),
            r.compute == duration_of_secs(60),
            r.communicate == duration_of_secs(20),
    {
        NodeFinderIntervals { connect: secs(20), compute: secs(60), communicate: secs(20) }
    }
}

/// The node finder's settings.
#[derive(Debug, Clone)]
pub struct NodeFinderOption {
    pub state_dir: String,
    pub max_connected_session_count: usize,
    pub max_accepted_session_count: usize,
    pub intervals: NodeFinderIntervals,
}

} // verus!
