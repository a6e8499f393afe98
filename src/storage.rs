//! Per-run batching policy.
use vstd::prelude::*;

verus! {

/// The batching policy of one run: a batch closes when it holds
/// `max_packets_per_log` records, or when `packet_log_interval` nanoseconds
/// have passed since its first item arrived.
#[derive(Clone, Copy, Debug, PartialEq, Eq)]
pub struct Config {
    pub max_packets_per_log: usize,
    pub packet_log_interval: u128,
}

} // verus!
