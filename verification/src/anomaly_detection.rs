//! The size rule that flags a packet.

use vstd::prelude::*;
use crate::models::PacketData;

verus! {

/// Largest packet size, in bytes, that still counts as ordinary traffic.
pub const ANOMALY_THRESHOLD: usize = 1400;

/// A packet is anomalous exactly when it is larger than the threshold.
pub open spec fn is_anomalous(size: nat) -> bool {
    size > ANOMALY_THRESHOLD
}

/// Classifies a size.
pub fn classify_size(size: usize) -> (flag: bool)
    ensures
        flag == is_anomalous(size as nat),
{
    size > ANOMALY_THRESHOLD
}

/// Classifies a packet by its size alone; the flag it already carries is not
/// looked at.
pub fn detect_anomaly(packet: &PacketData) -> (flag: bool)
    ensures
        flag == is_anomalous(packet.size as nat),
{
    classify_size(packet.size)
}

} // verus!
