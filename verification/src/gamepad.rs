//! Which controller drives the interface.
//!
//! Draining devices and turning pad state into intents belongs to the input
//! backend and is done outside this library. What the shell decides itself is
//! which connected device drives it: only the first one the device set
//! reports, which is the lowest id when the set reports ids in ascending
//! order, so the choice does not depend on which pad moved last.
use vstd::prelude::*;

verus! {

/// The device among `connected` (ids in the order the device set reports
/// them) that drives the interface: the first, or none when nothing is
/// connected.
pub fn driving_device(connected: &[u32]) -> (r: Option<u32>)
    ensures
        connected@.len() == 0 ==> r is None,
        connected@.len() > 0 ==> r == Some(connected@[0]),
{
    if connected.len() == 0 {
        None
    } else {
        Some(connected[0])
    }
}

/// When the device set reports its ids in ascending order, the device that
/// drives the interface is the lowest connected id, whatever order the pads
/// arrived in.
pub proof fn lemma_lowest_id_drives(connected: Seq<u32>)
    requires
        connected.len() > 0,
        forall|i: int, j: int| 0 <= i <= j < connected.len() ==> connected[i] <= connected[j],
    ensures
        forall|k: int| 0 <= k < connected.len() ==> connected[0] <= #[trigger] connected[k],
{
}

} // verus!
