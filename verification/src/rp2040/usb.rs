//! What the board's USB adapter does not pass on to the peripheral.

use vstd::prelude::*;

verus! {

/// Whether to pass on a change of an endpoint's stall. The USB stack unstalls
/// EP0 OUT after reading every SETUP. The peripheral's driver has already armed
/// the data stage then, and writes the whole buffer control register to set or
/// clear a stall. This avoids overwriting a concurrent hardware update of
/// FULL/AVAILABLE when there is no stall to clear.
pub fn passes_stall(endpoint: usize, stalled: bool, is_stalled: bool) -> (pass: bool)
    ensures
        pass == !(endpoint == 0 && !stalled && !is_stalled),
{
    if endpoint == 0 && !stalled && !is_stalled {
        return false;
    }
    true
}

} // verus!
