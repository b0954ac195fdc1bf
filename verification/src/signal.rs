//! The Signal plane: the engine's front door, which counts each admitted
//! request before it hands it to the Nexus plane.

use vstd::prelude::*;

verus! {

/// The state of the Signal plane: how many requests it has admitted.
pub struct SignalPlane {
    pub admitted: u64,
}

impl SignalPlane {
    /// A plane that has admitted no request.
    pub fn new() -> (plane: Self)
        ensures
            plane.admitted == 0,
    {
        SignalPlane { admitted: 0 }
    }

    /// Admits one request.
    pub fn count_admission(&mut self)
        requires
            old(self).admitted < u64::MAX,
        ensures
            final(self).admitted == old(self).admitted + 1,
    {
        self.admitted = self.admitted + 1;
    }
}

} // verus!
