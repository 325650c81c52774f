//! Per-station mutable state.

use vstd::prelude::*;

verus! {

/// The state a station accumulates while the simulation runs: its local view
/// of simulated time and the number of clients currently present (queued or
/// in service). The clock never decreases, and the client count changes only
/// through `client_arrived` and `client_departure`.
#[derive(Clone, Copy, Debug, PartialEq, Eq, Structural)]
pub struct StationData {
    /// Station-local view of simulated time; monotonically non-decreasing.
    pub clock: u64,
    /// Number of clients currently present at the station.
    pub sys_clients: u64,
}

/// The state every station starts from: time zero, no clients.
pub open spec fn initial_data() -> StationData {
    StationData { clock: 0u64, sys_clients: 0u64 }
}

impl StationData {
    /// A fresh station state at simulated time zero with no clients.
    pub fn new() -> (d: StationData)
        ensures
            d == initial_data(),
    {
        StationData { clock: 0, sys_clients: 0 }
    }

    /// Advances the station clock to the given time, never backwards.
    pub fn update(&mut self, time: u64)
        ensures
            final(self).clock == if old(self).clock >= time {
                old(self).clock
            } else {
                time
            },
            final(self).sys_clients == old(self).sys_clients,
    {
        if time > self.clock {
            self.clock = time;
        }
    }

    /// Counts one more client into the station. The arrival-time payload is
    /// the hook's argument by convention; the core keeps no further statistic
    /// of it.
    pub fn client_arrived(&mut self, _arrival_time: u64)
        requires
            old(self).sys_clients < u64::MAX,
        ensures
            final(self).sys_clients == old(self).sys_clients + 1,
            final(self).clock == old(self).clock,
    {
        self.sys_clients = self.sys_clients + 1;
    }

    /// Counts one client out of the station; never called while none is present.
    pub fn client_departure(&mut self)
        requires
            old(self).sys_clients > 0,
        ensures
            final(self).sys_clients == old(self).sys_clients - 1,
            final(self).clock == old(self).clock,
    {
        self.sys_clients = self.sys_clients - 1;
    }
}

} // verus!
