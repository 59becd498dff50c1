//! macOS system signals (network path and power state) as plain data.
//!
//! The library turns what the operating system reports into the values
//! that a caller prints or tests: the kind of network interface in use,
//! whether the link is constrained or expensive, where the power comes
//! from, the battery level and the energy mode.
//! Reading the operating system itself is left to the caller; every
//! function here works on the values that such a reading produced.

pub mod nwpath;
pub mod network;
pub mod text;
pub mod power;
pub mod pmset;

use vstd::prelude::*;

use crate::network::{network_of, Network};
use crate::nwpath::PathSnapshot;
use crate::power::{power_of, Power, PowerSources};

verus! {

/// All the signals: network and power.
#[derive(Debug, Clone, Copy, PartialEq, Eq)]
pub struct State {
    pub network: Network,
    pub power: Power,
}

impl State {
    /// The signals from one reading of each source: the network path, the
    /// power sources, the Low Power Mode state and the output of
    /// `pmset -g`. A reading is `None` where it could not be had, or where
    /// the system offers none.
    pub fn collect(
        path: Option<PathSnapshot>,
        sources: Option<PowerSources>,
        low_power_mode: bool,
        pmset_output: Option<&str>,
    ) -> (s: State)
        ensures
            s.network == network_of(path),
            s.power == power_of(sources, low_power_mode, pmset_output),
            s.power.low_power_mode == low_power_mode,
            path matches Some(snap) ==> s.network.expensive == snap.expensive
                && s.network.constrained == snap.constrained,
    {
        State {
            network: Network::collect(path),
            power: Power::collect(sources, low_power_mode, pmset_output),
        }
    }
}

} // verus!
