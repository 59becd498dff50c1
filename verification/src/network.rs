//! The network signals: Low Data Mode, expensive link and interface kind.

use vstd::prelude::*;

use crate::nwpath::{InterfaceType, PathSnapshot};

verus! {

/// The network signals of the current path.
#[derive(Debug, Clone, Copy, PartialEq, Eq)]
pub struct Network {
    /// True when the path is on a Low Data Mode network
    /// (`NWPath.isConstrained`).
    pub constrained: bool,
    /// True when the path is on an expensive interface such as cellular or
    /// a personal hotspot (`NWPath.isExpensive`).
    pub expensive: bool,
    pub interface: Interface,
}

/// Primary interface kind reported for the current path. `Other` is
/// reported when the path uses none of the well-known kinds (e.g. an
/// unknown VPN), or when nothing could be read.
#[derive(Debug, Clone, Copy, PartialEq, Eq, Structural)]
pub enum Interface {
    Wifi,
    Cellular,
    Wired,
    Loopback,
    Other,
}

/// The interface kind that a probed interface type is reported as.
pub open spec fn interface_kind(t: Option<InterfaceType>) -> Interface {
    match t {
        Some(InterfaceType::Wifi) => Interface::Wifi,
        Some(InterfaceType::Cellular) => Interface::Cellular,
        Some(InterfaceType::WiredEthernet) => Interface::Wired,
        Some(InterfaceType::Loopback) => Interface::Loopback,
        _ => Interface::Other,
    }
}

/// The signals reported when no path reading is available: not
/// constrained, not expensive, interface `Other`.
pub open spec fn unknown_network() -> Network {
    Network { constrained: false, expensive: false, interface: Interface::Other }
}

/// The signals of a path reading, or of its absence.
pub open spec fn network_of(snapshot: Option<PathSnapshot>) -> Network {
    match snapshot {
        Some(snap) => Network {
            constrained: snap.constrained,
            expensive: snap.expensive,
            interface: interface_kind(snap.interface),
        },
        None => unknown_network(),
    }
}

impl Network {
    /// The network signals from one reading of the path monitor; `None`
    /// when the monitor did not deliver a path in time, or where no path
    /// monitor exists.
    pub fn collect(snapshot: Option<PathSnapshot>) -> (net: Network)
        ensures
            net == network_of(snapshot),
            snapshot matches Some(snap) ==> net.expensive == snap.expensive && net.constrained
                == snap.constrained,
            snapshot is None ==> !net.expensive && !net.constrained && net.interface
                == Interface::Other,
    {
        let snap = match snapshot {
            Some(snap) => snap,
            None => {
                return Network { constrained: false, expensive: false, interface: Interface::Other };
            },
        };
        let interface = match snap.interface {
            Some(InterfaceType::Wifi) => Interface::Wifi,
            Some(InterfaceType::Cellular) => Interface::Cellular,
            Some(InterfaceType::WiredEthernet) => Interface::Wired,
            Some(InterfaceType::Loopback) => Interface::Loopback,
            _ => Interface::Other,
        };
        Network { constrained: snap.constrained, expensive: snap.expensive, interface }
    }
}


/// A path reading's Low Data Mode and expensive flags are reported as they
/// are, whatever the interface; the interface kind depends on the probed
/// interface type alone, each well-known type keeping its kind.
pub proof fn lemma_network_of_reading(snap: PathSnapshot, other: PathSnapshot)
    ensures
        network_of(Some(snap)).expensive == snap.expensive,
        network_of(Some(snap)).constrained == snap.constrained,
        snap.interface == other.interface ==> network_of(Some(snap)).interface == network_of(
            Some(other),
        ).interface,
        snap.interface == Some(InterfaceType::Wifi) <==> network_of(Some(snap)).interface
            == Interface::Wifi,
        snap.interface == Some(InterfaceType::Cellular) <==> network_of(Some(snap)).interface
            == Interface::Cellular,
        snap.interface == Some(InterfaceType::WiredEthernet) <==> network_of(Some(snap)).interface
            == Interface::Wired,
        snap.interface == Some(InterfaceType::Loopback) <==> network_of(Some(snap)).interface
            == Interface::Loopback,
{
}

} // verus!
