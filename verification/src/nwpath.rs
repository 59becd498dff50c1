//! A one-shot snapshot of the current network path, as Network.framework's
//! path monitor describes it.

use vstd::prelude::*;

verus! {

/// `nw_path_status_t`
#[derive(Debug, Clone, Copy, PartialEq, Eq, Structural)]
pub enum PathStatus {
    Invalid,
    Satisfied,
    Unsatisfied,
    SatisfiedWithDifferentInterface,
}

/// `nw_interface_type_t`
#[derive(Debug, Clone, Copy, PartialEq, Eq, Structural)]
pub enum InterfaceType {
    Other,
    Wifi,
    Cellular,
    WiredEthernet,
    Loopback,
}

/// The status that a raw `nw_path_status_t` code denotes; unknown codes
/// count as `Invalid`.
pub open spec fn status_of_code(code: int) -> PathStatus {
    if code == 1 {
        PathStatus::Satisfied
    } else if code == 2 {
        PathStatus::Unsatisfied
    } else if code == 3 {
        PathStatus::SatisfiedWithDifferentInterface
    } else {
        PathStatus::Invalid
    }
}

/// The raw `nw_interface_type_t` code of each interface type.
pub open spec fn interface_code(t: InterfaceType) -> int {
    match t {
        InterfaceType::Other => 0,
        InterfaceType::Wifi => 1,
        InterfaceType::Cellular => 2,
        InterfaceType::WiredEthernet => 3,
        InterfaceType::Loopback => 4,
    }
}

impl PathStatus {
    /// Decodes a raw `nw_path_status_t`.
    pub fn from_raw(code: i32) -> (s: PathStatus)
        ensures
            s == status_of_code(code as int),
    {
        if code == 1 {
            PathStatus::Satisfied
        } else if code == 2 {
            PathStatus::Unsatisfied
        } else if code == 3 {
            PathStatus::SatisfiedWithDifferentInterface
        } else {
            PathStatus::Invalid
        }
    }
}

impl InterfaceType {
    /// The raw `nw_interface_type_t` of this interface type, as
    /// `nw_path_uses_interface_type` expects it.
    pub fn raw(self) -> (code: i32)
        ensures
            code == interface_code(self),
    {
        match self {
            InterfaceType::Other => 0,
            InterfaceType::Wifi => 1,
            InterfaceType::Cellular => 2,
            InterfaceType::WiredEthernet => 3,
            InterfaceType::Loopback => 4,
        }
    }
}

/// What one reading of a network path gave.
#[derive(Debug, Clone, Copy, PartialEq, Eq)]
pub struct PathSnapshot {
    pub status: PathStatus,
    pub expensive: bool,
    pub constrained: bool,
    /// First matching interface type the path uses. Probed in priority
    /// wifi → wired → cellular → loopback → other.
    pub interface: Option<InterfaceType>,
}

/// The answers of `nw_path_uses_interface_type` for a path, one per
/// interface type.
#[derive(Debug, Clone, Copy, PartialEq, Eq)]
pub struct InterfaceUsage {
    pub wifi: bool,
    pub wired_ethernet: bool,
    pub cellular: bool,
    pub loopback: bool,
    pub other: bool,
}

impl InterfaceUsage {
    /// Whether the path uses interface type `t`.
    pub open spec fn uses(self, t: InterfaceType) -> bool {
        match t {
            InterfaceType::Wifi => self.wifi,
            InterfaceType::WiredEthernet => self.wired_ethernet,
            InterfaceType::Cellular => self.cellular,
            InterfaceType::Loopback => self.loopback,
            InterfaceType::Other => self.other,
        }
    }
}

/// The order in which interface types are probed.
pub open spec fn probe_order() -> Seq<InterfaceType> {
    seq![
        InterfaceType::Wifi,
        InterfaceType::WiredEthernet,
        InterfaceType::Cellular,
        InterfaceType::Loopback,
        InterfaceType::Other,
    ]
}

/// The first interface type in probe order that the path uses, if any.
pub open spec fn first_used(usage: InterfaceUsage) -> Option<InterfaceType> {
    if exists|i: int| 0 <= i < probe_order().len() && usage.uses(#[trigger] probe_order()[i]) {
        let i = choose|i: int|
            0 <= i < probe_order().len() && usage.uses(#[trigger] probe_order()[i]) && forall|j: int|
                0 <= j < i ==> !usage.uses(#[trigger] probe_order()[j]);
        Some(probe_order()[i])
    } else {
        None
    }
}

/// Builds the snapshot of a path from the raw answers about it: its
/// status code, whether it is expensive or constrained, and which
/// interface types it uses.
pub fn read_path(status: i32, expensive: bool, constrained: bool, usage: InterfaceUsage) -> (snap:
    PathSnapshot)
    ensures
        snap.status == status_of_code(status as int),
        snap.expensive == expensive,
        snap.constrained == constrained,
        snap.interface == first_used(usage),
        usage.wifi ==> snap.interface == Some(InterfaceType::Wifi),
        snap.interface matches Some(t) ==> usage.uses(t),
{
    let interface = if usage.wifi {
        Some(InterfaceType::Wifi)
    } else if usage.wired_ethernet {
        Some(InterfaceType::WiredEthernet)
    } else if usage.cellular {
        Some(InterfaceType::Cellular)
    } else if usage.loopback {
        Some(InterfaceType::Loopback)
    } else if usage.other {
        Some(InterfaceType::Other)
    } else {
        None
    };
    proof {
        let ord = probe_order();
        assert(ord[0] == InterfaceType::Wifi && ord[1] == InterfaceType::WiredEthernet && ord[2]
            == InterfaceType::Cellular && ord[3] == InterfaceType::Loopback && ord[4]
            == InterfaceType::Other);
    }
    PathSnapshot { status: PathStatus::from_raw(status), expensive, constrained, interface }
}


/// Interface types are probed in a fixed order and the first one the path
/// uses wins: Wi-Fi over wired Ethernet over cellular over loopback over
/// other, whatever the later answers are; with none used there is none.
pub proof fn lemma_first_used_order(usage: InterfaceUsage)
    ensures
        usage.wifi ==> first_used(usage) == Some(InterfaceType::Wifi),
        !usage.wifi && usage.wired_ethernet ==> first_used(usage) == Some(
            InterfaceType::WiredEthernet,
        ),
        !usage.wifi && !usage.wired_ethernet && usage.cellular ==> first_used(usage) == Some(
            InterfaceType::Cellular,
        ),
        !usage.wifi && !usage.wired_ethernet && !usage.cellular && usage.loopback ==> first_used(
            usage,
        ) == Some(InterfaceType::Loopback),
        !usage.wifi && !usage.wired_ethernet && !usage.cellular && !usage.loopback && usage.other
            ==> first_used(usage) == Some(InterfaceType::Other),
        !usage.wifi && !usage.wired_ethernet && !usage.cellular && !usage.loopback && !usage.other
            ==> first_used(usage) is None,
        first_used(usage) matches Some(t) ==> usage.uses(t),
{
    let ord = probe_order();
    assert(ord[0] == InterfaceType::Wifi && ord[1] == InterfaceType::WiredEthernet && ord[2]
        == InterfaceType::Cellular && ord[3] == InterfaceType::Loopback && ord[4]
        == InterfaceType::Other);
    if usage.wifi {
        assert(usage.uses(ord[0]));
    } else if usage.wired_ethernet {
        assert(usage.uses(ord[1]));
    } else if usage.cellular {
        assert(usage.uses(ord[2]));
    } else if usage.loopback {
        assert(usage.uses(ord[3]));
    } else if usage.other {
        assert(usage.uses(ord[4]));
    }
}


/// Status codes 0 to 3 decode to the four statuses in order; every other
/// code decodes to `Invalid`.
pub proof fn lemma_status_codes(code: int)
    ensures
        status_of_code(0) == PathStatus::Invalid,
        status_of_code(1) == PathStatus::Satisfied,
        status_of_code(2) == PathStatus::Unsatisfied,
        status_of_code(3) == PathStatus::SatisfiedWithDifferentInterface,
        code < 0 || code > 3 ==> status_of_code(code) == PathStatus::Invalid,
{
}

} // verus!
