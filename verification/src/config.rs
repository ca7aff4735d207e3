//! The configuration that a file describes, and its mathematical model.

use crate::addr::{Ipv4Address, Ipv4Network};
use vstd::prelude::*;

verus! {

/// How the node learns its routes.
#[derive(Debug, Clone, Copy, PartialEq, Eq, Structural)]
pub enum RoutingType {
    /// No routes are learned: the mode that the keyword `none` selects, and
    /// the one in force before any `routing` line.
    Disabled,
    Static,
    Rip,
}

impl Default for RoutingType {
    fn default() -> (mode: Self)
        ensures
            mode == RoutingType::Disabled,
    {
        RoutingType::Disabled
    }
}

/// An interface of the node.
#[derive(Debug, PartialEq, Eq)]
pub struct InterfaceConfig {
    pub name: String,
    /// The interface's address and the length of its network's prefix.
    pub assigned_prefix: Ipv4Network,
    /// The address part of `assigned_prefix`.
    pub assigned_ip: Ipv4Address,
    pub udp_addr: Ipv4Address,
    pub udp_port: u16,
}

/// A neighbor, and the interface through which it is reached. The interface
/// is named, and need not have been declared.
#[derive(Debug, PartialEq, Eq)]
pub struct NeighborConfig {
    pub dest_addr: Ipv4Address,
    pub udp_addr: Ipv4Address,
    pub udp_port: u16,
    pub interface_name: String,
}

/// A destination network and the next hop towards it.
pub type StaticRoute = (Ipv4Network, Ipv4Address);

/// Everything that a configuration file declares, in the order of the file.
#[derive(Debug)]
pub struct IPConfig {
    pub interfaces: Vec<InterfaceConfig>,
    pub neighbors: Vec<NeighborConfig>,
    pub routing_mode: RoutingType,
    /// The neighbors to advertise routes to. `None` until the first
    /// `rip advertise-to` line has been accepted.
    pub rip_neighbors: Option<Vec<Ipv4Address>>,
    pub static_routes: Vec<StaticRoute>,
}

/// An `InterfaceConfig` with its name as a character sequence.
pub struct InterfaceView {
    pub name: Seq<char>,
    pub assigned_prefix: Ipv4Network,
    pub assigned_ip: Ipv4Address,
    pub udp_addr: Ipv4Address,
    pub udp_port: u16,
}

/// A `NeighborConfig` with its interface name as a character sequence.
pub struct NeighborView {
    pub dest_addr: Ipv4Address,
    pub udp_addr: Ipv4Address,
    pub udp_port: u16,
    pub interface_name: Seq<char>,
}

/// An `IPConfig` as sequences of plain values.
pub struct ConfigView {
    pub interfaces: Seq<InterfaceView>,
    pub neighbors: Seq<NeighborView>,
    pub routing_mode: RoutingType,
    pub rip_neighbors: Option<Seq<Ipv4Address>>,
    pub static_routes: Seq<StaticRoute>,
}

impl View for InterfaceConfig {
    type V = InterfaceView;

    open spec fn view(&self) -> InterfaceView {
        InterfaceView {
            name: self.name@,
            assigned_prefix: self.assigned_prefix,
            assigned_ip: self.assigned_ip,
            udp_addr: self.udp_addr,
            udp_port: self.udp_port,
        }
    }
}

impl View for NeighborConfig {
    type V = NeighborView;

    open spec fn view(&self) -> NeighborView {
        NeighborView {
            dest_addr: self.dest_addr,
            udp_addr: self.udp_addr,
            udp_port: self.udp_port,
            interface_name: self.interface_name@,
        }
    }
}

impl View for IPConfig {
    type V = ConfigView;

    open spec fn view(&self) -> ConfigView {
        ConfigView {
            interfaces: self.interfaces@.map_values(|i: InterfaceConfig| i@),
            neighbors: self.neighbors@.map_values(|n: NeighborConfig| n@),
            routing_mode: self.routing_mode,
            rip_neighbors: match self.rip_neighbors {
                Some(targets) => Some(targets@),
                None => None,
            },
            static_routes: self.static_routes@,
        }
    }
}

impl InterfaceView {
    /// The prefix length is in range and `assigned_ip` is the address of
    /// `assigned_prefix`.
    pub open spec fn wf(self) -> bool {
        self.assigned_prefix.wf() && self.assigned_ip == self.assigned_prefix.addr
    }
}

impl ConfigView {
    /// The configuration that declares nothing.
    pub open spec fn empty() -> ConfigView {
        ConfigView {
            interfaces: Seq::empty(),
            neighbors: Seq::empty(),
            routing_mode: RoutingType::Disabled,
            rip_neighbors: None,
            static_routes: Seq::empty(),
        }
    }

    /// Whether some neighbor has the address `addr`.
    pub open spec fn has_neighbor(self, addr: Ipv4Address) -> bool {
        exists|i: int| 0 <= i < self.neighbors.len() && (#[trigger] self.neighbors[i]).dest_addr == addr
    }

    /// What holds of every configuration that was built from the empty one
    /// by accepted lines: interfaces are well formed, prefix lengths of
    /// routes are in range, and every advertisement target is the address of
    /// a declared neighbor.
    pub open spec fn wf(self) -> bool {
        &&& forall|i: int| 0 <= i < self.interfaces.len() ==> (#[trigger] self.interfaces[i]).wf()
        &&& forall|i: int|
            0 <= i < self.static_routes.len() ==> (#[trigger] self.static_routes[i]).0.wf()
        &&& self.rip_neighbors matches Some(targets) ==> forall|i: int|
            0 <= i < targets.len() ==> self.has_neighbor(#[trigger] targets[i])
    }

    /// Whether `later` holds everything that `self` holds, in the same
    /// order and from the start; the routing mode alone may differ.
    pub open spec fn extended_by(self, later: ConfigView) -> bool {
        &&& self.interfaces.is_prefix_of(later.interfaces)
        &&& self.neighbors.is_prefix_of(later.neighbors)
        &&& self.static_routes.is_prefix_of(later.static_routes)
        &&& match self.rip_neighbors {
            Some(targets) => later.rip_neighbors matches Some(more) && targets.is_prefix_of(more),
            None => true,
        }
    }
}

impl Default for IPConfig {
    fn default() -> (cfg: Self)
        ensures
            cfg@ == ConfigView::empty(),
    {
        let cfg = IPConfig {
            interfaces: Vec::new(),
            neighbors: Vec::new(),
            routing_mode: RoutingType::Disabled,
            rip_neighbors: None,
            static_routes: Vec::new(),
        };
        assert(cfg@.interfaces =~= Seq::empty());
        assert(cfg@.neighbors =~= Seq::empty());
        cfg
    }
}

} // verus!
