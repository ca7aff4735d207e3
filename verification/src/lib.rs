//! Parser for the line-oriented configuration of a simulated network node.
//!
//! A file declares interfaces, neighbors, a routing mode, static routes and
//! the neighbors to advertise routes to, one directive on a line:
//!
//! ```text
//! interface <name> <address>/<prefix length> <address>:<port>
//! neighbor <address> at <address>:<port> via <interface name>
//! routing none|static|rip
//! route <address>/<prefix length> via <address>
//! rip advertise-to <address>
//! ```
//!
//! A token that is exactly `#` starts a comment that runs to the end of the
//! line. `grammar` says what each line means, `parser` holds the functions
//! that are proved to compute it, and `laws` what follows for every input.

pub mod addr;
pub mod config;
pub mod error;
pub mod grammar;
pub mod laws;
pub mod parser;
pub mod text;

pub use crate::addr::{str_to_udp, AddressError, Ipv4Address, Ipv4Network};
pub use crate::config::{IPConfig, InterfaceConfig, NeighborConfig, RoutingType, StaticRoute};
pub use crate::error::ParserError;
