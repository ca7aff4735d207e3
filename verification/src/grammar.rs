//! What the lines of a configuration file mean.
//!
//! Each directive is a function from the tokens of its line to the entity it
//! declares, or from a configuration and the tokens to the configuration
//! that results. A line is checked in a fixed order: the number of tokens
//! first, then the fields from left to right; the first check that fails
//! names the error.

use crate::addr::{address_of, address_text, endpoint_of, network_of, AddressError};
use crate::config::{ConfigView, InterfaceView, NeighborView, RoutingType};
use crate::error::ParserErrorView;
use crate::text::{lines_of, significant_tokens};
use vstd::prelude::*;

verus! {

/// The number of tokens on a line of the directive `name`, the name
/// included; `None` when there is no such directive.
pub open spec fn directive_arity(name: Seq<char>) -> Option<nat> {
    if name == "interface"@ {
        Some(4)
    } else if name == "neighbor"@ {
        Some(6)
    } else if name == "routing"@ {
        Some(2)
    } else if name == "route"@ {
        Some(4)
    } else if name == "rip"@ {
        Some(3)
    } else {
        None
    }
}

/// The routing mode that a keyword selects.
pub open spec fn routing_type_of(value: Seq<char>) -> Result<RoutingType, ParserErrorView> {
    if value == "none"@ {
        Ok(RoutingType::Disabled)
    } else if value == "static"@ {
        Ok(RoutingType::Static)
    } else if value == "rip"@ {
        Ok(RoutingType::Rip)
    } else {
        Err(ParserErrorView::Other("Invalid routing type: "@ + value))
    }
}

/// `interface <name> <address>/<prefix length> <address>:<port>`
pub open spec fn interface_of(tokens: Seq<Seq<char>>) -> Result<InterfaceView, ParserErrorView> {
    if tokens.len() != 4 {
        Err(ParserErrorView::BadFormat)
    } else {
        match network_of(tokens[2]) {
            None => Err(ParserErrorView::Ipnet),
            Some(net) => match endpoint_of(tokens[3]) {
                Err(e) => Err(ParserErrorView::Net(e)),
                Ok((udp_addr, udp_port)) => Ok(
                    InterfaceView {
                        name: tokens[1],
                        assigned_prefix: net,
                        assigned_ip: net.addr,
                        udp_addr,
                        udp_port,
                    },
                ),
            },
        }
    }
}

/// `neighbor <address> at <address>:<port> via <interface name>`
pub open spec fn neighbor_of(tokens: Seq<Seq<char>>) -> Result<NeighborView, ParserErrorView> {
    if tokens.len() != 6 {
        Err(ParserErrorView::BadFormat)
    } else {
        match address_of(tokens[1]) {
            None => Err(ParserErrorView::Net(AddressError::Address)),
            Some(dest_addr) => if tokens[2] != "at"@ {
                Err(ParserErrorView::MissingToken("at"@))
            } else {
                match endpoint_of(tokens[3]) {
                    Err(e) => Err(ParserErrorView::Net(e)),
                    Ok((udp_addr, udp_port)) => if tokens[4] != "via"@ {
                        Err(ParserErrorView::MissingToken("via"@))
                    } else {
                        Ok(NeighborView { dest_addr, udp_addr, udp_port, interface_name: tokens[5] })
                    },
                }
            },
        }
    }
}

/// `routing <mode>`: replaces the routing mode.
pub open spec fn with_routing(cfg: ConfigView, tokens: Seq<Seq<char>>) -> Result<
    ConfigView,
    ParserErrorView,
> {
    if tokens.len() != 2 {
        Err(ParserErrorView::BadFormat)
    } else {
        match routing_type_of(tokens[1]) {
            Err(e) => Err(e),
            Ok(mode) => Ok(ConfigView { routing_mode: mode, ..cfg }),
        }
    }
}

/// `route <address>/<prefix length> via <address>`: appends a static route.
pub open spec fn with_route(cfg: ConfigView, tokens: Seq<Seq<char>>) -> Result<
    ConfigView,
    ParserErrorView,
> {
    if tokens.len() != 4 {
        Err(ParserErrorView::BadFormat)
    } else {
        match network_of(tokens[1]) {
            None => Err(ParserErrorView::Ipnet),
            Some(net) => if tokens[2] != "via"@ {
                Err(ParserErrorView::MissingToken("via"@))
            } else {
                match address_of(tokens[3]) {
                    None => Err(ParserErrorView::Net(AddressError::Address)),
                    Some(hop) => Ok(
                        ConfigView { static_routes: cfg.static_routes.push((net, hop)), ..cfg },
                    ),
                }
            },
        }
    }
}

/// `rip advertise-to <address>`: appends an advertisement target, which must
/// be the address of a neighbor that `cfg` already holds. The keyword
/// `advertise-to` is the only one that the directive knows.
pub open spec fn with_rip(cfg: ConfigView, tokens: Seq<Seq<char>>) -> Result<
    ConfigView,
    ParserErrorView,
> {
    if tokens.len() != 3 {
        Err(ParserErrorView::BadFormat)
    } else if tokens[1] != "advertise-to"@ {
        Err(ParserErrorView::MissingToken("advertise-to"@))
    } else {
        match address_of(tokens[2]) {
            None => Err(ParserErrorView::Net(AddressError::Address)),
            Some(addr) => if cfg.has_neighbor(addr) {
                let targets = match cfg.rip_neighbors {
                    Some(targets) => targets.push(addr),
                    None => seq![addr],
                };
                Ok(ConfigView { rip_neighbors: Some(targets), ..cfg })
            } else {
                Err(ParserErrorView::Other("No neighbor with address "@ + address_text(addr)))
            },
        }
    }
}

/// The configuration after a line with the given tokens, of which there is
/// at least one. The first token selects the directive.
pub open spec fn with_tokens(cfg: ConfigView, tokens: Seq<Seq<char>>) -> Result<
    ConfigView,
    ParserErrorView,
> {
    let directive = tokens[0];
    if directive == "interface"@ {
        match interface_of(tokens) {
            Err(e) => Err(e),
            Ok(interface) => Ok(ConfigView { interfaces: cfg.interfaces.push(interface), ..cfg }),
        }
    } else if directive == "neighbor"@ {
        match neighbor_of(tokens) {
            Err(e) => Err(e),
            Ok(neighbor) => Ok(ConfigView { neighbors: cfg.neighbors.push(neighbor), ..cfg }),
        }
    } else if directive == "routing"@ {
        with_routing(cfg, tokens)
    } else if directive == "route"@ {
        with_route(cfg, tokens)
    } else if directive == "rip"@ {
        with_rip(cfg, tokens)
    } else {
        Err(ParserErrorView::Other("Invalid directive: "@ + directive))
    }
}

/// The configuration after one line. A line without significant tokens,
/// blank or all comment, changes nothing.
pub open spec fn with_line(cfg: ConfigView, line: Seq<char>) -> Result<ConfigView, ParserErrorView> {
    let tokens = significant_tokens(line);
    if tokens.len() == 0 {
        Ok(cfg)
    } else {
        with_tokens(cfg, tokens)
    }
}

/// Where a run over several lines ended: the configuration reached, and the
/// error that stopped the run, if one did.
pub struct Outcome {
    pub config: ConfigView,
    pub error: Option<ParserErrorView>,
}

/// Runs the lines in order from `cfg`. The first line that fails stops the
/// run: the outcome holds the configuration as the lines before it left it,
/// and the line's error bound to the line's text.
pub open spec fn with_lines(cfg: ConfigView, lines: Seq<Seq<char>>) -> Outcome
    decreases lines.len(),
{
    if lines.len() == 0 {
        Outcome { config: cfg, error: None }
    } else {
        match with_line(cfg, lines[0]) {
            Ok(next) => with_lines(next, lines.drop_first()),
            Err(e) => Outcome {
                config: cfg,
                error: Some(ParserErrorView::InvalidLine(lines[0], Box::new(e))),
            },
        }
    }
}

/// Runs the lines of `text` in order from `cfg`.
pub open spec fn with_text(cfg: ConfigView, text: Seq<char>) -> Outcome {
    with_lines(cfg, lines_of(text))
}

} // verus!
