//! The parser: one function for each directive, one for a line, and one for
//! a whole text.

use crate::addr::{str_to_udp, Ipv4Address, Ipv4Network};
use crate::config::{ConfigView, IPConfig, InterfaceConfig, NeighborConfig, RoutingType};
use crate::error::{ParserError, ParserErrorView};
use crate::grammar::{
    interface_of, neighbor_of, routing_type_of, with_line, with_lines, with_rip, with_route,
    with_routing, with_text, Outcome,
};
use crate::text::{drop_comment, lines, lines_of, str_eq, tokenize, views};
use vstd::prelude::*;

verus! {

/// `prefix` followed by `detail`.
fn message(prefix: &str, detail: &str) -> (m: String)
    ensures
        m@ == prefix@ + detail@,
{
    let mut m = String::from_str(prefix);
    m.append(detail);
    m
}

impl RoutingType {
    /// The routing mode that the keyword `value` selects: `none`, `static`
    /// or `rip`.
    pub fn try_from(value: &str) -> (r: Result<Self, ParserError>)
        ensures
            match routing_type_of(value@) {
                Ok(mode) => r matches Ok(m) && m == mode,
                Err(e) => r matches Err(x) && x@ == e,
            },
    {
        if str_eq(value, "none") {
            Ok(RoutingType::Disabled)
        } else if str_eq(value, "static") {
            Ok(RoutingType::Static)
        } else if str_eq(value, "rip") {
            Ok(RoutingType::Rip)
        } else {
            Err(ParserError::Other(message("Invalid routing type: ", value)))
        }
    }
}

impl InterfaceConfig {
    /// Reads the tokens of an `interface` line:
    /// `interface <name> <address>/<prefix length> <address>:<port>`.
    pub fn try_from(tokens: Vec<&str>) -> (r: Result<Self, ParserError>)
        ensures
            match interface_of(views(tokens@)) {
                Ok(interface) => r matches Ok(i) && i@ == interface && i@.wf(),
                Err(e) => r matches Err(x) && x@ == e,
            },
    {
        if tokens.len() != 4 {
            return Err(ParserError::BadFormat);
        }
        let name = String::from_str(tokens[1]);
        let assigned_prefix = match Ipv4Network::parse(tokens[2]) {
            Ok(net) => net,
            Err(e) => {
                return Err(ParserError::Ipnet(e));
            },
        };
        let (udp_addr, udp_port) = match str_to_udp(tokens[3]) {
            Ok(endpoint) => endpoint,
            Err(e) => {
                return Err(ParserError::Net(e));
            },
        };
        Ok(
            InterfaceConfig {
                name,
                assigned_prefix,
                assigned_ip: assigned_prefix.addr(),
                udp_addr,
                udp_port,
            },
        )
    }
}

impl NeighborConfig {
    /// Reads the tokens of a `neighbor` line:
    /// `neighbor <address> at <address>:<port> via <interface name>`.
    pub fn try_from(tokens: Vec<&str>) -> (r: Result<Self, ParserError>)
        ensures
            match neighbor_of(views(tokens@)) {
                Ok(neighbor) => r matches Ok(n) && n@ == neighbor,
                Err(e) => r matches Err(x) && x@ == e,
            },
    {
        if tokens.len() != 6 {
            return Err(ParserError::BadFormat);
        }
        let dest_addr = match Ipv4Address::parse(tokens[1]) {
            Ok(addr) => addr,
            Err(e) => {
                return Err(ParserError::Net(e));
            },
        };
        if !str_eq(tokens[2], "at") {
            return Err(ParserError::MissingToken(String::from_str("at")));
        }
        let (udp_addr, udp_port) = match str_to_udp(tokens[3]) {
            Ok(endpoint) => endpoint,
            Err(e) => {
                return Err(ParserError::Net(e));
            },
        };
        if !str_eq(tokens[4], "via") {
            return Err(ParserError::MissingToken(String::from_str("via")));
        }
        Ok(
            NeighborConfig {
                dest_addr,
                udp_addr,
                udp_port,
                interface_name: String::from_str(tokens[5]),
            },
        )
    }
}

/// A run over the lines from the `i`-th on starts with that line, and goes
/// on from the line after it when it is accepted.
proof fn lemma_with_lines_step(cfg: ConfigView, lines: Seq<Seq<char>>, i: int)
    requires
        0 <= i < lines.len(),
    ensures
        with_lines(cfg, lines.skip(i)) == match with_line(cfg, lines[i]) {
            Ok(next) => with_lines(next, lines.skip(i + 1)),
            Err(e) => Outcome {
                config: cfg,
                error: Some(ParserErrorView::InvalidLine(lines[i], Box::new(e))),
            },
        },
{
    assert(lines.skip(i)[0] == lines[i]);
    assert(lines.skip(i).drop_first() =~= lines.skip(i + 1));
}

impl IPConfig {
    /// How a directive's result and the configuration after it relate to
    /// what the directive means: on success the configuration is the new
    /// one; on failure the error is the expected one and the configuration
    /// is untouched.
    pub open spec fn stepped(
        before: IPConfig,
        after: IPConfig,
        r: Result<(), ParserError>,
        expected: Result<ConfigView, ParserErrorView>,
    ) -> bool {
        match expected {
            Ok(cfg) => r is Ok && after@ == cfg,
            Err(e) => r matches Err(x) && x@ == e && after == before,
        }
    }

    /// Whether some neighbor has the address `addr`.
    pub fn has_neighbor(&self, addr: Ipv4Address) -> (found: bool)
        ensures
            found == self@.has_neighbor(addr),
    {
        let mut i: usize = 0;
        while i < self.neighbors.len()
            invariant
                i <= self.neighbors.len(),
                forall|j: int| 0 <= j < i ==> self@.neighbors[j].dest_addr != addr,
            decreases self.neighbors.len() - i,
        {
            if self.neighbors[i].dest_addr == addr {
                assert(self@.neighbors[i as int].dest_addr == addr);
                return true;
            }
            i += 1;
        }
        false
    }

    /// Applies the tokens of a `routing` line: `routing <mode>`.
    pub fn parse_routing(&mut self, tokens: &[&str]) -> (r: Result<(), ParserError>)
        ensures
            IPConfig::stepped(
                *old(self),
                *final(self),
                r,
                with_routing(old(self)@, views(tokens@)),
            ),
    {
        if tokens.len() != 2 {
            return Err(ParserError::BadFormat);
        }
        match RoutingType::try_from(tokens[1]) {
            Ok(mode) => {
                self.routing_mode = mode;
                Ok(())
            },
            Err(e) => Err(e),
        }
    }

    /// Applies the tokens of a `route` line:
    /// `route <address>/<prefix length> via <address>`.
    pub fn parse_route(&mut self, tokens: &[&str]) -> (r: Result<(), ParserError>)
        ensures
            IPConfig::stepped(
                *old(self),
                *final(self),
                r,
                with_route(old(self)@, views(tokens@)),
            ),
    {
        if tokens.len() != 4 {
            return Err(ParserError::BadFormat);
        }
        let prefix = match Ipv4Network::parse(tokens[1]) {
            Ok(net) => net,
            Err(e) => {
                return Err(ParserError::Ipnet(e));
            },
        };
        if !str_eq(tokens[2], "via") {
            return Err(ParserError::MissingToken(String::from_str("via")));
        }
        let addr = match Ipv4Address::parse(tokens[3]) {
            Ok(addr) => addr,
            Err(e) => {
                return Err(ParserError::Net(e));
            },
        };
        self.static_routes.push((prefix, addr));
        Ok(())
    }

    /// Applies the tokens of a `rip` line: `rip advertise-to <address>`.
    /// The address must be that of a neighbor declared before.
    pub fn parse_rip(&mut self, tokens: &[&str]) -> (r: Result<(), ParserError>)
        ensures
            IPConfig::stepped(*old(self), *final(self), r, with_rip(old(self)@, views(tokens@))),
    {
        if tokens.len() != 3 {
            return Err(ParserError::BadFormat);
        }
        if !str_eq(tokens[1], "advertise-to") {
            return Err(ParserError::MissingToken(String::from_str("advertise-to")));
        }
        let addr = match Ipv4Address::parse(tokens[2]) {
            Ok(addr) => addr,
            Err(e) => {
                return Err(ParserError::Net(e));
            },
        };
        if !self.has_neighbor(addr) {
            let text = addr.to_string();
            return Err(ParserError::Other(message("No neighbor with address ", text.as_str())));
        }
        let mut targets = match self.rip_neighbors.take() {
            Some(targets) => targets,
            None => Vec::new(),
        };
        targets.push(addr);
        self.rip_neighbors = Some(targets);
        Ok(())
    }

    /// Applies one line: strips the comment, and hands the tokens that are
    /// left to the directive that the first of them names.
    pub fn parse_line(&mut self, line: &str) -> (r: Result<(), ParserError>)
        ensures
            IPConfig::stepped(*old(self), *final(self), r, with_line(old(self)@, line@)),
    {
        let tokens = drop_comment(tokenize(line));
        if tokens.len() == 0 {
            return Ok(());
        }
        let directive = tokens[0];
        if str_eq(directive, "interface") {
            match InterfaceConfig::try_from(tokens) {
                Ok(interface) => {
                    let ghost declared = interface@;
                    self.interfaces.push(interface);
                    assert(self@.interfaces =~= old(self)@.interfaces.push(declared));
                    assert(self@.neighbors =~= old(self)@.neighbors);
                    Ok(())
                },
                Err(e) => Err(e),
            }
        } else if str_eq(directive, "neighbor") {
            match NeighborConfig::try_from(tokens) {
                Ok(neighbor) => {
                    let ghost declared = neighbor@;
                    self.neighbors.push(neighbor);
                    assert(self@.neighbors =~= old(self)@.neighbors.push(declared));
                    assert(self@.interfaces =~= old(self)@.interfaces);
                    Ok(())
                },
                Err(e) => Err(e),
            }
        } else if str_eq(directive, "routing") {
            self.parse_routing(tokens.as_slice())
        } else if str_eq(directive, "route") {
            self.parse_route(tokens.as_slice())
        } else if str_eq(directive, "rip") {
            self.parse_rip(tokens.as_slice())
        } else {
            Err(ParserError::Other(message("Invalid directive: ", directive)))
        }
    }

    /// Applies the lines of `config` in order, and stops at the first line
    /// that fails. The error is that line's, bound to the text of the line
    /// as it stands in `config`; the lines before it stay applied.
    ///
    /// The error of a line is never itself an `InvalidLine`
    /// (`laws::lemma_line_error_is_bare`), so what is returned is bound to
    /// its line exactly once.
    pub fn parse(&mut self, config: &str) -> (r: Result<(), ParserError>)
        ensures
            final(self)@ == with_text(old(self)@, config@).config,
            match with_text(old(self)@, config@).error {
                None => r is Ok,
                Some(e) => r matches Err(x) && x@ == e,
            },
    {
        let all = lines(config);
        let ghost start = self@;
        let mut i: usize = 0;
        assert(lines_of(config@).skip(0) =~= lines_of(config@));
        while i < all.len()
            invariant
                i <= all.len(),
                start == old(self)@,
                views(all@) == lines_of(config@),
                with_lines(start, lines_of(config@)) == with_lines(
                    self@,
                    lines_of(config@).skip(i as int),
                ),
            decreases all.len() - i,
        {
            let line = all[i];
            proof {
                assert(views(all@)[i as int] == line@);
                lemma_with_lines_step(self@, lines_of(config@), i as int);
            }
            match self.parse_line(line) {
                Ok(()) => {},
                Err(e) => {
                    return Err(ParserError::InvalidLine(String::from_str(line), Box::new(e)));
                },
            }
            i += 1;
        }
        Ok(())
    }

    /// The configuration that `config` describes.
    pub fn from_text(config: &str) -> (r: Result<IPConfig, ParserError>)
        ensures
            match with_text(ConfigView::empty(), config@).error {
                None => r matches Ok(cfg) && cfg@ == with_text(ConfigView::empty(), config@).config,
                Some(e) => r matches Err(x) && x@ == e,
            },
    {
        let mut cfg = IPConfig::default();
        match cfg.parse(config) {
            Ok(()) => Ok(cfg),
            Err(e) => Err(e),
        }
    }
}

} // verus!
