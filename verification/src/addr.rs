//! IPv4 addresses, networks and transport endpoints, with their textual forms.
//!
//! Addresses, ports and endpoints are read by verified code. Networks in
//! CIDR notation are read by the `ipnet` crate, whose grammar is written
//! down here as `network_of`.

use crate::text::{decimal_up_to, parse_decimal, split, split_on};
use vstd::prelude::*;

verus! {

/// An IPv4 address, as its four octets from the most significant down.
#[derive(Debug, Clone, Copy, PartialEq, Eq, Hash, Structural)]
pub struct Ipv4Address {
    pub a: u8,
    pub b: u8,
    pub c: u8,
    pub d: u8,
}

/// An IPv4 address together with a prefix length, as CIDR notation writes
/// them. The address is kept as given: its host bits are not cleared.
#[derive(Debug, Clone, Copy, PartialEq, Eq, Hash, Structural)]
pub struct Ipv4Network {
    pub addr: Ipv4Address,
    pub prefix_len: u8,
}

/// Why the text of an address or of an endpoint was rejected.
#[derive(Debug, Clone, Copy, PartialEq, Eq, Structural)]
pub enum AddressError {
    /// The text is not an IPv4 address in dotted-decimal notation.
    Address,
    /// The port is missing, is not a decimal number, exceeds 65535, or is
    /// followed by another colon.
    Port,
}

/// The error that `ipnet` reports for text that is not a network. It carries
/// no detail.
#[verifier::external_type_specification]
#[verifier::external_body]
pub struct ExNetParseError(ipnet::AddrParseError);

/// One octet in decimal: one to three digits that denote at most 255.
/// With `strict`, a leading zero is accepted only in the single digit `0`.
pub open spec fn octet_of(s: Seq<char>, strict: bool) -> Option<u8> {
    if s.len() <= 3 && (!strict || s.len() == 1 || s[0] != '0') {
        match decimal_up_to(s, 255) {
            Some(v) => Some(v as u8),
            None => None,
        }
    } else {
        None
    }
}

/// Four octets separated by dots.
pub open spec fn quad_of(s: Seq<char>, strict: bool) -> Option<Ipv4Address> {
    let p = split_on(s, '.');
    if p.len() == 4 && octet_of(p[0], strict) is Some && octet_of(p[1], strict) is Some && octet_of(
        p[2],
        strict,
    ) is Some && octet_of(p[3], strict) is Some {
        Some(
            Ipv4Address {
                a: octet_of(p[0], strict)->0,
                b: octet_of(p[1], strict)->0,
                c: octet_of(p[2], strict)->0,
                d: octet_of(p[3], strict)->0,
            },
        )
    } else {
        None
    }
}

/// The address that `s` denotes in dotted-decimal notation, where no octet
/// may be written with a leading zero.
pub open spec fn address_of(s: Seq<char>) -> Option<Ipv4Address> {
    quad_of(s, true)
}

/// A prefix length: one or two digits that denote at most 32.
pub open spec fn prefix_len_of(s: Seq<char>) -> Option<u8> {
    if s.len() <= 2 {
        match decimal_up_to(s, 32) {
            Some(v) => Some(v as u8),
            None => None,
        }
    } else {
        None
    }
}

/// The network that `s` denotes in CIDR notation: four octets separated by
/// dots, a slash, and a prefix length. Octets and prefix length may be
/// written with leading zeros, within their three and two digits.
pub open spec fn network_of(s: Seq<char>) -> Option<Ipv4Network> {
    let p = split_on(s, '/');
    if p.len() == 2 && quad_of(p[0], false) is Some && prefix_len_of(p[1]) is Some {
        Some(Ipv4Network { addr: quad_of(p[0], false)->0, prefix_len: prefix_len_of(p[1])->0 })
    } else {
        None
    }
}

/// The port that `s` denotes: an optional `+`, then one or more digits that
/// denote at most 65535.
pub open spec fn port_of(s: Seq<char>) -> Option<u16> {
    let digits = if s.len() > 0 && s[0] == '+' {
        s.drop_first()
    } else {
        s
    };
    match decimal_up_to(digits, 65535) {
        Some(v) => Some(v as u16),
        None => None,
    }
}

/// The endpoint that `s` denotes: an address, one colon and a port, and
/// nothing else. The address is judged first; text with no colon or with
/// more than one has no port that can be read.
pub open spec fn endpoint_of(s: Seq<char>) -> Result<(Ipv4Address, u16), AddressError> {
    let p = split_on(s, ':');
    match address_of(p[0]) {
        None => Err(AddressError::Address),
        Some(addr) => if p.len() != 2 {
            Err(AddressError::Port)
        } else {
            match port_of(p[1]) {
                None => Err(AddressError::Port),
                Some(port) => Ok((addr, port)),
            }
        },
    }
}

pub open spec fn digit_char(d: nat) -> char {
    if d == 0 {
        '0'
    } else if d == 1 {
        '1'
    } else if d == 2 {
        '2'
    } else if d == 3 {
        '3'
    } else if d == 4 {
        '4'
    } else if d == 5 {
        '5'
    } else if d == 6 {
        '6'
    } else if d == 7 {
        '7'
    } else if d == 8 {
        '8'
    } else {
        '9'
    }
}

/// The shortest decimal numeral for `n`.
pub open spec fn decimal_text(n: nat) -> Seq<char>
    decreases n,
{
    if n < 10 {
        seq![digit_char(n)]
    } else {
        decimal_text(n / 10).push(digit_char(n % 10))
    }
}

/// Dotted-decimal notation for `addr`.
pub open spec fn address_text(addr: Ipv4Address) -> Seq<char> {
    decimal_text(addr.a as nat) + seq!['.'] + decimal_text(addr.b as nat) + seq!['.']
        + decimal_text(addr.c as nat) + seq!['.'] + decimal_text(addr.d as nat)
}

/// CIDR notation for `net`.
pub open spec fn network_text(net: Ipv4Network) -> Seq<char> {
    address_text(net.addr) + seq!['/'] + decimal_text(net.prefix_len as nat)
}

fn parse_octet(s: &str) -> (r: Option<u8>)
    ensures
        r == octet_of(s@, true),
{
    let n = s.unicode_len();
    if n == 0 || n > 3 {
        return None;
    }
    if n > 1 && s.get_char(0) == '0' {
        return None;
    }
    match parse_decimal(s, 255) {
        Some(v) => Some(v as u8),
        None => None,
    }
}

/// Reads a port number.
pub fn parse_port(s: &str) -> (r: Option<u16>)
    ensures
        r == port_of(s@),
{
    let n = s.unicode_len();
    let digits = if n > 0 && s.get_char(0) == '+' {
        s.substring_char(1, n)
    } else {
        s
    };
    match parse_decimal(digits, 65535) {
        Some(v) => Some(v as u16),
        None => None,
    }
}

fn digit_str(d: u8) -> (s: &'static str)
    requires
        d < 10,
    ensures
        s@ == seq![digit_char(d as nat)],
{
    proof {
        reveal_strlit("0");
        reveal_strlit("1");
        reveal_strlit("2");
        reveal_strlit("3");
        reveal_strlit("4");
        reveal_strlit("5");
        reveal_strlit("6");
        reveal_strlit("7");
        reveal_strlit("8");
        reveal_strlit("9");
    }
    let s = if d == 0 {
        "0"
    } else if d == 1 {
        "1"
    } else if d == 2 {
        "2"
    } else if d == 3 {
        "3"
    } else if d == 4 {
        "4"
    } else if d == 5 {
        "5"
    } else if d == 6 {
        "6"
    } else if d == 7 {
        "7"
    } else if d == 8 {
        "8"
    } else {
        "9"
    };
    assert(s@ =~= seq![digit_char(d as nat)]);
    s
}

fn append_decimal(out: &mut String, n: u8)
    ensures
        final(out)@ == old(out)@ + decimal_text(n as nat),
{
    let ghost start = out@;
    if n >= 100 {
        out.append(digit_str(n / 100));
    }
    if n >= 10 {
        out.append(digit_str((n / 10) % 10));
    }
    out.append(digit_str(n % 10));
    proof {
        let tens = (n / 10) as nat;
        if n >= 100 {
            assert(decimal_text(tens / 10) =~= seq![digit_char(tens / 10)]);
            assert(decimal_text(tens) =~= seq![digit_char(tens / 10), digit_char(tens % 10)]);
        } else if n >= 10 {
            assert(decimal_text(tens) =~= seq![digit_char(tens)]);
        }
        assert(out@ =~= start + decimal_text(n as nat));
    }
}

impl Ipv4Address {
    pub fn new(a: u8, b: u8, c: u8, d: u8) -> (addr: Self)
        ensures
            addr == (Ipv4Address { a, b, c, d }),
    {
        Ipv4Address { a, b, c, d }
    }

    /// The four octets, most significant first.
    pub fn octets(&self) -> (o: [u8; 4])
        ensures
            o@ == seq![self.a, self.b, self.c, self.d],
    {
        let o = [self.a, self.b, self.c, self.d];
        assert(o@ =~= seq![self.a, self.b, self.c, self.d]);
        o
    }

    /// Reads an address in dotted-decimal notation.
    pub fn parse(s: &str) -> (r: Result<Self, AddressError>)
        ensures
            match r {
                Ok(addr) => address_of(s@) == Some(addr),
                Err(e) => address_of(s@) is None && e == AddressError::Address,
            },
    {
        let parts = split(s, '.');
        if parts.len() != 4 {
            return Err(AddressError::Address);
        }
        let a = parse_octet(parts[0]);
        let b = parse_octet(parts[1]);
        let c = parse_octet(parts[2]);
        let d = parse_octet(parts[3]);
        match (a, b, c, d) {
            (Some(a), Some(b), Some(c), Some(d)) => Ok(Ipv4Address { a, b, c, d }),
            _ => Err(AddressError::Address),
        }
    }

    /// Dotted-decimal notation for this address.
    pub fn to_string(&self) -> (s: String)
        ensures
            s@ == address_text(*self),
    {
        proof {
            reveal_strlit(".");
        }
        let mut s = String::new();
        append_decimal(&mut s, self.a);
        s.append(".");
        append_decimal(&mut s, self.b);
        s.append(".");
        append_decimal(&mut s, self.c);
        s.append(".");
        append_decimal(&mut s, self.d);
        assert(s@ =~= address_text(*self));
        s
    }
}

/// Calls `ipnet`'s parser for `Ipv4Net` and copies the address and the
/// prefix length out of the network it returns.
///
/// The contract states the crate's grammar: the text is accepted exactly
/// when it is four dot-separated octets of one to three digits each, at
/// most 255, then a slash, then a prefix length of one or two digits, at
/// most 32. The parser keeps the address as written, host bits included.
#[verifier::external_body]
fn parse_net(text: &str) -> (r: Result<Ipv4Network, ipnet::AddrParseError>)
    ensures
        match r {
            Ok(net) => network_of(text@) == Some(net),
            Err(_) => network_of(text@) is None,
        },
{
    match text.parse::<ipnet::Ipv4Net>() {
        Ok(net) => {
            let o = net.addr().octets();
            let addr = Ipv4Address { a: o[0], b: o[1], c: o[2], d: o[3] };
            Ok(Ipv4Network { addr, prefix_len: net.prefix_len() })
        },
        Err(e) => Err(e),
    }
}

impl Ipv4Network {
    /// A prefix length is at most 32.
    pub open spec fn wf(&self) -> bool {
        self.prefix_len <= 32
    }

    /// The network of `addr` with the given prefix length, if that is at
    /// most 32.
    pub fn new(addr: Ipv4Address, prefix_len: u8) -> (r: Option<Self>)
        ensures
            r == if prefix_len <= 32 {
                Some(Ipv4Network { addr, prefix_len })
            } else {
                None
            },
    {
        if prefix_len <= 32 {
            Some(Ipv4Network { addr, prefix_len })
        } else {
            None
        }
    }

    /// The address as it was given, host bits included.
    pub fn addr(&self) -> (a: Ipv4Address)
        ensures
            a == self.addr,
    {
        self.addr
    }

    pub fn prefix_len(&self) -> (n: u8)
        ensures
            n == self.prefix_len,
    {
        self.prefix_len
    }

    /// Reads a network in CIDR notation.
    pub fn parse(text: &str) -> (r: Result<Self, ipnet::AddrParseError>)
        ensures
            match r {
                Ok(net) => network_of(text@) == Some(net) && net.wf(),
                Err(_) => network_of(text@) is None,
            },
    {
        parse_net(text)
    }

    /// CIDR notation for this network.
    pub fn to_string(&self) -> (s: String)
        ensures
            s@ == network_text(*self),
    {
        proof {
            reveal_strlit("/");
        }
        let mut s = self.addr.to_string();
        s.append("/");
        append_decimal(&mut s, self.prefix_len);
        assert(s@ =~= network_text(*self));
        s
    }
}

/// Reads a transport endpoint, `<address>:<port>`.
///
/// The address is the text before the colon and the port the text after it.
/// A malformed address is reported before a missing, malformed or
/// out-of-range port; a second colon makes the port malformed.
pub fn str_to_udp(input: &str) -> (r: Result<(Ipv4Address, u16), AddressError>)
    ensures
        r == endpoint_of(input@),
{
    let parts = split(input, ':');
    assert(split_on(input@, ':').len() >= 1);
    let addr = match Ipv4Address::parse(parts[0]) {
        Ok(addr) => addr,
        Err(e) => {
            return Err(e);
        },
    };
    if parts.len() != 2 {
        return Err(AddressError::Port);
    }
    match parse_port(parts[1]) {
        Some(port) => Ok((addr, port)),
        None => Err(AddressError::Port),
    }
}

} // verus!
