//! The errors of the parser, and the sentences that describe them.

use crate::addr::AddressError;
use vstd::prelude::*;

verus! {

/// Why a line, or a field of it, was rejected.
#[derive(Debug, PartialEq, Eq)]
pub enum ParserError {
    /// A network in CIDR notation was malformed.
    Ipnet(ipnet::AddrParseError),
    /// An address or an endpoint was malformed.
    Net(AddressError),
    /// The named keyword was expected at a fixed position and was not there.
    MissingToken(String),
    /// An unknown directive, an unknown routing mode, or a reference to a
    /// neighbor that has not been declared; the message says which.
    Other(String),
    /// The number of tokens is not the one that the directive takes.
    BadFormat,
    /// The line, as it stands in the input, and the error it gave.
    InvalidLine(String, Box<ParserError>),
}

/// A `ParserError` with its strings as character sequences.
pub enum ParserErrorView {
    Ipnet,
    Net(AddressError),
    MissingToken(Seq<char>),
    Other(Seq<char>),
    BadFormat,
    InvalidLine(Seq<char>, Box<ParserErrorView>),
}

impl ParserError {
    /// The error with its strings as character sequences.
    pub open spec fn model(&self) -> ParserErrorView
        decreases self,
    {
        match self {
            ParserError::Ipnet(_) => ParserErrorView::Ipnet,
            ParserError::Net(e) => ParserErrorView::Net(*e),
            ParserError::MissingToken(t) => ParserErrorView::MissingToken(t@),
            ParserError::Other(m) => ParserErrorView::Other(m@),
            ParserError::BadFormat => ParserErrorView::BadFormat,
            ParserError::InvalidLine(line, e) => ParserErrorView::InvalidLine(
                line@,
                Box::new(e.model()),
            ),
        }
    }
}

impl View for ParserError {
    type V = ParserErrorView;

    open spec fn view(&self) -> ParserErrorView {
        self.model()
    }
}

impl ParserErrorView {
    /// The sentence that describes the error. An `InvalidLine` quotes the
    /// line and puts the description of its cause on a line of its own.
    pub open spec fn message(self) -> Seq<char>
        decreases self,
    {
        match self {
            ParserErrorView::Ipnet => "IPNet error: "@ + "invalid IP address syntax"@,
            ParserErrorView::Net(AddressError::Address) => "Net error: "@
                + "invalid IPv4 address syntax"@,
            ParserErrorView::Net(AddressError::Port) => "Net error: "@ + "invalid port number"@,
            ParserErrorView::MissingToken(t) => "Missing token: "@ + t,
            ParserErrorView::Other(m) => "Error: "@ + m,
            ParserErrorView::BadFormat => "Bad format"@,
            ParserErrorView::InvalidLine(line, e) => "Invalid line: "@ + line + "\n"@
                + e.message(),
        }
    }

    /// Whether this is an error of a single directive, as opposed to one
    /// that has been bound to the line it came from.
    pub open spec fn is_bare(self) -> bool {
        !(self is InvalidLine)
    }
}

/// Calls `Display` of `ipnet`'s `AddrParseError`, which writes one fixed
/// sentence whatever the error was made from.
#[verifier::external_body]
fn net_error_text(e: &ipnet::AddrParseError) -> (s: String)
    ensures
        s@ == "invalid IP address syntax"@,
{
    e.to_string()
}

impl From<ipnet::AddrParseError> for ParserError {
    fn from(e: ipnet::AddrParseError) -> (error: Self) {
        ParserError::Ipnet(e)
    }
}

impl vstd::std_specs::convert::FromSpecImpl<ipnet::AddrParseError> for ParserError {
    open spec fn obeys_from_spec() -> bool {
        true
    }

    open spec fn from_spec(e: ipnet::AddrParseError) -> Self {
        ParserError::Ipnet(e)
    }
}

impl From<AddressError> for ParserError {
    fn from(e: AddressError) -> (error: Self) {
        ParserError::Net(e)
    }
}

impl vstd::std_specs::convert::FromSpecImpl<AddressError> for ParserError {
    open spec fn obeys_from_spec() -> bool {
        true
    }

    open spec fn from_spec(e: AddressError) -> Self {
        ParserError::Net(e)
    }
}

/// `Clone` of `ipnet`'s `AddrParseError`. Nothing is claimed of the copy: the
/// error has no content that a contract could speak of.
pub assume_specification[ <ipnet::AddrParseError as Clone>::clone ](
    e: &ipnet::AddrParseError,
) -> (copy: ipnet::AddrParseError)
;

impl Clone for ParserError {
    fn clone(&self) -> (copy: Self)
        ensures
            copy@ == self@,
        decreases self,
    {
        match self {
            ParserError::Ipnet(e) => ParserError::Ipnet(e.clone()),
            ParserError::Net(e) => ParserError::Net(*e),
            ParserError::MissingToken(t) => ParserError::MissingToken(t.clone()),
            ParserError::Other(m) => ParserError::Other(m.clone()),
            ParserError::BadFormat => ParserError::BadFormat,
            ParserError::InvalidLine(line, e) => {
                let cause: ParserError = (**e).clone();
                ParserError::InvalidLine(line.clone(), Box::new(cause))
            },
        }
    }
}

impl ParserError {
    /// The sentence that describes the error.
    pub fn to_string(&self) -> (s: String)
        ensures
            s@ == self@.message(),
        decreases self,
    {
        match self {
            ParserError::Ipnet(e) => {
                let mut s = String::from_str("IPNet error: ");
                let detail = net_error_text(e);
                s.append(detail.as_str());
                s
            },
            ParserError::Net(AddressError::Address) => {
                let mut s = String::from_str("Net error: ");
                s.append("invalid IPv4 address syntax");
                s
            },
            ParserError::Net(AddressError::Port) => {
                let mut s = String::from_str("Net error: ");
                s.append("invalid port number");
                s
            },
            ParserError::MissingToken(t) => {
                let mut s = String::from_str("Missing token: ");
                s.append(t.as_str());
                s
            },
            ParserError::Other(m) => {
                let mut s = String::from_str("Error: ");
                s.append(m.as_str());
                s
            },
            ParserError::BadFormat => String::from_str("Bad format"),
            ParserError::InvalidLine(line, e) => {
                let mut s = String::from_str("Invalid line: ");
                s.append(line.as_str());
                s.append("\n");
                let cause = e.to_string();
                s.append(cause.as_str());
                s
            },
        }
    }
}

} // verus!
