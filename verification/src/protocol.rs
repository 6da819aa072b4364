//! RFC 1928 protocol values and their wire octets.

use vstd::prelude::*;

verus! {

/// Version octet of every SOCKS5 datagram.
pub const SOCKS_VERSION: u8 = 0x05;

/// Reserved octet of requests and replies.
pub const RESERVED: u8 = 0x00;

/// Version octet of the username/password sub-negotiation.
pub const AUTH_VERSION: u8 = 0x01;

/// Reply field of a SOCKS5 reply.
#[derive(Debug, Clone, Copy, PartialEq, Eq, PartialOrd, Ord, Structural)]
pub enum ResponseCode {
    Success,
    Failure,
    RuleFailure,
    NetworkUnreachable,
    HostUnreachable,
    ConnectionRefused,
    TtlExpired,
    CommandNotSupported,
    AddrTypeNotSupported,
}

impl ResponseCode {
    /// The octet that stands for this code on the wire.
    pub open spec fn spec_code(&self) -> u8 {
        match self {
            ResponseCode::Success => 0x00,
            ResponseCode::Failure => 0x01,
            ResponseCode::RuleFailure => 0x02,
            ResponseCode::NetworkUnreachable => 0x03,
            ResponseCode::HostUnreachable => 0x04,
            ResponseCode::ConnectionRefused => 0x05,
            ResponseCode::TtlExpired => 0x06,
            ResponseCode::CommandNotSupported => 0x07,
            ResponseCode::AddrTypeNotSupported => 0x08,
        }
    }

    /// What a human reads for this code.
    pub open spec fn spec_text(self) -> Seq<char> {
        match self {
            ResponseCode::Success => "succeeded"@,
            ResponseCode::Failure => "general SOCKS server failure"@,
            ResponseCode::RuleFailure => "connection now allowed by ruleset"@,
            ResponseCode::NetworkUnreachable => "Network unreachable"@,
            ResponseCode::HostUnreachable => "Host unreachable"@,
            ResponseCode::ConnectionRefused => "Connection refused"@,
            ResponseCode::TtlExpired => "TTL expired"@,
            ResponseCode::CommandNotSupported => "Command not supported"@,
            ResponseCode::AddrTypeNotSupported => "Address type not supported"@,
        }
    }

    #[verifier::when_used_as_spec(spec_code)]
    pub fn code(&self) -> (c: u8)
        ensures
            c == self.spec_code(),
    {
        match self {
            ResponseCode::Success => 0x00,
            ResponseCode::Failure => 0x01,
            ResponseCode::RuleFailure => 0x02,
            ResponseCode::NetworkUnreachable => 0x03,
            ResponseCode::HostUnreachable => 0x04,
            ResponseCode::ConnectionRefused => 0x05,
            ResponseCode::TtlExpired => 0x06,
            ResponseCode::CommandNotSupported => 0x07,
            ResponseCode::AddrTypeNotSupported => 0x08,
        }
    }

    /// The static text of this code.
    pub fn as_str(&self) -> (s: &'static str)
        ensures
            s@ == self.spec_text(),
    {
        match self {
            ResponseCode::Success => "succeeded",
            ResponseCode::Failure => "general SOCKS server failure",
            ResponseCode::RuleFailure => "connection now allowed by ruleset",
            ResponseCode::NetworkUnreachable => "Network unreachable",
            ResponseCode::HostUnreachable => "Host unreachable",
            ResponseCode::ConnectionRefused => "Connection refused",
            ResponseCode::TtlExpired => "TTL expired",
            ResponseCode::CommandNotSupported => "Command not supported",
            ResponseCode::AddrTypeNotSupported => "Address type not supported",
        }
    }

    /// The text of this code as an owned string.
    pub fn message(&self) -> (s: String)
        ensures
            s@ == self.spec_text(),
    {
        self.as_str().to_owned()
    }
}

/// Client authentication methods.
#[derive(Debug, Clone, Copy, PartialEq, Eq, PartialOrd, Ord, Structural)]
pub enum AuthMethods {
    /// No authentication
    NoAuth,
    /// GSSAPI
    GssApi,
    /// Authenticate with a username / password
    UserPass,
    /// IANA assigned method
    IANAMethod(u8),
    /// Reserved for private method
    Private(u8),
    /// No acceptable method
    NoMethods,
}

impl AuthMethods {
    /// The octet that stands for this method on the wire.
    pub open spec fn spec_code(&self) -> u8 {
        match self {
            AuthMethods::NoAuth => 0x00,
            AuthMethods::GssApi => 0x01,
            AuthMethods::UserPass => 0x02,
            AuthMethods::IANAMethod(c) => *c,
            AuthMethods::Private(c) => *c,
            AuthMethods::NoMethods => 0xff,
        }
    }

    /// The method that an octet stands for.
    pub open spec fn of_code(code: u8) -> AuthMethods {
        if code == 0x00 {
            AuthMethods::NoAuth
        } else if code == 0x01 {
            AuthMethods::GssApi
        } else if code == 0x02 {
            AuthMethods::UserPass
        } else if code <= 0x7f {
            AuthMethods::IANAMethod(code)
        } else if code <= 0xfe {
            AuthMethods::Private(code)
        } else {
            AuthMethods::NoMethods
        }
    }

    /// A payload variant carries a code of its own range only.
    pub open spec fn wf(self) -> bool {
        match self {
            AuthMethods::IANAMethod(c) => 0x03 <= c <= 0x7f,
            AuthMethods::Private(c) => 0x80 <= c <= 0xfe,
            _ => true,
        }
    }

    #[verifier::when_used_as_spec(spec_code)]
    pub fn code(&self) -> (c: u8)
        ensures
            c == self.spec_code(),
    {
        match self {
            AuthMethods::NoAuth => 0x00,
            AuthMethods::GssApi => 0x01,
            AuthMethods::UserPass => 0x02,
            AuthMethods::IANAMethod(c) => *c,
            AuthMethods::Private(c) => *c,
            AuthMethods::NoMethods => 0xff,
        }
    }

    /// Whether a payload variant carries a code of its own range.
    pub fn is_valid(&self) -> (ok: bool)
        ensures
            ok == self.wf(),
    {
        match self {
            AuthMethods::IANAMethod(c) => 0x03 <= *c && *c <= 0x7f,
            AuthMethods::Private(c) => 0x80 <= *c && *c <= 0xfe,
            _ => true,
        }
    }

    /// Every octet decodes to a well-formed method with that octet as code.
    pub proof fn lemma_of_code_round_trip(code: u8)
        ensures
            Self::of_code(code).wf(),
            Self::of_code(code).spec_code() == code,
    {
    }

    /// A well-formed method is recovered from its own code.
    pub proof fn lemma_code_round_trip(self)
        requires
            self.wf(),
        ensures
            Self::of_code(self.spec_code()) == self,
    {
    }
}

impl From<u8> for AuthMethods {
    fn from(code: u8) -> (m: AuthMethods) {
        if code == 0x00 {
            AuthMethods::NoAuth
        } else if code == 0x01 {
            AuthMethods::GssApi
        } else if code == 0x02 {
            AuthMethods::UserPass
        } else if code <= 0x7f {
            AuthMethods::IANAMethod(code)
        } else if code <= 0xfe {
            AuthMethods::Private(code)
        } else {
            AuthMethods::NoMethods
        }
    }
}

impl vstd::std_specs::convert::FromSpecImpl<u8> for AuthMethods {
    open spec fn obeys_from_spec() -> bool {
        true
    }

    open spec fn from_spec(code: u8) -> AuthMethods {
        AuthMethods::of_code(code)
    }
}

/// ATYP
#[derive(Debug, Clone, Copy, PartialEq, Eq, PartialOrd, Ord, Structural)]
pub enum AddrType {
    V4,
    Domain,
    V6,
}

impl AddrType {
    /// The octet that stands for this address type on the wire.
    pub open spec fn spec_code(&self) -> u8 {
        match self {
            AddrType::V4 => 0x01,
            AddrType::Domain => 0x03,
            AddrType::V6 => 0x04,
        }
    }

    /// The address type that an octet stands for, if any.
    pub open spec fn of_code(n: u8) -> Option<AddrType> {
        if n == 1 {
            Some(AddrType::V4)
        } else if n == 3 {
            Some(AddrType::Domain)
        } else if n == 4 {
            Some(AddrType::V6)
        } else {
            None
        }
    }

    pub open spec fn spec_text(self) -> Seq<char> {
        match self {
            AddrType::V4 => "Version4 IP Address"@,
            AddrType::Domain => "Fully Qualified Domain Name"@,
            AddrType::V6 => "Version6 IP Address"@,
        }
    }

    #[verifier::when_used_as_spec(spec_code)]
    pub fn code(&self) -> (c: u8)
        ensures
            c == self.spec_code(),
    {
        match self {
            AddrType::V4 => 0x01,
            AddrType::Domain => 0x03,
            AddrType::V6 => 0x04,
        }
    }

    /// The address type of an octet; `None` for every octet but 1, 3 and 4.
    pub fn from_code(n: u8) -> (r: Option<AddrType>)
        ensures
            r == Self::of_code(n),
    {
        if n == 1 {
            Some(AddrType::V4)
        } else if n == 3 {
            Some(AddrType::Domain)
        } else if n == 4 {
            Some(AddrType::V6)
        } else {
            None
        }
    }

    pub fn as_str(&self) -> (s: &'static str)
        ensures
            s@ == self.spec_text(),
    {
        match self {
            AddrType::V4 => "Version4 IP Address",
            AddrType::Domain => "Fully Qualified Domain Name",
            AddrType::V6 => "Version6 IP Address",
        }
    }

    /// An address type is recovered from its own code.
    pub proof fn lemma_code_round_trip(self)
        ensures
            Self::of_code(self.spec_code()) == Some(self),
    {
    }
}

/// SOCKS5 CMD type
#[derive(Debug, Clone, Copy, PartialEq, Eq, PartialOrd, Ord, Structural)]
pub enum SockCommand {
    Connect,
    Bind,
    UdpAssosiate,
}

impl SockCommand {
    /// The octet that stands for this command on the wire.
    pub open spec fn spec_code(&self) -> u8 {
        match self {
            SockCommand::Connect => 0x01,
            SockCommand::Bind => 0x02,
            SockCommand::UdpAssosiate => 0x03,
        }
    }

    /// The command that a number stands for, if any.
    pub open spec fn of_code(n: int) -> Option<SockCommand> {
        if n == 1 {
            Some(SockCommand::Connect)
        } else if n == 2 {
            Some(SockCommand::Bind)
        } else if n == 3 {
            Some(SockCommand::UdpAssosiate)
        } else {
            None
        }
    }

    #[verifier::when_used_as_spec(spec_code)]
    pub fn code(&self) -> (c: u8)
        ensures
            c == self.spec_code(),
    {
        match self {
            SockCommand::Connect => 0x01,
            SockCommand::Bind => 0x02,
            SockCommand::UdpAssosiate => 0x03,
        }
    }

    /// Parse a number to a command; `None` for every number but 1, 2 and 3.
    pub fn from(n: usize) -> (r: Option<SockCommand>)
        ensures
            r == Self::of_code(n as int),
    {
        if n == 1 {
            Some(SockCommand::Connect)
        } else if n == 2 {
            Some(SockCommand::Bind)
        } else if n == 3 {
            Some(SockCommand::UdpAssosiate)
        } else {
            None
        }
    }

    /// A command is recovered from its own code.
    pub proof fn lemma_code_round_trip(self)
        ensures
            Self::of_code(self.spec_code() as int) == Some(self),
    {
    }
}


/// Why a datagram could not be decoded.
#[derive(Debug, Clone, Copy, PartialEq, Eq, Structural)]
pub enum ParseError {
    /// Fewer octets than the framing asks for.
    TruncatedInput,
    /// The version octet is not the protocol's.
    UnsupportedVersion,
    /// The command octet names no command.
    UnsupportedCommand,
    /// The address-type octet names no address type.
    UnsupportedAddressType,
}

/// The number that two octets in network order stand for.
pub open spec fn be16(hi: u8, lo: u8) -> u16 {
    (hi as int * 256 + lo as int) as u16
}

/// Merge two octets in network order into a `u16`.
pub fn u16_from_be(hi: u8, lo: u8) -> (n: u16)
    ensures
        n == be16(hi, lo),
        n / 256 == hi,
        n % 256 == lo,
{
    (hi as u16) * 256 + (lo as u16)
}

/// What an address is: its type, its octets as they stand on the wire, and
/// the port.
pub struct AddressModel {
    pub kind: AddrType,
    pub octets: Seq<u8>,
    pub port: u16,
}

impl AddressModel {
    /// The octets have the length that the type asks for; a domain name has
    /// from 1 to 255 octets.
    pub open spec fn wf(self) -> bool {
        match self.kind {
            AddrType::V4 => self.octets.len() == 4,
            AddrType::V6 => self.octets.len() == 16,
            AddrType::Domain => 1 <= self.octets.len() <= 255,
        }
    }

    /// An IPv4 address has 4 octets and an IPv6 address 16; a domain name
    /// has any number of them.
    pub open spec fn sized(self) -> bool {
        match self.kind {
            AddrType::V4 => self.octets.len() == 4,
            AddrType::V6 => self.octets.len() == 16,
            AddrType::Domain => true,
        }
    }

    /// `ATYP | ADDR | PORT`, the port in network order, a domain name behind
    /// its length octet.
    pub open spec fn encode(self) -> Seq<u8> {
        let port = seq![(self.port / 256) as u8, (self.port % 256) as u8];
        match self.kind {
            AddrType::Domain => seq![self.kind.spec_code(), self.octets.len() as u8] + self.octets
                + port,
            _ => seq![self.kind.spec_code()] + self.octets + port,
        }
    }
}

/// How many octets the address field that starts `b` has, as far as `b`
/// tells: a field with fewer octets is incomplete.
pub open spec fn address_need(b: Seq<u8>) -> nat {
    if b.len() < 1 {
        1
    } else {
        match AddrType::of_code(b[0]) {
            None => 1,
            Some(AddrType::V4) => 7,
            Some(AddrType::V6) => 19,
            Some(AddrType::Domain) => if b.len() < 2 {
                2
            } else {
                (4 + b[1]) as nat
            },
        }
    }
}

/// The address that stands at the start of `b`; octets behind it are not
/// looked at.
pub open spec fn decode_address(b: Seq<u8>) -> Result<AddressModel, ParseError> {
    if b.len() < 1 {
        Err(ParseError::TruncatedInput)
    } else {
        match AddrType::of_code(b[0]) {
            None => Err(ParseError::UnsupportedAddressType),
            Some(kind) => if b.len() < address_need(b) {
                Err(ParseError::TruncatedInput)
            } else {
                let n = address_need(b) as int;
                let start: int = if kind == AddrType::Domain {
                    2
                } else {
                    1
                };
                Ok(
                    AddressModel {
                        kind,
                        octets: b.subrange(start, n - 2),
                        port: be16(b[n - 2], b[n - 1]),
                    },
                )
            },
        }
    }
}

/// Encoding an address and decoding the result yields the same address.
pub proof fn lemma_address_round_trip(a: AddressModel)
    requires
        a.wf(),
    ensures
        decode_address(a.encode()) == Ok::<AddressModel, ParseError>(a),
{
    let b = a.encode();
    a.kind.lemma_code_round_trip();
    let n = address_need(b) as int;
    assert(n == b.len());
    let start: int = if a.kind == AddrType::Domain {
        2
    } else {
        1
    };
    assert(b.subrange(start, n - 2) =~= a.octets);
    assert(b[n - 2] == (a.port / 256) as u8);
    assert(b[n - 1] == (a.port % 256) as u8);
    assert(be16(b[n - 2], b[n - 1]) == a.port);
}

/// ATYP and (DST or BND)
#[derive(Debug, Clone, Copy, PartialEq, Eq, PartialOrd, Ord)]
pub struct Address<'a> {
    kind: AddrType,
    data: &'a [u8],
    port: u16,
}

impl<'a> View for Address<'a> {
    type V = AddressModel;

    closed spec fn view(&self) -> AddressModel {
        AddressModel { kind: self.kind, octets: self.data@, port: self.port }
    }
}

impl<'a> Address<'a> {
    pub fn new(kind: AddrType, data: &'a [u8], port: u16) -> (a: Self)
        ensures
            a@ == (AddressModel { kind, octets: data@, port }),
    {
        Address { kind, data, port }
    }

    pub fn addr_type(&self) -> (k: AddrType)
        ensures
            k == self@.kind,
    {
        self.kind
    }

    pub fn data(&self) -> (d: &'a [u8])
        ensures
            d@ == self@.octets,
    {
        self.data
    }

    pub fn port(&self) -> (p: u16)
        ensures
            p == self@.port,
    {
        self.port
    }

    /// Whether the octets have the length that the address type asks for.
    pub fn is_valid(&self) -> (ok: bool)
        ensures
            ok == self@.wf(),
    {
        match self.kind {
            AddrType::V4 => self.data.len() == 4,
            AddrType::V6 => self.data.len() == 16,
            AddrType::Domain => 1 <= self.data.len() && self.data.len() <= 255,
        }
    }

    /// Whether an IP address has the number of octets of its type.
    pub fn is_sized(&self) -> (ok: bool)
        ensures
            ok == self@.sized(),
    {
        match self.kind {
            AddrType::V4 => self.data.len() == 4,
            AddrType::V6 => self.data.len() == 16,
            AddrType::Domain => true,
        }
    }

    /// The address as it stands in a request or a reply.
    pub fn encode(&self) -> (out: Vec<u8>)
        requires
            self@.wf(),
        ensures
            out@ == self@.encode(),
    {
        let mut out: Vec<u8> = Vec::new();
        out.push(self.kind.code());
        if self.kind == AddrType::Domain {
            out.push(self.data.len() as u8);
        }
        let ghost head = out@;
        let mut i: usize = 0;
        while i < self.data.len()
            invariant
                i <= self.data.len(),
                out@ == head + self.data@.subrange(0, i as int),
            decreases self.data.len() - i,
        {
            out.push(self.data[i]);
            assert(out@ =~= head + self.data@.subrange(0, i + 1));
            i += 1;
        }
        assert(self.data@.subrange(0, i as int) =~= self.data@);
        out.push((self.port / 256) as u8);
        out.push((self.port % 256) as u8);
        assert(out@ =~= self@.encode());
        out
    }

    /// Decode the address that stands at the start of `buf`, borrowing its
    /// octets from `buf`.
    pub fn decode(buf: &'a [u8]) -> (r: Result<Address<'a>, ParseError>)
        ensures
            match r {
                Ok(a) => decode_address(buf@) == Ok::<AddressModel, ParseError>(a@),
                Err(e) => decode_address(buf@) == Err::<AddressModel, ParseError>(e),
            },
    {
        if buf.len() < 1 {
            return Err(ParseError::TruncatedInput);
        }
        let kind = match AddrType::from_code(buf[0]) {
            None => {
                return Err(ParseError::UnsupportedAddressType);
            },
            Some(kind) => kind,
        };
        let (start, end): (usize, usize) = match kind {
            AddrType::V4 => (1, 5),
            AddrType::V6 => (1, 17),
            AddrType::Domain => {
                if buf.len() < 2 {
                    return Err(ParseError::TruncatedInput);
                }
                (2, 2 + buf[1] as usize)
            },
        };
        if buf.len() < end + 2 {
            return Err(ParseError::TruncatedInput);
        }
        let data = vstd::slice::slice_subrange(buf, start, end);
        let port = u16_from_be(buf[end], buf[end + 1]);
        Ok(Address { kind, data, port })
    }
}


/// An octet that stands for no value of the type it was to become.
#[derive(Debug, Clone, PartialEq, Eq, PartialOrd, Ord)]
pub struct TryFromU8Error {
    /// source value
    value: u8,
    /// target type
    to: String,
}

impl TryFromU8Error {
    /// The octet that was refused.
    pub closed spec fn spec_value(&self) -> u8 {
        self.value
    }

    /// The name of the type that the octet was to become.
    pub closed spec fn spec_target(&self) -> Seq<char> {
        self.to@
    }

    #[verifier::when_used_as_spec(spec_value)]
    pub fn value(&self) -> (v: u8)
        ensures
            v == self.spec_value(),
    {
        self.value
    }

    pub fn target(&self) -> (t: &str)
        ensures
            t@ == self.spec_target(),
    {
        self.to.as_str()
    }
}

impl TryFrom<u8> for AddrType {
    type Error = TryFromU8Error;

    /// Parse an octet to an address type.
    fn try_from(n: u8) -> (r: Result<AddrType, TryFromU8Error>)
        ensures
            r is Ok <==> AddrType::of_code(n) is Some,
            r is Ok ==> Some(r.unwrap()) == AddrType::of_code(n),
            r is Err ==> r.unwrap_err().spec_value() == n && r.unwrap_err().spec_target()
                == "protocol::AddrType"@,
    {
        match AddrType::from_code(n) {
            Some(t) => Ok(t),
            None => Err(TryFromU8Error { value: n, to: "protocol::AddrType".to_owned() }),
        }
    }
}

impl vstd::std_specs::convert::TryFromSpecImpl<u8> for AddrType {
    open spec fn obeys_try_from_spec() -> bool {
        false
    }

    open spec fn try_from_spec(n: u8) -> Result<AddrType, TryFromU8Error> {
        match AddrType::of_code(n) {
            Some(t) => Ok(t),
            None => Err(choose|e: TryFromU8Error| e.spec_value() == n),
        }
    }
}

impl TryFrom<u8> for SockCommand {
    type Error = TryFromU8Error;

    /// Parse an octet to a command.
    fn try_from(n: u8) -> (r: Result<SockCommand, TryFromU8Error>)
        ensures
            r is Ok <==> SockCommand::of_code(n as int) is Some,
            r is Ok ==> Some(r.unwrap()) == SockCommand::of_code(n as int),
            r is Err ==> r.unwrap_err().spec_value() == n && r.unwrap_err().spec_target()
                == "protocol::SockCommand"@,
    {
        match SockCommand::from(n as usize) {
            Some(c) => Ok(c),
            None => Err(TryFromU8Error { value: n, to: "protocol::SockCommand".to_owned() }),
        }
    }
}

impl vstd::std_specs::convert::TryFromSpecImpl<u8> for SockCommand {
    open spec fn obeys_try_from_spec() -> bool {
        false
    }

    open spec fn try_from_spec(n: u8) -> Result<SockCommand, TryFromU8Error> {
        match SockCommand::of_code(n as int) {
            Some(c) => Ok(c),
            None => Err(choose|e: TryFromU8Error| e.spec_value() == n),
        }
    }
}

} // verus!
