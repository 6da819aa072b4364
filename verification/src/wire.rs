//! Framing of the datagrams that a client sends and of the server's answers.
//!
//! Every client datagram has a length that its own first octets give, so each
//! has two functions here: one that says how many octets the datagram has as
//! far as the octets read so far tell, and one that decodes a complete one.

use crate::protocol::{
    address_need, decode_address, AddrType, Address, AddressModel, AuthMethods, ParseError,
    ResponseCode, SockCommand, AUTH_VERSION, RESERVED, SOCKS_VERSION,
};
use vstd::prelude::*;
use vstd::slice::slice_subrange;

verus! {

/// How many octets the greeting that starts `b` has, as far as `b` tells. A
/// greeting of another version ends with its two-octet header.
pub open spec fn greeting_need(b: Seq<u8>) -> nat {
    if b.len() < 2 || b[0] != SOCKS_VERSION {
        2
    } else {
        (2 + b[1]) as nat
    }
}

/// The method octets of the greeting at the start of `b`.
pub open spec fn decode_greeting(b: Seq<u8>) -> Result<Seq<u8>, ParseError> {
    if b.len() < 2 {
        Err(ParseError::TruncatedInput)
    } else if b[0] != SOCKS_VERSION {
        Err(ParseError::UnsupportedVersion)
    } else if b.len() < greeting_need(b) {
        Err(ParseError::TruncatedInput)
    } else {
        Ok(b.subrange(2, 2 + b[1]))
    }
}

/// `VER | NMETHODS | METHODS`
pub open spec fn encode_greeting(methods: Seq<u8>) -> Seq<u8> {
    seq![SOCKS_VERSION, methods.len() as u8] + methods
}

/// A greeting that offers up to 255 methods decodes to the methods offered.
pub proof fn lemma_greeting_round_trip(methods: Seq<u8>)
    requires
        methods.len() <= 255,
    ensures
        decode_greeting(encode_greeting(methods)) == Ok::<Seq<u8>, ParseError>(methods),
        greeting_need(encode_greeting(methods)) == encode_greeting(methods).len(),
{
    let b = encode_greeting(methods);
    assert(b.subrange(2, 2 + b[1]) =~= methods);
}

/// See `greeting_need`.
pub fn greeting_len(buf: &[u8]) -> (n: usize)
    ensures
        n == greeting_need(buf@),
{
    if buf.len() < 2 || buf[0] != SOCKS_VERSION {
        2
    } else {
        2 + buf[1] as usize
    }
}

/// Decode the greeting at the start of `buf` to its method octets.
pub fn parse_greeting(buf: &[u8]) -> (r: Result<Vec<u8>, ParseError>)
    ensures
        match r {
            Ok(methods) => decode_greeting(buf@) == Ok::<Seq<u8>, ParseError>(methods@),
            Err(e) => decode_greeting(buf@) == Err::<Seq<u8>, ParseError>(e),
        },
{
    if buf.len() < 2 {
        return Err(ParseError::TruncatedInput);
    }
    if buf[0] != SOCKS_VERSION {
        return Err(ParseError::UnsupportedVersion);
    }
    let end: usize = 2 + buf[1] as usize;
    if buf.len() < end {
        return Err(ParseError::TruncatedInput);
    }
    Ok(vstd::slice::slice_to_vec(slice_subrange(buf, 2, end)))
}

/// The user name and password that a client presents.
#[derive(Debug, Clone)]
pub struct Credentials {
    pub username: Vec<u8>,
    pub password: Vec<u8>,
}

/// How many octets the credential datagram that starts `b` has, as far as
/// `b` tells.
pub open spec fn credentials_need(b: Seq<u8>) -> nat {
    if b.len() < 2 {
        2
    } else if b.len() < 3 + b[1] {
        (3 + b[1]) as nat
    } else {
        (3 + b[1] + b[2 + b[1]]) as nat
    }
}

/// The pair of the credential datagram at the start of `b`. Its version
/// octet is not looked at.
pub open spec fn decode_credentials(b: Seq<u8>) -> Result<(Seq<u8>, Seq<u8>), ParseError> {
    if b.len() < credentials_need(b) {
        Err(ParseError::TruncatedInput)
    } else {
        let ulen = b[1] as int;
        let plen = b[2 + ulen] as int;
        Ok((b.subrange(2, 2 + ulen), b.subrange(3 + ulen, 3 + ulen + plen)))
    }
}

/// `VER | ULEN | UNAME | PLEN | PASSWD`
pub open spec fn encode_credentials(username: Seq<u8>, password: Seq<u8>) -> Seq<u8> {
    seq![AUTH_VERSION, username.len() as u8] + username + seq![password.len() as u8] + password
}

/// A credential datagram with fields of up to 255 octets decodes to its
/// fields.
pub proof fn lemma_credentials_round_trip(username: Seq<u8>, password: Seq<u8>)
    requires
        username.len() <= 255,
        password.len() <= 255,
    ensures
        decode_credentials(encode_credentials(username, password)) == Ok::<
            (Seq<u8>, Seq<u8>),
            ParseError,
        >((username, password)),
{
    let b = encode_credentials(username, password);
    let ulen = username.len() as int;
    let plen = password.len() as int;
    assert(b[1] == ulen);
    assert(b[2 + ulen] == plen);
    assert(b.subrange(2, 2 + ulen) =~= username);
    assert(b.subrange(3 + ulen, 3 + ulen + plen) =~= password);
}

/// See `credentials_need`.
pub fn credentials_len(buf: &[u8]) -> (n: usize)
    ensures
        n == credentials_need(buf@),
{
    if buf.len() < 2 {
        return 2;
    }
    let ulen: usize = buf[1] as usize;
    if buf.len() < 3 + ulen {
        3 + ulen
    } else {
        3 + ulen + buf[2 + ulen] as usize
    }
}

/// Decode the credential datagram at the start of `buf`.
pub fn parse_credentials(buf: &[u8]) -> (r: Result<Credentials, ParseError>)
    ensures
        match r {
            Ok(c) => decode_credentials(buf@) == Ok::<(Seq<u8>, Seq<u8>), ParseError>(
                (c.username@, c.password@),
            ),
            Err(e) => decode_credentials(buf@) == Err::<(Seq<u8>, Seq<u8>), ParseError>(e),
        },
{
    let need = credentials_len(buf);
    if buf.len() < need {
        return Err(ParseError::TruncatedInput);
    }
    let ulen: usize = buf[1] as usize;
    let plen: usize = buf[2 + ulen] as usize;
    let username = vstd::slice::slice_to_vec(slice_subrange(buf, 2, 2 + ulen));
    let password = vstd::slice::slice_to_vec(slice_subrange(buf, 3 + ulen, 3 + ulen + plen));
    Ok(Credentials { username, password })
}

/// What a request is: its version octet, its command and its destination.
pub struct RequestModel {
    pub version: u8,
    pub command: SockCommand,
    pub address: AddressModel,
}

/// Proxy user request
#[derive(Debug, Clone)]
pub struct SOCKSReq {
    pub version: u8,
    pub command: SockCommand,
    pub addr_type: AddrType,
    pub addr: Vec<u8>,
    pub port: u16,
}

impl View for SOCKSReq {
    type V = RequestModel;

    open spec fn view(&self) -> RequestModel {
        RequestModel {
            version: self.version,
            command: self.command,
            address: AddressModel { kind: self.addr_type, octets: self.addr@, port: self.port },
        }
    }
}

/// Whether the four octets that start a request name this protocol's
/// version, a command and an address type.
pub open spec fn request_header_ok(b: Seq<u8>) -> bool {
    &&& b.len() >= 4
    &&& b[0] == SOCKS_VERSION
    &&& SockCommand::of_code(b[1] as int) is Some
    &&& AddrType::of_code(b[3]) is Some
}

/// How many octets the request that starts `b` has, as far as `b` tells. A
/// request whose header is refused ends with that header.
pub open spec fn request_need(b: Seq<u8>) -> nat {
    if !request_header_ok(b) {
        4
    } else {
        3 + address_need(b.subrange(3, b.len() as int))
    }
}

/// The request at the start of `b`. The version is looked at first, then the
/// command, then the address type; the reserved octet is not looked at.
pub open spec fn decode_request(b: Seq<u8>) -> Result<RequestModel, ParseError> {
    if b.len() < 4 {
        Err(ParseError::TruncatedInput)
    } else if b[0] != SOCKS_VERSION {
        Err(ParseError::UnsupportedVersion)
    } else if SockCommand::of_code(b[1] as int) is None {
        Err(ParseError::UnsupportedCommand)
    } else {
        match decode_address(b.subrange(3, b.len() as int)) {
            Err(e) => Err(e),
            Ok(address) => Ok(
                RequestModel {
                    version: b[0],
                    command: SockCommand::of_code(b[1] as int).unwrap(),
                    address,
                },
            ),
        }
    }
}

/// `VER | CMD | RSV | ATYP | DST.ADDR | DST.PORT`
pub open spec fn encode_request(r: RequestModel) -> Seq<u8> {
    seq![r.version, r.command.spec_code(), RESERVED] + r.address.encode()
}

/// A request of this protocol's version with a well-formed destination
/// decodes to itself, and is complete with its last octet.
pub proof fn lemma_request_round_trip(r: RequestModel)
    requires
        r.version == SOCKS_VERSION,
        r.address.wf(),
    ensures
        decode_request(encode_request(r)) == Ok::<RequestModel, ParseError>(r),
        request_need(encode_request(r)) == encode_request(r).len(),
{
    let b = encode_request(r);
    r.command.lemma_code_round_trip();
    r.address.kind.lemma_code_round_trip();
    crate::protocol::lemma_address_round_trip(r.address);
    assert(b.subrange(3, b.len() as int) =~= r.address.encode());
    assert(b[3] == r.address.encode()[0]);
}

/// See `request_need`.
pub fn request_len(buf: &[u8]) -> (n: usize)
    ensures
        n == request_need(buf@),
{
    if buf.len() < 4 || buf[0] != SOCKS_VERSION {
        return 4;
    }
    if SockCommand::from(buf[1] as usize).is_none() {
        return 4;
    }
    let ghost tail = buf@.subrange(3, buf@.len() as int);
    assert(tail[0] == buf@[3]);
    match AddrType::from_code(buf[3]) {
        None => 4,
        Some(AddrType::V4) => 10,
        Some(AddrType::V6) => 22,
        Some(AddrType::Domain) => {
            if buf.len() < 5 {
                5
            } else {
                assert(tail[1] == buf@[4]);
                7 + buf[4] as usize
            }
        },
    }
}

impl SOCKSReq {
    /// The destination of the request.
    pub fn address(&self) -> (a: Address<'_>)
        ensures
            a@ == self@.address,
    {
        Address::new(self.addr_type, self.addr.as_slice(), self.port)
    }

    /// Decode the request at the start of `buf`.
    pub fn from_bytes(buf: &[u8]) -> (r: Result<SOCKSReq, ParseError>)
        ensures
            match r {
                Ok(req) => decode_request(buf@) == Ok::<RequestModel, ParseError>(req@),
                Err(e) => decode_request(buf@) == Err::<RequestModel, ParseError>(e),
            },
    {
        if buf.len() < 4 {
            return Err(ParseError::TruncatedInput);
        }
        if buf[0] != SOCKS_VERSION {
            return Err(ParseError::UnsupportedVersion);
        }
        let command = match SockCommand::from(buf[1] as usize) {
            Some(command) => command,
            None => {
                return Err(ParseError::UnsupportedCommand);
            },
        };
        match Address::decode(slice_subrange(buf, 3, buf.len())) {
            Err(e) => Err(e),
            Ok(a) => Ok(
                SOCKSReq {
                    version: buf[0],
                    command,
                    addr_type: a.addr_type(),
                    addr: vstd::slice::slice_to_vec(a.data()),
                    port: a.port(),
                },
            ),
        }
    }
}

/// What the server writes to a client.
pub enum Frame {
    /// The method selection: `VER | METHOD`.
    Selection(AuthMethods),
    /// The answer to presented credentials: `VER | STATUS`.
    AuthStatus(bool),
    /// The reply to a refused or failed request: `VER | REP`.
    Refusal(ResponseCode),
    /// The reply to a request that succeeded, with the address that the
    /// upstream socket is bound to: `VER | REP | RSV | ATYP | BND.ADDR | BND.PORT`.
    Success(AddressModel),
}

impl Frame {
    /// The octets of the frame.
    pub open spec fn bytes(self) -> Seq<u8> {
        match self {
            Frame::Selection(m) => seq![SOCKS_VERSION, m.spec_code()],
            Frame::AuthStatus(ok) => seq![
                AUTH_VERSION,
                if ok {
                    0x00u8
                } else {
                    0x01u8
                },
            ],
            Frame::Refusal(code) => seq![SOCKS_VERSION, code.spec_code()],
            Frame::Success(bound) => seq![
                SOCKS_VERSION,
                ResponseCode::Success.spec_code(),
                RESERVED,
            ] + bound.encode(),
        }
    }

    /// Whether the frame is a reply to a request.
    pub open spec fn is_reply(self) -> bool {
        self is Refusal || self is Success
    }
}

/// The method selection for `m`.
pub fn method_selection(m: AuthMethods) -> (out: Vec<u8>)
    ensures
        out@ == Frame::Selection(m).bytes(),
{
    let out = vec![SOCKS_VERSION, m.code()];
    assert(out@ =~= Frame::Selection(m).bytes());
    out
}

/// The answer to presented credentials.
pub fn auth_status(ok: bool) -> (out: Vec<u8>)
    ensures
        out@ == Frame::AuthStatus(ok).bytes(),
{
    let status: u8 = if ok {
        ResponseCode::Success.code()
    } else {
        ResponseCode::Failure.code()
    };
    let out = vec![AUTH_VERSION, status];
    assert(out@ =~= Frame::AuthStatus(ok).bytes());
    out
}

/// The two-octet reply to a request that is refused or has failed.
pub fn refusal(code: ResponseCode) -> (out: Vec<u8>)
    ensures
        out@ == Frame::Refusal(code).bytes(),
{
    let out = vec![SOCKS_VERSION, code.code()];
    assert(out@ =~= Frame::Refusal(code).bytes());
    out
}

/// The reply to a request that succeeded.
pub fn success_reply(bound: &Address) -> (out: Vec<u8>)
    requires
        bound@.wf(),
    ensures
        out@ == Frame::Success(bound@).bytes(),
{
    let mut out = vec![SOCKS_VERSION, ResponseCode::Success.code(), RESERVED];
    let mut tail = bound.encode();
    out.append(&mut tail);
    assert(out@ =~= Frame::Success(bound@).bytes());
    out
}

} // verus!
