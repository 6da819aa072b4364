//! From a destination on the wire to what the server connects to.

use crate::bytes::same_bytes;
use crate::protocol::{be16, u16_from_be, AddrType, Address};
use crate::text::{decimal, decimal_text};
use vstd::prelude::*;
use vstd::string::*;
use vstd::utf8::{decode_utf8, valid_utf8};

verus! {

/// The text that `String::from_utf8_lossy` makes of a byte string.
pub uninterp spec fn utf8_lossy(bytes: Seq<u8>) -> Seq<char>;

/// Calls `String::from_utf8_lossy`, which renders every byte string as text
/// and puts U+FFFD in place of what is not UTF-8. The contract names the
/// result, and claims of it only that a byte string that is UTF-8 is
/// rendered as the text it encodes.
#[verifier::external_body]
fn lossy_text(bytes: &[u8]) -> (s: String)
    ensures
        s@ == utf8_lossy(bytes@),
        valid_utf8(bytes@) ==> s@ == decode_utf8(bytes@),
{
    String::from_utf8_lossy(bytes).into_owned()
}

/// The text that a byte string encodes in UTF-8, where it encodes one.
pub fn utf8_name(bytes: &[u8]) -> (r: Option<String>)
    ensures
        r is Some <==> valid_utf8(bytes@),
        r is Some ==> r.unwrap()@ == decode_utf8(bytes@),
{
    let text = lossy_text(bytes);
    proof {
        vstd::utf8::encode_utf8_valid_utf8(text@);
        if valid_utf8(bytes@) {
            vstd::utf8::decode_utf8_encode_utf8(bytes@);
        }
    }
    if same_bytes(text.as_str().as_bytes(), bytes) {
        Some(text)
    } else {
        None
    }
}

/// A host name and a port as the text `name:port`.
pub fn host_port(name: &str, port: u16) -> (r: String)
    ensures
        r@ == name@ + ":"@ + decimal_text(port as nat),
{
    String::from_str(name).concat(":").concat(decimal(port).as_str())
}

/// What the server connects to: a socket address, or a name for the
/// resolver.
#[derive(Debug, Clone)]
pub enum Endpoint {
    /// An IPv4 socket address.
    V4 { octets: [u8; 4], port: u16 },
    /// An IPv6 socket address, as its eight 16-bit groups.
    V6 { segments: [u16; 8], port: u16 },
    /// The text `host:port` to be resolved.
    Lookup { host: String },
}

impl Endpoint {
    /// The octets of the socket address in network order; none for a name.
    pub open spec fn spec_octets(&self) -> Seq<u8> {
        match self {
            Endpoint::V4 { octets, port } => octets@,
            Endpoint::V6 { segments, port } => Seq::new(
                16,
                |i: int|
                    if i % 2 == 0 {
                        (segments@[i / 2] / 256) as u8
                    } else {
                        (segments@[i / 2] % 256) as u8
                    },
            ),
            Endpoint::Lookup { host } => Seq::empty(),
        }
    }

    /// The port of the socket address; none for a name, whose text holds it.
    pub open spec fn spec_port(&self) -> Option<u16> {
        match self {
            Endpoint::V4 { octets, port } => Some(*port),
            Endpoint::V6 { segments, port } => Some(*port),
            Endpoint::Lookup { host } => None,
        }
    }
}

/// The text that a domain name and a port are resolved by.
pub open spec fn lookup_text(name: Seq<u8>, port: u16) -> Seq<char> {
    utf8_lossy(name) + ":"@ + decimal_text(port as nat)
}

impl<'a> Address<'a> {
    /// The eight 16-bit groups of an IPv6 address, each from two consecutive
    /// octets in network order.
    pub fn segments(&self) -> (g: [u16; 8])
        requires
            self@.kind == AddrType::V6,
            self@.sized(),
        ensures
            forall|i: int|
                0 <= i < 8 ==> g@[i] == be16(self@.octets[2 * i], self@.octets[2 * i + 1]),
    {
        let d = self.data();
        [
            u16_from_be(d[0], d[1]),
            u16_from_be(d[2], d[3]),
            u16_from_be(d[4], d[5]),
            u16_from_be(d[6], d[7]),
            u16_from_be(d[8], d[9]),
            u16_from_be(d[10], d[11]),
            u16_from_be(d[12], d[13]),
            u16_from_be(d[14], d[15]),
        ]
    }

    /// What to connect to for this address. An IPv4 or IPv6 address gives
    /// the socket address with the same octets in the same order; a domain
    /// name of any length, the empty one too, gives the text to resolve and
    /// no socket address.
    pub fn to_socket_addrs(&self) -> (e: Endpoint)
        requires
            self@.sized(),
        ensures
            self@.kind == AddrType::V4 ==> e is V4,
            self@.kind == AddrType::V6 ==> e is V6,
            self@.kind != AddrType::Domain ==> e.spec_octets() == self@.octets && e.spec_port()
                == Some(self@.port),
            self@.kind == AddrType::Domain ==> e is Lookup && e->host@ == lookup_text(
                self@.octets,
                self@.port,
            ),
            self@.kind == AddrType::Domain && valid_utf8(self@.octets) ==> e->host@ == decode_utf8(
                self@.octets,
            ) + ":"@ + decimal_text(self@.port as nat),
    {
        match self.addr_type() {
            AddrType::V4 => {
                let d = self.data();
                let octets: [u8; 4] = [d[0], d[1], d[2], d[3]];
                assert(octets@ =~= self@.octets);
                Endpoint::V4 { octets, port: self.port() }
            },
            AddrType::V6 => {
                let e = Endpoint::V6 { segments: self.segments(), port: self.port() };
                assert(e.spec_octets() =~= self@.octets);
                e
            },
            AddrType::Domain => {
                let name = lossy_text(self.data());
                Endpoint::Lookup { host: host_port(name.as_str(), self.port()) }
            },
        }
    }
}

} // verus!
