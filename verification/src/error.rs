//! Kinds of session failure and the reply code that each is answered with.

use crate::bytes::{contains, find};
use crate::protocol::ResponseCode;
use vstd::prelude::*;
use vstd::string::*;
use vstd::utf8::encode_utf8;

verus! {

/// Why a session failed. The two kinds that come from outside the protocol
/// carry the text of what was reported there.
#[derive(Debug, Clone)]
pub enum Error {
    Io { source: String },
    Utf8 { source: String },
    Socks5 { code: ResponseCode },
}

impl Error {
    /// The diagnostic of the failure.
    pub open spec fn spec_text(&self) -> Seq<char> {
        match self {
            Error::Io { source } => "Io Error: "@ + source@,
            Error::Utf8 { source } => "Utf8Parse Error: "@ + source@,
            Error::Socks5 { code } => "SOCKS5 Server Error: "@ + code.spec_text(),
        }
    }

    /// The diagnostic of the failure.
    pub fn message(&self) -> (s: String)
        ensures
            s@ == self.spec_text(),
    {
        match self {
            Error::Io { source } => String::from_str("Io Error: ").concat(source.as_str()),
            Error::Utf8 { source } => String::from_str("Utf8Parse Error: ").concat(
                source.as_str(),
            ),
            Error::Socks5 { code } => String::from_str("SOCKS5 Server Error: ").concat(
                code.as_str(),
            ),
        }
    }

    /// The reply code that the failure is answered with.
    pub fn response(&self) -> (code: ResponseCode)
        ensures
            code == classification(encode_utf8(self.spec_text())),
    {
        let text = self.message();
        classify(text.as_str())
    }
}

impl From<ResponseCode> for Error {
    fn from(error: ResponseCode) -> (e: Error) {
        Error::Socks5 { code: error }
    }
}

impl vstd::std_specs::convert::FromSpecImpl<ResponseCode> for Error {
    open spec fn obeys_from_spec() -> bool {
        true
    }

    open spec fn from_spec(error: ResponseCode) -> Error {
        Error::Socks5 { code: error }
    }
}

/// The octets of `Host`.
pub open spec fn host_word() -> Seq<u8> {
    seq![0x48u8, 0x6f, 0x73, 0x74]
}

/// The octets of `Network`.
pub open spec fn network_word() -> Seq<u8> {
    seq![0x4eu8, 0x65, 0x74, 0x77, 0x6f, 0x72, 0x6b]
}

/// The octets of `ttl`.
pub open spec fn ttl_word() -> Seq<u8> {
    seq![0x74u8, 0x74, 0x6c]
}

/// The reply code for a diagnostic: the first of host, network and TTL that
/// it names, by those words, and general failure where it names none.
pub open spec fn classification(text: Seq<u8>) -> ResponseCode {
    if contains(text, host_word()) {
        ResponseCode::HostUnreachable
    } else if contains(text, network_word()) {
        ResponseCode::NetworkUnreachable
    } else if contains(text, ttl_word()) {
        ResponseCode::TtlExpired
    } else {
        ResponseCode::Failure
    }
}

/// A diagnostic is never classified as success, nor as a refusal of the
/// request's command or address type.
pub proof fn lemma_classification_is_failure(text: Seq<u8>)
    ensures
        classification(text) == ResponseCode::HostUnreachable || classification(text)
            == ResponseCode::NetworkUnreachable || classification(text)
            == ResponseCode::TtlExpired || classification(text) == ResponseCode::Failure,
{
}

/// Select the reply code for the diagnostic of a failure.
pub fn classify(text: &str) -> (code: ResponseCode)
    ensures
        code == classification(text.spec_bytes()),
{
    let host: Vec<u8> = vec![0x48u8, 0x6f, 0x73, 0x74];
    let network: Vec<u8> = vec![0x4eu8, 0x65, 0x74, 0x77, 0x6f, 0x72, 0x6b];
    let ttl: Vec<u8> = vec![0x74u8, 0x74, 0x6c];
    assert(host@ =~= host_word());
    assert(network@ =~= network_word());
    assert(ttl@ =~= ttl_word());
    let bytes = text.as_bytes();
    if find(bytes, host.as_slice()) {
        ResponseCode::HostUnreachable
    } else if find(bytes, network.as_slice()) {
        ResponseCode::NetworkUnreachable
    } else if find(bytes, ttl.as_slice()) {
        ResponseCode::TtlExpired
    } else {
        ResponseCode::Failure
    }
}

} // verus!
