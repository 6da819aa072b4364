//! One client's session, from accept to teardown, as a state machine that
//! owns no socket: the caller reads and writes, the session decides.
//!
//! While the session reads, the caller reads `wanted()` octets from the
//! client and hands them to `feed`, and writes what `feed` returns. Once the
//! session is connecting, the caller connects to `target()` and reports the
//! outcome with `connected` or `fail`.

use crate::auth::{accepted, authed, select_method, selection, User};
use crate::error::{classification, Error};
use crate::protocol::{
    AddrType, Address, AddressModel, AuthMethods, ParseError, ResponseCode, SockCommand,
};
use crate::wire::{
    auth_status, credentials_len, credentials_need, decode_credentials, decode_greeting,
    decode_request, greeting_len, greeting_need, method_selection, parse_credentials,
    parse_greeting, refusal, request_len, request_need, success_reply, Frame, SOCKSReq,
};
use vstd::prelude::*;
use vstd::utf8::encode_utf8;

verus! {

/// Where a session stands.
#[derive(Debug, Clone, Copy, PartialEq, Eq, Structural)]
pub enum Phase {
    /// Nothing read yet: the greeting is awaited.
    Accepted,
    /// User name and password were selected: the credentials are awaited.
    AwaitingCredentials,
    /// The client may send its request.
    AwaitingRequest,
    /// A request to connect was read: the caller connects upstream.
    Connecting,
    /// The success reply is out: the caller copies octets both ways.
    Relaying,
    /// The session is over: the caller shuts the client socket down.
    Closed,
}

impl Phase {
    /// Whether the session reads a datagram from the client in this phase.
    pub open spec fn reads(self) -> bool {
        self == Phase::Accepted || self == Phase::AwaitingCredentials || self
            == Phase::AwaitingRequest
    }
}

/// How many octets the datagram of a reading phase has, as far as the octets
/// `b` read so far tell.
pub open spec fn frame_need(phase: Phase, b: Seq<u8>) -> nat {
    match phase {
        Phase::Accepted => greeting_need(b),
        Phase::AwaitingCredentials => credentials_need(b),
        Phase::AwaitingRequest => request_need(b),
        _ => 0,
    }
}

/// What follows a complete greeting: the phase and what is written.
pub open spec fn greeting_outcome(enabled: Seq<AuthMethods>, frame: Seq<u8>) -> (
    Phase,
    Option<Frame>,
) {
    match decode_greeting(frame) {
        Err(_) => (Phase::Closed, None),
        Ok(offered) => {
            let m = selection(offered, enabled);
            let next = match m {
                AuthMethods::UserPass => Phase::AwaitingCredentials,
                AuthMethods::NoAuth => Phase::AwaitingRequest,
                _ => Phase::Closed,
            };
            (next, Some(Frame::Selection(m)))
        },
    }
}

/// What follows a complete credential datagram.
pub open spec fn credentials_outcome(users: Seq<User>, frame: Seq<u8>) -> (Phase, Option<Frame>) {
    match decode_credentials(frame) {
        Err(_) => (Phase::Closed, None),
        Ok((username, password)) => if accepted(users, username, password) {
            (Phase::AwaitingRequest, Some(Frame::AuthStatus(true)))
        } else {
            (Phase::Closed, Some(Frame::AuthStatus(false)))
        },
    }
}

/// What follows a complete request. Only a request to connect to a
/// well-formed destination goes on; a domain name without octets names no
/// host and fails at once.
pub open spec fn request_outcome(frame: Seq<u8>) -> (Phase, Option<Frame>) {
    match decode_request(frame) {
        Err(ParseError::UnsupportedCommand) => (
            Phase::Closed,
            Some(Frame::Refusal(ResponseCode::CommandNotSupported)),
        ),
        Err(ParseError::UnsupportedAddressType) => (
            Phase::Closed,
            Some(Frame::Refusal(ResponseCode::AddrTypeNotSupported)),
        ),
        Err(_) => (Phase::Closed, Some(Frame::Refusal(ResponseCode::Failure))),
        Ok(r) => if r.command != SockCommand::Connect {
            (Phase::Closed, Some(Frame::Refusal(ResponseCode::CommandNotSupported)))
        } else if !r.address.wf() {
            (Phase::Closed, Some(Frame::Refusal(ResponseCode::Failure)))
        } else {
            (Phase::Connecting, None)
        },
    }
}

/// What follows a failure with diagnostic `text` in `phase`: before the
/// request phase and while relaying the session closes silently; from the
/// request phase on, the client gets the reply that the diagnostic is
/// classified as.
pub open spec fn failure_outcome(phase: Phase, text: Seq<u8>) -> Option<Frame> {
    if phase == Phase::AwaitingRequest || phase == Phase::Connecting {
        Some(Frame::Refusal(classification(text)))
    } else {
        None
    }
}

/// What follows a read that gave another number of octets than wanted.
pub open spec fn short_read_outcome(phase: Phase) -> Option<Frame> {
    if phase == Phase::AwaitingRequest {
        Some(Frame::Refusal(ResponseCode::Failure))
    } else {
        None
    }
}

/// What follows the complete datagram `frame` of a reading phase.
pub open spec fn frame_outcome(
    phase: Phase,
    enabled: Seq<AuthMethods>,
    users: Seq<User>,
    frame: Seq<u8>,
) -> (Phase, Option<Frame>) {
    match phase {
        Phase::Accepted => greeting_outcome(enabled, frame),
        Phase::AwaitingCredentials => credentials_outcome(users, frame),
        _ => request_outcome(frame),
    }
}

/// The octets of what is written, if anything.
pub open spec fn written(frame: Option<Frame>) -> Seq<u8> {
    match frame {
        Some(f) => f.bytes(),
        None => Seq::empty(),
    }
}

/// The log of frames after one more step.
pub open spec fn logged(sent: Seq<Frame>, frame: Option<Frame>) -> Seq<Frame> {
    match frame {
        Some(f) => sent.push(f),
        None => sent,
    }
}

/// The frames of a negotiation that let the client send its request.
pub open spec fn negotiated(sent: Seq<Frame>) -> bool {
    sent == seq![Frame::Selection(AuthMethods::NoAuth)] || sent == seq![
        Frame::Selection(AuthMethods::UserPass),
        Frame::AuthStatus(true),
    ]
}

/// The frames of a session that has been answered: a negotiation and then
/// one reply, which reports success only if `relayed`.
pub open spec fn answered(sent: Seq<Frame>, relayed: bool) -> bool {
    &&& sent.len() >= 1
    &&& negotiated(sent.drop_last())
    &&& match sent.last() {
        Frame::Success(_) => relayed,
        Frame::Refusal(code) => !relayed && code != ResponseCode::Success,
        _ => false,
    }
}

/// Every sequence of frames that a session can have written.
pub open spec fn orderly(sent: Seq<Frame>) -> bool {
    ||| sent == Seq::<Frame>::empty()
    ||| sent == seq![Frame::Selection(AuthMethods::NoMethods)]
    ||| sent == seq![Frame::Selection(AuthMethods::UserPass)]
    ||| sent == seq![Frame::Selection(AuthMethods::UserPass), Frame::AuthStatus(false)]
    ||| negotiated(sent)
    ||| answered(sent, false)
    ||| answered(sent, true)
}

/// One client's session.
pub struct Session {
    phase: Phase,
    enabled: Vec<AuthMethods>,
    users: Vec<User>,
    buffer: Vec<u8>,
    request: Option<SOCKSReq>,
    sent: Ghost<Seq<Frame>>,
}

impl Session {
    /// Where the session stands.
    pub closed spec fn phase_of(&self) -> Phase {
        self.phase
    }

    /// The methods that the server has enabled.
    pub closed spec fn enabled(&self) -> Seq<AuthMethods> {
        self.enabled@
    }

    /// The credential table.
    pub closed spec fn users(&self) -> Seq<User> {
        self.users@
    }

    /// The octets read so far of the datagram that the session is reading.
    pub closed spec fn pending(&self) -> Seq<u8> {
        self.buffer@
    }

    /// Every frame written to the client so far, in order.
    pub closed spec fn sent(&self) -> Seq<Frame> {
        self.sent@
    }

    /// The destination of the request that was read, if one was.
    pub closed spec fn destination(&self) -> Option<AddressModel> {
        match self.request {
            Some(r) => Some(r@.address),
            None => None,
        }
    }

    /// How many octets the session wants to read next.
    pub open spec fn spec_wanted(&self) -> nat {
        if self.phase_of().reads() {
            (frame_need(self.phase_of(), self.pending()) - self.pending().len()) as nat
        } else {
            0
        }
    }

    /// What holds of a session at every moment: what has been written fits
    /// the phase, a reading session's datagram is incomplete, and a
    /// connecting session has a well-formed destination.
    pub open spec fn inv(&self) -> bool {
        &&& self.phase_of().reads() ==> self.pending().len() < frame_need(
            self.phase_of(),
            self.pending(),
        )
        &&& !self.phase_of().reads() ==> self.pending().len() == 0
        &&& match self.phase_of() {
            Phase::Accepted => self.sent() == Seq::<Frame>::empty(),
            Phase::AwaitingCredentials => self.sent() == seq![
                Frame::Selection(AuthMethods::UserPass),
            ],
            Phase::AwaitingRequest => negotiated(self.sent()),
            Phase::Connecting => negotiated(self.sent()) && self.destination() is Some
                && self.destination().unwrap().wf(),
            Phase::Relaying => answered(self.sent(), true),
            Phase::Closed => orderly(self.sent()),
        }
    }

    /// A session for a connection that was just accepted.
    pub fn new(enabled: Vec<AuthMethods>, users: Vec<User>) -> (s: Session)
        ensures
            s.inv(),
            s.phase_of() == Phase::Accepted,
            s.enabled() == enabled@,
            s.users() == users@,
            s.pending() == Seq::<u8>::empty(),
            s.sent() == Seq::<Frame>::empty(),
            s.destination() is None,
    {
        Session {
            phase: Phase::Accepted,
            enabled,
            users,
            buffer: Vec::new(),
            request: None,
            sent: Ghost(Seq::empty()),
        }
    }

    /// Where the session stands.
    pub fn phase(&self) -> (p: Phase)
        ensures
            p == self.phase_of(),
    {
        self.phase
    }

    /// Whether the session is over.
    pub fn is_closed(&self) -> (r: bool)
        ensures
            r == (self.phase_of() == Phase::Closed),
    {
        self.phase == Phase::Closed
    }

    /// How many octets to read from the client next: more than none while
    /// the session reads, none in every other phase.
    pub fn wanted(&self) -> (n: usize)
        requires
            self.inv(),
        ensures
            n == self.spec_wanted(),
            self.phase_of().reads() <==> n > 0,
    {
        match self.phase {
            Phase::Accepted => greeting_len(self.buffer.as_slice()) - self.buffer.len(),
            Phase::AwaitingCredentials => credentials_len(self.buffer.as_slice())
                - self.buffer.len(),
            Phase::AwaitingRequest => request_len(self.buffer.as_slice()) - self.buffer.len(),
            _ => 0,
        }
    }

    /// The destination to connect to, while the session is connecting.
    pub fn target(&self) -> (a: Option<Address<'_>>)
        requires
            self.inv(),
        ensures
            a is Some <==> self.phase_of() == Phase::Connecting,
            a is Some ==> self.destination() == Some(a.unwrap()@) && a.unwrap()@.wf(),
    {
        if self.phase == Phase::Connecting {
            match &self.request {
                Some(r) => Some(r.address()),
                None => None,
            }
        } else {
            None
        }
    }

    /// Take the octets that were read from the client: `wanted()` of them.
    /// Returns what is to be written to the client, which is nothing until a
    /// datagram is complete. A read of another length is a short read and
    /// ends the session. Outside the reading phases nothing happens.
    pub fn feed(&mut self, bytes: &[u8]) -> (out: Vec<u8>)
        requires
            old(self).inv(),
        ensures
            final(self).inv(),
            final(self).enabled() == old(self).enabled(),
            final(self).users() == old(self).users(),
            !old(self).phase_of().reads() ==> *final(self) == *old(self) && out@.len() == 0,
            old(self).phase_of().reads() && bytes@.len() != old(self).spec_wanted() ==> {
                &&& final(self).phase_of() == Phase::Closed
                &&& final(self).sent() == logged(
                    old(self).sent(),
                    short_read_outcome(old(self).phase_of()),
                )
                &&& final(self).destination() == old(self).destination()
                &&& out@ == written(short_read_outcome(old(self).phase_of()))
            },
            old(self).phase_of().reads() && bytes@.len() == old(self).spec_wanted() ==> {
                let frame = old(self).pending() + bytes@;
                if frame.len() < frame_need(old(self).phase_of(), frame) {
                    &&& final(self).phase_of() == old(self).phase_of()
                    &&& final(self).pending() == frame
                    &&& final(self).sent() == old(self).sent()
                    &&& final(self).destination() == old(self).destination()
                    &&& out@.len() == 0
                } else {
                    let outcome = frame_outcome(
                        old(self).phase_of(),
                        old(self).enabled(),
                        old(self).users(),
                        frame,
                    );
                    &&& final(self).phase_of() == outcome.0
                    &&& final(self).pending() == Seq::<u8>::empty()
                    &&& final(self).sent() == logged(old(self).sent(), outcome.1)
                    &&& out@ == written(outcome.1)
                    &&& final(self).destination() == if outcome.0 == Phase::Connecting {
                        Some(decode_request(frame).unwrap().address)
                    } else {
                        old(self).destination()
                    }
                }
            },
    {
        let wanted = self.wanted();
        if wanted == 0 {
            return Vec::new();
        }
        if bytes.len() != wanted {
            return self.short_read();
        }
        let mut i: usize = 0;
        while i < bytes.len()
            invariant
                i <= bytes.len(),
                self.phase == old(self).phase,
                self.enabled == old(self).enabled,
                self.users == old(self).users,
                self.request == old(self).request,
                self.sent == old(self).sent,
                self.buffer@ == old(self).buffer@ + bytes@.subrange(0, i as int),
            decreases bytes.len() - i,
        {
            self.buffer.push(bytes[i]);
            assert(self.buffer@ =~= old(self).buffer@ + bytes@.subrange(0, i + 1));
            i += 1;
        }
        assert(bytes@.subrange(0, i as int) =~= bytes@);
        let complete = match self.phase {
            Phase::Accepted => self.buffer.len() >= greeting_len(self.buffer.as_slice()),
            Phase::AwaitingCredentials => self.buffer.len() >= credentials_len(
                self.buffer.as_slice(),
            ),
            _ => self.buffer.len() >= request_len(self.buffer.as_slice()),
        };
        if !complete {
            return Vec::new();
        }
        match self.phase {
            Phase::Accepted => self.on_greeting(),
            Phase::AwaitingCredentials => self.on_credentials(),
            _ => self.on_request(),
        }
    }

    fn short_read(&mut self) -> (out: Vec<u8>)
        requires
            old(self).inv(),
            old(self).phase_of().reads(),
        ensures
            final(self).inv(),
            final(self).enabled() == old(self).enabled(),
            final(self).users() == old(self).users(),
            final(self).phase_of() == Phase::Closed,
            final(self).sent() == logged(old(self).sent(), short_read_outcome(old(self).phase_of())),
            final(self).destination() == old(self).destination(),
            out@ == written(short_read_outcome(old(self).phase_of())),
    {
        let out = if self.phase == Phase::AwaitingRequest {
            let out = self.emit_refusal(ResponseCode::Failure);
            assert(self.sent@.drop_last() =~= old(self).sent@);
            out
        } else {
            Vec::new()
        };
        self.phase = Phase::Closed;
        self.buffer = Vec::new();
        out
    }

    fn emit_refusal(&mut self, code: ResponseCode) -> (out: Vec<u8>)
        ensures
            final(self).sent() == old(self).sent().push(Frame::Refusal(code)),
            out@ == Frame::Refusal(code).bytes(),
            final(self).phase == old(self).phase,
            final(self).enabled == old(self).enabled,
            final(self).users == old(self).users,
            final(self).buffer == old(self).buffer,
            final(self).request == old(self).request,
    {
        proof {
            self.sent@ = self.sent@.push(Frame::Refusal(code));
        }
        refusal(code)
    }

    fn on_greeting(&mut self) -> (out: Vec<u8>)
        requires
            old(self).phase_of() == Phase::Accepted,
            old(self).sent() == Seq::<Frame>::empty(),
            old(self).pending().len() >= greeting_need(old(self).pending()),
        ensures
            final(self).inv(),
            final(self).enabled() == old(self).enabled(),
            final(self).users() == old(self).users(),
            final(self).phase_of() == greeting_outcome(old(self).enabled(), old(self).pending()).0,
            final(self).sent() == logged(
                old(self).sent(),
                greeting_outcome(old(self).enabled(), old(self).pending()).1,
            ),
            out@ == written(greeting_outcome(old(self).enabled(), old(self).pending()).1),
            final(self).pending() == Seq::<u8>::empty(),
            final(self).destination() == old(self).destination(),
    {
        let parsed = parse_greeting(self.buffer.as_slice());
        self.buffer = Vec::new();
        match parsed {
            Err(_) => {
                self.phase = Phase::Closed;
                Vec::new()
            },
            Ok(offered) => {
                let m = select_method(offered.as_slice(), self.enabled.as_slice());
                self.phase =
                match m {
                    AuthMethods::UserPass => Phase::AwaitingCredentials,
                    AuthMethods::NoAuth => Phase::AwaitingRequest,
                    _ => Phase::Closed,
                };
                proof {
                    self.sent@ = self.sent@.push(Frame::Selection(m));
                    assert(self.sent@ =~= seq![Frame::Selection(m)]);
                }
                method_selection(m)
            },
        }
    }

    fn on_credentials(&mut self) -> (out: Vec<u8>)
        requires
            old(self).phase_of() == Phase::AwaitingCredentials,
            old(self).sent() == seq![Frame::Selection(AuthMethods::UserPass)],
            old(self).pending().len() >= credentials_need(old(self).pending()),
        ensures
            final(self).inv(),
            final(self).enabled() == old(self).enabled(),
            final(self).users() == old(self).users(),
            final(self).phase_of() == credentials_outcome(old(self).users(), old(self).pending()).0,
            final(self).sent() == logged(
                old(self).sent(),
                credentials_outcome(old(self).users(), old(self).pending()).1,
            ),
            out@ == written(credentials_outcome(old(self).users(), old(self).pending()).1),
            final(self).pending() == Seq::<u8>::empty(),
            final(self).destination() == old(self).destination(),
    {
        let parsed = parse_credentials(self.buffer.as_slice());
        self.buffer = Vec::new();
        match parsed {
            Err(_) => {
                self.phase = Phase::Closed;
                Vec::new()
            },
            Ok(c) => {
                let ok = authed(self.users.as_slice(), c.username.as_slice(), c.password.as_slice());
                self.phase =
                if ok {
                    Phase::AwaitingRequest
                } else {
                    Phase::Closed
                };
                proof {
                    self.sent@ = self.sent@.push(Frame::AuthStatus(ok));
                    assert(self.sent@ =~= seq![
                        Frame::Selection(AuthMethods::UserPass),
                        Frame::AuthStatus(ok),
                    ]);
                }
                auth_status(ok)
            },
        }
    }

    fn on_request(&mut self) -> (out: Vec<u8>)
        requires
            old(self).phase_of() == Phase::AwaitingRequest,
            negotiated(old(self).sent()),
            old(self).pending().len() >= request_need(old(self).pending()),
        ensures
            final(self).inv(),
            final(self).enabled() == old(self).enabled(),
            final(self).users() == old(self).users(),
            final(self).phase_of() == request_outcome(old(self).pending()).0,
            final(self).sent() == logged(old(self).sent(), request_outcome(old(self).pending()).1),
            out@ == written(request_outcome(old(self).pending()).1),
            final(self).pending() == Seq::<u8>::empty(),
            final(self).destination() == if final(self).phase_of() == Phase::Connecting {
                Some(decode_request(old(self).pending()).unwrap().address)
            } else {
                old(self).destination()
            },
    {
        let parsed = SOCKSReq::from_bytes(self.buffer.as_slice());
        self.buffer = Vec::new();
        let code = match parsed {
            Err(ParseError::UnsupportedCommand) => ResponseCode::CommandNotSupported,
            Err(ParseError::UnsupportedAddressType) => ResponseCode::AddrTypeNotSupported,
            Err(_) => ResponseCode::Failure,
            Ok(r) => {
                if r.command != SockCommand::Connect {
                    ResponseCode::CommandNotSupported
                } else if !r.address().is_valid() {
                    ResponseCode::Failure
                } else {
                    self.request = Some(r);
                    self.phase = Phase::Connecting;
                    return Vec::new();
                }
            },
        };
        self.phase = Phase::Closed;
        let out = self.emit_refusal(code);
        assert(self.sent@.drop_last() =~= old(self).sent@);
        out
    }

    /// The upstream connection stands, bound to `bound`: the success reply
    /// is returned and the session relays. Outside the connecting phase
    /// nothing happens.
    pub fn connected(&mut self, bound: &Address) -> (out: Vec<u8>)
        requires
            old(self).inv(),
            bound@.wf(),
        ensures
            final(self).inv(),
            final(self).enabled() == old(self).enabled(),
            final(self).users() == old(self).users(),
            old(self).phase_of() != Phase::Connecting ==> *final(self) == *old(self) && out@.len()
                == 0,
            old(self).phase_of() == Phase::Connecting ==> {
                &&& final(self).phase_of() == Phase::Relaying
                &&& final(self).sent() == old(self).sent().push(Frame::Success(bound@))
                &&& final(self).destination() == old(self).destination()
                &&& out@ == Frame::Success(bound@).bytes()
            },
    {
        if self.phase != Phase::Connecting {
            return Vec::new();
        }
        self.phase = Phase::Relaying;
        proof {
            self.sent@ = self.sent@.push(Frame::Success(bound@));
            assert(self.sent@.drop_last() =~= old(self).sent@);
        }
        success_reply(bound)
    }

    /// Something failed outside the protocol: a read, the resolution of the
    /// destination, the upstream connect or the relay. The session closes;
    /// what is returned is to be written to the client first.
    pub fn fail(&mut self, error: &Error) -> (out: Vec<u8>)
        requires
            old(self).inv(),
        ensures
            final(self).inv(),
            final(self).enabled() == old(self).enabled(),
            final(self).users() == old(self).users(),
            final(self).phase_of() == Phase::Closed,
            final(self).sent() == logged(
                old(self).sent(),
                failure_outcome(old(self).phase_of(), encode_utf8(error.spec_text())),
            ),
            final(self).destination() == old(self).destination(),
            out@ == written(
                failure_outcome(old(self).phase_of(), encode_utf8(error.spec_text())),
            ),
    {
        let out = if self.phase == Phase::AwaitingRequest || self.phase == Phase::Connecting {
            let code = error.response();
            let out = self.emit_refusal(code);
            proof {
                assert(self.sent@.drop_last() =~= old(self).sent@);
            }
            out
        } else {
            Vec::new()
        };
        self.phase = Phase::Closed;
        self.buffer = Vec::new();
        out
    }

    /// Both directions of the relay have ended, or the caller gives the
    /// session up: it closes and nothing more is written.
    pub fn close(&mut self)
        requires
            old(self).inv(),
        ensures
            final(self).inv(),
            final(self).enabled() == old(self).enabled(),
            final(self).users() == old(self).users(),
            final(self).phase_of() == Phase::Closed,
            final(self).sent() == old(self).sent(),
            final(self).destination() == old(self).destination(),
    {
        self.phase = Phase::Closed;
        self.buffer = Vec::new();
    }
}

/// Until the greeting has been read, nothing has been written to the client.
pub proof fn lemma_silent_before_greeting(s: Session)
    requires
        s.inv(),
        s.phase_of() == Phase::Accepted,
    ensures
        s.sent().len() == 0,
{
}

/// What a greeting is answered with is written only once it is complete and
/// of this protocol's version.
pub proof fn lemma_selection_follows_greeting(enabled: Seq<AuthMethods>, frame: Seq<u8>)
    requires
        greeting_outcome(enabled, frame).1 is Some,
    ensures
        decode_greeting(frame) is Ok,
        frame.len() >= greeting_need(frame),
{
}

/// Two greetings that offer the same methods, in whatever order and however
/// often, are answered alike by servers that have the same methods enabled.
pub proof fn lemma_same_offer_same_selection(
    enabled: Seq<AuthMethods>,
    first: Seq<u8>,
    second: Seq<u8>,
)
    requires
        decode_greeting(first) is Ok,
        decode_greeting(second) is Ok,
        decode_greeting(first).unwrap().to_set() == decode_greeting(second).unwrap().to_set(),
    ensures
        greeting_outcome(enabled, first) == greeting_outcome(enabled, second),
{
    crate::auth::lemma_selection_by_sets(
        decode_greeting(first).unwrap(),
        decode_greeting(second).unwrap(),
        enabled,
        enabled,
    );
}

/// In every sequence of frames that a session can have written, only the
/// last frame can be a reply.
pub proof fn lemma_orderly_reply_is_last(sent: Seq<Frame>)
    requires
        orderly(sent),
    ensures
        forall|i: int| 0 <= i < sent.len() - 1 ==> !(#[trigger] sent[i]).is_reply(),
        !answered(sent, true) ==> forall|i: int|
            0 <= i < sent.len() ==> !((#[trigger] sent[i]) is Success),
        !answered(sent, true) && !answered(sent, false) ==> forall|i: int|
            0 <= i < sent.len() ==> !(#[trigger] sent[i]).is_reply(),
{
    let no_auth = seq![Frame::Selection(AuthMethods::NoAuth)];
    let user_pass = seq![Frame::Selection(AuthMethods::UserPass), Frame::AuthStatus(true)];
    assert(no_auth.len() == 1 && !no_auth[0].is_reply());
    assert(user_pass.len() == 2 && !user_pass[0].is_reply() && !user_pass[1].is_reply());
    if answered(sent, true) || answered(sent, false) {
        let pre = sent.drop_last();
        assert(pre == no_auth || pre == user_pass);
        assert forall|i: int| 0 <= i < sent.len() - 1 implies !(#[trigger] sent[i]).is_reply() by {
            assert(sent[i] == pre[i]);
        }
    } else if negotiated(sent) {
        assert(sent == no_auth || sent == user_pass);
    } else {
        let none = seq![Frame::Selection(AuthMethods::NoMethods)];
        let chosen = seq![Frame::Selection(AuthMethods::UserPass)];
        let denied = seq![Frame::Selection(AuthMethods::UserPass), Frame::AuthStatus(false)];
        assert(none.len() == 1 && !none[0].is_reply());
        assert(chosen.len() == 1 && !chosen[0].is_reply());
        assert(denied.len() == 2 && !denied[0].is_reply() && !denied[1].is_reply());
        assert(sent.len() == 0 || sent == none || sent == chosen || sent == denied);
    }
}

/// A session that relays has written exactly one reply, as its last frame,
/// and that reply reports success.
pub proof fn lemma_relay_has_one_success(s: Session)
    requires
        s.inv(),
        s.phase_of() == Phase::Relaying,
    ensures
        s.sent().len() >= 1,
        s.sent().last() is Success,
        forall|i: int| 0 <= i < s.sent().len() - 1 ==> !(#[trigger] s.sent()[i]).is_reply(),
{
    lemma_orderly_reply_is_last(s.sent());
}

/// A session has never written more than one reply; one that has not come
/// to relay has written no reply that reports success, and one that is still
/// negotiating or connecting has written no reply at all.
pub proof fn lemma_at_most_one_reply(s: Session)
    requires
        s.inv(),
    ensures
        forall|i: int, j: int|
            0 <= i < j < s.sent().len() ==> !((#[trigger] s.sent()[i]).is_reply() && (
            #[trigger] s.sent()[j]).is_reply()),
        !answered(s.sent(), true) ==> forall|i: int|
            0 <= i < s.sent().len() ==> !((#[trigger] s.sent()[i]) is Success),
        s.phase_of() != Phase::Relaying && s.phase_of() != Phase::Closed ==> forall|i: int|
            0 <= i < s.sent().len() ==> !(#[trigger] s.sent()[i]).is_reply(),
{
    let sent = s.sent();
    assert(orderly(sent));
    lemma_orderly_reply_is_last(sent);
    if s.phase_of() != Phase::Relaying && s.phase_of() != Phase::Closed {
        if negotiated(sent) {
            let no_auth = seq![Frame::Selection(AuthMethods::NoAuth)];
            let user_pass = seq![Frame::Selection(AuthMethods::UserPass), Frame::AuthStatus(true)];
            assert(no_auth.len() == 1 && !no_auth[0].is_reply());
            assert(user_pass.len() == 2 && !user_pass[0].is_reply() && !user_pass[1].is_reply());
            assert(!sent.last().is_reply());
        }
    }
}

/// Credentials that do not stand in the table, or that have an empty user
/// name or password, are answered with the octets 1, 1 and end the session.
pub proof fn lemma_unknown_credentials_rejected(
    users: Seq<User>,
    frame: Seq<u8>,
    username: Seq<u8>,
    password: Seq<u8>,
)
    requires
        decode_credentials(frame) == Ok::<(Seq<u8>, Seq<u8>), ParseError>((username, password)),
        !crate::auth::in_table(users, username, password) || username.len() == 0 || password.len()
            == 0,
    ensures
        credentials_outcome(users, frame) == (Phase::Closed, Some(Frame::AuthStatus(false))),
        written(credentials_outcome(users, frame).1) == seq![0x01u8, 0x01u8],
{
}

/// A request of this protocol's version is refused with the octets 5, 7
/// where its command octet names no command, or names BIND or UDP ASSOCIATE
/// before an address type that exists; and with the octets 5, 8 where its
/// command exists and its address type does not. Either ends the session.
pub proof fn lemma_unsupported_request_refused(frame: Seq<u8>)
    requires
        frame.len() >= request_need(frame),
        frame[0] == crate::protocol::SOCKS_VERSION,
    ensures
        SockCommand::of_code(frame[1] as int) is None || ((frame[1] == 2 || frame[1] == 3)
            && AddrType::of_code(frame[3]) is Some) ==> request_outcome(frame) == (
            Phase::Closed,
            Some(Frame::Refusal(ResponseCode::CommandNotSupported)),
        ) && written(request_outcome(frame).1) == seq![0x05u8, 0x07u8],
        SockCommand::of_code(frame[1] as int) is Some && AddrType::of_code(frame[3]) is None
            ==> request_outcome(frame) == (
            Phase::Closed,
            Some(Frame::Refusal(ResponseCode::AddrTypeNotSupported)),
        ) && written(request_outcome(frame).1) == seq![0x05u8, 0x08u8],
{
    let tail = frame.subrange(3, frame.len() as int);
    assert(tail[0] == frame[3]);
    if crate::wire::request_header_ok(frame) {
        assert(tail.len() >= crate::protocol::address_need(tail));
    }
}

} // verus!
