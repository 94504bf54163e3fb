//! The client side: a SOCKS5 server for the browser, which asks the server side to
//! connect to the wanted host.

use crate::addr::{be_bytes, be_number, u16_from_be_bytes, u16_to_be_bytes, SocketAddr};
use crate::channel::Channel;
use crate::relay::Relay;
use crate::stream::{AsyncRead, AsyncWrite};
use crate::text::{decimal, hex_byte, push_decimal, push_hex_byte};
use crate::text::{law_decimal_has_its_value, law_hex_byte_has_its_value, writes, writes_hex};
use vstd::prelude::*;
use vstd::utf8::{decode_utf8, valid_utf8};

verus! {

/// The reply to the offered authentication methods: none is needed.
pub const METHOD_SELECTION_RESP: [u8; 2] = [0x05, 0x00];

/// The front of the reply that reports success with an IPv4 address.
pub const SOCKS_RESP_PREFIX: [u8; 4] = [0x05, 0x00, 0x00, 0x01];

/// What a session waits for.
#[derive(Clone, Copy, Debug, PartialEq, Eq, Structural)]
pub enum Stage {
    /// The version, and the number of authentication methods.
    Version,
    /// So many authentication methods.
    Methods(u8),
    /// The version, the command, a reserved byte and the type of the address.
    Request,
    /// The length of the host's name.
    HostLength,
    /// The host's name, so many bytes long.
    Host(u8),
    /// The port.
    Port,
    /// A connection to the server side.
    Connect,
    /// Nothing: bytes can be relayed.
    Relay,
}

/// What is to be done next.
#[derive(Clone, Copy, Debug, PartialEq, Eq, Structural)]
pub enum Next {
    /// Read so many bytes from the browser.
    Read(usize),
    /// Connect to the server side.
    Connect,
    /// Relay bytes.
    Relay,
}

/// Why a session failed.
#[derive(Debug)]
pub enum SessionError {
    UnknownVersion(u8),
    UnsupportedCommand(u8),
    WrongReserved(u8),
    Ipv4NotSupported,
    Ipv6NotSupported,
    UnknownAddressType(u8),
    Connect(ConnectError),
}

/// What kind of error kept the client side from connecting.
#[derive(Clone, Copy, Debug, PartialEq, Eq, Structural)]
pub enum ErrorKind {
    ConnectionRefused,
    ConnectionAborted,
    Other,
}

/// The client side could not connect to the server side.
#[derive(Debug)]
pub struct ConnectError {
    pub kind: ErrorKind,
    /// The address of the server side.
    pub remote: String,
    /// The error in words.
    pub err: String,
}

/// A failed session: what to reply to the browser before giving up, and why.
#[derive(Debug)]
pub struct Rejection {
    pub reply: Vec<u8>,
    pub error: SessionError,
}

/// A session that is connected to the server side: what to reply to the browser,
/// and what to send to the server side.
#[derive(Debug)]
pub struct Opening {
    pub reply: Vec<u8>,
    pub size: u8,
    pub header: Vec<u8>,
}

/// What a session is.
#[verifier::ext_equal]
pub struct SessionState {
    pub stage: Stage,
    pub host: Seq<u8>,
    pub port: Seq<u8>,
}

/// The state of a session that has read nothing.
pub open spec fn fresh() -> SessionState {
    SessionState { stage: Stage::Version, host: Seq::empty(), port: seq![0, 0] }
}

/// What a stage asks for.
pub open spec fn next_of(stage: Stage) -> Next {
    match stage {
        Stage::Version => Next::Read(2),
        Stage::Methods(n) => Next::Read(n as usize),
        Stage::Request => Next::Read(4),
        Stage::HostLength => Next::Read(1),
        Stage::Host(n) => Next::Read(n as usize),
        Stage::Port => Next::Read(2),
        Stage::Connect => Next::Connect,
        Stage::Relay => Next::Relay,
    }
}

/// A reply that refuses a request, with its reason.
pub open spec fn refusal(code: u8) -> Seq<u8> {
    seq![0x05, code, 0x00, 0x01, 0x00, 0x00, 0x00, 0x00, 0x00, 0x00]
}

/// A session that goes on, with what it replies to the browser.
#[verifier::ext_equal]
pub struct Progress {
    pub state: SessionState,
    pub reply: Seq<u8>,
}

/// A session that fails, with what it replies to the browser.
#[verifier::ext_equal]
pub struct Failure {
    pub error: SessionError,
    pub reply: Seq<u8>,
}

/// What bytes from the browser do to a session that asked for as many.
pub open spec fn after(s: SessionState, bytes: Seq<u8>) -> Result<Progress, Failure> {
    let silent = Seq::<u8>::empty();
    match s.stage {
        Stage::Version => if bytes[0] != 0x05 {
            Err(Failure { error: SessionError::UnknownVersion(bytes[0]), reply: silent })
        } else {
            Ok(Progress { state: SessionState { stage: Stage::Methods(bytes[1]), ..s }, reply: silent })
        },
        Stage::Methods(_) => Ok(
            Progress {
                state: SessionState { stage: Stage::Request, ..s },
                reply: METHOD_SELECTION_RESP@,
            },
        ),
        Stage::Request => if bytes[0] != 0x05 {
            Err(Failure { error: SessionError::UnknownVersion(bytes[0]), reply: silent })
        } else if bytes[1] != 0x01 {
            Err(Failure { error: SessionError::UnsupportedCommand(bytes[1]), reply: refusal(0x07) })
        } else if bytes[2] != 0x00 {
            Err(Failure { error: SessionError::WrongReserved(bytes[2]), reply: silent })
        } else if bytes[3] == 0x01 {
            Err(Failure { error: SessionError::Ipv4NotSupported, reply: refusal(0x08) })
        } else if bytes[3] == 0x04 {
            Err(Failure { error: SessionError::Ipv6NotSupported, reply: refusal(0x08) })
        } else if bytes[3] != 0x03 {
            Err(Failure { error: SessionError::UnknownAddressType(bytes[3]), reply: refusal(0x08) })
        } else {
            Ok(Progress { state: SessionState { stage: Stage::HostLength, ..s }, reply: silent })
        },
        Stage::HostLength => Ok(
            Progress { state: SessionState { stage: Stage::Host(bytes[0]), ..s }, reply: silent },
        ),
        Stage::Host(_) => Ok(
            Progress {
                state: SessionState { stage: Stage::Port, host: s.host + bytes, ..s },
                reply: silent,
            },
        ),
        Stage::Port => Ok(
            Progress {
                state: SessionState { stage: Stage::Connect, port: bytes, ..s },
                reply: silent,
            },
        ),
        Stage::Connect | Stage::Relay => Ok(Progress { state: s, reply: silent }),
    }
}

/// The reason for a refusal that the browser is told when connecting failed.
pub open spec fn refusal_code(kind: ErrorKind) -> u8 {
    match kind {
        ErrorKind::ConnectionRefused => 0x05,
        ErrorKind::ConnectionAborted => 0x04,
        ErrorKind::Other => 0x03,
    }
}

/// What the browser is told of a connection from `local`: its address and port if
/// they are IPv4, otherwise nothing.
pub open spec fn success_reply(local: SocketAddr) -> Seq<u8> {
    match local {
        SocketAddr::V4(addr) => SOCKS_RESP_PREFIX@ + addr.ip@ + be_bytes(addr.port),
        SocketAddr::V6(_) => Seq::empty(),
    }
}

/// An error in words.
pub open spec fn error_text(error: SessionError) -> Seq<char> {
    match error {
        SessionError::UnknownVersion(b) => "unknown version "@ + decimal(b as nat),
        SessionError::UnsupportedCommand(b) => "unsupported CMD "@ + hex_byte(b),
        SessionError::WrongReserved(b) => "wrong RSV "@ + hex_byte(b),
        SessionError::Ipv4NotSupported => "address type IPV4 not supported"@,
        SessionError::Ipv6NotSupported => "address type IPV6 not supported"@,
        SessionError::UnknownAddressType(b) => "unknown address type "@ + hex_byte(b),
        SessionError::Connect(e) => "error connect to server "@ + e.remote@ + ". err: "@ + e.err@,
    }
}

/// The label of the browser's end of the relay.
pub open spec fn browser_label(host: Seq<u8>, port: Seq<u8>) -> Seq<char> {
    "browser("@ + decode_utf8(host) + ":"@ + decimal(be_number(port) as nat) + ")"@
}

/// The label of the server side's end of the relay.
pub open spec fn server_label(local: Seq<char>) -> Seq<char> {
    "server("@ + local + ")"@
}

/// A session with one browser.
#[derive(Debug)]
pub struct Session {
    stage: Stage,
    host: Vec<u8>,
    port: [u8; 2],
}

impl View for Session {
    type V = SessionState;

    closed spec fn view(&self) -> SessionState {
        SessionState { stage: self.stage, host: self.host@, port: self.port@ }
    }
}

/// `result` is what bytes from the browser come to: a reply, with `session` as
/// `earlier` becomes by them, or a rejection, with `session` as it was.
pub open spec fn matches_after(
    earlier: Session,
    bytes: Seq<u8>,
    session: Session,
    result: Result<Vec<u8>, Rejection>,
) -> bool {
    match (result, after(earlier@, bytes)) {
        (Ok(reply), Ok(progress)) => reply@ == progress.reply && session@ == progress.state,
        (Err(rejection), Err(failure)) => {
            &&& rejection.reply@ == failure.reply
            &&& rejection.error == failure.error
            &&& session@ == earlier@
        },
        _ => false,
    }
}

impl SessionError {
    /// The error in words.
    pub fn message(&self) -> (text: String)
        ensures
            text@ == error_text(*self),
    {
        let mut text = String::new();
        match self {
            SessionError::UnknownVersion(b) => {
                text.append("unknown version ");
                push_decimal(&mut text, *b as u32);
            },
            SessionError::UnsupportedCommand(b) => {
                text.append("unsupported CMD ");
                push_hex_byte(&mut text, *b);
            },
            SessionError::WrongReserved(b) => {
                text.append("wrong RSV ");
                push_hex_byte(&mut text, *b);
            },
            SessionError::Ipv4NotSupported => {
                text.append("address type IPV4 not supported");
            },
            SessionError::Ipv6NotSupported => {
                text.append("address type IPV6 not supported");
            },
            SessionError::UnknownAddressType(b) => {
                text.append("unknown address type ");
                push_hex_byte(&mut text, *b);
            },
            SessionError::Connect(e) => {
                text.append("error connect to server ");
                text.append(e.remote.as_str());
                text.append(". err: ");
                text.append(e.err.as_str());
            },
        }
        assert(text@ =~= error_text(*self));
        text
    }
}

/// Only version 5 of the protocol is known.
pub fn validate_version(buf: &[u8]) -> (result: Result<(), SessionError>)
    requires
        buf@.len() > 0,
    ensures
        result == if buf@[0] == 0x05 {
            Ok(())
        } else {
            Err(SessionError::UnknownVersion(buf@[0]))
        },
{
    if buf[0] != 0x05 {
        return Err(SessionError::UnknownVersion(buf[0]));
    }
    Ok(())
}

/// A reply that refuses a request, with its reason.
fn refusal_bytes(code: u8) -> (reply: Vec<u8>)
    ensures
        reply@ == refusal(code),
{
    let reply: Vec<u8> = vec![0x05, code, 0x00, 0x01, 0x00, 0x00, 0x00, 0x00, 0x00, 0x00];
    assert(reply@ =~= refusal(code));
    reply
}

impl Session {
    /// A host was read only when it should have been, and its length fits in a byte.
    pub closed spec fn wf(&self) -> bool {
        &&& self.host@.len() <= 255
        &&& self.stage is Port || self.stage is Connect || self.stage is Relay
            || self.host@.len() == 0
    }

    /// A session that has read nothing.
    pub fn new() -> (session: Session)
        ensures
            session.wf(),
            session@ == fresh(),
    {
        let session = Session { stage: Stage::Version, host: Vec::new(), port: [0;2] };
        assert(session@ =~= fresh());
        session
    }

    /// What the session asks for.
    pub fn next(&self) -> (next: Next)
        ensures
            next == next_of(self@.stage),
    {
        match self.stage {
            Stage::Version => Next::Read(2),
            Stage::Methods(n) => Next::Read(n as usize),
            Stage::Request => Next::Read(4),
            Stage::HostLength => Next::Read(1),
            Stage::Host(n) => Next::Read(n as usize),
            Stage::Port => Next::Read(2),
            Stage::Connect => Next::Connect,
            Stage::Relay => Next::Relay,
        }
    }

    /// The bytes of the first two stages: the offered authentication methods.
    pub fn method_selection(&mut self, bytes: &[u8]) -> (result: Result<Vec<u8>, Rejection>)
        requires
            old(self).wf(),
            old(self)@.stage is Version || old(self)@.stage is Methods,
            next_of(old(self)@.stage) == Next::Read(bytes@.len() as usize),
        ensures
            final(self).wf(),
            matches_after(*old(self), bytes@, *final(self), result),
    {
        match self.stage {
            Stage::Version => {
                if let Err(error) = validate_version(bytes) {
                    return Err(Rejection { reply: Vec::new(), error });
                }
                self.stage = Stage::Methods(bytes[1]);
                Ok(Vec::new())
            },
            _ => {
                self.stage = Stage::Request;
                let mut reply: Vec<u8> = Vec::new();
                reply.extend_from_slice(&METHOD_SELECTION_RESP);
                assert(reply@ =~= METHOD_SELECTION_RESP@);
                Ok(reply)
            },
        }
    }

    /// The bytes of the stages after these: the request for a connection.
    pub fn socks(&mut self, bytes: &[u8]) -> (result: Result<Vec<u8>, Rejection>)
        requires
            old(self).wf(),
            !(old(self)@.stage is Version),
            !(old(self)@.stage is Methods),
            next_of(old(self)@.stage) == Next::Read(bytes@.len() as usize),
        ensures
            final(self).wf(),
            matches_after(*old(self), bytes@, *final(self), result),
    {
        match self.stage {
            Stage::Request => {
                if let Err(error) = validate_version(bytes) {
                    return Err(Rejection { reply: Vec::new(), error });
                }
                if bytes[1] != 0x01 {
                    return Err(
                        Rejection {
                            reply: refusal_bytes(0x07),
                            error: SessionError::UnsupportedCommand(bytes[1]),
                        },
                    );
                }
                if bytes[2] != 0x00 {
                    return Err(
                        Rejection {
                            reply: Vec::new(),
                            error: SessionError::WrongReserved(bytes[2]),
                        },
                    );
                }
                match bytes[3] {
                    0x01 => Err(
                        Rejection {
                            reply: refusal_bytes(0x08),
                            error: SessionError::Ipv4NotSupported,
                        },
                    ),
                    0x03 => {
                        self.stage = Stage::HostLength;
                        Ok(Vec::new())
                    },
                    0x04 => Err(
                        Rejection {
                            reply: refusal_bytes(0x08),
                            error: SessionError::Ipv6NotSupported,
                        },
                    ),
                    _ => Err(
                        Rejection {
                            reply: refusal_bytes(0x08),
                            error: SessionError::UnknownAddressType(bytes[3]),
                        },
                    ),
                }
            },
            Stage::HostLength => {
                self.stage = Stage::Host(bytes[0]);
                Ok(Vec::new())
            },
            Stage::Host(_) => {
                self.host.extend_from_slice(bytes);
                assert(self.host@ =~= old(self)@.host + bytes@);
                self.stage = Stage::Port;
                Ok(Vec::new())
            },
            _ => {
                self.port = [bytes[0], bytes[1]];
                assert(self.port@ =~= bytes@);
                self.stage = Stage::Connect;
                Ok(Vec::new())
            },
        }
    }

    /// Takes in the bytes that the session asked for. The result is what to write to
    /// the browser before going on, or the rejection of what it sent.
    pub fn received(&mut self, bytes: &[u8]) -> (result: Result<Vec<u8>, Rejection>)
        requires
            old(self).wf(),
            next_of(old(self)@.stage) == Next::Read(bytes@.len() as usize),
        ensures
            final(self).wf(),
            matches_after(*old(self), bytes@, *final(self), result),
    {
        match self.stage {
            Stage::Version | Stage::Methods(_) => self.method_selection(bytes),
            _ => self.socks(bytes),
        }
    }

    /// Takes in how connecting to the server side went. With a connection from the
    /// given local address, the browser is told of success and the server side is
    /// sent the length of the host's name and then the name with the port. Without
    /// one, the browser is refused.
    pub fn address(&mut self, outcome: Result<SocketAddr, ConnectError>) -> (result: Result<
        Opening,
        Rejection,
    >)
        requires
            old(self).wf(),
            old(self)@.stage is Connect,
        ensures
            final(self).wf(),
            match (outcome, result) {
                (Ok(local), Ok(opening)) => {
                    &&& opening.reply@ == success_reply(local)
                    &&& opening.size == old(self)@.host.len()
                    &&& opening.header@ == old(self)@.host + old(self)@.port
                    &&& final(self)@ == (SessionState { stage: Stage::Relay, ..old(self)@ })
                },
                (Err(e), Err(rejection)) => {
                    &&& rejection.reply@ == refusal(refusal_code(e.kind))
                    &&& rejection.error == SessionError::Connect(e)
                    &&& final(self)@ == old(self)@
                },
                _ => false,
            },
    {
        let reply = match outcome {
            Ok(local) => {
                let mut resp: Vec<u8> = Vec::new();
                if let SocketAddr::V4(addr) = local {
                    resp.extend_from_slice(&SOCKS_RESP_PREFIX);
                    resp.extend_from_slice(&addr.ip);
                    resp.extend_from_slice(&u16_to_be_bytes(addr.port));
                }
                assert(resp@ =~= success_reply(local));
                resp
            },
            Err(e) => {
                let code: u8 = match e.kind {
                    ErrorKind::ConnectionRefused => 0x05,
                    ErrorKind::ConnectionAborted => 0x04,
                    ErrorKind::Other => 0x03,
                };
                return Err(
                    Rejection { reply: refusal_bytes(code), error: SessionError::Connect(e) },
                );
            },
        };
        let size = self.host.len() as u8;
        let mut header: Vec<u8> = Vec::new();
        header.extend_from_slice(self.host.as_slice());
        header.extend_from_slice(&self.port);
        assert(header@ =~= self.host@ + self.port@);
        self.stage = Stage::Relay;
        Ok(Opening { reply, size, header })
    }

    /// The host's name as it was sent.
    pub fn host(&self) -> (host: &[u8])
        ensures
            host@ == self@.host,
    {
        self.host.as_slice()
    }

    /// The host's name as text.
    pub fn normalized_host(&self) -> (host: &str)
        requires
            valid_utf8(self@.host),
        ensures
            host@ == decode_utf8(self@.host),
    {
        std::str::from_utf8(self.host.as_slice()).unwrap()
    }

    /// The port as a number.
    pub fn normalized_port(&self) -> (port: u16)
        ensures
            port == be_number(self@.port),
    {
        u16_from_be_bytes(self.port)
    }

    /// The labels of the browser's end and of the server side's end of the relay, the
    /// latter connected from `local`.
    pub fn labels(&self, local: &str) -> (labels: (String, String))
        requires
            valid_utf8(self@.host),
        ensures
            labels.0@ == browser_label(self@.host, self@.port),
            labels.1@ == server_label(local@),
    {
        let mut browser = String::new();
        browser.append("browser(");
        browser.append(self.normalized_host());
        browser.append(":");
        push_decimal(&mut browser, self.normalized_port() as u32);
        browser.append(")");
        assert(browser@ =~= browser_label(self@.host, self@.port));
        let mut server = String::new();
        server.append("server(");
        server.append(local);
        server.append(")");
        assert(server@ =~= server_label(local@));
        (browser, server)
    }

    /// The relay between the browser, read by `ri` and written by `wi`, and the server
    /// side, read by `ro` and written by `wo`, connected from `local`.
    pub fn relay<R: AsyncRead, W: AsyncWrite>(
        &self,
        ri: R,
        wi: W,
        ro: R,
        wo: W,
        local: &str,
    ) -> (relay: Relay<R, W>)
        requires
            valid_utf8(self@.host),
        ensures
            relay.wf(),
            relay.is_fresh(),
            relay.inbound().joins(
                ri,
                browser_label(self@.host, self@.port),
                wo,
                server_label(local@),
            ),
            relay.outbound().joins(
                ro,
                server_label(local@),
                wi,
                browser_label(self@.host, self@.port),
            ),
    {
        let (inbound_addr, outbound_addr) = self.labels(local);
        Relay::new(
            Channel::new(ri, inbound_addr.clone(), wo, outbound_addr.clone()),
            Channel::new(ro, outbound_addr, wi, inbound_addr),
        )
    }
}

/// Bytes are of a known version exactly if the first one is 5; any other first byte is
/// reported.
pub proof fn law_only_version_five_is_known(buf: &[u8], result: Result<(), SessionError>)
    requires
        buf@.len() > 0,
        call_ensures(validate_version, (buf,), result),
    ensures
        result is Ok <==> buf@[0] == 5,
        result matches Err(e) ==> e == SessionError::UnknownVersion(buf@[0]),
{
}

/// An error in words says what was wrong and with which byte, a version in base ten and
/// any other byte in base sixteen; a failed connection says where to and why.
pub proof fn law_errors_name_their_cause(error: SessionError, text: String)
    requires
        call_ensures(SessionError::message, (&error,), text),
    ensures
        match error {
            SessionError::UnknownVersion(b) => exists|number: Seq<char>| #[trigger]
                writes(number, b as int) && text@ == "unknown version "@ + number,
            SessionError::UnsupportedCommand(b) => exists|byte: Seq<char>| #[trigger]
                writes_hex(byte, b) && text@ == "unsupported CMD "@ + byte,
            SessionError::WrongReserved(b) => exists|byte: Seq<char>| #[trigger]
                writes_hex(byte, b) && text@ == "wrong RSV "@ + byte,
            SessionError::Ipv4NotSupported => text@ == "address type IPV4 not supported"@,
            SessionError::Ipv6NotSupported => text@ == "address type IPV6 not supported"@,
            SessionError::UnknownAddressType(b) => exists|byte: Seq<char>| #[trigger]
                writes_hex(byte, b) && text@ == "unknown address type "@ + byte,
            SessionError::Connect(e) => text@ == "error connect to server "@ + e.remote@
                + ". err: "@ + e.err@,
        },
{
    match error {
        SessionError::UnknownVersion(b) => {
            law_decimal_has_its_value(b as nat);
            assert(writes(decimal(b as nat), b as int));
        },
        SessionError::UnsupportedCommand(b)
        | SessionError::WrongReserved(b)
        | SessionError::UnknownAddressType(b) => {
            law_hex_byte_has_its_value(b);
            assert(writes_hex(hex_byte(b), b));
        },
        _ => {},
    }
}

/// A new session has read no host and asks for two bytes.
pub proof fn law_new_session_has_read_nothing(session: Session, next: Next)
    requires
        call_ensures(Session::new, (), session),
        call_ensures(Session::next, (&session,), next),
    ensures
        session@.host.len() == 0,
        session@.stage is Version,
        next == Next::Read(2),
{
}

/// Taking in bytes does to a session what they come to: the reply and the session, or
/// the error and the reply, are those, and a session that rejects bytes stays as it is.
/// What a session asks for depends on its stage alone.
pub proof fn law_bytes_are_taken_in(
    session: &mut Session,
    bytes: &[u8],
    result: Result<Vec<u8>, Rejection>,
    next: Next,
)
    requires
        call_ensures(Session::received, (session, bytes), result)
            || call_ensures(Session::method_selection, (session, bytes), result)
            || call_ensures(Session::socks, (session, bytes), result),
        call_ensures(Session::next, (&*final(session),), next),
    ensures
        match (result, after(old(session)@, bytes@)) {
            (Ok(reply), Ok(progress)) => reply@ == progress.reply && final(session)@
                == progress.state,
            (Err(rejection), Err(failure)) => rejection.reply@ == failure.reply && rejection.error
                == failure.error && final(session)@ == old(session)@,
            _ => false,
        },
        next == next_of(final(session)@.stage),
{
}

/// With the port the request is complete: its two bytes are kept as they came, with the
/// host that was read before them, nothing is replied yet, and the session asks for a
/// connection to the server side.
pub proof fn law_complete_request_asks_to_connect(
    session: &mut Session,
    bytes: &[u8],
    result: Result<Vec<u8>, Rejection>,
    next: Next,
)
    requires
        old(session)@.stage is Port,
        call_ensures(Session::received, (session, bytes), result),
        call_ensures(Session::next, (&*final(session),), next),
    ensures
        result matches Ok(reply) && reply@.len() == 0,
        final(session)@.port == bytes@,
        final(session)@.host == old(session)@.host,
        final(session)@.stage is Connect,
        next is Connect,
{
}

/// With a connection from an IPv4 address, the browser is told of success in ten bytes:
/// 5, 0, 0, 1, the four bytes of the address in their order, and the port in two, the
/// more significant one first. From another address it is told nothing. The server side
/// is sent the length of the host's name, and the name with the two bytes of the port.
/// Then bytes can be relayed.
pub proof fn law_success_is_reported(
    session: &mut Session,
    local: SocketAddr,
    result: Result<Opening, Rejection>,
    next: Next,
)
    requires
        call_ensures(
            Session::address,
            (session, Ok::<SocketAddr, ConnectError>(local)),
            result,
        ),
        call_ensures(Session::next, (&*final(session),), next),
    ensures
        next is Relay,
        result matches Ok(opening) && {
            &&& match local {
                SocketAddr::V4(addr) => {
                    &&& opening.reply@.len() == 10
                    &&& opening.reply@[0] == 5 && opening.reply@[1] == 0
                    &&& opening.reply@[2] == 0 && opening.reply@[3] == 1
                    &&& forall|i: int| 0 <= i < 4 ==> opening.reply@[4 + i] == #[trigger] addr.ip@[i]
                    &&& opening.reply@[8] == addr.port as int / 256
                    &&& opening.reply@[9] == addr.port as int % 256
                },
                SocketAddr::V6(_) => opening.reply@.len() == 0,
            }
            &&& opening.size == old(session)@.host.len()
            &&& opening.header@.len() == old(session)@.host.len() + old(session)@.port.len()
            &&& forall|i: int|
                0 <= i < old(session)@.host.len() ==> #[trigger] opening.header@[i]
                    == old(session)@.host[i]
            &&& forall|i: int|
                0 <= i < old(session)@.port.len() ==> opening.header@[old(session)@.host.len() + i]
                    == #[trigger] old(session)@.port[i]
        },
        final(session)@.stage is Relay,
        final(session)@.host == old(session)@.host,
        final(session)@.port == old(session)@.port,
{
}

/// Without a connection, the browser is refused in ten bytes, of which the second says
/// why: 5 for a connection that was refused, 4 for one that was aborted, 3 otherwise.
/// The session stays as it is.
pub proof fn law_failure_is_reported(
    session: &mut Session,
    error: ConnectError,
    result: Result<Opening, Rejection>,
)
    requires
        call_ensures(
            Session::address,
            (session, Err::<SocketAddr, ConnectError>(error)),
            result,
        ),
    ensures
        result matches Err(rejection) && {
            &&& rejection.reply@.len() == 10
            &&& rejection.reply@[0] == 5
            &&& error.kind is ConnectionRefused ==> rejection.reply@[1] == 5
            &&& error.kind is ConnectionAborted ==> rejection.reply@[1] == 4
            &&& error.kind is Other ==> rejection.reply@[1] == 3
            &&& rejection.reply@[2] == 0
            &&& rejection.reply@[3] == 1
            &&& forall|i: int| 4 <= i < 10 ==> #[trigger] rejection.reply@[i] == 0
            &&& rejection.error == SessionError::Connect(error)
        },
        final(session)@ == old(session)@,
{
}

/// What is read of a session: the bytes of the host's name, the text that they encode,
/// and the port that its two bytes make, the first counting 256 times as much.
pub proof fn law_session_is_read(session: Session, bytes: &[u8], text: &str, port: u16)
    requires
        call_ensures(Session::host, (&session,), bytes),
        call_ensures(Session::normalized_host, (&session,), text),
        call_ensures(Session::normalized_port, (&session,), port),
    ensures
        bytes@ == session@.host,
        text@ == decode_utf8(session@.host),
        port == session@.port[0] * 256 + session@.port[1],
{
}

/// `text` is the label of a browser that asked for this host and port.
pub open spec fn labels_browser(text: Seq<char>, host: Seq<u8>, port: Seq<u8>) -> bool {
    exists|number: Seq<char>| #[trigger]
        writes(number, port[0] * 256 + port[1]) && text == "browser("@ + decode_utf8(host) + ":"@
            + number + ")"@
}

proof fn lemma_browser_label(host: Seq<u8>, port: Seq<u8>)
    ensures
        labels_browser(browser_label(host, port), host, port),
{
    law_decimal_has_its_value(be_number(port) as nat);
    assert(writes(decimal(be_number(port) as nat), port[0] * 256 + port[1]));
}

/// The labels name the host and the port in base ten that the browser asked for, and
/// where the server side is connected from.
pub proof fn law_labels_name_both_ends(session: Session, local: &str, labels: (String, String))
    requires
        call_ensures(Session::labels, (&session, local), labels),
    ensures
        labels_browser(labels.0@, session@.host, session@.port),
        labels.1@ == "server("@ + local@ + ")"@,
{
    lemma_browser_label(session@.host, session@.port);
}

/// A relay carries what is read from the browser to the server side, and what is read
/// from the server side to the browser, each under the labels of both ends. Neither
/// direction is closed, and nothing was copied yet.
pub proof fn law_relay_joins_browser_and_server<R: AsyncRead, W: AsyncWrite>(
    session: Session,
    ri: R,
    wi: W,
    ro: R,
    wo: W,
    local: &str,
    relay: Relay<R, W>,
)
    requires
        call_ensures(Session::relay::<R, W>, (&session, ri, wi, ro, wo, local), relay),
    ensures
        relay.inbound().reader() == ri,
        relay.inbound().writer() == wo,
        relay.outbound().reader() == ro,
        relay.outbound().writer() == wi,
        labels_browser(relay.inbound().read_label(), session@.host, session@.port),
        labels_browser(relay.outbound().write_label(), session@.host, session@.port),
        relay.inbound().write_label() == "server("@ + local@ + ")"@,
        relay.outbound().read_label() == "server("@ + local@ + ")"@,
        !relay.inbound_closed(),
        !relay.outbound_closed(),
        relay.inbound().reads().len() == 0,
        relay.inbound().writes().len() == 0,
        relay.outbound().reads().len() == 0,
        relay.outbound().writes().len() == 0,
{
    lemma_browser_label(session@.host, session@.port);
}

} // verus!
