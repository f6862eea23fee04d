//! The SOCKS proxy protocol, versions 4 (with the 4A extension) and 5.

pub mod provider;
pub mod v4;
pub mod v5;

use crate::buffer::unread;
use crate::text::{quoted, quoted_text};
use crate::wire::lemma_be_bytes_len;
use bytes::Bytes;
use vstd::prelude::*;
use vstd::string::StringExecFns;
use vstd::utf8::decode_utf8;

verus! {

/// An I/O failure on the client's connection.
#[derive(Debug, Clone, PartialEq, Eq)]
pub enum IoError {
    /// The stream ended before a complete request had arrived.
    UnexpectedEof,
    /// Any other failure, with its message.
    Other(String),
}

/// What can go wrong while a SOCKS request is read.
#[derive(Debug, Clone, PartialEq, Eq)]
pub enum Error {
    /// The bytes received so far are the beginning of a request, not yet all of it.
    NeedMoreData,
    /// The client's bytes are not a request of the protocol.
    Protocol(String),
    /// Reading from or writing to the client failed.
    Io(IoError),
}

/// The mathematical value of an [`IoError`].
pub enum IoFault {
    UnexpectedEof,
    Other(Seq<char>),
}

/// The mathematical value of an [`Error`].
pub enum Fault {
    NeedMoreData,
    Protocol(Seq<char>),
    Io(IoFault),
}

impl View for IoError {
    type V = IoFault;

    open spec fn view(&self) -> IoFault {
        match self {
            IoError::UnexpectedEof => IoFault::UnexpectedEof,
            IoError::Other(message) => IoFault::Other(message@),
        }
    }
}

impl View for Error {
    type V = Fault;

    open spec fn view(&self) -> Fault {
        match self {
            Error::NeedMoreData => Fault::NeedMoreData,
            Error::Protocol(message) => Fault::Protocol(message@),
            Error::Io(e) => Fault::Io(e@),
        }
    }
}

/// The destination that a request names.
#[derive(Debug, Clone, PartialEq, Eq)]
pub enum SocketAddr {
    /// An IPv4 address, as the number its four octets denote, and a port.
    V4(u32, u16),
    /// An IPv6 address, as the number its sixteen octets denote, and a port.
    V6(u128, u16),
    /// A domain name, still to be resolved, and a port.
    Raw(String, u16),
}

/// The mathematical value of a [`SocketAddr`].
pub enum Destination {
    V4(u32, u16),
    V6(u128, u16),
    Raw(Seq<char>, u16),
}

impl View for SocketAddr {
    type V = Destination;

    open spec fn view(&self) -> Destination {
        match self {
            SocketAddr::V4(ip, port) => Destination::V4(*ip, *port),
            SocketAddr::V6(ip, port) => Destination::V6(*ip, *port),
            SocketAddr::Raw(domain, port) => Destination::Raw(domain@, *port),
        }
    }
}

/// What a decoder makes of a byte sequence: the value or the failure, and
/// how many bytes it has read when it stops.
pub struct Parse<T> {
    pub result: Result<T, Fault>,
    pub used: int,
}

/// The mathematical value of a decoder's result.
pub open spec fn outcome<T: View>(r: Result<T, Error>) -> Result<T::V, Fault> {
    match r {
        Ok(value) => Ok(value@),
        Err(e) => Err(e@),
    }
}

impl SocketAddr {
    /// The IPv4 address that the number `ip` denotes, with a port.
    pub fn v4(ip: u32, port: u16) -> (addr: Self)
        ensures
            addr@ == Destination::V4(ip, port),
    {
        SocketAddr::V4(ip, port)
    }

    /// The IPv6 address that the number `ip` denotes, with a port.
    pub fn v6(ip: u128, port: u16) -> (addr: Self)
        ensures
            addr@ == Destination::V6(ip, port),
    {
        SocketAddr::V6(ip, port)
    }

    /// A domain name, as the client wrote it, with a port.
    pub fn raw(domain: String, port: u16) -> (addr: Self)
        ensures
            addr@ == Destination::Raw(domain@, port),
    {
        SocketAddr::Raw(domain, port)
    }
}

/// What the connection's driver reports: the outcome of the action that the
/// session asked for last.
#[derive(Debug, Clone, PartialEq, Eq)]
pub enum Event {
    /// Bytes that were read from the client; none at the end of the stream.
    Received(Vec<u8>),
    /// The attempt to reach the destination is over; `true` when it connected.
    Dialed(bool),
    /// The reply has been written to the client.
    Replied,
    /// The tunnel has carried its last byte.
    Spliced,
    /// The action failed on the client's connection.
    Failed(IoError),
}

/// The mathematical value of an [`Event`].
pub enum Input {
    Received(Seq<u8>),
    Dialed(bool),
    Replied,
    Spliced,
    Failed(IoFault),
}

impl View for Event {
    type V = Input;

    open spec fn view(&self) -> Input {
        match self {
            Event::Received(bytes) => Input::Received(bytes@),
            Event::Dialed(connected) => Input::Dialed(*connected),
            Event::Replied => Input::Replied,
            Event::Spliced => Input::Spliced,
            Event::Failed(e) => Input::Failed(e@),
        }
    }
}

/// What the session asks the connection's driver to do next.
#[derive(Debug, PartialEq, Eq)]
pub enum Action {
    /// Read more bytes from the client.
    Read,
    /// Connect to the destination.
    Dial(SocketAddr),
    /// Write these bytes to the client.
    Reply(Bytes),
    /// Send these bytes, which the client sent behind its request, to the
    /// destination, then copy in both directions until both have ended.
    Splice(Vec<u8>),
    /// Close the connection; the session is over, with this result.
    Close(Result<(), Error>),
}

/// The mathematical value of an [`Action`].
pub enum Output {
    Read,
    Dial(Destination),
    Reply(Seq<u8>),
    Splice(Seq<u8>),
    Close(Result<(), Fault>),
}

impl View for Action {
    type V = Output;

    open spec fn view(&self) -> Output {
        match self {
            Action::Read => Output::Read,
            Action::Dial(addr) => Output::Dial(addr@),
            Action::Reply(bytes) => Output::Reply(unread(*bytes)),
            Action::Splice(bytes) => Output::Splice(bytes@),
            Action::Close(Ok(())) => Output::Close(Ok(())),
            Action::Close(Err(e)) => Output::Close(Err(e@)),
        }
    }
}

/// The message of the failure that ends a session whose driver reports an
/// event that answers no action of the session.
pub open spec fn unexpected_event() -> Seq<char> {
    "unexpected event"@
}

impl IoFault {
    /// The failure as text.
    pub open spec fn text(self) -> Seq<char> {
        match self {
            IoFault::UnexpectedEof => "unexpected end of file"@,
            IoFault::Other(message) => message,
        }
    }
}

impl Fault {
    /// The failure as text.
    pub open spec fn text(self) -> Seq<char> {
        match self {
            Fault::NeedMoreData => "need more data"@,
            Fault::Protocol(message) => "protocol error: "@ + message,
            Fault::Io(e) => e.text(),
        }
    }
}

impl IoError {
    /// The failure as text, for a log.
    pub fn to_string(&self) -> (text: String)
        ensures
            text@ == self@.text(),
    {
        match self {
            IoError::UnexpectedEof => String::from_str("unexpected end of file"),
            IoError::Other(message) => message.clone(),
        }
    }
}

impl Error {
    /// The failure as text, for a log.
    pub fn to_string(&self) -> (text: String)
        ensures
            text@ == self@.text(),
    {
        match self {
            Error::NeedMoreData => String::from_str("need more data"),
            Error::Protocol(message) => String::from_str("protocol error: ").concat(
                message.as_str(),
            ),
            Error::Io(e) => e.to_string(),
        }
    }
}

/// Where a connection stands, whatever version its client speaks.
#[derive(Debug, Clone, PartialEq, Eq)]
pub enum Session {
    /// The version byte is awaited.
    Starting,
    /// The client speaks version 4.
    V4(v4::Session),
    /// The client speaks version 5.
    V5(v5::Session),
    /// The connection is over before a version was agreed on.
    Closed,
}

/// The mathematical value of a [`Session`].
pub enum State {
    Starting,
    V4(v4::State),
    V5(v5::State),
    Closed,
}

impl View for Session {
    type V = State;

    open spec fn view(&self) -> State {
        match self {
            Session::Starting => State::Starting,
            Session::V4(session) => State::V4(session@),
            Session::V5(session) => State::V5(session@),
            Session::Closed => State::Closed,
        }
    }
}

/// The end of a session.
pub open spec fn closed(result: Result<(), Fault>) -> (State, Output) {
    (State::Closed, Output::Close(result))
}

/// What follows from the first bytes of a connection: the first of them is
/// the version, which decides who reads the others. A version other than 4
/// and 5 ends the session.
pub open spec fn dispatch(bytes: Seq<u8>) -> (State, Output) {
    if bytes.len() == 0 {
        closed(Err(Fault::Io(IoFault::UnexpectedEof)))
    } else if bytes[0] == 4 {
        let (state, output) = v4::negotiation(bytes.skip(1));
        (State::V4(state), output)
    } else if bytes[0] == 5 {
        let (state, output) = v5::greeting(bytes.skip(1));
        (State::V5(state), output)
    } else {
        closed(Err(Fault::Protocol(quoted("illegal protocol version "@, bytes[0] as nat))))
    }
}

/// The session's next state and action, for each state and event.
pub open spec fn step(state: State, input: Input) -> (State, Output) {
    match state {
        State::Starting => match input {
            Input::Failed(e) => closed(Err(Fault::Io(e))),
            Input::Received(bytes) => dispatch(bytes),
            _ => closed(Err(Fault::Protocol(unexpected_event()))),
        },
        State::V4(state) => {
            let (state, output) = v4::step(state, input);
            (State::V4(state), output)
        },
        State::V5(state) => {
            let (state, output) = v5::step(state, input);
            (State::V5(state), output)
        },
        State::Closed => match input {
            Input::Failed(e) => closed(Err(Fault::Io(e))),
            _ => closed(Err(Fault::Protocol(unexpected_event()))),
        },
    }
}

fn close(result: Result<(), Error>) -> (r: (Session, Action))
    ensures
        (r.0@, r.1@) == closed(
            match result {
                Ok(()) => Ok(()),
                Err(e) => Err(e@),
            },
        ),
{
    (Session::Closed, Action::Close(result))
}

/// Takes the session one step further: from where it stands and what the
/// driver reports to where it stands next and what the driver is to do. A
/// new connection starts at `Session::Starting`, with the action
/// `Action::Read`.
pub fn handle_request(session: Session, event: Event) -> (r: (Session, Action))
    ensures
        (r.0@, r.1@) == step(session@, event@),
{
    match session {
        Session::V4(session) => {
            let (session, action) = v4::handle_request(session, event);
            (Session::V4(session), action)
        },
        Session::V5(session) => {
            let (session, action) = v5::handle_request(session, event);
            (Session::V5(session), action)
        },
        Session::Starting => match event {
            Event::Failed(e) => close(Err(Error::Io(e))),
            Event::Received(bytes) => {
                if bytes.len() == 0 {
                    return close(Err(Error::Io(IoError::UnexpectedEof)));
                }
                let ver = bytes[0];
                let ghost all = bytes@;
                let mut bytes = bytes;
                let rest = bytes.split_off(1);
                assert(rest@ =~= all.skip(1));
                if ver == 4 {
                    let (session, action) = v4::negotiate(rest);
                    (Session::V4(session), action)
                } else if ver == 5 {
                    let (session, action) = v5::greet(rest);
                    (Session::V5(session), action)
                } else {
                    close(Err(Error::Protocol(quoted_text("illegal protocol version ", ver))))
                }
            },
            _ => close(Err(Error::Protocol(String::from_str("unexpected event")))),
        },
        Session::Closed => match event {
            Event::Failed(e) => close(Err(Error::Io(e))),
            _ => close(Err(Error::Protocol(String::from_str("unexpected event")))),
        },
    }
}

/// A connection that opens with the byte 4 and a connect request whose
/// address is zero or at least 256 is dialed to that IPv4 address and the
/// port; nothing is read behind the user id's terminator, so what follows it
/// is kept for the tunnel.
pub proof fn law_v4_connect(port: u16, ip: u32, user: Seq<u8>, rest: Seq<u8>)
    requires
        !v4::names_domain(ip),
        v4::terminable(user),
    ensures
        step(
            State::Starting,
            Input::Received(seq![4u8] + v4::wire(v4::CONNECT, port, ip, user) + rest),
        ) == (State::V4(v4::State::Dialing(rest)), Output::Dial(Destination::V4(ip, port))),
{
    let frame = v4::wire(v4::CONNECT, port, ip, user);
    let bytes = seq![4u8] + frame + rest;
    v4::law_address_is_target(v4::CONNECT, port, ip, user, rest);
    lemma_be_bytes_len(port as nat, 2);
    lemma_be_bytes_len(ip as nat, 4);
    assert(bytes.skip(1) =~= frame + rest);
    assert((frame + rest).skip(8 + user.len() as int) =~= rest);
}

/// A connection that opens with the byte 4 and a connect request whose
/// address is between 1 and 255, followed by a terminated domain, is dialed
/// to that domain and the port.
pub proof fn law_v4a_connect(port: u16, ip: u32, user: Seq<u8>, domain: Seq<u8>, rest: Seq<u8>)
    requires
        1 <= ip <= 255,
        v4::terminable(user),
        v4::terminable(domain),
    ensures
        step(
            State::Starting,
            Input::Received(
                seq![4u8] + v4::wire(v4::CONNECT, port, ip, user) + domain + seq![0u8] + rest,
            ),
        ) == (
            State::V4(v4::State::Dialing(rest)),
            Output::Dial(Destination::Raw(decode_utf8(domain), port)),
        ),
{
    let frame = v4::wire(v4::CONNECT, port, ip, user) + domain + seq![0u8];
    let bytes = seq![4u8] + v4::wire(v4::CONNECT, port, ip, user) + domain + seq![0u8] + rest;
    v4::law_small_address_names_domain(v4::CONNECT, port, ip, user, domain, rest);
    lemma_be_bytes_len(port as nat, 2);
    lemma_be_bytes_len(ip as nat, 4);
    assert(bytes.skip(1) =~= frame + rest);
    assert(frame + rest =~= v4::wire(v4::CONNECT, port, ip, user) + domain + seq![0u8] + rest);
    assert((frame + rest).skip(8 + user.len() as int + domain.len() as int + 1) =~= rest);
}

/// The need for more data stays inside the session: it never ends it.
pub proof fn law_need_more_data_reads_on(state: State, input: Input)
    ensures
        step(state, input).1 != Output::Close(Err(Fault::NeedMoreData)),
{
    match state {
        State::V4(state) => v4::law_need_more_data_reads_on(state, input),
        State::V5(state) => v5::law_need_more_data_reads_on(state, input),
        _ => {},
    }
}

} // verus!
