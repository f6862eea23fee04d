//! SOCKS version 5, without authentication.

use crate::buffer::{
    copy_from_slice, freeze, get_u128, get_u16, get_u32, get_u8, put_u16, put_u32, put_u8,
    remaining, unread, with_capacity,
};
use crate::socks::{
    outcome, unexpected_event, Action, Destination, Error, Event, Fault, Input, IoError, IoFault,
    Output, Parse, SocketAddr,
};
use crate::text::{from_utf8, quoted, quoted_text, utf8_error_text};
use crate::wire::{
    be_bytes, be_value, joined, lemma_be_bytes_len, lemma_be_round_trip, lemma_byte_ranges,
    lemma_joined_prefix,
};
use bytes::Bytes;
use vstd::prelude::*;
use vstd::string::StringExecFns;
use vstd::utf8::{
    decode_utf8, encode_utf8, encode_utf8_decode_utf8, encode_utf8_valid_utf8, valid_utf8,
};

verus! {

/// A request of a version 5 client: the command and the destination.
#[derive(Debug, Clone, PartialEq, Eq)]
pub enum Request {
    Connect(SocketAddr),
    Bind(SocketAddr),
    UdpAssociate(SocketAddr),
}

/// The mathematical value of a [`Request`].
pub enum Frame {
    Connect(Destination),
    Bind(Destination),
    UdpAssociate(Destination),
}

impl View for Request {
    type V = Frame;

    open spec fn view(&self) -> Frame {
        match self {
            Request::Connect(addr) => Frame::Connect(addr@),
            Request::Bind(addr) => Frame::Bind(addr@),
            Request::UdpAssociate(addr) => Frame::UdpAssociate(addr@),
        }
    }
}

/// The command code of a connect request.
pub const CONNECT: u8 = 1;

/// The command code of a bind request.
pub const BIND: u8 = 2;

/// The command code of a request to relay datagrams.
pub const UDP_ASSOCIATE: u8 = 3;

/// The address type of an IPv4 address.
pub const IPV4: u8 = 1;

/// The address type of a domain name.
pub const DOMAIN: u8 = 3;

/// The address type of an IPv6 address.
pub const IPV6: u8 = 4;

/// The request with command code `code`.
pub open spec fn frame(code: u8, addr: Destination) -> Frame {
    if code == CONNECT {
        Frame::Connect(addr)
    } else if code == BIND {
        Frame::Bind(addr)
    } else {
        Frame::UdpAssociate(addr)
    }
}

/// The wire format of a request, after its version byte: the command, a
/// reserved zero byte, the address type and the address in the form that the
/// type calls for, then the port; numbers are in big-endian order.
pub open spec fn parse(s: Seq<u8>) -> Parse<Frame> {
    if s.len() < 2 {
        Parse { result: Err(Fault::NeedMoreData), used: 0 }
    } else if s[1] != 0 {
        Parse { result: Err(Fault::Protocol("reserved octet is not 0"@)), used: 2 }
    } else if s[0] != CONNECT && s[0] != BIND && s[0] != UDP_ASSOCIATE {
        Parse { result: Err(Fault::Protocol(quoted("illegal request "@, s[0] as nat))), used: 2 }
    } else if s.len() < 3 {
        Parse { result: Err(Fault::NeedMoreData), used: 2 }
    } else if s[2] == IPV4 {
        if s.len() < 9 {
            Parse { result: Err(Fault::NeedMoreData), used: 3 }
        } else {
            let ip = be_value(s.subrange(3, 7)) as u32;
            let port = be_value(s.subrange(7, 9)) as u16;
            Parse { result: Ok(frame(s[0], Destination::V4(ip, port))), used: 9 }
        }
    } else if s[2] == IPV6 {
        if s.len() < 21 {
            Parse { result: Err(Fault::NeedMoreData), used: 3 }
        } else {
            let ip = be_value(s.subrange(3, 19)) as u128;
            let port = be_value(s.subrange(19, 21)) as u16;
            Parse { result: Ok(frame(s[0], Destination::V6(ip, port))), used: 21 }
        }
    } else if s[2] == DOMAIN {
        if s.len() < 4 {
            Parse { result: Err(Fault::NeedMoreData), used: 3 }
        } else if s.len() < 4 + s[3] + 2 {
            Parse { result: Err(Fault::NeedMoreData), used: 4 }
        } else {
            let end = 4 + s[3];
            let name = s.subrange(4, end);
            if !valid_utf8(name) {
                Parse { result: Err(Fault::Protocol(utf8_error_text(name))), used: end }
            } else {
                let port = be_value(s.subrange(end, end + 2)) as u16;
                Parse {
                    result: Ok(frame(s[0], Destination::Raw(decode_utf8(name), port))),
                    used: end + 2,
                }
            }
        }
    } else {
        Parse {
            result: Err(Fault::Protocol(quoted("illegal address type "@, s[2] as nat))),
            used: 3,
        }
    }
}

/// The bytes of a request: the command, the reserved byte, and the
/// destination in the form of its kind.
pub open spec fn wire(code: u8, addr: Destination) -> Seq<u8> {
    match addr {
        Destination::V4(ip, port) => seq![code, 0u8, IPV4] + be_bytes(ip as nat, 4) + be_bytes(
            port as nat,
            2,
        ),
        Destination::V6(ip, port) => seq![code, 0u8, IPV6] + be_bytes(ip as nat, 16) + be_bytes(
            port as nat,
            2,
        ),
        Destination::Raw(name, port) => seq![code, 0u8, DOMAIN, encode_utf8(name).len() as u8]
            + encode_utf8(name) + be_bytes(port as nat, 2),
    }
}

/// What is decoded from the bytes of a request is that request, whatever
/// follows it: the decoder stops where the request ends. A domain can be
/// sent when it takes up no more than 255 bytes.
pub proof fn law_round_trip(code: u8, addr: Destination, rest: Seq<u8>)
    requires
        code == CONNECT || code == BIND || code == UDP_ASSOCIATE,
        addr matches Destination::Raw(name, _) ==> encode_utf8(name).len() <= 255,
    ensures
        parse(wire(code, addr) + rest) == (Parse {
            result: Ok(frame(code, addr)),
            used: wire(code, addr).len() as int,
        }),
{
    let s = wire(code, addr) + rest;
    lemma_byte_ranges();
    match addr {
        Destination::V4(ip, port) => {
            lemma_be_bytes_len(ip as nat, 4);
            lemma_be_bytes_len(port as nat, 2);
            lemma_be_round_trip(ip as nat, 4);
            lemma_be_round_trip(port as nat, 2);
            assert(s.subrange(3, 7) =~= be_bytes(ip as nat, 4));
            assert(s.subrange(7, 9) =~= be_bytes(port as nat, 2));
        },
        Destination::V6(ip, port) => {
            lemma_be_bytes_len(ip as nat, 16);
            lemma_be_bytes_len(port as nat, 2);
            lemma_be_round_trip(ip as nat, 16);
            lemma_be_round_trip(port as nat, 2);
            assert(s.subrange(3, 19) =~= be_bytes(ip as nat, 16));
            assert(s.subrange(19, 21) =~= be_bytes(port as nat, 2));
        },
        Destination::Raw(name, port) => {
            let bytes = encode_utf8(name);
            let end = 4 + bytes.len() as int;
            lemma_be_bytes_len(port as nat, 2);
            lemma_be_round_trip(port as nat, 2);
            encode_utf8_valid_utf8(name);
            encode_utf8_decode_utf8(name);
            assert(s[3] == bytes.len());
            assert(s.subrange(4, end) =~= bytes);
            assert(s.subrange(end, end + 2) =~= be_bytes(port as nat, 2));
        },
    }
}

/// A request whose reserved byte is not zero is refused, whatever else it
/// holds.
pub proof fn law_reserved_byte(s: Seq<u8>)
    requires
        s.len() >= 2,
        s[1] != 0,
    ensures
        parse(s).result == Err::<Frame, Fault>(Fault::Protocol("reserved octet is not 0"@)),
{
}

/// Fed a growing prefix of a request, the decoder asks for more data until
/// the prefix holds the whole request, and from then on yields what it
/// yields on the whole input.
pub proof fn law_incremental(s: Seq<u8>, k: int)
    requires
        0 <= k <= s.len(),
        parse(s).result is Ok,
    ensures
        k < parse(s).used ==> parse(s.take(k)).result == Err::<Frame, Fault>(Fault::NeedMoreData),
        k >= parse(s).used ==> parse(s.take(k)) == parse(s),
{
    let p = s.take(k);
    if k >= parse(s).used {
        if s[2] == IPV4 {
            assert(p.subrange(3, 7) =~= s.subrange(3, 7));
            assert(p.subrange(7, 9) =~= s.subrange(7, 9));
        } else if s[2] == IPV6 {
            assert(p.subrange(3, 19) =~= s.subrange(3, 19));
            assert(p.subrange(19, 21) =~= s.subrange(19, 21));
        } else {
            let end = 4 + s[3];
            assert(p.subrange(4, end) =~= s.subrange(4, end));
            assert(p.subrange(end, end + 2) =~= s.subrange(end, end + 2));
        }
    }
}

impl Request {
    /// Decodes a request from the bytes that follow its version byte, and
    /// advances `buf` past what it has read.
    pub fn from_buf(buf: &mut Bytes) -> (r: Result<Request, Error>)
        ensures
            outcome(r) == parse(unread(*old(buf))).result,
            unread(*final(buf)) == unread(*old(buf)).skip(parse(unread(*old(buf))).used),
    {
        let ghost s = unread(*buf);
        assert(s.skip(0) =~= s);
        if remaining(buf) < 2 {
            return Err(Error::NeedMoreData);
        }
        let cmd = get_u8(buf);
        let rsv = get_u8(buf);
        assert(s.skip(1).skip(1) =~= s.skip(2));
        if rsv != 0 {
            return Err(Error::Protocol(String::from_str("reserved octet is not 0")));
        }
        if cmd != CONNECT && cmd != BIND && cmd != UDP_ASSOCIATE {
            return Err(Error::Protocol(quoted_text("illegal request ", cmd)));
        }
        if remaining(buf) < 1 {
            return Err(Error::NeedMoreData);
        }
        let a_type = get_u8(buf);
        assert(s.skip(2).skip(1) =~= s.skip(3));
        let addr = if a_type == IPV4 {
            if remaining(buf) < 6 {
                return Err(Error::NeedMoreData);
            }
            let ip = get_u32(buf);
            let port = get_u16(buf);
            proof {
                assert(s.skip(3).take(4) =~= s.subrange(3, 7));
                assert(s.skip(3).skip(4).take(2) =~= s.subrange(7, 9));
                assert(s.skip(3).skip(4).skip(2) =~= s.skip(9));
            }
            SocketAddr::v4(ip, port)
        } else if a_type == IPV6 {
            if remaining(buf) < 18 {
                return Err(Error::NeedMoreData);
            }
            let ip = get_u128(buf);
            let port = get_u16(buf);
            proof {
                assert(s.skip(3).take(16) =~= s.subrange(3, 19));
                assert(s.skip(3).skip(16).take(2) =~= s.subrange(19, 21));
                assert(s.skip(3).skip(16).skip(2) =~= s.skip(21));
            }
            SocketAddr::v6(ip, port)
        } else if a_type == DOMAIN {
            if remaining(buf) < 1 {
                return Err(Error::NeedMoreData);
            }
            let len = get_u8(buf) as usize;
            assert(s.skip(3).skip(1) =~= s.skip(4));
            if remaining(buf) < len + 2 {
                return Err(Error::NeedMoreData);
            }
            let mut name: Vec<u8> = Vec::new();
            while name.len() < len
                invariant
                    name@.len() <= len,
                    4 + len + 2 <= s.len(),
                    name@ == s.subrange(4, 4 + name@.len() as int),
                    unread(*buf) == s.skip(4 + name@.len() as int),
                decreases len - name@.len(),
            {
                let ghost before = unread(*buf);
                let byte = get_u8(buf);
                name.push(byte);
                assert(before.skip(1) =~= s.skip(4 + name@.len() as int));
                assert(name@ =~= s.subrange(4, 4 + name@.len() as int));
            }
            let domain = match from_utf8(name) {
                Ok(domain) => domain,
                Err(message) => {
                    return Err(Error::Protocol(message));
                },
            };
            let port = get_u16(buf);
            proof {
                assert(s.skip(4 + len).take(2) =~= s.subrange(4 + len, 4 + len + 2));
                assert(s.skip(4 + len).skip(2) =~= s.skip(4 + len + 2));
            }
            SocketAddr::raw(domain, port)
        } else {
            return Err(Error::Protocol(quoted_text("illegal address type ", a_type)));
        };
        if cmd == CONNECT {
            Ok(Request::Connect(addr))
        } else if cmd == BIND {
            Ok(Request::Bind(addr))
        } else {
            Ok(Request::UdpAssociate(addr))
        }
    }
}

/// The server's answer to a request.
#[derive(Debug, Clone, Copy, PartialEq, Eq)]
pub enum Response {
    Succeeded,
    Failed,
    Unsupported,
}

/// The protocol version, which opens every message of the server.
pub const VERSION: u8 = 5;

/// The status byte of a request that succeeded.
pub const SUCCEEDED: u8 = 0;

/// The status byte of a general failure.
pub const GENERAL_FAILURE: u8 = 1;

/// The status byte of a command that the server does not support.
pub const COMMAND_NOT_SUPPORTED: u8 = 7;

impl Response {
    /// The status byte that stands for this answer.
    pub open spec fn status(self) -> u8 {
        match self {
            Response::Succeeded => SUCCEEDED,
            Response::Failed => GENERAL_FAILURE,
            Response::Unsupported => COMMAND_NOT_SUPPORTED,
        }
    }

    /// The ten bytes of the answer: the version, the status, a reserved zero
    /// byte, the address type of IPv4, and an address and a port that are
    /// left zero.
    pub open spec fn wire(self) -> Seq<u8> {
        seq![VERSION, self.status(), 0u8, IPV4, 0u8, 0u8, 0u8, 0u8, 0u8, 0u8]
    }

    /// Encodes the answer for the wire.
    pub fn to_bytes(self) -> (bytes: Bytes)
        ensures
            unread(bytes) == self.wire(),
    {
        let code = match self {
            Response::Succeeded => SUCCEEDED,
            Response::Failed => GENERAL_FAILURE,
            Response::Unsupported => COMMAND_NOT_SUPPORTED,
        };
        let mut buf = with_capacity(16);
        put_u8(&mut buf, VERSION);
        put_u8(&mut buf, code);
        put_u8(&mut buf, 0);
        put_u8(&mut buf, IPV4);
        proof {
            reveal_with_fuel(be_bytes, 5);
            assert(be_bytes(0, 2) =~= seq![0u8, 0u8]);
            assert(be_bytes(0, 4) =~= seq![0u8, 0u8, 0u8, 0u8]);
        }
        put_u32(&mut buf, 0);
        put_u16(&mut buf, 0);
        let bytes = freeze(buf);
        assert(unread(bytes) =~= self.wire());
        bytes
    }
}

/// The method that stands for "no authentication", the one that the server
/// accepts.
pub const NO_AUTHENTICATION: u8 = 0;

/// The method byte by which the server refuses all that the client offers.
pub const NO_ACCEPTABLE_METHOD: u8 = 255;

/// The client's greeting, behind the version byte: the number of methods it
/// offers, then one byte for each. Its value is whether the server accepts
/// one of them.
pub open spec fn parse_greeting(s: Seq<u8>) -> Parse<bool> {
    if s.len() < 1 {
        Parse { result: Err(Fault::NeedMoreData), used: 0 }
    } else if s.len() < 1 + s[0] {
        Parse { result: Err(Fault::NeedMoreData), used: 0 }
    } else {
        Parse { result: Ok(s.subrange(1, 1 + s[0]).contains(NO_AUTHENTICATION)), used: 1 + s[0] }
    }
}

/// The server's choice of a method, as it goes over the wire.
pub open spec fn selection(accepted: bool) -> Seq<u8> {
    if accepted {
        seq![VERSION, NO_AUTHENTICATION]
    } else {
        seq![VERSION, NO_ACCEPTABLE_METHOD]
    }
}

/// A request as the client sends it behind the greeting: the version byte,
/// which must be 5, then the request.
pub open spec fn parse_request(s: Seq<u8>) -> Parse<Frame> {
    if s.len() < 1 {
        Parse { result: Err(Fault::NeedMoreData), used: 0 }
    } else if s[0] != VERSION {
        Parse {
            result: Err(Fault::Protocol(quoted("illegal version number "@, s[0] as nat))),
            used: 1,
        }
    } else {
        Parse { result: parse(s.skip(1)).result, used: 1 + parse(s.skip(1)).used }
    }
}

/// Decodes the client's greeting from the bytes received so far behind the
/// version byte. Returns whether a method is acceptable, with the number of
/// bytes that the greeting takes up, or `None` where more bytes are needed.
pub fn read_greeting(received: &[u8]) -> (r: Option<(bool, usize)>)
    ensures
        match r {
            Some((accepted, used)) => parse_greeting(received@) == (Parse {
                result: Ok(accepted),
                used: used as int,
            }),
            None => parse_greeting(received@).result == Err::<bool, Fault>(Fault::NeedMoreData),
        },
{
    if received.len() < 1 {
        return None;
    }
    let count = received[0] as usize;
    if received.len() < 1 + count {
        return None;
    }
    let ghost methods = received@.subrange(1, 1 + count);
    let mut accepted = false;
    let mut i: usize = 0;
    while i < count
        invariant
            i <= count,
            1 + count <= received.len(),
            methods == received@.subrange(1, 1 + count),
            accepted == methods.take(i as int).contains(NO_AUTHENTICATION),
        decreases count - i,
    {
        if received[1 + i] == NO_AUTHENTICATION {
            accepted = true;
        }
        i += 1;
        proof {
            let before = methods.take(i - 1);
            let now = methods.take(i as int);
            assert(now =~= before.push(methods[i - 1]));
            if now.contains(NO_AUTHENTICATION) {
                let j = choose|j: int| 0 <= j < now.len() && now[j] == NO_AUTHENTICATION;
                if j < i - 1 {
                    assert(before[j] == NO_AUTHENTICATION);
                }
            }
            if before.contains(NO_AUTHENTICATION) {
                let j = choose|j: int| 0 <= j < before.len() && before[j] == NO_AUTHENTICATION;
                assert(now[j] == NO_AUTHENTICATION);
            }
            if methods[i - 1] == NO_AUTHENTICATION {
                assert(now[i - 1] == NO_AUTHENTICATION);
            }
        }
    }
    assert(methods.take(count as int) =~= methods);
    Some((accepted, 1 + count))
}

/// Decodes a request, version byte first, from the bytes received so far
/// behind the greeting. Returns the request with the number of bytes that it
/// takes up, or `NeedMoreData` where the bytes are the beginning of a
/// request only.
pub fn read_request(received: &[u8]) -> (r: Result<(Request, usize), Error>)
    ensures
        match r {
            Ok((request, used)) => parse_request(received@) == (Parse {
                result: Ok(request@),
                used: used as int,
            }),
            Err(e) => parse_request(received@).result == Err::<Frame, Fault>(e@),
        },
{
    if received.len() < 1 {
        return Err(Error::NeedMoreData);
    }
    let ver = received[0];
    if ver != VERSION {
        return Err(Error::Protocol(quoted_text("illegal version number ", ver)));
    }
    let mut view = copy_from_slice(received);
    let _ = get_u8(&mut view);
    match Request::from_buf(&mut view) {
        Ok(request) => {
            let used = received.len() - remaining(&view);
            Ok((request, used))
        },
        Err(e) => Err(e),
    }
}

/// Where a connection stands.
#[derive(Debug, Clone, PartialEq, Eq)]
pub enum Session {
    /// The client's greeting is being read; holds the bytes received so far.
    Greeting(Vec<u8>),
    /// The choice of a method is being written; holds whether one was
    /// acceptable, and what the client sent behind its greeting.
    Selecting(bool, Vec<u8>),
    /// The request is being read; holds the bytes received so far.
    Negotiating(Vec<u8>),
    /// The destination is being dialed; holds what the client sent behind
    /// its request.
    Dialing(Vec<u8>),
    /// The answer is being written.
    Replying(Response, Vec<u8>),
    /// Bytes are copied between the client and the destination.
    Tunneling,
    /// The connection is over.
    Closed,
}

/// The mathematical value of a [`Session`].
pub enum State {
    Greeting(Seq<u8>),
    Selecting(bool, Seq<u8>),
    Negotiating(Seq<u8>),
    Dialing(Seq<u8>),
    Replying(Response, Seq<u8>),
    Tunneling,
    Closed,
}

impl View for Session {
    type V = State;

    open spec fn view(&self) -> State {
        match self {
            Session::Greeting(received) => State::Greeting(received@),
            Session::Selecting(accepted, rest) => State::Selecting(*accepted, rest@),
            Session::Negotiating(received) => State::Negotiating(received@),
            Session::Dialing(rest) => State::Dialing(rest@),
            Session::Replying(response, rest) => State::Replying(*response, rest@),
            Session::Tunneling => State::Tunneling,
            Session::Closed => State::Closed,
        }
    }
}

/// The end of a session.
pub open spec fn closed(result: Result<(), Fault>) -> (State, Output) {
    (State::Closed, Output::Close(result))
}

/// What follows from the bytes `s` received behind the version byte: once
/// the greeting is complete, the server writes its choice of a method.
pub open spec fn greeting(s: Seq<u8>) -> (State, Output) {
    let p = parse_greeting(s);
    match p.result {
        Ok(accepted) => (
            State::Selecting(accepted, s.skip(p.used)),
            Output::Reply(selection(accepted)),
        ),
        Err(_) => (State::Greeting(s), Output::Read),
    }
}

/// What follows from the bytes `s` received behind the greeting: a connect
/// request is dialed, the other commands are answered as unsupported, the
/// beginning of a request asks for more, and anything else ends the session.
pub open spec fn negotiation(s: Seq<u8>) -> (State, Output) {
    let p = parse_request(s);
    match p.result {
        Ok(Frame::Connect(addr)) => (State::Dialing(s.skip(p.used)), Output::Dial(addr)),
        Ok(_) => (
            State::Replying(Response::Unsupported, s.skip(p.used)),
            Output::Reply(Response::Unsupported.wire()),
        ),
        Err(Fault::NeedMoreData) => (State::Negotiating(s), Output::Read),
        Err(e) => closed(Err(e)),
    }
}

/// The answer to a request whose destination was dialed.
pub open spec fn verdict(connected: bool) -> Response {
    if connected {
        Response::Succeeded
    } else {
        Response::Failed
    }
}

/// The session's next state and action, for each state and event.
pub open spec fn step(state: State, input: Input) -> (State, Output) {
    match (state, input) {
        (_, Input::Failed(e)) => closed(Err(Fault::Io(e))),
        (State::Greeting(received), Input::Received(bytes)) => if bytes.len() == 0 {
            closed(Err(Fault::Io(IoFault::UnexpectedEof)))
        } else {
            greeting(received + bytes)
        },
        (State::Selecting(true, rest), Input::Replied) => negotiation(rest),
        (State::Selecting(false, _), Input::Replied) => closed(Ok(())),
        (State::Negotiating(received), Input::Received(bytes)) => if bytes.len() == 0 {
            closed(Err(Fault::Io(IoFault::UnexpectedEof)))
        } else {
            negotiation(received + bytes)
        },
        (State::Dialing(rest), Input::Dialed(connected)) => (
            State::Replying(verdict(connected), rest),
            Output::Reply(verdict(connected).wire()),
        ),
        (State::Replying(Response::Succeeded, rest), Input::Replied) => (
            State::Tunneling,
            Output::Splice(rest),
        ),
        (State::Replying(_, _), Input::Replied) => closed(Ok(())),
        (State::Tunneling, Input::Spliced) => closed(Ok(())),
        _ => closed(Err(Fault::Protocol(unexpected_event()))),
    }
}

fn close(result: Result<(), Error>) -> (r: (Session, Action))
    ensures
        (r.0@, r.1@) == closed(
            match result {
                Ok(()) => Ok(()),
                Err(e) => Err(e@),
            },
        ),
{
    (Session::Closed, Action::Close(result))
}

fn unexpected() -> (r: (Session, Action))
    ensures
        (r.0@, r.1@) == closed(Err(Fault::Protocol(unexpected_event()))),
{
    close(Err(Error::Protocol(String::from_str("unexpected event"))))
}

fn reply(response: Response, rest: Vec<u8>) -> (r: (Session, Action))
    ensures
        r.0@ == State::Replying(response, rest@),
        r.1@ == Output::Reply(response.wire()),
{
    (Session::Replying(response, rest), Action::Reply(response.to_bytes()))
}

/// Encodes the server's choice of a method for the wire.
pub fn select(accepted: bool) -> (bytes: Bytes)
    ensures
        unread(bytes) == selection(accepted),
{
    let mut buf = with_capacity(2);
    put_u8(&mut buf, VERSION);
    if accepted {
        put_u8(&mut buf, NO_AUTHENTICATION);
    } else {
        put_u8(&mut buf, NO_ACCEPTABLE_METHOD);
    }
    let bytes = freeze(buf);
    assert(unread(bytes) =~= selection(accepted));
    bytes
}

/// Decodes what has been received of the greeting and decides what to do
/// next.
pub fn greet(received: Vec<u8>) -> (r: (Session, Action))
    ensures
        (r.0@, r.1@) == greeting(received@),
{
    let ghost s = received@;
    let mut received = received;
    match read_greeting(received.as_slice()) {
        Some((accepted, used)) => {
            let rest = received.split_off(used);
            assert(rest@ =~= s.skip(used as int));
            (Session::Selecting(accepted, rest), Action::Reply(select(accepted)))
        },
        None => (Session::Greeting(received), Action::Read),
    }
}

/// Decodes what has been received behind the greeting and decides what to
/// do next.
pub fn negotiate(received: Vec<u8>) -> (r: (Session, Action))
    ensures
        (r.0@, r.1@) == negotiation(received@),
{
    let ghost s = received@;
    let mut received = received;
    match read_request(received.as_slice()) {
        Ok((Request::Connect(addr), used)) => {
            let rest = received.split_off(used);
            assert(rest@ =~= s.skip(used as int));
            (Session::Dialing(rest), Action::Dial(addr))
        },
        Ok((_, used)) => {
            let rest = received.split_off(used);
            assert(rest@ =~= s.skip(used as int));
            reply(Response::Unsupported, rest)
        },
        Err(Error::NeedMoreData) => (Session::Negotiating(received), Action::Read),
        Err(e) => close(Err(e)),
    }
}

/// Takes the session one step further: from where it stands and what the
/// driver reports to where it stands next and what the driver is to do.
pub fn handle_request(session: Session, event: Event) -> (r: (Session, Action))
    ensures
        (r.0@, r.1@) == step(session@, event@),
{
    match event {
        Event::Failed(e) => close(Err(Error::Io(e))),
        Event::Received(bytes) => match session {
            Session::Greeting(received) => {
                if bytes.len() == 0 {
                    close(Err(Error::Io(IoError::UnexpectedEof)))
                } else {
                    let mut received = received;
                    let mut bytes = bytes;
                    received.append(&mut bytes);
                    greet(received)
                }
            },
            Session::Negotiating(received) => {
                if bytes.len() == 0 {
                    close(Err(Error::Io(IoError::UnexpectedEof)))
                } else {
                    let mut received = received;
                    let mut bytes = bytes;
                    received.append(&mut bytes);
                    negotiate(received)
                }
            },
            _ => unexpected(),
        },
        Event::Dialed(connected) => match session {
            Session::Dialing(rest) => {
                if connected {
                    reply(Response::Succeeded, rest)
                } else {
                    reply(Response::Failed, rest)
                }
            },
            _ => unexpected(),
        },
        Event::Replied => match session {
            Session::Selecting(true, rest) => negotiate(rest),
            Session::Selecting(false, _) => close(Ok(())),
            Session::Replying(Response::Succeeded, rest) => (
                Session::Tunneling,
                Action::Splice(rest),
            ),
            Session::Replying(_, _) => close(Ok(())),
            _ => unexpected(),
        },
        Event::Spliced => match session {
            Session::Tunneling => close(Ok(())),
            _ => unexpected(),
        },
    }
}

/// The need for more data stays inside the session: it never ends it.
pub proof fn law_need_more_data_reads_on(state: State, input: Input)
    ensures
        step(state, input).1 != Output::Close(Err(Fault::NeedMoreData)),
{
}

/// While the bytes received are the beginning of a request only, the
/// session keeps them and reads on.
pub proof fn law_incomplete_request_reads_on(received: Seq<u8>, chunk: Seq<u8>)
    requires
        chunk.len() > 0,
        parse_request(received + chunk).result == Err::<Frame, Fault>(Fault::NeedMoreData),
    ensures
        step(State::Negotiating(received), Input::Received(chunk)) == (
            State::Negotiating(received + chunk),
            Output::Read,
        ),
{
}

/// A tunnel is opened for a request that succeeded and for nothing else,
/// and a request succeeds only when its destination was reached; only a
/// connect request is dialed.
pub proof fn law_tunnel_follows_success(state: State, input: Input)
    ensures
        step(state, input).1 is Splice ==> state is Replying && state->Replying_0
            == Response::Succeeded && input is Replied,
        step(state, input).0 matches State::Replying(Response::Succeeded, _) ==> state is Dialing
            && input == Input::Dialed(true),
        step(state, input).1 is Dial ==> ({
            ||| state is Negotiating && parse_request(
                state->Negotiating_0 + input->Received_0,
            ).result is Ok
            ||| state is Selecting && parse_request(state->Selecting_1).result is Ok
        }),
{
}

/// A request behind the greeting whose reserved byte is not zero ends the
/// session as a protocol error, whatever else it holds.
pub proof fn law_reserved_byte_ends_session(s: Seq<u8>)
    requires
        s.len() >= 3,
        s[0] == VERSION,
        s[2] != 0,
    ensures
        negotiation(s) == closed(Err(Fault::Protocol("reserved octet is not 0"@))),
{
    law_reserved_byte(s.skip(1));
}

/// Fed a growing prefix of a request with its version byte, the decoder
/// asks for more data until the prefix holds the whole request, and from
/// then on yields what it yields on the whole input.
pub proof fn law_incremental_request(s: Seq<u8>, k: int)
    requires
        0 <= k <= s.len(),
        parse_request(s).result is Ok,
    ensures
        k < parse_request(s).used ==> parse_request(s.take(k)).result == Err::<Frame, Fault>(
            Fault::NeedMoreData,
        ),
        k >= parse_request(s).used ==> parse_request(s.take(k)) == parse_request(s),
{
    if k >= 1 {
        law_incremental(s.skip(1), k - 1);
        assert(s.take(k).skip(1) =~= s.skip(1).take(k - 1));
    }
}

/// The session that reads a request, after the pieces `chunks` have
/// arrived one by one, and the action that it asked for last.
pub open spec fn fed(chunks: Seq<Seq<u8>>) -> (State, Output)
    decreases chunks.len(),
{
    if chunks.len() == 0 {
        (State::Negotiating(Seq::empty()), Output::Read)
    } else {
        step(fed(chunks.drop_last()).0, Input::Received(chunks.last()))
    }
}

/// However a request is cut into pieces, the session reads on while the
/// request is incomplete, and with the piece that completes it does what it
/// does when the request arrives at once.
pub proof fn law_pieces(chunks: Seq<Seq<u8>>, k: int)
    requires
        0 < k <= chunks.len(),
        forall|i: int| 0 <= i < chunks.len() ==> chunks[i].len() > 0,
        parse_request(joined(chunks)).result is Ok,
        parse_request(joined(chunks)).used > joined(chunks.drop_last()).len(),
    ensures
        k < chunks.len() ==> fed(chunks.take(k)) == (
            State::Negotiating(joined(chunks.take(k))),
            Output::Read,
        ),
        k == chunks.len() ==> fed(chunks) == negotiation(joined(chunks)),
    decreases k,
{
    let pieces = chunks.take(k);
    let before = pieces.drop_last();
    assert(before =~= chunks.take(k - 1));
    if k > 1 {
        law_pieces(chunks, k - 1);
    } else {
        assert(joined(before) =~= Seq::<u8>::empty());
    }
    assert(fed(before) == (State::Negotiating(joined(before)), Output::Read));
    assert(pieces.last() == chunks[k - 1]);
    if k < chunks.len() {
        lemma_joined_prefix(chunks, k);
        lemma_joined_prefix(chunks.drop_last(), k);
        assert(chunks.drop_last().take(k) =~= pieces);
        let n = joined(pieces).len() as int;
        law_incremental_request(joined(chunks), n);
    } else {
        assert(pieces =~= chunks);
    }
}

} // verus!
