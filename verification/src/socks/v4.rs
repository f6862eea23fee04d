//! SOCKS version 4 and its 4A extension, which names the destination by domain.

use crate::buffer::{
    copy_from_slice, freeze, get_u16, get_u32, get_u8, put_u16, put_u32, put_u8, remaining,
    unread, with_capacity,
};
use crate::socks::{
    outcome, unexpected_event, Action, Destination, Error, Event, Fault, Input, IoError, IoFault,
    Output, Parse, SocketAddr,
};
use crate::text::{from_utf8, quoted, quoted_text, utf8_error_text};
use crate::wire::{joined, lemma_joined_prefix, 
    be_bytes, be_value, lemma_be_bytes_len, lemma_be_round_trip, lemma_byte_ranges,
    lemma_nul_position, lemma_nul_position_is_first, lemma_nul_position_prefix, nul_position,
};
use bytes::Bytes;
use vstd::prelude::*;
use vstd::string::StringExecFns;
use vstd::utf8::{decode_utf8, valid_utf8};

verus! {

/// A request of a version 4 client: the command, the destination and the
/// user id that the client gave.
#[derive(Debug, Clone, PartialEq, Eq)]
pub enum Request {
    Connect(SocketAddr, String),
    Bind(SocketAddr, String),
}

/// The mathematical value of a [`Request`].
pub enum Frame {
    Connect(Destination, Seq<char>),
    Bind(Destination, Seq<char>),
}

impl View for Request {
    type V = Frame;

    open spec fn view(&self) -> Frame {
        match self {
            Request::Connect(addr, user) => Frame::Connect(addr@, user@),
            Request::Bind(addr, user) => Frame::Bind(addr@, user@),
        }
    }
}

/// The command code of a connect request.
pub const CONNECT: u8 = 1;

/// The command code of a bind request.
pub const BIND: u8 = 2;

/// The text of a NUL-terminated string at the start of `s`. Without a
/// terminator in `s` the string is not complete, and all of `s` has been read.
pub open spec fn parse_text(s: Seq<u8>) -> Parse<Seq<char>> {
    let end = nul_position(s) as int;
    if end >= s.len() {
        Parse { result: Err(Fault::NeedMoreData), used: s.len() as int }
    } else if !valid_utf8(s.take(end)) {
        Parse { result: Err(Fault::Protocol(utf8_error_text(s.take(end)))), used: end + 1 }
    } else {
        Parse { result: Ok(decode_utf8(s.take(end))), used: end + 1 }
    }
}

/// Whether an address of the request's address field stands for "see the
/// domain that follows": `0.0.0.x` with `x` not zero.
pub open spec fn names_domain(ip: u32) -> bool {
    1 <= ip < 0x100
}

/// The request with command code `code`.
pub open spec fn frame(code: u8, addr: Destination, user: Seq<char>) -> Frame {
    if code == CONNECT {
        Frame::Connect(addr, user)
    } else {
        Frame::Bind(addr, user)
    }
}

/// The wire format of a request, after the version byte: the command, the
/// port and the address in big-endian order, the user id with its
/// terminator and, where the address asks for it, the domain with its
/// terminator.
pub open spec fn parse(s: Seq<u8>) -> Parse<Frame> {
    if s.len() < 8 {
        Parse { result: Err(Fault::NeedMoreData), used: 0 }
    } else if s[0] != CONNECT && s[0] != BIND {
        Parse { result: Err(Fault::Protocol(quoted("illegal request "@, s[0] as nat))), used: 1 }
    } else {
        let port = be_value(s.subrange(1, 3)) as u16;
        let ip = be_value(s.subrange(3, 7)) as u32;
        let user = parse_text(s.skip(7));
        match user.result {
            Err(e) => Parse { result: Err(e), used: 7 + user.used },
            Ok(name) => if names_domain(ip) {
                let domain = parse_text(s.skip(7 + user.used));
                match domain.result {
                    Err(e) => Parse { result: Err(e), used: 7 + user.used + domain.used },
                    Ok(host) => Parse {
                        result: Ok(frame(s[0], Destination::Raw(host, port), name)),
                        used: 7 + user.used + domain.used,
                    },
                }
            } else {
                Parse {
                    result: Ok(frame(s[0], Destination::V4(ip, port), name)),
                    used: 7 + user.used,
                }
            },
        }
    }
}

/// The bytes of a request without a domain: the command, the port, the
/// address and the user id with its terminator.
pub open spec fn wire(code: u8, port: u16, ip: u32, user: Seq<u8>) -> Seq<u8> {
    seq![code] + be_bytes(port as nat, 2) + be_bytes(ip as nat, 4) + user + seq![0u8]
}

/// Whether `text` can stand before a terminator: it is valid UTF-8 and holds
/// no NUL byte.
pub open spec fn terminable(text: Seq<u8>) -> bool {
    valid_utf8(text) && forall|i: int| 0 <= i < text.len() ==> text[i] != 0
}

/// A terminated string is read as its text, whatever follows it.
pub proof fn lemma_parse_text(text: Seq<u8>, rest: Seq<u8>)
    requires
        terminable(text),
    ensures
        parse_text(text + seq![0u8] + rest) == (Parse {
            result: Ok(decode_utf8(text)),
            used: text.len() as int + 1,
        }),
{
    let s = text + seq![0u8] + rest;
    lemma_nul_position(s, text.len());
    assert(s.take(text.len() as int) =~= text);
}

proof fn lemma_header(code: u8, port: u16, ip: u32, tail: Seq<u8>)
    requires
        tail.len() >= 1,
    ensures
        ({
            let s = seq![code] + be_bytes(port as nat, 2) + be_bytes(ip as nat, 4) + tail;
            &&& s.len() == 7 + tail.len()
            &&& s[0] == code
            &&& be_value(s.subrange(1, 3)) == port
            &&& be_value(s.subrange(3, 7)) == ip
            &&& s.skip(7) == tail
        }),
{
    let s = seq![code] + be_bytes(port as nat, 2) + be_bytes(ip as nat, 4) + tail;
    lemma_byte_ranges();
    lemma_be_bytes_len(port as nat, 2);
    lemma_be_bytes_len(ip as nat, 4);
    lemma_be_round_trip(port as nat, 2);
    lemma_be_round_trip(ip as nat, 4);
    assert(s.subrange(1, 3) =~= be_bytes(port as nat, 2));
    assert(s.subrange(3, 7) =~= be_bytes(ip as nat, 4));
    assert(s.skip(7) =~= tail);
}

/// A request whose address is zero or at least 256 names that IPv4 address
/// and the port. The decoder stops behind the user id's terminator: whatever
/// follows, it reads no domain.
pub proof fn law_address_is_target(code: u8, port: u16, ip: u32, user: Seq<u8>, rest: Seq<u8>)
    requires
        code == CONNECT || code == BIND,
        !names_domain(ip),
        terminable(user),
    ensures
        parse(wire(code, port, ip, user) + rest) == (Parse {
            result: Ok(frame(code, Destination::V4(ip, port), decode_utf8(user))),
            used: 8 + user.len() as int,
        }),
{
    let tail = user + seq![0u8] + rest;
    let s = wire(code, port, ip, user) + rest;
    lemma_header(code, port, ip, tail);
    assert(s =~= seq![code] + be_bytes(port as nat, 2) + be_bytes(ip as nat, 4) + tail);
    lemma_parse_text(user, rest);
}

/// A request whose address is between 1 and 255 is followed by a terminated
/// domain, which the decoder reads too: the request names that domain and
/// the port.
pub proof fn law_small_address_names_domain(
    code: u8,
    port: u16,
    ip: u32,
    user: Seq<u8>,
    domain: Seq<u8>,
    rest: Seq<u8>,
)
    requires
        code == CONNECT || code == BIND,
        1 <= ip <= 255,
        terminable(user),
        terminable(domain),
    ensures
        parse(wire(code, port, ip, user) + domain + seq![0u8] + rest) == (Parse {
            result: Ok(frame(code, Destination::Raw(decode_utf8(domain), port), decode_utf8(user))),
            used: 8 + user.len() as int + domain.len() as int + 1,
        }),
{
    let after = domain + seq![0u8] + rest;
    let tail = user + seq![0u8] + after;
    let s = wire(code, port, ip, user) + domain + seq![0u8] + rest;
    lemma_header(code, port, ip, tail);
    assert(s =~= seq![code] + be_bytes(port as nat, 2) + be_bytes(ip as nat, 4) + tail);
    lemma_parse_text(user, after);
    assert(tail.skip(user.len() as int + 1) =~= after);
    assert(s.skip(7 + (user.len() as int + 1)) =~= after);
    lemma_parse_text(domain, rest);
}

/// A string that is read from `s` is not yet complete in a shorter prefix of
/// `s`, and is read alike from any prefix that holds its terminator.
pub proof fn lemma_parse_text_prefix(s: Seq<u8>, k: int)
    requires
        0 <= k <= s.len(),
        parse_text(s).result != Err::<Seq<char>, Fault>(Fault::NeedMoreData),
    ensures
        k < parse_text(s).used ==> parse_text(s.take(k)) == (Parse::<Seq<char>> {
            result: Err(Fault::NeedMoreData),
            used: k,
        }),
        k >= parse_text(s).used ==> parse_text(s.take(k)) == parse_text(s),
{
    lemma_nul_position_prefix(s, k);
    let end = nul_position(s) as int;
    if k >= end + 1 {
        assert(s.take(k).take(end) =~= s.take(end));
    }
}

/// Fed a growing prefix of a request, the decoder asks for more data until
/// the prefix holds the whole request, and from then on yields what it
/// yields on the whole input.
pub proof fn law_incremental(s: Seq<u8>, k: int)
    requires
        0 <= k <= s.len(),
        parse(s).result is Ok,
    ensures
        k < parse(s).used ==> parse(s.take(k)).result == Err::<Frame, Fault>(Fault::NeedMoreData),
        k >= parse(s).used ==> parse(s.take(k)) == parse(s),
{
    let p = s.take(k);
    if k >= 8 {
        assert(p.subrange(1, 3) =~= s.subrange(1, 3));
        assert(p.subrange(3, 7) =~= s.subrange(3, 7));
        assert(p.skip(7) =~= s.skip(7).take(k - 7));
        let ip = be_value(s.subrange(3, 7)) as u32;
        let user = parse_text(s.skip(7));
        lemma_parse_text_prefix(s.skip(7), k - 7);
        if names_domain(ip) && k - 7 >= user.used {
            let from = 7 + user.used;
            assert(p.skip(from) =~= s.skip(from).take(k - from));
            lemma_parse_text_prefix(s.skip(from), k - from);
        }
    }
}

impl Request {
    /// Decodes a request from the bytes that follow the version byte, and
    /// advances `buf` past what it has read.
    pub fn from_buf(buf: &mut Bytes) -> (r: Result<Request, Error>)
        ensures
            outcome(r) == parse(unread(*old(buf))).result,
            unread(*final(buf)) == unread(*old(buf)).skip(parse(unread(*old(buf))).used),
    {
        let ghost s = unread(*buf);
        if remaining(buf) < 8 {
            assert(s.skip(0) =~= s);
            return Err(Error::NeedMoreData);
        }
        let code = get_u8(buf);
        if code != CONNECT && code != BIND {
            return Err(Error::Protocol(quoted_text("illegal request ", code)));
        }
        let port = get_u16(buf);
        let ip = get_u32(buf);
        proof {
            assert(s.skip(1).take(2) =~= s.subrange(1, 3));
            assert(s.skip(1).skip(2).take(4) =~= s.subrange(3, 7));
            assert(s.skip(1).skip(2).skip(4) =~= s.skip(7));
        }
        let ghost user = parse_text(s.skip(7));
        let name = match Self::read_string(buf) {
            Ok(name) => name,
            Err(e) => {
                assert(s.skip(7).skip(user.used) =~= s.skip(7 + user.used));
                return Err(e);
            },
        };
        assert(s.skip(7).skip(user.used) =~= s.skip(7 + user.used));
        let addr = if 1 <= ip && ip < 0x100 {
            let ghost domain = parse_text(s.skip(7 + user.used));
            assert(s.skip(7 + user.used).skip(domain.used) =~= s.skip(
                7 + user.used + domain.used,
            ));
            match Self::read_string(buf) {
                Ok(host) => SocketAddr::raw(host, port),
                Err(e) => {
                    return Err(e);
                },
            }
        } else {
            SocketAddr::v4(ip, port)
        };
        if code == CONNECT {
            Ok(Request::Connect(addr, name))
        } else {
            Ok(Request::Bind(addr, name))
        }
    }

    /// Reads a NUL-terminated string from `buf`, up to and including its
    /// terminator.
    pub fn read_string(buf: &mut Bytes) -> (r: Result<String, Error>)
        ensures
            outcome(r) == parse_text(unread(*old(buf))).result,
            unread(*final(buf)) == unread(*old(buf)).skip(
                parse_text(unread(*old(buf))).used,
            ),
    {
        let ghost s = unread(*buf);
        let mut bytes: Vec<u8> = Vec::new();
        let mut terminated = false;
        assert(s.skip(0) =~= s);
        while !terminated && remaining(buf) > 0
            invariant
                bytes@.len() <= s.len(),
                bytes@ == s.take(bytes@.len() as int),
                forall|i: int| 0 <= i < bytes@.len() ==> s[i] != 0,
                !terminated ==> unread(*buf) == s.skip(bytes@.len() as int),
                terminated ==> bytes@.len() < s.len() && s[bytes@.len() as int] == 0
                    && unread(*buf) == s.skip(bytes@.len() + 1 as int),
            decreases unread(*buf).len() + (if terminated { 0nat } else { 1nat }),
        {
            let ghost before = unread(*buf);
            let byte = get_u8(buf);
            assert(byte == s[bytes@.len() as int]);
            assert(before.skip(1) =~= s.skip(bytes@.len() + 1 as int));
            if byte == 0 {
                terminated = true;
            } else {
                bytes.push(byte);
                assert(bytes@ =~= s.take(bytes@.len() as int));
            }
        }
        proof {
            lemma_nul_position(s, bytes@.len() as nat);
        }
        if !terminated {
            return Err(Error::NeedMoreData);
        }
        match from_utf8(bytes) {
            Ok(text) => Ok(text),
            Err(message) => Err(Error::Protocol(message)),
        }
    }
}

/// The server's answer to a request.
#[derive(Debug, Clone, Copy, PartialEq, Eq)]
pub enum Response {
    Granted,
    Rejected,
}

/// The status byte of a granted request.
pub const GRANTED: u8 = 90;

/// The status byte of a rejected request.
pub const REJECTED: u8 = 91;

impl Response {
    /// The status byte that stands for this answer.
    pub open spec fn status(self) -> u8 {
        match self {
            Response::Granted => GRANTED,
            Response::Rejected => REJECTED,
        }
    }

    /// The eight bytes of the answer: a zero byte, the status, and a port
    /// and an address that are left zero.
    pub open spec fn wire(self) -> Seq<u8> {
        seq![0u8, self.status(), 0u8, 0u8, 0u8, 0u8, 0u8, 0u8]
    }

    /// Encodes the answer for the wire.
    pub fn to_bytes(self) -> (bytes: Bytes)
        ensures
            unread(bytes) == self.wire(),
    {
        let mut buf = with_capacity(8);
        put_u8(&mut buf, 0);
        match self {
            Response::Granted => put_u8(&mut buf, GRANTED),
            Response::Rejected => put_u8(&mut buf, REJECTED),
        }
        proof {
            reveal_with_fuel(be_bytes, 5);
            assert(be_bytes(0, 2) =~= seq![0u8, 0u8]);
            assert(be_bytes(0, 4) =~= seq![0u8, 0u8, 0u8, 0u8]);
        }
        put_u16(&mut buf, 0);
        put_u32(&mut buf, 0);
        let bytes = freeze(buf);
        assert(unread(bytes) =~= self.wire());
        bytes
    }
}

/// The decoder reads no more than it is given.
pub proof fn lemma_parse_bounds(s: Seq<u8>)
    ensures
        0 <= parse(s).used <= s.len(),
{
    if s.len() >= 8 {
        lemma_nul_position_is_first(s.skip(7));
        let user = parse_text(s.skip(7));
        if user.result is Ok {
            lemma_nul_position_is_first(s.skip(7 + user.used));
        }
    }
}

/// Decodes a request from the bytes received so far behind the version byte.
/// Returns the request with the number of bytes that it takes up, or
/// `NeedMoreData` where the bytes are the beginning of a request only.
pub fn read_request(received: &[u8]) -> (r: Result<(Request, usize), Error>)
    ensures
        match r {
            Ok((request, used)) => parse(received@) == (Parse {
                result: Ok(request@),
                used: used as int,
            }),
            Err(e) => parse(received@).result == Err::<Frame, Fault>(e@),
        },
{
    let mut view = copy_from_slice(received);
    proof {
        lemma_parse_bounds(received@);
    }
    match Request::from_buf(&mut view) {
        Ok(request) => {
            let used = received.len() - remaining(&view);
            Ok((request, used))
        },
        Err(e) => Err(e),
    }
}

/// Where a connection stands.
#[derive(Debug, Clone, PartialEq, Eq)]
pub enum Session {
    /// The request is being read; holds the bytes received so far.
    Negotiating(Vec<u8>),
    /// The destination is being dialed; holds what the client sent behind
    /// its request.
    Dialing(Vec<u8>),
    /// The answer is being written.
    Replying(Response, Vec<u8>),
    /// Bytes are copied between the client and the destination.
    Tunneling,
    /// The connection is over.
    Closed,
}

/// The mathematical value of a [`Session`].
pub enum State {
    Negotiating(Seq<u8>),
    Dialing(Seq<u8>),
    Replying(Response, Seq<u8>),
    Tunneling,
    Closed,
}

impl View for Session {
    type V = State;

    open spec fn view(&self) -> State {
        match self {
            Session::Negotiating(received) => State::Negotiating(received@),
            Session::Dialing(rest) => State::Dialing(rest@),
            Session::Replying(response, rest) => State::Replying(*response, rest@),
            Session::Tunneling => State::Tunneling,
            Session::Closed => State::Closed,
        }
    }
}

/// The end of a session.
pub open spec fn closed(result: Result<(), Fault>) -> (State, Output) {
    (State::Closed, Output::Close(result))
}

/// What follows from the bytes `s` received behind the version byte: a
/// connect request is dialed, a bind request is rejected, the beginning of a
/// request asks for more, and anything else ends the session.
pub open spec fn negotiation(s: Seq<u8>) -> (State, Output) {
    let p = parse(s);
    match p.result {
        Ok(Frame::Connect(addr, _)) => (State::Dialing(s.skip(p.used)), Output::Dial(addr)),
        Ok(Frame::Bind(_, _)) => (
            State::Replying(Response::Rejected, s.skip(p.used)),
            Output::Reply(Response::Rejected.wire()),
        ),
        Err(Fault::NeedMoreData) => (State::Negotiating(s), Output::Read),
        Err(e) => closed(Err(e)),
    }
}

/// The answer to a request whose destination was dialed.
pub open spec fn verdict(connected: bool) -> Response {
    if connected {
        Response::Granted
    } else {
        Response::Rejected
    }
}

/// The session's next state and action, for each state and event.
pub open spec fn step(state: State, input: Input) -> (State, Output) {
    match (state, input) {
        (_, Input::Failed(e)) => closed(Err(Fault::Io(e))),
        (State::Negotiating(received), Input::Received(bytes)) => if bytes.len() == 0 {
            closed(Err(Fault::Io(IoFault::UnexpectedEof)))
        } else {
            negotiation(received + bytes)
        },
        (State::Dialing(rest), Input::Dialed(connected)) => (
            State::Replying(verdict(connected), rest),
            Output::Reply(verdict(connected).wire()),
        ),
        (State::Replying(Response::Granted, rest), Input::Replied) => (
            State::Tunneling,
            Output::Splice(rest),
        ),
        (State::Replying(Response::Rejected, _), Input::Replied) => closed(Ok(())),
        (State::Tunneling, Input::Spliced) => closed(Ok(())),
        _ => closed(Err(Fault::Protocol(unexpected_event()))),
    }
}

fn close(result: Result<(), Error>) -> (r: (Session, Action))
    ensures
        (r.0@, r.1@) == closed(
            match result {
                Ok(()) => Ok(()),
                Err(e) => Err(e@),
            },
        ),
{
    (Session::Closed, Action::Close(result))
}

fn reply(response: Response, rest: Vec<u8>) -> (r: (Session, Action))
    ensures
        r.0@ == State::Replying(response, rest@),
        r.1@ == Output::Reply(response.wire()),
{
    (Session::Replying(response, rest), Action::Reply(response.to_bytes()))
}

/// Decodes what has been received behind the version byte and decides what
/// to do next.
pub fn negotiate(received: Vec<u8>) -> (r: (Session, Action))
    ensures
        (r.0@, r.1@) == negotiation(received@),
{
    let ghost s = received@;
    let mut received = received;
    proof {
        lemma_parse_bounds(s);
    }
    match read_request(received.as_slice()) {
        Ok((Request::Connect(addr, _), used)) => {
            let rest = received.split_off(used);
            assert(rest@ =~= s.skip(used as int));
            (Session::Dialing(rest), Action::Dial(addr))
        },
        Ok((Request::Bind(_, _), used)) => {
            let rest = received.split_off(used);
            assert(rest@ =~= s.skip(used as int));
            reply(Response::Rejected, rest)
        },
        Err(Error::NeedMoreData) => (Session::Negotiating(received), Action::Read),
        Err(e) => close(Err(e)),
    }
}

/// Takes the session one step further: from where it stands and what the
/// driver reports to where it stands next and what the driver is to do.
pub fn handle_request(session: Session, event: Event) -> (r: (Session, Action))
    ensures
        (r.0@, r.1@) == step(session@, event@),
{
    match event {
        Event::Failed(e) => close(Err(Error::Io(e))),
        Event::Received(bytes) => match session {
            Session::Negotiating(received) => {
                if bytes.len() == 0 {
                    close(Err(Error::Io(IoError::UnexpectedEof)))
                } else {
                    let mut received = received;
                    let mut bytes = bytes;
                    received.append(&mut bytes);
                    negotiate(received)
                }
            },
            _ => unexpected(),
        },
        Event::Dialed(connected) => match session {
            Session::Dialing(rest) => {
                if connected {
                    reply(Response::Granted, rest)
                } else {
                    reply(Response::Rejected, rest)
                }
            },
            _ => unexpected(),
        },
        Event::Replied => match session {
            Session::Replying(Response::Granted, rest) => (
                Session::Tunneling,
                Action::Splice(rest),
            ),
            Session::Replying(Response::Rejected, _) => close(Ok(())),
            _ => unexpected(),
        },
        Event::Spliced => match session {
            Session::Tunneling => close(Ok(())),
            _ => unexpected(),
        },
    }
}

fn unexpected() -> (r: (Session, Action))
    ensures
        (r.0@, r.1@) == closed(Err(Fault::Protocol(unexpected_event()))),
{
    close(Err(Error::Protocol(String::from_str("unexpected event"))))
}

/// The need for more data stays inside the session: it never ends it.
pub proof fn law_need_more_data_reads_on(state: State, input: Input)
    ensures
        step(state, input).1 != Output::Close(Err(Fault::NeedMoreData)),
{
}

/// While the bytes received are the beginning of a request only, the
/// session keeps them and reads on.
pub proof fn law_incomplete_request_reads_on(received: Seq<u8>, chunk: Seq<u8>)
    requires
        chunk.len() > 0,
        parse(received + chunk).result == Err::<Frame, Fault>(Fault::NeedMoreData),
    ensures
        step(State::Negotiating(received), Input::Received(chunk)) == (
            State::Negotiating(received + chunk),
            Output::Read,
        ),
{
}

/// A tunnel is opened for a request that was granted and for nothing else,
/// and a request is granted only when its destination was reached; a bind
/// request is rejected without a dial.
pub proof fn law_tunnel_follows_grant(state: State, input: Input)
    ensures
        step(state, input).1 is Splice ==> state is Replying && state->Replying_0
            == Response::Granted && input is Replied,
        step(state, input).0 matches State::Replying(Response::Granted, _) ==> state is Dialing
            && input == Input::Dialed(true),
        step(state, input).1 is Dial ==> state is Negotiating && parse(
            state->Negotiating_0 + input->Received_0,
        ).result matches Ok(Frame::Connect(_, _)),
{
}

/// The session that reads a request, after the pieces `chunks` have
/// arrived one by one, and the action that it asked for last.
pub open spec fn fed(chunks: Seq<Seq<u8>>) -> (State, Output)
    decreases chunks.len(),
{
    if chunks.len() == 0 {
        (State::Negotiating(Seq::empty()), Output::Read)
    } else {
        step(fed(chunks.drop_last()).0, Input::Received(chunks.last()))
    }
}

/// However a request is cut into pieces, the session reads on while the
/// request is incomplete, and with the piece that completes it does what it
/// does when the request arrives at once.
pub proof fn law_pieces(chunks: Seq<Seq<u8>>, k: int)
    requires
        0 < k <= chunks.len(),
        forall|i: int| 0 <= i < chunks.len() ==> chunks[i].len() > 0,
        parse(joined(chunks)).result is Ok,
        parse(joined(chunks)).used > joined(chunks.drop_last()).len(),
    ensures
        k < chunks.len() ==> fed(chunks.take(k)) == (
            State::Negotiating(joined(chunks.take(k))),
            Output::Read,
        ),
        k == chunks.len() ==> fed(chunks) == negotiation(joined(chunks)),
    decreases k,
{
    let pieces = chunks.take(k);
    let before = pieces.drop_last();
    assert(before =~= chunks.take(k - 1));
    if k > 1 {
        law_pieces(chunks, k - 1);
    } else {
        assert(joined(before) =~= Seq::<u8>::empty());
    }
    assert(fed(before) == (State::Negotiating(joined(before)), Output::Read));
    assert(pieces.last() == chunks[k - 1]);
    if k < chunks.len() {
        lemma_joined_prefix(chunks, k);
        lemma_joined_prefix(chunks.drop_last(), k);
        assert(chunks.drop_last().take(k) =~= pieces);
        let n = joined(pieces).len() as int;
        law_incremental(joined(chunks), n);
    } else {
        assert(pieces =~= chunks);
    }
}

} // verus!
