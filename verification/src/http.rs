//! The HTTP/1.1 forward proxy: what becomes of each request that a client
//! sends, and how a request is rewritten before it goes upstream.

use crate::text::{decimal, decimal_text};
use crate::Dialer;
use std::sync::Arc;
use vstd::prelude::*;
use vstd::string::{is_ascii, StringExecFns};

verus! {

/// One header line: its name, in the letter case in which it came, and its
/// value.
#[derive(Debug, Clone, PartialEq, Eq)]
pub struct Header {
    pub name: Vec<u8>,
    pub value: Vec<u8>,
}

/// The mathematical value of a [`Header`].
pub struct Field {
    pub name: Seq<u8>,
    pub value: Seq<u8>,
}

impl View for Header {
    type V = Field;

    open spec fn view(&self) -> Field {
        Field { name: self.name@, value: self.value@ }
    }
}

/// The authority of a request target: as it is written, and the host and
/// the port that it names.
#[derive(Debug, Clone, PartialEq, Eq)]
pub struct Authority {
    pub text: String,
    pub host: String,
    pub port: Option<u16>,
}

/// The mathematical value of an [`Authority`].
pub struct Location {
    pub text: Seq<char>,
    pub host: Seq<char>,
    pub port: Option<u16>,
}

impl View for Authority {
    type V = Location;

    open spec fn view(&self) -> Location {
        Location { text: self.text@, host: self.host@, port: self.port }
    }
}

/// A request target in its parts. The absolute form has all three, the
/// origin form a path and query only, the authority form an authority only.
#[derive(Debug, Clone, PartialEq, Eq)]
pub struct Target {
    pub scheme: Option<String>,
    pub authority: Option<Authority>,
    pub path_and_query: Option<String>,
}

/// The mathematical value of a [`Target`].
pub struct Reference {
    pub scheme: Option<Seq<char>>,
    pub authority: Option<Location>,
    pub path_and_query: Option<Seq<char>>,
}

impl View for Target {
    type V = Reference;

    open spec fn view(&self) -> Reference {
        Reference {
            scheme: match self.scheme {
                Some(scheme) => Some(scheme@),
                None => None,
            },
            authority: match self.authority {
                Some(authority) => Some(authority@),
                None => None,
            },
            path_and_query: match self.path_and_query {
                Some(path) => Some(path@),
                None => None,
            },
        }
    }
}

impl Reference {
    /// The target as it goes over the wire in origin form: the path and
    /// query, or nothing.
    pub open spec fn origin_form(self) -> Seq<char> {
        match self.path_and_query {
            Some(path) => path,
            None => Seq::empty(),
        }
    }
}

/// The head of a request: the method, the target and the header lines in
/// their order. The body passes through the proxy untouched and is not part
/// of this.
#[derive(Debug, Clone, PartialEq, Eq)]
pub struct Request {
    pub method: String,
    pub target: Target,
    pub headers: Vec<Header>,
}

/// The mathematical value of a [`Request`].
pub struct Message {
    pub method: Seq<char>,
    pub target: Reference,
    pub headers: Seq<Field>,
}

/// The values of header lines.
pub open spec fn fields(headers: Seq<Header>) -> Seq<Field> {
    headers.map_values(|header: Header| header@)
}

impl View for Request {
    type V = Message;

    open spec fn view(&self) -> Message {
        Message { method: self.method@, target: self.target@, headers: fields(self.headers@) }
    }
}

/// A response that the proxy itself gives: the status code and the body.
#[derive(Debug, Clone, PartialEq, Eq)]
pub struct Response {
    pub status: u16,
    pub body: String,
}

/// The mathematical value of a [`Response`].
pub struct Answer {
    pub status: u16,
    pub body: Seq<char>,
}

impl View for Response {
    type V = Answer;

    open spec fn view(&self) -> Answer {
        Answer { status: self.status, body: self.body@ }
    }
}

/// The status code of a response without complaint.
pub const OK: u16 = 200;

/// The status code for a request that the proxy cannot make sense of.
pub const BAD_REQUEST: u16 = 400;

/// The status code for a failure of the proxy itself.
pub const INTERNAL_SERVER_ERROR: u16 = 500;

/// The status code for an upstream that could not be reached.
pub const BAD_GATEWAY: u16 = 502;

/// The port of a target that names none.
pub const DEFAULT_PORT: u16 = 80;

/// The bytes of a text in ASCII.
pub open spec fn ascii(text: Seq<char>) -> Seq<u8> {
    Seq::new(text.len(), |i: int| text[i] as u8)
}

/// A byte with an ASCII capital letter turned into its small letter.
pub open spec fn lower(byte: u8) -> u8 {
    if 0x41 <= byte <= 0x5a {
        (byte + 0x20) as u8
    } else {
        byte
    }
}

/// Whether two header names are the same name: they differ at most in the
/// case of their ASCII letters.
pub open spec fn same_name(a: Seq<u8>, b: Seq<u8>) -> bool {
    a.len() == b.len() && forall|i: int| 0 <= i < a.len() ==> lower(a[i]) == lower(b[i])
}

/// Whether a header of this name concerns the hop between the client and
/// the proxy only, and so does not go upstream.
pub open spec fn is_hop_by_hop(name: Seq<u8>) -> bool {
    same_name(name, ascii("proxy-connection"@)) || same_name(name, ascii("proxy-authorization"@))
}

/// The test by which a header goes upstream.
pub open spec fn goes_upstream() -> spec_fn(Field) -> bool {
    |field: Field| !is_hop_by_hop(field.name)
}

/// The request as it goes upstream: its target is in origin form, the path
/// and query that it came with or nothing, and the hop-by-hop headers are
/// gone; what remains is as it was and in its order.
pub open spec fn transformed(request: Message) -> Message {
    Message {
        method: request.method,
        target: Reference {
            scheme: None,
            authority: None,
            path_and_query: request.target.path_and_query,
        },
        headers: request.headers.filter(goes_upstream()),
    }
}

/// The address to dial for a request to `authority`: the host and the port,
/// which is 80 where the target names none.
pub open spec fn upstream(authority: Location) -> Seq<char> {
    authority.host + seq![':'] + decimal(
        match authority.port {
            Some(port) => port as nat,
            None => DEFAULT_PORT as nat,
        },
    )
}

/// Filtering what has been filtered changes nothing.
pub proof fn lemma_filter_twice<A>(s: Seq<A>, pred: spec_fn(A) -> bool)
    ensures
        s.filter(pred).filter(pred) == s.filter(pred),
    decreases s.len(),
{
    reveal(Seq::filter);
    if s.len() > 0 {
        let head = s.drop_last();
        lemma_filter_twice(head, pred);
        if pred(s.last()) {
            let kept = head.filter(pred).push(s.last());
            assert(kept.drop_last() =~= head.filter(pred));
        }
    }
}

/// Rewriting a request that has been rewritten changes nothing.
pub proof fn law_transform_idempotent(request: Message)
    ensures
        transformed(transformed(request)) == transformed(request),
{
    lemma_filter_twice(request.headers, goes_upstream());
}

/// A header that is not hop-by-hop goes upstream as it came: with the name
/// in its letter case and with its value. A request without hop-by-hop
/// headers keeps all its headers, in their order.
pub proof fn law_transform_keeps_headers(request: Message, i: int)
    requires
        0 <= i < request.headers.len(),
        !is_hop_by_hop(request.headers[i].name),
    ensures
        transformed(request).headers.contains(request.headers[i]),
        (forall|j: int| 0 <= j < request.headers.len() ==> !is_hop_by_hop(request.headers[j].name))
            ==> transformed(request).headers == request.headers,
{
    request.headers.lemma_filter_contains(goes_upstream(), i);
    if forall|j: int| 0 <= j < request.headers.len() ==> !is_hop_by_hop(request.headers[j].name) {
        lemma_filter_all(request.headers, goes_upstream());
    }
}

/// A filter that every element passes keeps the sequence as it is.
pub proof fn lemma_filter_all<A>(s: Seq<A>, pred: spec_fn(A) -> bool)
    requires
        forall|j: int| 0 <= j < s.len() ==> pred(s[j]),
    ensures
        s.filter(pred) == s,
    decreases s.len(),
{
    reveal(Seq::filter);
    if s.len() > 0 {
        let head = s.drop_last();
        assert forall|j: int| 0 <= j < head.len() implies pred(head[j]) by {
            assert(head[j] == s[j]);
        }
        lemma_filter_all(head, pred);
        assert(head.push(s.last()) =~= s);
    }
}

/// The rewritten request keeps its headers in the order in which they came:
/// what it holds is a subsequence of the headers that the client sent.
pub proof fn law_transform_keeps_order(request: Message, i: int, j: int)
    requires
        0 <= i < j < transformed(request).headers.len(),
    ensures
        exists|a: int, b: int|
            0 <= a < b < request.headers.len() && request.headers[a] == transformed(
                request,
            ).headers[i] && request.headers[b] == transformed(request).headers[j],
{
    lemma_filter_order(request.headers, goes_upstream(), i, j);
}

/// Two elements of a filtered sequence stand in the whole sequence in the
/// same order.
pub proof fn lemma_filter_order<A>(s: Seq<A>, pred: spec_fn(A) -> bool, i: int, j: int)
    requires
        0 <= i < j < s.filter(pred).len(),
    ensures
        exists|a: int, b: int|
            0 <= a < b < s.len() && s[a] == s.filter(pred)[i] && s[b] == s.filter(pred)[j],
    decreases s.len(),
{
    reveal(Seq::filter);
    let head = s.drop_last();
    let kept = head.filter(pred);
    if pred(s.last()) && j == kept.len() {
        lemma_filter_origin(head, pred, i);
        let a = choose|a: int| 0 <= a < head.len() && head[a] == kept[i];
        assert(s[a] == s.filter(pred)[i] && s[s.len() - 1] == s.filter(pred)[j]);
    } else {
        lemma_filter_order(head, pred, i, j);
        let (a, b) = choose|a: int, b: int|
            0 <= a < b < head.len() && head[a] == kept[i] && head[b] == kept[j];
        assert(s[a] == s.filter(pred)[i] && s[b] == s.filter(pred)[j]);
    }
}

/// Each element of a filtered sequence stands in the whole sequence.
pub proof fn lemma_filter_origin<A>(s: Seq<A>, pred: spec_fn(A) -> bool, i: int)
    requires
        0 <= i < s.filter(pred).len(),
    ensures
        exists|a: int| 0 <= a < s.len() && s[a] == s.filter(pred)[i],
    decreases s.len(),
{
    reveal(Seq::filter);
    let head = s.drop_last();
    let kept = head.filter(pred);
    if pred(s.last()) && i == kept.len() {
        assert(s[s.len() - 1] == s.filter(pred)[i]);
    } else {
        lemma_filter_origin(head, pred, i);
        let a = choose|a: int| 0 <= a < head.len() && head[a] == kept[i];
        assert(s[a] == s.filter(pred)[i]);
    }
}

/// The target of the rewritten request has neither scheme nor authority:
/// on the wire it is the path and query that the client sent, or nothing.
pub proof fn law_transform_origin_form(request: Message)
    ensures
        transformed(request).target.scheme is None,
        transformed(request).target.authority is None,
        transformed(request).target.origin_form() == request.target.origin_form(),
        request.target.path_and_query is None ==> transformed(request).target.origin_form()
            == Seq::<char>::empty(),
{
}

/// No header of the rewritten request is named `Proxy-Connection` or
/// `Proxy-Authorization`, in whatever letter case the name is written.
pub proof fn law_transform_drops_hop_by_hop(request: Message, i: int)
    requires
        0 <= i < transformed(request).headers.len(),
    ensures
        !same_name(transformed(request).headers[i].name, ascii("Proxy-Connection"@)),
        !same_name(transformed(request).headers[i].name, ascii("Proxy-Authorization"@)),
{
    request.headers.lemma_filter_pred(goes_upstream(), i);
    let name = transformed(request).headers[i].name;
    reveal_strlit("Proxy-Connection");
    reveal_strlit("proxy-connection");
    reveal_strlit("Proxy-Authorization");
    reveal_strlit("proxy-authorization");
    lemma_same_name_transitive(name, ascii("Proxy-Connection"@), ascii("proxy-connection"@));
    lemma_same_name_transitive(name, ascii("Proxy-Authorization"@), ascii("proxy-authorization"@));
}

/// Names that are the same as a third are the same.
pub proof fn lemma_same_name_transitive(a: Seq<u8>, b: Seq<u8>, c: Seq<u8>)
    requires
        same_name(b, c),
    ensures
        same_name(a, b) ==> same_name(a, c),
{
}

fn lowered(byte: u8) -> (r: u8)
    ensures
        r == lower(byte),
{
    if 0x41 <= byte && byte <= 0x5a {
        byte + 0x20
    } else {
        byte
    }
}

fn is_name(name: &[u8], other: &str) -> (r: bool)
    requires
        is_ascii(other),
    ensures
        r == same_name(name@, ascii(other@)),
{
    broadcast use vstd::string::is_ascii_spec_bytes;

    let bytes = other.as_bytes();
    assert(bytes@ =~= ascii(other@));
    if name.len() != bytes.len() {
        return false;
    }
    let mut i: usize = 0;
    while i < name.len()
        invariant
            i <= name.len(),
            name.len() == bytes.len(),
            bytes@ == ascii(other@),
            forall|j: int| 0 <= j < i ==> lower(name@[j]) == lower(bytes@[j]),
        decreases name.len() - i,
    {
        if lowered(name[i]) != lowered(bytes[i]) {
            assert(lower(name@[i as int]) != lower(ascii(other@)[i as int]));
            return false;
        }
        i += 1;
    }
    true
}

/// Whether a header of this name concerns the hop between the client and
/// the proxy only.
pub fn hop_by_hop(name: &[u8]) -> (r: bool)
    ensures
        r == is_hop_by_hop(name@),
{
    proof {
        reveal_strlit("proxy-connection");
        reveal_strlit("proxy-authorization");
    }
    is_name(name, "proxy-connection") || is_name(name, "proxy-authorization")
}

/// What the proxy does next for a request.
#[derive(Debug, Clone, PartialEq, Eq)]
pub enum Action {
    /// Answer the client with this response; the request is done with.
    Respond(Response),
    /// Answer the client with this response, then carry bytes between the
    /// client and the destination that was dialed until both have ended.
    Tunnel(Response),
    /// Send this request upstream and hand the client what comes back,
    /// unchanged; the request is done with.
    Forward(Request),
    /// Connect to this address, and come back with the outcome.
    Dial(String, Exchange),
    /// Open an HTTP/1.1 client connection on the upstream, and come back
    /// with the outcome.
    Handshake(Exchange),
}

/// Where a request stands while the proxy waits for an outcome.
#[derive(Debug, Clone, PartialEq, Eq)]
pub enum Exchange {
    /// The destination of a `CONNECT` request is being dialed.
    Connecting,
    /// The upstream of a plain request is being dialed; holds the request
    /// as it will go upstream.
    Reaching(Request),
    /// The client connection to the upstream is being opened.
    Handshaking(Request),
}

/// The mathematical value of an [`Exchange`].
pub enum Standing {
    Connecting,
    Reaching(Message),
    Handshaking(Message),
}

impl View for Exchange {
    type V = Standing;

    open spec fn view(&self) -> Standing {
        match self {
            Exchange::Connecting => Standing::Connecting,
            Exchange::Reaching(request) => Standing::Reaching(request@),
            Exchange::Handshaking(request) => Standing::Handshaking(request@),
        }
    }
}

/// The mathematical value of an [`Action`].
pub enum Move {
    Respond(Answer),
    Tunnel(Answer),
    Forward(Message),
    Dial(Seq<char>, Standing),
    Handshake(Standing),
}

impl View for Action {
    type V = Move;

    open spec fn view(&self) -> Move {
        match self {
            Action::Respond(response) => Move::Respond(response@),
            Action::Tunnel(response) => Move::Tunnel(response@),
            Action::Forward(request) => Move::Forward(request@),
            Action::Dial(addr, exchange) => Move::Dial(addr@, exchange@),
            Action::Handshake(exchange) => Move::Handshake(exchange@),
        }
    }
}

/// What becomes of a `CONNECT` request: its authority is dialed; without
/// one the request is refused.
pub open spec fn connect(request: Message) -> Move {
    match request.target.authority {
        Some(authority) => Move::Dial(authority.text, Standing::Connecting),
        None => Move::Respond(
            Answer { status: BAD_REQUEST, body: "CONNECT must be to a socket address"@ },
        ),
    }
}

/// What becomes of a plain request: it is rewritten and the host of its
/// target is dialed; without an authority in its target it is refused.
pub open spec fn forward(request: Message) -> Move {
    match request.target.authority {
        Some(authority) => Move::Dial(
            upstream(authority),
            Standing::Reaching(transformed(request)),
        ),
        None => Move::Respond(Answer { status: BAD_REQUEST, body: Seq::empty() }),
    }
}

/// What becomes of a request.
pub open spec fn route(request: Message) -> Move {
    if request.method == "CONNECT"@ {
        connect(request)
    } else {
        forward(request)
    }
}

/// What follows the outcome that the proxy waited for: a failure is
/// reported to the client, with the status of the step that failed; a
/// success opens the tunnel, or takes a plain request one step further.
pub open spec fn resumed(standing: Standing, outcome: Result<(), Seq<char>>) -> Move {
    match (standing, outcome) {
        (Standing::Connecting, Ok(())) => Move::Tunnel(Answer { status: OK, body: Seq::empty() }),
        (Standing::Connecting, Err(message)) => Move::Respond(
            Answer { status: BAD_GATEWAY, body: message },
        ),
        (Standing::Reaching(request), Ok(())) => Move::Handshake(Standing::Handshaking(request)),
        (Standing::Reaching(_), Err(message)) => Move::Respond(
            Answer { status: BAD_GATEWAY, body: message },
        ),
        (Standing::Handshaking(request), Ok(())) => Move::Forward(request),
        (Standing::Handshaking(_), Err(message)) => Move::Respond(
            Answer { status: INTERNAL_SERVER_ERROR, body: message },
        ),
    }
}

impl Exchange {
    /// Takes up a request again with the outcome of the action that the
    /// proxy waited for: `Ok` when it succeeded, else the failure's message.
    pub fn resume(self, outcome: Result<(), String>) -> (action: Action)
        ensures
            action@ == resumed(
                self@,
                match outcome {
                    Ok(()) => Ok(()),
                    Err(message) => Err(message@),
                },
            ),
    {
        match self {
            Exchange::Connecting => match outcome {
                Ok(()) => Action::Tunnel(empty(OK)),
                Err(message) => Action::Respond(full(BAD_GATEWAY, message)),
            },
            Exchange::Reaching(request) => match outcome {
                Ok(()) => Action::Handshake(Exchange::Handshaking(request)),
                Err(message) => Action::Respond(full(BAD_GATEWAY, message)),
            },
            Exchange::Handshaking(request) => match outcome {
                Ok(()) => Action::Forward(request),
                Err(message) => Action::Respond(full(INTERNAL_SERVER_ERROR, message)),
            },
        }
    }
}

/// A response without a body.
pub fn empty(status: u16) -> (response: Response)
    ensures
        response@ == (Answer { status, body: Seq::empty() }),
{
    Response { status, body: String::new() }
}

/// A response with a body.
pub fn full(status: u16, body: String) -> (response: Response)
    ensures
        response@ == (Answer { status, body: body@ }),
{
    Response { status, body }
}

/// The provider of the HTTP proxy: it makes the session of each connection.
#[derive(Clone)]
pub struct Service {
    dialer: Arc<Dialer>,
}

impl Service {
    /// The dialer by which the sessions of this provider reach out.
    pub closed spec fn spec_dialer(&self) -> Dialer {
        *self.dialer
    }

    /// A provider whose sessions reach out by `dialer`.
    pub fn new(dialer: Dialer) -> (service: Self)
        ensures
            service.spec_dialer() == dialer,
    {
        Self { dialer: Arc::new(dialer) }
    }

    /// The dialer by which the sessions of this provider reach out.
    pub fn dialer(&self) -> (dialer: &Dialer)
        ensures
            *dialer == self.spec_dialer(),
    {
        &self.dialer
    }

    /// The session of a new connection.
    pub fn call(&self) -> (session: Session)
        ensures
            session.spec_dialer() == self.spec_dialer(),
    {
        Session::new(&self.dialer)
    }
}

/// The proxy's side of one client connection.
pub struct Session {
    dialer: Arc<Dialer>,
}

impl Session {
    /// The dialer by which this session reaches out.
    pub closed spec fn spec_dialer(&self) -> Dialer {
        *self.dialer
    }

    /// A session that reaches out by `dialer`.
    pub fn new(dialer: &Arc<Dialer>) -> (session: Self)
        ensures
            session.spec_dialer() == **dialer,
    {
        Self { dialer: Arc::clone(dialer) }
    }

    /// The dialer by which this session reaches out.
    pub fn dialer(&self) -> (dialer: &Dialer)
        ensures
            *dialer == self.spec_dialer(),
    {
        &self.dialer
    }

    /// Decides what becomes of a `CONNECT` request.
    pub fn handle_connect(&self, req: Request) -> (action: Action)
        ensures
            action@ == connect(req@),
    {
        match req.target.authority {
            Some(authority) => Action::Dial(authority.text, Exchange::Connecting),
            None => Action::Respond(
                full(BAD_REQUEST, String::from_str("CONNECT must be to a socket address")),
            ),
        }
    }

    /// Rewrites a request for the upstream.
    pub fn transform_request(&self, req: Request) -> (r: Request)
        ensures
            r@ == transformed(req@),
    {
        let ghost all = req.headers@;
        let Request { method, target, headers } = req;
        let target = Target {
            scheme: None,
            authority: None,
            path_and_query: target.path_and_query,
        };
        let mut kept: Vec<Header> = Vec::new();
        proof {
            reveal(Seq::filter);
            assert(fields(all.take(0)) =~= Seq::<Field>::empty());
        }
        for header in it: headers
            invariant
                it.seq() == all,
                fields(kept@) == fields(all.take(it.index() as int)).filter(goes_upstream()),
        {
            proof {
                let before = fields(all.take(it.index() as int));
                let now = fields(all.take(it.index() + 1));
                assert(now =~= before.push(header@));
                assert(now.drop_last() =~= before);
                reveal(Seq::filter);
            }
            let ghost so_far = kept@;
            if !hop_by_hop(header.name.as_slice()) {
                kept.push(header);
                assert(fields(kept@) =~= fields(so_far).push(header@));
            }
        }
        assert(all.take(all.len() as int) =~= all);
        Request { method, target, headers: kept }
    }

    /// Decides what becomes of a plain request.
    pub fn handle_request(&self, req: Request) -> (action: Action)
        ensures
            action@ == forward(req@),
    {
        let addr = match &req.target.authority {
            Some(authority) => {
                let port = match authority.port {
                    Some(port) => port,
                    None => DEFAULT_PORT,
                };
                proof {
                    reveal_strlit(":");
                }
                let addr = authority.host.clone().concat(":").concat(decimal_text(port).as_str());
                assert(addr@ =~= upstream(authority@));
                addr
            },
            None => {
                return Action::Respond(empty(BAD_REQUEST));
            },
        };
        let req = self.transform_request(req);
        Action::Dial(addr, Exchange::Reaching(req))
    }

    /// Decides what becomes of a request.
    pub fn call(&self, req: Request) -> (action: Action)
        ensures
            action@ == route(req@),
    {
        if req.method == String::from_str("CONNECT") {
            self.handle_connect(req)
        } else {
            self.handle_request(req)
        }
    }
}

} // verus!
