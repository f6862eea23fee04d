use juno::dial::DialError;
use juno::http::{
    empty, full, hop_by_hop, Action, Authority, Exchange, Header, Request, Response, Service,
    Session, Target,
};
use juno::Dialer;

fn header(name: &str, value: &str) -> Header {
    Header {
        name: name.as_bytes().to_vec(),
        value: value.as_bytes().to_vec(),
    }
}

fn authority(text: &str, host: &str, port: Option<u16>) -> Authority {
    Authority {
        text: text.to_string(),
        host: host.to_string(),
        port,
    }
}

fn absolute(scheme: &str, authority: Authority, path_and_query: &str) -> Target {
    Target {
        scheme: Some(scheme.to_string()),
        authority: Some(authority),
        path_and_query: Some(path_and_query.to_string()),
    }
}

fn origin(path_and_query: &str) -> Target {
    Target {
        scheme: None,
        authority: None,
        path_and_query: Some(path_and_query.to_string()),
    }
}

fn request(method: &str, target: Target, headers: Vec<Header>) -> Request {
    Request {
        method: method.to_string(),
        target,
        headers,
    }
}

fn session() -> Session {
    Service::new(Dialer::default()).call()
}

#[test]
fn test() {
    let req = request(
        "GET",
        absolute(
            "https",
            authority("example.org", "example.org", None),
            "/index.html",
        ),
        vec![header("Proxy-Connection", "keep-alive")],
    );

    let req = session().transform_request(req);
    assert_eq!(req.target, origin("/index.html"));
    assert!(!req
        .headers
        .iter()
        .any(|h| h.name.eq_ignore_ascii_case(b"Proxy-Connection")));
    assert!(req.headers.is_empty());
}

#[test]
fn transform_keeps_other_headers_with_case_and_order() {
    let req = request(
        "POST",
        absolute(
            "http",
            authority("example.test:8080", "example.test", Some(8080)),
            "/a?b",
        ),
        vec![
            header("HoSt", "example.test:8080"),
            header("PROXY-AUTHORIZATION", "Basic abc"),
            header("X-First", "1"),
            header("proxy-connection", "close"),
            header("x-second", "2"),
            header("Proxy-Connection", "keep-alive"),
        ],
    );
    let out = session().transform_request(req);
    assert_eq!(out.method, "POST");
    assert_eq!(out.target, origin("/a?b"));
    assert_eq!(
        out.headers,
        vec![
            header("HoSt", "example.test:8080"),
            header("X-First", "1"),
            header("x-second", "2"),
        ]
    );
}

#[test]
fn transform_is_idempotent() {
    let req = request(
        "GET",
        absolute("http", authority("h", "h", None), "/p"),
        vec![
            header("Accept", "*/*"),
            header("Proxy-Authorization", "x"),
            header("Host", "h"),
        ],
    );
    let once = session().transform_request(req);
    let twice = session().transform_request(once.clone());
    assert_eq!(once, twice);
}

#[test]
fn transform_without_path_gives_empty_target() {
    let req = request(
        "OPTIONS",
        Target {
            scheme: None,
            authority: Some(authority("example.test:443", "example.test", Some(443))),
            path_and_query: None,
        },
        vec![],
    );
    let out = session().transform_request(req);
    assert_eq!(
        out.target,
        Target {
            scheme: None,
            authority: None,
            path_and_query: None
        }
    );
}

#[test]
fn hop_by_hop_names_in_any_case() {
    assert!(hop_by_hop(b"Proxy-Connection"));
    assert!(hop_by_hop(b"proxy-connection"));
    assert!(hop_by_hop(b"PROXY-CONNECTION"));
    assert!(hop_by_hop(b"pRoXy-AuThOrIzAtIoN"));
    assert!(!hop_by_hop(b"Proxy-Connectio"));
    assert!(!hop_by_hop(b"Proxy-Connections"));
    assert!(!hop_by_hop(b"Proxy_Connection"));
    assert!(!hop_by_hop(b"Connection"));
    assert!(!hop_by_hop(b"Proxy-Authenticate"));
    assert!(!hop_by_hop(b""));
    // '-' and 'M' differ by the bit that tells the case of letters apart
    assert!(!hop_by_hop(b"ProxyMConnection"));
}

#[test]
fn connect_tunnel() {
    let req = request(
        "CONNECT",
        Target {
            scheme: None,
            authority: Some(authority("example.test:443", "example.test", Some(443))),
            path_and_query: None,
        },
        vec![header("Host", "example.test:443")],
    );
    let action = session().call(req);
    assert_eq!(
        action,
        Action::Dial("example.test:443".to_string(), Exchange::Connecting)
    );
    let Action::Dial(_, exchange) = action else {
        unreachable!()
    };
    assert_eq!(
        exchange.resume(Ok(())),
        Action::Tunnel(Response {
            status: 200,
            body: String::new()
        })
    );
}

#[test]
fn connect_keeps_the_authority_as_written() {
    let req = request(
        "CONNECT",
        Target {
            scheme: None,
            authority: Some(authority("user@example.test:8443", "example.test", Some(8443))),
            path_and_query: None,
        },
        vec![],
    );
    assert_eq!(
        session().handle_connect(req),
        Action::Dial("user@example.test:8443".to_string(), Exchange::Connecting)
    );
}

#[test]
fn connect_without_authority_is_refused() {
    let req = request("CONNECT", origin("/"), vec![]);
    assert_eq!(
        session().call(req),
        Action::Respond(Response {
            status: 400,
            body: "CONNECT must be to a socket address".to_string()
        })
    );
}

#[test]
fn connect_dial_failure_is_bad_gateway() {
    assert_eq!(
        Exchange::Connecting.resume(Err("connection refused".to_string())),
        Action::Respond(Response {
            status: 502,
            body: "connection refused".to_string()
        })
    );
}

#[test]
fn method_is_matched_exactly() {
    let req = request(
        "connect",
        Target {
            scheme: None,
            authority: Some(authority("example.test:443", "example.test", Some(443))),
            path_and_query: None,
        },
        vec![],
    );
    let action = session().call(req);
    assert!(matches!(action, Action::Dial(_, Exchange::Reaching(_))));
}

#[test]
fn absolute_form_get() {
    let req = request(
        "GET",
        absolute("http", authority("example.test", "example.test", None), "/a?b"),
        vec![
            header("Host", "example.test"),
            header("Proxy-Connection", "keep-alive"),
        ],
    );
    let upstream = request(
        "GET",
        origin("/a?b"),
        vec![header("Host", "example.test")],
    );
    let action = session().call(req);
    assert_eq!(
        action,
        Action::Dial(
            "example.test:80".to_string(),
            Exchange::Reaching(upstream.clone())
        )
    );
    let Action::Dial(_, exchange) = action else {
        unreachable!()
    };
    let action = exchange.resume(Ok(()));
    assert_eq!(
        action,
        Action::Handshake(Exchange::Handshaking(upstream.clone()))
    );
    let Action::Handshake(exchange) = action else {
        unreachable!()
    };
    assert_eq!(exchange.resume(Ok(())), Action::Forward(upstream));
}

#[test]
fn explicit_port_is_dialed() {
    let req = request(
        "GET",
        absolute(
            "http",
            authority("example.test:65535", "example.test", Some(65535)),
            "/",
        ),
        vec![],
    );
    assert!(matches!(
        session().handle_request(req),
        Action::Dial(addr, _) if addr == "example.test:65535"
    ));
    let req = request(
        "GET",
        absolute("http", authority("[::1]:0", "[::1]", Some(0)), "/"),
        vec![],
    );
    assert!(matches!(
        session().handle_request(req),
        Action::Dial(addr, _) if addr == "[::1]:0"
    ));
}

#[test]
fn malformed_target() {
    let req = request("GET", origin("/"), vec![header("Host", "example.test")]);
    assert_eq!(
        session().call(req),
        Action::Respond(Response {
            status: 400,
            body: String::new()
        })
    );
}

#[test]
fn forward_dial_failure_is_bad_gateway() {
    let upstream = request("GET", origin("/"), vec![]);
    assert_eq!(
        Exchange::Reaching(upstream).resume(Err(DialError::AddrNotAvailable.to_string())),
        Action::Respond(Response {
            status: 502,
            body: "address not available".to_string()
        })
    );
}

#[test]
fn handshake_failure_is_internal_server_error() {
    let upstream = request("GET", origin("/"), vec![]);
    assert_eq!(
        Exchange::Handshaking(upstream).resume(Err("broken pipe".to_string())),
        Action::Respond(Response {
            status: 500,
            body: "broken pipe".to_string()
        })
    );
}

#[test]
fn responses() {
    assert_eq!(
        empty(400),
        Response {
            status: 400,
            body: String::new()
        }
    );
    assert_eq!(
        full(502, "no route".to_string()),
        Response {
            status: 502,
            body: "no route".to_string()
        }
    );
}

#[test]
fn session_keeps_the_dialer() {
    let dialer = Dialer::default();
    let service = Service::new(dialer);
    assert_eq!(*service.dialer(), dialer);
    assert_eq!(*service.call().dialer(), dialer);
}
