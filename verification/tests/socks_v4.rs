use bytes::Bytes;
use juno::socks::v4::{read_request, Request, Response};
use juno::socks::{Error, SocketAddr};

#[test]
fn v4_test_request_from_buf() {
    {
        let mut buf = Bytes::from_static(&[1, 1, 2, 0, 0, 0, 0, 0x68, 0x6f, 0x67, 0x65, 0]);
        let req = Request::from_buf(&mut buf).unwrap();
        assert_eq!(
            req,
            Request::Connect(SocketAddr::v4(0, 0x0102), "hoge".to_string())
        );
    }
    {
        let mut buf = Bytes::from_static(&[2, 1, 2, 0, 0, 0, 255, 0, 0x68, 0x6f, 0x67, 0x65, 0]);
        let req = Request::from_buf(&mut buf).unwrap();
        assert_eq!(
            req,
            Request::Bind(SocketAddr::raw("hoge".to_string(), 0x0102), "".to_string())
        );
    }
    {
        let mut buf = Bytes::from_static(&[1, 2, 3, 4, 5, 6, 7]);
        assert!(matches!(
            Request::from_buf(&mut buf),
            Err(Error::NeedMoreData)
        ));
    }
    {
        let mut buf = Bytes::from_static(&[0, 1, 2, 3, 4, 5, 6, 7]);
        assert!(matches!(
            Request::from_buf(&mut buf),
            Err(Error::Protocol(_))
        ));
    }
}

#[test]
fn test_read_string() {
    let mut buf = Bytes::from_static(b"a");
    assert!(matches!(
        Request::read_string(&mut buf),
        Err(Error::NeedMoreData)
    ));
}

#[test]
fn v4_target_is_the_address() {
    for ip in [0u32, 256, 257, 0x7F000001, 0xFFFFFFFF] {
        let mut frame = vec![1, 0x1F, 0x90];
        frame.extend_from_slice(&ip.to_be_bytes());
        frame.extend_from_slice(b"user\0rest");
        let mut buf = Bytes::from(frame);
        let req = Request::from_buf(&mut buf).unwrap();
        assert_eq!(
            req,
            Request::Connect(SocketAddr::v4(ip, 8080), "user".to_string())
        );
        assert_eq!(&buf[..], b"rest");
    }
}

#[test]
fn v4a_reads_the_domain() {
    for ip in [1u32, 2, 128, 255] {
        let mut frame = vec![2, 0x00, 0x50];
        frame.extend_from_slice(&ip.to_be_bytes());
        frame.extend_from_slice(b"\0example.test\0rest");
        let mut buf = Bytes::from(frame);
        let req = Request::from_buf(&mut buf).unwrap();
        assert_eq!(
            req,
            Request::Bind(
                SocketAddr::raw("example.test".to_string(), 80),
                "".to_string()
            )
        );
        assert_eq!(&buf[..], b"rest");
    }
}

#[test]
fn v4a_without_domain_needs_more_data() {
    let mut buf = Bytes::from_static(&[1, 0, 80, 0, 0, 0, 1, 0]);
    assert!(matches!(
        Request::from_buf(&mut buf),
        Err(Error::NeedMoreData)
    ));
    let mut buf = Bytes::from_static(&[1, 0, 80, 0, 0, 0, 1, 0, 0x61, 0x62]);
    assert!(matches!(
        Request::from_buf(&mut buf),
        Err(Error::NeedMoreData)
    ));
}

#[test]
fn v4_empty_domain_is_a_domain() {
    let mut buf = Bytes::from_static(&[1, 0, 80, 0, 0, 0, 1, 0, 0]);
    assert_eq!(
        Request::from_buf(&mut buf).unwrap(),
        Request::Connect(SocketAddr::raw(String::new(), 80), String::new())
    );
}

#[test]
fn v4_user_without_terminator_needs_more_data() {
    let mut buf = Bytes::from_static(&[1, 0, 80, 1, 2, 3, 4, 0x61, 0x62, 0x63]);
    assert!(matches!(
        Request::from_buf(&mut buf),
        Err(Error::NeedMoreData)
    ));
    assert_eq!(buf.len(), 0);
}

#[test]
fn v4_too_short_reads_nothing() {
    let mut buf = Bytes::from_static(&[1, 2, 3, 4, 5, 6, 7]);
    assert!(Request::from_buf(&mut buf).is_err());
    assert_eq!(&buf[..], &[1, 2, 3, 4, 5, 6, 7]);
}

#[test]
fn v4_illegal_request_message() {
    let mut buf = Bytes::from_static(&[9, 1, 2, 3, 4, 5, 6, 7]);
    match Request::from_buf(&mut buf) {
        Err(Error::Protocol(message)) => assert_eq!(message, "illegal request `9`"),
        other => panic!("{:?}", other),
    }
    assert_eq!(&buf[..], &[1, 2, 3, 4, 5, 6, 7]);
}

#[test]
fn v4_invalid_utf8_is_a_protocol_error() {
    let mut buf = Bytes::from_static(&[1, 0, 80, 1, 2, 3, 4, 0xFF, 0xFE, 0, 7]);
    assert!(matches!(
        Request::from_buf(&mut buf),
        Err(Error::Protocol(_))
    ));
    assert_eq!(&buf[..], &[7]);
    let mut buf = Bytes::from_static(&[1, 0, 80, 0, 0, 0, 9, 0x61, 0, 0xC3, 0x28, 0]);
    assert!(matches!(
        Request::from_buf(&mut buf),
        Err(Error::Protocol(_))
    ));
}

#[test]
fn v4_text_is_utf8() {
    let mut buf = Bytes::from_static(&[1, 0, 80, 1, 2, 3, 4, 0xC3, 0xA9, 0]);
    assert_eq!(
        Request::from_buf(&mut buf).unwrap(),
        Request::Connect(SocketAddr::v4(0x01020304, 80), "\u{e9}".to_string())
    );
}

#[test]
fn read_string_stops_behind_the_terminator() {
    let mut buf = Bytes::from_static(b"ab\0cd\0");
    assert_eq!(Request::read_string(&mut buf).unwrap(), "ab");
    assert_eq!(&buf[..], b"cd\0");
    assert_eq!(Request::read_string(&mut buf).unwrap(), "cd");
    assert_eq!(buf.len(), 0);
    assert!(matches!(
        Request::read_string(&mut buf),
        Err(Error::NeedMoreData)
    ));
}

#[test]
fn v4_response_bytes() {
    assert_eq!(
        &Response::Granted.to_bytes()[..],
        &[0x00, 0x5A, 0, 0, 0, 0, 0, 0]
    );
    assert_eq!(
        &Response::Rejected.to_bytes()[..],
        &[0x00, 0x5B, 0, 0, 0, 0, 0, 0]
    );
}

#[test]
fn v4_read_request_counts_the_bytes() {
    let (req, used) = read_request(&[1, 1, 2, 9, 9, 9, 9, 0x68, 0, 1, 2, 3]).unwrap();
    assert_eq!(
        req,
        Request::Connect(SocketAddr::v4(0x09090909, 0x0102), "h".to_string())
    );
    assert_eq!(used, 9);
    assert!(matches!(
        read_request(&[1, 1, 2, 9, 9, 9, 9, 0x68]),
        Err(Error::NeedMoreData)
    ));
    assert!(matches!(read_request(&[]), Err(Error::NeedMoreData)));
}

#[test]
fn v4_prefixes_need_more_data() {
    let frame: [u8; 16] = [1, 0, 80, 0, 0, 0, 7, 0x75, 0x73, 0, 0x68, 0x6F, 0x73, 0x74, 0, 0xEE];
    for k in 0..15 {
        assert!(
            matches!(read_request(&frame[..k]), Err(Error::NeedMoreData)),
            "prefix of {}",
            k
        );
    }
    let whole = read_request(&frame[..15]).unwrap();
    assert_eq!(
        whole,
        (
            Request::Connect(SocketAddr::raw("host".to_string(), 80), "us".to_string()),
            15
        )
    );
    assert_eq!(read_request(&frame).unwrap(), whole);
}
