use bytes::Bytes;
use juno::socks::v5::{read_greeting, read_request, select, Request, Response};
use juno::socks::{Error, SocketAddr};

#[test]
fn v5_test_request_from_buf() {
    {
        let mut buf = Bytes::from_static(&[1, 0, 1, 2, 3, 4, 5, 6, 7]);
        let req = Request::from_buf(&mut buf).unwrap();
        assert_eq!(req, Request::Connect(SocketAddr::v4(0x02030405, 0x0607)));
    }
    {
        let mut buf = Bytes::from_static(&[
            2, 0, 4, 0x00, 0x01, 0x02, 0x03, 0x04, 0x05, 0x06, 0x07, 0x08, 0x09, 0x0A, 0x0B,
            0x0C, 0x0D, 0x0E, 0x0F, 0x10, 0x11,
        ]);
        let req = Request::from_buf(&mut buf).unwrap();
        assert_eq!(
            req,
            Request::Bind(SocketAddr::v6(0x000102030405060708090A0B0C0D0E0F, 0x1011))
        );
    }
    {
        let mut buf = Bytes::from_static(&[3, 0, 3, 4, 0x68, 0x6f, 0x67, 0x65, 0x12, 0x34]);
        let req = Request::from_buf(&mut buf).unwrap();
        assert_eq!(
            req,
            Request::UdpAssociate(SocketAddr::raw("hoge".to_string(), 0x1234))
        );
    }
    {
        let mut buf = Bytes::from_static(&[1]);
        assert!(matches!(
            Request::from_buf(&mut buf),
            Err(Error::NeedMoreData)
        ));
    }
    {
        let mut buf = Bytes::from_static(&[1, 2]);
        assert!(matches!(
            Request::from_buf(&mut buf),
            Err(Error::Protocol(_))
        ));
    }
    {
        let mut buf = Bytes::from_static(&[0, 0]);
        assert!(matches!(
            Request::from_buf(&mut buf),
            Err(Error::Protocol(_))
        ));
    }
    {
        let mut buf = Bytes::from_static(&[3, 0]);
        assert!(matches!(
            Request::from_buf(&mut buf),
            Err(Error::NeedMoreData)
        ));
    }
    {
        let mut buf = Bytes::from_static(&[1, 0, 1, 0, 0, 0]);
        assert!(matches!(
            Request::from_buf(&mut buf),
            Err(Error::NeedMoreData)
        ));
    }
    {
        let mut buf =
            Bytes::from_static(&[2, 0, 4, 0, 0, 0, 0, 0, 0, 0, 0, 0, 0, 0, 0, 0, 0, 0]);
        assert!(matches!(
            Request::from_buf(&mut buf),
            Err(Error::NeedMoreData)
        ));
    }
    {
        let mut buf = Bytes::from_static(&[2, 0, 3]);
        assert!(matches!(
            Request::from_buf(&mut buf),
            Err(Error::NeedMoreData)
        ));
    }
    {
        let mut buf = Bytes::from_static(&[2, 0, 3, 4, 0, 0, 0]);
        assert!(matches!(
            Request::from_buf(&mut buf),
            Err(Error::NeedMoreData)
        ));
    }
    {
        let mut buf = Bytes::from_static(&[2, 0, 5]);
        assert!(matches!(
            Request::from_buf(&mut buf),
            Err(Error::Protocol(_))
        ));
    }
}

#[test]
fn v5_messages_of_protocol_errors() {
    let message = |bytes: &'static [u8]| match Request::from_buf(&mut Bytes::from_static(bytes)) {
        Err(Error::Protocol(message)) => message,
        other => panic!("{:?}", other),
    };
    assert_eq!(message(&[1, 2]), "reserved octet is not 0");
    assert_eq!(message(&[9, 1]), "reserved octet is not 0");
    assert_eq!(message(&[0, 0]), "illegal request `0`");
    assert_eq!(message(&[4, 0, 1]), "illegal request `4`");
    assert_eq!(message(&[2, 0, 5]), "illegal address type `5`");
    assert_eq!(message(&[2, 0, 0]), "illegal address type `0`");
    assert_eq!(message(&[2, 0, 2, 1, 1]), "illegal address type `2`");
}

#[test]
fn v5_from_buf_advances_past_the_request() {
    let mut buf = Bytes::from_static(&[1, 0, 1, 2, 3, 4, 5, 6, 7, 8, 9]);
    assert!(Request::from_buf(&mut buf).is_ok());
    assert_eq!(&buf[..], &[8, 9]);
    let mut buf = Bytes::from_static(&[3, 0, 3, 2, 0x68, 0x69, 0, 80, 7]);
    assert_eq!(
        Request::from_buf(&mut buf).unwrap(),
        Request::UdpAssociate(SocketAddr::raw("hi".to_string(), 80))
    );
    assert_eq!(&buf[..], &[7]);
    let mut buf = Bytes::from_static(&[1]);
    assert!(Request::from_buf(&mut buf).is_err());
    assert_eq!(&buf[..], &[1]);
    let mut buf = Bytes::from_static(&[1, 0, 3, 9, 1]);
    assert!(Request::from_buf(&mut buf).is_err());
    assert_eq!(&buf[..], &[1]);
}

#[test]
fn v5_empty_domain() {
    let mut buf = Bytes::from_static(&[1, 0, 3, 0, 0x01, 0xBB]);
    assert_eq!(
        Request::from_buf(&mut buf).unwrap(),
        Request::Connect(SocketAddr::raw(String::new(), 443))
    );
}

#[test]
fn v5_longest_domain() {
    let mut frame = vec![1, 0, 3, 255];
    frame.extend_from_slice(&[0x61; 255]);
    let mut short = Bytes::from(frame.clone());
    assert!(matches!(
        Request::from_buf(&mut short),
        Err(Error::NeedMoreData)
    ));
    frame.extend_from_slice(&[0xFF, 0xFF]);
    let mut buf = Bytes::from(frame);
    assert_eq!(
        Request::from_buf(&mut buf).unwrap(),
        Request::Connect(SocketAddr::raw("a".repeat(255), 65535))
    );
}

#[test]
fn v5_invalid_utf8_is_a_protocol_error() {
    let mut buf = Bytes::from_static(&[1, 0, 3, 2, 0xC3, 0x28, 0, 80]);
    assert!(matches!(
        Request::from_buf(&mut buf),
        Err(Error::Protocol(_))
    ));
    assert_eq!(&buf[..], &[0, 80]);
}

#[test]
fn v5_response_bytes() {
    assert_eq!(
        &Response::Succeeded.to_bytes()[..],
        &[0x05, 0x00, 0x00, 0x01, 0, 0, 0, 0, 0, 0]
    );
    assert_eq!(
        &Response::Failed.to_bytes()[..],
        &[0x05, 0x01, 0x00, 0x01, 0, 0, 0, 0, 0, 0]
    );
    assert_eq!(
        &Response::Unsupported.to_bytes()[..],
        &[0x05, 0x07, 0x00, 0x01, 0, 0, 0, 0, 0, 0]
    );
}

#[test]
fn v5_method_selection() {
    assert_eq!(&select(true)[..], &[0x05, 0x00]);
    assert_eq!(&select(false)[..], &[0x05, 0xFF]);
    assert_eq!(read_greeting(&[]), None);
    assert_eq!(read_greeting(&[2, 0]), None);
    assert_eq!(read_greeting(&[0]), Some((false, 1)));
    assert_eq!(read_greeting(&[1, 0]), Some((true, 2)));
    assert_eq!(read_greeting(&[1, 2, 0]), Some((false, 2)));
    assert_eq!(read_greeting(&[3, 1, 2, 0, 9]), Some((true, 4)));
    assert_eq!(read_greeting(&[3, 0, 2, 1]), Some((true, 4)));
}

#[test]
fn v5_read_request_checks_the_version() {
    assert!(matches!(read_request(&[]), Err(Error::NeedMoreData)));
    assert!(matches!(read_request(&[5]), Err(Error::NeedMoreData)));
    match read_request(&[4, 1, 0, 1, 1, 2, 3, 4, 0, 80]) {
        Err(Error::Protocol(message)) => assert_eq!(message, "illegal version number `4`"),
        other => panic!("{:?}", other),
    }
    assert_eq!(
        read_request(&[5, 1, 0, 1, 1, 2, 3, 4, 0, 80, 0xAB]).unwrap(),
        (Request::Connect(SocketAddr::v4(0x01020304, 80)), 10)
    );
}

#[test]
fn v5_prefixes_need_more_data() {
    let frame: [u8; 22] = [
        5, 2, 0, 4, 0, 1, 2, 3, 4, 5, 6, 7, 8, 9, 10, 11, 12, 13, 14, 15, 0x10, 0x11,
    ];
    for k in 0..22 {
        assert!(
            matches!(read_request(&frame[..k]), Err(Error::NeedMoreData)),
            "prefix of {}",
            k
        );
    }
    assert_eq!(
        read_request(&frame).unwrap(),
        (
            Request::Bind(SocketAddr::v6(0x000102030405060708090A0B0C0D0E0F, 0x1011)),
            22
        )
    );
}
