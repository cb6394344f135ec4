use link_p2p::exit::{code_from, Error, DAEMON_NOT_RUNNING, USAGE};
use link_p2p::i18n::Catalog;
use link_p2p::net::{IpAddr, Ipv4Addr, Ipv6Addr, SocketAddr};
use link_p2p::pipe::{keeps_piping, pipe_outcome, read_stream_hello, stream_hello};
use link_p2p::socks5::{
    accept_handshake, encode_target, header_unread, read_target, HandshakeError, HeaderPart, Lookup,
    Phase, Step, Target, TargetError,
};
use link_p2p::ssrf::{check_proxy_target, is_blocked_ip, is_blocked_target};
use link_p2p::stream_ctl::{
    check_version, encode_frame, lock_path, log_path, not_running, parse_header, pid_path,
    read_body, read_frame, runtime_dir, socket_path, FrameError, CTL_MAX_BODY, CTL_VERSION,
};

fn v4(a: u8, b: u8, c: u8, d: u8) -> IpAddr {
    IpAddr::V4(Ipv4Addr::new(a, b, c, d))
}

fn v6(s: [u16; 8]) -> IpAddr {
    IpAddr::V6(Ipv6Addr::new(s[0], s[1], s[2], s[3], s[4], s[5], s[6], s[7]))
}

fn at(ip: IpAddr, port: u16) -> SocketAddr {
    SocketAddr { ip, port }
}

fn is_addr(t: &Target, want: SocketAddr) -> bool {
    matches!(t, Target::Addr(a) if *a == want)
}

fn is_domain(t: &Target, host: &str, port: u16) -> bool {
    matches!(t, Target::Domain(h, p) if h == host && *p == port)
}

#[test]
fn target_round_trip_v4() {
    let want = at(v4(203, 0, 113, 7), 8080);
    let mut buf = Vec::new();
    encode_target(&mut buf, &Target::Addr(want)).unwrap();
    assert_eq!(buf, [1, 203, 0, 113, 7, 0x1F, 0x90]);
    let (got, used) = read_target(&buf).unwrap();
    assert!(is_addr(&got, want));
    assert_eq!(used, buf.len(), "no trailing bytes");
}

#[test]
fn target_round_trip_v6() {
    let want = at(v6([0x2001, 0xdb8, 0, 0, 0, 0, 0, 1]), 443);
    let mut buf = Vec::new();
    encode_target(&mut buf, &Target::Addr(want)).unwrap();
    assert_eq!(buf[0], 4);
    assert_eq!(buf.len(), 1 + 16 + 2);
    let (got, used) = read_target(&buf).unwrap();
    assert!(is_addr(&got, want));
    assert_eq!(used, buf.len());
}

#[test]
fn target_round_trip_domain() {
    let host = "internal-x.example";
    let mut buf = Vec::new();
    encode_target(&mut buf, &Target::Domain(host.to_string(), 80)).unwrap();
    assert_eq!(buf[0], 3);
    assert_eq!(buf[1], host.len() as u8);
    let (got, used) = read_target(&buf).unwrap();
    assert!(is_domain(&got, host, 80));
    assert_eq!(used, buf.len());
}

#[test]
fn domain_longer_than_255_bytes_is_rejected() {
    let mut buf = Vec::new();
    let err = encode_target(&mut buf, &Target::Domain("x".repeat(300), 80)).unwrap_err();
    assert!(err.message(&Catalog::english()).contains("300"));
}

#[test]
fn unknown_address_type_is_rejected() {
    let err = read_target(&[9, 1, 2, 3, 4, 0, 80]).unwrap_err();
    assert!(err.message(&Catalog::english()).contains('9'));
}

#[test]
fn truncated_header_is_an_error() {
    assert!(read_target(&[1, 0, 0]).is_err());
    assert_eq!(read_target(&[3, 2, 0xff, 0xff, 0, 80]).unwrap_err(), TargetError::DomainNotUtf8);
}

fn hand(chunks: &[&[u8]]) -> (Vec<u8>, Result<Target, HandshakeError>) {
    let mut phase = Phase::Greeting;
    let mut sent = Vec::new();
    let mut input: Vec<u8> = chunks.concat();
    loop {
        let rest = input.split_off(phase.wanted());
        let step = accept_handshake(phase, &input);
        input = rest;
        match step {
            Step::Continue(reply, next) => {
                sent.extend(reply);
                phase = next;
            },
            Step::Done(reply, t) => {
                sent.extend(reply);
                return (sent, Ok(t));
            },
            Step::Refused(reply, e) => {
                sent.extend(reply);
                return (sent, Err(e));
            },
        }
    }
}

#[test]
fn handshake_ok_with_no_auth_and_v4_connect() {
    let (sent, got) = hand(&[
        &[0x05, 0x01, 0x00],
        &[0x05, 0x01, 0x00, 0x01, 203, 0, 113, 7, 0x1F, 0x90],
    ]);
    assert_eq!(&sent[0..2], &[0x05, 0x00]);
    let rep = &sent[2..12];
    assert_eq!(&rep[0..2], &[0x05, 0x00]);
    assert_eq!(rep[3], 0x01);
    assert!(is_addr(&got.unwrap(), at(v4(203, 0, 113, 7), 8080)));
}

#[test]
fn handshake_ok_with_domain_connect() {
    let host = b"internal-x";
    let (sent, got) = hand(&[
        &[0x05, 0x01, 0x00],
        &[0x05, 0x01, 0x00, 0x03, host.len() as u8],
        host,
        &[0x00, 0x50],
    ]);
    assert_eq!(&sent[0..2], &[0x05, 0x00]);
    assert_eq!(&sent[2..4], &[0x05, 0x00]);
    assert!(is_domain(&got.unwrap(), "internal-x", 80));
}

#[test]
fn no_auth_method_must_be_offered() {
    let (sent, got) = hand(&[&[0x05, 0x01, 0x02]]);
    assert_eq!(sent, [0x05, 0xFF]);
    assert_eq!(got.unwrap_err(), HandshakeError::NoAcceptableMethod);
}

#[test]
fn non_socks5_version_is_rejected() {
    let (_, got) = hand(&[&[0x04, 0x01, 0x00]]);
    assert_eq!(got.unwrap_err(), HandshakeError::Version(4));
}

#[test]
fn non_connect_command_gets_command_not_supported() {
    let (sent, got) = hand(&[
        &[0x05, 0x01, 0x00],
        &[0x05, 0x02, 0x00, 0x01, 1, 2, 3, 4, 0, 80],
    ]);
    assert_eq!(&sent[0..2], &[0x05, 0x00]);
    assert_eq!(&sent[2..4], &[0x05, 0x07]);
    assert_eq!(sent.len(), 2 + 10);
    assert_eq!(got.unwrap_err(), HandshakeError::Command(2));
}

#[test]
fn unsupported_address_type_gets_reply_code_0x08() {
    let (sent, got) = hand(&[
        &[0x05, 0x01, 0x00],
        &[0x05, 0x01, 0x00, 0x02, 1, 2, 3, 4, 0, 80],
    ]);
    assert_eq!(&sent[2..4], &[0x05, 0x08]);
    assert_eq!(sent.len(), 2 + 10);
    assert_eq!(got.unwrap_err(), HandshakeError::AddressType(2));
}

#[test]
fn proxy_target_ssrf_guard() {
    for ip in [
        v4(127, 0, 0, 1),
        v4(10, 1, 2, 3),
        v4(172, 16, 0, 1),
        v4(172, 31, 255, 255),
        v4(192, 168, 1, 1),
        v4(100, 64, 0, 1),
        v4(100, 127, 255, 255),
        v4(169, 254, 169, 254),
        v4(0, 0, 0, 0),
        v4(224, 0, 0, 1),
        v6([0, 0, 0, 0, 0, 0, 0, 1]),
        v6([0, 0, 0, 0, 0, 0, 0, 0]),
        v6([0xfc00, 0, 0, 0, 0, 0, 0, 1]),
        v6([0xfd12, 0x3456, 0, 0, 0, 0, 0, 1]),
        v6([0xfe80, 0, 0, 0, 0, 0, 0, 1]),
        v6([0xff02, 0, 0, 0, 0, 0, 0, 1]),
    ] {
        assert!(is_blocked_target(at(ip, 80)), "{ip:?} should be blocked");
    }
    for ip in [
        v4(8, 8, 8, 8),
        v4(203, 0, 113, 7),
        v4(100, 63, 255, 255),
        v4(100, 128, 0, 1),
        v6([0x2606, 0x4700, 0x4700, 0, 0, 0, 0, 0x1111]),
        v6([0x2001, 0xdb8, 0, 0, 0, 0, 0, 1]),
    ] {
        assert!(!is_blocked_target(at(ip, 80)), "{ip:?} should pass");
    }
    assert!(check_proxy_target(at(v4(127, 0, 0, 1), 80), false).is_err());
    assert!(check_proxy_target(at(v4(10, 0, 0, 1), 80), false).is_err());
    assert!(check_proxy_target(at(v4(8, 8, 8, 8), 80), false).is_ok());
    assert_eq!(
        check_proxy_target(at(v4(8, 8, 8, 8), 80), false).unwrap().addr(),
        at(v4(8, 8, 8, 8), 80)
    );
    assert!(check_proxy_target(at(v4(127, 0, 0, 1), 80), true).is_ok());
    assert!(!is_blocked_target(at(v4(8, 8, 8, 8), 0)));
    assert!(check_proxy_target(at(v4(8, 8, 8, 8), 0), false).is_ok());
    assert!(is_blocked_ip(v4(192, 88, 99, 1)));
    assert!(is_blocked_ip(v4(192, 88, 99, 255)));
}

fn mapped(a: u8, b: u8, c: u8, d: u8) -> IpAddr {
    v6([0, 0, 0, 0, 0, 0xffff, (a as u16) * 256 + b as u16, (c as u16) * 256 + d as u16])
}

fn compatible(a: u8, b: u8, c: u8, d: u8) -> IpAddr {
    v6([0, 0, 0, 0, 0, 0, (a as u16) * 256 + b as u16, (c as u16) * 256 + d as u16])
}

#[test]
fn ipv4_mapped_and_embedded_blocked() {
    assert!(is_blocked_ip(mapped(127, 0, 0, 1)));
    assert!(is_blocked_ip(mapped(10, 0, 0, 1)));
    assert!(is_blocked_ip(mapped(169, 254, 169, 254)));
    assert!(!is_blocked_ip(mapped(8, 8, 8, 8)));

    assert!(is_blocked_ip(v6([0x64, 0xff9b, 0, 0, 0, 0, 0xa00, 1])));
    assert!(!is_blocked_ip(v6([0x64, 0xff9b, 0, 0, 0, 0, 0x808, 0x808])));
    assert!(is_blocked_ip(v6([0x2002, 0x0a00, 0x0001, 0, 0, 0, 0, 1])));
    assert!(is_blocked_ip(v6([
        0x2001, 0, 0x4136, 0xe378, 0x8000, 0x63bf, 0x3fff, 0xfdd2
    ])));

    assert_eq!(compatible(10, 0, 0, 1), v6([0, 0, 0, 0, 0, 0, 0xa00, 1]));
    assert!(is_blocked_ip(compatible(10, 0, 0, 1)));
    assert!(!is_blocked_ip(compatible(8, 8, 8, 8)));
    assert!(is_blocked_ip(v6([0; 8])));
    assert!(is_blocked_ip(v6([0, 0, 0, 0, 0, 0, 0, 1])));
}

#[test]
fn blocked_targets_are_named() {
    let e = check_proxy_target(at(v4(10, 0, 0, 1), 80), false).unwrap_err();
    assert!(e.message(&Catalog::english(), "10.0.0.1:80".to_string()).contains("10.0.0.1:80"));
}

#[test]
fn stream_hello_round_trip() {
    let buf = stream_hello();
    assert_eq!(buf.as_slice(), b"LPF1");
    read_stream_hello(&buf).unwrap();
}

#[test]
fn stream_hello_rejects_garbage() {
    let err = read_stream_hello(b"XXXX").unwrap_err();
    let msg = err.message(&Catalog::english());
    assert!(msg.contains("bad stream hello"), "unexpected error: {msg}");
}

#[test]
fn stream_hello_rejects_short_read() {
    let err = read_stream_hello(b"LP").unwrap_err();
    let msg = err.message(&Catalog::english());
    assert!(msg.contains("reading stream hello"), "unexpected error: {msg}");
}

#[test]
fn a_pipe_ends_when_both_sides_have() {
    let fail = || Some(Err(Error::msg("gone".to_string())));
    assert!(keeps_piping(&None, &None));
    assert!(keeps_piping(&Some(Ok(3)), &None));
    assert!(!keeps_piping(&Some(Ok(3)), &Some(Ok(4))));
    assert!(!keeps_piping(&fail(), &None));
    assert_eq!(pipe_outcome(Some(Ok(3)), Some(Ok(4))).result.unwrap(), (3, 4));
    assert!(pipe_outcome(fail(), None).result.is_err());
}

#[test]
fn not_running_code() {
    assert_eq!(code_from(&not_running(&Catalog::english())), DAEMON_NOT_RUNNING);
}

#[test]
fn rejects_bad_magic() {
    let mut bad = b"XXXX".to_vec();
    bad.push(CTL_VERSION);
    bad.extend_from_slice(&0u32.to_be_bytes());
    let err = read_body(&Catalog::english(), &bad).unwrap_err();
    let msg = err.report().to_ascii_lowercase();
    assert!(msg.contains("magic") || msg.contains("spc1"), "{msg}");
}

#[test]
fn rejects_version_mismatch() {
    let frame = encode_frame(CTL_VERSION + 1, b"{\"op\":\"status\"}").unwrap();
    let err = read_body(&Catalog::english(), &frame).unwrap_err();
    assert_eq!(code_from(&err), USAGE);
    assert_eq!(err.report(), "stream call daemon protocol mismatch (daemon v2, CLI v1)");
    assert!(check_version(&Catalog::english(), CTL_VERSION).is_ok());
}

#[test]
fn encode_rejects_oversized_body() {
    let body = vec![0u8; (CTL_MAX_BODY as usize) + 1];
    assert!(encode_frame(CTL_VERSION, &body).is_err());
}

#[test]
fn frames_round_trip() {
    let frame = encode_frame(CTL_VERSION, b"hello").unwrap();
    assert_eq!(frame, b"SPC1\x01\x00\x00\x00\x05hello");
    let (version, body, used) = read_frame(&frame).unwrap();
    assert_eq!((version, body.as_slice(), used), (CTL_VERSION, b"hello".as_slice(), 14));
    assert_eq!(parse_header(&frame[..9]).unwrap(), (CTL_VERSION, 5));
    assert_eq!(read_body(&Catalog::english(), &frame).unwrap(), b"hello");
    assert!(matches!(read_frame(&frame[..7]).unwrap_err(), FrameError::Truncated(_)));
    let mut huge = frame;
    huge[5] = 0xff;
    assert_eq!(read_frame(&huge).unwrap_err(), FrameError::BodyOverMax);
}

#[test]
fn daemon_files_lie_together() {
    let names: Vec<String> = [
        socket_path(true, true),
        pid_path(true, true),
        lock_path(true, true),
        log_path(true, true),
    ]
    .into_iter()
    .map(|p| p.parts.last().unwrap().clone())
    .collect();
    assert_eq!(names, vec!["call.sock", "call.pid", "call.lock", "call.log"]);
    assert_eq!(runtime_dir(true, true).parts, vec!["link-p2p"]);
}

#[test]
fn a_domain_is_its_first_address() {
    let catalog = Catalog::english();
    let (a, b) = (at(v4(192, 0, 2, 1), 80), at(v4(192, 0, 2, 2), 80));
    let domain = Target::Domain("host".to_string(), 80);
    assert_eq!(domain.resolve(&catalog, Lookup::Found(vec![a, b])).unwrap(), a);
    assert_eq!(Target::Addr(b).resolve(&catalog, Lookup::TimedOut).unwrap(), b);
    let e = domain.resolve(&catalog, Lookup::Found(Vec::new())).unwrap_err();
    assert_eq!(e.message(), "no addresses for host");
    let e = domain.resolve(&catalog, Lookup::TimedOut).unwrap_err();
    assert_eq!(e.message(), "timed out resolving host after 10 seconds");
    let e = domain.resolve(&catalog, Lookup::Failed("no such name".to_string())).unwrap_err();
    assert_eq!(e.report(), "resolving host: no such name");
}

#[test]
fn domains_that_are_not_text_are_reported_with_the_cause() {
    let catalog = Catalog::english();
    let header = [3, 2, b'a', 0xff, 0, 80];
    let e = read_target(&header).unwrap_err();
    assert_eq!(
        e.error(&catalog, &header).report(),
        "non-utf8 domain in target header: invalid utf-8 sequence of 1 bytes from index 1"
    );
    let e = HandshakeError::DomainNotUtf8.error(&catalog, &[0xff]);
    assert_eq!(
        e.report(),
        "non-utf8 domain in SOCKS5 request: invalid utf-8 sequence of 1 bytes from index 0"
    );
    let e = HandshakeError::Version(4).error(&catalog, &[4, 1]);
    assert_eq!(e.report(), "unsupported SOCKS version 4 (only SOCKS5 is supported)");
}

#[test]
fn a_header_that_ends_is_reported_by_the_part_that_is_missing() {
    let catalog = Catalog::english();
    let ends = |header: &[u8]| {
        let e = read_target(header).unwrap_err();
        (e, e.error(&catalog, header).report())
    };
    let number = "unexpected end of file";
    assert_eq!(
        ends(&[]),
        (
            TargetError::Truncated(1, HeaderPart::Kind),
            "reading target header: unexpected end of file".to_string()
        )
    );
    assert_eq!(
        ends(&[1, 10, 0]),
        (TargetError::Truncated(5, HeaderPart::Run), "early eof".to_string())
    );
    assert_eq!(
        ends(&[1, 10, 0, 0, 1, 80]),
        (TargetError::Truncated(7, HeaderPart::Number), number.to_string())
    );
    assert_eq!(ends(&[4; 17]).0, TargetError::Truncated(19, HeaderPart::Number));
    assert_eq!(ends(&[4; 16]).0, TargetError::Truncated(17, HeaderPart::Run));
    assert_eq!(ends(&[3]).0, TargetError::Truncated(2, HeaderPart::Number));
    assert_eq!(ends(&[3, 2, b'a']).0, TargetError::Truncated(4, HeaderPart::Run));
    assert_eq!(ends(&[3, 1, b'a', 0]).0, TargetError::Truncated(5, HeaderPart::Number));
    assert_eq!(std::io::Error::from(std::io::ErrorKind::UnexpectedEof).to_string(), number);
    assert_eq!(header_unread(&catalog, 0, "reset".to_string()).report(), "reading target header: reset");
    assert_eq!(header_unread(&catalog, 3, "reset".to_string()).report(), "reset");
}

#[test]
fn handshakes_that_break_off_are_reported_by_phase() {
    let catalog = Catalog::english();
    let broken = |phase: Phase| phase.unread(&catalog, "reset".to_string()).report();
    assert_eq!(broken(Phase::Greeting), "reading SOCKS5 greeting: reset");
    assert_eq!(broken(Phase::Methods(2)), "reset");
    assert_eq!(broken(Phase::Request), "reading SOCKS5 request: reset");
    assert_eq!(broken(Phase::AddressV4), "reset");
    let unsent = |why: HandshakeError| why.unsent(&catalog, &[], "reset".to_string()).report();
    assert_eq!(unsent(HandshakeError::NoAcceptableMethod), "sending SOCKS5 method selection: reset");
    assert_eq!(unsent(HandshakeError::Command(3)), "only CONNECT is supported (got command 3)");
}

#[test]
fn frames_and_greetings_that_end_are_reported_with_the_cause() {
    let catalog = Catalog::english();
    let frame = encode_frame(CTL_VERSION, b"hello").unwrap();
    let report = |b: &[u8]| read_body(&catalog, b).unwrap_err().report();
    assert_eq!(report(&frame[..7]), "read control header: early eof");
    assert_eq!(report(&frame[..12]), "read control body: early eof");
    assert_eq!(
        FrameError::BodyTooLarge.error(&catalog).report(),
        format!("control body too large: {}", u32::try_from(u64::MAX).unwrap_err())
    );
    let e = read_stream_hello(b"LP").unwrap_err().error(&catalog);
    assert_eq!(e.report(), "reading stream hello: early eof");
}
