use iroh::SecretKey;
use link_p2p::call_cmd::{parse_call_args, CallCommand};
use link_p2p::contacts::{add_contact, encode_short_code, Contact, ContactBook};
use link_p2p::daemon::{
    after_probe, already_running, check_not_running, error_report, expect_ok, inherited_keys,
    is_worker_process, names_a_peer, next_call_step, ok_report, plan_up, probe_outcome, ready_line, ready_outcome,
    ready_timed_out, ready_timeout, relays_from_env, request_timeout, ring_output, says_connected,
    session_name, started_lines, status_lines, waits_for_stop, worker_env, CallAction, CallEvent, CallNote, Liveness, PidRecord,
    RingOutput, UpOpts, UpPlan, WorkerSetup,
};
use link_p2p::endpoint::EndpointId;
use link_p2p::exit::{code_from, CONNECT, DAEMON_NOT_RUNNING, OTHER, USAGE};
use link_p2p::i18n::Catalog;
use link_p2p::net::{IpAddr, Ipv4Addr, SocketAddr};
use link_p2p::phone::{
    dial_target, incoming_message, queued, unreachable_message, CallCmd, CtlPlan, Incoming, Phone,
    Ringing,
};
use link_p2p::runtime::CloseReason;
use link_p2p::stream_ctl::{CtlRequest, CtlResponse, StreamPeer};
use link_p2p::time::Duration;

fn id_of(seed: u8) -> EndpointId {
    EndpointId { bytes: *SecretKey::from_bytes(&[seed; 32]).public().as_bytes() }
}

fn addr(port: u16) -> SocketAddr {
    SocketAddr { ip: IpAddr::V4(Ipv4Addr::new(127, 0, 0, 1)), port }
}

fn book() -> ContactBook {
    let mut b = ContactBook::new();
    b.insert(
        "alice".to_string(),
        Contact { id: id_of(1).to_text(), relays: Vec::new(), addrs: Vec::new() },
    );
    b
}

fn call(seed: u8, handle: u64, since: u64) -> Ringing {
    Ringing {
        handle,
        peer: id_of(seed),
        since: Duration::from_secs(since),
        since_unix_ms: 1000 + since,
    }
}

fn phone() -> Phone {
    Phone::new("abc".to_string(), Some(addr(1)), None)
}

fn phase(p: &Phone) -> String {
    match p.status(0) {
        CtlResponse::Status { phase, .. } => phase,
        other => panic!("unexpected {other:?}"),
    }
}

fn strings(v: &[&str]) -> Vec<String> {
    v.iter().map(|s| s.to_string()).collect()
}

#[test]
fn known_contacts_are_put_through_and_strangers_ring() {
    let b = book();
    let mut p = phone();
    assert_eq!(p.on_incoming(&b, call(2, 7, 0)), Incoming::Ring);
    assert_eq!(phase(&p), "ringing");
    assert_eq!(p.on_incoming(&b, call(1, 8, 0)), Incoming::Connect);
    assert_eq!(phase(&p), "connected");
    assert_eq!(p.on_incoming(&b, call(1, 9, 0)), Incoming::Busy);
    match p.peers() {
        CtlResponse::Peers { peers } => assert_eq!(peers[0].id, id_of(1).to_text()),
        other => panic!("unexpected {other:?}"),
    }
    p.on_closed();
    assert_eq!(phase(&p), "idle");
    assert!(matches!(p.peers(), CtlResponse::Peers { peers } if peers.is_empty()));
}

#[test]
fn ringing_calls_are_answered_refused_or_time_out() {
    let b = book();
    let mut p = phone();
    p.on_incoming(&b, call(2, 7, 0));
    p.on_incoming(&b, call(3, 8, 10));
    p.on_incoming(&b, call(4, 9, 20));
    assert!(p.accept(&b, "nobody").is_none());
    assert_eq!(p.reject(&b, &id_of(3).to_text()).unwrap().handle, 8);
    assert_eq!(phase(&p), "ringing");
    assert!(p.on_tick(Duration::from_secs(120)).is_empty());
    let gone = p.on_tick(Duration::from_secs(121));
    assert_eq!(gone.iter().map(|c| c.handle).collect::<Vec<_>>(), vec![7]);
    assert_eq!(phase(&p), "ringing");
    assert_eq!(p.accept(&b, &id_of(4).to_text()).unwrap().handle, 9);
    assert_eq!(phase(&p), "connected");
}

#[test]
fn the_last_refusal_makes_the_phone_idle() {
    let b = book();
    let mut p = phone();
    p.on_incoming(&b, call(2, 7, 0));
    p.reject(&b, &id_of(2).to_text());
    assert_eq!(phase(&p), "idle");
    p.on_incoming(&b, call(2, 8, 0));
    assert_eq!(p.on_tick(Duration::from_secs(500)).len(), 1);
    assert_eq!(phase(&p), "idle");
}

#[test]
fn dials_use_the_defaults_and_wait_their_turn() {
    let b = book();
    let mut p = phone();
    assert_eq!(p.begin_dial(None, Some(addr(5))), Some((Some(addr(1)), Some(addr(5)))));
    assert_eq!(phase(&p), "dialing");
    p.dial_failed();
    assert_eq!(phase(&p), "idle");
    p.begin_dial(Some(addr(2)), None);
    p.dial_connected(id_of(1));
    assert_eq!(phase(&p), "connected");
    assert!(p.begin_dial(None, None).is_none());
    assert_eq!(p.session_defaults(), (Some(addr(1)), None));
    let (id, addrs) = dial_target(&b, "alice", vec![addr(9)]).unwrap();
    assert_eq!((id.bytes, addrs), (id_of(1).bytes, vec![addr(9)]));
    assert!(dial_target(&b, "carol", Vec::new()).is_err());
}

#[test]
fn requests_are_answered_or_queued() {
    let catalog = Catalog::english();
    let mut p = phone();
    p.on_incoming(&book(), call(2, 7, 5));
    match p.on_request(CtlRequest::Status, 3) {
        CtlPlan::Answer(CtlResponse::Status { role, uptime_secs, session, listen, pending_calls, .. }) => {
            assert_eq!((role.as_str(), uptime_secs, session.as_str()), ("phone", 3, "abc"));
            assert_eq!(listen, Some(addr(1)));
            assert_eq!(pending_calls[0].peer, id_of(2).to_text());
            assert_eq!((pending_calls[0].since_unix_ms, pending_calls[0].direction.as_str()), (1005, "in"));
        },
        other => panic!("unexpected {other:?}"),
    }
    assert!(matches!(p.on_request(CtlRequest::Peers, 0), CtlPlan::Answer(CtlResponse::Peers { .. })));
    assert!(matches!(
        p.on_request(CtlRequest::Shutdown, 0),
        CtlPlan::Queue { cmd: CallCmd::Shutdown, wait: true }
    ));
    let dial = CtlRequest::Call { to: "x".to_string(), listen: None, forward: None, to_addr: vec![] };
    assert!(matches!(
        p.on_request(dial, 0),
        CtlPlan::Queue { cmd: CallCmd::Dial { .. }, wait: false }
    ));
    assert!(matches!(
        p.on_request(CtlRequest::Accept { peer: "x".to_string() }, 0),
        CtlPlan::Queue { cmd: CallCmd::Accept { .. }, wait: true }
    ));
    assert!(matches!(
        p.on_request(CtlRequest::Reject { peer: "x".to_string() }, 0),
        CtlPlan::Queue { cmd: CallCmd::Reject { .. }, wait: true }
    ));
    assert!(matches!(queued(&catalog, true), CtlResponse::Success));
    assert!(matches!(queued(&catalog, false), CtlResponse::Failure { code, .. } if code == OTHER));
    assert!(incoming_message(&catalog, &id_of(2)).contains(&id_of(2).short_text()));
    assert_eq!(
        unreachable_message(&catalog, "bob", "no route".to_string()),
        "could not reach bob: no route"
    );
}

#[test]
fn call_verbs_are_read() {
    let catalog = Catalog::english();
    let parse = |words: &[&str]| {
        parse_call_args(&catalog, &strings(words), Some(addr(1)), None, vec![addr(2)], true, false)
    };
    assert!(matches!(parse(&["up"]).unwrap(), CallCommand::Up { listen: Some(_), foreground: false, .. }));
    assert!(matches!(parse(&["down"]).unwrap(), CallCommand::Down));
    assert!(matches!(parse(&["status", "x"]).unwrap(), CallCommand::Status));
    assert!(matches!(parse(&["ring"]).unwrap(), CallCommand::Ring));
    assert!(matches!(parse(&["accept", "bob"]).unwrap(), CallCommand::Accept { peer } if peer == "bob"));
    assert!(matches!(parse(&["reject", "bob"]).unwrap(), CallCommand::Reject { peer } if peer == "bob"));
    match parse(&["alice"]).unwrap() {
        CallCommand::Dial { to, listen, to_addr, no_wait, .. } => {
            assert_eq!((to.as_str(), listen, to_addr, no_wait), ("alice", Some(addr(1)), vec![addr(2)], true));
        },
        other => panic!("unexpected {other:?}"),
    }
    for bad in [&[][..], &["up", "x"], &["accept"], &["reject"], &["alice", "bob"]] {
        let e = parse(bad).unwrap_err();
        assert_eq!(code_from(&e), USAGE);
        assert!(e.message().starts_with("usage: call"));
    }
}

#[test]
fn daemons_need_an_identity_file() {
    let catalog = Catalog::english();
    let opts = |foreground: bool| UpOpts { listen: None, forward: None, foreground };
    assert_eq!(plan_up(&catalog, &opts(true), false).unwrap(), UpPlan::Foreground);
    assert_eq!(plan_up(&catalog, &opts(false), true).unwrap(), UpPlan::Background);
    assert_eq!(code_from(&plan_up(&catalog, &opts(false), false).unwrap_err()), USAGE);
    assert!(is_worker_process(true, true));
    assert!(!is_worker_process(true, false));
    assert!(!is_worker_process(false, true));
}

fn status(session: &str, phase: &str) -> CtlResponse {
    let mut p = Phone::new(session.to_string(), None, None);
    if phase == "connected" {
        p.dial_connected(id_of(1));
    }
    p.status(9)
}

fn running(session: &str, phase: &str) -> Liveness {
    Liveness::Running { status: status(session, phase) }
}

#[test]
fn probes_tell_whether_a_daemon_runs() {
    let catalog = Catalog::english();
    let probe = |a: Option<CtlResponse>| probe_outcome(&catalog, a, "Ok".to_string());
    assert!(matches!(probe(None).unwrap(), Liveness::NotRunning));
    assert!(matches!(probe(Some(status("s", "idle"))).unwrap(), Liveness::Running { .. }));
    assert!(probe(Some(CtlResponse::Success)).unwrap_err().message().ends_with(": Ok"));
    assert!(check_not_running(&catalog, &Liveness::NotRunning).is_ok());
    assert_eq!(code_from(&check_not_running(&catalog, &running("s", "idle")).unwrap_err()), USAGE);
    assert_eq!(code_from(&already_running(&catalog)), USAGE);
    assert_eq!(code_from(&request_timeout(&catalog)), CONNECT);
}

#[test]
fn commands_succeed_or_carry_the_daemons_code() {
    let catalog = Catalog::english();
    let expect = |a: CtlResponse| expect_ok(&catalog, a, "Peers".to_string());
    assert!(expect(CtlResponse::Success).is_ok());
    let e = expect(CtlResponse::Failure { code: 7, message: "no".to_string() }).unwrap_err();
    assert_eq!((code_from(&e), e.message()), (7, "no".to_string()));
    let e = expect(CtlResponse::Peers { peers: vec![] }).unwrap_err();
    assert_eq!(e.message(), "unexpected control response: Peers");
}

#[test]
fn workers_are_told_by_their_environment() {
    let mut s = WorkerSetup {
        ready: "127.0.0.1:5".to_string(),
        session: "abc".to_string(),
        nonce: "n0".to_string(),
        listen: None,
        forward: Some("127.0.0.1:22".to_string()),
        relay: strings(&["https://a", "https://b"]),
        no_n0: true,
        relay_only: false,
    };
    let vars: Vec<String> = worker_env(&s).iter().map(|v| format!("{}={}", v.key, v.value)).collect();
    assert_eq!(
        vars,
        strings(&[
            "LINK_P2P_CALL_WORKER=1",
            "LINK_P2P_CALL_READY=127.0.0.1:5",
            "LINK_P2P_CALL_SESSION=abc",
            "LINK_P2P_CALL_READY_NONCE=n0",
            "LINK_P2P_CALL_FORWARD=127.0.0.1:22",
            "LINK_P2P_RELAY=https://a,https://b",
            "LINK_P2P_NO_N0_RELAYS=1",
        ])
    );
    s.relay = Vec::new();
    assert_eq!(worker_env(&s).len(), 6);
    assert_eq!(inherited_keys()[6], "XDG_CONFIG_HOME");
    assert_eq!(
        relays_from_env(&Some(" https://a ,,https://b".to_string())),
        strings(&["https://a", "https://b"])
    );
    assert!(relays_from_env(&None).is_empty());
}

#[test]
fn workers_report_with_their_nonce() {
    let catalog = Catalog::english();
    let rest = ready_line("n0", &ok_report("n0")).unwrap();
    assert!(ready_outcome(&catalog, &rest).is_ok());
    assert!(ready_line("n1", &ok_report("n0")).is_none());
    let rest = ready_line("n0", &error_report("n0", "port in use")).unwrap();
    let e = ready_outcome(&catalog, &rest).unwrap_err();
    assert_eq!(e.message(), "call daemon failed to start: ERROR: port in use");
    assert!(ready_timed_out(&catalog).message().starts_with("timed out"));
}

#[test]
fn ready_waits_can_be_set() {
    let wait = |s: &str| ready_timeout(&Some(s.to_string()));
    assert_eq!(ready_timeout(&None), Duration::from_secs(30));
    assert_eq!(wait("250"), Duration::from_millis(250));
    assert_eq!(wait("+250"), Duration::from_millis(250));
    assert_eq!(wait("soon"), Duration::from_secs(30));
    assert_eq!(wait(""), Duration::from_secs(30));
    assert_eq!(wait("18446744073709551616"), Duration::from_secs(30));
}

#[test]
fn a_started_daemon_must_be_the_one() {
    let catalog = Catalog::english();
    assert!(after_probe(&catalog, &running("s", "idle"), "s", true).unwrap());
    assert!(after_probe(&catalog, &running("t", "idle"), "s", true).is_err());
    assert!(!after_probe(&catalog, &Liveness::NotRunning, "s", true).unwrap());
    assert!(after_probe(&catalog, &Liveness::NotRunning, "s", false).is_err());
}

#[test]
fn the_pid_file_names_the_daemon() {
    let r = PidRecord { pid: 42, session: "abc".to_string(), started_unix_ms: 7 };
    assert_eq!(r.encode(), "pid=42\nsession=abc\nstarted_unix_ms=7\n");
    assert_eq!(session_name(&[0, 1, 2, 3, 4, 5, 0xab, 0xff]), "000102030405abff");
}

#[test]
fn the_status_is_shown() {
    let catalog = Catalog::english();
    let lines = started_lines(&catalog, 42, Some("/x/call.log".to_string()));
    assert_eq!(lines[0].text, "stream call daemon started (pid 42)");
    assert_eq!(lines[1].text, "logs: /x/call.log");
    let lines = status_lines(&catalog, &running("s", "idle"), Some("a:1".to_string()), None).unwrap();
    let texts: Vec<&str> = lines.iter().map(|l| l.text.as_str()).collect();
    assert_eq!(texts, vec!["role phone  phase idle", "uptime 9s  session s", "listen a:1"]);
    let e = status_lines(&catalog, &Liveness::NotRunning, None, None).unwrap_err();
    assert_eq!(code_from(&e), DAEMON_NOT_RUNNING);
}

#[test]
fn ringing_calls_are_listed() {
    let catalog = Catalog::english();
    assert!(matches!(
        ring_output(&catalog, &running("s", "idle")).unwrap(),
        RingOutput::Nothing(s) if s == "no ringing calls"
    ));
    let mut p = phone();
    p.on_incoming(&book(), call(2, 7, 5));
    let live = Liveness::Running { status: p.status(0) };
    match ring_output(&catalog, &live).unwrap() {
        RingOutput::Calls(v) => assert_eq!(v, vec![format!("{}\t1005", id_of(2).to_text())]),
        other => panic!("unexpected {other:?}"),
    }
    assert!(status_lines(&catalog, &live, None, None).unwrap()[2].text.starts_with("1 ringing call(s)"));
    let odd = Liveness::Running { status: CtlResponse::Success };
    assert!(ring_output(&catalog, &odd).is_err());
    let e = ring_output(&catalog, &Liveness::NotRunning).unwrap_err();
    assert_eq!(code_from(&e), DAEMON_NOT_RUNNING);
}

#[test]
fn a_call_starts_a_daemon_and_waits_for_the_answer() {
    let step = |e: CallEvent, no_wait: bool, in_time: bool| next_call_step(&e, no_wait, in_time);
    let status = |phase: &str| CallEvent::Status(running("s", phase));
    assert_eq!(
        step(CallEvent::Probed(Liveness::NotRunning), false, true),
        CallAction::StartDaemon
    );
    assert_eq!(step(CallEvent::Probed(running("s", "idle")), false, true), CallAction::SendCall);
    assert_eq!(step(CallEvent::Started, false, true), CallAction::SendCall);
    assert_eq!(step(CallEvent::Sent, true, true), CallAction::Finish(CallNote::Queued));
    assert_eq!(step(CallEvent::Sent, false, true), CallAction::AskStatus);
    assert_eq!(step(CallEvent::Sent, false, false), CallAction::Finish(CallNote::StillWaiting));
    assert_eq!(step(status("connected"), false, false), CallAction::Finish(CallNote::Connected));
    assert_eq!(step(status("dialing"), false, true), CallAction::AskPeers);
    assert_eq!(step(CallEvent::Peers(None), false, true), CallAction::Pause);
    let peers = CtlResponse::Peers { peers: vec![StreamPeer { id: "x".to_string() }] };
    assert_eq!(
        step(CallEvent::Peers(Some(peers)), false, true),
        CallAction::Finish(CallNote::Connected)
    );
    assert_eq!(step(CallEvent::Paused, false, true), CallAction::AskStatus);
    assert_eq!(step(CallEvent::Paused, false, false), CallAction::Finish(CallNote::StillWaiting));
}

#[test]
fn a_call_stands_when_the_daemon_says_so() {
    assert!(says_connected(&running("s", "connected")));
    assert!(!says_connected(&running("s", "idle")));
    assert!(!says_connected(&Liveness::NotRunning));
    let peers = |n: usize| {
        let v = (0..n).map(|_| StreamPeer { id: "x".to_string() }).collect();
        Some(CtlResponse::Peers { peers: v })
    };
    assert!(names_a_peer(&peers(1)));
    assert!(!names_a_peer(&peers(0)));
    assert!(!names_a_peer(&None));
    let catalog = Catalog::english();
    assert_eq!(CallNote::Connected.line(&catalog, "bob").text, "connected to bob");
    assert_eq!(CallNote::Calling.line(&catalog, "bob").text, "calling bob… waiting for answer");
    assert_eq!(CallNote::Rejected.line(&catalog, "bob").text, "rejected call from bob");
    assert_eq!(CallNote::Stopped.line(&catalog, "").text, "stream call daemon stopped");
}

#[test]
fn saved_peers_are_put_through_from_then_on() {
    let mut b = book();
    let mut p = phone();
    assert_eq!(p.on_incoming(&b, call(5, 1, 0)), Incoming::Ring);
    add_contact(&mut b, "dave".to_string(), &encode_short_code(&id_of(5))).unwrap();
    assert_eq!(p.on_incoming(&b, call(5, 2, 0)), Incoming::Connect);
    p.on_closed();
    assert_eq!(p.accept(&b, &id_of(5).to_text().to_uppercase()).unwrap().handle, 1);
}

#[test]
fn a_busy_phone_says_so() {
    assert_eq!(Incoming::Busy.close_reason(), Some(CloseReason::Busy));
    assert_eq!(Incoming::Ring.close_reason(), None);
    assert_eq!(Incoming::Connect.close_reason(), None);
}

#[test]
fn a_daemon_is_waited_for_while_it_runs() {
    let status = CtlResponse::Success;
    let running = Liveness::Running { status };
    assert!(waits_for_stop(&running, true));
    assert!(!waits_for_stop(&running, false));
    assert!(!waits_for_stop(&Liveness::NotRunning, true));
}
