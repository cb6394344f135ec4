use link_p2p::backoff::{after_open, Backoff, OpenAction, OpenOutcome, Reconnect};
use link_p2p::call::{pauses, streak_after, AcceptLoop};
use link_p2p::exit::{code_from, TIMEOUT, USAGE};
use link_p2p::i18n::Catalog;
use link_p2p::net::{IpAddr, Ipv4Addr, SocketAddr};
use link_p2p::path_kind::PathKind;
use link_p2p::path_monitor::{limit_message, permanent_message, should_nudge, tuning_for, upgraded_message, DirectHistory, Monitor};
use link_p2p::runtime::{
    build_dial_addr, build_endpoint, check_transport, conn_semaphore, endpoint_online_steps,
    install_extra_relays, merge_allow_list, online_timeout, parse_tun_allow, peer_from_stdin,
    reject_relay_only_with_to_addr, resolve_peer_to, CloseReason, PeerTo, RelayBase, Sink, TransportTune, Ui,
};
use link_p2p::time::Duration;
use link_p2p::endpoint::EndpointId;

fn strings(v: &[&str]) -> Vec<String> {
    v.iter().map(|s| s.to_string()).collect()
}

fn id_text(seed: u8) -> String {
    iroh::SecretKey::from_bytes(&[seed; 32]).public().to_string()
}

#[test]
fn backoff_doubles_then_caps() {
    let mut b = Backoff::new(Duration::from_secs(1), Duration::from_secs(30));
    assert_eq!(b.next(), Duration::from_secs(1));
    assert_eq!(b.next(), Duration::from_secs(2));
    assert_eq!(b.next(), Duration::from_secs(4));
    assert_eq!(b.next(), Duration::from_secs(8));
    assert_eq!(b.next(), Duration::from_secs(16));
    assert_eq!(b.next(), Duration::from_secs(30));
    assert_eq!(b.next(), Duration::from_secs(30));
    b.reset();
    assert_eq!(b.next(), Duration::from_secs(1));
}

#[test]
fn backoff_only_resets_after_stable_session() {
    let min = Duration::from_secs(5);
    let mut b = Backoff::new(Duration::from_secs(1), Duration::from_secs(30));
    assert_eq!(b.after_session(Duration::from_millis(50), min), Some(Duration::from_secs(1)));
    assert_eq!(b.after_session(Duration::from_millis(200), min), Some(Duration::from_secs(2)));
    assert_eq!(b.after_session(Duration::from_secs(4), min), Some(Duration::from_secs(4)));
    assert_eq!(b.after_session(Duration::from_secs(5), min), None);
    assert_eq!(b.after_session(Duration::from_millis(10), min), Some(Duration::from_secs(1)));
    let longest = Duration { nanos: link_p2p::time::LONGEST };
    let mut far = Backoff::new(longest, longest);
    assert_eq!(far.after_session(min, min), None);
}

#[test]
fn endpoint_online_steps_install_relays_before_wait() {
    assert_eq!(endpoint_online_steps(), &["install_extra_relays", "wait_online"]);
}

#[test]
fn the_watch_redials_stable_sessions_at_once() {
    let mut w = Reconnect::new(true);
    assert_eq!(w.on_closed(Duration::from_secs(0)), None);
    w.on_connected();
    assert_eq!(w.on_closed(Duration::from_millis(10)), Some(Duration::from_secs(1)));
    assert_eq!(w.on_connect_failed(), Duration::from_secs(2));
    w.on_connected();
    assert_eq!(w.on_closed(Duration::from_secs(6)), None);
    w.on_connected();
    assert_eq!(w.on_closed(Duration::from_secs(1)), Some(Duration::from_secs(1)));
}

#[test]
fn streams_wait_through_reconnects() {
    assert_eq!(after_open(OpenOutcome::Opened), OpenAction::Use);
    assert_eq!(after_open(OpenOutcome::NoConnection), OpenAction::WaitForReconnect);
    assert_eq!(after_open(OpenOutcome::ConnectionLost), OpenAction::WaitForReconnect);
    assert_eq!(after_open(OpenOutcome::Refused), OpenAction::GiveUp);
    assert_eq!(after_open(OpenOutcome::TimedOut), OpenAction::CloseAndWait);
}

#[test]
fn accepting_gives_up_after_three_failures() {
    let mut l = AcceptLoop::new();
    assert!(!l.on_error(false));
    assert!(!l.on_error(false));
    l.on_accepted();
    assert!(!l.on_error(false));
    assert!(!l.on_error(false));
    assert!(l.on_error(false));
    assert!(AcceptLoop::new().on_error(true));
    assert!(!pauses(7));
    assert!(pauses(8));
    assert_eq!(streak_after(4, true), 0);
    assert_eq!(streak_after(4, false), 5);
}

#[test]
fn slow_relays_are_reported_once() {
    let catalog = Catalog::english();
    let mut m = Monitor::start(tuning_for(None), 0, 0, PathKind::Relay);
    let step = Duration::from_secs(30);
    let a = m.on_stats(PathKind::Relay, 600_000, 0, step);
    assert_eq!(a.bps, 20_000);
    assert!(a.warn_limit.is_none());
    let b = m.on_stats(PathKind::Relay, 1_200_000, 0, step);
    let kb = b.warn_limit.unwrap();
    assert!(limit_message(&catalog, kb).contains(&kb.to_string()));
    let c = m.on_stats(PathKind::Relay, 1_800_000, 0, step);
    assert!(c.warn_limit.is_none());
    let d = m.on_stats(PathKind::Direct, 2_400_000, 0, step);
    assert!(d.upgraded);
    assert!(!upgraded_message(&catalog).is_empty());
    assert!(!permanent_message(&catalog).is_empty());
}

#[test]
fn retries_follow_the_history() {
    let t = tuning_for(Some(DirectHistory { direct: 5, total: 10 }));
    assert_eq!((t.upgrade_secs, t.perm_streak), (30, 6));
    let t = tuning_for(Some(DirectHistory { direct: 1, total: 10 }));
    assert_eq!((t.upgrade_secs, t.perm_streak), (90, 2));
    assert_eq!(tuning_for(None).upgrade_secs, 45);
    assert!(should_nudge(PathKind::Relay, false, false));
    assert!(!should_nudge(PathKind::Relay, false, true));
}

#[test]
fn status_lines_go_where_they_may() {
    assert_eq!(Ui { quiet: true, stderr_only: true }.line(), Sink::Nowhere);
    assert_eq!(Ui { quiet: false, stderr_only: true }.line(), Sink::Stderr);
    assert_eq!(Ui { quiet: false, stderr_only: false }.line(), Sink::Stdout);
    assert_eq!(conn_semaphore(0), usize::MAX);
    assert_eq!(conn_semaphore(7), 7);
}

#[test]
fn the_peer_is_named_or_read() {
    let catalog = Catalog::english();
    let to = |s: &str| Some(s.to_string());
    assert!(matches!(resolve_peer_to(&catalog, to(" al "), false, true).unwrap(), PeerTo::Given(s) if s == "al"));
    assert!(matches!(resolve_peer_to(&catalog, to("-"), false, true).unwrap(), PeerTo::FromStdin));
    for (t, stdio, unix) in [(None, false, true), (to("-"), true, true), (to("-"), false, false)] {
        let e = resolve_peer_to(&catalog, t, stdio, unix).unwrap_err();
        assert_eq!(code_from(&e), USAGE);
    }
    assert_eq!(peer_from_stdin(&catalog, "ENDPOINT_ID= ab \n").unwrap(), "ab");
    assert_eq!(peer_from_stdin(&catalog, " cd\n").unwrap(), "cd");
    assert_eq!(code_from(&peer_from_stdin(&catalog, " \n").unwrap_err()), USAGE);
}

#[test]
fn allow_lists_name_ids() {
    let catalog = Catalog::english();
    let env = Some(format!("{} ,, {}", id_text(1), id_text(2)));
    assert_eq!(merge_allow_list(strings(&["x"]), &env), strings(&["x"]));
    let list = merge_allow_list(Vec::new(), &env);
    assert_eq!(list, vec![id_text(1), id_text(2)]);
    let twice = vec![id_text(1), id_text(2), id_text(1)];
    assert_eq!(parse_tun_allow(&catalog, &twice).unwrap().unwrap().len(), 2);
    assert!(parse_tun_allow(&catalog, &Vec::new()).unwrap().is_none());
    let e = parse_tun_allow(&catalog, &strings(&["nope"])).unwrap_err();
    assert_eq!(code_from(&e), USAGE);
    assert_eq!(e.message(), "'nope' is not a valid EndpointId in --allow");
    assert_eq!(e.report(), "'nope' is not a valid EndpointId in --allow: invalid length");
}

#[test]
fn relays_must_be_urls() {
    let catalog = Catalog::english();
    let id = EndpointId { bytes: *iroh::SecretKey::from_bytes(&[1; 32]).public().as_bytes() };
    let addr = SocketAddr { ip: IpAddr::V4(Ipv4Addr::new(10, 0, 0, 1)), port: 7 };
    let d = build_dial_addr(&catalog, id, &strings(&["https://relay.example"]), vec![addr]).unwrap();
    assert_eq!(d.relays, strings(&["https://relay.example"]));
    assert_eq!(d.addrs, vec![addr]);
    let e = build_dial_addr(&catalog, id, &strings(&["not a url"]), Vec::new()).unwrap_err();
    assert_eq!(e.message(), "'not a url' is not a valid RelayUrl");
    assert_eq!(
        e.report(),
        "'not a url' is not a valid RelayUrl: Failed to parse relay URL"
    );
    assert!(build_endpoint(&catalog, &strings(&["not a url"]), false, true).is_err());
    let plan = build_endpoint(&catalog, &strings(&["not a url"]), true, false).unwrap();
    assert_eq!((plan.base, plan.relay_only), (RelayBase::Public, true));
    let (urls, bad) = install_extra_relays(&catalog, &strings(&["https://a.example", "::"]), false);
    assert_eq!(urls, strings(&["https://a.example"]));
    assert!(bad.is_some());
}

#[test]
fn hints_do_not_go_with_relay_only() {
    let catalog = Catalog::english();
    assert!(reject_relay_only_with_to_addr(&catalog, true, 0).is_ok());
    assert!(reject_relay_only_with_to_addr(&catalog, false, 3).is_ok());
    let e = reject_relay_only_with_to_addr(&catalog, true, 1).unwrap_err();
    assert_eq!(code_from(&e), USAGE);
}

#[test]
fn windows_must_fit_quic() {
    let catalog = Catalog::english();
    let tune = |w: u64| TransportTune { cc: None, send_window: None, stream_recv_window: Some(w) };
    assert!(check_transport(&catalog, &tune(1 << 61)).is_ok());
    assert!(check_transport(&catalog, &tune(1 << 62)).is_err());
}

#[test]
fn not_coming_online_is_a_timeout() {
    let e = online_timeout(&Catalog::english(), "link-p2p".to_string(), true, true);
    assert_eq!(code_from(&e), TIMEOUT);
}

#[test]
fn peers_are_told_why_in_fixed_words() {
    let words = [
        (CloseReason::Busy, "busy"),
        (CloseReason::Rejected, "rejected"),
        (CloseReason::RingTimeout, "ring timeout"),
        (CloseReason::Denied, "denied"),
        (CloseReason::TieBreak, "tie-break"),
        (CloseReason::PeerNotAllowed, "peer not allowed"),
        (CloseReason::OpenTimeout, "open_bi timeout"),
    ];
    for (reason, text) in words {
        assert_eq!(reason.as_str(), text);
    }
}
