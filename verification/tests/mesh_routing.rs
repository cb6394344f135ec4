use iroh::SecretKey;
use link_p2p::endpoint::EndpointId;
use link_p2p::exit::{code_from, OTHER, TIMEOUT};
use link_p2p::i18n::Catalog;
use link_p2p::mesh::{
    check_allow, check_peer_vip, is_at_its_vip, takes_from_direct, takes_from_hub, vip_in_mesh, Dial, HubTable,
    Inbound, Out, Route, SpokeMesh,
};
use link_p2p::net::Ipv4Addr;
use link_p2p::packet::{build_icmp_frag_needed, inet_checksum, ipv4_dst, ipv4_src};
use link_p2p::runtime::CloseReason;
use link_p2p::style::Tone;
use link_p2p::time::Duration;
use link_p2p::tun::{
    choose_mtu, connected_lines, control_stream_timeout, ctl_peers, derive_vip, dial_hints,
    hub_target, joined_message, mesh_peer_message, own_vip, refresh_tun_mtu, serve_banner,
    serve_hints, shrunk_message, validate_mtu, vip_exchange_timeout, vip_of_hash, PeerSender,
    RaiseGate, SendStep, SessionEnd, SpokeLoop, SpokeNext, TunLiveState, PTB_RATE_PER_SEC,
};
use link_p2p::tun_net::{
    add_mesh_route, add_peer_route, after_main, command_failed, del_mesh_route, del_peer_route, device_setup,
    ensure_vip_free, list_addresses, powershell_lists, running_message, set_tun_mtu,
    vip_is_listed, Cmd, Platform, RouteChange, RouteNext,
};
use link_p2p::tun_roster::{
    encode_joined, encode_left, encode_snapshot, read_header, read_msg, should_dial, write_msg,
    RosterEntry, RosterError, RosterMsg,
};

fn vip(c: u8, d: u8) -> Ipv4Addr {
    Ipv4Addr::new(172, 24, c, d)
}

fn id_of(seed: u8) -> EndpointId {
    EndpointId { bytes: *SecretKey::from_bytes(&[seed; 32]).public().as_bytes() }
}

fn member(seed: u8, d: u8) -> RosterEntry {
    RosterEntry { vip: vip(0, d), id: id_of(seed) }
}

fn sample_ipv4_tcp(src: Ipv4Addr, dst: Ipv4Addr, total_len: u16) -> Vec<u8> {
    let mut p = vec![0u8; total_len as usize];
    p[0] = 0x45;
    p[2..4].copy_from_slice(&total_len.to_be_bytes());
    p[8] = 64;
    p[9] = 6;
    p[12..16].copy_from_slice(&[src.a, src.b, src.c, src.d]);
    p[16..20].copy_from_slice(&[dst.a, dst.b, dst.c, dst.d]);
    let csum = inet_checksum(&p[..20]);
    p[10] = (csum >> 8) as u8;
    p[11] = (csum & 0xff) as u8;
    p[20..28].copy_from_slice(&[0x04, 0xd2, 0x00, 0x50, 1, 2, 3, 4]);
    p
}

#[test]
fn inet_checksum_known_vector() {
    assert_eq!(inet_checksum(&[]), 0xffff);
    assert_eq!(inet_checksum(&[0, 0]), 0xffff);
}

#[test]
fn odd_bytes_are_high_halves() {
    assert_eq!(inet_checksum(&[0x12]), !0x1200);
    assert_eq!(inet_checksum(&[0xff, 0xff, 0, 1]), !1);
}

#[test]
fn icmp_frag_needed_wire_shape() {
    let src = vip(0, 1);
    let dst = vip(0, 2);
    let gw = vip(0, 1);
    let orig = sample_ipv4_tcp(src, dst, 1280);
    let pkt = build_icmp_frag_needed(&orig, 1162, gw).expect("build");

    assert_eq!(pkt[0] >> 4, 4);
    assert_eq!(pkt[0] & 0x0f, 5);
    assert_eq!(pkt[9], 1);
    assert_eq!(&pkt[12..16], &[gw.a, gw.b, gw.c, gw.d]);
    assert_eq!(&pkt[16..20], &[src.a, src.b, src.c, src.d]);

    let icmp = &pkt[20..];
    assert_eq!(icmp[0], 3);
    assert_eq!(icmp[1], 4);
    assert_eq!(u16::from_be_bytes([icmp[4], icmp[5]]), 0);
    assert_eq!(u16::from_be_bytes([icmp[6], icmp[7]]), 1162);
    assert_eq!(&icmp[8..28], &orig[..20]);
    assert_eq!(&icmp[28..36], &orig[20..28]);

    assert_eq!(inet_checksum(&pkt[..20]), 0);
    assert_eq!(inet_checksum(icmp), 0);
}

#[test]
fn icmp_frag_needed_skips_icmp_and_bad_src() {
    let gw = vip(0, 1);
    let mut icmp_orig = sample_ipv4_tcp(vip(0, 1), vip(0, 2), 40);
    icmp_orig[9] = 1;
    assert!(build_icmp_frag_needed(&icmp_orig, 1162, gw).is_none());

    let mcast = sample_ipv4_tcp(Ipv4Addr::new(224, 0, 0, 1), vip(0, 2), 40);
    assert!(build_icmp_frag_needed(&mcast, 1162, gw).is_none());

    assert!(build_icmp_frag_needed(&[], 1162, gw).is_none());
    assert!(build_icmp_frag_needed(&[0x45; 10], 1162, gw).is_none());
}

#[test]
fn errors_are_not_answered() {
    let orig = sample_ipv4_tcp(vip(0, 1), vip(0, 2), 1280);
    let pkt = build_icmp_frag_needed(&orig, 1162, vip(0, 9)).unwrap();
    assert!(build_icmp_frag_needed(&pkt, 100, vip(0, 9)).is_none());
}

#[test]
fn vip_mesh_prefix_and_ipv4_headers() {
    assert!(vip_in_mesh(Ipv4Addr::new(172, 24, 1, 2)));
    assert!(!vip_in_mesh(Ipv4Addr::new(172, 25, 0, 1)));
    assert!(!vip_in_mesh(Ipv4Addr::new(10, 0, 0, 1)));

    let pkt = sample_ipv4_tcp(vip(0, 1), vip(0, 2), 40);
    assert_eq!(ipv4_src(&pkt), Some(vip(0, 1)));
    assert_eq!(ipv4_dst(&pkt), Some(vip(0, 2)));
    assert!(ipv4_dst(&[]).is_none());
}

#[test]
fn default_addresses_come_from_the_hash_of_the_id() {
    let id = id_of(1);
    let hash = blake3::hash(&id.bytes);
    let want = Ipv4Addr::new(172, 24, hash.as_bytes()[0], hash.as_bytes()[1]);
    assert_eq!(derive_vip(&id), want);
    assert_eq!(vip_of_hash(hash.as_bytes()), want);
    assert_eq!(own_vip(None, &id), want);
    assert_eq!(own_vip(Some(vip(9, 9)), &id), vip(9, 9));
}

#[test]
fn packet_sizes_keep_their_bounds() {
    let catalog = Catalog::english();
    assert!(validate_mtu(&catalog, 1280).is_ok());
    let e = validate_mtu(&catalog, 1281).unwrap_err();
    assert!(e.message().contains("1281"));
    assert_eq!(code_from(&e), OTHER);
    assert_eq!(choose_mtu(&catalog, 1280, Some(1162)).unwrap(), 1162);
    assert_eq!(choose_mtu(&catalog, 1000, Some(1162)).unwrap(), 1000);
    assert_eq!(choose_mtu(&catalog, 1280, Some(100_000)).unwrap(), 1280);
    assert!(choose_mtu(&catalog, 1280, None).is_err());
}

#[test]
fn sizes_are_raised_after_the_hold_off() {
    let mut gate = RaiseGate::new(Duration::from_secs(0));
    let at = Duration::from_secs;
    assert_eq!(refresh_tun_mtu(1280, 1162, Some(1414), &gate, at(1)), Some(1280));
    assert_eq!(refresh_tun_mtu(1280, 1280, Some(1414), &gate, at(1)), None);
    assert_eq!(refresh_tun_mtu(1280, 1280, Some(1000), &gate, at(1)), None);
    assert_eq!(refresh_tun_mtu(1280, 1162, None, &gate, at(1)), None);
    gate.note_shrink(at(10));
    assert_eq!(refresh_tun_mtu(1280, 1162, Some(1414), &gate, at(24)), None);
    assert_eq!(refresh_tun_mtu(1280, 1162, Some(1414), &gate, at(25)), Some(1280));
}

#[test]
fn large_packets_are_answered_but_not_without_end() {
    let orig = sample_ipv4_tcp(vip(0, 1), vip(0, 2), 1280);
    let mut s = PeerSender::new(1280, Duration::from_secs(0));
    assert!(matches!(s.on_packet(Duration::from_secs(0), &orig, Some(1280), vip(0, 9)), SendStep::Send));
    assert!(matches!(s.on_packet(Duration::from_secs(0), &orig, None, vip(0, 9)), SendStep::Send));
    let mut replies = 0;
    for i in 0..30 {
        match s.on_packet(Duration::from_millis(10), &orig, Some(1200), vip(0, 9)) {
            SendStep::TooLarge { lower_to, reply } => {
                assert_eq!(lower_to, if i == 0 { Some(1200) } else { None });
                if let Some(p) = reply {
                    assert_eq!(u16::from_be_bytes([p[26], p[27]]), 1200);
                    replies += 1;
                }
            },
            SendStep::Send => panic!("too large"),
        }
    }
    assert_eq!(replies, PTB_RATE_PER_SEC);
    match s.on_packet(Duration::from_millis(1010), &orig, Some(1200), vip(0, 9)) {
        SendStep::TooLarge { reply, .. } => assert!(reply.is_some()),
        SendStep::Send => panic!("too large"),
    }
    assert_eq!(s.iface_mtu, 1200);
    assert!(shrunk_message(&Catalog::english(), 1200).contains("1200"));
}

#[test]
fn roster_messages_round_trip() {
    let a = member(1, 1);
    let b = member(2, 2);
    let body = encode_snapshot(&vec![a, b]);
    assert_eq!(body.len(), 1 + 2 * 36);
    match read_msg(&body).unwrap() {
        RosterMsg::Snapshot(v) => {
            assert_eq!(v.len(), 2);
            assert_eq!((v[1].vip, v[1].id.bytes), (b.vip, b.id.bytes));
        },
        other => panic!("unexpected {other:?}"),
    }
    assert!(matches!(read_msg(&encode_joined(&a)).unwrap(), RosterMsg::Joined(e) if e.vip == a.vip));
    assert!(matches!(read_msg(&encode_left(&b)).unwrap(), RosterMsg::Left(e) if e.id.same(&b.id)));
    let frame = write_msg(&body).unwrap();
    let mut header = [0u8; 4];
    header.copy_from_slice(&frame[..4]);
    assert_eq!(read_header(&header).unwrap(), body.len());
    assert_eq!(&frame[4..], body.as_slice());
}

#[test]
fn broken_roster_messages_are_refused() {
    assert_eq!(read_msg(&[]).unwrap_err(), RosterError::Empty);
    assert_eq!(read_msg(&[9]).unwrap_err(), RosterError::UnknownKind(9));
    assert_eq!(read_msg(&[1, 0]).unwrap_err(), RosterError::BadLength);
    assert_eq!(read_msg(&[2]).unwrap_err(), RosterError::BadLength);
    let mut body = encode_joined(&member(1, 1));
    for b in body.iter_mut().skip(5) {
        *b = 0xff;
    }
    body[5] = 2;
    assert_eq!(read_msg(&body).unwrap_err(), RosterError::BadId(0));
    assert_eq!(read_header(&[0xff; 4]).unwrap_err(), RosterError::TooLong(u32::MAX));
}

#[test]
fn exactly_one_of_two_dials() {
    let a = id_of(1);
    let b = id_of(2);
    assert_ne!(should_dial(&a, &b), should_dial(&b, &a));
    assert_eq!(should_dial(&a, &b), a.bytes > b.bytes);
    assert!(!should_dial(&a, &a));
}

#[test]
fn a_hub_gives_each_address_once() {
    let catalog = Catalog::english();
    let own = member(9, 9);
    let a = member(1, 1);
    let b = member(2, 2);
    let mut hub = HubTable::new();
    hub.claim(&catalog, a).unwrap();
    hub.claim(&catalog, b).unwrap();
    let e = hub.claim(&catalog, RosterEntry { vip: a.vip, id: id_of(3) }).unwrap_err();
    assert_eq!(e.message(), "virtual IP 172.24.0.1 is already claimed by another peer");
    let w = hub.welcome(own, b);
    match read_msg(&w.snapshot).unwrap() {
        RosterMsg::Snapshot(v) => {
            let vips: Vec<Ipv4Addr> = v.iter().map(|e| e.vip).collect();
            assert_eq!(vips, vec![own.vip, a.vip, b.vip]);
        },
        other => panic!("unexpected {other:?}"),
    }
    assert!(matches!(read_msg(&w.joined).unwrap(), RosterMsg::Joined(e) if e.vip == b.vip));
    assert_eq!(w.to.len(), 2);
    let f = hub.release(a);
    assert!(matches!(read_msg(&f.left).unwrap(), RosterMsg::Left(e) if e.vip == a.vip));
    assert_eq!(f.to.len(), 1);
    assert!(f.to[0].same(&b.id));
    assert_eq!(hub.list().len(), 1);
    hub.claim(&catalog, a).unwrap();
}

#[test]
fn a_hub_routes_by_destination_and_drops_spoofs() {
    let catalog = Catalog::english();
    let own = vip(0, 9);
    let mut hub = HubTable::new();
    hub.claim(&catalog, member(1, 1)).unwrap();
    hub.claim(&catalog, member(2, 2)).unwrap();
    let pkt = |s: Ipv4Addr, d: Ipv4Addr| sample_ipv4_tcp(s, d, 40);
    assert_eq!(hub.from_spoke(own, vip(0, 1), &pkt(vip(0, 1), vip(0, 2))), Route::Spoke(vip(0, 2)));
    assert_eq!(hub.from_spoke(own, vip(0, 1), &pkt(vip(0, 1), own)), Route::Local);
    assert_eq!(hub.from_spoke(own, vip(0, 1), &pkt(vip(0, 2), own)), Route::Drop);
    assert_eq!(hub.from_spoke(own, vip(0, 1), &pkt(vip(0, 1), vip(0, 1))), Route::Drop);
    assert_eq!(hub.from_spoke(own, vip(0, 1), &pkt(vip(0, 1), vip(0, 7))), Route::Drop);
    assert_eq!(
        hub.from_spoke(own, vip(0, 1), &pkt(vip(0, 1), Ipv4Addr::new(8, 8, 8, 8))),
        Route::Drop
    );
    assert_eq!(hub.from_spoke(own, vip(0, 1), &[0x60; 40]), Route::Drop);
    assert_eq!(hub.from_tun(own, &pkt(own, vip(0, 1))), Route::Spoke(vip(0, 1)));
    assert_eq!(hub.from_tun(own, &pkt(own, own)), Route::Drop);
    assert_eq!(hub.from_tun(own, &pkt(own, vip(3, 3))), Route::Drop);
}

#[test]
fn announced_addresses_are_checked() {
    let catalog = Catalog::english();
    assert!(check_peer_vip(&catalog, Ipv4Addr::new(10, 0, 0, 1)).is_ok());
    for bad in [
        Ipv4Addr::new(0, 0, 0, 0),
        Ipv4Addr::new(255, 255, 255, 255),
        Ipv4Addr::new(230, 1, 1, 1),
    ] {
        assert!(check_peer_vip(&catalog, bad).is_err());
    }
    assert!(HubTable::check_spoke_vip(&catalog, vip(0, 9), vip(0, 1)).is_ok());
    assert!(HubTable::check_spoke_vip(&catalog, vip(0, 9), vip(0, 9)).is_err());
    let e = HubTable::check_spoke_vip(&catalog, vip(0, 9), Ipv4Addr::new(10, 0, 0, 1)).unwrap_err();
    assert_eq!(e.message(), "peer announced an unusable virtual IP 10.0.0.1");
}

#[test]
fn allow_lists_gate_peers() {
    let catalog = Catalog::english();
    assert!(check_allow(&catalog, &None, &id_of(1)).is_ok());
    let only = Some(vec![id_of(1)]);
    assert!(check_allow(&catalog, &only, &id_of(1)).is_ok());
    assert_eq!(code_from(&check_allow(&catalog, &only, &id_of(2)).unwrap_err()), OTHER);
}

#[test]
fn spokes_prefer_direct_links() {
    let own = member(1, 1);
    let hub = member(9, 9);
    let mut m = SpokeMesh::new(own);
    let to = |d: Ipv4Addr| sample_ipv4_tcp(vip(0, 1), d, 40);
    assert_eq!(m.from_tun(&to(vip(0, 2))), Out::Drop);
    m.set_hub(hub);
    assert_eq!(m.from_tun(&to(vip(0, 2))), Out::Hub);
    assert_eq!(m.from_tun(&to(vip(0, 1))), Out::Drop);
    assert_eq!(m.lookup_out(Ipv4Addr::new(8, 8, 8, 8)), Out::Drop);
    assert!(m.install_direct(member(2, 2)));
    assert!(!m.install_direct(member(3, 1)));
    assert_eq!(m.from_tun(&to(vip(0, 2))), Out::Direct(vip(0, 2)));
    m.clear_hub();
    assert_eq!(m.from_tun(&to(vip(0, 3))), Out::Drop);
    assert_eq!(m.from_tun(&to(vip(0, 2))), Out::Direct(vip(0, 2)));
    m.drop_direct(vip(0, 2));
    assert_eq!(m.lookup_out(vip(0, 2)), Out::Drop);
    assert_eq!(m.list().len(), 2);
}

#[test]
fn spokes_follow_the_roster() {
    let own = member(1, 1);
    let mut m = SpokeMesh::new(own);
    let tried = m.apply(&RosterMsg::Snapshot(vec![member(9, 9), own, member(2, 2)]));
    assert_eq!(tried.len(), 2);
    assert_eq!(m.list().len(), 2);
    assert_eq!(m.apply(&RosterMsg::Joined(own)).len(), 0);
    assert_eq!(m.apply(&RosterMsg::Joined(member(3, 3))).len(), 1);
    m.install_direct(member(3, 3));
    assert_eq!(m.lookup_out(vip(0, 3)), Out::Direct(vip(0, 3)));
    assert_eq!(m.apply(&RosterMsg::Left(member(3, 3))).len(), 0);
    assert_eq!(m.lookup_out(vip(0, 3)), Out::Drop);
    assert_eq!(m.list().len(), 2);
}

#[test]
fn spokes_dial_by_rank_and_permission() {
    let catalog = Catalog::english();
    let (hi, lo) = if id_of(1).bytes > id_of(2).bytes { (1u8, 2u8) } else { (2u8, 1u8) };
    let high = SpokeMesh::new(member(hi, 1));
    let low = SpokeMesh::new(member(lo, 2));
    assert_eq!(high.dial_decision(&catalog, &None, &member(lo, 2)), Dial::Go);
    assert_eq!(low.dial_decision(&catalog, &None, &member(hi, 1)), Dial::Skip);
    assert_eq!(high.dial_decision(&catalog, &None, &member(hi, 1)), Dial::Skip);
    assert_eq!(
        high.dial_decision(&catalog, &Some(vec![]), &member(lo, 2)),
        Dial::NotAllowed
    );
    let mut linked = SpokeMesh::new(member(hi, 1));
    linked.install_direct(member(lo, 2));
    assert_eq!(linked.dial_decision(&catalog, &None, &member(lo, 2)), Dial::Skip);
    assert_eq!(low.accept_decision(&catalog, &None, &id_of(hi)), Inbound::Take);
    assert_eq!(high.accept_decision(&catalog, &None, &id_of(lo)), Inbound::TieBreak);
    assert_eq!(low.accept_decision(&catalog, &Some(vec![]), &id_of(hi)), Inbound::Denied);
}

#[test]
fn inbound_packets_are_filtered_by_source() {
    let pkt = |s: Ipv4Addr| sample_ipv4_tcp(s, vip(0, 1), 40);
    let hub = Ipv4Addr::new(10, 9, 9, 9);
    assert!(takes_from_hub(hub, &pkt(vip(0, 2))));
    assert!(takes_from_hub(hub, &pkt(hub)));
    assert!(!takes_from_hub(hub, &pkt(Ipv4Addr::new(8, 8, 8, 8))));
    assert!(takes_from_direct(vip(0, 2), &pkt(vip(0, 2))));
    assert!(!takes_from_direct(vip(0, 2), &pkt(vip(0, 3))));
}

#[test]
fn the_spoke_loop_waits_longer_after_short_sessions() {
    let mut l = SpokeLoop::new();
    assert!(l.on_session());
    assert!(!l.on_session());
    let secs = Duration::from_secs;
    let next = |l: &mut SpokeLoop, lived: u64| l.after_session(SessionEnd::PeerGone, secs(lived));
    assert_eq!(next(&mut l, 0), SpokeNext::Redial(secs(1)));
    assert_eq!(next(&mut l, 1), SpokeNext::Redial(secs(2)));
    assert_eq!(next(&mut l, 5), SpokeNext::Redial(secs(1)));
    assert_eq!(next(&mut l, 0), SpokeNext::Redial(secs(1)));
    assert_eq!(l.after_session(SessionEnd::CtrlC, secs(9)), SpokeNext::Stop);
}

#[test]
fn timeouts_of_a_mesh_have_their_code() {
    let catalog = Catalog::english();
    assert_eq!(code_from(&vip_exchange_timeout(&catalog)), TIMEOUT);
    assert_eq!(code_from(&control_stream_timeout(&catalog)), TIMEOUT);
    let id = id_of(1);
    assert_eq!(hub_target(&catalog, &id.to_text()).unwrap().bytes, id.bytes);
    let e = hub_target(&catalog, "x").unwrap_err();
    assert_eq!(e.message(), "'x' is not a valid EndpointId");
    assert_eq!(e.report(), "'x' is not a valid EndpointId: invalid length");
}

#[test]
fn live_state_answers_requests() {
    let mut s = TunLiveState::new("hub".to_string(), "abc".to_string());
    let r = s.status_response(7);
    assert_eq!((r.role.as_str(), r.uptime_secs, r.vip), ("hub", 7, Ipv4Addr::new(0, 0, 0, 0)));
    assert_eq!((r.path_kind.as_str(), r.session.as_str()), ("unknown", "abc"));
    s.set_vip(vip(0, 1));
    s.set_path_kind("direct");
    s.set_peers(ctl_peers(&vec![member(2, 2)]));
    assert_eq!(s.status_response(8).vip, vip(0, 1));
    assert_eq!(s.status_response(8).path_kind, "direct");
    let peers = s.peers_response();
    assert_eq!((peers[0].vip, peers[0].id.clone()), (vip(0, 2), id_of(2).to_text()));
}

#[test]
fn banners_name_address_and_id() {
    let catalog = Catalog::english();
    let own = member(1, 1);
    let b = serve_banner(&catalog, &own);
    assert_eq!((b[0].tone, b[0].text.as_str()), (Tone::Banner, "link-p2p tun serve"));
    assert_eq!((b[2].indent, b[2].text.as_str()), (4, "172.24.0.1"));
    assert_eq!(b[4].text, own.id.to_text());
    assert_eq!(serve_hints(&catalog, true).len(), 4);
    assert_eq!(serve_hints(&catalog, false).len(), 3);
    assert!(dial_hints(&catalog, &vec![]).is_empty());
    let hints = dial_hints(&catalog, &vec!["a:1".to_string(), "b:2".to_string()]);
    assert!(hints[0].text.ends_with("a:1, b:2"));
    let c = connected_lines(&catalog, own.vip, &member(9, 9), "relay".to_string());
    assert!(c[1].text.contains("172.24.0.9 (path relay)"));
    assert!(c[1].text.contains(&id_of(9).short_text()));
    assert!(joined_message(&catalog, &own).ends_with("joined at 172.24.0.1"));
    assert!(mesh_peer_message(&catalog, &own).starts_with("mesh peer "));
}

fn words(c: &Cmd) -> String {
    format!("{} {}", c.bin, c.args.join(" "))
}

#[test]
fn interfaces_are_set_up_by_commands() {
    let (a, b, c) = device_setup("link-p2p0", vip(0, 1), 1280);
    assert_eq!(words(&a), "ip addr add 172.24.0.1/32 dev link-p2p0");
    assert_eq!(words(&b), "ip link set dev link-p2p0 mtu 1280");
    assert_eq!(words(&c), "ip link set dev link-p2p0 up");
    assert_eq!(words(&set_tun_mtu(Platform::MacOs, "utun3", 1200)), "ifconfig utun3 mtu 1200");
    assert_eq!(
        words(&set_tun_mtu(Platform::Windows, "link-p2p", 1200)),
        "netsh interface ipv4 set subinterface link-p2p mtu=1200 store=active"
    );
    assert_eq!(words(&list_addresses(Platform::Linux)), "ip -o -4 addr show");
}

#[test]
fn routes_are_added_and_taken_away() {
    let r = add_peer_route(Platform::Linux, "t0", vip(0, 2));
    assert_eq!(words(&r.main), "ip route replace 172.24.0.2/32 dev t0");
    assert!(r.before.is_none() && r.cleanup.is_none());
    let r = add_peer_route(Platform::MacOs, "t0", vip(0, 2));
    assert_eq!(words(&r.main), "route -n add -host 172.24.0.2 -interface t0");
    assert_eq!(words(&r.cleanup.unwrap()), "route -n delete -host 172.24.0.2");
    assert_eq!(
        words(&del_peer_route(Platform::Windows, "t0", vip(0, 2))),
        "netsh interface ipv4 delete route 172.24.0.2/32 t0"
    );
    assert_eq!(
        words(&add_mesh_route(Platform::Linux, "t0").main),
        "ip route replace 172.24.0.0/16 dev t0"
    );
    assert!(add_mesh_route(Platform::MacOs, "t0").before.is_some());
    assert!(add_mesh_route(Platform::Windows, "t0").cleanup.is_some());
    assert_eq!(words(&del_mesh_route(Platform::Linux, "t0")), "ip route del 172.24.0.0/16 dev t0");
}

#[test]
fn failed_commands_say_why() {
    let catalog = Catalog::english();
    let c = Cmd::new("ip").arg("link").arg("up");
    let e = command_failed(&catalog, Platform::Linux, &c, b"out", b" no such device \n");
    assert_eq!(e.message(), "command `ip link up` failed: no such device");
    let e = command_failed(&catalog, Platform::MacOs, &c, b"out\n", b"");
    assert_eq!(e.message(), "command `ip link up` failed: out");
    assert_eq!(running_message(&catalog, Platform::Linux, &c), "running `ip link up`");
}

#[test]
fn taken_addresses_are_found_in_listings() {
    let catalog = Catalog::english();
    let linux = "2: eth0    inet 172.24.0.20/16 brd 172.24.255.255 scope global eth0";
    assert!(vip_is_listed(Platform::Linux, linux, vip(0, 20)));
    assert!(!vip_is_listed(Platform::Linux, linux, vip(0, 2)));
    let mac = "\tinet 172.24.0.1 netmask 0xffffffff";
    assert!(vip_is_listed(Platform::MacOs, mac, vip(0, 1)));
    assert!(!vip_is_listed(Platform::MacOs, mac, vip(0, 11)));
    let win = "Configuration\r\n    IP Address:        172.24.0.3\r\n    Gateway: 172.24.0.4\r\n";
    assert!(vip_is_listed(Platform::Windows, win, vip(0, 3)));
    assert!(!vip_is_listed(Platform::Windows, win, vip(0, 4)));
    assert_eq!(powershell_lists(true, "172.24.0.3\r\n127.0.0.1\r\n", vip(0, 3)), Some(true));
    assert_eq!(powershell_lists(true, "127.0.0.1\r\n", vip(0, 3)), Some(false));
    assert_eq!(powershell_lists(true, "\r\n", vip(0, 3)), None);
    assert_eq!(powershell_lists(false, "172.24.0.3", vip(0, 3)), None);
    let e = ensure_vip_free(&catalog, Platform::Linux, linux.as_bytes(), vip(0, 20)).unwrap_err();
    assert!(e.message().starts_with("virtual IP 172.24.0.20 is already assigned"));
    assert!(ensure_vip_free(&catalog, Platform::Linux, linux.as_bytes(), vip(0, 2)).is_ok());
}

#[test]
fn packets_to_many_are_not_answered() {
    let gw = vip(0, 1);
    let to = |dst: Ipv4Addr| sample_ipv4_tcp(vip(0, 3), dst, 1280);
    assert!(build_icmp_frag_needed(&to(vip(0, 2)), 1162, gw).is_some());
    assert!(build_icmp_frag_needed(&to(Ipv4Addr::new(224, 0, 0, 1)), 1162, gw).is_none());
    assert!(build_icmp_frag_needed(&to(Ipv4Addr::new(239, 255, 255, 250)), 1162, gw).is_none());
    assert!(build_icmp_frag_needed(&to(Ipv4Addr::new(255, 255, 255, 255)), 1162, gw).is_none());
}

#[test]
fn the_first_bad_id_of_a_roster_is_named() {
    let catalog = Catalog::english();
    let mut body = encode_snapshot(&vec![member(1, 1), member(2, 2), member(3, 3)]);
    for at in [1 + 36 + 4, 1 + 72 + 4] {
        for b in body[at..at + 32].iter_mut() {
            *b = 0xff;
        }
        body[at] = 2;
    }
    let e = read_msg(&body).unwrap_err();
    assert_eq!(e, RosterError::BadId(1));
    assert_eq!(e.message(&catalog), "roster entry 1 has an invalid EndpointId");
    assert_eq!(RosterError::Empty.message(&catalog), "empty roster message");
    assert_eq!(RosterError::UnknownKind(9).message(&catalog), "unknown roster message 9");
}

#[test]
fn mesh_peers_are_told_why_they_are_closed() {
    assert_eq!(Inbound::Denied.close_reason(), Some(CloseReason::Denied));
    assert_eq!(Inbound::TieBreak.close_reason(), Some(CloseReason::TieBreak));
    assert_eq!(Inbound::Take.close_reason(), None);
    assert!(is_at_its_vip(&member(1, 1), member(1, 1).vip));
    assert!(!is_at_its_vip(&member(1, 1), member(2, 2).vip));
}

#[test]
fn a_failed_route_is_tried_once_more_after_a_cleanup() {
    let change = |cleanup: Option<Cmd>| RouteChange { before: None, main: Cmd::new("route"), cleanup };
    let with = change(Some(Cmd::new("clean")));
    assert_eq!(after_main(&with, true, 1), RouteNext::Done);
    assert_eq!(after_main(&with, false, 1), RouteNext::CleanUpAndRetry);
    assert_eq!(after_main(&with, true, 2), RouteNext::Done);
    assert_eq!(after_main(&with, false, 2), RouteNext::Fail);
    let without = change(None);
    assert_eq!(after_main(&without, false, 1), RouteNext::Fail);
    assert_eq!(after_main(&without, true, 1), RouteNext::Done);
}
