use iroh::SecretKey;
use link_p2p::config::{RelaySection, UserConfig};
use link_p2p::contacts::{encode_short_code, AddrHint, Contact, ContactBook};
use link_p2p::dispatch::{
    choose_passphrase, default_filter, error_line, man_page, prepare_passphrase, relay_settings,
    setup_for, stats_json, stats_json_quoted, stats_lines, unknown_subcommand, CommandKind, Setup,
};
use link_p2p::endpoint::EndpointId;
use link_p2p::exit::{code_from, failure, CONNECT, OTHER, TIMEOUT, USAGE};
use link_p2p::i18n::Catalog;
use link_p2p::net::{IpAddr, Ipv4Addr, Ipv6Addr, SocketAddr};
use link_p2p::path_kind::PathKind;
use link_p2p::path_stats::{load_summary, PathSample};
use link_p2p::runtime::{PeerTo, ServeMode};
use link_p2p::selftest::{echo_payload, Selftest, SelftestOpts};
use link_p2p::stream_cmd::{
    check_echo, check_init, connect_lines, connect_mode, connect_target, connected_line,
    contact_added_lines, contact_removed_line, no_contacts_line, parse_serve_allow, ping_json,
    ping_lines, ping_target, serve_admits, serve_lines, serve_mode, settle_budget, upgrade_time,
    ConnectMode, PingReading,
};
use link_p2p::style::{apply_color_mode, detect_color_mode, styler_for, ColorMode, Line, Tone};
use link_p2p::time::Duration;
use link_p2p::tun_cmd::{
    identity_note, join_as_up, max_conns_note, parse_tun_call, plan_connect, plan_serve, plan_up,
    resolve_up_role, up_action, ConnectRequest, JoinRequest, Role, TunCall, UpAction, UpRequest,
};

fn strings(v: &[&str]) -> Vec<String> {
    v.iter().map(|s| s.to_string()).collect()
}

fn id_of(seed: u8) -> EndpointId {
    EndpointId { bytes: *SecretKey::from_bytes(&[seed; 32]).public().as_bytes() }
}

fn addr(port: u16) -> SocketAddr {
    SocketAddr { ip: IpAddr::V4(Ipv4Addr::new(127, 0, 0, 1)), port }
}

#[test]
fn color_is_read_before_the_command_line_is() {
    let mode = |v: &[&str]| detect_color_mode(&strings(v));
    assert_eq!(mode(&[]), ColorMode::Auto);
    assert_eq!(mode(&["serve", "--color=never"]), ColorMode::Never);
    assert_eq!(mode(&["--color", "always", "--color=never"]), ColorMode::Always);
    assert_eq!(mode(&["--color=odd", "--color", "odd", "--color=never"]), ColorMode::Never);
    assert_eq!(mode(&["--color"]), ColorMode::Auto);
    assert_eq!(ColorMode::default(), ColorMode::Auto);
}

#[test]
fn styles_are_terminal_sequences() {
    let on = apply_color_mode(ColorMode::Always);
    assert_eq!(on.banner("x"), "\x1b[36m\x1b[1mx\x1b[0m");
    assert_eq!(on.highlight("x"), "\x1b[38;5;15m\x1b[1mx\x1b[0m");
    assert_eq!(on.ok("x"), "\x1b[32m\x1b[1mx\x1b[0m");
    assert_eq!(on.warn("x"), "\x1b[33mx\x1b[0m");
    assert_eq!(on.err("x"), "\x1b[31m\x1b[1mx\x1b[0m");
    assert_eq!(on.info("x"), "\x1b[36mx\x1b[0m");
    assert_eq!(on.dim("x"), "\x1b[2mx\x1b[0m");
    assert_eq!(on.apply(Tone::Plain, "x"), "x");
    let off = apply_color_mode(ColorMode::Never);
    assert_eq!(off.err("x"), "x");
    let line = Line { indent: 2, tone: Tone::Warn, text: "y".to_string() };
    assert_eq!(line.render(off), "  y");
    assert_eq!(line.render(on), "  \x1b[33my\x1b[0m");
    let _ = apply_color_mode(ColorMode::Auto);
    for terminal in [true, false] {
        let shown = |mode: ColorMode| styler_for(mode, terminal).apply(Tone::Warn, "x") != "x";
        assert!(shown(ColorMode::Always));
        assert!(!shown(ColorMode::Never));
        assert_eq!(shown(ColorMode::Auto), terminal);
    }
}

#[test]
fn failures_are_shown_with_their_causes() {
    let catalog = Catalog::english();
    let off = apply_color_mode(ColorMode::Never);
    let e = failure(CONNECT, "refused".to_string()).context("dialing".to_string());
    assert_eq!(error_line(&catalog, off, &e), "error: dialing: refused");
}

#[test]
fn verbosity_sets_the_filter() {
    assert_eq!(default_filter(true, 2), "link_p2p=warn,iroh=error");
    assert_eq!(default_filter(false, 0), "link_p2p=info,iroh=warn");
    assert_eq!(default_filter(false, 1), "link_p2p=debug,iroh=info");
    assert_eq!(default_filter(false, 9), "link_p2p=trace,iroh=debug");
}

#[test]
fn settings_add_up() {
    let cfg = UserConfig {
        relays: RelaySection { urls: strings(&["b"]), no_n0: true, relay_only: false },
    };
    let s = relay_settings(&strings(&["a"]), false, true, &cfg);
    assert_eq!((s.relay, s.no_n0, s.relay_only), (strings(&["a", "b"]), true, true));
}

#[test]
fn the_command_line_passphrase_wins() {
    let some = |s: &str| Some(s.to_string());
    assert_eq!(choose_passphrase(some("a"), some("b")), some("a"));
    assert_eq!(choose_passphrase(None, some("b")), some("b"));
    assert_eq!(choose_passphrase(some(""), some("b")), None);
    assert_eq!(choose_passphrase(None, some("")), None);
    assert_eq!(choose_passphrase(None, None), None);
    let catalog = Catalog::english();
    assert!(prepare_passphrase(&catalog, some(""), some("long enough")).unwrap().is_none());
    let p = prepare_passphrase(&catalog, None, some("long enough")).unwrap().unwrap();
    assert_eq!((p.text.as_str(), p.exposed), ("long enough", false));
    assert!(prepare_passphrase(&catalog, some("long enough"), None).unwrap().unwrap().exposed);
    let e = prepare_passphrase(&catalog, some("short"), some("long enough")).unwrap_err();
    assert_eq!(code_from(&e), USAGE);
    assert!(e.message().ends_with("you have 5)"));
}

#[test]
fn commands_set_up_what_they_need() {
    assert_eq!(setup_for(CommandKind::Completions), Setup::Nothing);
    assert_eq!(setup_for(CommandKind::Man), Setup::Nothing);
    assert_eq!(setup_for(CommandKind::Help), Setup::Nothing);
    assert_eq!(setup_for(CommandKind::TunService), Setup::Logging);
    assert_eq!(setup_for(CommandKind::TunSelftest), Setup::Relays);
    assert_eq!(setup_for(CommandKind::Stats), Setup::Relays);
    assert_eq!(setup_for(CommandKind::Contact), Setup::Identity);
    assert_eq!(setup_for(CommandKind::Serve), Setup::Identity);
}

#[test]
fn man_pages_escape_leading_dots() {
    let page = man_page("About it.", "one\r\n.two\n\nthree");
    assert!(page.starts_with(".TH LINK-P2P 1\n.SH NAME\n"));
    assert!(page.contains(".SH DESCRIPTION\nAbout it.\n.SH OPTIONS\none\n\\.two\n\nthree\n.SH SEE ALSO\n"));
    assert!(man_page("", "x\n").contains(".SH OPTIONS\nx\n.SH SEE ALSO\n"));
    assert!(man_page("", "").contains(".SH OPTIONS\n.SH SEE ALSO\n"));
    let e = unknown_subcommand(&Catalog::english(), "foo");
    assert_eq!((code_from(&e), e.message()), (USAGE, "unrecognized subcommand 'foo'".to_string()));
}

fn sample(ts: u64, path: &str, upgrade_ms: Option<u64>) -> PathSample {
    PathSample {
        ts,
        cmd: "ping".to_string(),
        peer_short: "SC".to_string(),
        peer: "p".to_string(),
        path: path.to_string(),
        upgrade_ms,
        relay_only: false,
    }
}

#[test]
fn statistics_are_shown() {
    let catalog = Catalog::english();
    let none = load_summary(Vec::new(), None);
    let lines = stats_lines(&catalog, "/x".to_string(), 100, &none, "0".to_string());
    assert_eq!(lines.len(), 3);
    assert_eq!(lines[1].text, "file: /x (last 100 samples)");
    let rows = (0..7).map(|i| Some(sample(i, "direct", if i == 6 { Some(12) } else { None }))).collect();
    let sum = load_summary(rows, None);
    let lines = stats_lines(&catalog, "/x".to_string(), 100, &sum, "100".to_string());
    assert_eq!(lines.len(), 3 + 5);
    assert_eq!(
        lines[2].text,
        "direct 7/7 ({2:.0}%)  relay 0  relay+candidate 0  unknown 0"
    );
    assert_eq!(lines[3].text, "6  ping  SC  direct  upgrade_ms=12");
    assert_eq!(lines[7].text, "2  ping  SC  direct");
    assert_eq!(
        stats_json("/a \"b\"\\\n\u{1}é", &sum, "100.0"),
        "{\"file\":\"/a \\\"b\\\"\\\\\\n\\u0001é\",\"total\":7,\"direct\":7,\"relay\":0,\"relay_candidate\":0,\"unknown\":0,\"direct_pct\":100.0}"
    );
    assert!(stats_json_quoted("\"f\"", &none, "0.0").starts_with("{\"file\":\"f\",\"total\":0,"));
}

#[test]
fn serve_takes_one_mode() {
    let catalog = Catalog::english();
    assert_eq!(serve_mode(&catalog, Some(addr(1)), false, false).unwrap(), ServeMode::Forward(addr(1)));
    assert_eq!(
        serve_mode(&catalog, None, true, true).unwrap(),
        ServeMode::Proxy { allow_private: true }
    );
    for (f, p) in [(Some(addr(1)), true), (None, false)] {
        assert_eq!(code_from(&serve_mode(&catalog, f, p, false).unwrap_err()), USAGE);
    }
}

#[test]
fn serve_admits_whom_it_names() {
    let catalog = Catalog::english();
    let ids = parse_serve_allow(&catalog, &vec![id_of(1).to_text(), id_of(1).to_text()]).unwrap();
    assert_eq!(ids.len(), 2);
    assert!(serve_admits(&ids, &id_of(1)));
    assert!(!serve_admits(&ids, &id_of(2)));
    assert!(serve_admits(&Vec::new(), &id_of(2)));
    let e = parse_serve_allow(&catalog, &strings(&["nope"])).unwrap_err();
    assert_eq!(e.message(), "'nope' is not a valid EndpointId in --allow");
    assert_eq!(e.report(), "'nope' is not a valid EndpointId in --allow: invalid length");
    let e = ping_target(&catalog, "nope").unwrap_err();
    assert_eq!(e.report(), "'nope' is not a valid EndpointId: invalid length");
}

#[test]
fn serve_shows_its_mode_and_code() {
    let catalog = Catalog::english();
    let texts = |m: ServeMode, n: usize| -> Vec<String> {
        serve_lines(&catalog, m, "127.0.0.1:1".to_string(), n, &id_of(1))
            .into_iter()
            .map(|l| l.text)
            .collect()
    };
    let v = texts(ServeMode::Forward(addr(1)), 0);
    assert_eq!(v[1], "forwarding P2P connections to: 127.0.0.1:1");
    assert_eq!(v[3], encode_short_code(&id_of(1)));
    let v = texts(ServeMode::Proxy { allow_private: false }, 2);
    assert!(v[2].starts_with("proxy targets in private"));
    assert_eq!(v[3], "only accepting connections from 2 allowed peer(s)");
    assert_eq!(texts(ServeMode::Proxy { allow_private: true }, 0).len(), 4);
}

#[test]
fn connect_takes_one_mode() {
    let catalog = Catalog::english();
    let mode = |l: Option<SocketAddr>, s: Option<SocketAddr>, io: bool| connect_mode(&catalog, l, s, io, true);
    assert_eq!(mode(Some(addr(1)), None, false).unwrap(), ConnectMode::Listen(addr(1)));
    assert_eq!(mode(None, Some(addr(1)), false).unwrap(), ConnectMode::Socks5(addr(1)));
    assert_eq!(mode(None, None, true).unwrap(), ConnectMode::Stdio);
    assert!(mode(Some(addr(1)), None, true).unwrap_err().message().contains("--stdio"));
    let e = connect_mode(&catalog, None, None, false, false).unwrap_err();
    assert!(!e.message().contains("--stdio"));
    assert_eq!(code_from(&e), USAGE);
}

#[test]
fn connect_merges_addresses() {
    let catalog = Catalog::english();
    let mut book = ContactBook::new();
    book.insert(
        "alice".to_string(),
        Contact {
            id: id_of(1).to_text(),
            relays: Vec::new(),
            addrs: vec![AddrHint { text: "127.0.0.1:2".to_string(), addr: Ok(addr(2)) }],
        },
    );
    let (peer, addrs) = connect_target(&catalog, &book, "alice", vec![addr(1)], false).unwrap();
    assert_eq!((peer.id.bytes, addrs), (id_of(1).bytes, vec![addr(1), addr(2)]));
    assert_eq!(code_from(&connect_target(&catalog, &book, "alice", vec![], true).unwrap_err()), USAGE);
    assert_eq!(
        code_from(&connect_target(&catalog, &book, "bob", vec![], false).unwrap_err()),
        USAGE
    );
    let lines = connect_lines(&catalog, &peer, &strings(&["a:1", "b:2"]));
    assert_eq!(lines[0].text, "dialing with address hint(s): a:1, b:2");
    assert_eq!(lines[1].text, "dialing contact alice...");
    let (peer, _) = connect_target(&catalog, &book, &id_of(2).to_text(), vec![], true).unwrap();
    let lines = connect_lines(&catalog, &peer, &Vec::new());
    assert_eq!(lines[0].text, format!("dialing {}...", id_of(2).short_text()));
    assert!(connected_line(&catalog, ConnectMode::Stdio, String::new()).text.contains("stdin/stdout"));
    assert!(connected_line(&catalog, ConnectMode::Listen(addr(1)), "x:1".to_string()).text.contains("x:1"));
}

#[test]
fn pings_report_both_measurements() {
    let catalog = Catalog::english();
    let id = id_of(1);
    let a = PingReading { rtt_us: 600_000, kind: PathKind::Relay };
    let b = PingReading { rtt_us: 9_000, kind: PathKind::Direct };
    let lines = ping_lines(&catalog, &id, a, b);
    assert_eq!(lines[0].text, format!("pong from {}", id.short_text()));
    assert_eq!(lines[1].text, "initial: RTT 600000µs, path: relay");
    assert_eq!(lines[2].text, "settled: RTT 9000µs, path: direct (IP)");
    assert_eq!(
        ping_json(&id, a, b),
        format!(
            "{{\"peer\":\"{}\",\"rtt_us\":9000,\"path\":\"direct\",\"initial_rtt_us\":600000,\"initial_path\":\"relay\",\"settled_rtt_us\":9000,\"settled_path\":\"direct\"}}",
            id.to_text()
        )
    );
    assert_eq!(settle_budget(true), Duration::from_secs(0));
    assert_eq!(settle_budget(false), Duration::from_secs(2));
    let two = Duration::from_secs(2);
    assert_eq!(upgrade_time(PathKind::Relay, PathKind::Direct, two), Some(two));
    assert_eq!(upgrade_time(PathKind::Direct, PathKind::Direct, two), Some(Duration::from_secs(0)));
    assert_eq!(upgrade_time(PathKind::Direct, PathKind::Relay, two), None);
    assert_eq!(ping_target(&catalog, &id.to_text()).unwrap().bytes, id.bytes);
    assert_eq!(code_from(&ping_target(&catalog, "x").unwrap_err()), USAGE);
    assert!(check_echo(&catalog, &[1; 8], &[1; 8]).is_ok());
    assert_eq!(code_from(&check_echo(&catalog, &[1; 8], &[2; 8]).unwrap_err()), OTHER);
}

#[test]
fn contacts_and_config_are_confirmed() {
    let catalog = Catalog::english();
    let lines = contact_added_lines(&catalog, "bob", &id_of(1));
    assert_eq!(lines[0].text, format!("saved contact bob → {}", encode_short_code(&id_of(1))));
    assert!(lines[1].text.contains("`call bob --listen …`"));
    assert_eq!(contact_removed_line(&catalog, "bob").text, "removed contact bob");
    assert!(no_contacts_line(&catalog).text.starts_with("no contacts yet"));
    assert!(check_init(&catalog, false, false, "/x".to_string()).is_ok());
    assert!(check_init(&catalog, true, true, "/x".to_string()).is_ok());
    let e = check_init(&catalog, true, false, "/x".to_string()).unwrap_err();
    assert_eq!(e.message(), "config already exists at /x (use --force to overwrite)");
    assert_eq!(code_from(&e), USAGE);
}

#[test]
fn selftests_count_failures() {
    let catalog = Catalog::english();
    let opts = SelftestOpts { no_echo: false, tun: true };
    let intro = Selftest::intro(&catalog, &opts, true);
    assert_eq!(intro[0].text, "link-p2p tun selftest");
    assert_eq!(intro[2].text, "install_extra_relays → wait_online");
    let mut t = Selftest::new();
    let m = t.on_relay(&catalog, "https://a", Some("12ms".to_string()));
    assert_eq!((m.mark.as_str(), m.about.as_str()), ("ok", " https://a  (12ms)"));
    assert_eq!(t.verdict(&catalog).unwrap().text, "selftest passed");
    let m = t.on_relay(&catalog, "https://b", None);
    assert_eq!((m.mark.as_str(), m.about.as_str()), ("FAIL", " https://b"));
    let sent = echo_payload().as_bytes();
    let m = t.on_echo(&catalog, sent, sent, "127.0.0.1:5".to_string());
    assert_eq!(m.about, " echo 17 bytes via 127.0.0.1:5");
    t.on_echo(&catalog, sent, b"other", "x".to_string());
    let e = t.verdict(&catalog).unwrap_err();
    assert_eq!((code_from(&e), e.message()), (CONNECT, "selftest reported 2 failure(s)".to_string()));
    assert_ne!(code_from(&e), TIMEOUT);
    assert_eq!(Selftest::identity_mark(&catalog, Some("denied".to_string())).about, ": denied");
    assert_eq!(Selftest::identity_mark(&catalog, None).mark, "ok");
}

fn up(role: Option<Role>, to: Option<&str>) -> UpRequest {
    UpRequest {
        role,
        to: to.map(str::to_string),
        foreground: true,
        system: false,
        tun_ip: None,
        tun_ip6: None,
        mtu: 1280,
        allow: Vec::new(),
        to_addr: Vec::new(),
        hidden: false,
    }
}

#[test]
fn roles_follow_the_options() {
    let catalog = Catalog::english();
    assert_eq!(resolve_up_role(&catalog, None, true).unwrap(), Role::Spoke);
    assert_eq!(resolve_up_role(&catalog, None, false).unwrap(), Role::Hub);
    assert_eq!(resolve_up_role(&catalog, Some(Role::Phone), false).unwrap(), Role::Phone);
    assert_eq!(code_from(&resolve_up_role(&catalog, Some(Role::Spoke), false).unwrap_err()), USAGE);
    let e = resolve_up_role(&catalog, Some(Role::Hub), true).unwrap_err();
    assert_eq!(e.message(), "do not pass `--role hub` together with `--to`");
}

#[test]
fn a_mesh_is_planned() {
    let catalog = Catalog::english();
    let plan = plan_up(&catalog, up(None, Some(" hub ")), &None, true).unwrap();
    assert!(!plan.warn_identity);
    match up_action(&catalog, plan, true).unwrap() {
        UpAction::Run(m) => {
            assert_eq!((m.role, m.mtu, m.supervised), (Role::Spoke, 1280, false));
            assert!(matches!(m.to, Some(PeerTo::Given(s)) if s == "hub"));
        },
        other => panic!("unexpected {other:?}"),
    }
    let mut req = up(None, None);
    req.foreground = false;
    req.allow = vec![id_of(1).to_text()];
    let plan = plan_up(&catalog, req, &None, false).unwrap();
    match up_action(&catalog, plan, true).unwrap() {
        UpAction::Background { role, allow, .. } => {
            assert_eq!((role, allow), (Role::Hub, vec![id_of(1).to_text()]));
        },
        other => panic!("unexpected {other:?}"),
    }
    let mut req = up(None, None);
    req.system = true;
    assert!(plan_up(&catalog, req, &None, false).unwrap().warn_identity);
    assert!(identity_note(&catalog).contains("--identity"));
    let mut req = up(None, Some(" "));
    req.role = Some(Role::Spoke);
    let plan = plan_up(&catalog, req, &None, true).unwrap();
    assert_eq!(code_from(&up_action(&catalog, plan, true).unwrap_err()), USAGE);
}

#[test]
fn the_first_reason_against_a_mesh_counts() {
    let catalog = Catalog::english();
    let refuse = |req: UpRequest| plan_up(&catalog, req, &None, true).unwrap_err().message();
    let mut worst = up(Some(Role::Hub), Some("x"));
    worst.mtu = 1500;
    worst.hidden = true;
    assert!(refuse(worst).starts_with("--mtu must be at most 1280"));
    let mut req = up(Some(Role::Hub), Some("x"));
    req.allow = strings(&["nope"]);
    assert!(refuse(req).starts_with("do not pass"));
    let mut req = up(None, None);
    req.allow = strings(&["nope"]);
    req.hidden = true;
    assert!(refuse(req).contains("--allow"));
    let mut req = up(None, None);
    req.hidden = true;
    req.system = true;
    req.foreground = false;
    assert!(refuse(req).starts_with("`--hidden`"));
    let mut req = up(None, None);
    req.system = true;
    req.foreground = false;
    assert!(refuse(req).starts_with("`tun up --system` requires"));
}

#[test]
fn aliases_are_the_commands_they_stand_for() {
    let catalog = Catalog::english();
    let join = join_as_up(JoinRequest {
        to: "hub".to_string(),
        foreground: true,
        system: false,
        tun_ip: None,
        tun_ip6: None,
        mtu: 1200,
        allow: Vec::new(),
        to_addr: Vec::new(),
        hidden: true,
    });
    assert_eq!((join.role, join.to.as_deref(), join.hidden), (Some(Role::Spoke), Some("hub"), true));
    let env = Some(id_of(1).to_text());
    let vip6 = Some(Ipv6Addr::new(0xfd24, 0xac18, 0, 0, 0, 0, 0, 7));
    let m = plan_serve(&catalog, None, vip6, 1280, Vec::new(), &env).unwrap();
    assert_eq!((m.role, m.tun_ip6, m.allow.unwrap().len()), (Role::Hub, vip6, 1));
    assert!(plan_serve(&catalog, None, None, 1281, Vec::new(), &None).is_err());
    let req = |to: Option<&str>, allow: Vec<String>| ConnectRequest {
        to: to.map(str::to_string),
        tun_ip: None,
        tun_ip6: None,
        mtu: 1280,
        to_addr: vec![addr(1)],
        allow,
        hidden: false,
    };
    let m = plan_connect(&catalog, req(Some("-"), Vec::new()), &None, true).unwrap();
    assert!(matches!(m.to, Some(PeerTo::FromStdin)));
    assert_eq!(m.to_addr, vec![addr(1)]);
    let e = plan_connect(&catalog, req(None, strings(&["nope"])), &None, true).unwrap_err();
    assert!(e.message().starts_with("missing peer"));
    assert!(plan_connect(&catalog, req(Some("x"), strings(&["nope"])), &None, true).is_err());
    assert!(max_conns_note(&catalog, 1024).is_none());
    assert!(max_conns_note(&catalog, 8).is_some());
}

#[test]
fn tun_calls_are_read() {
    let catalog = Catalog::english();
    let parse = |v: &[&str]| parse_tun_call(&catalog, &strings(v));
    assert!(matches!(parse(&["accept", "bob"]).unwrap(), TunCall::Accept(p) if p == "bob"));
    assert!(matches!(parse(&["reject", "bob"]).unwrap(), TunCall::Reject(p) if p == "bob"));
    assert!(matches!(parse(&["accept"]).unwrap(), TunCall::Dial(p) if p == "accept"));
    assert_eq!(code_from(&parse(&[]).unwrap_err()), USAGE);
    assert_eq!(code_from(&parse(&["a", "b"]).unwrap_err()), USAGE);
}
