use iroh::SecretKey;
use link_p2p::config::{
    config_dir, config_path, init_refused, load, load_or_default, merge_relay_urls, ConfigError,
    ConfigFile, RelaySection, UserConfig,
};
use link_p2p::endpoint::EndpointId;
use link_p2p::i18n::Catalog;
use link_p2p::order::key_order;
use link_p2p::path_kind::{is_settled, path_kind, PathInfo, PathKind};
use link_p2p::path_stats::{
    load_summary, peer_direct_history, record_sample, record_sample_lossy, sample_for, stats_path,
    trim_lines, PathSample, MAX_LINES,
};
use link_p2p::paths::Base;
use link_p2p::relay_probe::{host_port, order_by_connect_latency, Probe};
use link_p2p::relay_rtt::{order_from_fresh_cache, record_probe_results, Entry, RttCache, CACHE_TTL_SECS};
use link_p2p::time::Duration;

fn strings(v: &[&str]) -> Vec<String> {
    v.iter().map(|s| s.to_string()).collect()
}

#[test]
fn round_trip_empty() {
    let cfg = UserConfig {
        relays: RelaySection {
            urls: strings(&["http://127.0.0.1:3340"]),
            no_n0: false,
            relay_only: false,
        },
    };
    let loaded = load(ConfigFile::Parsed(cfg)).unwrap();
    assert_eq!(loaded.relays.urls, strings(&["http://127.0.0.1:3340"]));
}

#[test]
fn config_files_that_cannot_be_read_are_errors_or_defaults() {
    let catalog = Catalog::english();
    assert!(load(ConfigFile::Missing).unwrap().relays.urls.is_empty());
    let e = load(ConfigFile::Malformed("line 3".to_string())).unwrap_err();
    assert!(matches!(e, ConfigError::Malformed(_)));
    let e = e.error(&catalog, "/x/config.toml".to_string());
    assert_eq!(e.report(), "parsing config /x/config.toml: line 3");
    let e = load(ConfigFile::Unreadable("denied".to_string())).unwrap_err();
    assert!(matches!(e, ConfigError::Unreadable(_)));
    assert_eq!(e.error(&catalog, "c".to_string()).report(), "reading config c: denied");
    assert!(load_or_default(ConfigFile::Malformed(String::new())).relays.urls.is_empty());
    assert!(init_refused(true, false));
    assert!(!init_refused(true, true));
    assert!(!init_refused(false, false));
}

#[test]
fn the_config_directory_follows_the_environment() {
    assert_eq!(config_dir(true, false).base, Base::XdgConfigHome);
    let p = config_path(false, true);
    assert_eq!(p.base, Base::Home);
    assert_eq!(p.parts, strings(&[".config", "link-p2p", "config.toml"]));
}

#[test]
fn command_line_relays_come_first_and_once() {
    let cfg = UserConfig {
        relays: RelaySection { urls: strings(&["b", "c", "b"]), no_n0: true, relay_only: false },
    };
    assert_eq!(merge_relay_urls(&strings(&["a", "b", "a"]), &cfg), strings(&["a", "b", "c"]));
}

fn port_of(url: &str) -> u16 {
    host_port(url).expect("parse").1
}

#[test]
fn parses_localhost_http() {
    let a = host_port("http://127.0.0.1:3340").expect("parse");
    assert_eq!(a.1, 3340);
    assert_eq!(a.0, "127.0.0.1");
}

#[test]
fn parses_ipv6_literal() {
    let a = host_port("http://[::1]:3340").expect("parse");
    assert_eq!(a.1, 3340);
    assert_eq!(a.0, "::1");
}

#[test]
fn parses_ipv6_literal_default_http_port() {
    let a = host_port("http://[::1]").expect("parse");
    assert_eq!(a.1, 80);
    assert_eq!(a.0, "::1");
}

#[test]
fn parses_ipv6_literal_default_https_port() {
    let a = host_port("https://[::1]/path").expect("parse");
    assert_eq!(a.1, 443);
    assert_eq!(a.0, "::1");
}

#[test]
fn ports_follow_the_scheme() {
    assert_eq!(port_of("https://relay.example/x"), 443);
    assert_eq!(port_of("http://relay.example"), 80);
    assert_eq!(port_of("https://relay.example:8443"), 8443);
}

#[test]
fn fresh_cache_orders_by_rtt() {
    let mut cache = RttCache::new();
    record_probe_results(
        &mut cache,
        &vec![
            ("http://slow".to_string(), Some(Duration::from_millis(200))),
            ("http://fast".to_string(), Some(Duration::from_millis(10))),
            ("http://dead".to_string(), None),
        ],
        1000,
    );
    let ordered = order_from_fresh_cache(
        &cache,
        &strings(&["http://slow", "http://dead", "http://fast"]),
        1000,
    )
    .expect("fresh");
    assert_eq!(ordered, strings(&["http://fast", "http://slow", "http://dead"]));
}

#[test]
fn stale_or_missing_returns_none() {
    let mut cache = RttCache::new();
    assert!(order_from_fresh_cache(&cache, &strings(&["http://x"]), 5).is_none());
    cache.insert("http://x".to_string(), Entry { rtt_ms: Some(1), updated_unix: 5 });
    assert!(order_from_fresh_cache(&cache, &strings(&["http://x"]), 5).is_some());
    assert!(order_from_fresh_cache(&cache, &strings(&["http://x"]), 6 + CACHE_TTL_SECS).is_none());
    assert_eq!(cache.get("http://x").unwrap().rtt_ms, Some(1));
}

#[test]
fn quick_relays_come_first() {
    let probe = |i: usize, url: &str, rtt: Option<u64>| Probe {
        index: i,
        url: url.to_string(),
        rtt_nanos: rtt,
    };
    let order = order_by_connect_latency(&vec![
        probe(0, "dead", None),
        probe(1, "slow", Some(9)),
        probe(2, "fast", Some(3)),
        probe(3, "dead2", None),
    ]);
    assert_eq!(order, strings(&["fast", "slow", "dead", "dead2"]));
    assert_eq!(key_order(&vec![(2, 0), (1, 0), (2, 0), (0, 7)]), vec![3, 1, 0, 2]);
}

#[test]
fn path_kind_tokens_are_stable() {
    assert_eq!(PathKind::Direct.as_str(), "direct");
    assert_eq!(PathKind::Relay.as_str(), "relay");
    assert_eq!(PathKind::RelayWithDirectCandidate.as_str(), "relay+direct-candidate");
    assert_eq!(PathKind::Unknown.as_str(), "unknown");
}

#[test]
fn the_selected_path_decides() {
    let p = |is_ip: bool, is_selected: bool| PathInfo { is_ip, is_relay: !is_ip, is_selected };
    assert_eq!(path_kind(&vec![p(true, true), p(false, false)]), PathKind::Direct);
    assert_eq!(path_kind(&vec![p(false, true)]), PathKind::Relay);
    assert_eq!(
        path_kind(&vec![p(false, true), p(true, false)]),
        PathKind::RelayWithDirectCandidate
    );
    assert_eq!(path_kind(&vec![]), PathKind::Unknown);
    let two = Duration::from_secs(2);
    assert!(is_settled(PathKind::Direct, Duration::from_secs(0), two));
    assert!(!is_settled(PathKind::Relay, Duration::from_secs(1), two));
    assert!(is_settled(PathKind::Relay, two, two));
}

fn sample(ts: u64, path: &str, peer: &str) -> PathSample {
    PathSample {
        ts,
        cmd: "ping".to_string(),
        peer_short: "s".to_string(),
        peer: peer.to_string(),
        path: path.to_string(),
        upgrade_ms: Some(120),
        relay_only: false,
    }
}

#[test]
fn round_trip_summary_counts_direct() {
    let peer = EndpointId { bytes: *SecretKey::from_bytes(&[9u8; 32]).public().as_bytes() };
    let s = sample_for(1, "ping", &peer, PathKind::Direct, Some(Duration::from_millis(120)), false);
    assert_eq!(s.path, "direct");
    assert_eq!(s.upgrade_ms, Some(120));
    let sum = load_summary(vec![Some(s)], None);
    assert_eq!((sum.total, sum.direct), (1, 1));
}

#[test]
fn trim_keeps_last_n() {
    let lines: Vec<String> = (0..10)
        .map(|i| {
            format!("{{\"ts\":{i},\"cmd\":\"ping\",\"peer_short\":\"x\",\"peer\":\"y\",\"path\":\"relay\"}}")
        })
        .collect();
    let lines = trim_lines(lines, 3);
    assert_eq!(lines.len(), 3);
    assert!(lines[0].contains("\"ts\":7"));
    assert!(lines[2].contains("\"ts\":9"));
}

#[test]
fn the_log_is_bounded_and_keeps_the_newest() {
    let full: Vec<String> = (0..MAX_LINES).map(|i| i.to_string()).collect();
    let after = record_sample(full, "new".to_string());
    assert_eq!(after.len(), MAX_LINES);
    assert_eq!(after[0], "1");
    assert_eq!(after.last().map(String::as_str), Some("new"));
    assert_eq!(record_sample_lossy(strings(&["a"]), None), strings(&["a"]));
}

#[test]
fn summaries_count_by_path() {
    let rows = vec![
        Some(sample(1, "direct", "p")),
        None,
        Some(sample(2, "relay", "p")),
        Some(sample(3, "relay+direct-candidate", "q")),
        Some(sample(4, "odd", "p")),
    ];
    let sum = load_summary(rows, None);
    assert_eq!(
        (sum.total, sum.direct, sum.relay, sum.relay_candidate, sum.unknown),
        (4, 1, 1, 1, 1)
    );
    assert_eq!(peer_direct_history(&sum, "p"), (1, 3));
    assert_eq!(stats_path(true, true).parts.last().map(String::as_str), Some("path-stats.jsonl"));
}

#[test]
fn only_the_last_rows_are_summarized() {
    let rows = vec![Some(sample(1, "direct", "p")), Some(sample(2, "relay", "p"))];
    let sum = load_summary(rows, Some(1));
    assert_eq!((sum.total, sum.direct, sum.relay), (1, 0, 1));
}

#[test]
fn a_measurement_is_stale_after_a_day() {
    let mut cache = RttCache::new();
    cache.insert("http://x".to_string(), Entry { rtt_ms: Some(1), updated_unix: 5 });
    let at = |now: u64| order_from_fresh_cache(&cache, &strings(&["http://x"]), now);
    assert_eq!(CACHE_TTL_SECS, 86_400);
    assert!(at(5 + 86_399).is_some());
    assert!(at(5 + 86_400).is_none());
}

#[test]
fn no_answer_comes_behind_the_slowest() {
    let mut cache = RttCache::new();
    cache.insert("dead".to_string(), Entry { rtt_ms: None, updated_unix: 5 });
    cache.insert("slow".to_string(), Entry { rtt_ms: Some(u64::MAX), updated_unix: 5 });
    let ordered = order_from_fresh_cache(&cache, &strings(&["dead", "slow"]), 5);
    assert_eq!(ordered.unwrap(), strings(&["slow", "dead"]));
    let probe = |i: usize, url: &str, rtt: Option<u64>| Probe {
        index: i,
        url: url.to_string(),
        rtt_nanos: rtt,
    };
    let ordered = order_by_connect_latency(&vec![
        probe(0, "dead", None),
        probe(1, "slow", Some(u64::MAX)),
    ]);
    assert_eq!(ordered, strings(&["slow", "dead"]));
}
