//! The help texts of the command line, and how they are shown.
//!
//! The structure of the command line is elsewhere; this table has the message
//! of every command and option, so that help is shown in the user's language.

use vstd::prelude::*;
use crate::helptext::{brief_help, brief_of, hard_wrap_help, wrapped_help};
use crate::i18n::{looked_up, lookup, Catalog};
use crate::text::same_text;

verus! {

/// What a message describes.
#[derive(Clone, Copy, Debug)]
pub enum Slot {
    /// The command, in the list of commands.
    About,
    /// The command, at the head of its own help.
    LongAbout,
    /// An option or argument.
    Arg(&'static str),
}

/// What a message describes, as a plain value.
pub enum SlotView {
    About,
    LongAbout,
    Arg(Seq<char>),
}

impl View for Slot {
    type V = SlotView;

    open spec fn view(&self) -> SlotView {
        match *self {
            Slot::About => SlotView::About,
            Slot::LongAbout => SlotView::LongAbout,
            Slot::Arg(name) => SlotView::Arg(name@),
        }
    }
}

/// A message of the help: the command it belongs to, as the words behind the
/// program's name, what it describes, and the message.
#[derive(Clone, Copy, Debug)]
pub struct HelpRow {
    pub path: &'static str,
    pub slot: Slot,
    pub msgid: &'static str,
}

impl View for HelpRow {
    type V = (Seq<char>, SlotView, Seq<char>);

    open spec fn view(&self) -> (Seq<char>, SlotView, Seq<char>) {
        (self.path@, self.slot@, self.msgid@)
    }
}

/// Rows as plain values.
pub open spec fn rows_of(v: Seq<HelpRow>) -> Seq<(Seq<char>, SlotView, Seq<char>)> {
    v.map_values(|r: HelpRow| r@)
}

fn row(out: &mut Vec<HelpRow>, path: &'static str, slot: Slot, msgid: &'static str)
    ensures
        rows_of(final(out)@) == rows_of(old(out)@).push((path@, slot@, msgid@)),
{
    let ghost before = rows_of(out@);
    out.push(HelpRow { path, slot, msgid });
    proof {
        assert(rows_of(out@) =~= before.push((path@, slot@, msgid@)));
    }
}

/// The message for the peer to dial; `-` reads it from stdin, on Unix.
pub open spec fn peer_to_message(unix: bool) -> Seq<char> {
    if unix {
        "Contact name, EndpointId, or short code. Use `-` to read one line from stdin. Also `LINK_P2P_TO`."@
    } else {
        "Contact name, EndpointId, or short code. Also `LINK_P2P_TO`."@
    }
}

fn peer_to_help(unix: bool) -> (r: &'static str)
    ensures
        r@ == peer_to_message(unix),
{
    if unix {
        "Contact name, EndpointId, or short code. Use `-` to read one line from stdin. Also `LINK_P2P_TO`."
    } else {
        "Contact name, EndpointId, or short code. Also `LINK_P2P_TO`."
    }
}

/// The program itself and its global options.
pub open spec fn global_help() -> Seq<(Seq<char>, SlotView, Seq<char>)> {
    seq![
        (""@, SlotView::About, "Minimal TCP-over-QUIC forwarder on iroh"@),
        (""@, SlotView::LongAbout, "link-p2p exposes a local TCP service to a P2P network (or dials one) over a direct, end-to-end encrypted QUIC connection. No TUN device, no root/admin privileges — just a persistent EndpointId and a QUIC hop."@),
        (""@, SlotView::Arg("identity"@), "Path to store/load this node's persistent secret key. If it doesn't exist yet, a new one is generated and saved there. Default: the XDG config dir, $XDG_CONFIG_HOME/link-p2p/identity.key (usually ~/.config/link-p2p/identity.key); a legacy ./identity.key in the working directory is migrated there once. Keep this stable if you want your EndpointId to stay the same across restarts."@),
        (""@, SlotView::Arg("ephemeral"@), "Use a temporary identity that is never written to disk: the EndpointId changes every start. Conflicts with --identity."@),
        (""@, SlotView::Arg("identity_passphrase"@), "Passphrase protecting the identity key file. When set, the key is stored encrypted (Argon2id + XChaCha20-Poly1305) instead of plaintext hex, so a disk/backup leak doesn't expose the key. Prefer the LINK_P2P_PASSPHRASE environment variable over passing it inline — the flag value is visible in `ps` and shell history. Conflicts with --ephemeral."@),
        (""@, SlotView::Arg("relay"@), "Custom relay URL(s), repeatable. Merged with n0 by default (keeps discovery); use --no-n0-relays to replace. Does NOT disable hole-punch — use --relay-only for a true relay-only baseline. Also LINK_P2P_RELAY (comma-separated) and config.toml."@),
        (""@, SlotView::Arg("relay_only"@), "Disable IP transports (no hole-punch / LAN direct); traffic stays on relay. Set on both peers for a reliable baseline. Conflicts with --to-addr. Also LINK_P2P_RELAY_ONLY."@),
        (""@, SlotView::Arg("no_n0_relays"@), "With --relay, use only the listed relays (no n0 public relays / discovery). Default merges custom relays into n0. Also LINK_P2P_NO_N0_RELAYS and config.toml relays.no_n0."@),
        (""@, SlotView::Arg("color"@), "Control colored output: auto (colors on TTY only), always, or never."@),
        (""@, SlotView::Arg("max_conns"@), "Maximum number of concurrent forwarded connections. 0 means unlimited. Prevents resource exhaustion on endpoints exposed to the network."@),
        (""@, SlotView::Arg("log_format"@), "Log output format: text (human-readable) or json (structured, for jq/CI pipelines)."@),
        (""@, SlotView::Arg("quiet"@), "Quiet user-facing banners (errors still print). Independent of RUST_LOG / -v."@),
        (""@, SlotView::Arg("verbose"@), "Increase tracing detail (-v, -vv). Ignored when RUST_LOG is set."@),
        (""@, SlotView::Arg("cc"@), "QUIC congestion controller: cubic (default) or bbr3. Also LINK_P2P_CC. See docs/architecture/performance.md."@),
        (""@, SlotView::Arg("send_window"@), "QUIC connection send window in bytes. Also LINK_P2P_SEND_WINDOW."@),
        (""@, SlotView::Arg("stream_recv_window"@), "QUIC per-stream receive window in bytes. Also LINK_P2P_STREAM_RECV_WINDOW."@),
        (""@, SlotView::Arg("keepalive"@), "QUIC keepalive interval in seconds (default 5). Keeps NAT UDP mappings alive; the typical home-router mapping expires after 20-30s of idle. Raise it on high-latency links, lower it where NAT timeouts are aggressive."@),
        (""@, SlotView::Arg("idle_timeout"@), "QUIC max idle timeout in seconds (default 30). After this long without traffic the peer is declared dead and the connection re-dialed. Raise it for lossy / high-latency links so a brief outage doesn't tear the connection down."@),
    ]
}

fn global_rows() -> (r: Vec<HelpRow>)
    ensures
        rows_of(r@) == global_help(),
{
    let mut out: Vec<HelpRow> = Vec::new();
    proof {
        assert(rows_of(out@) =~= Seq::empty());
    }
    row(
        &mut out,
        "",
        Slot::About,
        "Minimal TCP-over-QUIC forwarder on iroh",
    );
    row(
        &mut out,
        "",
        Slot::LongAbout,
        "link-p2p exposes a local TCP service to a P2P network (or dials one) over a direct, end-to-end encrypted QUIC connection. No TUN device, no root/admin privileges — just a persistent EndpointId and a QUIC hop.",
    );
    row(
        &mut out,
        "",
        Slot::Arg("identity"),
        "Path to store/load this node's persistent secret key. If it doesn't exist yet, a new one is generated and saved there. Default: the XDG config dir, $XDG_CONFIG_HOME/link-p2p/identity.key (usually ~/.config/link-p2p/identity.key); a legacy ./identity.key in the working directory is migrated there once. Keep this stable if you want your EndpointId to stay the same across restarts.",
    );
    row(
        &mut out,
        "",
        Slot::Arg("ephemeral"),
        "Use a temporary identity that is never written to disk: the EndpointId changes every start. Conflicts with --identity.",
    );
    row(
        &mut out,
        "",
        Slot::Arg("identity_passphrase"),
        "Passphrase protecting the identity key file. When set, the key is stored encrypted (Argon2id + XChaCha20-Poly1305) instead of plaintext hex, so a disk/backup leak doesn't expose the key. Prefer the LINK_P2P_PASSPHRASE environment variable over passing it inline — the flag value is visible in `ps` and shell history. Conflicts with --ephemeral.",
    );
    row(
        &mut out,
        "",
        Slot::Arg("relay"),
        "Custom relay URL(s), repeatable. Merged with n0 by default (keeps discovery); use --no-n0-relays to replace. Does NOT disable hole-punch — use --relay-only for a true relay-only baseline. Also LINK_P2P_RELAY (comma-separated) and config.toml.",
    );
    row(
        &mut out,
        "",
        Slot::Arg("relay_only"),
        "Disable IP transports (no hole-punch / LAN direct); traffic stays on relay. Set on both peers for a reliable baseline. Conflicts with --to-addr. Also LINK_P2P_RELAY_ONLY.",
    );
    row(
        &mut out,
        "",
        Slot::Arg("no_n0_relays"),
        "With --relay, use only the listed relays (no n0 public relays / discovery). Default merges custom relays into n0. Also LINK_P2P_NO_N0_RELAYS and config.toml relays.no_n0.",
    );
    row(
        &mut out,
        "",
        Slot::Arg("color"),
        "Control colored output: auto (colors on TTY only), always, or never.",
    );
    row(
        &mut out,
        "",
        Slot::Arg("max_conns"),
        "Maximum number of concurrent forwarded connections. 0 means unlimited. Prevents resource exhaustion on endpoints exposed to the network.",
    );
    row(
        &mut out,
        "",
        Slot::Arg("log_format"),
        "Log output format: text (human-readable) or json (structured, for jq/CI pipelines).",
    );
    row(
        &mut out,
        "",
        Slot::Arg("quiet"),
        "Quiet user-facing banners (errors still print). Independent of RUST_LOG / -v.",
    );
    row(
        &mut out,
        "",
        Slot::Arg("verbose"),
        "Increase tracing detail (-v, -vv). Ignored when RUST_LOG is set.",
    );
    row(
        &mut out,
        "",
        Slot::Arg("cc"),
        "QUIC congestion controller: cubic (default) or bbr3. Also LINK_P2P_CC. See docs/architecture/performance.md.",
    );
    row(
        &mut out,
        "",
        Slot::Arg("send_window"),
        "QUIC connection send window in bytes. Also LINK_P2P_SEND_WINDOW.",
    );
    row(
        &mut out,
        "",
        Slot::Arg("stream_recv_window"),
        "QUIC per-stream receive window in bytes. Also LINK_P2P_STREAM_RECV_WINDOW.",
    );
    row(
        &mut out,
        "",
        Slot::Arg("keepalive"),
        "QUIC keepalive interval in seconds (default 5). Keeps NAT UDP mappings alive; the typical home-router mapping expires after 20-30s of idle. Raise it on high-latency links, lower it where NAT timeouts are aggressive.",
    );
    row(
        &mut out,
        "",
        Slot::Arg("idle_timeout"),
        "QUIC max idle timeout in seconds (default 30). After this long without traffic the peer is declared dead and the connection re-dialed. Raise it for lossy / high-latency links so a brief outage doesn't tear the connection down.",
    );
    proof {
        assert(rows_of(out@) =~= global_help());
    }
    out
}

/// The stream commands.
pub open spec fn stream_help(unix: bool) -> Seq<(Seq<char>, SlotView, Seq<char>)> {
    seq![
        ("serve"@, SlotView::About, "Expose a local TCP service to the P2P network."@),
        ("serve"@, SlotView::Arg("forward"@), "Local address to forward incoming P2P streams to, e.g. 127.0.0.1:8080"@),
        ("serve"@, SlotView::Arg("proxy"@), "Generic proxy mode: dial the address from each stream's header instead of a fixed --forward target. Pairs with `connect --socks5-listen`."@),
        ("serve"@, SlotView::Arg("allow"@), "Only accept P2P connections from these EndpointIds (repeatable). Default: accept anyone who knows this node's EndpointId. Strongly recommended when the node is reachable from untrusted networks."@),
        ("serve"@, SlotView::Arg("allow_private"@), "In proxy mode, allow forwarding to private/loopback/link-local addresses (blocked by default to prevent SSRF — a malicious peer could otherwise make this node reach into your LAN or cloud metadata endpoints such as 169.254.169.254)."@),
        ("connect"@, SlotView::About, "Dial a remote node and expose it as a local TCP listener."@),
        ("connect"@, SlotView::Arg("to"@), peer_to_message(unix)),
        ("connect"@, SlotView::Arg("listen"@), "Local address to listen on, e.g. 127.0.0.1:9090"@),
        ("connect"@, SlotView::Arg("socks5_listen"@), "Speak SOCKS5 (no-auth, CONNECT only) on this local address; local clients can then reach any destination through the remote `serve --proxy`."@),
    ] + (if unix {
        seq![
        ("connect"@, SlotView::Arg("stdio"@), "Pipe stdin/stdout to one QUIC stream (ssh ProxyCommand / rsync -e). Status banners go to stderr."@),
    ]
    } else {
        Seq::empty()
    }) + seq![
        ("connect"@, SlotView::Arg("to_addr"@), "Direct address hint(s) for the peer (repeatable), e.g. its public ip:port or a LAN address. Dialed directly, skipping discovery — use it when you exchanged addresses out-of-band and want no DNS/pkarr lookup (also faster reconnects). May be combined with --relay, which then stays as the fallback path."@),
        ("ping"@, SlotView::About, "Measure RTT to a remote node over the P2P network."@),
        ("ping"@, SlotView::Arg("to"@), peer_to_message(unix)),
        ("ping"@, SlotView::Arg("to_addr"@), "Direct address hint(s) for the peer (repeatable) — see `connect --to-addr`. Dialed directly, skipping discovery."@),
        ("ping"@, SlotView::Arg("format"@), "Output format: text (default) or json (for jq)."@),
    ]
}

fn stream_rows(unix: bool) -> (r: Vec<HelpRow>)
    ensures
        rows_of(r@) == stream_help(unix),
{
    let mut out: Vec<HelpRow> = Vec::new();
    proof {
        assert(rows_of(out@) =~= Seq::empty());
    }
    row(
        &mut out,
        "serve",
        Slot::About,
        "Expose a local TCP service to the P2P network.",
    );
    row(
        &mut out,
        "serve",
        Slot::Arg("forward"),
        "Local address to forward incoming P2P streams to, e.g. 127.0.0.1:8080",
    );
    row(
        &mut out,
        "serve",
        Slot::Arg("proxy"),
        "Generic proxy mode: dial the address from each stream's header instead of a fixed --forward target. Pairs with `connect --socks5-listen`.",
    );
    row(
        &mut out,
        "serve",
        Slot::Arg("allow"),
        "Only accept P2P connections from these EndpointIds (repeatable). Default: accept anyone who knows this node's EndpointId. Strongly recommended when the node is reachable from untrusted networks.",
    );
    row(
        &mut out,
        "serve",
        Slot::Arg("allow_private"),
        "In proxy mode, allow forwarding to private/loopback/link-local addresses (blocked by default to prevent SSRF — a malicious peer could otherwise make this node reach into your LAN or cloud metadata endpoints such as 169.254.169.254).",
    );
    row(
        &mut out,
        "connect",
        Slot::About,
        "Dial a remote node and expose it as a local TCP listener.",
    );
    row(
        &mut out,
        "connect",
        Slot::Arg("to"),
        peer_to_help(unix),
    );
    row(
        &mut out,
        "connect",
        Slot::Arg("listen"),
        "Local address to listen on, e.g. 127.0.0.1:9090",
    );
    row(
        &mut out,
        "connect",
        Slot::Arg("socks5_listen"),
        "Speak SOCKS5 (no-auth, CONNECT only) on this local address; local clients can then reach any destination through the remote `serve --proxy`.",
    );
    if unix {
        row(
            &mut out,
            "connect",
            Slot::Arg("stdio"),
            "Pipe stdin/stdout to one QUIC stream (ssh ProxyCommand / rsync -e). Status banners go to stderr.",
        );
    }
    row(
        &mut out,
        "connect",
        Slot::Arg("to_addr"),
        "Direct address hint(s) for the peer (repeatable), e.g. its public ip:port or a LAN address. Dialed directly, skipping discovery — use it when you exchanged addresses out-of-band and want no DNS/pkarr lookup (also faster reconnects). May be combined with --relay, which then stays as the fallback path.",
    );
    row(
        &mut out,
        "ping",
        Slot::About,
        "Measure RTT to a remote node over the P2P network.",
    );
    row(
        &mut out,
        "ping",
        Slot::Arg("to"),
        peer_to_help(unix),
    );
    row(
        &mut out,
        "ping",
        Slot::Arg("to_addr"),
        "Direct address hint(s) for the peer (repeatable) — see `connect --to-addr`. Dialed directly, skipping discovery.",
    );
    row(
        &mut out,
        "ping",
        Slot::Arg("format"),
        "Output format: text (default) or json (for jq).",
    );
    proof {
        assert(rows_of(out@) =~= stream_help(unix));
    }
    out
}

/// Starting a mesh.
pub open spec fn mesh_up_help(unix: bool) -> Seq<(Seq<char>, SlotView, Seq<char>)> {
    seq![
        ("tun"@, SlotView::About, "Make machines reachable at the IP layer over QUIC datagrams (mesh with hub coordination)."@),
        ("tun"@, SlotView::LongAbout, "Make machines reachable at the IP layer over QUIC datagrams.\n\nCreates a TUN interface (needs root / CAP_NET_ADMIN on Linux and macOS, or Administrator + wintun.dll on Windows). Preferred day-to-day commands: `tun call` (1:1 phone), `tun join <hub>` (mesh channel), `tun status` / `tun peers` / `tun down`. Also `tun up --role phone|hub|spoke`. Foreground aliases: `tun serve` / `tun connect`. Prefer `--cc bbr3` on lossy paths. Dual-stack VIPs: 172.24.0.0/16 and fd24:ac18::/64 (omit --tun-ip/--tun-ip6 to auto-pick on collision) — see docs/subsystems/tun.md."@),
        ("tun up"@, SlotView::About, "Start the TUN mesh daemon (or run foreground with --foreground)."@),
        ("tun up"@, SlotView::LongAbout, "Start the TUN mesh.\n\nWithout `--foreground`, spawns a background daemon and returns after it is ready (Unix today; on Windows use `--foreground`). With `--foreground`, blocks like `tun serve` / `tun connect` (same code paths).\n\nRole defaults: if `--to` is set, role is `spoke`; otherwise `hub`. Roles: `hub`, `spoke`, `phone`. Do not pass `--role hub`/`phone` together with `--to`. `--role spoke` requires `--to <hub>`.\n\nAlready-running daemon → usage error (exit 2). Ready timeout → exit 4 (check tun.log). Init failure reported by the child → exit 3."@),
        ("tun up"@, SlotView::Arg("role"@), "`hub`, `spoke`, or `phone`. Default: spoke if `--to` is set, otherwise hub."@),
        ("tun up"@, SlotView::Arg("to"@), peer_to_message(unix)),
        ("tun up"@, SlotView::Arg("foreground"@), "Run in the foreground instead of daemonizing (alias of `tun serve` / `tun connect`)."@),
        ("tun up"@, SlotView::Arg("system"@), "Use system-service paths (e.g. `/run/link-p2p/tun.sock`). Requires `--foreground`; pin identity with `--identity`."@),
        ("tun up"@, SlotView::Arg("tun_ip"@), "Override this node's virtual IP (default: derived from its EndpointId, inside 172.24.0.0/16). Omit to auto-pick a free address."@),
        ("tun up"@, SlotView::Arg("tun_ip6"@), "Override this node's IPv6 VIP (default: derived in fd24:ac18::/64). Omit to auto-pick a free address."@),
        ("tun up"@, SlotView::Arg("mtu"@), "Upper bound for the TUN interface MTU (default 1280). The final MTU is min(this, the negotiated QUIC datagram max); values above 1280 are refused."@),
        ("tun up"@, SlotView::Arg("allow"@), "Only accept TUN mesh connections from these EndpointIds (repeatable). Default: accept anyone who knows this hub's EndpointId. Also LINK_P2P_ALLOW."@),
        ("tun up"@, SlotView::Arg("to_addr"@), "Direct address hint(s) for the hub (foreground spoke only) — see `connect --to-addr`."@),
        ("tun up"@, SlotView::Arg("hidden"@), "Spoke only: join without appearing on other spokes' rosters (hub still knows you)."@),
        ("tun join"@, SlotView::About, "Join a hub mesh channel (alias for `tun up --to <hub>`)."@),
        ("tun join"@, SlotView::Arg("to"@), peer_to_message(unix)),
        ("tun join"@, SlotView::Arg("hidden"@), "Join without appearing on other spokes' rosters (hub still knows you)."@),
        ("tun join"@, SlotView::Arg("foreground"@), "Run in the foreground instead of daemonizing."@),
        ("tun join"@, SlotView::Arg("tun_ip"@), "Override this node's virtual IP (default: derived from its EndpointId, inside 172.24.0.0/16). Omit to auto-pick a free address."@),
        ("tun join"@, SlotView::Arg("tun_ip6"@), "Override this node's IPv6 VIP (default: derived in fd24:ac18::/64). Omit to auto-pick a free address."@),
        ("tun join"@, SlotView::Arg("system"@), "Use system-service paths. Requires `--foreground`."@),
    ]
}

fn mesh_up_rows(unix: bool) -> (r: Vec<HelpRow>)
    ensures
        rows_of(r@) == mesh_up_help(unix),
{
    let mut out: Vec<HelpRow> = Vec::new();
    proof {
        assert(rows_of(out@) =~= Seq::empty());
    }
    row(
        &mut out,
        "tun",
        Slot::About,
        "Make machines reachable at the IP layer over QUIC datagrams (mesh with hub coordination).",
    );
    row(
        &mut out,
        "tun",
        Slot::LongAbout,
        "Make machines reachable at the IP layer over QUIC datagrams.\n\nCreates a TUN interface (needs root / CAP_NET_ADMIN on Linux and macOS, or Administrator + wintun.dll on Windows). Preferred day-to-day commands: `tun call` (1:1 phone), `tun join <hub>` (mesh channel), `tun status` / `tun peers` / `tun down`. Also `tun up --role phone|hub|spoke`. Foreground aliases: `tun serve` / `tun connect`. Prefer `--cc bbr3` on lossy paths. Dual-stack VIPs: 172.24.0.0/16 and fd24:ac18::/64 (omit --tun-ip/--tun-ip6 to auto-pick on collision) — see docs/subsystems/tun.md.",
    );
    row(
        &mut out,
        "tun up",
        Slot::About,
        "Start the TUN mesh daemon (or run foreground with --foreground).",
    );
    row(
        &mut out,
        "tun up",
        Slot::LongAbout,
        "Start the TUN mesh.\n\nWithout `--foreground`, spawns a background daemon and returns after it is ready (Unix today; on Windows use `--foreground`). With `--foreground`, blocks like `tun serve` / `tun connect` (same code paths).\n\nRole defaults: if `--to` is set, role is `spoke`; otherwise `hub`. Roles: `hub`, `spoke`, `phone`. Do not pass `--role hub`/`phone` together with `--to`. `--role spoke` requires `--to <hub>`.\n\nAlready-running daemon → usage error (exit 2). Ready timeout → exit 4 (check tun.log). Init failure reported by the child → exit 3.",
    );
    row(
        &mut out,
        "tun up",
        Slot::Arg("role"),
        "`hub`, `spoke`, or `phone`. Default: spoke if `--to` is set, otherwise hub.",
    );
    row(
        &mut out,
        "tun up",
        Slot::Arg("to"),
        peer_to_help(unix),
    );
    row(
        &mut out,
        "tun up",
        Slot::Arg("foreground"),
        "Run in the foreground instead of daemonizing (alias of `tun serve` / `tun connect`).",
    );
    row(
        &mut out,
        "tun up",
        Slot::Arg("system"),
        "Use system-service paths (e.g. `/run/link-p2p/tun.sock`). Requires `--foreground`; pin identity with `--identity`.",
    );
    row(
        &mut out,
        "tun up",
        Slot::Arg("tun_ip"),
        "Override this node's virtual IP (default: derived from its EndpointId, inside 172.24.0.0/16). Omit to auto-pick a free address.",
    );
    row(
        &mut out,
        "tun up",
        Slot::Arg("tun_ip6"),
        "Override this node's IPv6 VIP (default: derived in fd24:ac18::/64). Omit to auto-pick a free address.",
    );
    row(
        &mut out,
        "tun up",
        Slot::Arg("mtu"),
        "Upper bound for the TUN interface MTU (default 1280). The final MTU is min(this, the negotiated QUIC datagram max); values above 1280 are refused.",
    );
    row(
        &mut out,
        "tun up",
        Slot::Arg("allow"),
        "Only accept TUN mesh connections from these EndpointIds (repeatable). Default: accept anyone who knows this hub's EndpointId. Also LINK_P2P_ALLOW.",
    );
    row(
        &mut out,
        "tun up",
        Slot::Arg("to_addr"),
        "Direct address hint(s) for the hub (foreground spoke only) — see `connect --to-addr`.",
    );
    row(
        &mut out,
        "tun up",
        Slot::Arg("hidden"),
        "Spoke only: join without appearing on other spokes' rosters (hub still knows you).",
    );
    row(
        &mut out,
        "tun join",
        Slot::About,
        "Join a hub mesh channel (alias for `tun up --to <hub>`).",
    );
    row(
        &mut out,
        "tun join",
        Slot::Arg("to"),
        peer_to_help(unix),
    );
    row(
        &mut out,
        "tun join",
        Slot::Arg("hidden"),
        "Join without appearing on other spokes' rosters (hub still knows you).",
    );
    row(
        &mut out,
        "tun join",
        Slot::Arg("foreground"),
        "Run in the foreground instead of daemonizing.",
    );
    row(
        &mut out,
        "tun join",
        Slot::Arg("tun_ip"),
        "Override this node's virtual IP (default: derived from its EndpointId, inside 172.24.0.0/16). Omit to auto-pick a free address.",
    );
    row(
        &mut out,
        "tun join",
        Slot::Arg("tun_ip6"),
        "Override this node's IPv6 VIP (default: derived in fd24:ac18::/64). Omit to auto-pick a free address.",
    );
    row(
        &mut out,
        "tun join",
        Slot::Arg("system"),
        "Use system-service paths. Requires `--foreground`.",
    );
    proof {
        assert(rows_of(out@) =~= mesh_up_help(unix));
    }
    out
}

/// Asking the mesh daemon.
pub open spec fn mesh_daemon_help() -> Seq<(Seq<char>, SlotView, Seq<char>)> {
    seq![
        ("tun call"@, SlotView::About, "Phone-mode TUN call: dial a peer, or accept/reject a ringing call."@),
        ("tun call"@, SlotView::LongAbout, "1:1 TUN calls via the local daemon (remote-control).\n\n`tun call <contact|id>` — start phone daemon if needed, dial, short-poll status.\n`tun call accept <peer>` / `tun call reject <peer>` — decide a ringing stranger call.\nKnown contacts auto-accept; unknowns ring until accept/reject/timeout.\nSee also `tun ring` and daemon logs (`tun.log`)."@),
        ("tun call"@, SlotView::Arg("args"@), "`<peer>` to dial, or `accept|reject <peer>` for a ringing call."@),
        ("tun call"@, SlotView::Arg("no_wait"@), "Enqueue the dial and exit without polling status."@),
        ("tun call"@, SlotView::Arg("system"@), "Talk to the system-service daemon."@),
        ("tun ring"@, SlotView::About, "List pending inbound phone-mode TUN calls."@),
        ("tun ring"@, SlotView::Arg("system"@), "Query the system-service daemon."@),
        ("tun down"@, SlotView::About, "Stop the background TUN daemon."@),
        ("tun down"@, SlotView::LongAbout, "Ask the local TUN daemon to shut down and wait until it is gone. Safe to call when nothing is running (exit 0). Use `--system` for the supervisor-managed daemon."@),
        ("tun down"@, SlotView::Arg("system"@), "Target the system-service daemon (fixed runtime paths)."@),
        ("tun status"@, SlotView::About, "Show TUN daemon status (role, VIP, path, uptime)."@),
        ("tun status"@, SlotView::Arg("format"@), "Output format: text (default) or json (for jq)."@),
        ("tun status"@, SlotView::Arg("system"@), "Query the system-service daemon (fixed runtime paths)."@),
        ("tun peers"@, SlotView::About, "List mesh peers known to the local TUN daemon."@),
        ("tun peers"@, SlotView::Arg("format"@), "Output format: text (default) or json (for jq)."@),
        ("tun peers"@, SlotView::Arg("system"@), "Query the system-service daemon (fixed runtime paths)."@),
        ("tun selftest"@, SlotView::About, "Local diagnostics: relay TCP probe, wintun path, loopback echo drain."@),
        ("tun selftest"@, SlotView::LongAbout, "Checks that do not need python or nc: TCP-probe each --relay URL, verify Windows wintun.dll beside the exe, and run a loopback TCP echo drain. Useful when validating a host before starting the mesh."@),
        ("tun selftest"@, SlotView::Arg("no_echo"@), "Skip the loopback TCP echo drain (relay/wintun checks only)."@),
    ]
}

fn mesh_daemon_rows() -> (r: Vec<HelpRow>)
    ensures
        rows_of(r@) == mesh_daemon_help(),
{
    let mut out: Vec<HelpRow> = Vec::new();
    proof {
        assert(rows_of(out@) =~= Seq::empty());
    }
    row(
        &mut out,
        "tun call",
        Slot::About,
        "Phone-mode TUN call: dial a peer, or accept/reject a ringing call.",
    );
    row(
        &mut out,
        "tun call",
        Slot::LongAbout,
        "1:1 TUN calls via the local daemon (remote-control).\n\n`tun call <contact|id>` — start phone daemon if needed, dial, short-poll status.\n`tun call accept <peer>` / `tun call reject <peer>` — decide a ringing stranger call.\nKnown contacts auto-accept; unknowns ring until accept/reject/timeout.\nSee also `tun ring` and daemon logs (`tun.log`).",
    );
    row(
        &mut out,
        "tun call",
        Slot::Arg("args"),
        "`<peer>` to dial, or `accept|reject <peer>` for a ringing call.",
    );
    row(
        &mut out,
        "tun call",
        Slot::Arg("no_wait"),
        "Enqueue the dial and exit without polling status.",
    );
    row(
        &mut out,
        "tun call",
        Slot::Arg("system"),
        "Talk to the system-service daemon.",
    );
    row(
        &mut out,
        "tun ring",
        Slot::About,
        "List pending inbound phone-mode TUN calls.",
    );
    row(
        &mut out,
        "tun ring",
        Slot::Arg("system"),
        "Query the system-service daemon.",
    );
    row(
        &mut out,
        "tun down",
        Slot::About,
        "Stop the background TUN daemon.",
    );
    row(
        &mut out,
        "tun down",
        Slot::LongAbout,
        "Ask the local TUN daemon to shut down and wait until it is gone. Safe to call when nothing is running (exit 0). Use `--system` for the supervisor-managed daemon.",
    );
    row(
        &mut out,
        "tun down",
        Slot::Arg("system"),
        "Target the system-service daemon (fixed runtime paths).",
    );
    row(
        &mut out,
        "tun status",
        Slot::About,
        "Show TUN daemon status (role, VIP, path, uptime).",
    );
    row(
        &mut out,
        "tun status",
        Slot::Arg("format"),
        "Output format: text (default) or json (for jq).",
    );
    row(
        &mut out,
        "tun status",
        Slot::Arg("system"),
        "Query the system-service daemon (fixed runtime paths).",
    );
    row(
        &mut out,
        "tun peers",
        Slot::About,
        "List mesh peers known to the local TUN daemon.",
    );
    row(
        &mut out,
        "tun peers",
        Slot::Arg("format"),
        "Output format: text (default) or json (for jq).",
    );
    row(
        &mut out,
        "tun peers",
        Slot::Arg("system"),
        "Query the system-service daemon (fixed runtime paths).",
    );
    row(
        &mut out,
        "tun selftest",
        Slot::About,
        "Local diagnostics: relay TCP probe, wintun path, loopback echo drain.",
    );
    row(
        &mut out,
        "tun selftest",
        Slot::LongAbout,
        "Checks that do not need python or nc: TCP-probe each --relay URL, verify Windows wintun.dll beside the exe, and run a loopback TCP echo drain. Useful when validating a host before starting the mesh.",
    );
    row(
        &mut out,
        "tun selftest",
        Slot::Arg("no_echo"),
        "Skip the loopback TCP echo drain (relay/wintun checks only).",
    );
    proof {
        assert(rows_of(out@) =~= mesh_daemon_help());
    }
    out
}

/// The foreground roles of a mesh, and its system service.
pub open spec fn mesh_roles_help(unix: bool) -> Seq<(Seq<char>, SlotView, Seq<char>)> {
    seq![
        ("tun serve"@, SlotView::About, "Hub: roster + fallback forward for the virtual IP mesh (foreground)."@),
        ("tun serve"@, SlotView::LongAbout, "Hub: accept many concurrent peers, broadcast the VIP↔EndpointId roster, bridge this machine to each at the IP layer, and forward traffic when spokes have no direct path. Prints this node's virtual IP and EndpointId. Equivalent to `tun up --foreground --role hub`."@),
        ("tun serve"@, SlotView::Arg("tun_ip"@), "Override this node's virtual IP (default: derived from its EndpointId, inside 172.24.0.0/16). Omit to auto-pick a free address."@),
        ("tun serve"@, SlotView::Arg("tun_ip6"@), "Override this node's IPv6 VIP (default: derived in fd24:ac18::/64). Omit to auto-pick a free address."@),
        ("tun serve"@, SlotView::Arg("mtu"@), "Upper bound for the TUN interface MTU (default 1280). The final MTU is min(this, the negotiated QUIC datagram max); values above 1280 are refused."@),
        ("tun serve"@, SlotView::Arg("allow"@), "Only accept TUN mesh connections from these EndpointIds (repeatable). Default: accept anyone who knows this hub's EndpointId. Also LINK_P2P_ALLOW."@),
        ("tun connect"@, SlotView::About, "Dial a hub, join the mesh, and try direct peer links (foreground)."@),
        ("tun connect"@, SlotView::LongAbout, "Dial a `tun serve` hub, install 172.24.0.0/16 and fd24:ac18::/64 on the TUN, receive the mesh roster, and attempt direct links to other spokes (packets prefer direct; otherwise via hub). Equivalent to `tun up --foreground --role spoke --to <hub>`."@),
        ("tun connect"@, SlotView::Arg("to"@), peer_to_message(unix)),
        ("tun connect"@, SlotView::Arg("tun_ip"@), "Override this node's virtual IP (default: derived from its EndpointId, inside 172.24.0.0/16). Omit to auto-pick a free address."@),
        ("tun connect"@, SlotView::Arg("tun_ip6"@), "Override this node's IPv6 VIP (default: derived in fd24:ac18::/64). Omit to auto-pick a free address."@),
        ("tun connect"@, SlotView::Arg("mtu"@), "Upper bound for the TUN interface MTU (default 1280). The final MTU is min(this, the negotiated QUIC datagram max); values above 1280 are refused."@),
        ("tun connect"@, SlotView::Arg("to_addr"@), "Direct address hint(s) for the peer (repeatable) — see `connect --to-addr`. Dialed directly, skipping discovery."@),
        ("tun connect"@, SlotView::Arg("allow"@), "Only accept inbound direct mesh links from these EndpointIds (repeatable); also gates outbound peer dials. Hub dial is always attempted. Also LINK_P2P_ALLOW."@),
        ("tun connect"@, SlotView::Arg("hidden"@), "Omit yourself from other spokes' rosters (hub still knows you)."@),
        ("tun service"@, SlotView::About, "Install or remove a TUN system service (Linux systemd; macOS LaunchDaemon; Windows SCM)."@),
        ("tun service"@, SlotView::LongAbout, "Manage a platform service for `tun up --foreground --system`. Requires root/Administrator. Refuses to install if this binary is under a user-writable path. Identity defaults to /etc/link-p2p/identity.key (Unix) or %ProgramData%/link-p2p/identity.key (Windows). macOS runs as root LaunchDaemon; Linux uses a dedicated service user with CAP_NET_ADMIN; Windows runs as LocalSystem."@),
        ("tun service install"@, SlotView::About, "Install the TUN system service and start it."@),
        ("tun service install"@, SlotView::Arg("role"@), "`hub` or `spoke`. Default: spoke if `--to` is set, otherwise hub."@),
        ("tun service install"@, SlotView::Arg("to"@), peer_to_message(unix)),
        ("tun service install"@, SlotView::Arg("identity"@), "Service identity key path (default /etc/link-p2p/identity.key)."@),
        ("tun service install"@, SlotView::Arg("user"@), "Linux systemd only: Unix user the service runs as (default link-p2p). Ignored on macOS (root LaunchDaemon)."@),
        ("tun service uninstall"@, SlotView::About, "Disable and remove the TUN system service."@),
    ]
}

fn mesh_roles_rows(unix: bool) -> (r: Vec<HelpRow>)
    ensures
        rows_of(r@) == mesh_roles_help(unix),
{
    let mut out: Vec<HelpRow> = Vec::new();
    proof {
        assert(rows_of(out@) =~= Seq::empty());
    }
    row(
        &mut out,
        "tun serve",
        Slot::About,
        "Hub: roster + fallback forward for the virtual IP mesh (foreground).",
    );
    row(
        &mut out,
        "tun serve",
        Slot::LongAbout,
        "Hub: accept many concurrent peers, broadcast the VIP↔EndpointId roster, bridge this machine to each at the IP layer, and forward traffic when spokes have no direct path. Prints this node's virtual IP and EndpointId. Equivalent to `tun up --foreground --role hub`.",
    );
    row(
        &mut out,
        "tun serve",
        Slot::Arg("tun_ip"),
        "Override this node's virtual IP (default: derived from its EndpointId, inside 172.24.0.0/16). Omit to auto-pick a free address.",
    );
    row(
        &mut out,
        "tun serve",
        Slot::Arg("tun_ip6"),
        "Override this node's IPv6 VIP (default: derived in fd24:ac18::/64). Omit to auto-pick a free address.",
    );
    row(
        &mut out,
        "tun serve",
        Slot::Arg("mtu"),
        "Upper bound for the TUN interface MTU (default 1280). The final MTU is min(this, the negotiated QUIC datagram max); values above 1280 are refused.",
    );
    row(
        &mut out,
        "tun serve",
        Slot::Arg("allow"),
        "Only accept TUN mesh connections from these EndpointIds (repeatable). Default: accept anyone who knows this hub's EndpointId. Also LINK_P2P_ALLOW.",
    );
    row(
        &mut out,
        "tun connect",
        Slot::About,
        "Dial a hub, join the mesh, and try direct peer links (foreground).",
    );
    row(
        &mut out,
        "tun connect",
        Slot::LongAbout,
        "Dial a `tun serve` hub, install 172.24.0.0/16 and fd24:ac18::/64 on the TUN, receive the mesh roster, and attempt direct links to other spokes (packets prefer direct; otherwise via hub). Equivalent to `tun up --foreground --role spoke --to <hub>`.",
    );
    row(
        &mut out,
        "tun connect",
        Slot::Arg("to"),
        peer_to_help(unix),
    );
    row(
        &mut out,
        "tun connect",
        Slot::Arg("tun_ip"),
        "Override this node's virtual IP (default: derived from its EndpointId, inside 172.24.0.0/16). Omit to auto-pick a free address.",
    );
    row(
        &mut out,
        "tun connect",
        Slot::Arg("tun_ip6"),
        "Override this node's IPv6 VIP (default: derived in fd24:ac18::/64). Omit to auto-pick a free address.",
    );
    row(
        &mut out,
        "tun connect",
        Slot::Arg("mtu"),
        "Upper bound for the TUN interface MTU (default 1280). The final MTU is min(this, the negotiated QUIC datagram max); values above 1280 are refused.",
    );
    row(
        &mut out,
        "tun connect",
        Slot::Arg("to_addr"),
        "Direct address hint(s) for the peer (repeatable) — see `connect --to-addr`. Dialed directly, skipping discovery.",
    );
    row(
        &mut out,
        "tun connect",
        Slot::Arg("allow"),
        "Only accept inbound direct mesh links from these EndpointIds (repeatable); also gates outbound peer dials. Hub dial is always attempted. Also LINK_P2P_ALLOW.",
    );
    row(
        &mut out,
        "tun connect",
        Slot::Arg("hidden"),
        "Omit yourself from other spokes' rosters (hub still knows you).",
    );
    row(
        &mut out,
        "tun service",
        Slot::About,
        "Install or remove a TUN system service (Linux systemd; macOS LaunchDaemon; Windows SCM).",
    );
    row(
        &mut out,
        "tun service",
        Slot::LongAbout,
        "Manage a platform service for `tun up --foreground --system`. Requires root/Administrator. Refuses to install if this binary is under a user-writable path. Identity defaults to /etc/link-p2p/identity.key (Unix) or %ProgramData%/link-p2p/identity.key (Windows). macOS runs as root LaunchDaemon; Linux uses a dedicated service user with CAP_NET_ADMIN; Windows runs as LocalSystem.",
    );
    row(
        &mut out,
        "tun service install",
        Slot::About,
        "Install the TUN system service and start it.",
    );
    row(
        &mut out,
        "tun service install",
        Slot::Arg("role"),
        "`hub` or `spoke`. Default: spoke if `--to` is set, otherwise hub.",
    );
    row(
        &mut out,
        "tun service install",
        Slot::Arg("to"),
        peer_to_help(unix),
    );
    row(
        &mut out,
        "tun service install",
        Slot::Arg("identity"),
        "Service identity key path (default /etc/link-p2p/identity.key).",
    );
    row(
        &mut out,
        "tun service install",
        Slot::Arg("user"),
        "Linux systemd only: Unix user the service runs as (default link-p2p). Ignored on macOS (root LaunchDaemon).",
    );
    row(
        &mut out,
        "tun service uninstall",
        Slot::About,
        "Disable and remove the TUN system service.",
    );
    proof {
        assert(rows_of(out@) =~= mesh_roles_help(unix));
    }
    out
}

/// Phone mode.
pub open spec fn call_help() -> Seq<(Seq<char>, SlotView, Seq<char>)> {
    seq![
        ("call"@, SlotView::About, "Phone-mode stream call: standing callee + dial / ring / accept."@),
        ("call"@, SlotView::LongAbout, "Standing callee daemon (like tun call, without TUN). Start with `call up` (or dial and auto-spawn), then the peer runs `call <your-name>`. Known contacts auto-accept; strangers ring until `call accept` / `call reject` / timeout. Use serve/connect for explicit roles."@),
        ("call"@, SlotView::Arg("args"@), "`up` | `down` | `ring` | `status` | `accept <peer>` | `reject <peer>` | `<peer>` to dial."@),
        ("call"@, SlotView::Arg("listen"@), "Local TCP address to listen on; connections are forwarded to the peer."@),
        ("call"@, SlotView::Arg("forward"@), "Local TCP target for streams the peer opens to us (optional)."@),
        ("call"@, SlotView::Arg("to_addr"@), "Direct address hint(s) for the peer (repeatable)."@),
        ("call"@, SlotView::Arg("no_wait"@), "Return after enqueueing a dial on the standing daemon."@),
        ("call"@, SlotView::Arg("foreground"@), "With `call up`: run in the foreground (do not daemonize)."@),
    ]
}

fn call_rows() -> (r: Vec<HelpRow>)
    ensures
        rows_of(r@) == call_help(),
{
    let mut out: Vec<HelpRow> = Vec::new();
    proof {
        assert(rows_of(out@) =~= Seq::empty());
    }
    row(
        &mut out,
        "call",
        Slot::About,
        "Phone-mode stream call: standing callee + dial / ring / accept.",
    );
    row(
        &mut out,
        "call",
        Slot::LongAbout,
        "Standing callee daemon (like tun call, without TUN). Start with `call up` (or dial and auto-spawn), then the peer runs `call <your-name>`. Known contacts auto-accept; strangers ring until `call accept` / `call reject` / timeout. Use serve/connect for explicit roles.",
    );
    row(
        &mut out,
        "call",
        Slot::Arg("args"),
        "`up` | `down` | `ring` | `status` | `accept <peer>` | `reject <peer>` | `<peer>` to dial.",
    );
    row(
        &mut out,
        "call",
        Slot::Arg("listen"),
        "Local TCP address to listen on; connections are forwarded to the peer.",
    );
    row(
        &mut out,
        "call",
        Slot::Arg("forward"),
        "Local TCP target for streams the peer opens to us (optional).",
    );
    row(
        &mut out,
        "call",
        Slot::Arg("to_addr"),
        "Direct address hint(s) for the peer (repeatable).",
    );
    row(
        &mut out,
        "call",
        Slot::Arg("no_wait"),
        "Return after enqueueing a dial on the standing daemon.",
    );
    row(
        &mut out,
        "call",
        Slot::Arg("foreground"),
        "With `call up`: run in the foreground (do not daemonize).",
    );
    proof {
        assert(rows_of(out@) =~= call_help());
    }
    out
}

/// The contact book and the configuration.
pub open spec fn book_help() -> Seq<(Seq<char>, SlotView, Seq<char>)> {
    seq![
        ("contact"@, SlotView::About, "Manage the local contacts book (names → EndpointId)."@),
        ("contact add"@, SlotView::About, "Add or update a contact."@),
        ("contact add"@, SlotView::Arg("name"@), "Local nickname."@),
        ("contact add"@, SlotView::Arg("id"@), "EndpointId hex or short code (from the peer's SHORT_CODE= line)."@),
        ("contact remove"@, SlotView::About, "Remove a contact."@),
        ("contact remove"@, SlotView::Arg("name"@), "Local nickname."@),
        ("contact list"@, SlotView::About, "List contacts."@),
        ("contact code"@, SlotView::About, "Print this node's short code (and EndpointId)."@),
        ("config"@, SlotView::About, "Read or write ~/.config/link-p2p/config.toml defaults."@),
        ("config init"@, SlotView::About, "Write a default config.toml (refuses to overwrite unless --force)."@),
        ("config init"@, SlotView::Arg("force"@), "Replace an existing config file."@),
        ("config path"@, SlotView::About, "Print the resolved config file path."@),
    ]
}

fn book_rows() -> (r: Vec<HelpRow>)
    ensures
        rows_of(r@) == book_help(),
{
    let mut out: Vec<HelpRow> = Vec::new();
    proof {
        assert(rows_of(out@) =~= Seq::empty());
    }
    row(
        &mut out,
        "contact",
        Slot::About,
        "Manage the local contacts book (names → EndpointId).",
    );
    row(
        &mut out,
        "contact add",
        Slot::About,
        "Add or update a contact.",
    );
    row(
        &mut out,
        "contact add",
        Slot::Arg("name"),
        "Local nickname.",
    );
    row(
        &mut out,
        "contact add",
        Slot::Arg("id"),
        "EndpointId hex or short code (from the peer's SHORT_CODE= line).",
    );
    row(
        &mut out,
        "contact remove",
        Slot::About,
        "Remove a contact.",
    );
    row(
        &mut out,
        "contact remove",
        Slot::Arg("name"),
        "Local nickname.",
    );
    row(
        &mut out,
        "contact list",
        Slot::About,
        "List contacts.",
    );
    row(
        &mut out,
        "contact code",
        Slot::About,
        "Print this node's short code (and EndpointId).",
    );
    row(
        &mut out,
        "config",
        Slot::About,
        "Read or write ~/.config/link-p2p/config.toml defaults.",
    );
    row(
        &mut out,
        "config init",
        Slot::About,
        "Write a default config.toml (refuses to overwrite unless --force).",
    );
    row(
        &mut out,
        "config init",
        Slot::Arg("force"),
        "Replace an existing config file.",
    );
    row(
        &mut out,
        "config path",
        Slot::About,
        "Print the resolved config file path.",
    );
    proof {
        assert(rows_of(out@) =~= book_help());
    }
    out
}

/// Diagnostics and generated text.
pub open spec fn tools_help(unix: bool) -> Seq<(Seq<char>, SlotView, Seq<char>)> {
    seq![
        ("stats"@, SlotView::About, "Show local direct-vs-relay path history."@),
        ("stats"@, SlotView::LongAbout, "Aggregates samples written by ping and by connect/call/tun sessions when a connection closes (path kind + time-to-direct). Share ~/.config/link-p2p/path-stats.jsonl when debugging NAT — no lab required."@),
        ("stats"@, SlotView::Arg("last"@), "How many recent samples to include (default 100)."@),
        ("stats"@, SlotView::Arg("format"@), "Output format: text (default) or json (for jq)."@),
        ("selftest"@, SlotView::About, "Host diagnostics: relay TCP probe and loopback echo (no identity)."@),
        ("selftest"@, SlotView::LongAbout, "Run before first serve/connect/call when a dial times out. TCP-probes each --relay URL (note: TCP ok does not prove UDP/QUIC or that a peer will answer a ring), then a loopback echo. Pass --tun for wintun/system-identity checks (same as tun selftest)."@),
        ("selftest"@, SlotView::Arg("no_echo"@), "Skip the loopback TCP echo drain."@),
        ("selftest"@, SlotView::Arg("tun"@), "Also run TUN-oriented checks (wintun path, system identity directory)."@),
        ("completions"@, SlotView::About, "Print a static shell completion script to stdout."@),
        ("completions"@, SlotView::LongAbout, "Print a static (AOT) shell completion script to stdout.\n\nPrefer dynamic completions so contact names stay live: add `source <(COMPLETE=bash link-p2p)` to your shell rc (fish/zsh/powershell — see docs/user-guide/usage.md). Use this subcommand when packaging files, e.g. `link-p2p completions fish > ~/.config/fish/completions/link-p2p.fish`."@),
        ("completions"@, SlotView::Arg("shell"@), "Which shell to generate a completion script for."@),
    ] + (if unix {
        seq![
        ("man"@, SlotView::About, "Print a man page (troff) for link-p2p to stdout."@),
    ]
    } else {
        Seq::empty()
    }) + seq![
        ("help"@, SlotView::About, "Print this message or the help of the given subcommand(s)"@),
        ("help"@, SlotView::Arg("sub"@), "Print help for the subcommand(s)"@),
    ]
}

fn tools_rows(unix: bool) -> (r: Vec<HelpRow>)
    ensures
        rows_of(r@) == tools_help(unix),
{
    let mut out: Vec<HelpRow> = Vec::new();
    proof {
        assert(rows_of(out@) =~= Seq::empty());
    }
    row(
        &mut out,
        "stats",
        Slot::About,
        "Show local direct-vs-relay path history.",
    );
    row(
        &mut out,
        "stats",
        Slot::LongAbout,
        "Aggregates samples written by ping and by connect/call/tun sessions when a connection closes (path kind + time-to-direct). Share ~/.config/link-p2p/path-stats.jsonl when debugging NAT — no lab required.",
    );
    row(
        &mut out,
        "stats",
        Slot::Arg("last"),
        "How many recent samples to include (default 100).",
    );
    row(
        &mut out,
        "stats",
        Slot::Arg("format"),
        "Output format: text (default) or json (for jq).",
    );
    row(
        &mut out,
        "selftest",
        Slot::About,
        "Host diagnostics: relay TCP probe and loopback echo (no identity).",
    );
    row(
        &mut out,
        "selftest",
        Slot::LongAbout,
        "Run before first serve/connect/call when a dial times out. TCP-probes each --relay URL (note: TCP ok does not prove UDP/QUIC or that a peer will answer a ring), then a loopback echo. Pass --tun for wintun/system-identity checks (same as tun selftest).",
    );
    row(
        &mut out,
        "selftest",
        Slot::Arg("no_echo"),
        "Skip the loopback TCP echo drain.",
    );
    row(
        &mut out,
        "selftest",
        Slot::Arg("tun"),
        "Also run TUN-oriented checks (wintun path, system identity directory).",
    );
    row(
        &mut out,
        "completions",
        Slot::About,
        "Print a static shell completion script to stdout.",
    );
    row(
        &mut out,
        "completions",
        Slot::LongAbout,
        "Print a static (AOT) shell completion script to stdout.\n\nPrefer dynamic completions so contact names stay live: add `source <(COMPLETE=bash link-p2p)` to your shell rc (fish/zsh/powershell — see docs/user-guide/usage.md). Use this subcommand when packaging files, e.g. `link-p2p completions fish > ~/.config/fish/completions/link-p2p.fish`.",
    );
    row(
        &mut out,
        "completions",
        Slot::Arg("shell"),
        "Which shell to generate a completion script for.",
    );
    if unix {
        row(
            &mut out,
            "man",
            Slot::About,
            "Print a man page (troff) for link-p2p to stdout.",
        );
    }
    row(
        &mut out,
        "help",
        Slot::About,
        "Print this message or the help of the given subcommand(s)",
    );
    row(
        &mut out,
        "help",
        Slot::Arg("sub"),
        "Print help for the subcommand(s)",
    );
    proof {
        assert(rows_of(out@) =~= tools_help(unix));
    }
    out
}

fn extend(out: &mut Vec<HelpRow>, more: Vec<HelpRow>)
    ensures
        rows_of(final(out)@) == rows_of(old(out)@) + rows_of(more@),
{
    let ghost before = rows_of(out@);
    let mut i: usize = 0;
    proof {
        assert(before + rows_of(more@).take(0) =~= before);
    }
    while i < more.len()
        invariant
            i <= more@.len(),
            rows_of(out@) == before + rows_of(more@).take(i as int),
        decreases more@.len() - i,
    {
        let r = more[i];
        let ghost now = rows_of(out@);
        row(out, r.path, r.slot, r.msgid);
        proof {
            assert(rows_of(more@)[i as int] == r@);
            assert(now.push(r@) =~= before + rows_of(more@).take(i + 1));
        }
        i = i + 1;
    }
    proof {
        assert(rows_of(more@).take(more@.len() as int) =~= rows_of(more@));
    }
}

/// All help messages.
pub open spec fn help_table(unix: bool) -> Seq<(Seq<char>, SlotView, Seq<char>)> {
    global_help() + stream_help(unix) + mesh_up_help(unix) + mesh_daemon_help() + mesh_roles_help(unix) + call_help() + book_help() + tools_help(unix)
}

/// All help messages.
pub fn help_rows(unix: bool) -> (r: Vec<HelpRow>)
    ensures
        rows_of(r@) == help_table(unix),
{
    let mut out = global_rows();
    extend(&mut out, stream_rows(unix));
    extend(&mut out, mesh_up_rows(unix));
    extend(&mut out, mesh_daemon_rows());
    extend(&mut out, mesh_roles_rows(unix));
    extend(&mut out, call_rows());
    extend(&mut out, book_rows());
    extend(&mut out, tools_rows(unix));
    out
}

/// The message of the first row for this command and slot.
pub open spec fn message_for(
    rows: Seq<(Seq<char>, SlotView, Seq<char>)>,
    path: Seq<char>,
    slot: SlotView,
) -> Option<Seq<char>>
    decreases rows.len(),
{
    if rows.len() == 0 {
        None
    } else if rows[0].0 == path && rows[0].1 == slot {
        Some(rows[0].2)
    } else {
        message_for(rows.skip(1), path, slot)
    }
}

/// What is looked for.
#[derive(Clone, Copy, Debug)]
pub enum Wanted<'a> {
    About,
    LongAbout,
    Arg(&'a str),
}

impl<'a> View for Wanted<'a> {
    type V = SlotView;

    open spec fn view(&self) -> SlotView {
        match *self {
            Wanted::About => SlotView::About,
            Wanted::LongAbout => SlotView::LongAbout,
            Wanted::Arg(name) => SlotView::Arg(name@),
        }
    }
}

fn same_slot(a: Slot, b: Wanted<'_>) -> (r: bool)
    ensures
        r == (a@ == b@),
{
    match (a, b) {
        (Slot::About, Wanted::About) => true,
        (Slot::LongAbout, Wanted::LongAbout) => true,
        (Slot::Arg(x), Wanted::Arg(y)) => same_text(x, y),
        _ => false,
    }
}

/// The message for a command and slot.
pub fn find_message(rows: &Vec<HelpRow>, path: &str, want: Wanted<'_>) -> (r: Option<&'static str>)
    ensures
        match r {
            Some(m) => message_for(rows_of(rows@), path@, want@) == Some(m@),
            None => message_for(rows_of(rows@), path@, want@) is None,
        },
{
    let mut i: usize = 0;
    proof {
        assert(rows_of(rows@).skip(0) =~= rows_of(rows@));
    }
    while i < rows.len()
        invariant
            i <= rows@.len(),
            message_for(rows_of(rows@), path@, want@) == message_for(
                rows_of(rows@).skip(i as int),
                path@,
                want@,
            ),
        decreases rows@.len() - i,
    {
        proof {
            assert(rows_of(rows@).skip(i as int)[0] == rows@[i as int]@);
            assert(rows_of(rows@).skip(i as int).skip(1) =~= rows_of(rows@).skip(i + 1));
        }
        let row = rows[i];
        if same_text(row.path, path) && same_slot(row.slot, want) {
            return Some(row.msgid);
        }
        i = i + 1;
    }
    None
}

/// The short and the long help of an option: the first sentence, and all of
/// it wrapped.
pub fn arg_help(catalog: &Catalog, rows: &Vec<HelpRow>, path: &str, arg: &str) -> (r: Option<
    (String, String),
>)
    ensures
        match message_for(rows_of(rows@), path@, SlotView::Arg(arg@)) {
            Some(m) => r is Some && (r->0).0@ == brief_of(looked_up(catalog@, m)) && (r->0).1@
                == wrapped_help(looked_up(catalog@, m)),
            None => r is None,
        },
{
    match find_message(rows, path, Wanted::Arg(arg)) {
        Some(m) => {
            let full = lookup(catalog, m);
            Some((brief_help(full.as_str()), hard_wrap_help(full.as_str())))
        },
        None => None,
    }
}

/// What a command is about, in the list of commands.
pub fn about(catalog: &Catalog, rows: &Vec<HelpRow>, path: &str) -> (r: Option<String>)
    ensures
        match message_for(rows_of(rows@), path@, SlotView::About) {
            Some(m) => r is Some && r->0@ == looked_up(catalog@, m),
            None => r is None,
        },
{
    match find_message(rows, path, Wanted::About) {
        Some(m) => Some(lookup(catalog, m)),
        None => None,
    }
}

/// What a command is about, at the head of its own help.
pub fn long_about(catalog: &Catalog, rows: &Vec<HelpRow>, path: &str) -> (r: Option<String>)
    ensures
        match message_for(rows_of(rows@), path@, SlotView::LongAbout) {
            Some(m) => r is Some && r->0@ == wrapped_help(looked_up(catalog@, m)),
            None => r is None,
        },
{
    match find_message(rows, path, Wanted::LongAbout) {
        Some(m) => Some(hard_wrap_help(lookup(catalog, m).as_str())),
        None => None,
    }
}

/// The short and the long help of `--help` itself.
pub fn help_flag(catalog: &Catalog) -> (r: (String, String))
    ensures
        r.0@ == looked_up(catalog@, "Print help"@),
        r.1@ == looked_up(
            catalog@,
            "Print help. `-h` lists commands and examples; `--help` shows full option details."@,
        ),
{
    (
        lookup(catalog, "Print help"),
        lookup(
            catalog,
            "Print help. `-h` lists commands and examples; `--help` shows full option details.",
        ),
    )
}

/// The help of `--version`.
pub fn version_flag(catalog: &Catalog) -> (r: String)
    ensures
        r@ == looked_up(catalog@, "Print version"@),
{
    lookup(catalog, "Print version")
}

/// The systems whose help differs.
#[derive(Clone, Copy, Debug, PartialEq, Eq, Structural)]
pub enum HelpSystem {
    Unix,
    Windows,
    Other,
}

/// The quick start behind the help of the program.
pub open spec fn quick_start(system: HelpSystem) -> Seq<char> {
    match system {
        HelpSystem::Unix => "QUICK START (same verbs; stream phone vs TUN phone):\n    link-p2p call up --listen 127.0.0.1:2222 --forward 127.0.0.1:22\n    link-p2p call <peer> --listen 127.0.0.1:2222 --forward 127.0.0.1:22\n    link-p2p tun call <peer>   # whole-machine VIP (needs root)\n    link-p2p contact add alice <peer EndpointId>\n    link-p2p selftest\n\nALTERNATE (explicit roles):\n    link-p2p serve --forward 127.0.0.1:22\n    link-p2p connect --to <EndpointId> --listen 127.0.0.1:2222\n\nUNIX-ONLY:\n    connect --stdio, --to -, link-p2p man\n\nCOMPLETIONS:\n    source <(COMPLETE=bash link-p2p)   # or fish/zsh; see docs\n    link-p2p completions fish|bash|zsh > …   # static AOT fallback\n\nSee docs/user-guide/platforms.md and README.md."@,
        HelpSystem::Windows => "QUICK START (same verbs; stream phone vs TUN phone):\n    link-p2p call up --listen 127.0.0.1:13389 --forward 127.0.0.1:3389\n    link-p2p call <peer> --listen 127.0.0.1:13389 --forward 127.0.0.1:3389\n    link-p2p tun call <peer>\n    link-p2p contact add alice <peer EndpointId>\n    link-p2p selftest\n\nALTERNATE (explicit roles):\n    link-p2p serve --forward 127.0.0.1:3389\n    link-p2p connect --to <EndpointId> --listen 127.0.0.1:13389\n\nCOMPLETIONS:\n    $env:COMPLETE='powershell'; link-p2p | Out-String | Invoke-Expression\n    link-p2p completions powershell   # static AOT fallback\n\nTUN mode needs Administrator + wintun.dll beside the binary. See docs/user-guide/platforms.md and README.md."@,
        HelpSystem::Other => "See README.md. TUN mode supports Linux, macOS, and Windows."@,
    }
}

/// The quick start behind the help of the program.
pub fn platform_after_help(catalog: &Catalog, system: HelpSystem) -> (r: String)
    ensures
        r@ == looked_up(catalog@, quick_start(system)),
{
    match system {
        HelpSystem::Unix => lookup(
            catalog,
            "QUICK START (same verbs; stream phone vs TUN phone):\n    link-p2p call up --listen 127.0.0.1:2222 --forward 127.0.0.1:22\n    link-p2p call <peer> --listen 127.0.0.1:2222 --forward 127.0.0.1:22\n    link-p2p tun call <peer>   # whole-machine VIP (needs root)\n    link-p2p contact add alice <peer EndpointId>\n    link-p2p selftest\n\nALTERNATE (explicit roles):\n    link-p2p serve --forward 127.0.0.1:22\n    link-p2p connect --to <EndpointId> --listen 127.0.0.1:2222\n\nUNIX-ONLY:\n    connect --stdio, --to -, link-p2p man\n\nCOMPLETIONS:\n    source <(COMPLETE=bash link-p2p)   # or fish/zsh; see docs\n    link-p2p completions fish|bash|zsh > …   # static AOT fallback\n\nSee docs/user-guide/platforms.md and README.md.",
        ),
        HelpSystem::Windows => lookup(
            catalog,
            "QUICK START (same verbs; stream phone vs TUN phone):\n    link-p2p call up --listen 127.0.0.1:13389 --forward 127.0.0.1:3389\n    link-p2p call <peer> --listen 127.0.0.1:13389 --forward 127.0.0.1:3389\n    link-p2p tun call <peer>\n    link-p2p contact add alice <peer EndpointId>\n    link-p2p selftest\n\nALTERNATE (explicit roles):\n    link-p2p serve --forward 127.0.0.1:3389\n    link-p2p connect --to <EndpointId> --listen 127.0.0.1:13389\n\nCOMPLETIONS:\n    $env:COMPLETE='powershell'; link-p2p | Out-String | Invoke-Expression\n    link-p2p completions powershell   # static AOT fallback\n\nTUN mode needs Administrator + wintun.dll beside the binary. See docs/user-guide/platforms.md and README.md.",
        ),
        HelpSystem::Other => lookup(
            catalog,
            "See README.md. TUN mode supports Linux, macOS, and Windows.",
        ),
    }
}

} // verus!
