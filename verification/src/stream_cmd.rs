//! The stream commands: what `serve`, `connect`, `ping`, `contact` and
//! `config` decide and show.

use vstd::prelude::*;
use crate::contacts::{peer_of, resolve, short_code, encode_short_code, ContactBook, ResolvedPeer};
use crate::endpoint::{endpoint_refusal, endpoint_token, parse_endpoint_id, EndpointId};
use crate::exit;
use crate::exit::{says, says_because, usage, usage_because, Error};
use crate::i18n::{looked_up, lookup, said, say1, say2, Catalog};
use crate::net::SocketAddr;
use crate::path_kind::PathKind;
use crate::runtime::{
    allow_cause, allow_refusal, first_bad_id, holds_id, id_views, lemma_first_bad_id_stays,
    reject_relay_only_with_to_addr, ServeMode,
};
use crate::style::{lines_of, put, Line, Tone};
use crate::text::{decimal, decimal_of, hex_of, join, join_of, texts};
use crate::time::{Duration, SECOND};

verus! {

/// What `connect` offers locally.
#[derive(Clone, Copy, Debug, PartialEq, Eq, Structural)]
pub enum ConnectMode {
    Listen(SocketAddr),
    Socks5(SocketAddr),
    Stdio,
}

/// What `serve` does with streams: exactly one of `--forward` and `--proxy`.
pub fn serve_mode(
    catalog: &Catalog,
    forward: Option<SocketAddr>,
    proxy: bool,
    allow_private: bool,
) -> (r: Result<ServeMode, Error>)
    ensures
        match forward {
            Some(a) => if !proxy {
                r == Ok::<ServeMode, Error>(ServeMode::Forward(a))
            } else {
                r is Err
            },
            None => if proxy {
                r == Ok::<ServeMode, Error>(ServeMode::Proxy { allow_private })
            } else {
                r is Err
            },
        },
        r matches Err(e) ==> says(
            e,
            looked_up(catalog@, "serve requires either --forward or --proxy"@),
            Some(exit::USAGE),
        ),
{
    match forward {
        Some(a) => {
            if !proxy {
                return Ok(ServeMode::Forward(a));
            }
        },
        None => {
            if proxy {
                return Ok(ServeMode::Proxy { allow_private });
            }
        },
    }
    Err(usage(lookup(catalog, "serve requires either --forward or --proxy")))
}

/// What `connect` offers locally: exactly one of `--listen`,
/// `--socks5-listen` and, on Unix, `--stdio`.
pub fn connect_mode(
    catalog: &Catalog,
    listen: Option<SocketAddr>,
    socks5: Option<SocketAddr>,
    stdio: bool,
    unix: bool,
) -> (r: Result<ConnectMode, Error>)
    ensures
        match (listen, socks5, stdio) {
            (Some(a), None, false) => r == Ok::<ConnectMode, Error>(ConnectMode::Listen(a)),
            (None, Some(a), false) => r == Ok::<ConnectMode, Error>(ConnectMode::Socks5(a)),
            (None, None, true) => r == Ok::<ConnectMode, Error>(ConnectMode::Stdio),
            _ => r is Err && says(
                r->Err_0,
                looked_up(
                    catalog@,
                    if unix {
                        "connect requires exactly one of --listen, --socks5-listen, or --stdio"@
                    } else {
                        "connect requires exactly one of --listen or --socks5-listen"@
                    },
                ),
                Some(exit::USAGE),
            ),
        },
{
    match (listen, socks5, stdio) {
        (Some(a), None, false) => Ok(ConnectMode::Listen(a)),
        (None, Some(a), false) => Ok(ConnectMode::Socks5(a)),
        (None, None, true) => Ok(ConnectMode::Stdio),
        _ => {
            if unix {
                Err(
                    usage(
                        lookup(
                            catalog,
                            "connect requires exactly one of --listen, --socks5-listen, or --stdio",
                        ),
                    ),
                )
            } else {
                Err(
                    usage(
                        lookup(
                            catalog,
                            "connect requires exactly one of --listen or --socks5-listen",
                        ),
                    ),
                )
            }
        },
    }
}

/// The ids that `serve --allow` names, one for one.
pub fn parse_serve_allow(catalog: &Catalog, allow: &Vec<String>) -> (r: Result<
    Vec<EndpointId>,
    Error,
>)
    ensures
        match r {
            Ok(ids) => first_bad_id(texts(allow@)) is None && id_views(ids@) == texts(
                allow@,
            ).map_values(|s: Seq<char>| endpoint_token(s)->0),
            Err(e) => first_bad_id(texts(allow@)) is Some && says_because(
                e,
                allow_refusal(catalog@, texts(allow@)),
                Some(exit::USAGE),
                allow_cause(texts(allow@)),
            ),
        },
{
    let mut ids: Vec<EndpointId> = Vec::new();
    let mut i: usize = 0;
    while i < allow.len()
        invariant
            i <= allow@.len(),
            ids@.len() == i,
            first_bad_id(texts(allow@).take(i as int)) is None,
            forall|j: int|
                0 <= j < i ==> (#[trigger] ids@[j])@ == endpoint_token(texts(allow@)[j])->0,
        decreases allow@.len() - i,
    {
        proof {
            assert(texts(allow@)[i as int] == allow@[i as int]@);
            assert(texts(allow@).take(i + 1).drop_last() =~= texts(allow@).take(i as int));
        }
        match parse_endpoint_id(allow[i].as_str()) {
            Err(why) => {
                proof {
                    lemma_first_bad_id_stays(texts(allow@), i + 1);
                }
                return Err(
                    usage_because(
                        say1(
                            catalog,
                            "'{0}' is not a valid EndpointId in --allow",
                            allow[i].clone(),
                        ),
                        why,
                    ),
                );
            },
            Ok(id) => {
                ids.push(id);
            },
        }
        i = i + 1;
    }
    proof {
        assert(texts(allow@).take(allow@.len() as int) =~= texts(allow@));
        assert(id_views(ids@) =~= texts(allow@).map_values(
            |s: Seq<char>| endpoint_token(s)->0,
        ));
    }
    Ok(ids)
}

/// Whether `serve` takes a peer: everyone where no one was named.
pub fn serve_admits(allowed: &Vec<EndpointId>, peer: &EndpointId) -> (r: bool)
    ensures
        r == (allowed@.len() == 0 || id_views(allowed@).contains(peer@)),
{
    allowed.len() == 0 || holds_id(allowed, peer)
}

/// What `serve` shows before its identity lines go to stdout; `target` is
/// the address that it forwards to, as text.
pub fn serve_lines(
    catalog: &Catalog,
    mode: ServeMode,
    target: String,
    allowed: usize,
    id: &EndpointId,
) -> (r: Vec<Line>)
    ensures
        lines_of(r@) == seq![(0u8, Tone::Banner, "link-p2p serve"@)] + (match mode {
            ServeMode::Forward(_) => seq![
                (
                    2u8,
                    Tone::Plain,
                    said(catalog@, "forwarding P2P connections to: {0}"@, seq![target@]),
                ),
            ],
            ServeMode::Proxy { allow_private } => seq![
                (
                    2u8,
                    Tone::Info,
                    looked_up(
                        catalog@,
                        "proxy mode: dialing the target address from each stream's header"@,
                    ),
                ),
            ] + (if allow_private {
                Seq::empty()
            } else {
                seq![
                    (
                        2u8,
                        Tone::Warn,
                        looked_up(
                            catalog@,
                            "proxy targets in private/loopback ranges are blocked (use --allow-private to permit)"@,
                        ),
                    ),
                ]
            }),
        }) + (if allowed == 0 {
            Seq::empty()
        } else {
            seq![
                (
                    2u8,
                    Tone::Info,
                    said(
                        catalog@,
                        "only accepting connections from {0} allowed peer(s)"@,
                        seq![decimal_of(allowed as nat)],
                    ),
                ),
            ]
        }) + seq![
            (
                2u8,
                Tone::Dim,
                looked_up(
                    catalog@,
                    "your identity (give SHORT_CODE to peers; both can `call` each other):"@,
                ),
            ),
            (4u8, Tone::Highlight, short_code(id@)),
        ],
{
    let mut out: Vec<Line> = Vec::new();
    proof {
        assert(lines_of(out@) =~= Seq::empty());
    }
    put(&mut out, 0, Tone::Banner, "link-p2p serve".to_owned());
    match mode {
        ServeMode::Forward(_) => {
            put(
                &mut out,
                2,
                Tone::Plain,
                say1(catalog, "forwarding P2P connections to: {0}", target),
            );
        },
        ServeMode::Proxy { allow_private } => {
            put(
                &mut out,
                2,
                Tone::Info,
                lookup(catalog, "proxy mode: dialing the target address from each stream's header"),
            );
            if !allow_private {
                put(
                    &mut out,
                    2,
                    Tone::Warn,
                    lookup(
                        catalog,
                        "proxy targets in private/loopback ranges are blocked (use --allow-private to permit)",
                    ),
                );
            }
        },
    }
    if allowed > 0 {
        put(
            &mut out,
            2,
            Tone::Info,
            say1(
                catalog,
                "only accepting connections from {0} allowed peer(s)",
                decimal(allowed as u64),
            ),
        );
    }
    put(
        &mut out,
        2,
        Tone::Dim,
        lookup(catalog, "your identity (give SHORT_CODE to peers; both can `call` each other):"),
    );
    put(&mut out, 4, Tone::Highlight, encode_short_code(id));
    out
}

/// Whom `connect` dials: the peer, and the addresses given followed by those
/// of the contact. Address hints do not go with `--relay-only`, wherever they
/// come from.
pub fn connect_target(
    catalog: &Catalog,
    book: &ContactBook,
    to: &str,
    to_addr: Vec<SocketAddr>,
    relay_only: bool,
) -> (r: Result<(ResolvedPeer, Vec<SocketAddr>), Error>)
    requires
        book.wf(),
    ensures
        ({
            let clash = looked_up(
                catalog@,
                "--relay-only cannot be combined with --to-addr (direct IP hints)"@,
            );
            if relay_only && to_addr@.len() > 0 {
                r is Err && says(r->Err_0, clash, Some(exit::USAGE))
            } else {
                match peer_of(book@, to@) {
                    Err(e) => r is Err && r->Err_0.wf() && r->Err_0@ == e.chain(
                        catalog@,
                        Some(exit::USAGE),
                    ),
                    Ok(p) => if relay_only && p.addrs.len() > 0 {
                        r is Err && says(r->Err_0, clash, Some(exit::USAGE))
                    } else {
                        r is Ok && r->Ok_0.0@ == p && r->Ok_0.1@ == to_addr@ + p.addrs
                    },
                }
            }
        }),
{
    match reject_relay_only_with_to_addr(catalog, relay_only, to_addr.len()) {
        Err(e) => {
            return Err(e);
        },
        Ok(_) => {},
    }
    let peer = match resolve(book, to) {
        Err(e) => {
            let ghost view = e@;
            let err = exit::coded(exit::USAGE, e.error(catalog));
            proof {
                assert(err@ =~= view.chain(catalog@, Some(exit::USAGE)));
            }
            return Err(err);
        },
        Ok(p) => p,
    };
    let ghost given = to_addr@;
    let mut addrs = to_addr;
    let mut i: usize = 0;
    while i < peer.addrs.len()
        invariant
            i <= peer.addrs@.len(),
            addrs@ == given + peer.addrs@.take(i as int),
        decreases peer.addrs@.len() - i,
    {
        addrs.push(peer.addrs[i]);
        proof {
            assert(addrs@ =~= given + peer.addrs@.take(i + 1));
        }
        i = i + 1;
    }
    proof {
        assert(peer.addrs@.take(peer.addrs@.len() as int) =~= peer.addrs@);
    }
    match reject_relay_only_with_to_addr(catalog, relay_only, addrs.len()) {
        Err(e) => {
            return Err(e);
        },
        Ok(_) => {},
    }
    Ok((peer, addrs))
}

/// What `connect` shows before it dials; the addresses are as text.
pub fn connect_lines(catalog: &Catalog, peer: &ResolvedPeer, addrs: &Vec<String>) -> (r: Vec<Line>)
    ensures
        lines_of(r@) == (if addrs@.len() == 0 {
            Seq::empty()
        } else {
            seq![
                (
                    0u8,
                    Tone::Dim,
                    said(
                        catalog@,
                        "dialing with address hint(s): {0}"@,
                        seq![join_of(texts(addrs@), ", "@)],
                    ),
                ),
            ]
        }) + seq![
            (
                0u8,
                Tone::Info,
                match peer.name {
                    Some(n) => said(catalog@, "dialing contact {0}..."@, seq![n@]),
                    None => said(catalog@, "dialing {0}..."@, seq![hex_of(peer.id@.take(5))]),
                },
            ),
        ],
{
    let mut out: Vec<Line> = Vec::new();
    proof {
        assert(lines_of(out@) =~= Seq::empty());
    }
    if addrs.len() > 0 {
        put(
            &mut out,
            0,
            Tone::Dim,
            say1(catalog, "dialing with address hint(s): {0}", join(addrs, ", ")),
        );
    }
    let text = match &peer.name {
        Some(n) => say1(catalog, "dialing contact {0}...", n.clone()),
        None => say1(catalog, "dialing {0}...", peer.id.short_text()),
    };
    put(&mut out, 0, Tone::Info, text);
    out
}

/// What `connect` shows once it is connected; `local` is the listener's
/// address as text.
pub fn connected_line(catalog: &Catalog, mode: ConnectMode, local: String) -> (r: Line)
    ensures
        r@ == (
            0u8,
            Tone::Good,
            if mode == ConnectMode::Stdio {
                looked_up(catalog@, "connected. piping stdin/stdout to the remote peer."@)
            } else {
                said(
                    catalog@,
                    "connected. local TCP listener on {0} now forwards to the remote peer."@,
                    seq![local@],
                )
            },
        ),
{
    let text = match mode {
        ConnectMode::Stdio => lookup(
            catalog,
            "connected. piping stdin/stdout to the remote peer.",
        ),
        _ => say1(
            catalog,
            "connected. local TCP listener on {0} now forwards to the remote peer.",
            local,
        ),
    };
    Line { indent: 0, tone: Tone::Good, text }
}

/// How `ping` and `stats` report.
#[derive(Clone, Copy, Debug, PartialEq, Eq, Structural)]
pub enum OutputFormat {
    Text,
    Json,
}

/// How long `ping` waits for a direct path, in seconds.
pub const SETTLE_SECS: u64 = 2;

/// How long `ping` waits for a direct path: not at all where there can be
/// none.
pub fn settle_budget(relay_only: bool) -> (r: Duration)
    ensures
        r.nanos == (if relay_only {
            0
        } else {
            SETTLE_SECS * SECOND
        }),
{
    if relay_only {
        Duration { nanos: 0 }
    } else {
        Duration::from_secs(SETTLE_SECS)
    }
}

/// The id that `ping --to` names.
pub fn ping_target(catalog: &Catalog, to: &str) -> (r: Result<EndpointId, Error>)
    ensures
        match endpoint_token(to@) {
            Some(b) => r is Ok && r->Ok_0@ == b,
            None => r is Err && says_because(
                r->Err_0,
                said(catalog@, "'{0}' is not a valid EndpointId"@, seq![to@]),
                Some(exit::USAGE),
                endpoint_refusal(to@),
            ),
        },
{
    match parse_endpoint_id(to) {
        Ok(id) => Ok(id),
        Err(why) => Err(
            usage_because(
                say1(catalog, "'{0}' is not a valid EndpointId", to.to_owned()),
                why,
            ),
        ),
    }
}

/// Checks that a ping came back as it was sent.
pub fn check_echo(catalog: &Catalog, sent: &[u8; 8], echo: &[u8; 8]) -> (r: Result<(), Error>)
    ensures
        match r {
            Ok(_) => sent@ == echo@,
            Err(e) => sent@ != echo@ && says(
                e,
                looked_up(catalog@, "peer echoed a mismatched ping timestamp"@),
                None,
            ),
        },
{
    if crate::bytes::same_bytes(sent.as_slice(), echo.as_slice()) {
        Ok(())
    } else {
        Err(Error::msg(lookup(catalog, "peer echoed a mismatched ping timestamp")))
    }
}

/// How long the session took to become direct, for the log: nothing where it
/// did not, and no time at all where it was from the start.
pub fn upgrade_time(initial: PathKind, settled: PathKind, waited: Duration) -> (r: Option<Duration>)
    ensures
        r == (if settled != PathKind::Direct {
            None
        } else if initial == PathKind::Direct {
            Some(Duration { nanos: 0 })
        } else {
            Some(waited)
        }),
{
    if !settled.is_direct() {
        None
    } else if initial.is_direct() {
        Some(Duration { nanos: 0 })
    } else {
        Some(waited)
    }
}

/// The message that names a path kind.
pub open spec fn kind_message(kind: PathKind) -> Seq<char> {
    match kind {
        PathKind::Direct => "path: direct (IP)"@,
        PathKind::Relay => "path: relay"@,
        PathKind::RelayWithDirectCandidate => "path: relay (direct IP candidate open, not selected)"@,
        PathKind::Unknown => "path: unknown"@,
    }
}

/// A path kind in words.
pub fn path_kind_human(catalog: &Catalog, kind: PathKind) -> (r: String)
    ensures
        r@ == looked_up(catalog@, kind_message(kind)),
{
    match kind {
        PathKind::Direct => lookup(catalog, "path: direct (IP)"),
        PathKind::Relay => lookup(catalog, "path: relay"),
        PathKind::RelayWithDirectCandidate => lookup(
            catalog,
            "path: relay (direct IP candidate open, not selected)",
        ),
        PathKind::Unknown => lookup(catalog, "path: unknown"),
    }
}

/// One measurement of `ping`: microseconds, and the path at the time.
#[derive(Clone, Copy, Debug, PartialEq, Eq, Structural)]
pub struct PingReading {
    pub rtt_us: u64,
    pub kind: PathKind,
}

/// What `ping` shows: the first measurement, often still over a relay, and
/// the one after the path had time to settle.
pub fn ping_lines(
    catalog: &Catalog,
    peer: &EndpointId,
    initial: PingReading,
    settled: PingReading,
) -> (r: Vec<Line>)
    ensures
        lines_of(r@) == seq![
            (
                0u8,
                Tone::Good,
                said(catalog@, "pong from {0}"@, seq![hex_of(peer@.take(5))]),
            ),
            (
                0u8,
                Tone::Dim,
                said(
                    catalog@,
                    "initial: RTT {0}µs, {1}"@,
                    seq![
                        decimal_of(initial.rtt_us as nat),
                        looked_up(catalog@, kind_message(initial.kind)),
                    ],
                ),
            ),
            (
                0u8,
                Tone::Dim,
                said(
                    catalog@,
                    "settled: RTT {0}µs, {1}"@,
                    seq![
                        decimal_of(settled.rtt_us as nat),
                        looked_up(catalog@, kind_message(settled.kind)),
                    ],
                ),
            ),
        ],
{
    let mut out: Vec<Line> = Vec::new();
    put(&mut out, 0, Tone::Good, say1(catalog, "pong from {0}", peer.short_text()));
    put(
        &mut out,
        0,
        Tone::Dim,
        say2(
            catalog,
            "initial: RTT {0}µs, {1}",
            decimal(initial.rtt_us),
            path_kind_human(catalog, initial.kind),
        ),
    );
    put(
        &mut out,
        0,
        Tone::Dim,
        say2(
            catalog,
            "settled: RTT {0}µs, {1}",
            decimal(settled.rtt_us),
            path_kind_human(catalog, settled.kind),
        ),
    );
    out
}

/// The line of `ping --format json`. `rtt_us` and `path` are the settled
/// measurement, the one to go by.
pub fn ping_json(peer: &EndpointId, initial: PingReading, settled: PingReading) -> (r: String)
    ensures
        r@ == "{\"peer\":\""@ + hex_of(peer@) + "\",\"rtt_us\":"@ + decimal_of(
            settled.rtt_us as nat,
        ) + ",\"path\":\""@ + settled.kind.token() + "\",\"initial_rtt_us\":"@ + decimal_of(
            initial.rtt_us as nat,
        ) + ",\"initial_path\":\""@ + initial.kind.token() + "\",\"settled_rtt_us\":"@
            + decimal_of(settled.rtt_us as nat) + ",\"settled_path\":\""@ + settled.kind.token()
            + "\"}"@,
{
    let mut out = "{\"peer\":\"".to_owned();
    out.append(peer.to_text().as_str());
    out.append("\",\"rtt_us\":");
    out.append(decimal(settled.rtt_us).as_str());
    out.append(",\"path\":\"");
    out.append(settled.kind.as_str());
    out.append("\",\"initial_rtt_us\":");
    out.append(decimal(initial.rtt_us).as_str());
    out.append(",\"initial_path\":\"");
    out.append(initial.kind.as_str());
    out.append("\",\"settled_rtt_us\":");
    out.append(decimal(settled.rtt_us).as_str());
    out.append(",\"settled_path\":\"");
    out.append(settled.kind.as_str());
    out.append("\"}");
    out
}

/// What `contact add` shows.
pub fn contact_added_lines(catalog: &Catalog, name: &str, id: &EndpointId) -> (r: Vec<Line>)
    ensures
        lines_of(r@) == seq![
            (
                0u8,
                Tone::Good,
                said(catalog@, "saved contact {0} → {1}"@, seq![name@, short_code(id@)]),
            ),
            (
                0u8,
                Tone::Dim,
                said(
                    catalog@,
                    "next: on this machine `call up --listen …`; peer runs `call {0} --listen …`"@,
                    seq![name@],
                ),
            ),
        ],
{
    let mut out: Vec<Line> = Vec::new();
    put(
        &mut out,
        0,
        Tone::Good,
        say2(catalog, "saved contact {0} → {1}", name.to_owned(), encode_short_code(id)),
    );
    put(
        &mut out,
        0,
        Tone::Dim,
        say1(
            catalog,
            "next: on this machine `call up --listen …`; peer runs `call {0} --listen …`",
            name.to_owned(),
        ),
    );
    out
}

/// What `contact remove` shows.
pub fn contact_removed_line(catalog: &Catalog, name: &str) -> (r: Line)
    ensures
        r@ == (0u8, Tone::Good, said(catalog@, "removed contact {0}"@, seq![name@])),
{
    Line {
        indent: 0,
        tone: Tone::Good,
        text: say1(catalog, "removed contact {0}", name.to_owned()),
    }
}

/// What `contact list` shows where there are none.
pub fn no_contacts_line(catalog: &Catalog) -> (r: Line)
    ensures
        r@ == (
            0u8,
            Tone::Dim,
            looked_up(catalog@, "no contacts yet — use `contact add` or pair a short code"@),
        ),
{
    Line {
        indent: 0,
        tone: Tone::Dim,
        text: lookup(catalog, "no contacts yet — use `contact add` or pair a short code"),
    }
}

/// Whether `config init` may write; `path` is the file as text.
pub fn check_init(catalog: &Catalog, exists: bool, force: bool, path: String) -> (r: Result<
    (),
    Error,
>)
    ensures
        if exists && !force {
            r is Err && says(
                r->Err_0,
                said(
                    catalog@,
                    "config already exists at {0} (use --force to overwrite)"@,
                    seq![path@],
                ),
                Some(exit::USAGE),
            )
        } else {
            r is Ok
        },
{
    if crate::config::init_refused(exists, force) {
        return Err(
            usage(
                say1(catalog, "config already exists at {0} (use --force to overwrite)", path),
            ),
        );
    }
    Ok(())
}

/// `serve` takes exactly one of forwarding and proxying, and `connect` exactly
/// one of its three ways; each is then what was asked for.
pub proof fn law_exactly_one_mode(
    catalog: Catalog,
    forward: Option<SocketAddr>,
    proxy: bool,
    allow_private: bool,
    listen: Option<SocketAddr>,
    socks5: Option<SocketAddr>,
    stdio: bool,
    unix: bool,
    serves: Result<ServeMode, Error>,
    connects: Result<ConnectMode, Error>,
)
    requires
        call_ensures(serve_mode, (&catalog, forward, proxy, allow_private), serves),
        call_ensures(connect_mode, (&catalog, listen, socks5, stdio, unix), connects),
    ensures
        serves is Ok <==> (forward is Some) != proxy,
        serves matches Ok(ServeMode::Forward(a)) ==> forward == Some(a),
        serves matches Ok(ServeMode::Proxy { allow_private: p }) ==> proxy && p == allow_private,
        connects is Ok <==> (if listen is Some {
            1int
        } else {
            0
        }) + (if socks5 is Some {
            1int
        } else {
            0
        }) + (if stdio {
            1int
        } else {
            0
        }) == 1,
        connects matches Ok(ConnectMode::Listen(a)) ==> listen == Some(a),
        connects matches Ok(ConnectMode::Socks5(a)) ==> socks5 == Some(a),
        connects matches Ok(ConnectMode::Stdio) ==> stdio,
{
}

/// A node that names whom it serves takes exactly those whose id an entry of
/// its list writes, at whatever place, and one that names nobody takes all.
pub proof fn law_served_peers_are_named(
    catalog: Catalog,
    allow: Vec<String>,
    ids: Vec<EndpointId>,
    peer: EndpointId,
    r: bool,
)
    requires
        call_ensures(parse_serve_allow, (&catalog, &allow), Ok::<Vec<EndpointId>, Error>(ids)),
        call_ensures(serve_admits, (&ids, &peer), r),
    ensures
        allow@.len() == 0 ==> r,
        allow@.len() > 0 ==> (r <==> exists|j: int|
            0 <= j < allow@.len() && endpoint_token((#[trigger] allow@[j])@) == Some(peer@)),
{
    let t = texts(allow@);
    let views = id_views(ids@);
    crate::runtime::lemma_first_bad_id(t);
    assert(views.len() == allow@.len());
    assert forall|j: int| 0 <= j < allow@.len() implies endpoint_token((#[trigger] allow@[j])@)
        == Some(views[j]) by {
        assert(t[j] == allow@[j]@);
        assert(endpoint_token(t[j]) is Some);
    }
    if views.contains(peer@) {
        let j = choose|j: int| 0 <= j < views.len() && views[j] == peer@;
        assert(endpoint_token(allow@[j]@) == Some(peer@));
    }
    if exists|j: int|
        0 <= j < allow@.len() && endpoint_token((#[trigger] allow@[j])@) == Some(peer@) {
        let j = choose|j: int|
            0 <= j < allow@.len() && endpoint_token((#[trigger] allow@[j])@) == Some(peer@);
        assert(views[j] == peer@);
    }
}

/// `connect` dials the peer that the name stands for at the addresses that were
/// given, in order, and then at every one of the contact, in order. With relays
/// alone it dials only where there is no address from either.
pub proof fn law_connect_dials_given_addresses_first(
    catalog: Catalog,
    book: ContactBook,
    to: &str,
    given: Vec<SocketAddr>,
    relay_only: bool,
    peer: Result<ResolvedPeer, crate::contacts::PeerError>,
    r: Result<(ResolvedPeer, Vec<SocketAddr>), Error>,
    i: int,
)
    requires
        book.wf(),
        call_ensures(resolve, (&book, to), peer),
        call_ensures(connect_target, (&catalog, &book, to, given, relay_only), r),
    ensures
        r is Ok <==> peer is Ok && !(relay_only && (given@.len() > 0 || peer->Ok_0.addrs@.len()
            > 0)),
        r is Ok ==> {
            let (found, addrs) = r->Ok_0;
            let p = peer->Ok_0;
            &&& found@ == p@
            &&& addrs@.len() == given@.len() + p.addrs@.len()
            &&& 0 <= i < given@.len() ==> addrs@[i] == given@[i]
            &&& 0 <= i < p.addrs@.len() ==> addrs@[given@.len() + i] == p.addrs@[i]
        },
{
}

/// A ping goes to the id that its text writes and is taken only where what came
/// back is what was sent, byte for byte.
pub proof fn law_ping_is_echoed(
    catalog: Catalog,
    to: &str,
    sent: [u8; 8],
    echo: [u8; 8],
    target: Result<EndpointId, Error>,
    r: Result<(), Error>,
)
    requires
        call_ensures(ping_target, (&catalog, to), target),
        call_ensures(check_echo, (&catalog, &sent, &echo), r),
    ensures
        target is Ok <==> endpoint_token(to@) is Some,
        target matches Ok(id) ==> endpoint_token(to@) == Some(id@),
        r is Ok <==> forall|i: int| 0 <= i < 8 ==> #[trigger] sent@[i] == echo@[i],
{
    if forall|i: int| 0 <= i < 8 ==> #[trigger] sent@[i] == echo@[i] {
        assert(sent@ =~= echo@);
    }
}

/// The time that a session took to become direct is told exactly where it did,
/// and is none where it was direct from the start. With relays alone nothing is
/// waited for.
pub proof fn law_upgrades_are_timed(
    initial: PathKind,
    settled: PathKind,
    waited: Duration,
    r: Option<Duration>,
    relay_only: Duration,
    open: Duration,
)
    requires
        call_ensures(upgrade_time, (initial, settled, waited), r),
        call_ensures(settle_budget, (true,), relay_only),
        call_ensures(settle_budget, (false,), open),
    ensures
        r is Some <==> settled == PathKind::Direct,
        r is Some && initial != PathKind::Direct ==> r == Some(waited),
        r is Some && initial == PathKind::Direct ==> r->0.nanos == 0,
        relay_only.nanos == 0,
        open.nanos == 2_000_000_000,
{
}

} // verus!
