//! TUN mode: whole-machine IP reachability over QUIC datagrams.
//!
//! The hub keeps a roster and forwards packets; spokes dial the hub, learn
//! the roster over a control stream and try direct links to each other.
//! Tables and routes are in `mesh`; this module has addresses, sizes, the
//! datagram sender and the life of a session.

use vstd::prelude::*;
use crate::backoff::{
    shorter, Backoff, MIN_STABLE_CONN_SECS, RECONNECT_BASE_SECS, RECONNECT_MAX_SECS,
};
use crate::endpoint::{endpoint_refusal, endpoint_token, parse_endpoint_id, EndpointId};
use crate::exit;
use crate::exit::{because, failure, says, says_because, Error};
use crate::i18n::{looked_up, lookup, said, say1, say2, say3, Catalog};
use crate::mesh::in_mesh;
use crate::net::Ipv4Addr;
use crate::packet::{build_icmp_frag_needed, frag_needed};
use crate::style::{lines_of, put, Line, Tone};
use crate::text::{decimal, decimal_of, hex_of, join, join_of, texts};
use crate::time::{Duration, LONGEST, SECOND};
use crate::tun_roster::RosterEntry;

verus! {

/// The protocol name of the mesh.
pub const TUN_ALPN: &'static str = "link-p2p/tun/3";

/// The largest size of packets on the interface.
pub const MAX_MTU: u16 = 1280;

/// How long raising the packet size waits after it was lowered, in seconds.
pub const MTU_RAISE_HOLDOFF_SECS: u64 = 15;

/// How many packets a second are answered as too large.
pub const PTB_RATE_PER_SEC: u32 = 20;

/// How long exchanging addresses may take, in seconds.
pub const VIP_EXCHANGE_TIMEOUT_SECS: u64 = 10;

/// Seconds between two looks at the packet size of a session.
pub const MTU_CHECK_SECS: u64 = 2;

/// The BLAKE3 hash of a byte string.
pub uninterp spec fn blake3_of(input: Seq<u8>) -> Seq<u8>;

/// `blake3::hash`: the hash that `blake3_of` names, 32 bytes of it.
#[verifier::external_body]
fn blake3_hash(input: &[u8]) -> (r: [u8; 32])
    ensures
        r@ == blake3_of(input@),
{
    *blake3::hash(input).as_bytes()
}

/// The address in the mesh's range with the first two bytes of a hash as its
/// host part.
pub open spec fn vip_from_hash(hash: Seq<u8>) -> Ipv4Addr {
    Ipv4Addr { a: 172, b: 24, c: hash[0], d: hash[1] }
}

/// The address that a hash stands for.
pub fn vip_of_hash(hash: &[u8; 32]) -> (r: Ipv4Addr)
    ensures
        r == vip_from_hash(hash@),
        in_mesh(r),
{
    Ipv4Addr { a: 172, b: 24, c: hash[0], d: hash[1] }
}

/// A node's default address: 172.24 and the first two bytes of its id's hash.
pub fn derive_vip(id: &EndpointId) -> (r: Ipv4Addr)
    ensures
        r == vip_from_hash(blake3_of(id@)),
        in_mesh(r),
{
    vip_of_hash(&blake3_hash(id.bytes.as_slice()))
}

/// The address of this node: the one that was asked for, else the default.
pub fn own_vip(asked: Option<Ipv4Addr>, id: &EndpointId) -> (r: Ipv4Addr)
    ensures
        r == (match asked {
            Some(v) => v,
            None => vip_from_hash(blake3_of(id@)),
        }),
{
    match asked {
        Some(v) => v,
        None => derive_vip(id),
    }
}

/// What is said of a packet size over the limit.
pub open spec fn mtu_refusal(catalog: Map<Seq<char>, Seq<char>>, mtu: u16) -> Seq<char> {
    said(
        catalog,
        "--mtu must be at most 1280 (got {0}); higher values would fragment the outer QUIC datagrams"@,
        seq![decimal_of(mtu as nat)],
    )
}

/// Checks `--mtu`: it is an upper bound and never raises the limit.
pub fn validate_mtu(catalog: &Catalog, mtu: u16) -> (r: Result<(), Error>)
    ensures
        match r {
            Ok(_) => mtu <= MAX_MTU,
            Err(e) => mtu > MAX_MTU && says(e, mtu_refusal(catalog@, mtu), None),
        },
{
    if mtu > MAX_MTU {
        return Err(
            Error::msg(
                say1(
                    catalog,
                    "--mtu must be at most 1280 (got {0}); higher values would fragment the outer QUIC datagrams",
                    decimal(mtu as u64),
                ),
            ),
        );
    }
    Ok(())
}

/// A datagram size in 16 bits; larger ones count as the largest.
pub open spec fn ceiling16(n: usize) -> u16 {
    if n <= u16::MAX {
        n as u16
    } else {
        u16::MAX
    }
}

fn clamp16(n: usize) -> (r: u16)
    ensures
        r == ceiling16(n),
{
    if n <= u16::MAX as usize {
        n as u16
    } else {
        u16::MAX
    }
}

/// The smaller of two sizes.
pub open spec fn smaller(a: u16, b: u16) -> u16 {
    if a <= b {
        a
    } else {
        b
    }
}

/// The packet size of a session: the user's bound, or what the path's
/// datagrams carry where that is less. Without datagrams there is no session:
/// falling back to a stream would bring head-of-line blocking back.
pub fn choose_mtu(catalog: &Catalog, user_mtu: u16, max_datagram: Option<usize>) -> (r: Result<
    u16,
    Error,
>)
    ensures
        match max_datagram {
            Some(n) => r == Ok::<u16, Error>(smaller(user_mtu, ceiling16(n))),
            None => r is Err && says(
                r->Err_0,
                looked_up(
                    catalog@,
                    "the peer or path does not support QUIC datagrams; TUN mode cannot work over this connection.\nRefusing to start rather than silently falling back to a stream transport."@,
                ),
                None,
            ),
        },
{
    match max_datagram {
        Some(n) => {
            let limit: u16 = clamp16(n);
            if user_mtu <= limit {
                Ok(user_mtu)
            } else {
                Ok(limit)
            }
        },
        None => Err(
            Error::msg(
                lookup(
                    catalog,
                    "the peer or path does not support QUIC datagrams; TUN mode cannot work over this connection.\nRefusing to start rather than silently falling back to a stream transport.",
                ),
            ),
        ),
    }
}

/// When the packet size may be raised again; shared by the sessions of one
/// interface. Times are lengths since the program started.
#[derive(Clone, Copy, Debug, PartialEq, Eq, Structural)]
pub struct RaiseGate {
    pub not_before: Duration,
}

impl RaiseGate {
    /// Open from the start.
    pub fn new(now: Duration) -> (r: RaiseGate)
        ensures
            r.not_before == now,
    {
        RaiseGate { not_before: now }
    }

    /// The size was lowered: it is not raised for a while.
    pub fn note_shrink(&mut self, now: Duration)
        requires
            now.nanos <= LONGEST,
        ensures
            final(self).not_before.nanos == now.nanos + MTU_RAISE_HOLDOFF_SECS * SECOND,
    {
        self.not_before = Duration { nanos: now.nanos + 15_000_000_000 };
    }
}

/// The size that the interface is raised to now that the path carries more,
/// if it is to be raised at all. It is never lowered here: that is left to a
/// packet that is too large.
pub open spec fn raised_mtu(
    user_mtu: u16,
    current: u16,
    max_datagram: Option<usize>,
    gate: RaiseGate,
    now: Duration,
) -> Option<u16> {
    match max_datagram {
        Some(n) => {
            let candidate = smaller(user_mtu, ceiling16(n));
            if now.nanos >= gate.not_before.nanos && candidate > current {
                Some(candidate)
            } else {
                None
            }
        },
        None => None,
    }
}

/// The size that the interface is raised to, if it is.
pub fn refresh_tun_mtu(
    user_mtu: u16,
    current: u16,
    max_datagram: Option<usize>,
    gate: &RaiseGate,
    now: Duration,
) -> (r: Option<u16>)
    ensures
        r == raised_mtu(user_mtu, current, max_datagram, *gate, now),
{
    if now.nanos < gate.not_before.nanos {
        return None;
    }
    match max_datagram {
        Some(n) => {
            let limit: u16 = clamp16(n);
            let candidate: u16 = if user_mtu <= limit {
                user_mtu
            } else {
                limit
            };
            if candidate > current {
                Some(candidate)
            } else {
                None
            }
        },
        None => None,
    }
}

/// Raising never passes the user's bound or what the path carries, and always
/// makes the size larger.
pub proof fn law_raising_keeps_the_bounds(
    user_mtu: u16,
    current: u16,
    max_datagram: Option<usize>,
    gate: RaiseGate,
    now: Duration,
)
    ensures
        raised_mtu(user_mtu, current, max_datagram, gate, now) matches Some(m) ==> current < m
            && m <= user_mtu && max_datagram is Some && m <= max_datagram->0,
{
}

/// After the size was lowered it stays for the whole hold-off.
pub proof fn law_no_raise_within_the_hold_off(
    user_mtu: u16,
    current: u16,
    max_datagram: Option<usize>,
    shrunk_at: Duration,
    now: Duration,
)
    requires
        now.nanos < shrunk_at.nanos + MTU_RAISE_HOLDOFF_SECS * SECOND,
        shrunk_at.nanos <= LONGEST,
    ensures
        ({
            let gate = RaiseGate {
                not_before: Duration {
                    nanos: (shrunk_at.nanos + MTU_RAISE_HOLDOFF_SECS * SECOND) as u128,
                },
            };
            raised_mtu(user_mtu, current, max_datagram, gate, now) is None
        }),
{
}

/// The sender of one peer's datagrams: the interface's size as it knows it,
/// and how many packets it answered as too large in the current second.
#[derive(Clone, Copy, Debug, PartialEq, Eq, Structural)]
pub struct PeerSender {
    pub iface_mtu: u16,
    pub window_start: Duration,
    pub window_count: u32,
}

/// What to do with a packet for the peer.
#[derive(Debug)]
pub enum SendStep {
    /// Send it.
    Send,
    /// It is too large: drop it, lower the interface's size where one is
    /// given, and put the reply into the interface where there is one.
    TooLarge { lower_to: Option<u16>, reply: Option<Vec<u8>> },
}

impl PeerSender {
    /// A sender for an interface of this size.
    pub fn new(user_mtu: u16, now: Duration) -> (r: PeerSender)
        ensures
            r == (PeerSender { iface_mtu: user_mtu, window_start: now, window_count: 0 }),
            r.wf(),
    {
        PeerSender { iface_mtu: user_mtu, window_start: now, window_count: 0 }
    }

    /// No more replies than the limit in the current second.
    pub open spec fn wf(self) -> bool {
        self.window_count <= PTB_RATE_PER_SEC
    }

    /// The second that `now` is in starts with `now` once the last is over.
    pub open spec fn turned(self, now: Duration) -> PeerSender {
        if now.nanos - self.window_start.nanos >= SECOND {
            PeerSender { iface_mtu: self.iface_mtu, window_start: now, window_count: 0 }
        } else {
            self
        }
    }

    /// Takes a packet for the peer; `max_datagram` is what the path carries.
    pub fn on_packet(
        &mut self,
        now: Duration,
        pkt: &[u8],
        max_datagram: Option<usize>,
        own_vip: Ipv4Addr,
    ) -> (r: SendStep)
        requires
            old(self).wf(),
        ensures
            final(self).wf(),
            final(self).iface_mtu <= old(self).iface_mtu,
            ({
                let fits = max_datagram is None || pkt@.len() <= max_datagram->0;
                let ceiling = ceiling16(max_datagram->0);
                let turned = old(self).turned(now);
                let answer = frag_needed(pkt@, ceiling, own_vip);
                if fits {
                    r is Send && *final(self) == *old(self)
                } else {
                    &&& r matches SendStep::TooLarge { lower_to, reply }
                    &&& lower_to == (if ceiling < old(self).iface_mtu {
                        Some(ceiling)
                    } else {
                        None
                    })
                    &&& final(self).iface_mtu == smaller(old(self).iface_mtu, ceiling)
                    &&& final(self).window_start == turned.window_start
                    &&& match reply {
                        Some(p) => turned.window_count < PTB_RATE_PER_SEC && answer == Some(p@)
                            && final(self).window_count == turned.window_count + 1,
                        None => (turned.window_count >= PTB_RATE_PER_SEC || answer is None)
                            && final(self).window_count == turned.window_count,
                    }
                }
            }),
    {
        let ceiling: usize = match max_datagram {
            Some(n) => n,
            None => usize::MAX,
        };
        if pkt.len() <= ceiling {
            return SendStep::Send;
        }
        let next_hop: u16 = clamp16(ceiling);
        let lower_to: Option<u16> = if next_hop < self.iface_mtu {
            self.iface_mtu = next_hop;
            Some(next_hop)
        } else {
            None
        };
        if now.nanos >= self.window_start.nanos && now.nanos - self.window_start.nanos
            >= 1_000_000_000 {
            self.window_start = now;
            self.window_count = 0;
        }
        if self.window_count >= PTB_RATE_PER_SEC {
            return SendStep::TooLarge { lower_to, reply: None };
        }
        match build_icmp_frag_needed(pkt, next_hop, own_vip) {
            Some(p) => {
                self.window_count = self.window_count + 1;
                SendStep::TooLarge { lower_to, reply: Some(p) }
            },
            None => SendStep::TooLarge { lower_to, reply: None },
        }
    }
}

/// What is logged when the interface's size was lowered.
pub fn shrunk_message(catalog: &Catalog, mtu: u16) -> (r: String)
    ensures
        r@ == said(
            catalog@,
            "path datagram ceiling dropped to {0}; lowered TUN interface MTU and dropped one packet"@,
            seq![decimal_of(mtu as nat)],
        ),
{
    say1(
        catalog,
        "path datagram ceiling dropped to {0}; lowered TUN interface MTU and dropped one packet",
        decimal(mtu as u64),
    )
}

/// The error of a peer that did not exchange addresses in time.
pub fn vip_exchange_timeout(catalog: &Catalog) -> (r: Error)
    ensures
        says(
            r,
            looked_up(catalog@, "peer did not complete the TUN address exchange"@),
            Some(exit::TIMEOUT),
        ),
{
    failure(exit::TIMEOUT, lookup(catalog, "peer did not complete the TUN address exchange"))
}

/// The error of a spoke that did not open the control stream in time.
pub fn control_stream_timeout(catalog: &Catalog) -> (r: Error)
    ensures
        says(
            r,
            looked_up(catalog@, "peer did not open the TUN roster control stream"@),
            Some(exit::TIMEOUT),
        ),
{
    failure(exit::TIMEOUT, lookup(catalog, "peer did not open the TUN roster control stream"))
}

/// How a session ended.
#[derive(Clone, Copy, Debug, PartialEq, Eq, Structural)]
pub enum SessionEnd {
    /// The user asked to stop.
    CtrlC,
    /// The peer went away, or the session could not be set up.
    PeerGone,
}

/// What a spoke does after a session.
#[derive(Clone, Copy, Debug, PartialEq, Eq, Structural)]
pub enum SpokeNext {
    Stop,
    /// Redial after this long.
    Redial(Duration),
}

/// The spoke's dial loop.
#[derive(Clone, Copy, Debug)]
pub struct SpokeLoop {
    backoff: Backoff,
    connected_once: bool,
}

impl SpokeLoop {
    /// The next wait after a short session, in nanoseconds.
    pub closed spec fn delay(self) -> nat {
        self.backoff.delay()
    }

    /// Whether there has been a session.
    pub closed spec fn connected(self) -> bool {
        self.connected_once
    }

    /// The backoff keeps within its bounds.
    pub closed spec fn wf(self) -> bool {
        &&& self.backoff.first() == RECONNECT_BASE_SECS * SECOND
        &&& self.backoff.cap() == RECONNECT_MAX_SECS * SECOND
        &&& RECONNECT_BASE_SECS * SECOND <= self.backoff.delay() <= RECONNECT_MAX_SECS * SECOND
    }

    /// Before the first dial.
    pub fn new() -> (r: SpokeLoop)
        ensures
            r.wf(),
            !r.connected(),
            r.delay() == RECONNECT_BASE_SECS * SECOND,
    {
        SpokeLoop {
            backoff: Backoff::new(
                Duration::from_secs(RECONNECT_BASE_SECS),
                Duration::from_secs(RECONNECT_MAX_SECS),
            ),
            connected_once: false,
        }
    }

    /// A session stands: whether it is the first, of which the user is told.
    pub fn on_session(&mut self) -> (r: bool)
        requires
            old(self).wf(),
        ensures
            final(self).wf(),
            r == !old(self).connected(),
            final(self).connected(),
            final(self).delay() == old(self).delay(),
    {
        let first = !self.connected_once;
        self.connected_once = true;
        first
    }

    /// A session is over after `lived`. A stable one is redialed after the
    /// shortest wait; others wait longer each time.
    pub fn after_session(&mut self, end: SessionEnd, lived: Duration) -> (r: SpokeNext)
        requires
            old(self).wf(),
        ensures
            final(self).wf(),
            final(self).connected() == old(self).connected(),
            if end == SessionEnd::CtrlC {
                r is Stop && final(self).delay() == old(self).delay()
            } else if lived.nanos >= MIN_STABLE_CONN_SECS * SECOND {
                r == SpokeNext::Redial(Duration { nanos: (RECONNECT_BASE_SECS * SECOND) as u128 })
                    && final(self).delay() == RECONNECT_BASE_SECS * SECOND
            } else {
                r == SpokeNext::Redial(Duration { nanos: old(self).delay() as u128 })
                    && final(self).delay() == shorter(
                    old(self).delay() * 2,
                    (RECONNECT_MAX_SECS * SECOND) as nat,
                )
            },
    {
        match end {
            SessionEnd::CtrlC => SpokeNext::Stop,
            SessionEnd::PeerGone => {
                match self.backoff.after_session(
                    lived,
                    Duration::from_secs(MIN_STABLE_CONN_SECS),
                ) {
                    Some(d) => SpokeNext::Redial(d),
                    None => SpokeNext::Redial(Duration::from_secs(RECONNECT_BASE_SECS)),
                }
            },
        }
    }
}

/// The peer list of a status request.
#[derive(Debug)]
pub struct CtlPeer {
    pub vip: Ipv4Addr,
    pub id: String,
}

/// Peers as plain values.
pub open spec fn peer_rows(v: Seq<CtlPeer>) -> Seq<(Ipv4Addr, Seq<char>)> {
    v.map_values(|p: CtlPeer| (p.vip, p.id@))
}

/// The rows for the members of a list.
pub fn ctl_peers(v: &Vec<RosterEntry>) -> (r: Vec<CtlPeer>)
    ensures
        r@.len() == v@.len(),
        forall|i: int|
            0 <= i < r@.len() ==> (#[trigger] peer_rows(r@)[i]) == (v@[i].vip, hex_of(v@[i].id@)),
{
    let mut out: Vec<CtlPeer> = Vec::new();
    let mut i: usize = 0;
    while i < v.len()
        invariant
            i <= v@.len(),
            out@.len() == i,
            forall|j: int|
                0 <= j < i ==> (#[trigger] peer_rows(out@)[j]) == (v@[j].vip, hex_of(v@[j].id@)),
        decreases v@.len() - i,
    {
        let ghost before = peer_rows(out@);
        let p = CtlPeer { vip: v[i].vip, id: v[i].id.to_text() };
        out.push(p);
        proof {
            assert(peer_rows(out@).take(i as int) =~= before);
            assert forall|j: int| 0 <= j < i + 1 implies (#[trigger] peer_rows(out@)[j]) == (
                v@[j].vip,
                hex_of(v@[j].id@),
            ) by {
                if j < i {
                    assert(peer_rows(out@)[j] == before[j]);
                }
            }
        }
        i = i + 1;
    }
    out
}

/// What a status request is answered.
#[derive(Debug)]
pub struct TunStatus {
    pub role: String,
    pub uptime_secs: u64,
    pub vip: Ipv4Addr,
    pub path_kind: String,
    pub session: String,
}

/// What status requests are answered from.
#[derive(Debug)]
pub struct TunLiveState {
    pub role: String,
    pub session: String,
    pub vip: Option<Ipv4Addr>,
    pub path_kind: String,
    pub peers: Vec<CtlPeer>,
}

impl TunLiveState {
    /// Before the interface is there.
    pub fn new(role: String, session: String) -> (r: TunLiveState)
        ensures
            r.role == role,
            r.session == session,
            r.vip is None,
            r.path_kind@ == "unknown"@,
            r.peers@.len() == 0,
    {
        TunLiveState {
            role,
            session,
            vip: None,
            path_kind: "unknown".to_owned(),
            peers: Vec::new(),
        }
    }

    /// The interface has this address.
    pub fn set_vip(&mut self, vip: Ipv4Addr)
        ensures
            final(self).vip == Some(vip),
            final(self).role == old(self).role,
            final(self).session == old(self).session,
            final(self).path_kind == old(self).path_kind,
            final(self).peers == old(self).peers,
    {
        self.vip = Some(vip);
    }

    /// The session's path is of this kind.
    pub fn set_path_kind(&mut self, kind: &str)
        ensures
            final(self).path_kind@ == kind@,
            final(self).role == old(self).role,
            final(self).session == old(self).session,
            final(self).vip == old(self).vip,
            final(self).peers == old(self).peers,
    {
        self.path_kind = kind.to_owned();
    }

    /// These are the peers.
    pub fn set_peers(&mut self, peers: Vec<CtlPeer>)
        ensures
            final(self).peers == peers,
            final(self).role == old(self).role,
            final(self).session == old(self).session,
            final(self).vip == old(self).vip,
            final(self).path_kind == old(self).path_kind,
    {
        self.peers = peers;
    }

    /// The answer to a status request; before there is an interface its
    /// address is 0.0.0.0.
    pub fn status_response(&self, uptime_secs: u64) -> (r: TunStatus)
        ensures
            r.role@ == self.role@,
            r.uptime_secs == uptime_secs,
            r.vip == (match self.vip {
                Some(v) => v,
                None => Ipv4Addr { a: 0, b: 0, c: 0, d: 0 },
            }),
            r.path_kind@ == self.path_kind@,
            r.session@ == self.session@,
    {
        TunStatus {
            role: self.role.clone(),
            uptime_secs,
            vip: match self.vip {
                Some(v) => v,
                None => Ipv4Addr::new(0, 0, 0, 0),
            },
            path_kind: self.path_kind.clone(),
            session: self.session.clone(),
        }
    }

    /// The answer to a request for the peers.
    pub fn peers_response(&self) -> (r: Vec<CtlPeer>)
        ensures
            peer_rows(r@) == peer_rows(self.peers@),
    {
        let mut out: Vec<CtlPeer> = Vec::new();
        let mut i: usize = 0;
        while i < self.peers.len()
            invariant
                i <= self.peers@.len(),
                peer_rows(out@) == peer_rows(self.peers@).take(i as int),
            decreases self.peers@.len() - i,
        {
            let ghost before = peer_rows(out@);
            out.push(CtlPeer { vip: self.peers[i].vip, id: self.peers[i].id.clone() });
            proof {
                assert(peer_rows(out@) =~= before.push(peer_rows(self.peers@)[i as int]));
                assert(peer_rows(self.peers@).take(i + 1) =~= peer_rows(self.peers@).take(
                    i as int,
                ).push(peer_rows(self.peers@)[i as int]));
            }
            i = i + 1;
        }
        proof {
            assert(peer_rows(self.peers@).take(self.peers@.len() as int) =~= peer_rows(
                self.peers@,
            ));
        }
        out
    }
}

/// The hub that a spoke dials.
pub fn hub_target(catalog: &Catalog, to: &str) -> (r: Result<EndpointId, Error>)
    ensures
        match endpoint_token(to@) {
            Some(b) => r is Ok && r->Ok_0@ == b,
            None => r is Err && says_because(
                r->Err_0,
                said(catalog@, "'{0}' is not a valid EndpointId"@, seq![to@]),
                None,
                endpoint_refusal(to@),
            ),
        },
{
    match parse_endpoint_id(to) {
        Ok(id) => Ok(id),
        Err(why) => Err(
            because(say1(catalog, "'{0}' is not a valid EndpointId", to.to_owned()), why),
        ),
    }
}

/// What a hub shows before its id goes to stdout.
pub fn serve_banner(catalog: &Catalog, own: &RosterEntry) -> (r: Vec<Line>)
    ensures
        lines_of(r@) == seq![
            (0u8, Tone::Banner, "link-p2p tun serve"@),
            (2u8, Tone::Dim, looked_up(catalog@, "your virtual IP (the peer reaches you here):"@)),
            (4u8, Tone::Highlight, own.vip.shown()),
            (
                2u8,
                Tone::Dim,
                looked_up(
                    catalog@,
                    "your EndpointId (give this to peers running `tun connect --to`):"@,
                ),
            ),
            (4u8, Tone::Highlight, hex_of(own.id@)),
        ],
{
    let mut out: Vec<Line> = Vec::new();
    put(&mut out, 0, Tone::Banner, "link-p2p tun serve".to_owned());
    put(
        &mut out,
        2,
        Tone::Dim,
        lookup(catalog, "your virtual IP (the peer reaches you here):"),
    );
    put(&mut out, 4, Tone::Highlight, own.vip.to_text());
    put(
        &mut out,
        2,
        Tone::Dim,
        lookup(catalog, "your EndpointId (give this to peers running `tun connect --to`):"),
    );
    put(&mut out, 4, Tone::Highlight, own.id.to_text());
    out
}

/// What a hub shows after its id went to stdout.
pub fn serve_hints(catalog: &Catalog, restricted: bool) -> (r: Vec<Line>)
    ensures
        lines_of(r@) == seq![
            (
                2u8,
                Tone::Dim,
                looked_up(
                    catalog@,
                    "hub mode: roster + fallback forward; spokes may peer directly"@,
                ),
            ),
        ] + (if restricted {
            seq![
                (
                    2u8,
                    Tone::Dim,
                    looked_up(catalog@, "only accepting connections from the --allow list"@),
                ),
            ]
        } else {
            Seq::empty()
        }) + seq![
            (0u8, Tone::Plain, ""@),
            (0u8, Tone::Dim, looked_up(catalog@, "Press Ctrl+C to stop."@)),
        ],
{
    let mut out: Vec<Line> = Vec::new();
    put(
        &mut out,
        2,
        Tone::Dim,
        lookup(catalog, "hub mode: roster + fallback forward; spokes may peer directly"),
    );
    if restricted {
        put(
            &mut out,
            2,
            Tone::Dim,
            lookup(catalog, "only accepting connections from the --allow list"),
        );
    }
    put(&mut out, 0, Tone::Plain, "".to_owned());
    put(&mut out, 0, Tone::Dim, lookup(catalog, "Press Ctrl+C to stop."));
    out
}

/// What a spoke shows before it dials where it was given addresses.
pub fn dial_hints(catalog: &Catalog, addrs: &Vec<String>) -> (r: Vec<Line>)
    ensures
        lines_of(r@) == (if addrs@.len() == 0 {
            Seq::empty()
        } else {
            seq![
                (
                    2u8,
                    Tone::Dim,
                    said(
                        catalog@,
                        "dialing the peer's direct address hint(s): {0}"@,
                        seq![join_of(texts(addrs@), ", "@)],
                    ),
                ),
            ]
        }),
{
    let mut out: Vec<Line> = Vec::new();
    if addrs.len() > 0 {
        put(
            &mut out,
            2,
            Tone::Dim,
            say1(
                catalog,
                "dialing the peer's direct address hint(s): {0}",
                join(addrs, ", "),
            ),
        );
    }
    out
}

/// What a spoke shows when its first session stands.
pub fn connected_lines(
    catalog: &Catalog,
    own_vip: Ipv4Addr,
    hub: &RosterEntry,
    path: String,
) -> (r: Vec<Line>)
    ensures
        lines_of(r@) == seq![
            (
                0u8,
                Tone::Good,
                said(catalog@, "connected. your virtual IP: {0}"@, seq![own_vip.shown()]),
            ),
            (
                0u8,
                Tone::Dim,
                said(
                    catalog@,
                    "hub {0} is at {1} (path {2}); peers may connect directly"@,
                    seq![hex_of(hub.id@.take(5)), hub.vip.shown(), path@],
                ),
            ),
            (0u8, Tone::Dim, looked_up(catalog@, "Press Ctrl+C to stop."@)),
        ],
{
    let mut out: Vec<Line> = Vec::new();
    put(
        &mut out,
        0,
        Tone::Good,
        say1(catalog, "connected. your virtual IP: {0}", own_vip.to_text()),
    );
    put(
        &mut out,
        0,
        Tone::Dim,
        say3(
            catalog,
            "hub {0} is at {1} (path {2}); peers may connect directly",
            hub.id.short_text(),
            hub.vip.to_text(),
            path,
        ),
    );
    put(&mut out, 0, Tone::Dim, lookup(catalog, "Press Ctrl+C to stop."));
    out
}

/// What a hub says when a spoke has joined.
pub fn joined_message(catalog: &Catalog, spoke: &RosterEntry) -> (r: String)
    ensures
        r@ == said(
            catalog@,
            "peer {0} joined at {1}"@,
            seq![hex_of(spoke.id@.take(5)), spoke.vip.shown()],
        ),
{
    say2(catalog, "peer {0} joined at {1}", spoke.id.short_text(), spoke.vip.to_text())
}

/// What a spoke says when another has joined.
pub fn mesh_peer_message(catalog: &Catalog, peer: &RosterEntry) -> (r: String)
    ensures
        r@ == said(
            catalog@,
            "mesh peer {0} at {1}"@,
            seq![hex_of(peer.id@.take(5)), peer.vip.shown()],
        ),
{
    say2(catalog, "mesh peer {0} at {1}", peer.id.short_text(), peer.vip.to_text())
}

/// The default address of a node begins with 172.24 and goes on with the first
/// two bytes of the hash, whichever they are; an address that was asked for is
/// taken as it is.
pub proof fn law_default_address(hash: [u8; 32], asked: Ipv4Addr, id: EndpointId, r: Ipv4Addr, own: Ipv4Addr)
    requires
        call_ensures(vip_of_hash, (&hash,), r),
        call_ensures(own_vip, (Some(asked), &id), own),
    ensures
        r.octets() == seq![172u8, 24] + hash@.take(2),
        own == asked,
{
    assert(r.octets() =~= seq![172u8, 24] + hash@.take(2));
}

/// A session's packet size is the largest that neither passes the user's bound
/// nor what the path's datagrams carry; a bound up to 1280 is accepted.
pub proof fn law_packet_size_is_the_largest_that_fits(
    catalog: Catalog,
    user_mtu: u16,
    carried: usize,
    other: u16,
    ok: Result<(), Error>,
    none: Result<u16, Error>,
    r: Result<u16, Error>,
)
    requires
        call_ensures(validate_mtu, (&catalog, user_mtu), ok),
        call_ensures(choose_mtu, (&catalog, user_mtu, None), none),
        call_ensures(choose_mtu, (&catalog, user_mtu, Some(carried)), r),
    ensures
        ok is Ok <==> user_mtu < 1281,
        none is Err,
        r matches Ok(m) && m <= user_mtu && m <= carried && (other <= user_mtu && other <= carried
            ==> other <= m),
{
}

/// The size is raised exactly where a larger one fits the bound and the path
/// and the hold-off of 15 seconds after the last lowering is over, and then to
/// the largest that fits.
pub proof fn law_size_is_raised_after_the_hold_off(
    gate: &mut RaiseGate,
    shrunk_at: Duration,
    user_mtu: u16,
    current: u16,
    carried: usize,
    now: Duration,
    other: u16,
    r: Option<u16>,
    gone: Option<u16>,
)
    requires
        shrunk_at.nanos <= LONGEST,
        call_ensures(RaiseGate::note_shrink, (gate, shrunk_at), ()),
        call_ensures(refresh_tun_mtu, (user_mtu, current, Some(carried), &*final(gate), now), r),
        call_ensures(refresh_tun_mtu, (user_mtu, current, None, &*final(gate), now), gone),
    ensures
        gone is None,
        r is Some <==> now.nanos >= shrunk_at.nanos + 15 * 1_000_000_000 && current < user_mtu
            && current < carried && current < u16::MAX,
        r matches Some(m) ==> current < m && m <= user_mtu && m <= carried && (other <= user_mtu
            && other <= carried ==> other <= m),
{
}

/// A packet that the path carries is sent, and nothing changes. A larger one
/// is dropped; the interface is lowered to what the path carries where it is
/// larger, and the sender is told of that size, at most twenty times within a
/// second.
pub proof fn law_large_packets_lower_the_size(
    sender: &mut PeerSender,
    now: Duration,
    pkt: &[u8],
    carried: usize,
    own: Ipv4Addr,
    told: u16,
    answer: Option<Vec<u8>>,
    r: SendStep,
)
    requires
        old(sender).wf(),
        told == carried || (carried > u16::MAX && told == u16::MAX),
        call_ensures(build_icmp_frag_needed, (pkt, told, own), answer),
        call_ensures(PeerSender::on_packet, (sender, now, pkt, Some(carried), own), r),
    ensures
        r is Send <==> pkt@.len() <= carried,
        r is Send ==> *final(sender) == *old(sender),
        r matches SendStep::TooLarge { lower_to, reply } ==> {
            let over = now.nanos >= old(sender).window_start.nanos + 1_000_000_000;
            &&& lower_to is Some <==> told < old(sender).iface_mtu
            &&& lower_to matches Some(m) ==> m == told && final(sender).iface_mtu == told
            &&& lower_to is None ==> final(sender).iface_mtu == old(sender).iface_mtu
            &&& reply is Some <==> answer is Some && (over || old(sender).window_count < 20)
            &&& reply is Some ==> reply->0@ == answer->0@
            &&& reply is Some ==> final(sender).window_count == 1 + (if over {
                0u32
            } else {
                old(sender).window_count
            })
            &&& reply is None && !over ==> final(sender).window_count == old(sender).window_count
            &&& final(sender).window_start == (if over {
                now
            } else {
                old(sender).window_start
            })
        },
{
}

/// A spoke redials after every session that the user did not end: after one
/// second where it lived for five, and otherwise after waits that double up to
/// thirty seconds. Only the first session is announced.
pub proof fn law_spoke_redials(
    l: &mut SpokeLoop,
    m: &mut SpokeLoop,
    stop: &mut SpokeLoop,
    up: &mut SpokeLoop,
    again: &mut SpokeLoop,
    lived: Duration,
    short: Duration,
    one: SpokeNext,
    two: SpokeNext,
    stopped: SpokeNext,
    first: bool,
    second: bool,
)
    requires
        old(l).wf(),
        old(stop).wf(),
        old(up).wf(),
        call_ensures(SpokeLoop::after_session, (l, SessionEnd::PeerGone, lived), one),
        *old(m) == *final(l),
        short.nanos < 5_000_000_000,
        call_ensures(SpokeLoop::after_session, (m, SessionEnd::PeerGone, short), two),
        call_ensures(SpokeLoop::after_session, (stop, SessionEnd::CtrlC, lived), stopped),
        call_ensures(SpokeLoop::on_session, (up,), first),
        *old(again) == *final(up),
        call_ensures(SpokeLoop::on_session, (again,), second),
    ensures
        stopped == SpokeNext::Stop,
        !second,
        lived.nanos >= 5_000_000_000 ==> one == SpokeNext::Redial(Duration { nanos: 1_000_000_000 })
            && two == one,
        lived.nanos < 5_000_000_000 ==> (one matches SpokeNext::Redial(a) && 1_000_000_000
            <= a.nanos <= 30_000_000_000 && two == SpokeNext::Redial(
            Duration {
                nanos: if 2 * a.nanos <= 30_000_000_000 {
                    (2 * a.nanos) as u128
                } else {
                    30_000_000_000
                },
            },
        )),
{
}

} // verus!
