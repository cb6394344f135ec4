//! The standing callee of phone mode: one call at a time, known contacts are
//! put through, strangers ring until they are answered or time out.

use vstd::prelude::*;
use crate::contacts::{
    first_with_id, peer_of, resolve, ContactBook, PeerError, PeerErrorView, ResolvedView,
};
use crate::endpoint::EndpointId;
use crate::i18n::{looked_up, lookup, said, say1, say2, Catalog};
use crate::net::SocketAddr;
use crate::phone_ring::{is_known_contact, match_peer_token, names_peer, RING_TIMEOUT_SECS};
use crate::runtime::CloseReason;
use crate::stream_ctl::{CtlRequest, CtlResponse, PendingCall, StreamPeer};
use crate::text::hex_of;
use crate::time::{Duration, SECOND};

verus! {

/// What the phone is doing.
#[derive(Clone, Copy, Debug, PartialEq, Eq, Structural)]
pub enum Phase {
    Idle,
    Dialing,
    Ringing,
    Connected,
}

impl Phase {
    /// The word by which status requests know it.
    pub open spec fn word(self) -> Seq<char> {
        match self {
            Phase::Idle => "idle"@,
            Phase::Dialing => "dialing"@,
            Phase::Ringing => "ringing"@,
            Phase::Connected => "connected"@,
        }
    }

    /// The word by which status requests know it.
    pub fn as_str(self) -> (r: &'static str)
        ensures
            r@ == self.word(),
    {
        match self {
            Phase::Idle => "idle",
            Phase::Dialing => "dialing",
            Phase::Ringing => "ringing",
            Phase::Connected => "connected",
        }
    }
}

/// A call that rings. `handle` tells its connection among the others.
#[derive(Clone, Copy, Debug)]
pub struct Ringing {
    pub handle: u64,
    pub peer: EndpointId,
    pub since: Duration,
    pub since_unix_ms: u64,
}

/// What became of a peer that called.
#[derive(Clone, Copy, Debug, PartialEq, Eq, Structural)]
pub enum Incoming {
    /// There is a call already: the connection is closed.
    Busy,
    /// A known contact: the session starts.
    Connect,
    /// A stranger: it rings.
    Ring,
}

impl Incoming {
    /// Why the peer's connection is closed, where it is.
    pub fn close_reason(self) -> (r: Option<CloseReason>)
        ensures
            r == (if self == Incoming::Busy {
                Some(CloseReason::Busy)
            } else {
                None
            }),
    {
        match self {
            Incoming::Busy => Some(CloseReason::Busy),
            _ => None,
        }
    }
}

/// The phone.
#[derive(Debug)]
pub struct Phone {
    session: String,
    listen: Option<SocketAddr>,
    forward: Option<SocketAddr>,
    phase: Phase,
    active: Option<EndpointId>,
    ringing: Vec<Ringing>,
}

/// The peer of the call that stands, as a plain value.
pub open spec fn peer_bytes(p: Option<EndpointId>) -> Option<Seq<u8>> {
    match p {
        Some(id) => Some(id@),
        None => None,
    }
}

/// Position of the first ringing call that a text names.
pub open spec fn first_named(book: ContactBook, token: Seq<char>, calls: Seq<Ringing>) -> Option<
    int,
>
    decreases calls.len(),
{
    if calls.len() == 0 {
        None
    } else {
        match first_named(book, token, calls.drop_last()) {
            Some(i) => Some(i),
            None => if names_peer(book, token, calls.last().peer@) {
                Some(calls.len() - 1)
            } else {
                None
            },
        }
    }
}

/// Whether a call has rung for longer than it may.
pub open spec fn rung_out(call: Ringing, now: Duration) -> bool {
    now.nanos - call.since.nanos > RING_TIMEOUT_SECS * SECOND
}

/// The calls that have rung out, or those that have not.
pub open spec fn sorted_out(calls: Seq<Ringing>, now: Duration, out: bool) -> Seq<Ringing>
    decreases calls.len(),
{
    if calls.len() == 0 {
        Seq::empty()
    } else if rung_out(calls.last(), now) == out {
        sorted_out(calls.drop_last(), now, out).push(calls.last())
    } else {
        sorted_out(calls.drop_last(), now, out)
    }
}

proof fn lemma_sorted_out(calls: Seq<Ringing>, now: Duration, out: bool)
    ensures
        forall|i: int|
            0 <= i < sorted_out(calls, now, out).len() ==> rung_out(
                #[trigger] sorted_out(calls, now, out)[i],
                now,
            ) == out,
        sorted_out(calls, now, true).len() + sorted_out(calls, now, false).len() == calls.len(),
    decreases calls.len(),
{
    if calls.len() > 0 {
        lemma_sorted_out(calls.drop_last(), now, out);
    }
}

proof fn lemma_first_named_stays(book: ContactBook, token: Seq<char>, calls: Seq<Ringing>, k: int)
    requires
        0 <= k <= calls.len(),
        first_named(book, token, calls.take(k)) is Some,
    ensures
        first_named(book, token, calls) == first_named(book, token, calls.take(k)),
    decreases calls.len() - k,
{
    if k < calls.len() {
        assert(calls.take(k + 1).drop_last() =~= calls.take(k));
        lemma_first_named_stays(book, token, calls, k + 1);
    } else {
        assert(calls.take(k) =~= calls);
    }
}

/// The rows that a status request shows for ringing calls.
pub open spec fn pending_rows(v: Seq<PendingCall>) -> Seq<(Seq<char>, u64, Seq<char>)> {
    v.map_values(|p: PendingCall| (p.peer@, p.since_unix_ms, p.direction@))
}

/// The rows for these calls.
pub open spec fn rows_of(calls: Seq<Ringing>) -> Seq<(Seq<char>, u64, Seq<char>)> {
    calls.map_values(|c: Ringing| (hex_of(c.peer@), c.since_unix_ms, "in"@))
}

impl Phone {
    /// What the phone is doing.
    pub closed spec fn doing(&self) -> Phase {
        self.phase
    }

    /// The peer of the call that stands.
    pub closed spec fn talking_to(&self) -> Option<Seq<u8>> {
        peer_bytes(self.active)
    }

    /// The calls that ring, oldest first.
    pub closed spec fn calls(&self) -> Seq<Ringing> {
        self.ringing@
    }

    /// What a session listens on and forwards to where nothing else is asked.
    pub closed spec fn defaults(&self) -> (Option<SocketAddr>, Option<SocketAddr>) {
        (self.listen, self.forward)
    }

    /// The daemon's session name.
    pub closed spec fn name(&self) -> Seq<char> {
        self.session@
    }

    /// The phase agrees with what there is: a connected phone has a call, a
    /// ringing one has a caller and no call, a dialing one has no call.
    pub open spec fn wf(&self) -> bool {
        &&& self.doing() == Phase::Connected ==> self.talking_to() is Some
        &&& self.doing() == Phase::Ringing ==> self.talking_to() is None && self.calls().len() > 0
        &&& self.doing() == Phase::Dialing ==> self.talking_to() is None
    }

    /// Whether both have the same session name and defaults.
    pub open spec fn same_setup(&self, other: &Phone) -> bool {
        self.name() == other.name() && self.defaults() == other.defaults()
    }

    /// An idle phone.
    pub fn new(session: String, listen: Option<SocketAddr>, forward: Option<SocketAddr>) -> (r:
        Phone)
        ensures
            r.wf(),
            r.name() == session@,
            r.defaults() == (listen, forward),
            r.doing() == Phase::Idle,
            r.talking_to() is None,
            r.calls() == Seq::<Ringing>::empty(),
    {
        Phone {
            session,
            listen,
            forward,
            phase: Phase::Idle,
            active: None,
            ringing: Vec::new(),
        }
    }

    /// A peer calls. While there is a call it is refused; a contact of the
    /// book is put through; anyone else rings.
    pub fn on_incoming(&mut self, book: &ContactBook, call: Ringing) -> (r: Incoming)
        requires
            old(self).wf(),
        ensures
            final(self).wf(),
            final(self).same_setup(&*old(self)),
            if old(self).talking_to() is Some {
                &&& r == Incoming::Busy
                &&& final(self).doing() == old(self).doing()
                &&& final(self).talking_to() == old(self).talking_to()
                &&& final(self).calls() == old(self).calls()
            } else if first_with_id(book@, hex_of(call.peer@)) is Some {
                &&& r == Incoming::Connect
                &&& final(self).doing() == Phase::Connected
                &&& final(self).talking_to() == Some(call.peer@)
                &&& final(self).calls() == old(self).calls()
            } else {
                &&& r == Incoming::Ring
                &&& final(self).doing() == Phase::Ringing
                &&& final(self).talking_to() is None
                &&& final(self).calls() == old(self).calls().push(call)
            },
    {
        if self.active.is_some() {
            return Incoming::Busy;
        }
        if is_known_contact(book, &call.peer) {
            self.active = Some(call.peer);
            self.phase = Phase::Connected;
            return Incoming::Connect;
        }
        self.ringing.push(call);
        self.phase = Phase::Ringing;
        Incoming::Ring
    }

    /// The user dials: what the session would listen on and forward to, or
    /// `None` where there is a call already.
    pub fn begin_dial(&mut self, listen: Option<SocketAddr>, forward: Option<SocketAddr>) -> (r:
        Option<(Option<SocketAddr>, Option<SocketAddr>)>)
        requires
            old(self).wf(),
        ensures
            final(self).wf(),
            final(self).same_setup(&*old(self)),
            final(self).talking_to() == old(self).talking_to(),
            final(self).calls() == old(self).calls(),
            if old(self).talking_to() is Some {
                r is None && final(self).doing() == old(self).doing()
            } else {
                &&& r == Some(
                    (
                        if listen is Some {
                            listen
                        } else {
                            old(self).defaults().0
                        },
                        if forward is Some {
                            forward
                        } else {
                            old(self).defaults().1
                        },
                    ),
                )
                &&& final(self).doing() == Phase::Dialing
            },
    {
        if self.active.is_some() {
            return None;
        }
        self.phase = Phase::Dialing;
        let l = if listen.is_some() {
            listen
        } else {
            self.listen
        };
        let f = if forward.is_some() {
            forward
        } else {
            self.forward
        };
        Some((l, f))
    }

    /// The dial came to nothing.
    pub fn dial_failed(&mut self)
        requires
            old(self).wf(),
        ensures
            final(self).wf(),
            final(self).same_setup(&*old(self)),
            final(self).doing() == Phase::Idle,
            final(self).talking_to() == old(self).talking_to(),
            final(self).calls() == old(self).calls(),
    {
        self.phase = Phase::Idle;
    }

    /// The dialed peer answered.
    pub fn dial_connected(&mut self, peer: EndpointId)
        requires
            old(self).wf(),
        ensures
            final(self).wf(),
            final(self).same_setup(&*old(self)),
            final(self).doing() == Phase::Connected,
            final(self).talking_to() == Some(peer@),
            final(self).calls() == old(self).calls(),
    {
        self.active = Some(peer);
        self.phase = Phase::Connected;
    }

    fn find(&self, book: &ContactBook, token: &str) -> (r: Option<usize>)
        ensures
            match r {
                Some(i) => i < self.calls().len() && first_named(*book, token@, self.calls())
                    == Some(i as int),
                None => first_named(*book, token@, self.calls()) is None,
            },
    {
        let mut i: usize = 0;
        while i < self.ringing.len()
            invariant
                i <= self.ringing@.len(),
                first_named(*book, token@, self.ringing@.take(i as int)) is None,
            decreases self.ringing@.len() - i,
        {
            proof {
                let next = self.ringing@.take(i + 1);
                assert(next.drop_last() =~= self.ringing@.take(i as int));
                assert(next.last() == self.ringing@[i as int]);
            }
            if match_peer_token(book, token, &self.ringing[i].peer) {
                proof {
                    lemma_first_named_stays(*book, token@, self.ringing@, i + 1);
                }
                return Some(i);
            }
            i = i + 1;
        }
        proof {
            assert(self.ringing@.take(self.ringing@.len() as int) =~= self.ringing@);
        }
        None
    }

    /// The user answers: the first ringing call that the text names becomes
    /// the call. Where none does, nothing happens.
    pub fn accept(&mut self, book: &ContactBook, token: &str) -> (r: Option<Ringing>)
        requires
            old(self).wf(),
        ensures
            final(self).wf(),
            final(self).same_setup(&*old(self)),
            match first_named(*book, token@, old(self).calls()) {
                Some(i) => {
                    &&& r == Some(old(self).calls()[i])
                    &&& final(self).calls() == old(self).calls().remove(i)
                    &&& final(self).talking_to() == Some(old(self).calls()[i].peer@)
                    &&& final(self).doing() == Phase::Connected
                },
                None => {
                    &&& r is None
                    &&& final(self).calls() == old(self).calls()
                    &&& final(self).talking_to() == old(self).talking_to()
                    &&& final(self).doing() == old(self).doing()
                },
            },
    {
        match self.find(book, token) {
            Some(i) => {
                let call = self.ringing.remove(i);
                self.active = Some(call.peer);
                self.phase = Phase::Connected;
                Some(call)
            },
            None => None,
        }
    }

    /// The user refuses: the first ringing call that the text names is taken
    /// out, and closed as `Rejected`. When none is left the phone is idle.
    pub fn reject(&mut self, book: &ContactBook, token: &str) -> (r: Option<Ringing>)
        requires
            old(self).wf(),
        ensures
            final(self).wf(),
            final(self).same_setup(&*old(self)),
            final(self).talking_to() == old(self).talking_to(),
            match first_named(*book, token@, old(self).calls()) {
                Some(i) => {
                    &&& r == Some(old(self).calls()[i])
                    &&& final(self).calls() == old(self).calls().remove(i)
                    &&& final(self).doing() == (if final(self).calls().len() == 0 {
                        Phase::Idle
                    } else {
                        old(self).doing()
                    })
                },
                None => {
                    &&& r is None
                    &&& final(self).calls() == old(self).calls()
                    &&& final(self).doing() == old(self).doing()
                },
            },
    {
        match self.find(book, token) {
            Some(i) => {
                let call = self.ringing.remove(i);
                if self.ringing.len() == 0 {
                    self.phase = Phase::Idle;
                }
                Some(call)
            },
            None => None,
        }
    }

    /// Takes out the calls that have rung for longer than they may; their
    /// connections are closed as `RingTimeout`.
    pub fn on_tick(&mut self, now: Duration) -> (r: Vec<Ringing>)
        requires
            old(self).wf(),
        ensures
            final(self).wf(),
            final(self).same_setup(&*old(self)),
            final(self).talking_to() == old(self).talking_to(),
            r@ == sorted_out(old(self).calls(), now, true),
            final(self).calls() == sorted_out(old(self).calls(), now, false),
            forall|i: int|
                0 <= i < final(self).calls().len() ==> !rung_out(
                    #[trigger] final(self).calls()[i],
                    now,
                ),
            final(self).doing() == (if r@.len() > 0 && final(self).calls().len() == 0 && old(
                self,
            ).talking_to() is None {
                Phase::Idle
            } else {
                old(self).doing()
            }),
    {
        let mut gone: Vec<Ringing> = Vec::new();
        let mut kept: Vec<Ringing> = Vec::new();
        let mut i: usize = 0;
        while i < self.ringing.len()
            invariant
                i <= self.ringing@.len(),
                gone@ == sorted_out(self.ringing@.take(i as int), now, true),
                kept@ == sorted_out(self.ringing@.take(i as int), now, false),
            decreases self.ringing@.len() - i,
        {
            let call = self.ringing[i];
            proof {
                let next = self.ringing@.take(i + 1);
                assert(next.drop_last() =~= self.ringing@.take(i as int));
                assert(next.last() == call);
            }
            if now.nanos > call.since.nanos && now.nanos - call.since.nanos > 120_000_000_000 {
                gone.push(call);
            } else {
                kept.push(call);
            }
            i = i + 1;
        }
        proof {
            assert(self.ringing@.take(self.ringing@.len() as int) =~= self.ringing@);
            lemma_sorted_out(self.ringing@, now, false);
        }
        self.ringing = kept;
        if gone.len() > 0 && self.ringing.len() == 0 && self.active.is_none() {
            self.phase = Phase::Idle;
        }
        gone
    }

    /// The call's connection has closed.
    pub fn on_closed(&mut self)
        requires
            old(self).wf(),
        ensures
            final(self).wf(),
            final(self).same_setup(&*old(self)),
            final(self).doing() == Phase::Idle,
            final(self).talking_to() is None,
            final(self).calls() == old(self).calls(),
    {
        self.active = None;
        self.phase = Phase::Idle;
    }

    /// What a session listens on and forwards to by default.
    pub fn session_defaults(&self) -> (r: (Option<SocketAddr>, Option<SocketAddr>))
        ensures
            r == self.defaults(),
    {
        (self.listen, self.forward)
    }

    /// The answer to a status request.
    pub fn status(&self, uptime_secs: u64) -> (r: CtlResponse)
        ensures
            r matches CtlResponse::Status {
                role,
                uptime_secs: up,
                session,
                phase,
                listen,
                forward,
                pending_calls,
            } && role@ == "phone"@ && up == uptime_secs && session@ == self.name() && phase@
                == self.doing().word() && (listen, forward) == self.defaults() && pending_rows(
                pending_calls@,
            ) == rows_of(self.calls()),
    {
        let mut pending: Vec<PendingCall> = Vec::new();
        let mut i: usize = 0;
        while i < self.ringing.len()
            invariant
                i <= self.ringing@.len(),
                pending_rows(pending@) == rows_of(self.ringing@.take(i as int)),
            decreases self.ringing@.len() - i,
        {
            let ghost before = pending_rows(pending@);
            let c = self.ringing[i];
            pending.push(
                PendingCall {
                    peer: c.peer.to_text(),
                    since_unix_ms: c.since_unix_ms,
                    direction: "in".to_owned(),
                },
            );
            proof {
                let row = (hex_of(c.peer@), c.since_unix_ms, "in"@);
                assert(pending_rows(pending@) =~= before.push(row));
                assert(rows_of(self.ringing@.take(i + 1)) =~= rows_of(
                    self.ringing@.take(i as int),
                ).push(row));
            }
            i = i + 1;
        }
        proof {
            assert(self.ringing@.take(self.ringing@.len() as int) =~= self.ringing@);
        }
        CtlResponse::Status {
            role: "phone".to_owned(),
            uptime_secs,
            session: self.session.clone(),
            phase: self.phase.as_str().to_owned(),
            listen: self.listen,
            forward: self.forward,
            pending_calls: pending,
        }
    }

    /// The answer to a request for the connected peers: the one of the call.
    pub fn peers(&self) -> (r: CtlResponse)
        ensures
            r matches CtlResponse::Peers { peers } && match self.talking_to() {
                Some(id) => peers@.len() == 1 && peers@[0].id@ == hex_of(id),
                None => peers@.len() == 0,
            },
    {
        let mut peers: Vec<StreamPeer> = Vec::new();
        match &self.active {
            Some(id) => {
                peers.push(StreamPeer { id: id.to_text() });
            },
            None => {},
        }
        CtlResponse::Peers { peers }
    }

    /// What the daemon does with a request: answer at once, or hand a command
    /// to the phone.
    pub fn on_request(&self, req: CtlRequest, uptime_secs: u64) -> (r: CtlPlan)
        ensures
            match req {
                CtlRequest::Status => r matches CtlPlan::Answer(CtlResponse::Status {
                    role,
                    uptime_secs: up,
                    session,
                    phase,
                    listen,
                    forward,
                    pending_calls,
                }) && role@ == "phone"@ && up == uptime_secs && session@ == self.name() && phase@
                    == self.doing().word() && (listen, forward) == self.defaults() && pending_rows(
                    pending_calls@,
                ) == rows_of(self.calls()),
                CtlRequest::Peers => r matches CtlPlan::Answer(CtlResponse::Peers { peers })
                    && match self.talking_to() {
                    Some(id) => peers@.len() == 1 && peers@[0].id@ == hex_of(id),
                    None => peers@.len() == 0,
                },
                CtlRequest::Shutdown => r == (CtlPlan::Queue {
                    cmd: CallCmd::Shutdown,
                    wait: true,
                }),
                CtlRequest::Call { to, listen, forward, to_addr } => r == (CtlPlan::Queue {
                    cmd: CallCmd::Dial { to, listen, forward, to_addr },
                    wait: false,
                }),
                CtlRequest::Accept { peer } => r == (CtlPlan::Queue {
                    cmd: CallCmd::Accept { peer },
                    wait: true,
                }),
                CtlRequest::Reject { peer } => r == (CtlPlan::Queue {
                    cmd: CallCmd::Reject { peer },
                    wait: true,
                }),
            },
    {
        match req {
            CtlRequest::Status => CtlPlan::Answer(self.status(uptime_secs)),
            CtlRequest::Peers => CtlPlan::Answer(self.peers()),
            CtlRequest::Shutdown => CtlPlan::Queue { cmd: CallCmd::Shutdown, wait: true },
            CtlRequest::Call { to, listen, forward, to_addr } => CtlPlan::Queue {
                cmd: CallCmd::Dial { to, listen, forward, to_addr },
                wait: false,
            },
            CtlRequest::Accept { peer } => CtlPlan::Queue {
                cmd: CallCmd::Accept { peer },
                wait: true,
            },
            CtlRequest::Reject { peer } => CtlPlan::Queue {
                cmd: CallCmd::Reject { peer },
                wait: true,
            },
        }
    }
}

/// A command to the phone.
#[derive(Debug)]
pub enum CallCmd {
    Dial {
        to: String,
        listen: Option<SocketAddr>,
        forward: Option<SocketAddr>,
        to_addr: Vec<SocketAddr>,
    },
    Accept { peer: String },
    Reject { peer: String },
    Shutdown,
}

/// What the daemon does with a request.
#[derive(Debug)]
pub enum CtlPlan {
    Answer(CtlResponse),
    /// Queue the command and report success. Where `wait` is not set and the
    /// queue is full, the daemon is busy.
    Queue { cmd: CallCmd, wait: bool },
}

/// The answer to a request whose command was queued, or found no room.
pub fn queued(catalog: &Catalog, fits: bool) -> (r: CtlResponse)
    ensures
        if fits {
            r is Success
        } else {
            r matches CtlResponse::Failure { code, message } && code == crate::exit::OTHER
                && message@ == looked_up(catalog@, "call daemon is busy"@)
        },
{
    if fits {
        CtlResponse::Success
    } else {
        CtlResponse::Failure {
            code: crate::exit::OTHER,
            message: lookup(catalog, "call daemon is busy"),
        }
    }
}

/// Whom a dial is for, and at which addresses: those that were given, then
/// those of the contact.
pub fn dial_target(book: &ContactBook, to: &str, to_addr: Vec<SocketAddr>) -> (r: Result<
    (EndpointId, Vec<SocketAddr>),
    PeerError,
>)
    requires
        book.wf(),
    ensures
        match r {
            Ok((id, addrs)) => peer_of(book@, to@) is Ok && peer_of(book@, to@)->Ok_0.id == id@
                && addrs@ == to_addr@ + peer_of(book@, to@)->Ok_0.addrs,
            Err(e) => peer_of(book@, to@) == Err::<ResolvedView, PeerErrorView>(e@),
        },
{
    match resolve(book, to) {
        Ok(p) => {
            let mut addrs = to_addr;
            let ghost given = addrs@;
            let mut i: usize = 0;
            while i < p.addrs.len()
                invariant
                    i <= p.addrs@.len(),
                    addrs@ == given + p.addrs@.take(i as int),
                decreases p.addrs@.len() - i,
            {
                addrs.push(p.addrs[i]);
                proof {
                    assert(addrs@ =~= given + p.addrs@.take(i + 1));
                }
                i = i + 1;
            }
            proof {
                assert(p.addrs@.take(p.addrs@.len() as int) =~= p.addrs@);
            }
            Ok((p.id, addrs))
        },
        Err(e) => Err(e),
    }
}

/// What the user is told of a stranger's call.
pub fn incoming_message(catalog: &Catalog, peer: &EndpointId) -> (r: String)
    ensures
        r@ == said(
            catalog@,
            "incoming call from {0} — `link-p2p call accept {0}` or `call reject`"@,
            seq![hex_of(peer@.take(5))],
        ),
{
    say1(
        catalog,
        "incoming call from {0} — `link-p2p call accept {0}` or `call reject`",
        peer.short_text(),
    )
}

/// What the user is told of a dial that failed.
pub fn unreachable_message(catalog: &Catalog, to: &str, why: String) -> (r: String)
    ensures
        r@ == said(catalog@, "could not reach {0}: {1}"@, seq![to@, why@]),
{
    say2(catalog, "could not reach {0}: {1}", to.to_owned(), why)
}

/// A call that rings can be answered or refused by the id of its caller: that
/// names it, or one from the same caller that has rung for longer.
pub proof fn law_ringing_calls_are_named_by_their_id(
    book: ContactBook,
    calls: Seq<Ringing>,
    i: int,
)
    requires
        0 <= i < calls.len(),
    ensures
        first_named(book, hex_of(calls[i].peer@), calls) matches Some(k) && 0 <= k <= i,
    decreases calls.len(),
{
    let token = hex_of(calls[i].peer@);
    let front = calls.drop_last();
    if i < front.len() {
        law_ringing_calls_are_named_by_their_id(book, front, i);
    } else {
        lemma_first_named_range(book, token, front);
    }
}

proof fn lemma_first_named_range(book: ContactBook, token: Seq<char>, calls: Seq<Ringing>)
    ensures
        first_named(book, token, calls) matches Some(k) ==> 0 <= k < calls.len(),
    decreases calls.len(),
{
    if calls.len() > 0 {
        lemma_first_named_range(book, token, calls.drop_last());
    }
}

/// Nobody rings for longer than the limit, and nobody is cut off before it:
/// of the calls that ring, those over it are taken out and the others stay.
pub proof fn law_calls_ring_until_their_time(calls: Seq<Ringing>, now: Duration, i: int)
    requires
        0 <= i < calls.len(),
    ensures
        sorted_out(calls, now, rung_out(calls[i], now)).contains(calls[i]),
        forall|k: int|
            0 <= k < sorted_out(calls, now, false).len() ==> !rung_out(
                #[trigger] sorted_out(calls, now, false)[k],
                now,
            ),
        sorted_out(calls, now, true).len() + sorted_out(calls, now, false).len() == calls.len(),
    decreases calls.len(),
{
    lemma_sorted_out(calls, now, false);
    let out = rung_out(calls[i], now);
    let front = calls.drop_last();
    if i < front.len() {
        law_calls_ring_until_their_time(front, now, i);
        let part = sorted_out(front, now, out);
        let k = choose|k: int| 0 <= k < part.len() && part[k] == calls[i];
        assert(sorted_out(calls, now, out)[k] == calls[i]);
    } else {
        let all = sorted_out(calls, now, out);
        assert(all[all.len() - 1] == calls[i]);
    }
}

proof fn lemma_first_named(book: ContactBook, token: Seq<char>, calls: Seq<Ringing>)
    ensures
        match first_named(book, token, calls) {
            None => forall|j: int|
                0 <= j < calls.len() ==> !names_peer(book, token, (#[trigger] calls[j]).peer@),
            Some(i) => 0 <= i < calls.len() && names_peer(book, token, calls[i].peer@) && forall|
                j: int,
            |
                0 <= j < i ==> !names_peer(book, token, (#[trigger] calls[j]).peer@),
        },
    decreases calls.len(),
{
    if calls.len() > 0 {
        let front = calls.drop_last();
        lemma_first_named(book, token, front);
        match first_named(book, token, front) {
            Some(i) => {
                assert forall|j: int| 0 <= j < i implies !names_peer(
                    book,
                    token,
                    (#[trigger] calls[j]).peer@,
                ) by {
                    assert(!names_peer(book, token, front[j].peer@));
                }
            },
            None => {
                assert forall|j: int| 0 <= j < front.len() implies !names_peer(
                    book,
                    token,
                    (#[trigger] calls[j]).peer@,
                ) by {
                    assert(!names_peer(book, token, front[j].peer@));
                }
            },
        }
    }
}

/// While a call stands, whoever calls is told that the line is busy, nobody
/// can be dialed, and the call goes on.
pub proof fn law_one_call_at_a_time(
    phone: &mut Phone,
    same: &mut Phone,
    book: ContactBook,
    call: Ringing,
    came: Incoming,
    listen: Option<SocketAddr>,
    forward: Option<SocketAddr>,
    dialed: Option<(Option<SocketAddr>, Option<SocketAddr>)>,
)
    requires
        old(phone).wf(),
        old(phone).talking_to() is Some,
        *old(same) == *old(phone),
        call_ensures(Phone::on_incoming, (phone, &book, call), came),
        call_ensures(Phone::begin_dial, (same, listen, forward), dialed),
    ensures
        came == Incoming::Busy,
        dialed is None,
        final(phone).talking_to() == old(phone).talking_to(),
        final(same).talking_to() == old(phone).talking_to(),
        final(phone).calls() == old(phone).calls(),
{
}

/// While no call stands, a peer that the book holds is put through at once,
/// whoever else rings, and anyone else rings behind those who ring already.
pub proof fn law_contacts_are_put_through_and_strangers_ring(
    phone: &mut Phone,
    book: ContactBook,
    call: Ringing,
    known: bool,
    came: Incoming,
)
    requires
        old(phone).wf(),
        old(phone).talking_to() is None,
        call_ensures(is_known_contact, (&book, &call.peer), known),
        call_ensures(Phone::on_incoming, (phone, &book, call), came),
    ensures
        came == Incoming::Connect <==> known,
        came == Incoming::Ring <==> !known,
        known ==> final(phone).talking_to() == Some(call.peer@) && final(phone).doing()
            == Phase::Connected && final(phone).calls() == old(phone).calls(),
        !known ==> final(phone).talking_to() is None && final(phone).doing() == Phase::Ringing
            && final(phone).calls() == old(phone).calls() + seq![call],
{
    assert(old(phone).calls().push(call) =~= old(phone).calls() + seq![call]);
}

/// Answering and refusing concern the caller who has rung longest of those
/// whom the text names, and nobody else: the others keep ringing, in order.
/// Who is answered is talked to; who is refused is not, and with the last of
/// them the phone is idle. A text that names nobody changes nothing.
pub proof fn law_answering_and_refusing_pick_the_named(
    answered: &mut Phone,
    refused: &mut Phone,
    book: ContactBook,
    token: &str,
    i: int,
    a: Option<Ringing>,
    b: Option<Ringing>,
)
    requires
        old(answered).wf(),
        *old(refused) == *old(answered),
        call_ensures(Phone::accept, (answered, &book, token), a),
        call_ensures(Phone::reject, (refused, &book, token), b),
    ensures
        ({
            let calls = old(answered).calls();
            &&& 0 <= i < calls.len() && names_peer(book, token@, calls[i].peer@) && (forall|j: int|
                0 <= j < i ==> !names_peer(book, token@, (#[trigger] calls[j]).peer@)) ==> {
                let rest = calls.take(i) + calls.skip(i + 1);
                &&& a == Some(calls[i]) && b == Some(calls[i])
                &&& final(answered).calls() == rest && final(refused).calls() == rest
                &&& final(answered).talking_to() == Some(calls[i].peer@)
                &&& final(answered).doing() == Phase::Connected
                &&& final(refused).talking_to() == old(refused).talking_to()
                &&& rest.len() == 0 ==> final(refused).doing() == Phase::Idle
                &&& rest.len() > 0 ==> final(refused).doing() == old(refused).doing()
            }
            &&& (forall|j: int|
                0 <= j < calls.len() ==> !names_peer(book, token@, (#[trigger] calls[j]).peer@))
                ==> a is None && b is None && final(answered).calls() == calls
                && final(refused).calls() == calls && final(answered).talking_to() == old(answered).talking_to() && final(refused).doing() == old(refused).doing()
        }),
{
    let calls = old(answered).calls();
    lemma_first_named(book, token@, calls);
    if 0 <= i < calls.len() && names_peer(book, token@, calls[i].peer@) && (forall|j: int|
        0 <= j < i ==> !names_peer(book, token@, (#[trigger] calls[j]).peer@)) {
        let k = first_named(book, token@, calls)->0;
        if k < i {
            assert(!names_peer(book, token@, calls[k].peer@));
        }
        assert(calls.remove(i) =~= calls.take(i) + calls.skip(i + 1));
    }
}

/// A caller is given up exactly where it has rung for more than two minutes;
/// those who have not keep ringing, in order. Nothing else ends by itself.
pub proof fn law_ringing_ends_after_two_minutes(
    phone: &mut Phone,
    now: Duration,
    gone: Vec<Ringing>,
)
    requires
        old(phone).wf(),
        call_ensures(Phone::on_tick, (phone, now), gone),
    ensures
        gone@ == old(phone).calls().filter(
            |c: Ringing| now.nanos - c.since.nanos > 120 * 1_000_000_000,
        ),
        final(phone).calls() == old(phone).calls().filter(
            |c: Ringing| now.nanos - c.since.nanos <= 120 * 1_000_000_000,
        ),
        final(phone).talking_to() == old(phone).talking_to(),
        old(phone).doing() == Phase::Ringing && final(phone).calls().len() == 0 ==> final(phone).doing() == Phase::Idle,
        gone@.len() == 0 ==> final(phone).doing() == old(phone).doing(),
{
    lemma_filtered(old(phone).calls(), now);
    lemma_sorted_out(old(phone).calls(), now, true);
}

proof fn lemma_filtered(calls: Seq<Ringing>, now: Duration)
    ensures
        sorted_out(calls, now, true) == calls.filter(
            |c: Ringing| now.nanos - c.since.nanos > 120 * 1_000_000_000,
        ),
        sorted_out(calls, now, false) == calls.filter(
            |c: Ringing| now.nanos - c.since.nanos <= 120 * 1_000_000_000,
        ),
    decreases calls.len(),
{
    reveal(Seq::filter);
    if calls.len() > 0 {
        lemma_filtered(calls.drop_last(), now);
    }
}

/// A call that was hung up, or a dial that failed, leaves the line free: the
/// next dial goes ahead, with the addresses that were given for it, and the
/// phone's own where none were.
pub proof fn law_line_is_free_again(
    phone: &mut Phone,
    next: &mut Phone,
    listen: Option<SocketAddr>,
    forward: Option<SocketAddr>,
    dialed: Option<(Option<SocketAddr>, Option<SocketAddr>)>,
)
    requires
        old(phone).wf(),
        call_ensures(Phone::on_closed, (phone,), ()),
        *old(next) == *final(phone),
        call_ensures(Phone::begin_dial, (next, listen, forward), dialed),
    ensures
        dialed is Some,
        ({
            let (l, f) = dialed->0;
            &&& listen is Some ==> l == listen
            &&& listen is None ==> l == old(phone).defaults().0
            &&& forward is Some ==> f == forward
            &&& forward is None ==> f == old(phone).defaults().1
        }),
        final(next).doing() == Phase::Dialing,
        final(next).calls() == old(phone).calls(),
{
}

/// A dialed peer that answers is the one that is talked to and that is listed,
/// and the call is over when it is closed.
pub proof fn law_answered_dial_is_the_call(
    phone: &mut Phone,
    later: &mut Phone,
    peer: EndpointId,
    shown: String,
    listed: CtlResponse,
    after: CtlResponse,
)
    requires
        old(phone).wf(),
        call_ensures(Phone::dial_connected, (phone, peer), ()),
        call_ensures(EndpointId::to_text, (&peer,), shown),
        call_ensures(Phone::peers, (&*final(phone),), listed),
        *old(later) == *final(phone),
        call_ensures(Phone::on_closed, (later,), ()),
        call_ensures(Phone::peers, (&*final(later),), after),
    ensures
        listed matches CtlResponse::Peers { peers } && peers@.len() == 1 && peers@[0].id@ == shown@,
        after matches CtlResponse::Peers { peers } && peers@.len() == 0,
{
}

/// A dial tries the addresses that were given for it, in order, and then every
/// address of the contact, in order.
pub proof fn law_dial_tries_given_addresses_first(
    book: ContactBook,
    to: &str,
    given: Vec<SocketAddr>,
    peer: Result<crate::contacts::ResolvedPeer, PeerError>,
    r: Result<(EndpointId, Vec<SocketAddr>), PeerError>,
    i: int,
)
    requires
        book.wf(),
        call_ensures(resolve, (&book, to), peer),
        call_ensures(dial_target, (&book, to, given), r),
    ensures
        r is Ok <==> peer is Ok,
        r is Ok ==> {
            let (id, addrs) = r->Ok_0;
            let p = peer->Ok_0;
            &&& id@ == p.id@
            &&& addrs@.len() == given@.len() + p.addrs@.len()
            &&& 0 <= i < given@.len() ==> addrs@[i] == given@[i]
            &&& 0 <= i < p.addrs@.len() ==> addrs@[given@.len() + i] == p.addrs@[i]
        },
{
}

/// A status lists every call that rings, oldest first, by the id of its caller
/// and since when it rings, and tells what the phone does and with which
/// settings.
pub proof fn law_status_lists_who_rings(
    phone: Phone,
    uptime: u64,
    i: int,
    caller: String,
    word: &'static str,
    r: CtlResponse,
)
    requires
        call_ensures(Phone::status, (&phone, uptime), r),
        0 <= i < phone.calls().len(),
        call_ensures(EndpointId::to_text, (&phone.calls()[i].peer,), caller),
        call_ensures(Phase::as_str, (phone.doing(),), word),
    ensures
        r matches CtlResponse::Status {
            role,
            uptime_secs,
            session,
            phase,
            listen,
            forward,
            pending_calls,
        } && uptime_secs == uptime && session@ == phone.name() && phase@ == word@ && (
            listen,
            forward,
        ) == phone.defaults() && pending_calls@.len() == phone.calls().len()
            && pending_calls@[i].peer@ == caller@ && pending_calls@[i].since_unix_ms
            == phone.calls()[i].since_unix_ms && pending_calls@[i].direction@ == "in"@,
{
    let pending = r->pending_calls;
    assert(pending_rows(pending@).len() == rows_of(phone.calls()).len());
    assert(pending_rows(pending@)[i] == rows_of(phone.calls())[i]);
}

} // verus!
