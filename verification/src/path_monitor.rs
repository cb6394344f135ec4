//! The monitor of a live session: when it moved to a direct path, when a
//! relay seems to limit it, and how often to retry hole punching.

use vstd::prelude::*;
use crate::i18n::{looked_up, lookup, said, say1, Catalog};
use crate::path_kind::PathKind;
use crate::text::{decimal, decimal_of};
use crate::time::Duration;

verus! {

/// Seconds between two samples.
pub const STATS_SECS: u64 = 30;

/// Throughput, in bytes per second, under which a session on a relay counts
/// as limited.
pub const RELAY_SLOW_BPS: u64 = 131_072;

/// Throughput, in bytes per second, under which a session counts as idle.
pub const ACTIVE_MIN_BPS: u64 = 2_048;

/// Samples of a limited session after which the user is told.
pub const SLOW_STREAK: u8 = 2;

/// How eagerly to retry hole punching.
#[derive(Clone, Copy, Debug, PartialEq, Eq, Structural)]
pub struct Tuning {
    /// Seconds between two retries.
    pub upgrade_secs: u64,
    /// Samples without a direct candidate after which a peer counts as bound
    /// to the relay.
    pub perm_streak: u8,
    /// Seconds between two retries for such a peer.
    pub upgrade_secs_permanent: u64,
}

/// How often past sessions with a peer were direct.
#[derive(Clone, Copy, Debug, PartialEq, Eq, Structural)]
pub struct DirectHistory {
    pub direct: u64,
    pub total: u64,
}

/// The tuning for a peer: more eager where at least half of its sessions were
/// direct, less where under a fifth were.
pub fn tuning_for(history: Option<DirectHistory>) -> (r: Tuning)
    requires
        history matches Some(h) ==> h.total > 0,
    ensures
        r.upgrade_secs_permanent == 300,
        (r.upgrade_secs, r.perm_streak) == (match history {
            Some(h) => if h.direct * 2 >= h.total {
                (30u64, 6u8)
            } else if h.direct * 5 < h.total {
                (90u64, 2u8)
            } else {
                (45u64, 4u8)
            },
            None => (45u64, 4u8),
        }),
{
    match history {
        Some(h) => {
            if h.direct as u128 * 2 >= h.total as u128 {
                Tuning { upgrade_secs: 30, perm_streak: 6, upgrade_secs_permanent: 300 }
            } else if (h.direct as u128) * 5 < h.total as u128 {
                Tuning { upgrade_secs: 90, perm_streak: 2, upgrade_secs_permanent: 300 }
            } else {
                Tuning { upgrade_secs: 45, perm_streak: 4, upgrade_secs_permanent: 300 }
            }
        },
        None => Tuning { upgrade_secs: 45, perm_streak: 4, upgrade_secs_permanent: 300 },
    }
}

/// What the monitor remembers.
#[derive(Clone, Copy, Debug, PartialEq, Eq, Structural)]
pub struct Monitor {
    pub tuning: Tuning,
    /// Bytes sent and received up to the last sample.
    pub prev_bytes: u64,
    /// Samples in a row that were slow on a relay.
    pub slow_streak: u8,
    /// Samples in a row without a direct candidate.
    pub no_ip_streak: u8,
    pub warned_limit: bool,
    pub warned_permanent: bool,
    pub was_direct: bool,
    /// When the session was first seen direct.
    pub first_direct: Option<Duration>,
}

/// What one sample showed.
#[derive(Clone, Copy, Debug, PartialEq, Eq, Structural)]
pub struct Sample {
    /// Bytes per second since the last sample.
    pub bps: u64,
    /// The session has become direct.
    pub upgraded: bool,
    /// Tell the user that the peer seems bound to the relay.
    pub warn_permanent: bool,
    /// Tell the user that the relay seems to limit the session to this many
    /// KiB per second.
    pub warn_limit: Option<u64>,
}

/// Addition that stays at the largest number.
pub open spec fn saturating(a: int, max: int) -> int {
    if a <= max {
        a
    } else {
        max
    }
}

/// The monitor and the sample after the counters read `tx` and `rx`.
pub open spec fn sampled(m: Monitor, kind: PathKind, tx: u64, rx: u64, elapsed: Duration) -> (
    Monitor,
    Sample,
) {
    let bytes = saturating(tx + rx, u64::MAX as int);
    let delta = if bytes >= m.prev_bytes {
        bytes - m.prev_bytes
    } else {
        0
    };
    let bps = (delta / STATS_SECS as int) as u64;
    let direct = kind == PathKind::Direct;
    let upgraded = direct && !m.was_direct;
    let no_ip = match kind {
        PathKind::Relay => saturating(
            (if upgraded {
                0
            } else {
                m.no_ip_streak as int
            }) + 1,
            255,
        ) as u8,
        PathKind::Direct => 0u8,
        PathKind::RelayWithDirectCandidate => 0u8,
        PathKind::Unknown => m.no_ip_streak,
    };
    let told_permanent = m.warned_permanent && !upgraded;
    let told_limit = m.warned_limit && !upgraded;
    let warn_permanent = !told_permanent && no_ip >= m.tuning.perm_streak;
    let slow = if !direct && ACTIVE_MIN_BPS <= bps && bps < RELAY_SLOW_BPS {
        saturating(m.slow_streak + 1, 255) as u8
    } else {
        0u8
    };
    let warn_limit = !told_limit && slow >= SLOW_STREAK;
    (
        Monitor {
            tuning: m.tuning,
            prev_bytes: bytes as u64,
            slow_streak: slow,
            no_ip_streak: no_ip,
            warned_limit: told_limit || warn_limit,
            warned_permanent: told_permanent || warn_permanent,
            was_direct: direct,
            first_direct: if upgraded && m.first_direct is None {
                Some(elapsed)
            } else {
                m.first_direct
            },
        },
        Sample {
            bps,
            upgraded,
            warn_permanent,
            warn_limit: if warn_limit {
                Some(bps / 1024)
            } else {
                None
            },
        },
    )
}

fn add_capped(a: u64, b: u64) -> (r: u64)
    ensures
        r == saturating(a + b, u64::MAX as int),
{
    if a <= u64::MAX - b {
        a + b
    } else {
        u64::MAX
    }
}

fn one_more(n: u8) -> (r: u8)
    ensures
        r == saturating(n + 1, 255),
{
    if n < 255 {
        n + 1
    } else {
        255
    }
}

impl Monitor {
    /// Starts to watch a session whose counters read `tx` and `rx`.
    pub fn start(tuning: Tuning, tx: u64, rx: u64, kind: PathKind) -> (r: Monitor)
        ensures
            r == (Monitor {
                tuning,
                prev_bytes: saturating(tx + rx, u64::MAX as int) as u64,
                slow_streak: 0,
                no_ip_streak: 0,
                warned_limit: false,
                warned_permanent: false,
                was_direct: kind == PathKind::Direct,
                first_direct: if kind == PathKind::Direct {
                    Some(Duration { nanos: 0 })
                } else {
                    None
                },
            }),
    {
        let direct: bool = kind.is_direct();
        Monitor {
            tuning,
            prev_bytes: add_capped(tx, rx),
            slow_streak: 0,
            no_ip_streak: 0,
            warned_limit: false,
            warned_permanent: false,
            was_direct: direct,
            first_direct: if direct {
                Some(Duration { nanos: 0 })
            } else {
                None
            },
        }
    }

    /// Takes a sample.
    pub fn on_stats(&mut self, kind: PathKind, tx: u64, rx: u64, elapsed: Duration) -> (r: Sample)
        ensures
            (*final(self), r) == sampled(*old(self), kind, tx, rx, elapsed),
    {
        let bytes: u64 = add_capped(tx, rx);
        let delta: u64 = if bytes >= self.prev_bytes {
            bytes - self.prev_bytes
        } else {
            0
        };
        self.prev_bytes = bytes;
        let bps: u64 = delta / STATS_SECS;
        let direct: bool = kind.is_direct();
        let upgraded: bool = direct && !self.was_direct;
        if upgraded {
            if self.first_direct.is_none() {
                self.first_direct = Some(elapsed);
            }
            self.warned_limit = false;
            self.warned_permanent = false;
            self.slow_streak = 0;
            self.no_ip_streak = 0;
        }
        self.was_direct = direct;
        match kind {
            PathKind::Relay => {
                self.no_ip_streak = one_more(self.no_ip_streak);
            },
            PathKind::Direct => {
                self.no_ip_streak = 0;
            },
            PathKind::RelayWithDirectCandidate => {
                self.no_ip_streak = 0;
            },
            PathKind::Unknown => {},
        }
        let warn_permanent: bool = !self.warned_permanent && self.no_ip_streak
            >= self.tuning.perm_streak;
        if warn_permanent {
            self.warned_permanent = true;
        }
        if !direct && ACTIVE_MIN_BPS <= bps && bps < RELAY_SLOW_BPS {
            self.slow_streak = one_more(self.slow_streak);
        } else {
            self.slow_streak = 0;
        }
        let warn: bool = !self.warned_limit && self.slow_streak >= SLOW_STREAK;
        let warn_limit: Option<u64> = if warn {
            self.warned_limit = true;
            Some(bps / 1024)
        } else {
            None
        };
        Sample { bps, upgraded, warn_permanent, warn_limit }
    }

    /// Seconds until hole punching is retried.
    pub fn upgrade_delay(&self) -> (r: u64)
        ensures
            r == (if self.no_ip_streak >= self.tuning.perm_streak {
                self.tuning.upgrade_secs_permanent
            } else {
                self.tuning.upgrade_secs
            }),
    {
        if self.no_ip_streak >= self.tuning.perm_streak {
            self.tuning.upgrade_secs_permanent
        } else {
            self.tuning.upgrade_secs
        }
    }
}

/// Whether to retry hole punching when its time has come: not where that was
/// disabled, and on a direct path only where it is forced.
pub fn should_nudge(kind: PathKind, force: bool, disable: bool) -> (r: bool)
    ensures
        r == (!disable && (force || kind != PathKind::Direct)),
{
    !disable && (force || !kind.is_direct())
}

/// What the user is told of a session that became direct.
pub fn upgraded_message(catalog: &Catalog) -> (r: String)
    ensures
        r@ == looked_up(catalog@, "path upgraded to direct (IP)"@),
{
    lookup(catalog, "path upgraded to direct (IP)")
}

/// What the user is told of a peer that seems bound to the relay.
pub fn permanent_message(catalog: &Catalog) -> (r: String)
    ensures
        r@ == looked_up(
            catalog@,
            "no direct IP candidate observed — treating peer as relay-permanent (slowing hole-punch retries). CGNAT without global IPv6 often needs a self-hosted --relay"@,
        ),
{
    lookup(
        catalog,
        "no direct IP candidate observed — treating peer as relay-permanent (slowing hole-punch retries). CGNAT without global IPv6 often needs a self-hosted --relay",
    )
}

/// What the user is told of a session that a relay seems to limit.
pub fn limit_message(catalog: &Catalog, kbps: u64) -> (r: String)
    ensures
        r@ == said(
            catalog@,
            "low throughput while on relay (~{0} KB/s) — public relays rate-limit; self-host with --relay (and raise iroh-relay client limits) or wait for direct. See docs/architecture/performance.md"@,
            seq![decimal_of(kbps as nat)],
        ),
{
    say1(
        catalog,
        "low throughput while on relay (~{0} KB/s) — public relays rate-limit; self-host with --relay (and raise iroh-relay client limits) or wait for direct. See docs/architecture/performance.md",
        decimal(kbps),
    )
}

/// Each warning is given once; only a session that became direct in between
/// is warned about again.
pub proof fn law_warnings_are_given_once(
    m: Monitor,
    kind: PathKind,
    tx: u64,
    rx: u64,
    elapsed: Duration,
)
    ensures
        ({
            let (after, s) = sampled(m, kind, tx, rx, elapsed);
            &&& s.warn_limit is Some ==> after.warned_limit
            &&& s.warn_permanent ==> after.warned_permanent
            &&& m.warned_limit && !s.upgraded ==> s.warn_limit is None && after.warned_limit
            &&& m.warned_permanent && !s.upgraded ==> !s.warn_permanent && after.warned_permanent
        }),
{
}

/// A session on a direct path is never reported as limited by a relay, and an
/// idle one neither.
pub proof fn law_only_slow_relay_traffic_is_reported(
    m: Monitor,
    kind: PathKind,
    tx: u64,
    rx: u64,
    elapsed: Duration,
)
    ensures
        ({
            let (after, s) = sampled(m, kind, tx, rx, elapsed);
            s.warn_limit is Some ==> kind != PathKind::Direct && ACTIVE_MIN_BPS <= s.bps
                < RELAY_SLOW_BPS && m.slow_streak >= 1
        }),
{
}

/// A sample measures what was moved since the last one, by the second, and
/// notices when the path became direct.
pub proof fn law_sample_measures_the_session(
    m: &mut Monitor,
    kind: PathKind,
    tx: u64,
    rx: u64,
    elapsed: Duration,
    r: Sample,
)
    requires
        call_ensures(Monitor::on_stats, (m, kind, tx, rx, elapsed), r),
        old(m).prev_bytes <= tx + rx <= u64::MAX,
    ensures
        ({
            let moved = tx + rx - old(m).prev_bytes;
            30 * r.bps <= moved < 30 * r.bps + 30
        }),
        final(m).prev_bytes == tx + rx,
        r.upgraded <==> kind == PathKind::Direct && !old(m).was_direct,
        final(m).was_direct <==> kind == PathKind::Direct,
        final(m).first_direct == (if r.upgraded && old(m).first_direct is None {
            Some(elapsed)
        } else {
            old(m).first_direct
        }),
        final(m).tuning == old(m).tuning,
{
}

/// Two samples in a row of a session that is not direct and moves between 2
/// and 128 KiB a second have the user told once of the second's rate, in KiB.
/// An idle, a fast or a direct sample starts the count over, and reaching a
/// direct path lets it be told anew.
pub proof fn law_slow_relays_are_told_of(
    m: &mut Monitor,
    n: &mut Monitor,
    a: PathKind,
    b: PathKind,
    tx: u64,
    rx: u64,
    tx2: u64,
    rx2: u64,
    elapsed: Duration,
    later: Duration,
    one: Sample,
    two: Sample,
)
    requires
        old(m).slow_streak == 0,
        call_ensures(Monitor::on_stats, (m, a, tx, rx, elapsed), one),
        *old(n) == *final(m),
        call_ensures(Monitor::on_stats, (n, b, tx2, rx2, later), two),
    ensures
        one.warn_limit is None,
        ({
            let slow_a = a != PathKind::Direct && 2 * 1024 <= one.bps < 128 * 1024;
            let slow_b = b != PathKind::Direct && 2 * 1024 <= two.bps < 128 * 1024;
            &&& two.warn_limit is Some <==> slow_a && slow_b && !old(m).warned_limit
            &&& two.warn_limit is Some ==> two.warn_limit == Some((two.bps / 1024) as u64)
        }),
        two.upgraded ==> !final(n).warned_limit,
{
}

/// A peer that shows no IP path for as many samples in a row as the tuning
/// says is told of as bound to its relay, once, and hole punching is retried
/// at the slow pace from then on; a direct path or a candidate starts the
/// count over, and a sample without a path leaves it.
pub proof fn law_relay_bound_peers_are_told_of(
    m: &mut Monitor,
    kind: PathKind,
    tx: u64,
    rx: u64,
    elapsed: Duration,
    r: Sample,
    pace: u64,
)
    requires
        call_ensures(Monitor::on_stats, (m, kind, tx, rx, elapsed), r),
        call_ensures(Monitor::upgrade_delay, (&*final(m),), pace),
    ensures
        final(m).no_ip_streak == (match kind {
            PathKind::Relay => if old(m).no_ip_streak < 255 {
                (old(m).no_ip_streak + 1) as u8
            } else {
                255
            },
            PathKind::Unknown => old(m).no_ip_streak,
            _ => 0,
        }),
        r.warn_permanent <==> final(m).no_ip_streak >= old(m).tuning.perm_streak && (r.upgraded
            || !old(m).warned_permanent),
        pace == (if final(m).no_ip_streak >= old(m).tuning.perm_streak {
            old(m).tuning.upgrade_secs_permanent
        } else {
            old(m).tuning.upgrade_secs
        }),
{
}

/// The more of a peer's sessions were direct, the more often hole punching is
/// retried and the later it is given up: every 30 seconds from one half on,
/// every 90 below one fifth, and every 45 between and for strangers.
pub proof fn law_direct_peers_are_retried_more(h: DirectHistory, known: Tuning, stranger: Tuning)
    requires
        h.total > 0,
        call_ensures(tuning_for, (Some(h),), known),
        call_ensures(tuning_for, (None,), stranger),
    ensures
        100 * h.direct >= 50 * h.total ==> known.upgrade_secs == 30 && known.perm_streak == 6,
        100 * h.direct < 20 * h.total ==> known.upgrade_secs == 90 && known.perm_streak == 2,
        20 * h.total <= 100 * h.direct < 50 * h.total ==> known == stranger,
        stranger.upgrade_secs == 45 && stranger.perm_streak == 4,
        known.upgrade_secs_permanent == 300 && stranger.upgrade_secs_permanent == 300,
{
}

/// Hole punching is retried unless that is switched off, and while the path is
/// direct only where it is forced.
pub proof fn law_retries_stop_on_a_direct_path(kind: PathKind, force: bool, off: bool, r: bool)
    requires
        call_ensures(should_nudge, (kind, force, off), r),
    ensures
        off ==> !r,
        !off && force ==> r,
        !off && !force ==> (r <==> kind != PathKind::Direct),
{
}

} // verus!
