//! Waiting longer after each failure, and when to start over.

use vstd::arithmetic::power2::{lemma2_to64, lemma_pow2_pos, lemma_pow2_unfold, pow2};
use vstd::prelude::*;
use crate::time::{Duration, LONGEST, SECOND};

verus! {

/// The first wait before redialing, in seconds.
pub const RECONNECT_BASE_SECS: u64 = 1;

/// The longest wait before redialing, in seconds.
pub const RECONNECT_MAX_SECS: u64 = 30;

/// How long a session must have lived to count as stable, in seconds.
pub const MIN_STABLE_CONN_SECS: u64 = 5;

/// The smaller of two lengths of time.
pub open spec fn shorter(a: nat, b: nat) -> nat {
    if a <= b {
        a
    } else {
        b
    }
}

/// Exponential backoff with a cap.
///
/// It starts over only after a stable session: one that is cut off right
/// after the handshake must not make redialing immediate.
#[derive(Clone, Copy, Debug)]
pub struct Backoff {
    next_delay: Duration,
    base: Duration,
    max: Duration,
}

impl Backoff {
    /// The wait before the next attempt, in nanoseconds.
    pub closed spec fn delay(self) -> nat {
        self.next_delay.nanos as nat
    }

    /// The first wait, in nanoseconds.
    pub closed spec fn first(self) -> nat {
        self.base.nanos as nat
    }

    /// The cap, in nanoseconds.
    pub closed spec fn cap(self) -> nat {
        self.max.nanos as nat
    }

    /// Starts at `base`.
    pub fn new(base: Duration, max: Duration) -> (r: Backoff)
        ensures
            r.delay() == base.nanos,
            r.first() == base.nanos,
            r.cap() == max.nanos,
    {
        Backoff { next_delay: base, base, max }
    }

    /// The wait before the next attempt; the one after it is twice as long,
    /// up to the cap.
    pub fn next(&mut self) -> (r: Duration)
        requires
            old(self).delay() * 2 <= LONGEST,
        ensures
            r.nanos == old(self).delay(),
            final(self).delay() == shorter(old(self).delay() * 2, old(self).cap()),
            final(self).first() == old(self).first(),
            final(self).cap() == old(self).cap(),
    {
        let d = self.next_delay;
        let doubled: u128 = d.nanos * 2;
        let next: u128 = if doubled <= self.max.nanos {
            doubled
        } else {
            self.max.nanos
        };
        self.next_delay = Duration { nanos: next };
        d
    }

    /// Starts over.
    pub fn reset(&mut self)
        ensures
            final(self).delay() == old(self).first(),
            final(self).first() == old(self).first(),
            final(self).cap() == old(self).cap(),
    {
        self.next_delay = self.base;
    }

    /// After a session that lived for `lived`: `None` to redial at once, and
    /// start over, where it was stable; else how long to wait.
    pub fn after_session(&mut self, lived: Duration, min_stable: Duration) -> (r: Option<Duration>)
        requires
            lived.nanos < min_stable.nanos ==> old(self).delay() * 2 <= LONGEST,
        ensures
            final(self).first() == old(self).first(),
            final(self).cap() == old(self).cap(),
            if lived.nanos >= min_stable.nanos {
                r is None && final(self).delay() == old(self).first()
            } else {
                r == Some(Duration { nanos: old(self).delay() as u128 }) && final(self).delay()
                    == shorter(old(self).delay() * 2, old(self).cap())
            },
    {
        if lived.nanos >= min_stable.nanos {
            self.reset();
            None
        } else {
            Some(self.next())
        }
    }
}

/// The `n`-th wait of a backoff that starts at `first`, `n` counted from 0.
pub open spec fn nth_delay(first: nat, cap: nat, n: nat) -> nat
    decreases n,
{
    if n == 0 {
        first
    } else {
        shorter(nth_delay(first, cap, (n - 1) as nat) * 2, cap)
    }
}

/// Waits double until the cap: the first is the base, the `n`-th is the base
/// times 2 to the `n`, or the cap where that is less.
pub proof fn law_waits_double_then_stay_at_the_cap(first: nat, cap: nat, n: nat)
    ensures
        nth_delay(first, cap, 0) == first,
        n > 0 ==> nth_delay(first, cap, n) == shorter(first * pow2(n), cap),
    decreases n,
{
    lemma2_to64();
    if n == 1 {
        reveal_with_fuel(nth_delay, 2);
    } else if n > 1 {
        let m = (n - 1) as nat;
        law_waits_double_then_stay_at_the_cap(first, cap, m);
        lemma_pow2_unfold(n);
        lemma_pow2_pos(m);
        assert(first * pow2(n) == first * pow2(m) * 2) by (nonlinear_arith)
            requires
                pow2(n) == 2 * pow2(m),
        ;
    }
}

/// The watch over a connection that is redialed when it dies.
#[derive(Clone, Copy, Debug)]
pub struct Reconnect {
    backoff: Backoff,
    /// What the present session is credited with beyond the time since it was
    /// noted; `None` while there is none.
    credit: Option<Duration>,
}

impl Reconnect {
    /// The wait before the next dial, in nanoseconds.
    pub closed spec fn delay(self) -> nat {
        self.backoff.delay()
    }

    /// What the present session is credited with, in nanoseconds.
    pub closed spec fn credited(self) -> Option<nat> {
        match self.credit {
            Some(d) => Some(d.nanos as nat),
            None => None,
        }
    }

    /// The backoff keeps within its bounds.
    pub closed spec fn wf(self) -> bool {
        &&& self.backoff.first() == RECONNECT_BASE_SECS * SECOND
        &&& self.backoff.cap() == RECONNECT_MAX_SECS * SECOND
        &&& RECONNECT_BASE_SECS * SECOND <= self.backoff.delay() <= RECONNECT_MAX_SECS * SECOND
        &&& self.credit matches Some(d) ==> d.nanos <= LONGEST
    }

    /// Starts the watch. A connection that stands already counts as stable.
    pub fn new(connected: bool) -> (r: Reconnect)
        ensures
            r.wf(),
            r.delay() == RECONNECT_BASE_SECS * SECOND,
            r.credited() == (if connected {
                Some((MIN_STABLE_CONN_SECS * SECOND) as nat)
            } else {
                None
            }),
    {
        let backoff = Backoff::new(
            Duration::from_secs(RECONNECT_BASE_SECS),
            Duration::from_secs(RECONNECT_MAX_SECS),
        );
        let credit = if connected {
            Some(Duration::from_secs(MIN_STABLE_CONN_SECS))
        } else {
            None
        };
        Reconnect { backoff, credit }
    }

    /// The connection has died `since` after it was noted: how long to wait
    /// before redialing, if at all.
    pub fn on_closed(&mut self, since: Duration) -> (r: Option<Duration>)
        requires
            old(self).wf(),
            since.nanos <= LONGEST,
        ensures
            final(self).wf(),
            final(self).credited() is None,
            ({
                let stable = match old(self).credited() {
                    Some(c) => c + since.nanos >= MIN_STABLE_CONN_SECS * SECOND,
                    None => false,
                };
                if stable {
                    r is None && final(self).delay() == RECONNECT_BASE_SECS * SECOND
                } else {
                    r is Some && r->0.nanos == old(self).delay() && final(self).delay() == shorter(
                        old(self).delay() * 2,
                        (RECONNECT_MAX_SECS * SECOND) as nat,
                    )
                }
            }),
    {
        let lived = match self.credit {
            Some(c) => Duration { nanos: c.nanos + since.nanos },
            None => Duration { nanos: 0 },
        };
        self.credit = None;
        self.backoff.after_session(lived, Duration::from_secs(MIN_STABLE_CONN_SECS))
    }

    /// A dial succeeded. The backoff is left as it is.
    pub fn on_connected(&mut self)
        requires
            old(self).wf(),
        ensures
            final(self).wf(),
            final(self).delay() == old(self).delay(),
            final(self).credited() == Some(0nat),
    {
        self.credit = Some(Duration { nanos: 0 });
    }

    /// A dial failed: how long to wait before the next.
    pub fn on_connect_failed(&mut self) -> (r: Duration)
        requires
            old(self).wf(),
        ensures
            final(self).wf(),
            r.nanos == old(self).delay(),
            final(self).delay() == shorter(
                old(self).delay() * 2,
                (RECONNECT_MAX_SECS * SECOND) as nat,
            ),
            final(self).credited() == old(self).credited(),
    {
        self.backoff.next()
    }
}

/// What came of asking for a stream on the current connection.
#[derive(Clone, Copy, Debug, PartialEq, Eq, Structural)]
pub enum OpenOutcome {
    /// There is no connection at present.
    NoConnection,
    /// The stream stands.
    Opened,
    /// It failed, and the connection is closed.
    ConnectionLost,
    /// It failed on a connection that lives.
    Refused,
    /// It did not answer in time.
    TimedOut,
}

/// What to do about it.
#[derive(Clone, Copy, Debug, PartialEq, Eq, Structural)]
pub enum OpenAction {
    Use,
    WaitForReconnect,
    GiveUp,
    /// Close this connection, clear the slot, then wait.
    CloseAndWait,
}

/// A stream waits through reconnects; it is given up only where a living
/// connection refuses it. A connection that does not answer is replaced.
pub fn after_open(outcome: OpenOutcome) -> (r: OpenAction)
    ensures
        r == (match outcome {
            OpenOutcome::NoConnection => OpenAction::WaitForReconnect,
            OpenOutcome::Opened => OpenAction::Use,
            OpenOutcome::ConnectionLost => OpenAction::WaitForReconnect,
            OpenOutcome::Refused => OpenAction::GiveUp,
            OpenOutcome::TimedOut => OpenAction::CloseAndWait,
        }),
{
    match outcome {
        OpenOutcome::NoConnection => OpenAction::WaitForReconnect,
        OpenOutcome::Opened => OpenAction::Use,
        OpenOutcome::ConnectionLost => OpenAction::WaitForReconnect,
        OpenOutcome::Refused => OpenAction::GiveUp,
        OpenOutcome::TimedOut => OpenAction::CloseAndWait,
    }
}

/// Waits start at the base and double from one to the next, up to the cap;
/// starting over brings the base back.
pub proof fn law_waits_double(
    base: Duration,
    max: Duration,
    fresh: Backoff,
    b: &mut Backoff,
    c: &mut Backoff,
    d: &mut Backoff,
    e: &mut Backoff,
    first: Duration,
    second: Duration,
    again: Duration,
)
    requires
        call_ensures(Backoff::new, (base, max), fresh),
        *old(b) == fresh,
        call_ensures(Backoff::next, (b,), first),
        *old(c) == *final(b),
        call_ensures(Backoff::next, (c,), second),
        *old(d) == *final(c),
        call_ensures(Backoff::reset, (d,), ()),
        *old(e) == *final(d),
        call_ensures(Backoff::next, (e,), again),
    ensures
        first == base,
        second.nanos <= max.nanos,
        2 * first.nanos <= max.nanos ==> second.nanos == 2 * first.nanos,
        2 * first.nanos > max.nanos ==> second == max,
        again == base,
{
}

/// The wait after a wait is twice as long or the cap, whichever is less, at
/// every stage.
pub proof fn law_next_wait_is_twice_as_long(
    b: &mut Backoff,
    c: &mut Backoff,
    one: Duration,
    two: Duration,
)
    requires
        call_ensures(Backoff::next, (b,), one),
        *old(c) == *final(b),
        call_ensures(Backoff::next, (c,), two),
    ensures
        two.nanos == 2 * one.nanos || (two.nanos == old(b).cap() && 2 * one.nanos > two.nanos),
        two.nanos <= old(b).cap(),
{
}

/// After a session that lived for the least stable time or longer there is no
/// wait, and the next one is the shortest; a shorter session waits as a failed
/// dial does.
pub proof fn law_only_stable_sessions_start_over(
    b: &mut Backoff,
    c: &mut Backoff,
    same: &mut Backoff,
    lived: Duration,
    min_stable: Duration,
    r: Option<Duration>,
    next: Duration,
    plain: Duration,
)
    requires
        call_ensures(Backoff::after_session, (b, lived, min_stable), r),
        *old(c) == *final(b),
        call_ensures(Backoff::next, (c,), next),
        *old(same) == *old(b),
        call_ensures(Backoff::next, (same,), plain),
    ensures
        r is None <==> lived.nanos >= min_stable.nanos,
        r is None ==> next.nanos == old(b).first(),
        r is Some ==> r == Some(plain) && final(b).delay() == final(same).delay(),
{
}

/// A connection that stood when the watch began is redialed at once when it
/// dies, however soon. One that was dialed is redialed at once where it lived
/// for five seconds; otherwise it is waited for, and so it is after a failed
/// dial: between one and thirty seconds, the dial itself changing nothing.
pub proof fn law_short_sessions_are_waited_for(
    fresh: Reconnect,
    dead: &mut Reconnect,
    watch: &mut Reconnect,
    up: &mut Reconnect,
    down: &mut Reconnect,
    since: Duration,
    at_once: Option<Duration>,
    failed: Duration,
    r: Option<Duration>,
)
    requires
        call_ensures(Reconnect::new, (true,), fresh),
        since.nanos <= LONGEST,
        *old(dead) == fresh,
        call_ensures(Reconnect::on_closed, (dead, since), at_once),
        old(watch).wf(),
        call_ensures(Reconnect::on_connect_failed, (watch,), failed),
        *old(up) == *final(watch),
        call_ensures(Reconnect::on_connected, (up,), ()),
        *old(down) == *final(up),
        call_ensures(Reconnect::on_closed, (down, since), r),
    ensures
        at_once is None,
        1_000_000_000 <= failed.nanos <= 30_000_000_000,
        r is None <==> since.nanos >= 5_000_000_000,
        r matches Some(d) ==> d.nanos == (if 2 * failed.nanos <= 30_000_000_000 {
            (2 * failed.nanos) as u128
        } else {
            30_000_000_000
        }),
        r is None ==> final(down).delay() == 1_000_000_000,
{
}

/// A stream waits for a connection wherever there is none to use: before there
/// is one, after it was lost, and after one that did not answer, which alone is
/// closed; it is given up only where a living connection refuses it.
pub proof fn law_streams_wait_through_reconnects(outcome: OpenOutcome, r: OpenAction)
    requires
        call_ensures(after_open, (outcome,), r),
    ensures
        r == OpenAction::Use <==> outcome == OpenOutcome::Opened,
        r == OpenAction::GiveUp <==> outcome == OpenOutcome::Refused,
        r == OpenAction::CloseAndWait <==> outcome == OpenOutcome::TimedOut,
        r == OpenAction::WaitForReconnect <==> outcome == OpenOutcome::NoConnection || outcome
            == OpenOutcome::ConnectionLost,
{
}

} // verus!
