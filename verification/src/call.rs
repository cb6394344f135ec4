//! Accepting streams of a call: when to give up on the connection, and when
//! to pause because the local target keeps failing.

use vstd::prelude::*;

verus! {

/// Failures to accept in a row after which a connection is given up.
pub const ACCEPT_BI_GIVE_UP: u32 = 3;

/// Failed streams in a row after which accepting pauses.
pub const FORWARD_FAIL_CIRCUIT: u32 = 8;

/// How long it pauses, in milliseconds.
pub const FORWARD_FAIL_BACKOFF_MS: u64 = 250;

/// How long to wait after a failure to accept, in milliseconds.
pub const ACCEPT_RETRY_MS: u64 = 100;

/// How long writing the stream hello may take, in seconds.
pub const HELLO_TIMEOUT_SECS: u64 = 5;

/// The accept loop's memory.
#[derive(Clone, Copy, Debug, PartialEq, Eq, Structural)]
pub struct AcceptLoop {
    /// Failures to accept in a row.
    pub errors: u32,
}

impl AcceptLoop {
    /// Starts without failures.
    pub fn new() -> (r: AcceptLoop)
        ensures
            r.errors == 0,
    {
        AcceptLoop { errors: 0 }
    }

    /// A stream was accepted.
    pub fn on_accepted(&mut self)
        ensures
            final(self).errors == 0,
    {
        self.errors = 0;
    }

    /// Accepting failed: whether the loop ends. It does when the connection
    /// is closed, and after three failures in a row.
    pub fn on_error(&mut self, closed: bool) -> (r: bool)
        ensures
            final(self).errors == (if old(self).errors < u32::MAX {
                (old(self).errors + 1) as u32
            } else {
                u32::MAX
            }),
            r == (closed || final(self).errors >= ACCEPT_BI_GIVE_UP),
    {
        if self.errors < u32::MAX {
            self.errors = self.errors + 1;
        }
        closed || self.errors >= ACCEPT_BI_GIVE_UP
    }
}

/// Whether to pause before the next stream is accepted.
pub fn pauses(fail_streak: u32) -> (r: bool)
    ensures
        r == (fail_streak >= FORWARD_FAIL_CIRCUIT),
{
    fail_streak >= FORWARD_FAIL_CIRCUIT
}

/// The number of failed streams in a row after one more has ended.
pub fn streak_after(fail_streak: u32, ok: bool) -> (r: u32)
    ensures
        r == (if ok {
            0
        } else if fail_streak == u32::MAX {
            0
        } else {
            fail_streak + 1
        }),
{
    if ok || fail_streak == u32::MAX {
        0
    } else {
        fail_streak + 1
    }
}

/// A connection that fails to accept is given up at the third failure in a
/// row, and no sooner unless it is closed; a stream that is accepted starts
/// the count over.
pub proof fn law_three_failures_in_a_row(
    fresh: AcceptLoop,
    l: &mut AcceptLoop,
    a: &mut AcceptLoop,
    b: &mut AcceptLoop,
    c: &mut AcceptLoop,
    closed: &mut AcceptLoop,
    ends_a: bool,
    ends_b: bool,
    ends_c: bool,
    ends_closed: bool,
)
    requires
        call_ensures(AcceptLoop::new, (), fresh),
        call_ensures(AcceptLoop::on_accepted, (l,), ()),
        *old(a) == *final(l) || *old(a) == fresh,
        call_ensures(AcceptLoop::on_error, (a, false), ends_a),
        *old(b) == *final(a),
        call_ensures(AcceptLoop::on_error, (b, false), ends_b),
        *old(c) == *final(b),
        call_ensures(AcceptLoop::on_error, (c, false), ends_c),
        call_ensures(AcceptLoop::on_error, (closed, true), ends_closed),
    ensures
        !ends_a,
        !ends_b,
        ends_c,
        ends_closed,
{
}

/// Accepting pauses once eight streams in a row have failed, and goes on at
/// once after one that did not.
pub proof fn law_pause_after_eight_failures(
    streak: u32,
    failed: u32,
    ended: u32,
    pause: bool,
    pause_failed: bool,
    pause_ended: bool,
)
    requires
        streak < u32::MAX,
        call_ensures(streak_after, (streak, false), failed),
        call_ensures(streak_after, (streak, true), ended),
        call_ensures(pauses, (streak,), pause),
        call_ensures(pauses, (failed,), pause_failed),
        call_ensures(pauses, (ended,), pause_ended),
    ensures
        failed == streak + 1,
        pause <==> streak > 7,
        pause_failed <==> streak > 6,
        !pause_ended,
{
}

} // verus!
