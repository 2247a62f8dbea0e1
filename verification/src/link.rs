//! The OBD poller's supervisor: reconnects with exponential backoff after
//! any failure and keeps the shared snapshot in step with what happened.
use vstd::prelude::*;
use vstd::arithmetic::power2::pow2;
use crate::snapshot::{ObdSnapshot, round_of, law_round_connected_iff_read};
use crate::obd::Reading;

verus! {

/// Backoff after a fresh connection.
pub const BACKOFF_START_MS: u64 = 250;

/// Backoff never grows past this.
pub const BACKOFF_MAX_MS: u64 = 10_000;

/// What happened to the link since the last decision.
#[derive(Debug, Clone, Copy, PartialEq, Eq)]
pub enum LinkEvent {
    /// The serial port could not be opened.
    OpenFailed,
    /// The adapter did not answer its set-up commands.
    InitFailed,
    /// The adapter is set up.
    Initialized,
    /// A snapshot was read.
    ReadOk(ObdSnapshot),
    /// Reading a snapshot failed.
    ReadFailed,
}

/// What the poller does next.
#[derive(Debug, Clone, Copy, PartialEq, Eq, Structural)]
pub enum LinkAction {
    /// Wait this many milliseconds, then open the port again.
    ReopenAfter(u64),
    /// Start polling right away.
    StartPolling,
    /// Wait this many milliseconds, then read the next snapshot.
    PollAfter(u64),
}

/// The event a finished poll stands for: a poll in which no query was
/// answered is a failed read; any answer makes it a good read of that
/// snapshot.
pub open spec fn poll_event_of(fresh: ObdSnapshot) -> LinkEvent {
    if fresh.connected {
        LinkEvent::ReadOk(fresh)
    } else {
        LinkEvent::ReadFailed
    }
}

/// Turns the snapshot a poll built (starting from the empty snapshot and
/// recording each answered query) into the event for [`ObdLink::handle`]:
/// `ReadFailed` when no query was answered, `ReadOk` otherwise.
pub fn poll_event(fresh: ObdSnapshot) -> (r: LinkEvent)
    ensures
        r == poll_event_of(fresh),
{
    if fresh.connected {
        LinkEvent::ReadOk(fresh)
    } else {
        LinkEvent::ReadFailed
    }
}

/// The backoff after a failure at backoff `b`: doubled, at most
/// [`BACKOFF_MAX_MS`].
pub open spec fn next_backoff(b: u64) -> u64 {
    if 2 * b > BACKOFF_MAX_MS {
        BACKOFF_MAX_MS
    } else {
        (2 * b) as u64
    }
}

/// The backoff after `n` failures in a row since the last connection.
pub open spec fn backoff_after(n: nat) -> u64
    decreases n,
{
    if n == 0 {
        BACKOFF_START_MS
    } else {
        next_backoff(backoff_after((n - 1) as nat))
    }
}

/// The link's state: how long to wait after the next failure.
#[derive(Debug, Clone, Copy, PartialEq, Eq, Structural)]
pub struct ObdLink {
    pub backoff_ms: u64,
}

impl ObdLink {
    /// The backoff stays within its bounds.
    pub open spec fn wf(self) -> bool {
        BACKOFF_START_MS <= self.backoff_ms <= BACKOFF_MAX_MS
    }

    /// A link that has not failed yet.
    pub fn new() -> (r: ObdLink)
        ensures
            r.backoff_ms == BACKOFF_START_MS,
            r.wf(),
    {
        ObdLink { backoff_ms: BACKOFF_START_MS }
    }

    /// Decides what to do after `ev`, updating the shared snapshot:
    /// a snapshot that was read is stored over it, and a failed read clears
    /// its values and marks the link down. Any failure waits the current
    /// backoff, doubles it (up to [`BACKOFF_MAX_MS`]) and reopens the port; a
    /// set-up adapter resets the backoff and starts polling; a good read
    /// polls again after `poll_ms`.
    pub fn handle(&mut self, ev: LinkEvent, shared: &mut ObdSnapshot, poll_ms: u64) -> (r:
        LinkAction)
        requires
            old(self).wf(),
        ensures
            final(self).wf(),
            final(self).backoff_ms == backoff_step(old(self).backoff_ms, ev),
            match ev {
                LinkEvent::OpenFailed | LinkEvent::InitFailed => {
                    &&& r == LinkAction::ReopenAfter(old(self).backoff_ms)
                    &&& final(self).backoff_ms == next_backoff(old(self).backoff_ms)
                    &&& *final(shared) == *old(shared)
                },
                LinkEvent::Initialized => {
                    &&& r == LinkAction::StartPolling
                    &&& final(self).backoff_ms == BACKOFF_START_MS
                    &&& *final(shared) == *old(shared)
                },
                LinkEvent::ReadOk(s) => {
                    &&& r == LinkAction::PollAfter(poll_ms)
                    &&& *final(self) == *old(self)
                    &&& *final(shared) == old(shared).stored_over(s)
                },
                LinkEvent::ReadFailed => {
                    &&& r == LinkAction::ReopenAfter(old(self).backoff_ms)
                    &&& final(self).backoff_ms == next_backoff(old(self).backoff_ms)
                    &&& *final(shared) == old(shared).without_readings()
                },
            },
    {
        match ev {
            LinkEvent::OpenFailed | LinkEvent::InitFailed => {
                let wait: u64 = self.backoff_ms;
                self.backoff_ms = if self.backoff_ms > BACKOFF_MAX_MS / 2 {
                    BACKOFF_MAX_MS
                } else {
                    self.backoff_ms * 2
                };
                LinkAction::ReopenAfter(wait)
            },
            LinkEvent::Initialized => {
                self.backoff_ms = BACKOFF_START_MS;
                LinkAction::StartPolling
            },
            LinkEvent::ReadOk(s) => {
                shared.store(s);
                LinkAction::PollAfter(poll_ms)
            },
            LinkEvent::ReadFailed => {
                shared.clear_readings();
                let wait: u64 = self.backoff_ms;
                self.backoff_ms = if self.backoff_ms > BACKOFF_MAX_MS / 2 {
                    BACKOFF_MAX_MS
                } else {
                    self.backoff_ms * 2
                };
                LinkAction::ReopenAfter(wait)
            },
        }
    }
}

/// After `n` failures in a row since the last connection the backoff is
/// `250 ms * 2^n`, capped at ten seconds.
pub proof fn law_backoff_doubles_to_cap(n: nat)
    ensures
        backoff_after(n) == if 250 * pow2(n) > 10_000 {
            10_000
        } else {
            250 * pow2(n)
        },
        BACKOFF_START_MS <= backoff_after(n) <= BACKOFF_MAX_MS,
    decreases n,
{
    if n > 0 {
        law_backoff_doubles_to_cap((n - 1) as nat);
        vstd::arithmetic::power2::lemma_pow2_unfold(n);
    } else {
        vstd::arithmetic::power2::lemma2_to64();
    }
}

/// A failed read always leaves the shared snapshot without values and
/// marked disconnected, keeping only the time of the last good reading.
pub proof fn law_read_failure_marks_down(s: ObdSnapshot)
    ensures
        !s.without_readings().connected,
        s.without_readings().rpm is None,
        s.without_readings().speed_kph is None,
        s.without_readings().coolant_c is None,
        s.without_readings().throttle_pct is None,
        s.without_readings().battery_v_bits is None,
        s.without_readings().last_ok == s.last_ok,
{
}

/// The backoff after one event, as [`ObdLink::handle`] leaves it.
pub open spec fn backoff_step(b: u64, ev: LinkEvent) -> u64 {
    match ev {
        LinkEvent::OpenFailed | LinkEvent::InitFailed | LinkEvent::ReadFailed => next_backoff(b),
        LinkEvent::Initialized => BACKOFF_START_MS,
        LinkEvent::ReadOk(_) => b,
    }
}

/// The backoff after a sequence of events.
pub open spec fn backoff_run(b: u64, evs: Seq<LinkEvent>) -> u64
    decreases evs.len(),
{
    if evs.len() == 0 {
        b
    } else {
        backoff_step(backoff_run(b, evs.drop_last()), evs.last())
    }
}

/// How many failures came after the last connection, if there was one.
pub open spec fn failures_since_connect(evs: Seq<LinkEvent>) -> Option<nat>
    decreases evs.len(),
{
    if evs.len() == 0 {
        None
    } else {
        match evs.last() {
            LinkEvent::Initialized => Some(0),
            LinkEvent::ReadOk(_) => failures_since_connect(evs.drop_last()),
            _ => match failures_since_connect(evs.drop_last()) {
                Some(n) => Some(n + 1),
                None => None,
            },
        }
    }
}

/// Once connected, the backoff is `backoff_after(n)` where `n` is the
/// number of failures since the last connection; good reads leave it alone.
pub proof fn law_backoff_counts_failures_since_connect(b: u64, evs: Seq<LinkEvent>)
    requires
        failures_since_connect(evs) is Some,
    ensures
        backoff_run(b, evs) == backoff_after(failures_since_connect(evs).unwrap()),
    decreases evs.len(),
{
    let init = evs.drop_last();
    match evs.last() {
        LinkEvent::Initialized => {},
        _ => {
            law_backoff_counts_failures_since_connect(b, init);
        },
    }
}

/// A poll in which no query was answered is handled as a failure: the
/// round's snapshot is the empty one, so the event is `ReadFailed`, which
/// clears the shared values, marks the link down and backs off; a poll with
/// at least one answer is a good read.
pub proof fn law_unanswered_poll_backs_off(rs: Seq<Reading>, times: Seq<u64>)
    requires
        rs.len() == times.len(),
    ensures
        rs.len() == 0 ==> poll_event_of(round_of(rs, times)) == LinkEvent::ReadFailed,
        rs.len() > 0 ==> poll_event_of(round_of(rs, times)) == LinkEvent::ReadOk(
            round_of(rs, times),
        ),
{
    law_round_connected_iff_read(rs, times);
}

} // verus!
