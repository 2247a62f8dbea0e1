//! The power-loss watcher's decisions: a GPIO line that is high while the
//! car supplies power is sampled, and a shutdown is asked for only once the
//! line has stayed low for the whole debounce time.
use vstd::prelude::*;
use crate::snapshot::elapsed_ms;

verus! {

/// How the watcher is set up. The chip path, line and command are handed to
/// the GPIO and process layers; the two times drive the decisions.
pub struct PowerWatchConfig {
    pub gpio_chip: String,
    pub gpio_line: u32,
    pub debounce_ms: u64,
    pub shutdown_delay_ms: u64,
    pub shutdown_cmd: String,
}

/// Wait after a failed GPIO read before reading again.
pub const READ_RETRY_MS: u64 = 200;

/// Wait between two samples.
pub const POLL_MS: u64 = 100;

/// Wait after the shutdown command has run.
pub const AFTER_SHUTDOWN_MS: u64 = 10_000;

/// One sample of the line: its value, or a failed read.
#[derive(Debug, Clone, Copy, PartialEq, Eq, Structural)]
pub enum GpioSample {
    Level(u8),
    ReadError,
}

/// What the watcher remembers between samples.
#[derive(Debug, Clone, Copy, PartialEq, Eq, Structural)]
pub struct PowerState {
    /// The line was high at the last good sample.
    pub last_high: bool,
    /// When the current run of low samples began.
    pub low_since_ms: Option<u64>,
}

/// What to do after a sample.
#[derive(Debug, Clone, Copy, PartialEq, Eq, Structural)]
pub enum PowerDecision {
    /// The read failed: wait [`READ_RETRY_MS`] and sample again.
    ReadFailed,
    /// A good sample. When `shutdown` holds, wait the shutdown delay, run
    /// the shutdown command and wait [`AFTER_SHUTDOWN_MS`]; when `changed`
    /// is `Some(high)`, power has just come (`true`) or gone (`false`);
    /// then wait [`POLL_MS`].
    Sampled { shutdown: bool, changed: Option<bool> },
}

/// A sample that says the car supplies power.
pub open spec fn is_high(s: GpioSample) -> bool {
    s matches GpioSample::Level(v) && v == 1
}

/// A good sample that says the power is gone.
pub open spec fn is_low(s: GpioSample) -> bool {
    s matches GpioSample::Level(v) && v != 1
}

/// The state and decision after one sample taken at `now`.
pub open spec fn power_step(st: PowerState, sample: GpioSample, now: u64, debounce: u64) -> (
    PowerState,
    PowerDecision,
) {
    match sample {
        GpioSample::ReadError => (st, PowerDecision::ReadFailed),
        GpioSample::Level(v) => {
            let high = v == 1;
            let low_since = if high {
                None
            } else if st.low_since_ms is None {
                Some(now)
            } else {
                st.low_since_ms
            };
            let shutdown = !high && (low_since matches Some(t0) && elapsed_ms(t0, now)
                >= debounce);
            let changed = if high != st.last_high {
                Some(high)
            } else {
                None
            };
            (
                PowerState { last_high: high, low_since_ms: low_since },
                PowerDecision::Sampled { shutdown, changed },
            )
        },
    }
}

/// The state when watching starts, from a first sample (a failed read
/// counts as power present).
pub open spec fn initial_power_state(first: GpioSample) -> PowerState {
    PowerState {
        last_high: match first {
            GpioSample::Level(v) => v == 1,
            GpioSample::ReadError => true,
        },
        low_since_ms: None,
    }
}

impl PowerState {
    /// The state when watching starts.
    pub fn new(first: GpioSample) -> (r: PowerState)
        ensures
            r == initial_power_state(first),
    {
        let last_high = match first {
            GpioSample::Level(v) => v == 1,
            GpioSample::ReadError => true,
        };
        PowerState { last_high, low_since_ms: None }
    }

    /// Takes one sample taken at `now_ms` into account.
    pub fn step(&mut self, sample: GpioSample, now_ms: u64, debounce_ms: u64) -> (r:
        PowerDecision)
        ensures
            (*final(self), r) == power_step(*old(self), sample, now_ms, debounce_ms),
    {
        match sample {
            GpioSample::ReadError => PowerDecision::ReadFailed,
            GpioSample::Level(v) => {
                let high = v == 1;
                if high {
                    self.low_since_ms = None;
                } else if self.low_since_ms.is_none() {
                    self.low_since_ms = Some(now_ms);
                }
                let mut shutdown = false;
                if !high {
                    if let Some(t0) = self.low_since_ms {
                        if now_ms.saturating_sub(t0) >= debounce_ms {
                            shutdown = true;
                        }
                    }
                }
                let changed = if high != self.last_high {
                    Some(high)
                } else {
                    None
                };
                self.last_high = high;
                PowerDecision::Sampled { shutdown, changed }
            },
        }
    }
}

/// The state after a sequence of timed samples.
pub open spec fn power_run(st: PowerState, evs: Seq<(GpioSample, u64)>, debounce: u64) -> PowerState
    decreases evs.len(),
{
    if evs.len() == 0 {
        st
    } else {
        power_step(power_run(st, evs.drop_last(), debounce), evs.last().0, evs.last().1, debounce).0
    }
}

/// The decision taken at the last of a non-empty sequence of samples.
pub open spec fn last_decision(st: PowerState, evs: Seq<(GpioSample, u64)>, debounce: u64)
    -> PowerDecision {
    power_step(power_run(st, evs.drop_last(), debounce), evs.last().0, evs.last().1, debounce).1
}

/// The sample times never go back.
pub open spec fn times_ordered(evs: Seq<(GpioSample, u64)>) -> bool {
    forall|i: int, j: int| 0 <= i <= j < evs.len() ==> evs[i].1 <= evs[j].1
}

/// From `j` on, no sample says the power is present.
pub open spec fn no_high_from(evs: Seq<(GpioSample, u64)>, j: int) -> bool {
    forall|k: int| j <= k < evs.len() ==> !is_high(#[trigger] evs[k].0)
}

/// Where the current run of low samples began: the first low sample after
/// the last high one, read failures skipped.
pub open spec fn low_run_start(evs: Seq<(GpioSample, u64)>) -> Option<int>
    decreases evs.len(),
{
    if evs.len() == 0 {
        None
    } else if is_high(evs.last().0) {
        None
    } else if is_low(evs.last().0) {
        match low_run_start(evs.drop_last()) {
            Some(j) => Some(j),
            None => Some(evs.len() - 1),
        }
    } else {
        low_run_start(evs.drop_last())
    }
}

proof fn lemma_low_run_start(evs: Seq<(GpioSample, u64)>)
    ensures
        low_run_start(evs) matches Some(j) ==> {
            &&& 0 <= j < evs.len()
            &&& is_low(evs[j].0)
            &&& no_high_from(evs, j)
        },
        forall|j0: int|
            0 <= j0 < evs.len() && is_low(#[trigger] evs[j0].0) && no_high_from(evs, j0)
                ==> (low_run_start(evs) matches Some(j) && j <= j0),
    decreases evs.len(),
{
    if evs.len() > 0 {
        let init = evs.drop_last();
        lemma_low_run_start(init);
        assert forall|j: int| 0 <= j < init.len() && no_high_from(init, j) && !is_high(
            evs.last().0,
        ) implies no_high_from(evs, j) by {
            assert forall|k: int| j <= k < evs.len() implies !is_high(#[trigger] evs[k].0) by {
                if k < init.len() {
                    assert(evs[k] == init[k]);
                }
            }
        }
        assert forall|j0: int|
            0 <= j0 < evs.len() && is_low(#[trigger] evs[j0].0) && no_high_from(
                evs,
                j0,
            ) implies (low_run_start(evs) matches Some(j) && j <= j0) by {
            assert(!is_high(evs[evs.len() - 1].0));
            if j0 < init.len() {
                assert(evs[j0] == init[j0]);
                assert forall|k: int| j0 <= k < init.len() implies !is_high(
                    #[trigger] init[k].0,
                ) by {
                    assert(evs[k] == init[k]);
                }
            }
        }
        if let Some(j) = low_run_start(evs) {
            if j < init.len() {
                assert(evs[j] == init[j]);
            }
        }
    }
}

proof fn lemma_run_low_since(st: PowerState, evs: Seq<(GpioSample, u64)>, debounce: u64)
    requires
        st.low_since_ms is None,
    ensures
        power_run(st, evs, debounce).low_since_ms == match low_run_start(evs) {
            Some(j) => Some(evs[j].1),
            None => None::<u64>,
        },
    decreases evs.len(),
{
    if evs.len() > 0 {
        let init = evs.drop_last();
        lemma_run_low_since(st, init, debounce);
        lemma_low_run_start(init);
        if let Some(j) = low_run_start(init) {
            assert(evs[j] == init[j]);
        }
    }
}

/// A shutdown is asked for only after the power has been lost for the whole
/// debounce time: there is a low sample at least `debounce` before the last
/// one, and no sample from it on says the power is present.
pub proof fn law_shutdown_needs_sustained_loss(
    st: PowerState,
    evs: Seq<(GpioSample, u64)>,
    debounce: u64,
)
    requires
        st.low_since_ms is None,
        evs.len() > 0,
        times_ordered(evs),
        last_decision(st, evs, debounce) matches PowerDecision::Sampled { shutdown, .. }
            && shutdown,
    ensures
        exists|j: int|
            0 <= j < evs.len() && is_low(#[trigger] evs[j].0) && no_high_from(evs, j)
                && evs.last().1 - evs[j].1 >= debounce,
{
    let init = evs.drop_last();
    lemma_run_low_since(st, evs, debounce);
    lemma_low_run_start(evs);
    let j = low_run_start(evs).unwrap();
    assert(evs[j].1 <= evs[evs.len() - 1].1);
    assert(is_low(evs[j].0) && no_high_from(evs, j));
}

/// Once the power has been lost for the whole debounce time, the next low
/// sample asks for a shutdown: if some low sample is at least `debounce`
/// before the last one, none after it says the power is present, and the
/// last one is low, the last decision is a shutdown.
pub proof fn law_sustained_loss_shuts_down(
    st: PowerState,
    evs: Seq<(GpioSample, u64)>,
    debounce: u64,
    j0: int,
)
    requires
        st.low_since_ms is None,
        times_ordered(evs),
        0 <= j0 < evs.len(),
        is_low(evs[j0].0),
        no_high_from(evs, j0),
        is_low(evs.last().0),
        evs.last().1 - evs[j0].1 >= debounce,
    ensures
        last_decision(st, evs, debounce) matches PowerDecision::Sampled { shutdown, .. }
            && shutdown,
{
    lemma_run_low_since(st, evs, debounce);
    lemma_low_run_start(evs);
    let j = low_run_start(evs).unwrap();
    assert(evs[j].1 <= evs[j0].1);
    assert(power_run(st, evs, debounce) == power_step(
        power_run(st, evs.drop_last(), debounce),
        evs.last().0,
        evs.last().1,
        debounce,
    ).0);
}

/// A sample that says the power is present cancels any pending loss: no
/// shutdown is asked for and the low timer is cleared.
pub proof fn law_power_present_clears(st: PowerState, v: u8, now: u64, debounce: u64)
    requires
        v == 1,
    ensures
        power_step(st, GpioSample::Level(v), now, debounce).0.low_since_ms is None,
        power_step(st, GpioSample::Level(v), now, debounce).1 matches PowerDecision::Sampled {
            shutdown,
            ..
        } && !shutdown,
{
}

/// A failed read changes nothing and asks for nothing but a retry.
pub proof fn law_read_error_ignored(st: PowerState, now: u64, debounce: u64)
    ensures
        power_step(st, GpioSample::ReadError, now, debounce) == (st, PowerDecision::ReadFailed),
{
}

} // verus!
