//! The latest readings shared between the OBD poller and the dashboard
//! clients, and the rules that keep a dead link from looking alive.
use vstd::prelude::*;
use crate::obd::Reading;

verus! {

/// How long after the last successful reading a snapshot counts as stale.
pub const STALE_AFTER_MS: u64 = 2000;

/// The latest readings. Times are milliseconds on the caller's monotonic
/// clock; the battery voltage is carried as the bit pattern of an `f32`.
#[derive(Debug, Clone, Copy, PartialEq, Eq, Structural)]
pub struct ObdSnapshot {
    pub rpm: Option<u16>,
    pub speed_kph: Option<u8>,
    pub coolant_c: Option<i16>,
    pub throttle_pct: Option<u8>,
    pub battery_v_bits: Option<u32>,
    pub last_ok: Option<u64>,
    pub connected: bool,
}

/// The snapshot before any reading: nothing known, not connected.
pub open spec fn empty_snapshot() -> ObdSnapshot {
    ObdSnapshot {
        rpm: None,
        speed_kph: None,
        coolant_c: None,
        throttle_pct: None,
        battery_v_bits: None,
        last_ok: None,
        connected: false,
    }
}

/// Milliseconds from `since` to `now`, zero when the clock reads earlier.
pub open spec fn elapsed_ms(since: u64, now: u64) -> int {
    if now >= since {
        now - since
    } else {
        0
    }
}

impl ObdSnapshot {
    /// A snapshot that claims a live link carries the time of a reading.
    pub open spec fn wf(self) -> bool {
        self.connected ==> self.last_ok is Some
    }

    /// `self` with one more successful reading taken at `now`.
    pub open spec fn with_reading(self, r: Reading, now: u64) -> ObdSnapshot {
        let s = ObdSnapshot { last_ok: Some(now), connected: true, ..self };
        match r {
            Reading::Rpm(v) => ObdSnapshot { rpm: Some(v), ..s },
            Reading::SpeedKph(v) => ObdSnapshot { speed_kph: Some(v), ..s },
            Reading::CoolantC(v) => ObdSnapshot { coolant_c: Some(v), ..s },
            Reading::ThrottlePct(v) => ObdSnapshot { throttle_pct: Some(v), ..s },
            Reading::BatteryBits(v) => ObdSnapshot { battery_v_bits: Some(v), ..s },
        }
    }

    /// What the shared snapshot becomes when a fresh one is stored: the
    /// fresh snapshot, keeping the earlier reading time when the fresh one
    /// has none.
    pub open spec fn stored_over(self, fresh: ObdSnapshot) -> ObdSnapshot {
        ObdSnapshot {
            last_ok: if fresh.last_ok is Some {
                fresh.last_ok
            } else {
                self.last_ok
            },
            ..fresh
        }
    }

    /// `self` after a failed read: no values, not connected, reading time
    /// kept.
    pub open spec fn without_readings(self) -> ObdSnapshot {
        ObdSnapshot { last_ok: self.last_ok, ..empty_snapshot() }
    }

    /// The last reading is more than [`STALE_AFTER_MS`] old.
    pub open spec fn is_stale(self, now: u64) -> bool {
        self.last_ok matches Some(t) && elapsed_ms(t, now) > STALE_AFTER_MS
    }

    /// What a client is sent at `now`: the snapshot, marked disconnected
    /// when stale.
    pub open spec fn as_sent(self, now: u64) -> ObdSnapshot {
        if self.is_stale(now) {
            ObdSnapshot { connected: false, ..self }
        } else {
            self
        }
    }

    /// The snapshot before any reading.
    pub fn empty() -> (r: ObdSnapshot)
        ensures
            r == empty_snapshot(),
    {
        ObdSnapshot {
            rpm: None,
            speed_kph: None,
            coolant_c: None,
            throttle_pct: None,
            battery_v_bits: None,
            last_ok: None,
            connected: false,
        }
    }

    /// Records a successful reading taken at `now_ms`.
    pub fn record(&mut self, r: Reading, now_ms: u64)
        ensures
            *final(self) == old(self).with_reading(r, now_ms),
    {
        match r {
            Reading::Rpm(v) => self.rpm = Some(v),
            Reading::SpeedKph(v) => self.speed_kph = Some(v),
            Reading::CoolantC(v) => self.coolant_c = Some(v),
            Reading::ThrottlePct(v) => self.throttle_pct = Some(v),
            Reading::BatteryBits(v) => self.battery_v_bits = Some(v),
        }
        self.last_ok = Some(now_ms);
        self.connected = true;
    }

    /// Stores a freshly read snapshot over this one.
    pub fn store(&mut self, fresh: ObdSnapshot)
        ensures
            *final(self) == old(self).stored_over(fresh),
    {
        let prev_ok = self.last_ok;
        *self = fresh;
        if self.last_ok.is_none() {
            self.last_ok = prev_ok;
        }
    }

    /// Forgets the values after a failed read and marks the link down.
    pub fn clear_readings(&mut self)
        ensures
            *final(self) == old(self).without_readings(),
    {
        self.rpm = None;
        self.speed_kph = None;
        self.coolant_c = None;
        self.throttle_pct = None;
        self.battery_v_bits = None;
        self.connected = false;
    }

    /// The snapshot as a client is sent it at `now_ms`.
    pub fn for_client(&self, now_ms: u64) -> (r: ObdSnapshot)
        ensures
            r == self.as_sent(now_ms),
    {
        let mut s = *self;
        if let Some(t) = s.last_ok {
            if now_ms.saturating_sub(t) > STALE_AFTER_MS {
                s.connected = false;
            }
        }
        s
    }
}

impl Default for ObdSnapshot {
    fn default() -> (r: ObdSnapshot)
        ensures
            r == empty_snapshot(),
    {
        ObdSnapshot::empty()
    }
}

/// A snapshot is well formed before any reading, and stays so through
/// readings, stores and failures.
pub proof fn law_snapshot_wf_kept(s: ObdSnapshot, fresh: ObdSnapshot, r: Reading, now: u64)
    requires
        s.wf(),
        fresh.wf(),
    ensures
        empty_snapshot().wf(),
        s.with_reading(r, now).wf(),
        s.stored_over(fresh).wf(),
        s.without_readings().wf(),
        s.as_sent(now).wf(),
{
}

/// A client is never sent a connected snapshot whose last reading is more
/// than two seconds old.
pub proof fn law_stale_never_sent_connected(s: ObdSnapshot, now: u64)
    requires
        s.wf(),
    ensures
        s.as_sent(now).connected ==> (s.last_ok matches Some(t) && elapsed_ms(t, now)
            <= STALE_AFTER_MS),
{
}

/// Storing a fresh snapshot never loses the time of the last successful
/// reading: it is the fresh one's if there is one, the earlier one's
/// otherwise.
pub proof fn law_store_keeps_last_reading_time(s: ObdSnapshot, fresh: ObdSnapshot)
    ensures
        fresh.last_ok is Some ==> s.stored_over(fresh).last_ok == fresh.last_ok,
        fresh.last_ok is None ==> s.stored_over(fresh).last_ok == s.last_ok,
        s.stored_over(fresh).connected == fresh.connected,
{
}

/// A round of readings that starts from the empty snapshot claims a live
/// link exactly when at least one reading was recorded.
pub proof fn law_round_connected_iff_read(rs: Seq<Reading>, times: Seq<u64>)
    requires
        rs.len() == times.len(),
    ensures
        round_of(rs, times).connected <==> rs.len() > 0,
        rs.len() > 0 ==> round_of(rs, times).last_ok == Some(times.last()),
        rs.len() == 0 ==> round_of(rs, times) == empty_snapshot(),
    decreases rs.len(),
{
    if rs.len() > 0 {
        law_round_connected_iff_read(rs.drop_last(), times.drop_last());
    }
}

/// The snapshot after recording the readings `rs`, taken at `times`, from
/// the empty one.
pub open spec fn round_of(rs: Seq<Reading>, times: Seq<u64>) -> ObdSnapshot
    decreases rs.len(),
{
    if rs.len() == 0 || times.len() == 0 {
        empty_snapshot()
    } else {
        round_of(rs.drop_last(), times.drop_last()).with_reading(rs.last(), times.last())
    }
}

/// The stored reading time never goes back: when the fresh snapshot is
/// not older than the shared one, storing it keeps a known reading time
/// known and never moves it earlier.
pub proof fn law_store_time_never_goes_back(s: ObdSnapshot, fresh: ObdSnapshot)
    requires
        s.last_ok matches Some(t) && fresh.last_ok matches Some(u) ==> t <= u,
    ensures
        s.last_ok is Some ==> s.stored_over(fresh).last_ok is Some,
        s.last_ok matches Some(t) ==> (s.stored_over(fresh).last_ok matches Some(u) && t <= u),
{
}

/// A round whose readings are taken at non-decreasing times is stamped with
/// its latest time, never older than any of its readings, so storing it
/// over a snapshot from an earlier round never moves the time back.
pub proof fn law_round_time_is_latest(rs: Seq<Reading>, times: Seq<u64>)
    requires
        rs.len() == times.len(),
        rs.len() > 0,
        forall|i: int, j: int| 0 <= i <= j < times.len() ==> times[i] <= times[j],
    ensures
        round_of(rs, times).last_ok matches Some(u) && forall|i: int|
            0 <= i < times.len() ==> times[i] <= u,
{
    law_round_connected_iff_read(rs, times);
}

/// Sending a snapshot to a client never raises the link flag and changes
/// nothing else: a link that is down is sent down, a fresh snapshot is sent
/// as it is, and a stale one is sent with the flag lowered.
pub proof fn law_sending_never_raises_link(s: ObdSnapshot, now: u64)
    ensures
        s.as_sent(now).connected ==> s.connected,
        !s.connected ==> !s.as_sent(now).connected,
        (s.last_ok is None || (s.last_ok matches Some(t) && now >= t && now - t <= 2000))
            ==> s.as_sent(now) == s,
        (s.last_ok matches Some(t) && now >= t && now - t > 2000) ==> !s.as_sent(now).connected,
        s.as_sent(now).rpm == s.rpm,
        s.as_sent(now).speed_kph == s.speed_kph,
        s.as_sent(now).coolant_c == s.coolant_c,
        s.as_sent(now).throttle_pct == s.throttle_pct,
        s.as_sent(now).battery_v_bits == s.battery_v_bits,
        s.as_sent(now).last_ok == s.last_ok,
{
}

/// Storing a fresh snapshot takes every value and the link flag from it;
/// only a missing reading time falls back to the earlier one.
pub proof fn law_store_takes_fresh_values(s: ObdSnapshot, f: ObdSnapshot)
    ensures
        s.stored_over(f).rpm == f.rpm,
        s.stored_over(f).speed_kph == f.speed_kph,
        s.stored_over(f).coolant_c == f.coolant_c,
        s.stored_over(f).throttle_pct == f.throttle_pct,
        s.stored_over(f).battery_v_bits == f.battery_v_bits,
        s.stored_over(f).connected == f.connected,
        f.last_ok is Some ==> s.stored_over(f) == f,
{
}

/// Recording a reading sets that reading's value, stamps the time and
/// marks the link live; every other value stays as it was.
pub proof fn law_record_touches_only_its_value(s: ObdSnapshot, r: Reading, t: u64)
    ensures
        s.with_reading(r, t).last_ok == Some(t),
        s.with_reading(r, t).connected,
        s.with_reading(r, t).rpm == match r {
            Reading::Rpm(v) => Some(v),
            _ => s.rpm,
        },
        s.with_reading(r, t).speed_kph == match r {
            Reading::SpeedKph(v) => Some(v),
            _ => s.speed_kph,
        },
        s.with_reading(r, t).coolant_c == match r {
            Reading::CoolantC(v) => Some(v),
            _ => s.coolant_c,
        },
        s.with_reading(r, t).throttle_pct == match r {
            Reading::ThrottlePct(v) => Some(v),
            _ => s.throttle_pct,
        },
        s.with_reading(r, t).battery_v_bits == match r {
            Reading::BatteryBits(v) => Some(v),
            _ => s.battery_v_bits,
        },
{
}

/// Two readings of different kinds recorded one after the other both stay:
/// the later one never wipes the earlier one, whatever the order.
pub proof fn law_readings_accumulate(s: ObdSnapshot, r1: Reading, t1: u64, r2: Reading, t2: u64)
    ensures
        r1 matches Reading::SpeedKph(v) ==> (!(r2 is SpeedKph) ==> s.with_reading(r1, t1)
            .with_reading(r2, t2).speed_kph == Some(v)),
        r1 matches Reading::Rpm(v) ==> (!(r2 is Rpm) ==> s.with_reading(r1, t1).with_reading(
            r2,
            t2,
        ).rpm == Some(v)),
        r1 matches Reading::CoolantC(v) ==> (!(r2 is CoolantC) ==> s.with_reading(r1, t1)
            .with_reading(r2, t2).coolant_c == Some(v)),
        r1 matches Reading::ThrottlePct(v) ==> (!(r2 is ThrottlePct) ==> s.with_reading(r1, t1)
            .with_reading(r2, t2).throttle_pct == Some(v)),
        r1 matches Reading::BatteryBits(v) ==> (!(r2 is BatteryBits) ==> s.with_reading(r1, t1)
            .with_reading(r2, t2).battery_v_bits == Some(v)),
{
}

} // verus!
