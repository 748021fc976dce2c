//! The heartbeat: what this component says of itself, and when it is due.

use crate::catalog;
use crate::catalog::catalog_heartbeat;
use vstd::prelude::*;

verus! {

/// The catalog's number for the vehicle type "onboard companion
/// controller".
pub const MAV_TYPE_ONBOARD_CONTROLLER: u8 = 18;

/// The catalog's number for "no valid autopilot".
pub const MAV_AUTOPILOT_INVALID: u8 = 8;

/// The catalog's number for the system status "standby".
pub const MAV_STATE_STANDBY: u8 = 3;

/// The protocol version byte of a heartbeat.
pub const HEARTBEAT_MAVLINK_VERSION: u8 = 3;

/// The default time between two heartbeats, in milliseconds.
pub const DEFAULT_PERIOD_MS: u64 = 1000;

/// The fields of a heartbeat message, as the numbers that the catalog
/// assigns to them.
#[derive(Clone, Copy, Debug, PartialEq, Eq, Structural)]
pub struct Heartbeat {
    pub custom_mode: u32,
    pub mavtype: u8,
    pub autopilot: u8,
    pub base_mode: u8,
    pub system_status: u8,
    pub mavlink_version: u8,
}

/// The heartbeat of this component.
pub open spec fn onboard_heartbeat() -> Heartbeat {
    Heartbeat {
        custom_mode: 0,
        mavtype: MAV_TYPE_ONBOARD_CONTROLLER,
        autopilot: MAV_AUTOPILOT_INVALID,
        base_mode: 0,
        system_status: MAV_STATE_STANDBY,
        mavlink_version: HEARTBEAT_MAVLINK_VERSION,
    }
}

impl Heartbeat {
    /// The heartbeat of this component: an onboard controller without
    /// autopilot, no mode flags, in standby, protocol version 3, custom
    /// mode 0.
    pub fn onboard() -> (heartbeat: Heartbeat)
        ensures
            heartbeat == onboard_heartbeat(),
    {
        Heartbeat {
            custom_mode: 0,
            mavtype: MAV_TYPE_ONBOARD_CONTROLLER,
            autopilot: MAV_AUTOPILOT_INVALID,
            base_mode: 0,
            system_status: MAV_STATE_STANDBY,
            mavlink_version: HEARTBEAT_MAVLINK_VERSION,
        }
    }

    /// The catalog's message with these fields, where it has one.
    pub fn to_message(&self) -> (message: Option<mavlink::common::MavMessage>)
        ensures
            message == catalog_heartbeat(*self),
    {
        catalog::heartbeat(self)
    }
}

/// When the next heartbeat is due.
///
/// Time is a count of milliseconds from any fixed origin. The ticker keeps
/// to the grid of whole periods from its start: the first heartbeat is due
/// one full period after the start, and a caller that comes late gets one
/// trigger for all the periods it missed.
pub struct HeartbeatTicker {
    period_ms: u64,
    next_due_ms: u64,
}

/// `a + b`, or the largest value where that does not fit.
pub open spec fn saturating_sum(a: u64, b: u64) -> u64 {
    if a + b > u64::MAX {
        u64::MAX
    } else {
        (a + b) as u64
    }
}

/// The first point of the grid of period `period_ms` through `due_ms` that
/// lies after `now_ms`, where `now_ms` is not before `due_ms`.
pub open spec fn next_due_after(due_ms: u64, period_ms: u64, now_ms: u64) -> u64 {
    saturating_sum((now_ms - (now_ms - due_ms) % (period_ms as int)) as u64, period_ms)
}

impl HeartbeatTicker {
    #[verifier::type_invariant]
    spec fn wf(self) -> bool {
        self.period_ms > 0
    }

    /// The time between two heartbeats.
    pub closed spec fn period_ms(&self) -> u64 {
        self.period_ms
    }

    /// The time at which the next heartbeat is due.
    pub closed spec fn next_due_ms(&self) -> u64 {
        self.next_due_ms
    }

    /// A ticker that starts at `start_ms`. Its first heartbeat is due one
    /// period later.
    pub fn new(start_ms: u64, period_ms: u64) -> (ticker: Self)
        requires
            period_ms > 0,
        ensures
            ticker.period_ms() == period_ms,
            ticker.next_due_ms() == saturating_sum(start_ms, period_ms),
    {
        HeartbeatTicker { period_ms, next_due_ms: start_ms.saturating_add(period_ms) }
    }

    /// Whether a heartbeat is due at `now_ms`. If it is, the next one is due
    /// at the first point of the grid after `now_ms`: periods that went by
    /// unnoticed are not made up for.
    pub fn tick(&mut self, now_ms: u64) -> (due: bool)
        ensures
            due == (now_ms >= old(self).next_due_ms()),
            final(self).period_ms() == old(self).period_ms(),
            !due ==> final(self).next_due_ms() == old(self).next_due_ms(),
            due ==> final(self).next_due_ms() == next_due_after(
                old(self).next_due_ms(),
                old(self).period_ms(),
                now_ms,
            ),
    {
        proof {
            use_type_invariant(&*self);
        }
        if now_ms < self.next_due_ms {
            return false;
        }
        let late: u64 = (now_ms - self.next_due_ms) % self.period_ms;
        proof {
            vstd::arithmetic::div_mod::lemma_mod_decreases(
                (now_ms - self.next_due_ms) as nat,
                self.period_ms as nat,
            );
        }
        let grid: u64 = now_ms - late;
        self.next_due_ms = grid.saturating_add(self.period_ms);
        true
    }
}

/// After a heartbeat the next one is due later than now and no more than
/// one period away, on the grid of the one before, unless time itself runs
/// out.
pub proof fn lemma_next_due_after(due_ms: u64, period_ms: u64, now_ms: u64)
    requires
        period_ms > 0,
        due_ms <= now_ms,
        now_ms + period_ms <= u64::MAX,
    ensures
        now_ms < next_due_after(due_ms, period_ms, now_ms) <= now_ms + period_ms,
        (next_due_after(due_ms, period_ms, now_ms) - due_ms) % (period_ms as int) == 0,
{
    let late = now_ms - due_ms;
    let p = period_ms as int;
    vstd::arithmetic::div_mod::lemma_fundamental_div_mod(late, p);
    vstd::arithmetic::div_mod::lemma_mod_bound(late, p);
    let q = late / p;
    assert(p * q + p == p * (q + 1)) by (nonlinear_arith);
    vstd::arithmetic::div_mod::lemma_mod_multiples_basic(q + 1, p);
    assert((q + 1) * p == p * (q + 1)) by (nonlinear_arith);
}

} // verus!
