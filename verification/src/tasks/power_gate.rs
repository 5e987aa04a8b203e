//! Power-gate supervisor logic. The two USB-C configuration-channel pins
//! are sampled periodically; each raw 12-bit reading maps to an advertised
//! source capability, the two capabilities combine into one state, and the
//! state is published to a latched signal that other subsystems consult
//! before starting.

use vstd::prelude::*;

verus! {

/// The source capability advertised on the USB-C CC pins.
#[derive(Debug, Clone, Copy, PartialEq, Eq, Structural)]
pub enum PowerState {
    Invalid,
    Disconnected,
    Max500ma,
    Max1_5a,
    Max3a,
}

/// The capability a raw ADC reading maps to. The reading spans a voltage of
/// `reading * 3.3 / 4096` volts; each comparison against a threshold is
/// carried out exactly, as `reading * 330` against `threshold * 409600`:
/// 0 to 0.15 V is disconnected, 0.25 to 0.61 V advertises 500 mA, 0.70 to
/// 1.16 V advertises 1.5 A, above 1.31 V advertises 3 A, and anything else
/// is invalid.
pub open spec fn spec_power_state_from(value: u16) -> PowerState {
    let scaled = value * 330;
    if scaled > 0 && scaled < 61440 {
        PowerState::Disconnected
    } else if scaled > 102400 && scaled < 249856 {
        PowerState::Max500ma
    } else if scaled > 286720 && scaled < 475136 {
        PowerState::Max1_5a
    } else if scaled > 536576 {
        PowerState::Max3a
    } else {
        PowerState::Invalid
    }
}

impl From<u16> for PowerState {
    /// Map one raw CC-pin reading to the capability it advertises.
    fn from(value: u16) -> (r: PowerState)
        ensures
            r == spec_power_state_from(value),
    {
        let scaled: u32 = value as u32 * 330;
        if scaled > 0 && scaled < 61440 {
            PowerState::Disconnected
        } else if scaled > 102400 && scaled < 249856 {
            PowerState::Max500ma
        } else if scaled > 286720 && scaled < 475136 {
            PowerState::Max1_5a
        } else if scaled > 536576 {
            PowerState::Max3a
        } else {
            PowerState::Invalid
        }
    }
}

impl vstd::std_specs::convert::FromSpecImpl<u16> for PowerState {
    open spec fn obeys_from_spec() -> bool {
        true
    }

    open spec fn from_spec(v: u16) -> PowerState {
        spec_power_state_from(v)
    }
}

/// The combined state of the two CC-pin readings: the pin readings are
/// ordered, each maps to a capability, and the pair combines as the
/// detection table prescribes — an invalid pin invalidates the pair, a
/// disconnected lower pin defers to the upper pin, and any other pairing is
/// invalid.
pub open spec fn spec_combined_power_state(cc1: u16, cc2: u16) -> PowerState {
    let lower = spec_power_state_from(if cc1 <= cc2 {
        cc1
    } else {
        cc2
    });
    let upper = spec_power_state_from(if cc1 <= cc2 {
        cc2
    } else {
        cc1
    });
    match (lower, upper) {
        (PowerState::Invalid, _) => PowerState::Invalid,
        (_, PowerState::Invalid) => PowerState::Invalid,
        (PowerState::Disconnected, other) => other,
        (_, _) => PowerState::Invalid,
    }
}

/// Combine the two CC-pin readings into the advertised capability.
pub fn combined_power_state(cc1: u16, cc2: u16) -> (r: PowerState)
    ensures
        r == spec_combined_power_state(cc1, cc2),
{
    let low_reading = if cc1 <= cc2 {
        cc1
    } else {
        cc2
    };
    let high_reading = if cc1 <= cc2 {
        cc2
    } else {
        cc1
    };
    let lower = PowerState::from(low_reading);
    let upper = PowerState::from(high_reading);
    match (lower, upper) {
        (PowerState::Invalid, _) => PowerState::Invalid,
        (_, PowerState::Invalid) => PowerState::Invalid,
        (PowerState::Disconnected, other) => other,
        (_, _) => PowerState::Invalid,
    }
}

/// A capability level a task can wait for.
#[derive(Debug, Clone, Copy, PartialEq, Eq, Structural)]
pub enum PowerThreshold {
    Amp1_5,
    Amp3,
}

/// Whether a power state satisfies a threshold: 1.5 A is satisfied by the
/// 1.5 A and 3 A capabilities; 3 A only by the 3 A capability.
pub open spec fn spec_meets(state: PowerState, threshold: PowerThreshold) -> bool {
    match threshold {
        PowerThreshold::Amp1_5 => state == PowerState::Max1_5a || state == PowerState::Max3a,
        PowerThreshold::Amp3 => state == PowerState::Max3a,
    }
}

/// Whether a power state satisfies a threshold, executable form.
pub fn meets(state: PowerState, threshold: PowerThreshold) -> (r: bool)
    ensures
        r == spec_meets(state, threshold),
{
    match threshold {
        PowerThreshold::Amp1_5 => match state {
            PowerState::Max1_5a => true,
            PowerState::Max3a => true,
            _ => false,
        },
        PowerThreshold::Amp3 => match state {
            PowerState::Max3a => true,
            _ => false,
        },
    }
}

/// Thresholds are ordered: a state good for 3 A is good for 1.5 A.
pub proof fn lemma_threshold_monotone(state: PowerState)
    ensures
        spec_meets(state, PowerThreshold::Amp3) ==> spec_meets(state, PowerThreshold::Amp1_5),
{
}

/// The latched power-gate signal: single writer, many readers. A reader
/// waiting on a threshold is released exactly when the latest published
/// state satisfies it.
pub struct PowerGate {
    pub published: Option<PowerState>,
}

impl PowerGate {
    /// A gate that has published nothing yet: no waiter is released.
    pub fn new() -> (r: PowerGate)
        ensures
            r.published is None,
    {
        PowerGate { published: None }
    }

    /// Latch a newly sampled combined state.
    pub fn publish(&mut self, state: PowerState)
        ensures
            final(self).published == Some(state),
    {
        self.published = Some(state);
    }

    /// Whether a waiter on `threshold` would be released now.
    pub fn ready(&self, threshold: PowerThreshold) -> (r: bool)
        ensures
            r == (self.published matches Some(s) && spec_meets(s, threshold)),
    {
        match self.published {
            Some(s) => meets(s, threshold),
            None => false,
        }
    }
}

} // verus!
