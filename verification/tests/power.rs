//! Power-gate mapping and gating behaviour.

use mote::tasks::power_gate::{
    combined_power_state, meets, PowerGate, PowerState, PowerThreshold,
};

// Representative raw readings for each advertised capability; the voltage
// is reading * 3.3 / 4096.
const DISCONNECTED: u16 = 100; // ~0.08 V
const MAX_500MA: u16 = 400; // ~0.32 V
const MAX_1_5A: u16 = 1000; // ~0.81 V
const MAX_3A: u16 = 1700; // ~1.37 V
const INVALID_GAP: u16 = 250; // ~0.20 V, between the documented bands

#[test]
fn single_pin_mapping() {
    assert_eq!(PowerState::from(0), PowerState::Invalid);
    assert_eq!(PowerState::from(DISCONNECTED), PowerState::Disconnected);
    assert_eq!(PowerState::from(MAX_500MA), PowerState::Max500ma);
    assert_eq!(PowerState::from(MAX_1_5A), PowerState::Max1_5a);
    assert_eq!(PowerState::from(MAX_3A), PowerState::Max3a);
    assert_eq!(PowerState::from(INVALID_GAP), PowerState::Invalid);
}

#[test]
fn combined_mapping_table() {
    let table = [
        ((DISCONNECTED, DISCONNECTED), PowerState::Disconnected),
        ((DISCONNECTED, MAX_500MA), PowerState::Max500ma),
        ((DISCONNECTED, MAX_1_5A), PowerState::Max1_5a),
        ((DISCONNECTED, MAX_3A), PowerState::Max3a),
        ((MAX_3A, DISCONNECTED), PowerState::Max3a),
        ((MAX_500MA, MAX_1_5A), PowerState::Invalid),
        ((MAX_1_5A, MAX_1_5A), PowerState::Invalid),
        ((INVALID_GAP, MAX_3A), PowerState::Invalid),
        ((0, DISCONNECTED), PowerState::Invalid),
    ];
    for ((cc1, cc2), expected) in table {
        assert_eq!(combined_power_state(cc1, cc2), expected, "({cc1}, {cc2})");
        assert_eq!(combined_power_state(cc2, cc1), expected, "({cc2}, {cc1})");
    }
}

#[test]
fn thresholds() {
    assert!(meets(PowerState::Max1_5a, PowerThreshold::Amp1_5));
    assert!(meets(PowerState::Max3a, PowerThreshold::Amp1_5));
    assert!(meets(PowerState::Max3a, PowerThreshold::Amp3));
    assert!(!meets(PowerState::Max1_5a, PowerThreshold::Amp3));
    assert!(!meets(PowerState::Max500ma, PowerThreshold::Amp1_5));
    assert!(!meets(PowerState::Disconnected, PowerThreshold::Amp1_5));
    assert!(!meets(PowerState::Invalid, PowerThreshold::Amp1_5));
}

/// Publishing Invalid, Disconnected, then Max1.5A releases a 1.5 A waiter
/// exactly at the last step, and never releases a 3 A waiter.
#[test]
fn gating_sequence() {
    let mut gate = PowerGate::new();
    assert!(!gate.ready(PowerThreshold::Amp1_5));
    assert!(!gate.ready(PowerThreshold::Amp3));

    gate.publish(PowerState::Invalid);
    assert!(!gate.ready(PowerThreshold::Amp1_5));
    assert!(!gate.ready(PowerThreshold::Amp3));

    gate.publish(PowerState::Disconnected);
    assert!(!gate.ready(PowerThreshold::Amp1_5));
    assert!(!gate.ready(PowerThreshold::Amp3));

    gate.publish(PowerState::Max1_5a);
    assert!(gate.ready(PowerThreshold::Amp1_5));
    assert!(!gate.ready(PowerThreshold::Amp3));
}
