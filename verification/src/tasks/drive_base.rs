//! Drive-base motor logic: the percentage-to-duty remapping and the pure
//! H-bridge command model. Applying a computed duty cycle to a PWM slice is
//! the caller's job; the library only decides what the duty cycles are.

use vstd::prelude::*;

verus! {

/// Errors a motor-driver shell can report back.
#[derive(Debug, Clone, Copy, PartialEq, Eq, Structural)]
pub enum MotorDriverError {
    /// Failed to set a pin low or high.
    GpioError,
    /// Failed to set a duty value.
    UnableToSetDuty,
    /// Could not acquire the PWM lock.
    PwmLocked,
    /// A duty value was outside the 0-100 range.
    InvalidRange,
}

/// The two H-bridge channels of the motor driver.
#[derive(Debug, Clone, Copy, PartialEq, Eq, Structural)]
pub enum MotorChannel {
    ChannelA,
    ChannelB,
}

/// Direction a motor channel is driven in.
#[derive(Debug, Clone, Copy, PartialEq, Eq, Structural)]
pub enum MotorDirection {
    Forward,
    Reverse,
}

/// How a motor channel is brought to rest.
#[derive(Debug, Clone, Copy, PartialEq, Eq, Structural)]
pub enum MotorBrakeMode {
    Coast,
    Brake,
}

/// What a single PWM pin is told to do.
#[derive(Debug, Clone, Copy, PartialEq, Eq, Structural)]
pub enum DutySetting {
    FullyOff,
    FullyOn,
    Cycle(u16),
}

/// The mathematical value of `remap`: `value` percent of the way from `min`
/// to `max`, rounded toward `min` and clamped into the `u16` range.
pub open spec fn remap_spec(value: u8, min: u16, max: u16) -> int {
    if max >= min {
        let r = min + (value * (max - min)) / 100;
        if r > u16::MAX as int {
            u16::MAX as int
        } else {
            r
        }
    } else {
        let r = min - ((value * (min - max)) + 99) / 100;
        if r < 0 {
            0
        } else {
            r
        }
    }
}

/// What both pins of one H-bridge are told to do.
#[derive(Debug, Clone, Copy, PartialEq, Eq, Structural)]
pub struct BridgeCommand {
    pub a1: DutySetting,
    pub a2: DutySetting,
}

/// One H-bridge driven by a pair of PWM pins: the model that decides duty
/// cycles. Applying a [`BridgeCommand`] to the pins is the shell's job.
#[derive(Debug, Clone, Copy, PartialEq, Eq, Structural)]
pub struct PwmBridge {
    pub min_duty: u16,
    pub max_duty: u16,
}

impl PwmBridge {
    /// A bridge whose speeds remap onto `min_duty..=max_duty`.
    pub fn new(min_duty: u16, max_duty: u16) -> (r: PwmBridge)
        ensures
            r.min_duty == min_duty,
            r.max_duty == max_duty,
    {
        PwmBridge { min_duty, max_duty }
    }

    /// Drive forward at `percent`: the first pin carries the remapped duty
    /// cycle, the second is fully off.
    pub fn forward(&self, percent: u8) -> (r: BridgeCommand)
        ensures
            r.a1 == DutySetting::Cycle(remap_spec(percent, self.min_duty, self.max_duty) as u16),
            r.a2 == DutySetting::FullyOff,
    {
        BridgeCommand {
            a1: DutySetting::Cycle(remap(percent, self.min_duty, self.max_duty)),
            a2: DutySetting::FullyOff,
        }
    }

    /// Drive in reverse at `percent`: the pins swap roles.
    pub fn reverse(&self, percent: u8) -> (r: BridgeCommand)
        ensures
            r.a1 == DutySetting::FullyOff,
            r.a2 == DutySetting::Cycle(remap_spec(percent, self.min_duty, self.max_duty) as u16),
    {
        BridgeCommand {
            a1: DutySetting::FullyOff,
            a2: DutySetting::Cycle(remap(percent, self.min_duty, self.max_duty)),
        }
    }

    /// Let the motor coast: both pins fully off.
    pub fn coast(&self) -> (r: BridgeCommand)
        ensures
            r.a1 == DutySetting::FullyOff,
            r.a2 == DutySetting::FullyOff,
    {
        BridgeCommand { a1: DutySetting::FullyOff, a2: DutySetting::FullyOff }
    }

    /// Brake the motor: both pins fully on.
    pub fn stop(&self) -> (r: BridgeCommand)
        ensures
            r.a1 == DutySetting::FullyOn,
            r.a2 == DutySetting::FullyOn,
    {
        BridgeCommand { a1: DutySetting::FullyOn, a2: DutySetting::FullyOn }
    }

    /// The command for driving one channel at `speed` in `direction`.
    pub fn set(&self, speed: u8, direction: MotorDirection) -> (r: BridgeCommand)
        ensures
            r == match direction {
                MotorDirection::Forward => (BridgeCommand {
                    a1: DutySetting::Cycle(
                        remap_spec(speed, self.min_duty, self.max_duty) as u16,
                    ),
                    a2: DutySetting::FullyOff,
                }),
                MotorDirection::Reverse => (BridgeCommand {
                    a1: DutySetting::FullyOff,
                    a2: DutySetting::Cycle(
                        remap_spec(speed, self.min_duty, self.max_duty) as u16,
                    ),
                }),
            },
    {
        match direction {
            MotorDirection::Forward => self.forward(speed),
            MotorDirection::Reverse => self.reverse(speed),
        }
    }

    /// The command for bringing one channel to rest in `mode`.
    pub fn brake(&self, mode: MotorBrakeMode) -> (r: BridgeCommand)
        ensures
            r == match mode {
                MotorBrakeMode::Coast => (BridgeCommand {
                    a1: DutySetting::FullyOff,
                    a2: DutySetting::FullyOff,
                }),
                MotorBrakeMode::Brake => (BridgeCommand {
                    a1: DutySetting::FullyOn,
                    a2: DutySetting::FullyOn,
                }),
            },
    {
        match mode {
            MotorBrakeMode::Coast => self.coast(),
            MotorBrakeMode::Brake => self.stop(),
        }
    }
}

/// Linearly remap a 0-100 percentage onto the duty range `min..=max`.
pub fn remap(value: u8, min: u16, max: u16) -> (r: u16)
    ensures
        r == remap_spec(value, min, max),
{
    if max >= min {
        let span: u32 = (max - min) as u32;
        assert(value as u32 * span <= 255 * 65535) by (nonlinear_arith)
            requires
                value <= 255,
                span <= 65535,
        ;
        let scaled: u32 = (value as u32 * span) / 100;
        let total: u32 = min as u32 + scaled;
        if total > u16::MAX as u32 {
            u16::MAX
        } else {
            total as u16
        }
    } else {
        let span: u32 = (min - max) as u32;
        assert(value as u32 * span <= 255 * 65535) by (nonlinear_arith)
            requires
                value <= 255,
                span <= 65535,
        ;
        let scaled: u32 = (value as u32 * span + 99) / 100;
        if scaled > min as u32 {
            0
        } else {
            min - scaled as u16
        }
    }
}

} // verus!
