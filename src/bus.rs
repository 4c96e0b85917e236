use vstd::prelude::*;
use crate::pins::{MuxedPin, Role};

verus! {

/// Bus speed that the sensor link is brought up at, in hertz.
pub const BUS_SPEED_HZ: u32 = 400_000;

/// Fastest bus speed the bus peripheral can be set to, in hertz.
pub const MAX_BUS_SPEED_HZ: u32 = 1_000_000;

/// The clock tree after it was frozen. It has no method that changes it.
#[derive(Clone, Copy)]
pub struct ClockDescriptor {
    sysclk_hz: u32,
}

impl ClockDescriptor {
    pub closed spec fn sysclk_spec(&self) -> nat {
        self.sysclk_hz as nat
    }

    /// Records the clock tree as it was frozen, at the given system clock.
    pub fn frozen(sysclk_hz: u32) -> (r: ClockDescriptor)
        ensures
            r.sysclk_spec() == sysclk_hz,
    {
        ClockDescriptor { sysclk_hz }
    }

    /// System clock frequency, in hertz.
    pub fn sysclk_hz(&self) -> (r: u32)
        ensures
            r == self.sysclk_spec(),
    {
        self.sysclk_hz
    }
}

/// The sensor bus: it owns its two muxed pins and runs at a fixed speed.
pub struct Bus {
    clock: MuxedPin,
    data: MuxedPin,
    speed_hz: u32,
    sysclk_hz: u32,
}

impl Bus {
    pub closed spec fn clock_pin_spec(&self) -> MuxedPin {
        self.clock
    }

    pub closed spec fn data_pin_spec(&self) -> MuxedPin {
        self.data
    }

    pub closed spec fn speed_spec(&self) -> nat {
        self.speed_hz as nat
    }

    pub closed spec fn sysclk_spec(&self) -> nat {
        self.sysclk_hz as nat
    }

    /// The roles the bus holds its pins in: one clock line, one data line.
    pub open spec fn wf(&self) -> bool {
        &&& self.clock_pin_spec().role_spec() == Role::BusClock
        &&& self.data_pin_spec().role_spec() == Role::BusData
        &&& 0 < self.speed_spec() <= MAX_BUS_SPEED_HZ
    }

    /// Builds the bus from a clock-line pin and a data-line pin. A pair of
    /// pins in any other roles, two clock lines say, is refused by the
    /// precondition, before the program runs.
    pub fn build(clock: MuxedPin, data: MuxedPin, speed_hz: u32, clocks: &ClockDescriptor) -> (r: Bus)
        requires
            clock.role_spec() == Role::BusClock,
            data.role_spec() == Role::BusData,
            0 < speed_hz <= MAX_BUS_SPEED_HZ,
        ensures
            r.wf(),
            r.clock_pin_spec() == clock,
            r.data_pin_spec() == data,
            r.speed_spec() == speed_hz,
            r.sysclk_spec() == clocks.sysclk_spec(),
    {
        Bus { clock, data, speed_hz, sysclk_hz: clocks.sysclk_hz() }
    }

    /// Bus speed, in hertz.
    pub fn speed_hz(&self) -> (r: u32)
        ensures
            r == self.speed_spec(),
    {
        self.speed_hz
    }

    /// Pin number of the clock line.
    pub fn clock_pin(&self) -> (r: u8)
        ensures
            r == self.clock_pin_spec().pin_spec(),
    {
        self.clock.pin()
    }

    /// Pin number of the data line.
    pub fn data_pin(&self) -> (r: u8)
        ensures
            r == self.data_pin_spec().pin_spec(),
    {
        self.data.pin()
    }
}

} // verus!
