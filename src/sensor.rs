use vstd::prelude::*;
use crate::bus::Bus;
use crate::error::BringUpError;

verus! {

/// Output data rate of the magnetometer.
#[derive(Clone, Copy, PartialEq, Eq, Structural, Debug)]
pub enum SampleRate {
    Hz10,
    Hz20,
    Hz50,
    Hz100,
}

/// The rate the sensor is brought up at.
pub const BRING_UP_RATE: SampleRate = SampleRate::Hz10;

/// Samples per second at a rate.
pub open spec fn rate_hz(r: SampleRate) -> nat {
    match r {
        SampleRate::Hz10 => 10,
        SampleRate::Hz20 => 20,
        SampleRate::Hz50 => 50,
        SampleRate::Hz100 => 100,
    }
}

impl SampleRate {
    /// Samples per second.
    pub fn hz(&self) -> (r: u32)
        ensures
            r == rate_hz(*self),
    {
        match self {
            SampleRate::Hz10 => 10,
            SampleRate::Hz20 => 20,
            SampleRate::Hz50 => 50,
            SampleRate::Hz100 => 100,
        }
    }
}

/// The sensor driver as built on the bus, before any handshake.
pub struct UninitializedSensor {
    bus: Bus,
}

/// The sensor after its handshake: it takes configuration, not sampling.
pub struct ConfiguringSensor {
    bus: Bus,
    rate: Option<SampleRate>,
}

/// The sensor in continuous-measurement mode: it offers sampling and no
/// longer takes configuration.
pub struct ContinuousSensor {
    bus: Bus,
    rate: SampleRate,
}

impl UninitializedSensor {
    pub closed spec fn bus_spec(&self) -> Bus {
        self.bus
    }

    /// Wraps the bus; the sensor is in its power-on state.
    pub fn new(bus: Bus) -> (r: UninitializedSensor)
        ensures
            r.bus_spec() == bus,
    {
        UninitializedSensor { bus }
    }

    /// Moves past the handshake, given whether the sensor answered it
    /// correctly. A failed handshake ends bring-up.
    pub fn initialize(self, handshake_ok: bool) -> (r: Result<ConfiguringSensor, BringUpError>)
        ensures
            r is Ok <==> handshake_ok,
            r is Ok ==> r->Ok_0.bus_spec() == self.bus_spec() && r->Ok_0.rate_spec() is None,
            r is Err ==> r->Err_0 == BringUpError::SensorHandshakeFailure,
    {
        if handshake_ok {
            Ok(ConfiguringSensor { bus: self.bus, rate: None })
        } else {
            Err(BringUpError::SensorHandshakeFailure)
        }
    }
}

impl ConfiguringSensor {
    pub closed spec fn bus_spec(&self) -> Bus {
        self.bus
    }

    pub closed spec fn rate_spec(&self) -> Option<SampleRate> {
        self.rate
    }

    /// Records the sample rate, given whether the sensor accepted the write.
    /// A rejected write ends bring-up.
    pub fn set_sample_rate(self, rate: SampleRate, write_ok: bool) -> (r: Result<ConfiguringSensor, BringUpError>)
        ensures
            r is Ok <==> write_ok,
            r is Ok ==> r->Ok_0.bus_spec() == self.bus_spec() && r->Ok_0.rate_spec() == Some(rate),
            r is Err ==> r->Err_0 == BringUpError::SensorConfigurationFailure,
    {
        if write_ok {
            Ok(ConfiguringSensor { bus: self.bus, rate: Some(rate) })
        } else {
            Err(BringUpError::SensorConfigurationFailure)
        }
    }

    /// The rate set so far, if any.
    pub fn rate(&self) -> (r: Option<SampleRate>)
        ensures
            r == self.rate_spec(),
    {
        self.rate
    }

    /// Enters continuous mode, given whether the sensor accepted the mode
    /// command. The handle is consumed: the configuring handle cannot be used
    /// again, and a refused command ends bring-up. Only a sensor whose rate
    /// was set may enter the mode.
    pub fn enter_continuous_mode(self, accepted: bool) -> (r: Result<ContinuousSensor, BringUpError>)
        requires
            self.rate_spec() is Some,
        ensures
            r is Ok <==> accepted,
            r is Ok ==> r->Ok_0.bus_spec() == self.bus_spec() && Some(r->Ok_0.rate_spec()) == self.rate_spec(),
            r is Err ==> r->Err_0 == BringUpError::ModeTransitionFailure,
    {
        if accepted {
            match self.rate {
                Some(rate) => Ok(ContinuousSensor { bus: self.bus, rate }),
                None => Err(BringUpError::ModeTransitionFailure),
            }
        } else {
            Err(BringUpError::ModeTransitionFailure)
        }
    }
}

impl ContinuousSensor {
    pub closed spec fn bus_spec(&self) -> Bus {
        self.bus
    }

    pub closed spec fn rate_spec(&self) -> SampleRate {
        self.rate
    }

    /// The rate the sensor samples at.
    pub fn rate(&self) -> (r: SampleRate)
        ensures
            r == self.rate_spec(),
    {
        self.rate
    }

    /// Milliseconds between two fresh samples.
    pub fn sample_interval_ms(&self) -> (r: u32)
        ensures
            r * rate_hz(self.rate_spec()) == 1000,
    {
        match self.rate {
            SampleRate::Hz10 => 100,
            SampleRate::Hz20 => 50,
            SampleRate::Hz50 => 20,
            SampleRate::Hz100 => 10,
        }
    }

    /// Speed of the bus the sensor is read over, in hertz.
    pub fn bus_speed_hz(&self) -> (r: u32)
        ensures
            r == self.bus_spec().speed_spec(),
    {
        self.bus.speed_hz()
    }
}

} // verus!
