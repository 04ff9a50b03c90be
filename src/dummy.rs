//! A simulated weatherstation whose readings drift at random within plausible
//! bounds, for demonstrations without hardware.
use vstd::prelude::*;

use crate::sensor::{Celsius, Pascal, RelativeHumidity, SensorValues};

verus! {

#[verifier::external_type_specification]
#[verifier::external_body]
pub struct ExThreadRng(rand::rngs::ThreadRng);

/// Relies on `rand::thread_rng`: a handle on the thread's random number generator.
#[verifier::external_body]
fn thread_rng() -> rand::rngs::ThreadRng {
    rand::thread_rng()
}

/// Relies on `rand::Rng::gen_range`: a value in `[lo, hi)`; it panics where
/// `lo >= hi`.
#[verifier::external_body]
fn uniform(rng: &mut rand::rngs::ThreadRng, lo: i64, hi: i64) -> (r: i64)
    requires
        lo < hi,
    ensures
        lo <= r < hi,
{
    rand::Rng::gen_range(rng, lo, hi)
}

/// Relies on `rand::Rng::gen::<bool>`: a random boolean.
#[verifier::external_body]
fn coin(rng: &mut rand::rngs::ThreadRng) -> bool {
    rand::Rng::gen::<bool>(rng)
}

/// `n` brought into `[lo, hi]`.
pub open spec fn clamped(n: int, lo: int, hi: int) -> int {
    if n < lo {
        lo
    } else if n > hi {
        hi
    } else {
        n
    }
}

/// `lo` where `n` is below it, `hi` where `n` is above it, else `n`.
pub fn clamp(n: i64, lo: i64, hi: i64) -> (r: i64)
    ensures
        r == clamped(n as int, lo as int, hi as int),
{
    if n < lo {
        lo
    } else if n > hi {
        hi
    } else {
        n
    }
}

pub const TEMPERATURE_MIN: i16 = 0;
pub const TEMPERATURE_MAX: i16 = 3000;
pub const PRESSURE_MIN: u32 = 9000000;
pub const PRESSURE_MAX: u32 = 11000000;
pub const HUMIDITY_MIN: u16 = 2000;
pub const HUMIDITY_MAX: u16 = 9000;

/// The random part of one step of a simulated sensor.
#[derive(Clone, Copy, Debug)]
pub struct Fluctuation {
    /// Change of temperature, in hundredths of a degree.
    pub temperature_delta: i16,
    /// Whether the pressure rises.
    pub pressure_up: bool,
    /// Size of the pressure change, in tenths of a pascal.
    pub pressure_delta: u32,
    /// Whether the humidity rises.
    pub humidity_up: bool,
    /// Size of the humidity change, in hundredths of a percent.
    pub humidity_delta: u16,
}

/// A simulated sensor; each quantity stays within its bounds.
#[derive(Debug)]
pub struct FluctuatingSensor {
    humidity: u16,
    temperature: i16,
    pressure: u32,
}

impl FluctuatingSensor {
    #[verifier::type_invariant]
    spec fn in_bounds(self) -> bool {
        &&& TEMPERATURE_MIN <= self.temperature <= TEMPERATURE_MAX
        &&& PRESSURE_MIN <= self.pressure <= PRESSURE_MAX
        &&& HUMIDITY_MIN <= self.humidity <= HUMIDITY_MAX
    }

    pub closed spec fn temperature(self) -> int {
        self.temperature as int
    }

    pub closed spec fn pressure(self) -> int {
        self.pressure as int
    }

    pub closed spec fn humidity(self) -> int {
        self.humidity as int
    }

    /// Moves each quantity by the fluctuation and clamps it to its bounds; returns
    /// the new reading.
    pub fn step(&mut self, f: Fluctuation) -> (r: SensorValues)
        ensures
            final(self).temperature() == clamped(
                old(self).temperature() + f.temperature_delta,
                TEMPERATURE_MIN as int,
                TEMPERATURE_MAX as int,
            ),
            final(self).pressure() == clamped(
                if f.pressure_up {
                    old(self).pressure() + f.pressure_delta
                } else {
                    old(self).pressure() - f.pressure_delta
                },
                PRESSURE_MIN as int,
                PRESSURE_MAX as int,
            ),
            final(self).humidity() == clamped(
                if f.humidity_up {
                    old(self).humidity() + f.humidity_delta
                } else {
                    old(self).humidity() - f.humidity_delta
                },
                HUMIDITY_MIN as int,
                HUMIDITY_MAX as int,
            ),
            r.temperature.hundredths() == final(self).temperature(),
            r.pressure.tenths() == final(self).pressure(),
            r.humidity.hundredths() == final(self).humidity(),
    {
        let t = clamp(
            self.temperature as i64 + f.temperature_delta as i64,
            TEMPERATURE_MIN as i64,
            TEMPERATURE_MAX as i64,
        );
        let p = clamp(
            if f.pressure_up {
                self.pressure as i64 + f.pressure_delta as i64
            } else {
                self.pressure as i64 - f.pressure_delta as i64
            },
            PRESSURE_MIN as i64,
            PRESSURE_MAX as i64,
        );
        let h = clamp(
            if f.humidity_up {
                self.humidity as i64 + f.humidity_delta as i64
            } else {
                self.humidity as i64 - f.humidity_delta as i64
            },
            HUMIDITY_MIN as i64,
            HUMIDITY_MAX as i64,
        );
        *self = FluctuatingSensor { humidity: h as u16, temperature: t as i16, pressure: p as u32 };
        let temperature = Celsius::try_from(t as i16).unwrap();
        let humidity = RelativeHumidity::try_from(h as u16).unwrap();
        SensorValues { temperature, pressure: Pascal::from(p as u32), humidity }
    }

    /// The next simulated reading: temperature moves by less than a degree,
    /// pressure by 10 to 100 Pa and humidity by 0.2 to 0.9 percent.
    pub fn next(&mut self) -> (r: Option<SensorValues>)
        ensures
            r is Some,
            TEMPERATURE_MIN <= final(self).temperature() <= TEMPERATURE_MAX,
            PRESSURE_MIN <= final(self).pressure() <= PRESSURE_MAX,
            HUMIDITY_MIN <= final(self).humidity() <= HUMIDITY_MAX,
            r->Some_0.temperature.hundredths() == final(self).temperature(),
            r->Some_0.pressure.tenths() == final(self).pressure(),
            r->Some_0.humidity.hundredths() == final(self).humidity(),
    {
        let mut rng = thread_rng();
        let temperature_delta = uniform(&mut rng, -100, 100) as i16;
        let pressure_up = coin(&mut rng);
        let pressure_delta = uniform(&mut rng, 100, 1000) as u32;
        let humidity_up = coin(&mut rng);
        let humidity_delta = uniform(&mut rng, 20, 90) as u16;
        let f = Fluctuation {
            temperature_delta,
            pressure_up,
            pressure_delta,
            humidity_up,
            humidity_delta,
        };
        Some(self.step(f))
    }
}

impl Default for FluctuatingSensor {
    /// Starts at 20 °C, 1000 hPa and 50% humidity.
    fn default() -> (r: FluctuatingSensor)
        ensures
            r.temperature() == 2000,
            r.pressure() == 10000000,
            r.humidity() == 5000,
    {
        FluctuatingSensor { humidity: 5000, pressure: 10000000, temperature: 2000 }
    }
}

} // verus!
