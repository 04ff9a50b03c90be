//! Physical quantities read from a weatherstation, with their fixed-point text forms.
use vstd::prelude::*;

use crate::text::{decimal, push_char, push_decimal, push_str, push_two_digits, two_digits};

verus! {

/// Lowest temperature in hundredths of a degree: absolute zero.
pub const ABSOLUTE_ZERO: i16 = -27315;

/// Highest relative humidity in hundredths of a percent.
pub const FULL_HUMIDITY: u16 = 10000;

/// A raw value outside the physical range of its quantity.
#[derive(Clone, Copy, Debug, PartialEq, Eq, Structural)]
pub enum SensorError {
    /// A temperature below absolute zero.
    BelowAbsoluteZero,
    /// A relative humidity above 100%.
    HumidityAbove100,
}

/// Temperature in hundredths of a degree Celsius, never below absolute zero.
#[derive(Clone, Copy, Debug)]
pub struct Celsius(i16);

/// Relative humidity in hundredths of a percent, at most 100%.
#[derive(Clone, Copy, Debug)]
pub struct RelativeHumidity(u16);

/// Pressure in tenths of a pascal.
#[derive(Clone, Copy, Debug)]
pub struct Pascal(u32);

/// One reading of the three quantities of a weatherstation.
#[derive(Clone, Copy, Debug)]
pub struct SensorValues {
    pub temperature: Celsius,
    pub pressure: Pascal,
    pub humidity: RelativeHumidity,
}

/// What is known of a sensor right now.
#[derive(Clone, Copy, Debug)]
pub enum SensorState {
    Connected(SensorValues),
    Unconnected,
}

/// The three raw integers of a reading, as a log stores them.
#[derive(Clone, Copy, Debug, PartialEq, Eq, Structural)]
pub struct RawSensorValues {
    pub temperature: i16,
    pub humidity: u16,
    pub pressure: u32,
}

/// Each raw integer lies in the physical range of its quantity.
pub open spec fn raw_is_valid(raw: RawSensorValues) -> bool {
    raw.temperature >= ABSOLUTE_ZERO && raw.humidity <= FULL_HUMIDITY
}

/// The error that validating an invalid raw reading reports: the temperature is
/// checked first.
pub open spec fn raw_error(raw: RawSensorValues) -> SensorError {
    if raw.temperature < ABSOLUTE_ZERO {
        SensorError::BelowAbsoluteZero
    } else {
        SensorError::HumidityAbove100
    }
}

/// Fixed-point text of `n` hundredths followed by `unit`.
pub open spec fn centi_text(n: nat, unit: Seq<char>) -> Seq<char> {
    decimal(n / 100) + seq!['.'] + two_digits(n % 100) + unit
}

/// Text of a temperature of `t` hundredths of a degree, such as `-1.50°C`.
pub open spec fn celsius_text(t: int) -> Seq<char> {
    if t < 0 {
        seq!['-'] + centi_text((-t) as nat, seq!['°', 'C'])
    } else {
        centi_text(t as nat, seq!['°', 'C'])
    }
}

/// Text of a humidity of `h` hundredths of a percent, such as `80.01%`.
pub open spec fn humidity_text(h: nat) -> Seq<char> {
    centi_text(h, seq!['%'])
}

/// Text of a pressure of `p` tenths of a pascal, such as `100.0Pa`.
pub open spec fn pascal_text(p: nat) -> Seq<char> {
    decimal(p / 10) + seq!['.'] + decimal(p % 10) + seq!['P', 'a']
}

/// Text of a whole reading.
pub open spec fn values_text(humidity: nat, temperature: int, pressure: nat) -> Seq<char> {
    "Humidity: "@ + humidity_text(humidity) + ", Temperature: "@ + celsius_text(temperature)
        + ", pressure: "@ + pascal_text(pressure)
}

impl Celsius {
    #[verifier::type_invariant]
    spec fn not_below_absolute_zero(self) -> bool {
        self.0 >= ABSOLUTE_ZERO
    }

    /// The temperature in hundredths of a degree.
    pub closed spec fn hundredths(self) -> int {
        self.0 as int
    }

    /// Takes hundredths of a degree; fails below absolute zero.
    pub fn try_from(value: i16) -> (r: Result<Celsius, SensorError>)
        ensures
            value >= ABSOLUTE_ZERO <==> r is Ok,
            r is Ok ==> r->Ok_0.hundredths() == value,
            r is Err ==> r->Err_0 == SensorError::BelowAbsoluteZero,
    {
        if value < ABSOLUTE_ZERO {
            Err(SensorError::BelowAbsoluteZero)
        } else {
            Ok(Celsius(value))
        }
    }

    pub fn value(&self) -> (r: i16)
        ensures
            r == self.hundredths(),
            r >= ABSOLUTE_ZERO,
    {
        proof {
            use_type_invariant(self);
        }
        self.0
    }

    pub fn to_string(&self) -> (r: String)
        ensures
            r@ == celsius_text(self.hundredths()),
    {
        let v = self.0;
        let mut out = String::new();
        let a: u32 = if v < 0 {
            push_char(&mut out, '-');
            (-(v as i32)) as u32
        } else {
            v as u32
        };
        push_decimal(&mut out, a / 100);
        push_char(&mut out, '.');
        push_two_digits(&mut out, a % 100);
        push_char(&mut out, '°');
        push_char(&mut out, 'C');
        assert(out@ =~= celsius_text(v as int));
        out
    }
}

impl RelativeHumidity {
    #[verifier::type_invariant]
    spec fn at_most_full(self) -> bool {
        self.0 <= FULL_HUMIDITY
    }

    /// The humidity in hundredths of a percent.
    pub closed spec fn hundredths(self) -> nat {
        self.0 as nat
    }

    /// Takes hundredths of a percent; fails above 100%.
    pub fn try_from(value: u16) -> (r: Result<RelativeHumidity, SensorError>)
        ensures
            value <= FULL_HUMIDITY <==> r is Ok,
            r is Ok ==> r->Ok_0.hundredths() == value,
            r is Err ==> r->Err_0 == SensorError::HumidityAbove100,
    {
        if value > FULL_HUMIDITY {
            Err(SensorError::HumidityAbove100)
        } else {
            Ok(RelativeHumidity(value))
        }
    }

    pub fn value(&self) -> (r: u16)
        ensures
            r == self.hundredths(),
            r <= FULL_HUMIDITY,
    {
        proof {
            use_type_invariant(self);
        }
        self.0
    }

    pub fn to_string(&self) -> (r: String)
        ensures
            r@ == humidity_text(self.hundredths()),
    {
        let v = self.0 as u32;
        let mut out = String::new();
        push_decimal(&mut out, v / 100);
        push_char(&mut out, '.');
        push_two_digits(&mut out, v % 100);
        push_char(&mut out, '%');
        assert(out@ =~= humidity_text(v as nat));
        out
    }
}

impl Pascal {
    /// The pressure in tenths of a pascal.
    pub closed spec fn tenths(self) -> nat {
        self.0 as nat
    }

    /// Takes tenths of a pascal; every value is a pressure.
    pub fn from(value: u32) -> (r: Pascal)
        ensures
            r.tenths() == value,
    {
        Pascal(value)
    }

    pub fn value(&self) -> (r: u32)
        ensures
            r == self.tenths(),
    {
        self.0
    }

    pub fn to_string(&self) -> (r: String)
        ensures
            r@ == pascal_text(self.tenths()),
    {
        let v = self.0;
        let mut out = String::new();
        push_decimal(&mut out, v / 10);
        push_char(&mut out, '.');
        push_decimal(&mut out, v % 10);
        push_char(&mut out, 'P');
        push_char(&mut out, 'a');
        assert(out@ =~= pascal_text(v as nat));
        out
    }
}

impl SensorValues {
    /// Validates each raw integer of a stored reading.
    pub fn try_from(raw: RawSensorValues) -> (r: Result<SensorValues, SensorError>)
        ensures
            raw_is_valid(raw) <==> r is Ok,
            r is Err ==> r->Err_0 == raw_error(raw),
            r is Ok ==> r->Ok_0.raw() == raw,
    {
        let temperature = match Celsius::try_from(raw.temperature) {
            Ok(t) => t,
            Err(e) => return Err(e),
        };
        let humidity = match RelativeHumidity::try_from(raw.humidity) {
            Ok(h) => h,
            Err(e) => return Err(e),
        };
        Ok(SensorValues { temperature, pressure: Pascal::from(raw.pressure), humidity })
    }

    /// The raw integers of this reading.
    pub open spec fn raw(self) -> RawSensorValues {
        RawSensorValues {
            temperature: self.temperature.hundredths() as i16,
            humidity: self.humidity.hundredths() as u16,
            pressure: self.pressure.tenths() as u32,
        }
    }

    pub fn to_string(&self) -> (r: String)
        ensures
            r@ == values_text(
                self.humidity.hundredths(),
                self.temperature.hundredths(),
                self.pressure.tenths(),
            ),
    {
        let mut out = String::new();
        push_str(&mut out, "Humidity: ");
        let h = self.humidity.to_string();
        push_str(&mut out, h.as_str());
        push_str(&mut out, ", Temperature: ");
        let t = self.temperature.to_string();
        push_str(&mut out, t.as_str());
        push_str(&mut out, ", pressure: ");
        let p = self.pressure.to_string();
        push_str(&mut out, p.as_str());
        assert(out@ =~= values_text(
            self.humidity.hundredths(),
            self.temperature.hundredths(),
            self.pressure.tenths(),
        ));
        out
    }
}

impl RawSensorValues {
    /// The raw integers of a reading.
    pub fn from(values: SensorValues) -> (r: RawSensorValues)
        ensures
            r == values.raw(),
    {
        RawSensorValues {
            temperature: values.temperature.value(),
            humidity: values.humidity.value(),
            pressure: values.pressure.value(),
        }
    }
}

} // verus!
