use ble_weatherstation::sensor::{
    Celsius, Pascal, RawSensorValues, RelativeHumidity, SensorError, SensorValues,
};

#[test]
fn relative_humidity_display() {
    assert_eq!(
        RelativeHumidity::try_from(80_01).unwrap().to_string(),
        "80.01%".to_string()
    );

    assert_eq!(
        RelativeHumidity::try_from(100_00).unwrap().to_string(),
        "100.00%".to_string()
    );
}

#[test]
fn relative_humidity_convert() {
    assert!(RelativeHumidity::try_from(100_01).is_err());
    assert!(RelativeHumidity::try_from(140_00).is_err());
    assert!(RelativeHumidity::try_from(10_01).is_ok());
}

#[test]
fn celsius_display() {
    assert_eq!(Celsius::try_from(100_00).unwrap().to_string(), "100.00°C")
}

#[test]
fn celsius_convert() {
    assert!(Celsius::try_from(-320_00).is_err());
    assert!(Celsius::try_from(100_00).is_ok())
}

#[test]
fn pascal_display() {
    assert_eq!(Pascal::from(1000).to_string(), "100.0Pa".to_string())
}

#[test]
fn sensor_bounds_edges() {
    assert!(matches!(RelativeHumidity::try_from(10001), Err(SensorError::HumidityAbove100)));
    assert_eq!(RelativeHumidity::try_from(10000).unwrap().value(), 10000);
    assert!(matches!(Celsius::try_from(-27316), Err(SensorError::BelowAbsoluteZero)));
    assert_eq!(Celsius::try_from(-27315).unwrap().value(), -27315);
    assert_eq!(Pascal::from(u32::MAX).value(), u32::MAX);
}

#[test]
fn negative_celsius_display() {
    assert_eq!(Celsius::try_from(-150).unwrap().to_string(), "-1.50°C");
    assert_eq!(Celsius::try_from(-5).unwrap().to_string(), "-0.05°C");
    assert_eq!(Celsius::try_from(7).unwrap().to_string(), "0.07°C");
}

#[test]
fn sensor_values_display() {
    let v = SensorValues {
        temperature: Celsius::try_from(2150).unwrap(),
        pressure: Pascal::from(1013250),
        humidity: RelativeHumidity::try_from(4505).unwrap(),
    };
    assert_eq!(
        v.to_string(),
        "Humidity: 45.05%, Temperature: 21.50°C, pressure: 101325.0Pa"
    );
}

#[test]
fn raw_values_round_trip() {
    let raw = RawSensorValues { temperature: -1234, humidity: 9999, pressure: 123456789 };
    let v = SensorValues::try_from(raw).unwrap();
    assert_eq!(RawSensorValues::from(v), raw);
    let bytes = raw.to_bytes();
    assert_eq!(bytes, vec![0x2e, 0xfb, 0x0f, 0x27, 0x15, 0xcd, 0x5b, 0x07]);
    assert_eq!(RawSensorValues::from_bytes(&bytes), Some(raw));
    assert_eq!(RawSensorValues::from_bytes(&bytes[..7]), None);
}

#[test]
fn raw_values_invalid() {
    let cold = RawSensorValues { temperature: -30000, humidity: 20000, pressure: 0 };
    assert!(matches!(SensorValues::try_from(cold), Err(SensorError::BelowAbsoluteZero)));
    let wet = RawSensorValues { temperature: 0, humidity: 20000, pressure: 0 };
    assert!(matches!(SensorValues::try_from(wet), Err(SensorError::HumidityAbove100)));
}
