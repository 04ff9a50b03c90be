use ble_weatherstation::dummy::{clamp, FluctuatingSensor, Fluctuation};

#[test]
fn clamp_bounds() {
    assert_eq!(clamp(-5, 0, 10), 0);
    assert_eq!(clamp(15, 0, 10), 10);
    assert_eq!(clamp(7, 0, 10), 7);
    assert_eq!(clamp(0, 0, 10), 0);
}

#[test]
fn fluctuation_step_is_clamped() {
    let mut s = FluctuatingSensor::default();
    let v = s.step(Fluctuation {
        temperature_delta: 99,
        pressure_up: false,
        pressure_delta: 999,
        humidity_up: true,
        humidity_delta: 89,
    });
    assert_eq!(v.temperature.value(), 2099);
    assert_eq!(v.pressure.value(), 9999001);
    assert_eq!(v.humidity.value(), 5089);
    let mut hot = FluctuatingSensor::default();
    for _ in 0..20 {
        hot.step(Fluctuation {
            temperature_delta: 99,
            pressure_up: true,
            pressure_delta: 999,
            humidity_up: false,
            humidity_delta: 89,
        });
    }
    let v = hot.step(Fluctuation {
        temperature_delta: 99,
        pressure_up: true,
        pressure_delta: 999,
        humidity_up: false,
        humidity_delta: 89,
    });
    assert_eq!(v.temperature.value(), 3000);
    assert_eq!(v.pressure.value(), 10000000 + 21 * 999);
    assert_eq!(v.humidity.value(), 5000 - 21 * 89);
}

#[test]
fn fluctuating_sensor_stays_in_bounds() {
    let mut s = FluctuatingSensor::default();
    let mut changed = false;
    for _ in 0..200 {
        let v = s.next().unwrap();
        assert!((0..=3000).contains(&v.temperature.value()));
        assert!((9000000..=11000000).contains(&v.pressure.value()));
        assert!((2000..=9000).contains(&v.humidity.value()));
        if v.pressure.value() != 10000000 {
            changed = true;
        }
    }
    assert!(changed);
}
