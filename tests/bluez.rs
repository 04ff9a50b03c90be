use ble_weatherstation::address::BluetoothAddress;
use ble_weatherstation::bluez::{
    interpret_object, Action, AdapterProperties, BluezObject, CallOutcome, CharacteristicValues,
    DaemonCall, DeviceProperties, LoopStatus, ObjectInterfaces, ReadError, Session, Step,
    Weatherstation, BATTERY_SERVICE_UUID, WEATHERSTATION_SERVICE_UUID,
};
use ble_weatherstation::sensor::{SensorError, SensorState};

fn device(uuids: Vec<&str>, connected: bool, resolved: bool, address: &str) -> ObjectInterfaces {
    ObjectInterfaces {
        adapter: None,
        device: Some(DeviceProperties {
            uuids: Some(uuids.into_iter().map(|u| u.to_string()).collect()),
            connected: Some(connected),
            address: Some(address.to_string()),
            services_resolved: Some(resolved),
        }),
    }
}

fn adapter(discovering: bool) -> ObjectInterfaces {
    ObjectInterfaces {
        adapter: Some(AdapterProperties { discovering: Some(discovering) }),
        device: None,
    }
}

#[test]
fn device_with_one_uuid_is_no_entity() {
    let only_battery = device(vec![BATTERY_SERVICE_UUID], true, true, "AA:BB:CC:DD:EE:FF");
    assert!(interpret_object("/org/bluez/hci0/dev_AA_BB_CC_DD_EE_FF", &only_battery).is_none());
    let only_station = device(vec![WEATHERSTATION_SERVICE_UUID], true, true, "AA:BB:CC:DD:EE:FF");
    assert!(interpret_object("/org/bluez/hci0/dev_AA_BB_CC_DD_EE_FF", &only_station).is_none());
}

#[test]
fn device_with_both_uuids_is_entity() {
    let both = device(
        vec!["00001800-0000-1000-8000-00805f9b34fb", WEATHERSTATION_SERVICE_UUID, BATTERY_SERVICE_UUID],
        false,
        true,
        "AA:BB:CC:DD:EE:FF",
    );
    match interpret_object("/org/bluez/hci0/dev_AA_BB_CC_DD_EE_FF", &both) {
        Some(BluezObject::WeatherstationDevice { address, connected, services_resolved }) => {
            assert_eq!(address.as_u64(), 0xAABBCCDDEEFF);
            assert!(!connected);
            assert!(services_resolved);
        }
        other => panic!("unexpected {:?}", other),
    }
}

#[test]
fn device_with_bad_address_is_no_entity() {
    let bad = device(vec![BATTERY_SERVICE_UUID, WEATHERSTATION_SERVICE_UUID], true, true, "AA:BB");
    assert!(interpret_object("/org/bluez/hci0/dev_AA_BB", &bad).is_none());
}

#[test]
fn uuid_match_is_case_sensitive() {
    let upper = device(
        vec!["0000180F-0000-1000-8000-00805F9B34FB", WEATHERSTATION_SERVICE_UUID],
        true,
        true,
        "AA:BB:CC:DD:EE:FF",
    );
    assert!(interpret_object("/org/bluez/hci0/dev_AA_BB_CC_DD_EE_FF", &upper).is_none());
}

#[test]
fn other_paths_are_no_entity() {
    assert!(interpret_object("/org/bluez", &adapter(false)).is_none());
    assert!(interpret_object("/com/other/hci0", &adapter(false)).is_none());
    let both = device(vec![BATTERY_SERVICE_UUID, WEATHERSTATION_SERVICE_UUID], true, true, "AA:BB:CC:DD:EE:FF");
    assert!(interpret_object("/org/bluez/hci0/dev/service000a", &both).is_none());
    assert!(interpret_object("/org/bluez/hci0", &both).is_none());
}

#[test]
fn undiscovering_adapter_starts_discovery_and_failure_signals_once() {
    let obj = interpret_object("/org/bluez/hci0", &adapter(false)).unwrap();
    match &obj {
        BluezObject::Interface { discovering, interface } => {
            assert!(!discovering);
            assert_eq!(interface, "hci0");
        }
        other => panic!("unexpected {:?}", other),
    }
    let mut session = Session::new();
    session.begin_cycle();
    assert_eq!(session.on_object("/org/bluez/hci0", &obj), Action::StartDiscovery);
    assert_eq!(
        session.on_call_outcome(DaemonCall::StartDiscovery, CallOutcome::Failed),
        Step::SignalFatal
    );
    assert_eq!(session.status_now(), LoopStatus::Failed);
    assert_eq!(
        session.on_call_outcome(DaemonCall::StartDiscovery, CallOutcome::Failed),
        Step::Halted
    );
    assert_eq!(session.on_call_outcome(DaemonCall::Disconnect, CallOutcome::Refused), Step::Halted);
}

#[test]
fn discovering_adapter_needs_nothing() {
    let obj = interpret_object("/org/bluez/hci1", &adapter(true)).unwrap();
    let mut session = Session::new();
    assert_eq!(session.on_object("/org/bluez/hci1", &obj), Action::Nothing);
}

#[test]
fn connect_refusal_is_tolerated() {
    let mut session = Session::new();
    assert_eq!(session.on_call_outcome(DaemonCall::Connect, CallOutcome::Refused), Step::Proceed);
    assert_eq!(session.status_now(), LoopStatus::Running);
    assert_eq!(session.on_call_outcome(DaemonCall::Connect, CallOutcome::Failed), Step::SignalFatal);
}

#[test]
fn session_connects_then_tracks_in_order() {
    let mut session = Session::new();
    session.begin_cycle();
    let path_two = "/org/bluez/hci0/dev_00_00_00_00_00_02";
    let path_one = "/org/bluez/hci0/dev_00_00_00_00_00_01";
    let unconnected = interpret_object(
        path_two,
        &device(vec![BATTERY_SERVICE_UUID, WEATHERSTATION_SERVICE_UUID], false, false, "00:00:00:00:00:02"),
    )
    .unwrap();
    assert_eq!(session.on_object(path_two, &unconnected), Action::Connect(BluetoothAddress::from(2)));
    assert_eq!(session.wait_millis(1500), 8500);

    session.begin_cycle();
    assert_eq!(session.wait_millis(1500), 29500);
    assert_eq!(session.wait_millis(40000), 0);
    let resolved2 = interpret_object(
        path_two,
        &device(vec![BATTERY_SERVICE_UUID, WEATHERSTATION_SERVICE_UUID], true, true, "00:00:00:00:00:02"),
    )
    .unwrap();
    let resolved1 = interpret_object(
        path_one,
        &device(vec![BATTERY_SERVICE_UUID, WEATHERSTATION_SERVICE_UUID], true, true, "00:00:00:00:00:01"),
    )
    .unwrap();
    assert_eq!(session.on_object(path_two, &resolved2), Action::Track(BluetoothAddress::from(2)));
    assert_eq!(session.on_object(path_one, &resolved1), Action::Track(BluetoothAddress::from(1)));
    assert_eq!(session.on_object(path_two, &resolved2), Action::Nothing);

    let stations = session.stations();
    assert_eq!(stations.len(), 2);
    assert_eq!(stations[0].address.as_u64(), 1);
    assert_eq!(stations[1].address.as_u64(), 2);
    assert_eq!(stations[1].device_path, path_two);
    assert_eq!(stations[1].temperature_path, format!("{}/service000a/char000b", path_two));
    assert_eq!(stations[1].humidity_path, format!("{}/service000a/char000d", path_two));
    assert_eq!(stations[1].pressure_path, format!("{}/service000a/char000f", path_two));

    let values = vec![
        CharacteristicValues { temperature: vec![0x34, 0x08], pressure: vec![0x10, 0x27, 0, 0], humidity: vec![0x01, 0x1f] },
        CharacteristicValues { temperature: vec![0x34, 0x08], pressure: vec![0x10, 0x27, 0, 0], humidity: vec![0x11, 0x27] },
    ];
    let snap = session.snapshot(&values);
    assert_eq!(snap.len(), 1);
    assert_eq!(snap[0].0.as_u64(), 1);
    match snap[0].1 {
        SensorState::Connected(v) => {
            assert_eq!(v.temperature.value(), 2100);
            assert_eq!(v.pressure.value(), 10000);
            assert_eq!(v.humidity.value(), 7937);
        }
        SensorState::Unconnected => panic!("not connected"),
    }

    session.stop();
    assert_eq!(session.status_now(), LoopStatus::Stopping);
    assert_eq!(session.on_call_outcome(DaemonCall::Disconnect, CallOutcome::Done), Step::Proceed);
}

#[test]
fn read_values_decodes_little_endian() {
    let v = Weatherstation::read_values(&[0xfe, 0xff, 9], &[1, 2, 3, 4], &[0x10, 0x27]).unwrap();
    assert_eq!(v.temperature.value(), -2);
    assert_eq!(v.pressure.value(), 0x04030201);
    assert_eq!(v.humidity.value(), 10000);
    assert_eq!(
        Weatherstation::read_values(&[0xfe], &[1, 2, 3, 4], &[0x10, 0x27]).unwrap_err(),
        ReadError::Truncated
    );
    assert_eq!(
        Weatherstation::read_values(&[0, 0], &[1, 2, 3], &[0x10, 0x27]).unwrap_err(),
        ReadError::Truncated
    );
    assert_eq!(
        Weatherstation::read_values(&[0, 0], &[1, 2, 3, 4], &[0x11, 0x27]).unwrap_err(),
        ReadError::Invalid(SensorError::HumidityAbove100)
    );
    assert_eq!(
        Weatherstation::read_values(&[0x00, 0x80], &[1, 2, 3, 4], &[0, 0]).unwrap_err(),
        ReadError::Invalid(SensorError::BelowAbsoluteZero)
    );
}
