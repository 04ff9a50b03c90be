use ble_weatherstation::address::BluetoothAddress;
use ble_weatherstation::coordinator::{flush, register_new, unregistered, SensorTable};
use ble_weatherstation::db::{Db, DbError};
use ble_weatherstation::sensor::{Celsius, Pascal, RelativeHumidity, SensorState, SensorValues};
use ble_weatherstation::timestamp::Timestamp;

fn reading(t: i16) -> SensorValues {
    SensorValues {
        temperature: Celsius::try_from(t).unwrap(),
        pressure: Pascal::from(1000),
        humidity: RelativeHumidity::try_from(5000).unwrap(),
    }
}

fn addresses(table: &SensorTable) -> Vec<u64> {
    table.snapshot().iter().map(|(a, _)| a.as_u64()).collect()
}

#[test]
fn table_merges_snapshots() {
    let known = vec![BluetoothAddress::from(5), BluetoothAddress::from(2)];
    let mut table = SensorTable::from_known(&known);
    assert_eq!(addresses(&table), vec![2, 5]);
    assert!(table.snapshot().iter().all(|(_, s)| matches!(s, SensorState::Unconnected)));

    table.merge(&vec![
        (BluetoothAddress::from(5), SensorState::Connected(reading(100))),
        (BluetoothAddress::from(9), SensorState::Connected(reading(200))),
    ]);
    assert_eq!(addresses(&table), vec![2, 5, 9]);
    match table.snapshot()[1].1 {
        SensorState::Connected(v) => assert_eq!(v.temperature.value(), 100),
        SensorState::Unconnected => panic!("5 is connected"),
    }
    table.merge(&vec![(BluetoothAddress::from(5), SensorState::Connected(reading(300)))]);
    match table.snapshot()[1].1 {
        SensorState::Connected(v) => assert_eq!(v.temperature.value(), 300),
        SensorState::Unconnected => panic!("5 is connected"),
    }
    assert!(matches!(table.snapshot()[0].1, SensorState::Unconnected));
}

#[test]
fn coordinator_registers_once_and_flushes() {
    let dir = tempfile::tempdir().unwrap();
    let mut db = Db::open(dir.path().to_str().unwrap()).unwrap();
    let a = BluetoothAddress::from(0xA);
    let b = BluetoothAddress::from(0xB);
    let update = vec![
        (a, SensorState::Connected(reading(1000))),
        (b, SensorState::Connected(reading(2000))),
    ];
    assert_eq!(register_new(&mut db, &update).unwrap(), vec![a, b]);
    assert_eq!(register_new(&mut db, &update).unwrap(), vec![]);
    assert_eq!(db.known_addrs().unwrap(), vec![a, b]);

    let mut table = SensorTable::new();
    table.merge(&update);
    table.merge(&vec![(BluetoothAddress::from(0xC), SensorState::Unconnected)]);
    flush(&mut db, &table, Timestamp::from(60)).unwrap();
    assert!(flush(&mut db, &table, Timestamp::from(60)).is_err());
    flush(&mut db, &table, Timestamp::from(120)).unwrap();

    let log = db.get_log(b, Timestamp::from(0), Timestamp::from(1000)).unwrap().unwrap();
    let times: Vec<u32> = log.iter().map(|(t, _)| t.as_u32()).collect();
    assert_eq!(times, vec![60, 120]);
    assert_eq!(log[0].1.temperature.value(), 2000);

    let open = db.write_txn().unwrap();
    assert!(matches!(flush(&mut db, &table, Timestamp::from(180)), Err(DbError::MultipleWriteTransactions)));
    db.abort(open);
}

#[test]
fn store_reopens_with_logs_of_known_addresses() {
    let dir = tempfile::tempdir().unwrap();
    let path = dir.path().to_str().unwrap().to_string();
    let a = BluetoothAddress::from(0x112233445566);
    {
        let mut db = Db::open(&path).unwrap();
        let update = vec![(a, SensorState::Connected(reading(500)))];
        register_new(&mut db, &update).unwrap();
        let mut table = SensorTable::new();
        table.merge(&update);
        flush(&mut db, &table, Timestamp::from(10)).unwrap();
    }
    let db = Db::open(&path).unwrap();
    let log = db.get_log(a, Timestamp::from(0), Timestamp::from(100)).unwrap().unwrap();
    assert_eq!(log.len(), 1);
    assert_eq!(log[0].1.temperature.value(), 500);
}

#[test]
fn unregistered_keeps_order_of_unknown() {
    let update = vec![
        (BluetoothAddress::from(3), SensorState::Unconnected),
        (BluetoothAddress::from(1), SensorState::Connected(reading(0))),
        (BluetoothAddress::from(2), SensorState::Unconnected),
    ];
    assert_eq!(
        unregistered(&update, &vec![false, true, false]),
        vec![BluetoothAddress::from(3), BluetoothAddress::from(2)]
    );
    assert!(unregistered(&update, &vec![true, true, true]).is_empty());
    assert!(register_is_noop_on_empty_update());
}

fn register_is_noop_on_empty_update() -> bool {
    let dir = tempfile::tempdir().unwrap();
    let mut db = Db::open(dir.path().to_str().unwrap()).unwrap();
    register_new(&mut db, &vec![]).unwrap().is_empty()
}
