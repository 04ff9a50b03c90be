use ble_weatherstation::address::BluetoothAddress;
use ble_weatherstation::db::{AddrDbEntry, Db, DbError};
use ble_weatherstation::sensor::{Celsius, Pascal, RelativeHumidity, SensorValues};
use ble_weatherstation::timestamp::Timestamp;

fn fresh_dir() -> tempfile::TempDir {
    tempfile::tempdir().unwrap()
}

fn path_of(dir: &tempfile::TempDir) -> String {
    dir.path().to_str().unwrap().to_string()
}

fn values(t: i16, p: u32, h: u16) -> SensorValues {
    SensorValues {
        temperature: Celsius::try_from(t).unwrap(),
        pressure: Pascal::from(p),
        humidity: RelativeHumidity::try_from(h).unwrap(),
    }
}

fn register(db: &mut Db, addr: BluetoothAddress) {
    let mut txn = db.write_txn().unwrap();
    db.put_addr(&mut txn, addr, &AddrDbEntry::default());
    db.commit(txn).unwrap();
}

#[test]
fn second_write_transaction_is_refused() {
    let dir = fresh_dir();
    let mut db = Db::open(&path_of(&dir)).unwrap();
    let first = db.write_txn().unwrap();
    assert!(matches!(db.write_txn(), Err(DbError::MultipleWriteTransactions)));
    assert!(matches!(db.log_txn(), Err(DbError::MultipleWriteTransactions)));
    db.commit(first).unwrap();
    let second = db.write_txn().unwrap();
    assert!(matches!(db.write_txn(), Err(DbError::MultipleWriteTransactions)));
    db.abort(second);
    let third = db.log_txn().unwrap();
    db.abort(third);
}

#[test]
fn log_appends_must_increase() {
    let dir = fresh_dir();
    let mut db = Db::open(&path_of(&dir)).unwrap();
    let addr = BluetoothAddress::parse_str("00:11:22:33:44:55").unwrap();
    register(&mut db, addr);

    let mut txn = db.log_txn().unwrap();
    txn.log(addr, Timestamp::from(10), values(100, 1000, 1000));
    txn.log(addr, Timestamp::from(20), values(200, 2000, 2000));
    db.commit(txn).unwrap();

    let mut txn = db.log_txn().unwrap();
    txn.log(addr, Timestamp::from(20), values(300, 3000, 3000));
    assert!(matches!(db.commit(txn), Err(DbError::Heed(_))));

    let mut txn = db.log_txn().unwrap();
    txn.log(addr, Timestamp::from(5), values(300, 3000, 3000));
    assert!(db.commit(txn).is_err());

    let log = db.get_log(addr, Timestamp::from(10), Timestamp::from(21)).unwrap().unwrap();
    let times: Vec<u32> = log.iter().map(|(t, _)| t.as_u32()).collect();
    assert_eq!(times, vec![10, 20]);
    assert_eq!(log[1].1.temperature.value(), 200);
}

#[test]
fn store_end_to_end() {
    let dir = fresh_dir();
    let mut db = Db::open(&path_of(&dir)).unwrap();
    let addr = BluetoothAddress::parse_str("AA:BB:CC:DD:EE:FF").unwrap();
    assert!(db.get_log(addr, Timestamp::from(0), Timestamp::from(1000)).unwrap().is_none());
    register(&mut db, addr);

    let mut txn = db.log_txn().unwrap();
    txn.log(addr, Timestamp::from(100), values(1000, 10000, 1000));
    txn.log(addr, Timestamp::from(200), values(2000, 20000, 2000));
    txn.log(addr, Timestamp::from(300), values(3000, 30000, 3000));
    db.commit(txn).unwrap();

    let log = db.get_log(addr, Timestamp::from(150), Timestamp::from(300)).unwrap().unwrap();
    assert_eq!(log.len(), 1);
    assert_eq!(log[0].0.as_u32(), 200);
    assert_eq!(log[0].1.temperature.value(), 2000);
    assert_eq!(log[0].1.pressure.value(), 20000);
    assert_eq!(log[0].1.humidity.value(), 2000);

    let known = db.known_addrs().unwrap();
    assert_eq!(known, vec![addr]);
    assert!(db.get_addr(addr).unwrap().unwrap().label.is_none());

    let mut txn = db.write_txn().unwrap();
    db.delete_addr(&mut txn, addr);
    db.commit(txn).unwrap();
    assert!(db.get_addr(addr).unwrap().is_none());
    assert!(db.known_addrs().unwrap().is_empty());
    let log = db.get_log(addr, Timestamp::from(0), Timestamp::from(1000)).unwrap().unwrap();
    let times: Vec<u32> = log.iter().map(|(t, _)| t.as_u32()).collect();
    assert_eq!(times, vec![100, 200, 300]);
}

#[test]
fn labels_and_order_persist() {
    let dir = fresh_dir();
    let mut db = Db::open(&path_of(&dir)).unwrap();
    let high = BluetoothAddress::from(0x0100);
    let low = BluetoothAddress::from(0x00FF);
    let mut txn = db.write_txn().unwrap();
    db.put_addr(&mut txn, high, &AddrDbEntry { label: Some("garden".to_string()) });
    db.put_addr(&mut txn, low, &AddrDbEntry { label: None });
    db.commit(txn).unwrap();
    assert_eq!(db.known_addrs().unwrap(), vec![low, high]);
    assert_eq!(db.get_addr(high).unwrap().unwrap().label, Some("garden".to_string()));

    let mut txn = db.write_txn().unwrap();
    db.put_addr(&mut txn, low, &AddrDbEntry { label: Some("x".to_string()) });
    db.abort(txn);
    assert!(db.get_addr(low).unwrap().unwrap().label.is_none());
}

#[test]
fn logs_of_unknown_addresses_are_skipped() {
    let dir = fresh_dir();
    let mut db = Db::open(&path_of(&dir)).unwrap();
    let addr = BluetoothAddress::from(7);
    let mut txn = db.log_txn().unwrap();
    txn.log(addr, Timestamp::from(1), values(0, 0, 0));
    db.commit(txn).unwrap();
    assert!(db.get_log(addr, Timestamp::from(0), Timestamp::from(10)).unwrap().is_none());
}

#[test]
fn timestamp_bottoming_sub() {
    assert_eq!(Timestamp::from(10).bottoming_sub(Timestamp::from(3)).as_u32(), 7);
    assert_eq!(Timestamp::from(3).bottoming_sub(Timestamp::from(10)).as_u32(), 0);
}

#[test]
fn repeated_time_in_one_transaction_fails() {
    let dir = fresh_dir();
    let mut db = Db::open(&path_of(&dir)).unwrap();
    let addr = BluetoothAddress::from(0x42);
    register(&mut db, addr);
    let mut txn = db.log_txn().unwrap();
    txn.log(addr, Timestamp::from(50), values(1, 1, 1));
    txn.log(addr, Timestamp::from(50), values(2, 2, 2));
    assert!(matches!(db.commit(txn), Err(DbError::Heed(_))));
    assert!(db.get_log(addr, Timestamp::from(0), Timestamp::from(100)).unwrap().unwrap().is_empty());
    assert!(db.write_txn().is_ok());
}
