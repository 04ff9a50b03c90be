use ble_weatherstation::address::{AddressParseError, BluetoothAddress};

const EXAMPLE_BLUETOOTH_ADDR: &str = "00:11:22:33:FF:EE";

#[test]
fn bluetooth_address_parse_roundtrip() {
    let addr = EXAMPLE_BLUETOOTH_ADDR.parse::<BluetoothAddress>().unwrap();
    assert_eq!(addr.to_string(), EXAMPLE_BLUETOOTH_ADDR.to_owned())
}

#[test]
fn address_parse_value() {
    let addr = BluetoothAddress::parse_str("AA:BB:CC:DD:EE:FF").unwrap();
    assert_eq!(addr.as_u64(), 0xAABBCCDDEEFF);
    let lower = BluetoothAddress::parse_str("aa:bb:cc:dd:ee:0f").unwrap();
    assert_eq!(lower.as_u64(), 0xAABBCCDDEE0F);
    assert_eq!(lower.to_string(), "AA:BB:CC:DD:EE:0F");
}

#[test]
fn address_format_value() {
    assert_eq!(BluetoothAddress::from(0).to_string(), "00:00:00:00:00:00");
    assert_eq!(BluetoothAddress::from(0x0123456789AB).to_string(), "01:23:45:67:89:AB");
}

#[test]
fn address_parse_errors() {
    assert_eq!(BluetoothAddress::parse_str(""), Err(AddressParseError::Length));
    assert_eq!(BluetoothAddress::parse_str("00:11:22:33:FF"), Err(AddressParseError::Length));
    assert_eq!(BluetoothAddress::parse_str("00:11:22:33:FF:EE:"), Err(AddressParseError::Length));
    assert_eq!(BluetoothAddress::parse_str("00:11:22:33:FF:EG"), Err(AddressParseError::Octet));
    assert_eq!(BluetoothAddress::parse_str("00-11:22:33:FF:EE"), Err(AddressParseError::Octet));
    assert_eq!(BluetoothAddress::parse_str("+0:11:22:33:FF:EE"), Err(AddressParseError::Octet));
}

#[test]
fn address_order_is_numeric() {
    let a = BluetoothAddress::parse_str("00:00:00:00:01:00").unwrap();
    let b = BluetoothAddress::parse_str("00:00:00:00:00:FF").unwrap();
    assert!(b < a);
}
