//! Gateway library for Bluetooth Low-Energy weatherstation sensors: address and
//! sensor value codecs, interpretation of the Bluetooth daemon's objects, the
//! session state machine that drives discovery and connection, and the storage
//! engine that records readings as a per-device time series.
pub mod address;
pub mod bluez;
pub mod bytes;
pub mod coordinator;
pub mod db;
pub mod dummy;
pub mod sensor;
pub mod text;
pub mod timestamp;
