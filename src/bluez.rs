//! Interpretation of the Bluetooth daemon's objects and the session state
//! machine that discovers, connects and polls weatherstations.
//!
//! The daemon is driven from outside this module: a poll cycle lists the
//! daemon's objects, hands each to [`interpret_object`] and [`Session::on_object`],
//! performs the returned [`Action`], reports the outcome of every daemon call to
//! [`Session::on_call_outcome`], reads the characteristics of the polled
//! stations for [`Session::snapshot`] and waits [`Session::wait_millis`].
use vstd::prelude::*;

use crate::address::{is_address_text, text_value, BluetoothAddress};
use crate::bytes::{le_i16, le_u16, le_u32, read_i16_le, read_u16_le, read_u32_le};
use crate::sensor::{
    raw_error, raw_is_valid, RawSensorValues, SensorError, SensorState, SensorValues,
};
use crate::text::{count_slashes, has_prefix, slash_count, starts_with, str_eq};

verus! {

/// Root of the daemon's object paths; adapters and devices lie below it.
pub const BLUEZ_ROOT: &'static str = "/org/bluez/";

/// The first of the two services that a weatherstation advertises.
pub const BATTERY_SERVICE_UUID: &'static str = "0000180f-0000-1000-8000-00805f9b34fb";

/// The vendor service that a weatherstation advertises.
pub const WEATHERSTATION_SERVICE_UUID: &'static str = "e7364bd3-a1c5-4924-847d-3a9cd6e343ef";

/// Path of the sensing service below a device's path, up to its characteristics.
pub const SERVICE_SUFFIX: &'static str = "/service000a/";

pub const TEMPERATURE_CHARACTERISTIC: &'static str = "char000b";

pub const HUMIDITY_CHARACTERISTIC: &'static str = "char000d";

pub const PRESSURE_CHARACTERISTIC: &'static str = "char000f";

/// Wait between poll cycles, in milliseconds.
pub const LONG_WAIT_MILLIS: u64 = 31000;

/// Wait after a cycle that issued a connect, in milliseconds.
pub const SHORT_WAIT_MILLIS: u64 = 10000;

/// The adapter interface's properties of an object, each present only where it
/// has the expected type.
pub struct AdapterProperties {
    pub discovering: Option<bool>,
}

/// The device interface's properties of an object, each present only where it
/// has the expected type.
pub struct DeviceProperties {
    /// The advertised service UUIDs.
    pub uuids: Option<Vec<String>>,
    pub connected: Option<bool>,
    pub address: Option<String>,
    pub services_resolved: Option<bool>,
}

/// The interfaces of interest that an object exposes.
pub struct ObjectInterfaces {
    pub adapter: Option<AdapterProperties>,
    pub device: Option<DeviceProperties>,
}

/// An object of the daemon that matters here.
#[derive(Debug)]
pub enum BluezObject {
    /// A Bluetooth adapter, named by its path segment.
    Interface { discovering: bool, interface: String },
    /// A device that advertises both weatherstation services.
    WeatherstationDevice { address: BluetoothAddress, connected: bool, services_resolved: bool },
}

/// Mathematical form of a [`BluezObject`].
pub enum ObjectModel {
    Adapter { discovering: bool, interface: Seq<char> },
    Device { address: u64, connected: bool, services_resolved: bool },
}

impl View for BluezObject {
    type V = ObjectModel;

    open spec fn view(&self) -> ObjectModel {
        match self {
            BluezObject::Interface { discovering, interface } => ObjectModel::Adapter {
                discovering: *discovering,
                interface: interface@,
            },
            BluezObject::WeatherstationDevice { address, connected, services_resolved } =>
                ObjectModel::Device {
                address: address.0,
                connected: *connected,
                services_resolved: *services_resolved,
            },
        }
    }
}

/// One of `uuids` is `u`.
pub open spec fn advertises(uuids: Seq<String>, u: Seq<char>) -> bool {
    exists|i: int| 0 <= i < uuids.len() && #[trigger] uuids[i]@ == u
}

/// The part of `path` below the daemon's root.
pub open spec fn below_root(path: Seq<char>) -> Seq<char> {
    path.subrange(BLUEZ_ROOT@.len() as int, path.len() as int)
}

/// What a device's properties make of it: a weatherstation device where it
/// advertises both services and every property needed is present, with an
/// address in text form.
pub open spec fn device_model(d: DeviceProperties) -> Option<ObjectModel> {
    if d.uuids is Some && d.connected is Some && d.address is Some && d.services_resolved is Some
        && advertises(d.uuids->Some_0@, BATTERY_SERVICE_UUID@) && advertises(
        d.uuids->Some_0@,
        WEATHERSTATION_SERVICE_UUID@,
    ) && is_address_text(d.address->Some_0@) {
        Some(
            ObjectModel::Device {
                address: text_value(d.address->Some_0@),
                connected: d.connected->Some_0,
                services_resolved: d.services_resolved->Some_0,
            },
        )
    } else {
        None
    }
}

/// What an object is: one path segment below the root makes an adapter, two
/// make a device, anything else nothing.
pub open spec fn interpretation(path: Seq<char>, o: ObjectInterfaces) -> Option<ObjectModel> {
    if !has_prefix(path, BLUEZ_ROOT@) {
        None
    } else if slash_count(below_root(path)) == 0 {
        if o.adapter is Some && o.adapter->Some_0.discovering is Some {
            Some(
                ObjectModel::Adapter {
                    discovering: o.adapter->Some_0.discovering->Some_0,
                    interface: below_root(path),
                },
            )
        } else {
            None
        }
    } else if slash_count(below_root(path)) == 1 {
        if o.device is Some {
            device_model(o.device->Some_0)
        } else {
            None
        }
    } else {
        None
    }
}

/// A device object below an adapter is an entity only where it advertises both
/// services; where it does, and its properties are present with an address in
/// text form, it is a weatherstation device with exactly those fields.
pub proof fn lemma_object_filter(path: Seq<char>, o: ObjectInterfaces)
    requires
        has_prefix(path, BLUEZ_ROOT@),
        slash_count(below_root(path)) == 1,
        o.device is Some,
    ensures
        o.device->Some_0.uuids is Some && !(advertises(
            o.device->Some_0.uuids->Some_0@,
            BATTERY_SERVICE_UUID@,
        ) && advertises(o.device->Some_0.uuids->Some_0@, WEATHERSTATION_SERVICE_UUID@))
            ==> interpretation(path, o) is None,
        o.device->Some_0.uuids is None ==> interpretation(path, o) is None,
        device_model(o.device->Some_0) is Some ==> interpretation(path, o) == Some(
            ObjectModel::Device {
                address: text_value(o.device->Some_0.address->Some_0@),
                connected: o.device->Some_0.connected->Some_0,
                services_resolved: o.device->Some_0.services_resolved->Some_0,
            },
        ),
        device_model(o.device->Some_0) is Some <==> (o.device->Some_0.uuids is Some
            && o.device->Some_0.connected is Some && o.device->Some_0.address is Some
            && o.device->Some_0.services_resolved is Some && advertises(
            o.device->Some_0.uuids->Some_0@,
            BATTERY_SERVICE_UUID@,
        ) && advertises(o.device->Some_0.uuids->Some_0@, WEATHERSTATION_SERVICE_UUID@)
            && is_address_text(o.device->Some_0.address->Some_0@)),
{
}

fn advertises_exec(uuids: &Vec<String>, u: &str) -> (r: bool)
    ensures
        r == advertises(uuids@, u@),
{
    let mut i: usize = 0;
    while i < uuids.len()
        invariant
            i <= uuids@.len(),
            forall|j: int| 0 <= j < i ==> #[trigger] uuids@[j]@ != u@,
        decreases uuids@.len() - i,
    {
        if str_eq(uuids[i].as_str(), u) {
            return true;
        }
        i = i + 1;
    }
    false
}

fn interpret_device(d: &DeviceProperties) -> (r: Option<BluezObject>)
    ensures
        r matches Some(o) ==> device_model(*d) == Some(o@),
        r is None ==> device_model(*d) is None,
{
    let uuids = match &d.uuids {
        Some(u) => u,
        None => return None,
    };
    let both = advertises_exec(uuids, BATTERY_SERVICE_UUID) && advertises_exec(
        uuids,
        WEATHERSTATION_SERVICE_UUID,
    );
    if !both {
        return None;
    }
    let connected = match d.connected {
        Some(c) => c,
        None => return None,
    };
    let address = match &d.address {
        Some(a) => a,
        None => return None,
    };
    let services_resolved = match d.services_resolved {
        Some(s) => s,
        None => return None,
    };
    match BluetoothAddress::parse_str(address.as_str()) {
        Ok(address) => Some(BluezObject::WeatherstationDevice { address, connected, services_resolved }),
        Err(_) => None,
    }
}

/// Classifies an object of the daemon by its path and interfaces.
pub fn interpret_object(object_path: &str, interfaces: &ObjectInterfaces) -> (r: Option<BluezObject>)
    ensures
        r matches Some(o) ==> interpretation(object_path@, *interfaces) == Some(o@),
        r is None ==> interpretation(object_path@, *interfaces) is None,
{
    if !starts_with(object_path, BLUEZ_ROOT) {
        return None;
    }
    let rest = object_path.substring_char(BLUEZ_ROOT.unicode_len(), object_path.unicode_len());
    let segments = count_slashes(rest);
    if segments == 0 {
        match &interfaces.adapter {
            Some(a) => match a.discovering {
                Some(discovering) => {
                    let interface = rest.to_owned();
                    Some(BluezObject::Interface { discovering, interface })
                },
                None => None,
            },
            None => None,
        }
    } else if segments == 1 {
        match &interfaces.device {
            Some(d) => interpret_device(d),
            None => None,
        }
    } else {
        None
    }
}

/// Path of a characteristic of the sensing service of a device.
pub open spec fn characteristic_path(device: Seq<char>, characteristic: Seq<char>) -> Seq<char> {
    device + SERVICE_SUFFIX@ + characteristic
}

/// A connected weatherstation and the paths of its three characteristics.
#[derive(Debug)]
pub struct Weatherstation {
    pub address: BluetoothAddress,
    pub device_path: String,
    pub temperature_path: String,
    pub humidity_path: String,
    pub pressure_path: String,
}

/// Why the bytes of a station's characteristics are no reading.
#[derive(Clone, Copy, Debug, PartialEq, Eq, Structural)]
pub enum ReadError {
    /// A characteristic holds fewer bytes than its integer needs.
    Truncated,
    /// The integers lie outside the physical range of their quantities.
    Invalid(SensorError),
}

/// The raw integers that the bytes of the temperature, pressure and humidity
/// characteristics hold, where each is long enough.
pub open spec fn raw_of_bytes(temperature: Seq<u8>, pressure: Seq<u8>, humidity: Seq<u8>) -> Option<
    RawSensorValues,
> {
    if temperature.len() < 2 || pressure.len() < 4 || humidity.len() < 2 {
        None
    } else {
        Some(
            RawSensorValues {
                temperature: le_i16(temperature) as i16,
                humidity: le_u16(humidity) as u16,
                pressure: le_u32(pressure) as u32,
            },
        )
    }
}

/// The outcome of decoding the bytes of the three characteristics.
pub open spec fn reading_of_bytes(temperature: Seq<u8>, pressure: Seq<u8>, humidity: Seq<u8>) -> Result<
    RawSensorValues,
    ReadError,
> {
    match raw_of_bytes(temperature, pressure, humidity) {
        None => Err(ReadError::Truncated),
        Some(raw) => if raw_is_valid(raw) {
            Ok(raw)
        } else {
            Err(ReadError::Invalid(raw_error(raw)))
        },
    }
}

impl Weatherstation {
    /// The paths a station's characteristics have are fixed by its device's path.
    pub open spec fn wf(self) -> bool {
        &&& self.temperature_path@ == characteristic_path(
            self.device_path@,
            TEMPERATURE_CHARACTERISTIC@,
        )
        &&& self.humidity_path@ == characteristic_path(self.device_path@, HUMIDITY_CHARACTERISTIC@)
        &&& self.pressure_path@ == characteristic_path(self.device_path@, PRESSURE_CHARACTERISTIC@)
    }

    pub fn from_device_path(address: BluetoothAddress, device_path: &str) -> (r: Weatherstation)
        ensures
            r.wf(),
            r.address == address,
            r.device_path@ == device_path@,
    {
        Weatherstation {
            pressure_path: env_sensing_chr(device_path, PRESSURE_CHARACTERISTIC),
            humidity_path: env_sensing_chr(device_path, HUMIDITY_CHARACTERISTIC),
            temperature_path: env_sensing_chr(device_path, TEMPERATURE_CHARACTERISTIC),
            address,
            device_path: device_path.to_owned(),
        }
    }

    /// Decodes the bytes read from the temperature (signed 16 bits), pressure
    /// (unsigned 32 bits) and humidity (unsigned 16 bits) characteristics,
    /// little-endian, and validates them.
    pub fn read_values(temperature: &[u8], pressure: &[u8], humidity: &[u8]) -> (r: Result<
        SensorValues,
        ReadError,
    >)
        ensures
            r is Ok <==> reading_of_bytes(temperature@, pressure@, humidity@) is Ok,
            r matches Ok(v) ==> reading_of_bytes(temperature@, pressure@, humidity@) == Ok::<
                RawSensorValues,
                ReadError,
            >(v.raw()),
            r matches Err(e) ==> reading_of_bytes(temperature@, pressure@, humidity@) == Err::<
                RawSensorValues,
                ReadError,
            >(e),
    {
        if temperature.len() < 2 || pressure.len() < 4 || humidity.len() < 2 {
            return Err(ReadError::Truncated);
        }
        let raw = RawSensorValues {
            temperature: read_i16_le(temperature),
            humidity: read_u16_le(humidity),
            pressure: read_u32_le(pressure),
        };
        match SensorValues::try_from(raw) {
            Ok(v) => Ok(v),
            Err(e) => Err(ReadError::Invalid(e)),
        }
    }
}

/// Path of `characteristic` of the sensing service below `device_path`.
fn env_sensing_chr(device_path: &str, characteristic: &str) -> (r: String)
    ensures
        r@ == characteristic_path(device_path@, characteristic@),
{
    let mut path = device_path.to_owned();
    crate::text::push_str(&mut path, SERVICE_SUFFIX);
    crate::text::push_str(&mut path, characteristic);
    path
}

/// What a poll cycle does about one object.
#[derive(Debug, PartialEq, Eq, Structural)]
pub enum Action {
    /// Start discovery on the adapter at the object's path.
    StartDiscovery,
    /// Connect the device at the object's path.
    Connect(BluetoothAddress),
    /// The device was added to the polled stations.
    Track(BluetoothAddress),
    Nothing,
}

/// A call to the daemon whose outcome the session is told of.
#[derive(Clone, Copy, Debug, PartialEq, Eq, Structural)]
pub enum DaemonCall {
    ListObjects,
    StartDiscovery,
    Connect,
    ReadCharacteristic,
    Disconnect,
}

/// How a call to the daemon ended.
#[derive(Clone, Copy, Debug, PartialEq, Eq, Structural)]
pub enum CallOutcome {
    Done,
    /// The daemon answered with a refusal of the method.
    Refused,
    /// The call itself failed: the daemon is unreachable or the transport broke.
    Failed,
}

/// Where the poll loop stands.
#[derive(Clone, Copy, Debug, PartialEq, Eq, Structural)]
pub enum LoopStatus {
    Running,
    /// Asked to stop: the polled stations are being disconnected.
    Stopping,
    /// Ended by a fatal error.
    Failed,
}

/// What the loop does after a call's outcome.
#[derive(Clone, Copy, Debug, PartialEq, Eq, Structural)]
pub enum Step {
    Proceed,
    /// The loop ends with an error now: fire the fatal-error signal.
    SignalFatal,
    /// The loop had already ended with an error: nothing more to do.
    Halted,
}

/// A refused connect is tolerated and retried next cycle; any other refusal or
/// failure ends the loop.
pub open spec fn is_fatal(call: DaemonCall, outcome: CallOutcome) -> bool {
    match outcome {
        CallOutcome::Done => false,
        CallOutcome::Refused => call != DaemonCall::Connect,
        CallOutcome::Failed => true,
    }
}

pub open spec fn step_of(status: LoopStatus, call: DaemonCall, outcome: CallOutcome) -> Step {
    if status == LoopStatus::Failed {
        Step::Halted
    } else if is_fatal(call, outcome) {
        Step::SignalFatal
    } else {
        Step::Proceed
    }
}

pub open spec fn next_status(status: LoopStatus, call: DaemonCall, outcome: CallOutcome) -> LoopStatus {
    if is_fatal(call, outcome) {
        LoopStatus::Failed
    } else {
        status
    }
}

/// Once a call's outcome has fired the fatal-error signal, no later outcome
/// fires it again.
pub proof fn lemma_fatal_signal_fires_once(
    status: LoopStatus,
    call: DaemonCall,
    outcome: CallOutcome,
    later_call: DaemonCall,
    later_outcome: CallOutcome,
)
    ensures
        step_of(status, call, outcome) == Step::SignalFatal ==> step_of(
            next_status(status, call, outcome),
            later_call,
            later_outcome,
        ) == Step::Halted,
{
}

/// Addresses of a sequence of stations.
pub open spec fn station_addresses(s: Seq<Weatherstation>) -> Seq<u64> {
    s.map_values(|w: Weatherstation| w.address.0)
}

pub open spec fn strictly_ascending(s: Seq<u64>) -> bool {
    forall|i: int, j: int| 0 <= i < j < s.len() ==> s[i] < s[j]
}

/// The bytes read from a station's three characteristics.
pub struct CharacteristicValues {
    pub temperature: Vec<u8>,
    pub pressure: Vec<u8>,
    pub humidity: Vec<u8>,
}

/// Address and raw reading of each station, in order, whose bytes decode to a
/// valid reading; the others are left out.
pub open spec fn snapshot_model(addresses: Seq<u64>, values: Seq<CharacteristicValues>) -> Seq<
    (u64, RawSensorValues),
>
    decreases addresses.len(),
{
    if addresses.len() == 0 || values.len() == 0 {
        seq![]
    } else {
        let earlier = snapshot_model(addresses.drop_last(), values.drop_last());
        let v = values.last();
        match reading_of_bytes(v.temperature@, v.pressure@, v.humidity@) {
            Ok(raw) => earlier.push((addresses.last(), raw)),
            Err(_) => earlier,
        }
    }
}

/// Address and raw reading of each entry of a snapshot; `None` for a sensor
/// that is not connected.
pub open spec fn snapshot_entries(s: Seq<(BluetoothAddress, SensorState)>) -> Seq<
    (u64, Option<RawSensorValues>),
> {
    s.map_values(
        |e: (BluetoothAddress, SensorState)|
            (
                e.0.0,
                match e.1 {
                    SensorState::Connected(v) => Some(v.raw()),
                    SensorState::Unconnected => None,
                },
            ),
    )
}

pub open spec fn as_connected(s: Seq<(u64, RawSensorValues)>) -> Seq<(u64, Option<RawSensorValues>)> {
    s.map_values(|e: (u64, RawSensorValues)| (e.0, Some(e.1)))
}

/// State of the poll loop: the polled stations, whether this cycle issued a
/// connect, and whether the loop runs.
pub struct Session {
    stations: Vec<Weatherstation>,
    connect_issued: bool,
    status: LoopStatus,
}

impl Session {
    /// Stations are polled once each, in ascending address order, each with
    /// the characteristic paths of its device.
    pub open spec fn wf(self) -> bool {
        &&& strictly_ascending(station_addresses(self.polled()))
        &&& forall|i: int| 0 <= i < self.polled().len() ==> (#[trigger] self.polled()[i]).wf()
    }

    /// The polled stations, in ascending address order.
    pub closed spec fn polled(self) -> Seq<Weatherstation> {
        self.stations@
    }

    pub closed spec fn connect_issued(self) -> bool {
        self.connect_issued
    }

    pub closed spec fn status(self) -> LoopStatus {
        self.status
    }

    pub fn new() -> (r: Session)
        ensures
            r.wf(),
            r.polled().len() == 0,
            !r.connect_issued(),
            r.status() == LoopStatus::Running,
    {
        Session { stations: Vec::new(), connect_issued: false, status: LoopStatus::Running }
    }

    /// Starts a poll cycle.
    pub fn begin_cycle(&mut self)
        requires
            old(self).wf(),
        ensures
            final(self).wf(),
            final(self).polled() == old(self).polled(),
            !final(self).connect_issued(),
            final(self).status() == old(self).status(),
    {
        self.connect_issued = false;
    }

    pub fn is_polled(&self, address: BluetoothAddress) -> (r: bool)
        ensures
            r == station_addresses(self.polled()).contains(address.0),
    {
        let mut i: usize = 0;
        while i < self.stations.len()
            invariant
                i <= self.stations@.len(),
                forall|j: int| 0 <= j < i ==> #[trigger] self.stations@[j].address.0 != address.0,
            decreases self.stations@.len() - i,
        {
            if self.stations[i].address.0 == address.0 {
                assert(station_addresses(self.stations@)[i as int] == address.0);
                return true;
            }
            i = i + 1;
        }
        proof {
            if station_addresses(self.stations@).contains(address.0) {
                let k = choose|k: int|
                    0 <= k < station_addresses(self.stations@).len() && station_addresses(
                        self.stations@,
                    )[k] == address.0;
                assert(self.stations@[k].address.0 == address.0);
            }
        }
        false
    }

    /// Decides what to do about one object this cycle. An adapter that is not
    /// discovering is told to start; a weatherstation that is not connected is
    /// connected; one whose services are resolved and that is not yet polled is
    /// polled from now on.
    pub fn on_object(&mut self, object_path: &str, object: &BluezObject) -> (r: Action)
        requires
            old(self).wf(),
        ensures
            final(self).wf(),
            final(self).status() == old(self).status(),
            match object@ {
                ObjectModel::Adapter { discovering, .. } => {
                    &&& r == (if discovering {
                        Action::Nothing
                    } else {
                        Action::StartDiscovery
                    })
                    &&& final(self).polled() == old(self).polled()
                    &&& final(self).connect_issued() == old(self).connect_issued()
                },
                ObjectModel::Device { address, connected, services_resolved } => {
                    if !connected {
                        &&& r == Action::Connect(BluetoothAddress(address))
                        &&& final(self).polled() == old(self).polled()
                        &&& final(self).connect_issued()
                    } else if services_resolved && !station_addresses(old(self).polled()).contains(
                        address,
                    ) {
                        &&& r == Action::Track(BluetoothAddress(address))
                        &&& final(self).connect_issued() == old(self).connect_issued()
                        &&& exists|i: int|
                            0 <= i <= old(self).polled().len() && final(self).polled().remove(i)
                                == old(self).polled() && (#[trigger] final(self).polled()[i]).address.0
                                == address && final(self).polled()[i].device_path@ == object_path@
                    } else {
                        &&& r == Action::Nothing
                        &&& final(self).polled() == old(self).polled()
                        &&& final(self).connect_issued() == old(self).connect_issued()
                    }
                },
            },
    {
        match object {
            BluezObject::Interface { discovering, .. } => {
                if *discovering {
                    Action::Nothing
                } else {
                    Action::StartDiscovery
                }
            },
            BluezObject::WeatherstationDevice { address, connected, services_resolved } => {
                if !*connected {
                    self.connect_issued = true;
                    Action::Connect(*address)
                } else if *services_resolved && !self.is_polled(*address) {
                    let ws = Weatherstation::from_device_path(*address, object_path);
                    self.insert_station(ws);
                    Action::Track(*address)
                } else {
                    Action::Nothing
                }
            },
        }
    }

    /// Inserts a station whose address is not polled, keeping the order.
    fn insert_station(&mut self, ws: Weatherstation)
        requires
            old(self).wf(),
            ws.wf(),
            !station_addresses(old(self).polled()).contains(ws.address.0),
        ensures
            final(self).wf(),
            final(self).status() == old(self).status(),
            final(self).connect_issued() == old(self).connect_issued(),
            exists|i: int|
                0 <= i <= old(self).polled().len() && final(self).polled().remove(i)
                    == old(self).polled() && #[trigger] final(self).polled()[i] == ws,
    {
        let ghost before = self.stations@;
        let mut i: usize = 0;
        while i < self.stations.len() && self.stations[i].address.0 < ws.address.0
            invariant
                self.stations@ == before,
                i <= before.len(),
                forall|j: int| 0 <= j < i ==> #[trigger] before[j].address.0 < ws.address.0,
            decreases before.len() - i,
        {
            i = i + 1;
        }
        proof {
            let a = station_addresses(before);
            assert forall|j: int| i <= j < before.len() implies ws.address.0 < #[trigger] before[j].address.0 by {
                assert(a[j] == before[j].address.0);
                if before[j].address.0 == ws.address.0 {
                    assert(a.contains(ws.address.0));
                }
                if j > i {
                    assert(a[i as int] < a[j]);
                }
            }
        }
        let ghost w = ws;
        self.stations.insert(i, ws);
        proof {
            let s = self.stations@;
            assert(s.remove(i as int) =~= before);
            let a = station_addresses(s);
            assert forall|x: int, y: int| 0 <= x < y < a.len() implies a[x] < a[y] by {
                let b = station_addresses(before);
                if y < i {
                    assert(a[x] == b[x] && a[y] == b[y]);
                } else if y == i {
                    assert(a[y] == w.address.0);
                    assert(a[x] == before[x].address.0);
                } else if x < i {
                    assert(a[x] == before[x].address.0);
                    assert(a[y] == before[y - 1].address.0);
                } else if x == i {
                    assert(a[y] == before[y - 1].address.0);
                } else {
                    assert(a[x] == b[x - 1] && a[y] == b[y - 1]);
                }
            }
            assert forall|j: int| 0 <= j < s.len() implies (#[trigger] s[j]).wf() by {
                if j < i {
                    assert(s[j] == before[j]);
                } else if j > i {
                    assert(s[j] == before[j - 1]);
                }
            }
            assert(s[i as int] == w);
            assert(self.polled()[i as int] == w);
            assert(self.polled().remove(i as int) == before);
        }
    }

    /// Takes the outcome of a call to the daemon. The first fatal outcome ends
    /// the loop and asks for the fatal-error signal; after that every outcome
    /// is ignored.
    pub fn on_call_outcome(&mut self, call: DaemonCall, outcome: CallOutcome) -> (r: Step)
        requires
            old(self).wf(),
        ensures
            final(self).wf(),
            r == step_of(old(self).status(), call, outcome),
            final(self).status() == next_status(old(self).status(), call, outcome),
            final(self).polled() == old(self).polled(),
            final(self).connect_issued() == old(self).connect_issued(),
    {
        let fatal = match outcome {
            CallOutcome::Done => false,
            CallOutcome::Refused => match call {
                DaemonCall::Connect => false,
                _ => true,
            },
            CallOutcome::Failed => true,
        };
        let r = match self.status {
            LoopStatus::Failed => Step::Halted,
            _ => if fatal {
                Step::SignalFatal
            } else {
                Step::Proceed
            },
        };
        if fatal {
            self.status = LoopStatus::Failed;
        }
        r
    }

    /// The stop signal arrived: the loop disconnects the polled stations, in
    /// order, and ends. A failed disconnect is fatal and ends the loop at once,
    /// leaving the remaining stations connected.
    pub fn stop(&mut self)
        requires
            old(self).wf(),
        ensures
            final(self).wf(),
            final(self).status() == (if old(self).status() == LoopStatus::Failed {
                LoopStatus::Failed
            } else {
                LoopStatus::Stopping
            }),
            final(self).polled() == old(self).polled(),
            final(self).connect_issued() == old(self).connect_issued(),
    {
        if self.status != LoopStatus::Failed {
            self.status = LoopStatus::Stopping;
        }
    }

    pub fn status_now(&self) -> (r: LoopStatus)
        ensures
            r == self.status(),
    {
        self.status
    }

    /// The polled stations, in ascending address order: those to read each
    /// cycle and to disconnect on stop.
    pub fn stations(&self) -> (r: &Vec<Weatherstation>)
        ensures
            r@ == self.polled(),
    {
        &self.stations
    }

    /// Milliseconds to wait before the next cycle: the nominal wait, short after
    /// a cycle that issued a connect, less the time the cycle took.
    pub fn wait_millis(&self, elapsed_millis: u64) -> (r: u64)
        ensures
            r == (if self.connect_issued() {
                if elapsed_millis <= SHORT_WAIT_MILLIS {
                    SHORT_WAIT_MILLIS - elapsed_millis
                } else {
                    0
                }
            } else {
                if elapsed_millis <= LONG_WAIT_MILLIS {
                    LONG_WAIT_MILLIS - elapsed_millis
                } else {
                    0
                }
            }),
    {
        let nominal = if self.connect_issued {
            SHORT_WAIT_MILLIS
        } else {
            LONG_WAIT_MILLIS
        };
        if elapsed_millis <= nominal {
            nominal - elapsed_millis
        } else {
            0
        }
    }

    /// The cycle's snapshot from the bytes read for each polled station, in the
    /// same order: a connected state for each station whose bytes decode.
    pub fn snapshot(&self, values: &Vec<CharacteristicValues>) -> (r: Vec<(BluetoothAddress, SensorState)>)
        requires
            values@.len() == self.polled().len(),
        ensures
            snapshot_entries(r@) == as_connected(
                snapshot_model(station_addresses(self.polled()), values@),
            ),
    {
        let ghost addresses = station_addresses(self.stations@);
        let mut out: Vec<(BluetoothAddress, SensorState)> = Vec::new();
        let mut i: usize = 0;
        while i < values.len()
            invariant
                values@.len() == self.stations@.len() == addresses.len(),
                addresses == station_addresses(self.stations@),
                i <= values@.len(),
                snapshot_entries(out@) == as_connected(
                    snapshot_model(addresses.take(i as int), values@.take(i as int)),
                ),
            decreases values@.len() - i,
        {
            let v = &values[i];
            let read = Weatherstation::read_values(
                v.temperature.as_slice(),
                v.pressure.as_slice(),
                v.humidity.as_slice(),
            );
            proof {
                assert(addresses.take(i + 1).drop_last() =~= addresses.take(i as int));
                assert(values@.take(i + 1).drop_last() =~= values@.take(i as int));
                assert(addresses.take(i + 1).last() == self.stations@[i as int].address.0);
            }
            let ghost before = out@;
            match read {
                Ok(sv) => {
                    out.push((self.stations[i].address, SensorState::Connected(sv)));
                    proof {
                        assert(snapshot_entries(out@) =~= snapshot_entries(before).push(
                            (self.stations@[i as int].address.0, Some(sv.raw())),
                        ));
                        assert(as_connected(
                            snapshot_model(addresses.take(i + 1), values@.take(i + 1)),
                        ) =~= as_connected(
                            snapshot_model(addresses.take(i as int), values@.take(i as int)),
                        ).push((self.stations@[i as int].address.0, Some(sv.raw()))));
                    }
                },
                Err(_) => {},
            }
            i = i + 1;
        }
        proof {
            assert(addresses.take(values@.len() as int) =~= addresses);
            assert(values@.take(values@.len() as int) =~= values@);
        }
        out
    }
}

} // verus!
