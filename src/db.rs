//! The storage engine: an address registry and one append-only log per known
//! address, in an LMDB environment, with a single writer at a time.
//!
//! A write transaction collects its changes and hands them to the backend in
//! one LMDB transaction when it is committed; aborting it drops them. The log of
//! an address is opened the first time the address is registered, and stays
//! open when its registry entry is deleted.
use vstd::prelude::*;

use heed::byteorder::BigEndian;
use heed::types::{ByteSlice, OwnedType, SerdeBincode};
use heed::zerocopy::{U32, U64};
use std::collections::BTreeMap;

use crate::address::BluetoothAddress;
use crate::bytes::{le_i16, le_u16, le_u32, read_i16_le, read_u16_le, read_u32_le};
use crate::sensor::{raw_is_valid, RawSensorValues, SensorValues};
use crate::timestamp::Timestamp;

verus! {

#[verifier::external_type_specification]
#[verifier::external_body]
pub struct ExHeedError(heed::Error);

/// Most databases the environment holds: the registry and the logs.
pub const MAX_DBS: u32 = 200;

/// Name of the registry's database.
pub const REGISTRY_NAME: &'static str = "addr";

/// The LMDB environment, its registry (big-endian address to label) and the
/// logs opened so far (big-endian seconds to an encoded reading), by address.
///
/// heed panics where a database handle meets a transaction of another
/// environment, a pairing that contracts cannot state; so the environment, its
/// handles and its transactions stay together inside this struct and
/// [`BackendTxn`], and only the addresses of the open logs are visible.
#[verifier::external_body]
pub struct Backend {
    env: heed::Env,
    registry: heed::Database<OwnedType<U64<BigEndian>>, SerdeBincode<Option<String>>>,
    logs: BTreeMap<u64, heed::Database<OwnedType<U32<BigEndian>>, ByteSlice>>,
}

/// An LMDB write transaction on a [`Backend`].
#[verifier::external_body]
pub struct BackendTxn<'a> {
    txn: heed::RwTxn<'a, 'a>,
    backend: &'a Backend,
}

/// The addresses whose logs a backend has open.
pub uninterp spec fn open_logs(b: Backend) -> Set<u64>;

/// The addresses whose logs are open in the backend of a write transaction.
pub uninterp spec fn txn_logs(t: BackendTxn) -> Set<u64>;

/// A write that an LMDB transaction holds.
pub enum BackendWrite {
    /// The registry's label of an address.
    Put(u64, Option<Seq<char>>),
    /// Removal of an address from the registry.
    Delete(u64),
    /// An entry at the end of the log of an address: time and bytes.
    Append(u64, u32, Seq<u8>),
}

/// The writes that a write transaction holds so far, in the order made.
pub uninterp spec fn txn_writes(t: BackendTxn) -> Seq<BackendWrite>;

/// Within `w`, the times appended to each log ascend strictly.
pub open spec fn appends_increase(w: Seq<BackendWrite>) -> bool {
    forall|i: int, j: int|
        0 <= i < j < w.len() ==> match (#[trigger] w[i], #[trigger] w[j]) {
            (BackendWrite::Append(a, s, _), BackendWrite::Append(b, t, _)) => a == b ==> s < t,
            _ => true,
        }
}

pub open spec fn strictly_ascending_u64(s: Seq<u64>) -> bool {
    forall|i: int, j: int| 0 <= i < j < s.len() ==> s[i] < s[j]
}

/// Keys of log entries lie in `[start, end)` and ascend strictly.
pub open spec fn entries_in_range(e: Seq<(u32, Seq<u8>)>, start: u32, end: u32) -> bool {
    &&& forall|i: int| 0 <= i < e.len() ==> start <= (#[trigger] e[i]).0 < end
    &&& forall|i: int, j: int| 0 <= i < j < e.len() ==> (#[trigger] e[i]).0 < (#[trigger] e[j]).0
}

impl Backend {
    /// Relies on heed's `EnvOpenOptions::open` and `Env::create_database`: opens
    /// the environment in the directory `path` and its registry; no log is open.
    /// Building the C path or name panics on a NUL character.
    #[verifier::external_body]
    fn open(path: &str, max_dbs: u32, registry_name: &str) -> (r: Result<Backend, heed::Error>)
        requires
            !path@.contains('\0'),
            !registry_name@.contains('\0'),
        ensures
            r matches Ok(b) ==> open_logs(b) == Set::<u64>::empty(),
    {
        let env = heed::EnvOpenOptions::new().max_dbs(max_dbs).open(path)?;
        let registry = env.create_database(Some(registry_name))?;
        Ok(Backend { env, registry, logs: BTreeMap::new() })
    }

    /// Relies on heed's `Env::create_database`: opens or creates the database
    /// `name` in a transaction of its own and keeps it as the log of `address`.
    /// Building the C name panics on a NUL character.
    #[verifier::external_body]
    fn create_log(&mut self, address: u64, name: &str) -> (r: Result<(), heed::Error>)
        requires
            !name@.contains('\0'),
        ensures
            r is Ok ==> open_logs(*final(self)) == open_logs(*old(self)).insert(address),
            r is Err ==> open_logs(*final(self)) == open_logs(*old(self)),
    {
        let db = self.env.create_database(Some(name))?;
        self.logs.insert(address, db);
        Ok(())
    }

    /// Relies on `BTreeMap::contains_key` over the open logs.
    #[verifier::external_body]
    fn has_log(&self, address: u64) -> (r: bool)
        ensures
            r == open_logs(*self).contains(address),
    {
        self.logs.contains_key(&address)
    }

    /// Relies on heed's `Env::read_txn` and `Database::get`: the registry's
    /// label of `address` in a snapshot of committed data.
    #[verifier::external_body]
    fn registry_get(&self, address: u64) -> (r: Result<Option<Option<String>>, heed::Error>) {
        let txn = self.env.read_txn()?;
        let r = self.registry.get(&txn, &U64::new(address));
        r
    }

    /// Relies on heed's `Env::read_txn` and `Database::iter`: the registry's keys
    /// in the order of their bytes, which for big-endian keys is ascending.
    #[verifier::external_body]
    fn registry_keys(&self) -> (r: Result<Vec<u64>, heed::Error>)
        ensures
            r matches Ok(v) ==> strictly_ascending_u64(v@),
    {
        let txn = self.env.read_txn()?;
        let r = self.registry.iter(&txn)?.map(|e| e.map(|(k, _)| k.get())).collect();
        r
    }

    /// Relies on heed's `Env::read_txn` and `Database::range`: the entries of the
    /// log of `address` whose big-endian keys lie in `[start, end)`, in key order.
    /// Indexing the open logs panics on an address without a log.
    #[verifier::external_body]
    fn log_range(&self, address: u64, start: u32, end: u32) -> (r: Result<
        Vec<(u32, Vec<u8>)>,
        heed::Error,
    >)
        requires
            open_logs(*self).contains(address),
        ensures
            r matches Ok(v) ==> entries_in_range(
                v@.map_values(|e: (u32, Vec<u8>)| (e.0, e.1@)),
                start,
                end,
            ),
    {
        let txn = self.env.read_txn()?;
        let range = U32::new(start)..U32::new(end);
        let r = self.logs[&address].range(&txn, &range)?.map(|e| e.map(|(k, v)| (k.get(), v.to_vec()))).collect();
        r
    }

    /// Relies on heed's `Env::write_txn`: begins an LMDB write transaction.
    #[verifier::external_body]
    fn write_txn(&self) -> (r: Result<BackendTxn<'_>, heed::Error>)
        ensures
            r matches Ok(t) ==> txn_logs(t) == open_logs(*self),
            r matches Ok(t) ==> txn_writes(t) == Seq::<BackendWrite>::empty(),
    {
        Ok(BackendTxn { txn: self.env.write_txn()?, backend: self })
    }
}

impl<'a> BackendTxn<'a> {
    /// Relies on heed's `Database::put`: sets the registry's label of `address`.
    #[verifier::external_body]
    fn put_entry(&mut self, address: u64, label: &Option<String>) -> (r: Result<(), heed::Error>)
        ensures
            txn_logs(*final(self)) == txn_logs(*old(self)),
            r is Ok ==> txn_writes(*final(self)) == txn_writes(*old(self)).push(
                BackendWrite::Put(address, label_view(*label)),
            ),
            r is Err ==> txn_writes(*final(self)) == txn_writes(*old(self)),
    {
        self.backend.registry.put(&mut self.txn, &U64::new(address), label)
    }

    /// Relies on heed's `Database::delete`: removes the registry's entry of
    /// `address`; true where there was one.
    #[verifier::external_body]
    fn delete_entry(&mut self, address: u64) -> (r: Result<bool, heed::Error>)
        ensures
            txn_logs(*final(self)) == txn_logs(*old(self)),
            r is Ok ==> txn_writes(*final(self)) == txn_writes(*old(self)).push(
                BackendWrite::Delete(address),
            ),
            r is Err ==> txn_writes(*final(self)) == txn_writes(*old(self)),
    {
        self.backend.registry.delete(&mut self.txn, &U64::new(address))
    }

    /// Relies on heed's `Database::append`: adds an entry at the end of the log of
    /// `address`; LMDB refuses (`MDB_APPEND`) a key that is not above the log's
    /// last key, which is at least every key appended earlier in this
    /// transaction. Indexing the open logs panics on an address without a log.
    #[verifier::external_body]
    fn append(&mut self, address: u64, time: u32, bytes: &[u8]) -> (r: Result<(), heed::Error>)
        requires
            txn_logs(*old(self)).contains(address),
        ensures
            txn_logs(*final(self)) == txn_logs(*old(self)),
            r is Ok ==> txn_writes(*final(self)) == txn_writes(*old(self)).push(
                BackendWrite::Append(address, time, bytes@),
            ),
            r is Ok ==> forall|i: int|
                0 <= i < txn_writes(*old(self)).len() ==> match #[trigger] txn_writes(
                    *old(self),
                )[i] {
                    BackendWrite::Append(a, s, _) => a == address ==> s < time,
                    _ => true,
                },
            r is Err ==> txn_writes(*final(self)) == txn_writes(*old(self)),
    {
        self.backend.logs[&address].append(&mut self.txn, &U32::new(time), bytes)
    }

    /// Relies on heed's `RwTxn::commit`.
    #[verifier::external_body]
    fn commit(self) -> (r: Result<(), heed::Error>) {
        self.txn.commit()
    }
}

/// Errors of the storage engine.
#[derive(Debug)]
pub enum DbError {
    /// The directory of the store could not be made.
    Create,
    /// The backend failed.
    Heed(heed::Error),
    /// A write transaction is already open.
    MultipleWriteTransactions,
}

fn heed_err(e: heed::Error) -> (r: DbError)
    ensures
        r is Heed,
{
    DbError::Heed(e)
}

/// What the registry holds of an address.
#[derive(Debug)]
pub struct AddrDbEntry {
    pub label: Option<String>,
}

impl Default for AddrDbEntry {
    /// An entry without label.
    fn default() -> (r: AddrDbEntry)
        ensures
            r.label is None,
    {
        AddrDbEntry { label: None }
    }
}

/// Byte length of an encoded reading in a log.
pub const ENCODED_LEN: usize = 8;

/// The reading that 8 bytes encode: temperature (signed 16 bits), humidity
/// (16 bits) and pressure (32 bits), each little-endian.
pub open spec fn raw_from_bytes(b: Seq<u8>) -> Option<RawSensorValues> {
    if b.len() != 8 {
        None
    } else {
        Some(
            RawSensorValues {
                temperature: le_i16(b.subrange(0, 2)) as i16,
                humidity: le_u16(b.subrange(2, 4)) as u16,
                pressure: le_u32(b.subrange(4, 8)) as u32,
            },
        )
    }
}

/// The 8-byte encoding of a reading: temperature (two's complement), humidity
/// and pressure, each little-endian.
pub open spec fn raw_bytes(r: RawSensorValues) -> Seq<u8> {
    let t: int = if r.temperature < 0 {
        r.temperature + 65536
    } else {
        r.temperature as int
    };
    let h = r.humidity as int;
    let p = r.pressure as int;
    seq![
        (t % 256) as u8,
        (t / 256) as u8,
        (h % 256) as u8,
        (h / 256) as u8,
        (p % 256) as u8,
        ((p / 256) % 256) as u8,
        ((p / 65536) % 256) as u8,
        (p / 16777216) as u8,
    ]
}

impl RawSensorValues {
    /// The 8-byte encoding of this reading in a log.
    pub fn to_bytes(&self) -> (r: Vec<u8>)
        ensures
            r@ == raw_bytes(*self),
            raw_from_bytes(r@) == Some(*self),
    {
        let t: u16 = if self.temperature < 0 {
            (self.temperature as i32 + 65536) as u16
        } else {
            self.temperature as u16
        };
        let h = self.humidity;
        let p = self.pressure;
        let v: Vec<u8> = vec![
            (t % 256) as u8,
            (t / 256) as u8,
            (h % 256) as u8,
            (h / 256) as u8,
            (p % 256) as u8,
            ((p / 256) % 256) as u8,
            ((p / 65536) % 256) as u8,
            (p / 16777216) as u8,
        ];
        proof {
            let b = v@;
            assert(t % 256 + 256 * (t / 256) == t) by (bit_vector);
            assert(h % 256 + 256 * (h / 256) == h) by (bit_vector);
            assert(p % 256 + 256 * ((p / 256) % 256) + 65536 * ((p / 65536) % 256) + 16777216 * (p
                / 16777216) == p) by (bit_vector);
            let (b0, b1, b2) = (b.subrange(0, 2), b.subrange(2, 4), b.subrange(4, 8));
            assert(b0[0] == b[0] && b0[1] == b[1]);
            assert(b1[0] == b[2] && b1[1] == b[3]);
            assert(b2[0] == b[4] && b2[1] == b[5] && b2[2] == b[6] && b2[3] == b[7]);
            assert(le_u16(b0) == t);
            assert(self.temperature < 0 ==> t == self.temperature + 65536);
            assert(self.temperature >= 0 ==> t == self.temperature);
            assert(le_i16(b0) == self.temperature);
            assert(le_u16(b1) == h);
            assert(le_u32(b2) == p);
        }
        v
    }

    /// Decodes an encoded reading; `None` unless there are exactly 8 bytes.
    pub fn from_bytes(b: &[u8]) -> (r: Option<RawSensorValues>)
        ensures
            r == raw_from_bytes(b@),
    {
        if b.len() != ENCODED_LEN {
            return None;
        }
        let temperature = read_i16_le(&b[0..2]);
        let humidity = read_u16_le(&b[2..4]);
        let pressure = read_u32_le(&b[4..8]);
        Some(RawSensorValues { temperature, humidity, pressure })
    }
}

/// The valid readings of log entries, in order, with their times; entries whose
/// bytes are no valid reading are left out.
pub open spec fn decoded_log(e: Seq<(u32, Seq<u8>)>) -> Seq<(u32, RawSensorValues)>
    decreases e.len(),
{
    if e.len() == 0 {
        seq![]
    } else {
        let earlier = decoded_log(e.drop_last());
        match raw_from_bytes(e.last().1) {
            Some(raw) => if raw_is_valid(raw) {
                earlier.push((e.last().0, raw))
            } else {
                earlier
            },
            None => earlier,
        }
    }
}

/// The readings that a log read returns lie in the range asked for and ascend
/// strictly in time: decoding keeps the order of the entries and only leaves
/// some out.
pub proof fn lemma_decoded_log_ascending(e: Seq<(u32, Seq<u8>)>, start: u32, end: u32)
    requires
        entries_in_range(e, start, end),
    ensures
        forall|i: int|
            0 <= i < decoded_log(e).len() ==> start <= (#[trigger] decoded_log(e)[i]).0 < end,
        forall|i: int, j: int|
            0 <= i < j < decoded_log(e).len() ==> (#[trigger] decoded_log(e)[i]).0 < (
            #[trigger] decoded_log(e)[j]).0,
        forall|i: int|
            0 <= i < decoded_log(e).len() ==> exists|k: int|
                0 <= k < e.len() && (#[trigger] decoded_log(e)[i]).0 == e[k].0,
    decreases e.len(),
{
    if e.len() > 0 {
        let p = e.drop_last();
        assert(entries_in_range(p, start, end)) by {
            assert forall|i: int, j: int| 0 <= i < j < p.len() implies (#[trigger] p[i]).0 < (#[trigger] p[j]).0 by {
                assert(p[i] == e[i] && p[j] == e[j]);
            }
            assert forall|i: int| 0 <= i < p.len() implies start <= (#[trigger] p[i]).0 < end by {
                assert(p[i] == e[i]);
            }
        }
        lemma_decoded_log_ascending(p, start, end);
        let d = decoded_log(p);
        assert forall|i: int| 0 <= i < d.len() implies (#[trigger] d[i]).0 < e.last().0 by {
            let k = choose|k: int| 0 <= k < p.len() && d[i].0 == p[k].0;
            assert(p[k] == e[k]);
        }
        assert forall|i: int| 0 <= i < d.len() implies exists|k: int|
            0 <= k < e.len() && (#[trigger] d[i]).0 == e[k].0 by {
            let k = choose|k: int| 0 <= k < p.len() && d[i].0 == p[k].0;
            assert(p[k] == e[k]);
        }
        assert(e.last() == e[e.len() - 1]);
    }
}

pub open spec fn entries_view(e: Seq<(u32, Vec<u8>)>) -> Seq<(u32, Seq<u8>)> {
    e.map_values(|x: (u32, Vec<u8>)| (x.0, x.1@))
}

/// Times and raw readings of a decoded log.
pub open spec fn readings_view(v: Seq<(Timestamp, SensorValues)>) -> Seq<(u32, RawSensorValues)> {
    v.map_values(|x: (Timestamp, SensorValues)| (x.0.0, x.1.raw()))
}

/// Decodes log entries, leaving out those that are no valid reading.
pub fn decode_log(entries: &Vec<(u32, Vec<u8>)>) -> (r: Vec<(Timestamp, SensorValues)>)
    ensures
        readings_view(r@) == decoded_log(entries_view(entries@)),
{
    let mut out: Vec<(Timestamp, SensorValues)> = Vec::new();
    let mut i: usize = 0;
    while i < entries.len()
        invariant
            i <= entries@.len(),
            readings_view(out@) == decoded_log(entries_view(entries@).take(i as int)),
        decreases entries@.len() - i,
    {
        let ghost before = out@;
        proof {
            assert(entries_view(entries@).take(i + 1).drop_last() =~= entries_view(entries@).take(
                i as int,
            ));
            assert(entries_view(entries@).take(i + 1).last() == (entries@[i as int].0, entries@[i as int].1@));
        }
        match RawSensorValues::from_bytes(entries[i].1.as_slice()) {
            Some(raw) => match SensorValues::try_from(raw) {
                Ok(values) => {
                    out.push((Timestamp::from(entries[i].0), values));
                    assert(readings_view(out@) =~= readings_view(before).push((entries@[i as int].0, raw)));
                },
                Err(_) => {},
            },
            None => {},
        }
        i = i + 1;
    }
    assert(entries_view(entries@).take(entries@.len() as int) =~= entries_view(entries@));
    out
}

/// A change that a write transaction makes when committed.
#[derive(Debug)]
pub enum WriteOp {
    /// Set the label of an address, registering it.
    Put(u64, Option<String>),
    /// Remove an address from the registry.
    Delete(u64),
    /// Append a reading to the log of an address at a time.
    Append(u64, u32, RawSensorValues),
}

/// Mathematical form of a [`WriteOp`].
pub enum OpModel {
    Put(u64, Option<Seq<char>>),
    Delete(u64),
    Append(u64, u32, RawSensorValues),
}

pub open spec fn label_view(l: Option<String>) -> Option<Seq<char>> {
    match l {
        Some(s) => Some(s@),
        None => None,
    }
}

impl View for WriteOp {
    type V = OpModel;

    open spec fn view(&self) -> OpModel {
        match self {
            WriteOp::Put(a, l) => OpModel::Put(*a, label_view(*l)),
            WriteOp::Delete(a) => OpModel::Delete(*a),
            WriteOp::Append(a, t, r) => OpModel::Append(*a, *t, *r),
        }
    }
}

/// An open write transaction: the changes it will make, in order.
#[derive(Debug)]
pub struct WriteTxn {
    ops: Vec<WriteOp>,
}

impl WriteTxn {
    pub closed spec fn ops(self) -> Seq<OpModel> {
        self.ops@.map_values(|o: WriteOp| o@)
    }

    /// Appends a reading to the log of `addr` at `timestamp`, when committed and
    /// where `addr` has an open log then. Committing fails where `timestamp` is
    /// not later than the log's last entry.
    pub fn log(&mut self, addr: BluetoothAddress, timestamp: Timestamp, values: SensorValues)
        ensures
            final(self).ops() == old(self).ops().push(
                OpModel::Append(addr.0, timestamp.0, values.raw()),
            ),
    {
        let raw = RawSensorValues::from(values);
        self.ops.push(WriteOp::Append(addr.0, timestamp.as_u32(), raw));
        assert(self.ops() =~= old(self).ops().push(OpModel::Append(addr.0, timestamp.0, values.raw())));
    }
}

fn clone_label(l: &Option<String>) -> (r: Option<String>)
    ensures
        label_view(r) == label_view(*l),
{
    match l {
        Some(s) => Some(s.as_str().to_owned()),
        None => None,
    }
}

/// `op` registers `a`.
pub open spec fn puts(op: OpModel, a: u64) -> bool {
    match op {
        OpModel::Put(p, _) => p == a,
        _ => false,
    }
}

/// Where `op` registers an address, that address has a log in `logs`.
pub open spec fn registers(op: OpModel, logs: Set<u64>) -> bool {
    op matches OpModel::Put(p, _) ==> logs.contains(p)
}

/// The writes that committing `ops` hands to the backend, in order: every put
/// and delete, and every append to an address whose log is in `logs`, encoded.
pub open spec fn backend_writes(ops: Seq<OpModel>, logs: Set<u64>) -> Seq<BackendWrite>
    decreases ops.len(),
{
    if ops.len() == 0 {
        seq![]
    } else {
        let earlier = backend_writes(ops.drop_last(), logs);
        match ops.last() {
            OpModel::Put(a, l) => earlier.push(BackendWrite::Put(a, l)),
            OpModel::Delete(a) => earlier.push(BackendWrite::Delete(a)),
            OpModel::Append(a, time, raw) => if logs.contains(a) {
                earlier.push(BackendWrite::Append(a, time, raw_bytes(raw)))
            } else {
                earlier
            },
        }
    }
}

proof fn lemma_backend_writes_has_append(ops: Seq<OpModel>, logs: Set<u64>, i: int, a: u64, time: u32, raw: RawSensorValues)
    requires
        0 <= i < ops.len(),
        ops[i] == OpModel::Append(a, time, raw),
        logs.contains(a),
    ensures
        exists|k: int|
            0 <= k < backend_writes(ops, logs).len() && #[trigger] backend_writes(ops, logs)[k]
                == BackendWrite::Append(a, time, raw_bytes(raw)),
    decreases ops.len(),
{
    let w = backend_writes(ops, logs);
    if i == ops.len() - 1 {
        assert(w[w.len() - 1] == BackendWrite::Append(a, time, raw_bytes(raw)));
    } else {
        lemma_backend_writes_has_append(ops.drop_last(), logs, i, a, time, raw);
        let p = backend_writes(ops.drop_last(), logs);
        let k = choose|k: int| 0 <= k < p.len() && #[trigger] p[k] == BackendWrite::Append(a, time, raw_bytes(raw));
        assert(w[k] == p[k]);
    }
}

/// In one write transaction, two appends to the same open log whose times do
/// not increase cannot both reach a successful commit: the writes that a
/// successful commit hands on append strictly increasing times to each log.
pub proof fn lemma_non_increasing_appends_fail(
    ops: Seq<OpModel>,
    logs: Set<u64>,
    i: int,
    j: int,
    a: u64,
    earlier: u32,
    later: u32,
    v: RawSensorValues,
    u: RawSensorValues,
)
    requires
        0 <= i < j < ops.len(),
        ops[i] == OpModel::Append(a, earlier, v),
        ops[j] == OpModel::Append(a, later, u),
        logs.contains(a),
        later <= earlier,
    ensures
        !appends_increase(backend_writes(ops, logs)),
    decreases ops.len(),
{
    let w = backend_writes(ops, logs);
    let p = backend_writes(ops.drop_last(), logs);
    if j == ops.len() - 1 {
        lemma_backend_writes_has_append(ops.drop_last(), logs, i, a, earlier, v);
        let k = choose|k: int| 0 <= k < p.len() && #[trigger] p[k] == BackendWrite::Append(a, earlier, raw_bytes(v));
        assert(w[k] == p[k]);
        assert(w[w.len() - 1] == BackendWrite::Append(a, later, raw_bytes(u)));
        assert(k < w.len() - 1);
    } else {
        lemma_non_increasing_appends_fail(ops.drop_last(), logs, i, j, a, earlier, later, v, u);
        let (x, y) = choose|x: int, y: int| 0 <= x < y < p.len() && !match (#[trigger] p[x], #[trigger] p[y]) {
            (BackendWrite::Append(a, s, _), BackendWrite::Append(b, t, _)) => a == b ==> s < t,
            _ => true,
        };
        assert(w[x] == p[x] && w[y] == p[y]);
    }
}

/// Name of the log database of an address: its canonical text.
fn log_name(address: u64) -> (r: String)
    ensures
        r@ == crate::address::address_text(address),
        !r@.contains('\0'),
{
    proof {
        crate::address::lemma_address_text_has_no_nul(address);
    }
    BluetoothAddress(address).to_string()
}

/// Opens the log of each of `keys`.
fn open_logs_of(backend: &mut Backend, keys: &Vec<u64>) -> (r: Result<(), heed::Error>)
    ensures
        r is Ok ==> forall|a: u64|
            open_logs(*final(backend)).contains(a) <==> (open_logs(*old(backend)).contains(a)
                || keys@.contains(a)),
{
    let mut i: usize = 0;
    while i < keys.len()
        invariant
            i <= keys@.len(),
            forall|a: u64|
                open_logs(*backend).contains(a) <==> (open_logs(*old(backend)).contains(a)
                    || keys@.take(i as int).contains(a)),
        decreases keys@.len() - i,
    {
        let name = log_name(keys[i]);
        match backend.create_log(keys[i], name.as_str()) {
            Ok(()) => {},
            Err(e) => return Err(e),
        }
        proof {
            assert(keys@.take(i + 1) =~= keys@.take(i as int).push(keys@[i as int]));
            assert forall|a: u64| keys@.take(i + 1).contains(a) <==> (keys@.take(i as int).contains(a) || a == keys@[i as int]) by {
                if keys@.take(i + 1).contains(a) {
                    let j = choose|j: int| 0 <= j < i + 1 && #[trigger] keys@.take(i + 1)[j] == a;
                    if j < i {
                        assert(keys@.take(i as int)[j] == a);
                    }
                }
                if keys@.take(i as int).contains(a) {
                    let j = choose|j: int| 0 <= j < i && #[trigger] keys@.take(i as int)[j] == a;
                    assert(keys@.take(i + 1)[j] == a);
                }
                if a == keys@[i as int] {
                    assert(keys@.take(i + 1)[i as int] == a);
                }
            }
        }
        i = i + 1;
    }
    assert(keys@.take(keys@.len() as int) =~= keys@);
    Ok(())
}

/// The store.
pub struct Db {
    backend: Backend,
    writer_open: bool,
    /// The writes of the last successful commit.
    committed: Ghost<Seq<BackendWrite>>,
}

impl Db {
    pub closed spec fn writer_open(self) -> bool {
        self.writer_open
    }

    /// Addresses whose logs are open.
    pub closed spec fn logs(self) -> Set<u64> {
        open_logs(self.backend)
    }

    /// The writes that the last successful commit handed to the backend.
    pub closed spec fn last_commit(self) -> Seq<BackendWrite> {
        self.committed@
    }

    pub fn writer_is_open(&self) -> (r: bool)
        ensures
            r == self.writer_open(),
    {
        self.writer_open
    }

    /// Opens the store in the existing directory `path`, with a log for every
    /// address registered: the logs open are exactly the registry's keys as
    /// read at opening. Fails with `Create` exactly on a path that no directory
    /// can have (one with a NUL), otherwise only with a backend error.
    pub fn open(path: &str) -> (r: Result<Db, DbError>)
        ensures
            r matches Ok(db) ==> !db.writer_open(),
            path@.contains('\0') <==> r matches Err(DbError::Create),
            r matches Err(e) ==> (e is Create || e is Heed),
            r matches Ok(db) ==> exists|keys: Seq<u64>|
                strictly_ascending_u64(keys) && forall|a: u64| #[trigger]
                    db.logs().contains(a) <==> keys.contains(a),
    {
        if contains_nul(path) {
            return Err(DbError::Create);
        }
        proof {
            reveal_strlit("addr");
            assert(!REGISTRY_NAME@.contains('\0')) by {
                assert(REGISTRY_NAME@ =~= seq!['a', 'd', 'd', 'r']);
            }
        }
        let mut backend = match Backend::open(path, MAX_DBS, REGISTRY_NAME) {
            Ok(b) => b,
            Err(e) => return Err(heed_err(e)),
        };
        let known = match backend.registry_keys() {
            Ok(k) => k,
            Err(e) => return Err(heed_err(e)),
        };
        match open_logs_of(&mut backend, &known) {
            Ok(()) => {},
            Err(e) => return Err(heed_err(e)),
        }
        let db = Db { backend, writer_open: false, committed: Ghost(Seq::empty()) };
        assert(forall|a: u64| #[trigger] db.logs().contains(a) <==> known@.contains(a));
        Ok(db)
    }

    /// Begins the write transaction; fails while another is open. The
    /// transaction ends only by [`Db::commit`] or [`Db::abort`]: dropping it
    /// leaves the store's writer open.
    pub fn write_txn(&mut self) -> (r: Result<WriteTxn, DbError>)
        ensures
            r is Ok <==> !old(self).writer_open(),
            r matches Ok(t) ==> t.ops().len() == 0,
            r matches Err(e) ==> e is MultipleWriteTransactions,
            final(self).writer_open(),
            final(self).logs() == old(self).logs(),
            final(self).last_commit() == old(self).last_commit(),
    {
        if self.writer_open {
            return Err(DbError::MultipleWriteTransactions);
        }
        self.writer_open = true;
        let t = WriteTxn { ops: Vec::new() };
        assert(t.ops() =~= Seq::<OpModel>::empty());
        Ok(t)
    }

    /// Begins a write transaction for appending readings to logs.
    pub fn log_txn(&mut self) -> (r: Result<WriteTxn, DbError>)
        ensures
            r is Ok <==> !old(self).writer_open(),
            r matches Ok(t) ==> t.ops().len() == 0,
            r matches Err(e) ==> e is MultipleWriteTransactions,
            final(self).writer_open(),
            final(self).logs() == old(self).logs(),
            final(self).last_commit() == old(self).last_commit(),
    {
        self.write_txn()
    }

    /// Sets the registry entry of `addr` in `txn`; committing opens the log of a
    /// newly registered address.
    pub fn put_addr(&self, txn: &mut WriteTxn, addr: BluetoothAddress, data: &AddrDbEntry)
        ensures
            final(txn).ops() == old(txn).ops().push(OpModel::Put(addr.0, label_view(data.label))),
    {
        txn.ops.push(WriteOp::Put(addr.0, clone_label(&data.label)));
        assert(txn.ops() =~= old(txn).ops().push(OpModel::Put(addr.0, label_view(data.label))));
    }

    /// Removes the registry entry of `addr` in `txn`; its log stays.
    pub fn delete_addr(&self, txn: &mut WriteTxn, addr: BluetoothAddress)
        ensures
            final(txn).ops() == old(txn).ops().push(OpModel::Delete(addr.0)),
    {
        txn.ops.push(WriteOp::Delete(addr.0));
        assert(txn.ops() =~= old(txn).ops().push(OpModel::Delete(addr.0)));
    }

    /// Drops the open write transaction without changing anything.
    pub fn abort(&mut self, txn: WriteTxn)
        requires
            old(self).writer_open(),
        ensures
            !final(self).writer_open(),
            final(self).logs() == old(self).logs(),
            final(self).last_commit() == old(self).last_commit(),
    {
        self.writer_open = false;
    }

    /// Hands the writes of `txn` to one backend transaction and commits it:
    /// every put and delete, and every append to an address whose log is open
    /// (the others are left out), in order. A time appended to a log that is not
    /// above its last one makes the commit fail. Then opens the log of each
    /// address registered that has none. Either way the write transaction is
    /// closed.
    pub fn commit(&mut self, txn: WriteTxn) -> (r: Result<(), DbError>)
        requires
            old(self).writer_open(),
        ensures
            !final(self).writer_open(),
            old(self).logs() <= final(self).logs(),
            forall|a: u64| #[trigger]
                final(self).logs().contains(a) ==> old(self).logs().contains(a) || exists|i: int|
                    0 <= i < txn.ops().len() && puts(txn.ops()[i], a),
            r is Ok ==> forall|i: int|
                0 <= i < txn.ops().len() ==> registers(txn.ops()[i], final(self).logs()),
            r is Ok ==> final(self).last_commit() == backend_writes(txn.ops(), old(self).logs()),
            r is Ok ==> appends_increase(final(self).last_commit()),
            r is Err ==> final(self).last_commit() == old(self).last_commit(),
            r matches Err(e) ==> e is Heed,
    {
        self.writer_open = false;
        let ops = txn.ops;
        let ghost before = open_logs(self.backend);
        let ghost opsm = txn.ops();
        let ghost written: Seq<BackendWrite>;
        {
            let mut t = match self.backend.write_txn() {
                Ok(t) => t,
                Err(e) => return Err(heed_err(e)),
            };
            let mut i: usize = 0;
            while i < ops.len()
                invariant
                    txn_logs(t) == open_logs(self.backend),
                    open_logs(self.backend) == before,
                    before == old(self).logs(),
                    !self.writer_open,
                    self.committed == old(self).committed,
                    opsm == ops@.map_values(|o: WriteOp| o@),
                    i <= ops@.len(),
                    txn_writes(t) == backend_writes(opsm.take(i as int), before),
                    appends_increase(txn_writes(t)),
                decreases ops@.len() - i,
            {
                proof {
                    assert(opsm.take(i + 1).drop_last() =~= opsm.take(i as int));
                    assert(opsm.take(i + 1).last() == ops@[i as int]@);
                }
                let ghost w0 = txn_writes(t);
                let res = match &ops[i] {
                    WriteOp::Put(a, label) => t.put_entry(*a, label),
                    WriteOp::Delete(a) => match t.delete_entry(*a) {
                        Ok(_) => Ok(()),
                        Err(e) => Err(e),
                    },
                    WriteOp::Append(a, time, raw) => {
                        if self.backend.has_log(*a) {
                            let bytes = raw.to_bytes();
                            t.append(*a, *time, bytes.as_slice())
                        } else {
                            Ok(())
                        }
                    },
                };
                match res {
                    Ok(()) => {},
                    Err(e) => return Err(heed_err(e)),
                }
                proof {
                    let w = txn_writes(t);
                    assert forall|x: int, y: int| 0 <= x < y < w.len() implies match (#[trigger] w[x], #[trigger] w[y]) {
                        (BackendWrite::Append(a, s, _), BackendWrite::Append(b, u, _)) => a == b ==> s < u,
                        _ => true,
                    } by {
                        if y < w0.len() {
                            assert(w[x] == w0[x] && w[y] == w0[y]);
                        } else {
                            assert(w[x] == w0[x]);
                        }
                    }
                }
                i = i + 1;
            }
            proof {
                assert(opsm.take(ops@.len() as int) =~= opsm);
                written = txn_writes(t);
            }
            match t.commit() {
                Ok(()) => {},
                Err(e) => return Err(heed_err(e)),
            }
        }
        let mut i: usize = 0;
        while i < ops.len()
            invariant
                i <= ops@.len(),
                !self.writer_open,
                before == old(self).logs(),
                self.committed == old(self).committed,
                txn.ops() == ops@.map_values(|o: WriteOp| o@),
                before <= open_logs(self.backend),
                forall|a: u64| #[trigger]
                    open_logs(self.backend).contains(a) ==> before.contains(a) || exists|j: int|
                        0 <= j < txn.ops().len() && puts(txn.ops()[j], a),
                forall|j: int| 0 <= j < i ==> registers(txn.ops()[j], open_logs(self.backend)),
            decreases ops@.len() - i,
        {
            assert(txn.ops()[i as int] == ops@[i as int]@);
            match &ops[i] {
                WriteOp::Put(a, _) => {
                    if !self.backend.has_log(*a) {
                        let name = log_name(*a);
                        match self.backend.create_log(*a, name.as_str()) {
                            Ok(()) => {},
                            Err(e) => return Err(heed_err(e)),
                        }
                    }
                },
                _ => {},
            }
            i = i + 1;
        }
        self.committed = Ghost(written);
        Ok(())
    }

    /// The registry entry of `addr`, if registered.
    pub fn get_addr(&self, addr: BluetoothAddress) -> (r: Result<Option<AddrDbEntry>, DbError>)
        ensures
            r matches Err(e) ==> e is Heed,
    {
        match self.backend.registry_get(addr.0) {
            Ok(Some(label)) => Ok(Some(AddrDbEntry { label })),
            Ok(None) => Ok(None),
            Err(e) => Err(heed_err(e)),
        }
    }

    /// All registered addresses, in ascending order.
    pub fn known_addrs(&self) -> (r: Result<Vec<BluetoothAddress>, DbError>)
        ensures
            r matches Ok(v) ==> strictly_ascending_u64(v@.map_values(|a: BluetoothAddress| a.0)),
            r matches Err(e) ==> e is Heed,
    {
        let keys = match self.backend.registry_keys() {
            Ok(k) => k,
            Err(e) => return Err(heed_err(e)),
        };
        let mut out: Vec<BluetoothAddress> = Vec::new();
        let mut i: usize = 0;
        while i < keys.len()
            invariant
                i <= keys@.len(),
                out@.len() == i,
                forall|j: int| 0 <= j < i ==> (#[trigger] out@[j]).0 == keys@[j],
            decreases keys@.len() - i,
        {
            out.push(BluetoothAddress(keys[i]));
            i = i + 1;
        }
        assert(out@.map_values(|a: BluetoothAddress| a.0) =~= keys@);
        Ok(out)
    }

    /// The valid readings of the log of `addr` whose times lie in `[start, end)`,
    /// in ascending time order; `None` where `addr` has no log.
    pub fn get_log(&self, addr: BluetoothAddress, start: Timestamp, end: Timestamp) -> (r: Result<
        Option<Vec<(Timestamp, SensorValues)>>,
        DbError,
    >)
        ensures
            r matches Ok(None) <==> !self.logs().contains(addr.0),
            r matches Ok(Some(v)) ==> exists|e: Seq<(u32, Seq<u8>)>|
                entries_in_range(e, start.0, end.0) && readings_view(v@) == decoded_log(e),
            r matches Err(e) ==> e is Heed,
    {
        if !self.backend.has_log(addr.0) {
            return Ok(None);
        }
        match self.backend.log_range(addr.0, start.as_u32(), end.as_u32()) {
            Ok(entries) => {
                let v = decode_log(&entries);
                assert(entries_in_range(entries_view(entries@), start.0, end.0));
                Ok(Some(v))
            },
            Err(e) => Err(heed_err(e)),
        }
    }
}

fn contains_nul(s: &str) -> (r: bool)
    ensures
        r == s@.contains('\0'),
{
    let n = s.unicode_len();
    let mut i: usize = 0;
    while i < n
        invariant
            n == s@.len(),
            i <= n,
            forall|j: int| 0 <= j < i ==> s@[j] != '\0',
        decreases n - i,
    {
        if s.get_char(i) == '\0' {
            assert(s@[i as int] == '\0');
            return true;
        }
        i = i + 1;
    }
    false
}

} // verus!
