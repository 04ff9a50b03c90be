//! The current state of every known sensor, and how snapshots of the session
//! reach it and the store: new addresses are registered, readings are logged.
use vstd::prelude::*;

use crate::address::BluetoothAddress;
use crate::db::{backend_writes, AddrDbEntry, Db, DbError, OpModel, WriteTxn};
use crate::sensor::SensorState;
use crate::timestamp::Timestamp;

verus! {

/// The map that a sequence of entries makes, later entries replacing earlier
/// ones with the same address.
pub open spec fn upserted(
    m: Map<u64, SensorState>,
    s: Seq<(BluetoothAddress, SensorState)>,
) -> Map<u64, SensorState>
    decreases s.len(),
{
    if s.len() == 0 {
        m
    } else {
        upserted(m, s.drop_last()).insert(s.last().0.0, s.last().1)
    }
}

pub open spec fn keys_ascending(s: Seq<(BluetoothAddress, SensorState)>) -> bool {
    forall|i: int, j: int| 0 <= i < j < s.len() ==> s[i].0.0 < s[j].0.0
}

pub open spec fn entries_map(s: Seq<(BluetoothAddress, SensorState)>) -> Map<u64, SensorState> {
    upserted(Map::empty(), s)
}

proof fn lemma_entries_map_insert(s: Seq<(BluetoothAddress, SensorState)>, i: int, e: (BluetoothAddress, SensorState))
    requires
        0 <= i <= s.len(),
        forall|j: int| 0 <= j < s.len() ==> s[j].0.0 != e.0.0,
    ensures
        entries_map(s.insert(i, e)) == entries_map(s).insert(e.0.0, e.1),
    decreases s.len(),
{
    if i == s.len() {
        assert(s.insert(i, e).drop_last() =~= s);
    } else {
        let t = s.insert(i, e);
        assert(t.drop_last() =~= s.drop_last().insert(i, e));
        lemma_entries_map_insert(s.drop_last(), i, e);
        assert(t.last() == s.last());
        assert(s.last().0.0 != e.0.0);
        assert(entries_map(t) =~= entries_map(s).insert(e.0.0, e.1));
    }
}

proof fn lemma_entries_map_update(s: Seq<(BluetoothAddress, SensorState)>, i: int, e: (BluetoothAddress, SensorState))
    requires
        0 <= i < s.len(),
        s[i].0.0 == e.0.0,
        keys_ascending(s),
    ensures
        entries_map(s.update(i, e)) == entries_map(s).insert(e.0.0, e.1),
    decreases s.len(),
{
    let t = s.update(i, e);
    if i == s.len() - 1 {
        assert(t.drop_last() =~= s.drop_last());
        assert(entries_map(t) =~= entries_map(s).insert(e.0.0, e.1));
    } else {
        assert(t.drop_last() =~= s.drop_last().update(i, e));
        lemma_entries_map_update(s.drop_last(), i, e);
        assert(s.last().0.0 != e.0.0);
        assert(entries_map(t) =~= entries_map(s).insert(e.0.0, e.1));
    }
}

/// The state of each known sensor, by address.
pub struct SensorTable {
    entries: Vec<(BluetoothAddress, SensorState)>,
}

impl SensorTable {
    /// One entry per address, in ascending address order.
    pub open spec fn wf(self) -> bool {
        keys_ascending(self.entries())
    }

    /// The state of each sensor, by address.
    pub open spec fn view(self) -> Map<u64, SensorState> {
        entries_map(self.entries())
    }

    /// The entries, in ascending address order.
    pub closed spec fn entries(self) -> Seq<(BluetoothAddress, SensorState)> {
        self.entries@
    }

    pub fn new() -> (r: SensorTable)
        ensures
            r.wf(),
            r.view() == Map::<u64, SensorState>::empty(),
    {
        SensorTable { entries: Vec::new() }
    }

    /// A table where every address already known to the store is not connected.
    pub fn from_known(addrs: &Vec<BluetoothAddress>) -> (r: SensorTable)
        ensures
            r.wf(),
            r.view() == upserted(
                Map::empty(),
                addrs@.map_values(|a: BluetoothAddress| (a, SensorState::Unconnected)),
            ),
    {
        let mut table = SensorTable::new();
        let ghost s = addrs@.map_values(|a: BluetoothAddress| (a, SensorState::Unconnected));
        let mut i: usize = 0;
        while i < addrs.len()
            invariant
                i <= addrs@.len(),
                s == addrs@.map_values(|a: BluetoothAddress| (a, SensorState::Unconnected)),
                table.wf(),
                table.view() == upserted(Map::empty(), s.take(i as int)),
            decreases addrs@.len() - i,
        {
            table.upsert(addrs[i], SensorState::Unconnected);
            assert(s.take(i + 1).drop_last() =~= s.take(i as int));
            i = i + 1;
        }
        assert(s.take(addrs@.len() as int) =~= s);
        table
    }

    /// Sets the state of one address.
    pub fn upsert(&mut self, addr: BluetoothAddress, state: SensorState)
        requires
            old(self).wf(),
        ensures
            final(self).wf(),
            final(self).view() == old(self).view().insert(addr.0, state),
    {
        let ghost before = self.entries@;
        let mut i: usize = 0;
        while i < self.entries.len() && self.entries[i].0.0 < addr.0
            invariant
                self.entries@ == before,
                i <= before.len(),
                forall|j: int| 0 <= j < i ==> (#[trigger] before[j]).0.0 < addr.0,
            decreases before.len() - i,
        {
            i = i + 1;
        }
        let e = (addr, state);
        if i < self.entries.len() && self.entries[i].0.0 == addr.0 {
            self.entries.set(i, e);
            proof {
                lemma_entries_map_update(before, i as int, e);
                assert(self.entries@ == before.update(i as int, e));
            }
        } else {
            proof {
                assert forall|j: int| 0 <= j < before.len() implies before[j].0.0 != e.0.0 by {
                    if j >= i {
                        assert(before[i as int].0.0 > addr.0);
                        if j > i {
                            assert(before[i as int].0.0 < before[j].0.0);
                        }
                    }
                }
                lemma_entries_map_insert(before, i as int, e);
            }
            self.entries.insert(i, e);
            proof {
                let s = self.entries@;
                assert(s == before.insert(i as int, e));
                assert forall|x: int, y: int| 0 <= x < y < s.len() implies s[x].0.0 < s[y].0.0 by {
                    if y < i {
                        assert(s[x] == before[x] && s[y] == before[y]);
                    } else if y == i {
                        assert(s[x] == before[x]);
                    } else if x < i {
                        assert(s[x] == before[x] && s[y] == before[y - 1]);
                        assert(before[i as int].0.0 > addr.0);
                        if y - 1 > i {
                            assert(before[i as int].0.0 < before[y - 1].0.0);
                        }
                    } else if x == i {
                        assert(s[y] == before[y - 1]);
                        assert(before[i as int].0.0 > addr.0);
                        if y - 1 > i {
                            assert(before[i as int].0.0 < before[y - 1].0.0);
                        }
                    } else {
                        assert(s[x] == before[x - 1] && s[y] == before[y - 1]);
                    }
                }
            }
        }
    }

    /// Merges a snapshot: each of its entries replaces the state of its address.
    pub fn merge(&mut self, update: &Vec<(BluetoothAddress, SensorState)>)
        requires
            old(self).wf(),
        ensures
            final(self).wf(),
            final(self).view() == upserted(old(self).view(), update@),
    {
        let ghost start = self.view();
        let mut i: usize = 0;
        while i < update.len()
            invariant
                i <= update@.len(),
                self.wf(),
                self.view() == upserted(start, update@.take(i as int)),
            decreases update@.len() - i,
        {
            let (a, s) = update[i];
            self.upsert(a, s);
            assert(update@.take(i + 1).drop_last() =~= update@.take(i as int));
            i = i + 1;
        }
        assert(update@.take(update@.len() as int) =~= update@);
    }

    /// The entries, in ascending address order.
    pub fn snapshot(&self) -> (r: &Vec<(BluetoothAddress, SensorState)>)
        ensures
            r@ == self.entries(),
    {
        &self.entries
    }
}

/// The appends that logging the connected entries at `now` makes, in order.
pub open spec fn connected_appends(s: Seq<(BluetoothAddress, SensorState)>, now: u32) -> Seq<OpModel>
    decreases s.len(),
{
    if s.len() == 0 {
        seq![]
    } else {
        let earlier = connected_appends(s.drop_last(), now);
        match s.last().1 {
            SensorState::Connected(v) => earlier.push(OpModel::Append(s.last().0.0, now, v.raw())),
            SensorState::Unconnected => earlier,
        }
    }
}

/// Adds to `txn` a reading at `now` for every connected entry.
pub fn log_connected(txn: &mut WriteTxn, entries: &Vec<(BluetoothAddress, SensorState)>, now: Timestamp)
    ensures
        final(txn).ops() == old(txn).ops() + connected_appends(entries@, now.0),
{
    let mut i: usize = 0;
    while i < entries.len()
        invariant
            i <= entries@.len(),
            txn.ops() == old(txn).ops() + connected_appends(entries@.take(i as int), now.0),
        decreases entries@.len() - i,
    {
        let (addr, state) = entries[i];
        proof {
            assert(entries@.take(i + 1).drop_last() =~= entries@.take(i as int));
        }
        match state {
            SensorState::Connected(values) => {
                let ghost before = txn.ops();
                txn.log(addr, now, values);
                assert(txn.ops() =~= old(txn).ops() + connected_appends(entries@.take(i + 1), now.0));
            },
            SensorState::Unconnected => {},
        }
        i = i + 1;
    }
    assert(entries@.take(entries@.len() as int) =~= entries@);
}

/// Logs a reading at `now` for every connected sensor of the table, in
/// ascending address order, in one write transaction.
pub fn flush(db: &mut Db, table: &SensorTable, now: Timestamp) -> (r: Result<(), DbError>)
    ensures
        old(db).writer_open() ==> r matches Err(DbError::MultipleWriteTransactions),
        old(db).writer_open() ==> final(db).writer_open(),
        !old(db).writer_open() ==> !final(db).writer_open(),
        !old(db).writer_open() ==> (r matches Err(e) ==> e is Heed),
        !old(db).writer_open() && r is Ok ==> final(db).last_commit() == backend_writes(
            connected_appends(table.entries(), now.0),
            old(db).logs(),
        ),
        old(db).logs() <= final(db).logs(),
{
    let mut txn = match db.log_txn() {
        Ok(t) => t,
        Err(e) => return Err(e),
    };
    log_connected(&mut txn, table.snapshot(), now);
    assert(txn.ops() =~= connected_appends(table.entries(), now.0));
    let r = db.commit(txn);
    proof {
        assert forall|a: u64| #[trigger] old(db).logs().contains(a) implies final(db).logs().contains(a) by {}
    }
    r
}

/// The addresses of `update` whose lookup in the registry found nothing
/// (`known[i]` false), in order.
pub open spec fn unregistered_model(update: Seq<(BluetoothAddress, SensorState)>, known: Seq<bool>) -> Seq<BluetoothAddress>
    decreases update.len(),
{
    if update.len() == 0 || known.len() == 0 {
        seq![]
    } else {
        let earlier = unregistered_model(update.drop_last(), known.drop_last());
        if known.last() {
            earlier
        } else {
            earlier.push(update.last().0)
        }
    }
}

/// Puts of an empty label for each of `addrs`, in order.
pub open spec fn empty_label_puts(addrs: Seq<BluetoothAddress>) -> Seq<OpModel> {
    addrs.map_values(|a: BluetoothAddress| OpModel::Put(a.0, None))
}

/// The addresses of `update` whose registry lookup found nothing.
pub fn unregistered(update: &Vec<(BluetoothAddress, SensorState)>, known: &Vec<bool>) -> (r: Vec<BluetoothAddress>)
    requires
        known@.len() == update@.len(),
    ensures
        r@ == unregistered_model(update@, known@),
{
    let mut out: Vec<BluetoothAddress> = Vec::new();
    let mut i: usize = 0;
    while i < update.len()
        invariant
            i <= update@.len(),
            known@.len() == update@.len(),
            out@ == unregistered_model(update@.take(i as int), known@.take(i as int)),
        decreases update@.len() - i,
    {
        proof {
            assert(update@.take(i + 1).drop_last() =~= update@.take(i as int));
            assert(known@.take(i + 1).drop_last() =~= known@.take(i as int));
        }
        if !known[i] {
            out.push(update[i].0);
        }
        i = i + 1;
    }
    assert(update@.take(update@.len() as int) =~= update@);
    assert(known@.take(known@.len() as int) =~= known@);
    out
}

/// Registers every address of a snapshot that the registry does not hold yet,
/// with an empty label, which opens its log; returns those addresses. Entries
/// already registered are left as they are.
pub fn register_new(db: &mut Db, update: &Vec<(BluetoothAddress, SensorState)>) -> (r: Result<
    Vec<BluetoothAddress>,
    DbError,
>)
    requires
        !old(db).writer_open(),
    ensures
        !final(db).writer_open(),
        old(db).logs() <= final(db).logs(),
        update@.len() == 0 ==> (r matches Ok(v) && v@.len() == 0),
        r matches Err(e) ==> e is Heed,
        r matches Ok(v) ==> exists|known: Seq<bool>|
            known.len() == update@.len() && v@ == #[trigger] unregistered_model(update@, known),
        r matches Ok(v) ==> forall|i: int|
            0 <= i < v@.len() ==> final(db).logs().contains(#[trigger] v@[i].0),
        r matches Ok(v) ==> (v@.len() > 0 ==> final(db).last_commit() == backend_writes(
            empty_label_puts(v@),
            old(db).logs(),
        )),
        r matches Ok(v) ==> (v@.len() == 0 ==> final(db).last_commit() == old(db).last_commit()),
{
    let mut known: Vec<bool> = Vec::new();
    let mut i: usize = 0;
    while i < update.len()
        invariant
            i <= update@.len(),
            known@.len() == i,
            !db.writer_open(),
            db.logs() == old(db).logs(),
            db.last_commit() == old(db).last_commit(),
        decreases update@.len() - i,
    {
        match db.get_addr(update[i].0) {
            Ok(found) => known.push(found.is_some()),
            Err(e) => return Err(e),
        }
        i = i + 1;
    }
    let fresh = unregistered(update, &known);
    if fresh.len() == 0 {
        return Ok(fresh);
    }
    let mut txn = match db.write_txn() {
        Ok(t) => t,
        Err(e) => return Err(e),
    };
    let mut k: usize = 0;
    while k < fresh.len()
        invariant
            k <= fresh@.len(),
            db.writer_open(),
            db.logs() == old(db).logs(),
            txn.ops() == empty_label_puts(fresh@.take(k as int)),
        decreases fresh@.len() - k,
    {
        let entry = AddrDbEntry::default();
        db.put_addr(&mut txn, fresh[k], &entry);
        assert(empty_label_puts(fresh@.take(k + 1)) =~= empty_label_puts(fresh@.take(k as int)).push(
            OpModel::Put(fresh@[k as int].0, None),
        ));
        k = k + 1;
    }
    assert(fresh@.take(fresh@.len() as int) =~= fresh@);
    let ghost ops = txn.ops();
    match db.commit(txn) {
        Ok(()) => {
            proof {
                assert forall|i: int| 0 <= i < fresh@.len() implies final(db).logs().contains(#[trigger] fresh@[i].0) by {
                    assert(ops[i] == OpModel::Put(fresh@[i].0, None));
                    assert(crate::db::registers(ops[i], db.logs()));
                }
            }
            Ok(fresh)
        },
        Err(e) => Err(e),
    }
}

} // verus!
