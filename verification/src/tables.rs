//! The lookup tables of the scheduler and of the device tree and the named
//! values of a dictionary, kept in `hashbrown::HashMap`.
//!
//! Nothing in this file is proved. Each table type hides one hash map, a
//! spec function names the key-value pairs that the map holds, and each
//! method states over that name what the `hashbrown` method it calls does.

use crate::device_tree::DeviceTreeEntry;
use crate::dt::Dictionary;
use crate::dt::OSValue;
use crate::scheduler::Process;
use crate::scheduler::Thread;
use vstd::prelude::*;

verus! {

/// `threads` without the threads of process `pid`.
pub open spec fn threads_outside(threads: Map<u64, Thread>, pid: u64) -> Map<u64, Thread> {
    Map::new(|tid: u64| threads.contains_key(tid) && threads[tid].pid != pid, |tid: u64| threads[tid])
}

/// `pairs` lists every pair of `threads` once, in some order.
pub open spec fn lists_threads(pairs: Seq<(u64, Thread)>, threads: Map<u64, Thread>) -> bool {
    &&& forall|i: int|
        0 <= i < pairs.len() ==> threads.contains_key((#[trigger] pairs[i]).0) && threads[pairs[i].0]
            == pairs[i].1
    &&& forall|tid: u64| #[trigger]
        threads.contains_key(tid) ==> exists|i: int|
            0 <= i < pairs.len() && (#[trigger] pairs[i]).0 == tid
    &&& forall|i: int, j: int|
        0 <= i < pairs.len() && 0 <= j < pairs.len() && i != j ==> (#[trigger] pairs[i]).0 != (
        #[trigger] pairs[j]).0
}

/// Some thread in `threads` belongs to process `pid`.
pub open spec fn process_has_thread(threads: Map<u64, Thread>, pid: u64) -> bool {
    exists|tid: u64| #[trigger] threads.contains_key(tid) && threads[tid].pid == pid
}

/// The interrupt routing table: a `hashbrown::HashMap` from interrupt line to
/// the identifier of the process that owns it.
#[verifier::external_body]
pub struct IrqTable {
    map: hashbrown::HashMap<u8, u64>,
}

/// The pairs that an `IrqTable` holds.
pub uninterp spec fn irq_table_contents(table: IrqTable) -> Map<u8, u64>;

impl View for IrqTable {
    type V = Map<u8, u64>;

    open spec fn view(&self) -> Map<u8, u64> {
        irq_table_contents(*self)
    }
}

impl IrqTable {
    /// `hashbrown::HashMap::new`: a map that holds nothing.
    #[verifier::external_body]
    pub(crate) fn new() -> (table: IrqTable)
        ensures
            (irq_table_contents(table) == Map::<u8, u64>::empty()),
    {
        IrqTable { map: hashbrown::HashMap::new() }
    }

    /// `hashbrown::HashMap::try_insert`: adds the pair if the key is absent
    /// and reports success; leaves the map as it is if the key is present and
    /// reports failure.
    #[verifier::external_body]
    pub(crate) fn try_insert(&mut self, irq: u8, pid: u64) -> (inserted: bool)
        ensures
            inserted == !irq_table_contents(*old(self)).contains_key(irq),
            irq_table_contents(*final(self)) == if inserted {
                irq_table_contents(*old(self)).insert(irq, pid)
            } else {
                irq_table_contents(*old(self))
            },
    {
        self.map.try_insert(irq, pid).is_ok()
    }

    /// `hashbrown::HashMap::get`: the value stored under the key, if any.
    #[verifier::external_body]
    pub(crate) fn get(&self, irq: u8) -> (owner: Option<u64>)
        ensures
            owner == if irq_table_contents(*self).contains_key(irq) {
                Some(irq_table_contents(*self)[irq])
            } else {
                None
            },
    {
        self.map.get(&irq).copied()
    }
}

/// The thread table: a `hashbrown::HashMap` from thread identifier to thread
/// record.
#[verifier::external_body]
pub struct ThreadTable {
    map: hashbrown::HashMap<u64, Thread>,
}

/// The pairs that a `ThreadTable` holds.
pub uninterp spec fn thread_table_contents(table: ThreadTable) -> Map<u64, Thread>;

impl View for ThreadTable {
    type V = Map<u64, Thread>;

    open spec fn view(&self) -> Map<u64, Thread> {
        thread_table_contents(*self)
    }
}

impl ThreadTable {
    /// `hashbrown::HashMap::new`: a map that holds nothing.
    #[verifier::external_body]
    pub(crate) fn new() -> (table: ThreadTable)
        ensures
            (thread_table_contents(table) == Map::<u64, Thread>::empty()),
    {
        ThreadTable { map: hashbrown::HashMap::new() }
    }

    /// `hashbrown::HashMap::insert`: stores the value under the key,
    /// replacing what was there.
    #[verifier::external_body]
    pub(crate) fn insert(&mut self, tid: u64, thread: Thread)
        ensures
            thread_table_contents(*final(self)) == thread_table_contents(*old(self)).insert(
                tid,
                thread,
            ),
    {
        self.map.insert(tid, thread);
    }

    /// `hashbrown::HashMap::remove`: takes the key out and returns the value
    /// that was stored under it, if any.
    #[verifier::external_body]
    pub(crate) fn remove(&mut self, tid: u64) -> (removed: Option<Thread>)
        ensures
            removed == if thread_table_contents(*old(self)).contains_key(tid) {
                Some(thread_table_contents(*old(self))[tid])
            } else {
                None
            },
            thread_table_contents(*final(self)) == thread_table_contents(*old(self)).remove(tid),
    {
        self.map.remove(&tid)
    }

    /// `hashbrown::HashMap::get`: the value stored under the key, if any.
    #[verifier::external_body]
    pub(crate) fn get(&self, tid: u64) -> (thread: Option<Thread>)
        ensures
            thread == if thread_table_contents(*self).contains_key(tid) {
                Some(thread_table_contents(*self)[tid])
            } else {
                None
            },
    {
        self.map.get(&tid).copied()
    }

    /// `hashbrown::HashMap::iter`, collected: every pair once, in an order
    /// that is not fixed.
    #[verifier::external_body]
    pub(crate) fn pairs(&self) -> (pairs: Vec<(u64, Thread)>)
        ensures
            lists_threads(pairs@, thread_table_contents(*self)),
    {
        self.map.iter().map(|(tid, thread)| (*tid, *thread)).collect()
    }

    /// `hashbrown::HashMap::retain`: keeps exactly the pairs of which the
    /// predicate, here `Thread::is_outside`, holds.
    #[verifier::external_body]
    pub(crate) fn retain_outside(&mut self, pid: u64)
        ensures
            thread_table_contents(*final(self)) == threads_outside(
                thread_table_contents(*old(self)),
                pid,
            ),
    {
        self.map.retain(|_, v| v.is_outside(pid));
    }
}

/// The process table: a `hashbrown::HashMap` from process identifier to
/// process record.
#[verifier::external_body]
pub struct ProcessTable {
    map: hashbrown::HashMap<u64, Process>,
}

/// The pairs that a `ProcessTable` holds.
pub uninterp spec fn process_table_contents(table: ProcessTable) -> Map<u64, Process>;

impl View for ProcessTable {
    type V = Map<u64, Process>;

    open spec fn view(&self) -> Map<u64, Process> {
        process_table_contents(*self)
    }
}

impl ProcessTable {
    /// `hashbrown::HashMap::new`: a map that holds nothing.
    #[verifier::external_body]
    pub(crate) fn new() -> (table: ProcessTable)
        ensures
            (process_table_contents(table) == Map::<u64, Process>::empty()),
    {
        ProcessTable { map: hashbrown::HashMap::new() }
    }

    /// `hashbrown::HashMap::insert`: stores the value under the key,
    /// replacing what was there.
    #[verifier::external_body]
    pub(crate) fn insert(&mut self, pid: u64, process: Process)
        ensures
            process_table_contents(*final(self)) == process_table_contents(*old(self)).insert(
                pid,
                process,
            ),
    {
        self.map.insert(pid, process);
    }

    /// `hashbrown::HashMap::remove`: takes the key out and returns the value
    /// that was stored under it, if any.
    #[verifier::external_body]
    pub(crate) fn remove(&mut self, pid: u64) -> (removed: Option<Process>)
        ensures
            removed == if process_table_contents(*old(self)).contains_key(pid) {
                Some(process_table_contents(*old(self))[pid])
            } else {
                None
            },
            process_table_contents(*final(self)) == process_table_contents(*old(self)).remove(pid),
    {
        self.map.remove(&pid)
    }

    /// `hashbrown::HashMap::get`: the value stored under the key, if any.
    #[verifier::external_body]
    pub(crate) fn get(&self, pid: u64) -> (process: Option<&Process>)
        ensures
            process == if process_table_contents(*self).contains_key(pid) {
                Some(&process_table_contents(*self)[pid])
            } else {
                None
            },
    {
        self.map.get(&pid)
    }
}

/// The device-tree index: a `hashbrown::HashMap` from entry identifier to
/// entry record.
#[verifier::external_body]
pub struct EntryTable {
    map: hashbrown::HashMap<u64, DeviceTreeEntry>,
}

/// The pairs that an `EntryTable` holds.
pub uninterp spec fn entry_table_contents(table: EntryTable) -> Map<u64, DeviceTreeEntry>;

impl View for EntryTable {
    type V = Map<u64, DeviceTreeEntry>;

    open spec fn view(&self) -> Map<u64, DeviceTreeEntry> {
        entry_table_contents(*self)
    }
}

impl EntryTable {
    /// `hashbrown::HashMap::new`: a map that holds nothing.
    #[verifier::external_body]
    pub(crate) fn new() -> (table: EntryTable)
        ensures
            (entry_table_contents(table) == Map::<u64, DeviceTreeEntry>::empty()),
    {
        EntryTable { map: hashbrown::HashMap::new() }
    }

    /// `hashbrown::HashMap::insert`: stores the value under the key,
    /// replacing what was there.
    #[verifier::external_body]
    pub(crate) fn insert(&mut self, id: u64, entry: DeviceTreeEntry)
        ensures
            entry_table_contents(*final(self)) == entry_table_contents(*old(self)).insert(id, entry),
    {
        self.map.insert(id, entry);
    }

    /// `hashbrown::HashMap::remove`: takes the key out and returns the value
    /// that was stored under it, if any.
    #[verifier::external_body]
    pub(crate) fn remove(&mut self, id: u64) -> (removed: Option<DeviceTreeEntry>)
        ensures
            removed == if entry_table_contents(*old(self)).contains_key(id) {
                Some(entry_table_contents(*old(self))[id])
            } else {
                None
            },
            entry_table_contents(*final(self)) == entry_table_contents(*old(self)).remove(id),
    {
        self.map.remove(&id)
    }

    /// `hashbrown::HashMap::get`: the value stored under the key, if any.
    #[verifier::external_body]
    pub(crate) fn get(&self, id: u64) -> (entry: Option<&DeviceTreeEntry>)
        ensures
            entry == if entry_table_contents(*self).contains_key(id) {
                Some(&entry_table_contents(*self)[id])
            } else {
                None
            },
    {
        self.map.get(&id)
    }
}

/// `contents` holds `n` pairs.
pub open spec fn counts_contents(n: usize, contents: Map<Seq<char>, OSValue>) -> bool {
    contents.dom().finite() && n == contents.dom().len()
}

/// `pairs` lists every pair of `contents` once, in some order.
pub open spec fn lists_contents(
    pairs: Seq<(&String, &OSValue)>,
    contents: Map<Seq<char>, OSValue>,
) -> bool {
    &&& forall|i: int|
        0 <= i < pairs.len() ==> contents.contains_key((#[trigger] pairs[i]).0@)
            && contents[pairs[i].0@] == *pairs[i].1
    &&& forall|name: Seq<char>| #[trigger]
        contents.contains_key(name) ==> exists|i: int|
            0 <= i < pairs.len() && (#[trigger] pairs[i]).0@ == name
    &&& forall|i: int, j: int|
        0 <= i < pairs.len() && 0 <= j < pairs.len() && i != j ==> (#[trigger] pairs[i]).0@ != (
        #[trigger] pairs[j]).0@
}

/// The named values of a dictionary: a `hashbrown::HashMap` from name to
/// value. Two tables are equal when the maps are, whatever the order in which
/// the pairs were inserted.
#[verifier::external_body]
#[derive(Debug, PartialEq, Eq)]
pub struct PropertyTable {
    map: hashbrown::HashMap<String, OSValue>,
}

/// The pairs that a `PropertyTable` holds, each name as its characters.
pub uninterp spec fn property_table_contents(table: PropertyTable) -> Map<Seq<char>, OSValue>;

impl View for PropertyTable {
    type V = Map<Seq<char>, OSValue>;

    open spec fn view(&self) -> Map<Seq<char>, OSValue> {
        property_table_contents(*self)
    }
}

impl PropertyTable {
    /// `hashbrown::HashMap::new`: a map that holds nothing.
    #[verifier::external_body]
    pub(crate) fn new() -> (table: PropertyTable)
        ensures
            (property_table_contents(table) == Map::<Seq<char>, OSValue>::empty()),
    {
        PropertyTable { map: hashbrown::HashMap::new() }
    }

    /// `hashbrown::HashMap::len`: the number of pairs, which is finite.
    #[verifier::external_body]
    pub(crate) fn len(&self) -> (n: usize)
        ensures
            counts_contents(n, property_table_contents(*self)),
    {
        self.map.len()
    }

    /// `hashbrown::HashMap::get`: the value stored under the key, if any.
    /// Names are the same key when they hold the same characters.
    #[verifier::external_body]
    pub(crate) fn get(&self, key: &str) -> (value: Option<&OSValue>)
        ensures
            value == if property_table_contents(*self).contains_key(key@) {
                Some(&property_table_contents(*self)[key@])
            } else {
                None
            },
    {
        self.map.get(key)
    }

    /// `hashbrown::HashMap::insert`: stores the value under the key and
    /// returns the value that it replaces, if any.
    #[verifier::external_body]
    pub(crate) fn insert(&mut self, key: String, value: OSValue) -> (replaced: Option<OSValue>)
        ensures
            property_table_contents(*final(self)) == property_table_contents(*old(self)).insert(
                key@,
                value,
            ),
            replaced == if property_table_contents(*old(self)).contains_key(key@) {
                Some(property_table_contents(*old(self))[key@])
            } else {
                None
            },
    {
        self.map.insert(key, value)
    }

    /// `hashbrown::HashMap::iter`, collected: every pair once, in an order
    /// that is not fixed. The values handed out lie inside the table, and so
    /// inside a dictionary value that holds the table.
    #[verifier::external_body]
    pub(crate) fn pairs(&self) -> (pairs: Vec<(&String, &OSValue)>)
        ensures
            lists_contents(pairs@, property_table_contents(*self)),
            forall|i: int, owner: Dictionary|
                0 <= i < pairs@.len() && (#[trigger] owner.table()) == *self
                    ==> decreases_to!(OSValue::Dictionary(owner) => *(#[trigger] pairs@[i]).1),
    {
        self.map.iter().collect()
    }
}

} // verus!
