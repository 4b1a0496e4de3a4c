//! The scheduler: process and thread tables, the executing context, the
//! interrupt routing table, and the buffers that the kernel has handed to
//! each process.

use crate::incremental_num::IncrementalNumGenerator;
use crate::incremental_num::NumGenState;
use crate::syscall::RegisterState;
use crate::syscall::TerminationReason;
use crate::tables::lists_threads;
use crate::tables::process_has_thread;
use crate::tables::threads_outside;
use crate::tables::IrqTable;
use crate::tables::ProcessTable;
use crate::tables::ThreadTable;
use core::ops::ControlFlow;
use vstd::prelude::*;

verus! {

/// Highest interrupt line that a process may claim.
pub const MAX_IRQ: u64 = 0xDF;

/// Distance between an interrupt line and the vector that delivers it.
pub const IRQ_VECTOR_BASE: u8 = 0x20;

/// A buffer that the kernel allocated and handed to a process.
#[derive(Clone, Copy, Debug, PartialEq, Eq, Structural)]
pub struct KernelAlloc {
    /// Address of the first byte; it also serves as the tracking token.
    pub base: u64,
    /// Length in bytes.
    pub len: u64,
}

/// No two records in `allocs` start at the same address.
pub open spec fn distinct_bases(allocs: Seq<KernelAlloc>) -> bool {
    forall|i: int, j: int|
        0 <= i < allocs.len() && 0 <= j < allocs.len() && i != j ==> (#[trigger] allocs[i]).base != (
        #[trigger] allocs[j]).base
}

/// Some record in `allocs` starts at `token`.
pub open spec fn tracks(allocs: Seq<KernelAlloc>, token: u64) -> bool {
    exists|i: int| 0 <= i < allocs.len() && (#[trigger] allocs[i]).base == token
}

/// Position in `allocs` of the record that starts at `token`.
pub open spec fn alloc_index(allocs: Seq<KernelAlloc>, token: u64) -> int {
    choose|i: int| 0 <= i < allocs.len() && (#[trigger] allocs[i]).base == token
}

/// A thread, as far as the scheduler's bookkeeping reads it.
#[derive(Clone, Copy, Debug, PartialEq, Eq, Structural)]
pub struct Thread {
    /// The process that the thread belongs to.
    pub pid: u64,
}

impl Thread {
    /// Whether the thread belongs to process `pid`.
    pub fn belongs_to(&self, pid: u64) -> (r: bool)
        ensures
            r == (self.pid == pid),
    {
        self.pid == pid
    }

    /// Whether the thread belongs to another process than `pid`.
    pub fn is_outside(&self, pid: u64) -> (r: bool)
        ensures
            r == (self.pid != pid),
    {
        self.pid != pid
    }
}

/// A process: the kernel-allocated buffers that it has been granted.
pub struct Process {
    allocations: Vec<KernelAlloc>,
}

impl View for Process {
    type V = Seq<KernelAlloc>;

    closed spec fn view(&self) -> Seq<KernelAlloc> {
        self.allocations@
    }
}

impl Process {
    /// A process that has been granted nothing.
    pub fn new() -> (process: Process)
        ensures
            process@ == Seq::<KernelAlloc>::empty(),
    {
        Process { allocations: Vec::new() }
    }

    /// The buffers granted, oldest first.
    pub fn allocations(&self) -> (allocs: &Vec<KernelAlloc>)
        ensures
            allocs@ == self@,
    {
        &self.allocations
    }

    /// Whether a buffer that starts at `token` is tracked.
    pub fn is_tracked(&self, token: u64) -> (r: bool)
        ensures
            r == tracks(self@, token),
    {
        let mut i: usize = 0;
        while i < self.allocations.len()
            invariant
                i <= self.allocations.len(),
                forall|j: int| 0 <= j < i ==> self.allocations@[j].base != token,
            decreases self.allocations.len() - i,
        {
            if self.allocations[i].base == token {
                return true;
            }
            i += 1;
        }
        false
    }

    /// Records the buffer of `len` bytes at `ptr` and returns its token,
    /// which is `ptr`. The buffer must not be tracked yet.
    pub fn track_kernelside_alloc(&mut self, ptr: u64, len: u64) -> (token: u64)
        requires
            distinct_bases(old(self)@),
            !tracks(old(self)@, ptr),
        ensures
            token == ptr,
            final(self)@ == old(self)@.push(KernelAlloc { base: ptr, len: len }),
            distinct_bases(final(self)@),
            tracks(final(self)@, token),
    {
        self.allocations.push(KernelAlloc { base: ptr, len });
        proof {
            let after = self.allocations@;
            assert(after[after.len() - 1].base == ptr);
        }
        ptr
    }

    /// Stops tracking the buffer with this token and returns its record, or
    /// returns `None` and changes nothing if no such buffer is tracked.
    pub fn release_kernelside_alloc(&mut self, token: u64) -> (released: Option<KernelAlloc>)
        requires
            distinct_bases(old(self)@),
        ensures
            released is Some <==> tracks(old(self)@, token),
            released matches Some(a) ==> a == old(self)@[alloc_index(old(self)@, token)]
                && final(self)@ == old(self)@.remove(alloc_index(old(self)@, token)),
            released is None ==> final(self)@ == old(self)@,
            distinct_bases(final(self)@),
            !tracks(final(self)@, token),
    {
        let mut i: usize = 0;
        while i < self.allocations.len()
            invariant
                i <= self.allocations.len(),
                self.allocations@ == old(self)@,
                distinct_bases(old(self)@),
                forall|j: int| 0 <= j < i ==> self.allocations@[j].base != token,
            decreases self.allocations.len() - i,
        {
            if self.allocations[i].base == token {
                let record = self.allocations.remove(i);
                proof {
                    let before = old(self)@;
                    let after = self.allocations@;
                    assert(before[i as int].base == token);
                    let chosen = alloc_index(before, token);
                    assert(before[chosen].base == token);
                    assert(chosen == i);
                    assert forall|k: int| 0 <= k < after.len() implies (#[trigger] after[k]).base
                        != token by {
                        if k < i {
                            assert(after[k] == before[k]);
                        } else {
                            assert(after[k] == before[k + 1]);
                        }
                    }
                    assert forall|a: int, b: int|
                        0 <= a < after.len() && 0 <= b < after.len() && a != b implies (
                    #[trigger] after[a]).base != (#[trigger] after[b]).base by {
                        let a0 = if a < i { a } else { a + 1 };
                        let b0 = if b < i { b } else { b + 1 };
                        assert(after[a] == before[a0]);
                        assert(after[b] == before[b0]);
                    }
                }
                return Some(record);
            }
            i += 1;
        }
        None
    }
}

/// Mathematical state of the scheduler.
pub struct SchedulerState {
    /// For each process, the buffers granted to it, oldest first.
    pub processes: Map<u64, Seq<KernelAlloc>>,
    /// The thread records.
    pub threads: Map<u64, Thread>,
    /// For each claimed interrupt line, the process that owns it.
    pub irq_handlers: Map<u8, u64>,
    /// The generator of process identifiers.
    pub pids: NumGenState,
    /// The generator of thread identifiers.
    pub tids: NumGenState,
    /// The process whose request is being served, if any.
    pub current_pid: Option<u64>,
    /// The thread whose request is being served, if any.
    pub current_tid: Option<u64>,
    /// Buffers of removed processes that the kernel has yet to release.
    pub reclaimable: Seq<KernelAlloc>,
}

impl SchedulerState {
    /// The state of a scheduler without processes.
    pub open spec fn initial() -> SchedulerState {
        SchedulerState {
            processes: Map::empty(),
            threads: Map::empty(),
            irq_handlers: Map::empty(),
            pids: NumGenState::initial(),
            tids: NumGenState::initial(),
            current_pid: None,
            current_tid: None,
            reclaimable: Seq::empty(),
        }
    }

    /// The tables agree with each other and with the identifier generators:
    /// table keys are held identifiers, every thread belongs to a process in
    /// the table, every process in the table has a thread, and the executing
    /// context names a thread of the executing process.
    pub open spec fn wf(self) -> bool {
        &&& self.pids.wf()
        &&& self.tids.wf()
        &&& forall|pid: u64| #[trigger]
            self.processes.contains_key(pid) ==> self.pids.is_live(pid) && distinct_bases(
                self.processes[pid],
            ) && process_has_thread(self.threads, pid)
        &&& forall|tid: u64| #[trigger]
            self.threads.contains_key(tid) ==> self.tids.is_live(tid)
                && self.processes.contains_key(self.threads[tid].pid)
        &&& self.current_pid is Some ==> self.processes.contains_key(self.current_pid.unwrap())
        &&& self.current_tid is Some ==> self.tids.is_live(self.current_tid.unwrap())
        &&& self.in_dispatch() ==> self.threads.contains_key(self.current_tid.unwrap())
            && self.threads[self.current_tid.unwrap()].pid == self.current_pid.unwrap()
    }

    /// A request of some thread is being served.
    pub open spec fn in_dispatch(self) -> bool {
        self.current_tid is Some && self.current_pid is Some
    }

    /// Whether a process with its first thread can be created.
    pub open spec fn can_spawn(self) -> bool {
        self.pids.can_issue() && self.tids.can_issue()
    }

    /// The state after a process with its first thread is created.
    pub open spec fn after_spawn_process(self) -> SchedulerState {
        SchedulerState {
            processes: self.processes.insert(self.pids.next_id(), Seq::empty()),
            threads: self.threads.insert(self.tids.next_id(), Thread { pid: self.pids.next_id() }),
            pids: self.pids.after_next(),
            tids: self.tids.after_next(),
            ..self
        }
    }

    /// The state after a thread is added to process `pid`.
    pub open spec fn after_spawn_thread(self, pid: u64) -> SchedulerState {
        if self.processes.contains_key(pid) {
            SchedulerState {
                threads: self.threads.insert(self.tids.next_id(), Thread { pid: pid }),
                tids: self.tids.after_next(),
                ..self
            }
        } else {
            self
        }
    }

    /// The state after the scheduler selects thread `tid`.
    pub open spec fn after_enter(self, tid: u64) -> SchedulerState {
        if self.threads.contains_key(tid) {
            SchedulerState {
                current_tid: Some(tid),
                current_pid: Some(self.threads[tid].pid),
                ..self
            }
        } else {
            self
        }
    }

    /// The state after the executing context is cleared.
    pub open spec fn after_leave(self) -> SchedulerState {
        SchedulerState { current_tid: None, current_pid: None, ..self }
    }

    /// What a request of the executing process for interrupt line `raw`
    /// returns: the vector that delivers the line, or why it was refused.
    pub open spec fn irq_outcome(self, raw: u64) -> ControlFlow<Option<TerminationReason>, u8> {
        if raw > MAX_IRQ {
            ControlFlow::Break(Some(TerminationReason::MalformedArgument))
        } else if self.irq_handlers.contains_key(raw as u8) {
            ControlFlow::Break(Some(TerminationReason::AlreadyExists))
        } else {
            ControlFlow::Continue((raw + IRQ_VECTOR_BASE) as u8)
        }
    }

    /// The state after a request of the executing process for interrupt line
    /// `raw`.
    pub open spec fn after_register_irq(self, raw: u64) -> SchedulerState {
        if raw <= MAX_IRQ && !self.irq_handlers.contains_key(raw as u8) {
            SchedulerState {
                irq_handlers: self.irq_handlers.insert(raw as u8, self.current_pid.unwrap()),
                ..self
            }
        } else {
            self
        }
    }

    /// The state after the executing thread is torn down.
    pub open spec fn after_thread_teardown(self) -> SchedulerState {
        let tid = self.current_tid.unwrap();
        let pid = self.current_pid.unwrap();
        let threads = self.threads.remove(tid);
        let tids = self.tids.after_free(tid);
        if process_has_thread(threads, pid) {
            SchedulerState { threads: threads, tids: tids, current_tid: None, ..self }
        } else {
            SchedulerState {
                processes: self.processes.remove(pid),
                threads: threads,
                pids: self.pids.after_free(pid),
                tids: tids,
                current_pid: None,
                current_tid: None,
                reclaimable: self.reclaimable + self.processes[pid],
                ..self
            }
        }
    }

    /// The state after the executing process is torn down with all its
    /// threads.
    pub open spec fn after_process_teardown(self) -> SchedulerState {
        let pid = self.current_pid.unwrap();
        SchedulerState {
            processes: self.processes.remove(pid),
            threads: threads_outside(self.threads, pid),
            pids: self.pids.after_free(pid),
            current_pid: None,
            reclaimable: self.reclaimable + self.processes[pid],
            ..self
        }
    }

    /// The state after a buffer is granted to the executing process.
    pub open spec fn after_track(self, ptr: u64, len: u64) -> SchedulerState {
        let pid = self.current_pid.unwrap();
        SchedulerState {
            processes: self.processes.insert(
                pid,
                self.processes[pid].push(KernelAlloc { base: ptr, len: len }),
            ),
            ..self
        }
    }

    /// The state after the executing process gives back the buffer `token`.
    pub open spec fn after_release(self, token: u64) -> SchedulerState {
        let pid = self.current_pid.unwrap();
        if tracks(self.processes[pid], token) {
            SchedulerState {
                processes: self.processes.insert(
                    pid,
                    self.processes[pid].remove(alloc_index(self.processes[pid], token)),
                ),
                ..self
            }
        } else {
            self
        }
    }
}

/// The scheduler.
pub struct Scheduler {
    processes: ProcessTable,
    threads: ThreadTable,
    irq_handlers: IrqTable,
    pid_gen: IncrementalNumGenerator,
    tid_gen: IncrementalNumGenerator,
    current_pid: Option<u64>,
    current_tid: Option<u64>,
    reclaimable: Vec<KernelAlloc>,
}

impl View for Scheduler {
    type V = SchedulerState;

    closed spec fn view(&self) -> SchedulerState {
        SchedulerState {
            processes: Map::new(
                |pid: u64| self.processes@.contains_key(pid),
                |pid: u64| self.processes@[pid]@,
            ),
            threads: self.threads@,
            irq_handlers: self.irq_handlers@,
            pids: self.pid_gen@,
            tids: self.tid_gen@,
            current_pid: self.current_pid,
            current_tid: self.current_tid,
            reclaimable: self.reclaimable@,
        }
    }
}

impl Scheduler {
    /// A scheduler without processes.
    pub fn new() -> (scheduler: Scheduler)
        ensures
            scheduler@ == SchedulerState::initial(),
            scheduler@.wf(),
    {
        let scheduler = Scheduler {
            processes: ProcessTable::new(),
            threads: ThreadTable::new(),
            irq_handlers: IrqTable::new(),
            pid_gen: IncrementalNumGenerator::new(),
            tid_gen: IncrementalNumGenerator::new(),
            current_pid: None,
            current_tid: None,
            reclaimable: Vec::new(),
        };
        assert(scheduler@.processes =~= Map::empty());
        scheduler
    }

    /// Whether `spawn_process` can be called.
    pub fn can_spawn(&self) -> (r: bool)
        ensures
            r == self@.can_spawn(),
    {
        self.pid_gen.can_issue() && self.tid_gen.can_issue()
    }

    /// Whether `spawn_thread` can be called.
    pub fn can_spawn_thread(&self) -> (r: bool)
        ensures
            r == self@.tids.can_issue(),
    {
        self.tid_gen.can_issue()
    }

    /// Creates a process together with its first thread and returns their
    /// identifiers, the process first.
    pub fn spawn_process(&mut self) -> (ids: (u64, u64))
        requires
            old(self)@.wf(),
            old(self)@.can_spawn(),
        ensures
            ids.0 == old(self)@.pids.next_id(),
            ids.1 == old(self)@.tids.next_id(),
            final(self)@ == old(self)@.after_spawn_process(),
            final(self)@.wf(),
            !old(self)@.processes.contains_key(ids.0),
            !old(self)@.threads.contains_key(ids.1),
    {
        let pid = self.pid_gen.next();
        let tid = self.tid_gen.next();
        self.processes.insert(pid, Process::new());
        self.threads.insert(tid, Thread { pid });
        proof {
            let before = old(self)@;
            assert(self@.processes =~= before.processes.insert(pid, Seq::empty()));
            lemma_spawn_process_keeps_wf(before);
        }
        (pid, tid)
    }

    /// Adds a thread to process `pid` and returns its identifier, or returns
    /// `None` and changes nothing if there is no such process.
    pub fn spawn_thread(&mut self, pid: u64) -> (tid: Option<u64>)
        requires
            old(self)@.wf(),
            old(self)@.tids.can_issue(),
        ensures
            tid == if old(self)@.processes.contains_key(pid) {
                Some(old(self)@.tids.next_id())
            } else {
                None
            },
            final(self)@ == old(self)@.after_spawn_thread(pid),
            final(self)@.wf(),
            tid matches Some(t) ==> !old(self)@.threads.contains_key(t),
    {
        if self.processes.get(pid).is_none() {
            return None;
        }
        let tid = self.tid_gen.next();
        self.threads.insert(tid, Thread { pid });
        proof {
            let before = old(self)@;
            assert(self@.processes =~= before.processes);
            lemma_spawn_thread_keeps_wf(before, pid);
        }
        Some(tid)
    }

    /// Makes thread `tid` and its process the executing context. Returns
    /// `false` and changes nothing if there is no such thread.
    pub fn enter(&mut self, tid: u64) -> (entered: bool)
        requires
            old(self)@.wf(),
        ensures
            entered == old(self)@.threads.contains_key(tid),
            final(self)@ == old(self)@.after_enter(tid),
            final(self)@.wf(),
            entered ==> final(self)@.in_dispatch(),
    {
        match self.threads.get(tid) {
            Some(thread) => {
                self.current_tid = Some(tid);
                self.current_pid = Some(thread.pid);
                true
            },
            None => false,
        }
    }

    /// Clears the executing context, as the scheduler does before it
    /// selects another thread.
    pub fn leave(&mut self)
        requires
            old(self)@.wf(),
        ensures
            final(self)@ == old(self)@.after_leave(),
            final(self)@.wf(),
    {
        self.current_tid = None;
        self.current_pid = None;
    }

    /// The process whose request is being served.
    pub fn current_pid(&self) -> (pid: Option<u64>)
        ensures
            pid == self@.current_pid,
    {
        self.current_pid
    }

    /// The thread whose request is being served.
    pub fn current_tid(&self) -> (tid: Option<u64>)
        ensures
            tid == self@.current_tid,
    {
        self.current_tid
    }

    /// The record of the process whose request is being served.
    pub fn current_process(&self) -> (process: Option<&Process>)
        ensures
            process is Some <==> self@.current_pid is Some && self@.processes.contains_key(
                self@.current_pid.unwrap(),
            ),
            process matches Some(p) ==> p@ == self@.processes[self@.current_pid.unwrap()],
    {
        match self.current_pid {
            Some(pid) => self.processes.get(pid),
            None => None,
        }
    }

    /// The record of process `pid`.
    pub fn process(&self, pid: u64) -> (process: Option<&Process>)
        ensures
            process is Some <==> self@.processes.contains_key(pid),
            process matches Some(p) ==> p@ == self@.processes[pid],
    {
        self.processes.get(pid)
    }

    /// The record of thread `tid`.
    pub fn thread(&self, tid: u64) -> (thread: Option<Thread>)
        ensures
            thread == if self@.threads.contains_key(tid) {
                Some(self@.threads[tid])
            } else {
                None
            },
    {
        self.threads.get(tid)
    }

    /// The process that owns interrupt line `irq`.
    pub fn irq_owner(&self, irq: u8) -> (owner: Option<u64>)
        ensures
            owner == if self@.irq_handlers.contains_key(irq) {
                Some(self@.irq_handlers[irq])
            } else {
                None
            },
    {
        self.irq_handlers.get(irq)
    }

    /// Whether the executing process tracks a buffer with this token.
    pub fn is_tracked(&self, token: u64) -> (r: bool)
        requires
            self@.wf(),
            self@.current_pid is Some,
        ensures
            r == tracks(self@.processes[self@.current_pid.unwrap()], token),
    {
        match self.current_process() {
            Some(process) => process.is_tracked(token),
            None => false,
        }
    }

    /// Records a buffer of `len` bytes at `ptr` as granted to the executing
    /// process and returns the token under which it is tracked. The buffer
    /// must not be tracked for that process yet.
    pub fn track_kernelside_alloc(&mut self, ptr: u64, len: u64) -> (token: u64)
        requires
            old(self)@.wf(),
            old(self)@.current_pid is Some,
            !tracks(old(self)@.processes[old(self)@.current_pid.unwrap()], ptr),
        ensures
            token == ptr,
            final(self)@ == old(self)@.after_track(ptr, len),
            final(self)@.wf(),
            tracks(final(self)@.processes[old(self)@.current_pid.unwrap()], token),
    {
        let pid = self.current_pid.unwrap();
        let mut process = self.processes.remove(pid).unwrap();
        let token = process.track_kernelside_alloc(ptr, len);
        self.processes.insert(pid, process);
        proof {
            let before = old(self)@;
            assert(self@.processes =~= before.after_track(ptr, len).processes);
        }
        token
    }

    /// Stops tracking the buffer `token` of the executing process and returns
    /// its record for release, or returns `None` and changes nothing if the
    /// process tracks no such buffer. A buffer can thus be released once.
    pub fn release_kernelside_alloc(&mut self, token: u64) -> (released: Option<KernelAlloc>)
        requires
            old(self)@.wf(),
            old(self)@.current_pid is Some,
        ensures
            released == if tracks(old(self)@.processes[old(self)@.current_pid.unwrap()], token) {
                Some(
                    old(self)@.processes[old(self)@.current_pid.unwrap()][alloc_index(
                        old(self)@.processes[old(self)@.current_pid.unwrap()],
                        token,
                    )],
                )
            } else {
                None
            },
            final(self)@ == old(self)@.after_release(token),
            final(self)@.wf(),
            !tracks(final(self)@.processes[old(self)@.current_pid.unwrap()], token),
    {
        let pid = self.current_pid.unwrap();
        let mut process = self.processes.remove(pid).unwrap();
        let released = process.release_kernelside_alloc(token);
        self.processes.insert(pid, process);
        proof {
            let before = old(self)@;
            assert(self@.processes =~= before.after_release(token).processes);
        }
        released
    }

    /// Hands over the buffers of removed processes for release and forgets
    /// them.
    pub fn take_reclaimable(&mut self) -> (buffers: Vec<KernelAlloc>)
        ensures
            buffers@ == old(self)@.reclaimable,
            final(self)@ == (SchedulerState { reclaimable: Seq::empty(), ..old(self)@ }),
            old(self)@.wf() ==> final(self)@.wf(),
    {
        let mut buffers: Vec<KernelAlloc> = Vec::new();
        core::mem::swap(&mut self.reclaimable, &mut buffers);
        buffers
    }

    /// Whether some thread belongs to process `pid`.
    pub fn has_thread_of(&self, pid: u64) -> (found: bool)
        ensures
            found == process_has_thread(self@.threads, pid),
    {
        let pairs = self.threads.pairs();
        let mut i: usize = 0;
        while i < pairs.len()
            invariant
                i <= pairs.len(),
                lists_threads(pairs@, self.threads@),
                forall|j: int| 0 <= j < i ==> (#[trigger] pairs@[j]).1.pid != pid,
            decreases pairs.len() - i,
        {
            if pairs[i].1.belongs_to(pid) {
                assert(self.threads@.contains_key(pairs@[i as int].0));
                return true;
            }
            i += 1;
        }
        proof {
            if process_has_thread(self.threads@, pid) {
                let tid = choose|tid: u64| #[trigger]
                    self.threads@.contains_key(tid) && self.threads@[tid].pid == pid;
                let k = choose|k: int| 0 <= k < pairs@.len() && (#[trigger] pairs@[k]).0 == tid;
                assert(pairs@[k].1 == self.threads@[tid]);
            }
        }
        false
    }

    fn reclaim(&mut self, removed: Option<Process>)
        ensures
            final(self).reclaimable@ == old(self).reclaimable@ + (match removed {
                Some(p) => p@,
                None => Seq::empty(),
            }),
            final(self).processes == old(self).processes,
            final(self).threads == old(self).threads,
            final(self).irq_handlers == old(self).irq_handlers,
            final(self).pid_gen == old(self).pid_gen,
            final(self).tid_gen == old(self).tid_gen,
            final(self).current_pid == old(self).current_pid,
            final(self).current_tid == old(self).current_tid,
    {
        match removed {
            Some(process) => {
                let mut process = process;
                self.reclaimable.append(&mut process.allocations);
            },
            None => {
                assert(self.reclaimable@ + Seq::<KernelAlloc>::empty() =~= self.reclaimable@);
            },
        }
    }
}

/// Binds the interrupt line in `state.rsi` to the executing process. Lines
/// above `MAX_IRQ` are refused with `MalformedArgument`, a line that has an
/// owner with `AlreadyExists`, and the table is then left as it was. On
/// success the vector on which the line is to be delivered is returned.
pub fn register_irq_handler(scheduler: &mut Scheduler, state: &RegisterState) -> (r: ControlFlow<
    Option<TerminationReason>,
    u8,
>)
    requires
        old(scheduler)@.current_pid is Some,
    ensures
        r == old(scheduler)@.irq_outcome(state.rsi),
        final(scheduler)@ == old(scheduler)@.after_register_irq(state.rsi),
        old(scheduler)@.wf() ==> final(scheduler)@.wf(),
{
    if state.rsi > MAX_IRQ {
        return ControlFlow::Break(Some(TerminationReason::MalformedArgument));
    }
    let irq = state.rsi as u8;
    let pid = scheduler.current_pid.unwrap();
    if !scheduler.irq_handlers.try_insert(irq, pid) {
        return ControlFlow::Break(Some(TerminationReason::AlreadyExists));
    }
    ControlFlow::Continue(irq + IRQ_VECTOR_BASE)
}

/// Removes the executing thread and releases its identifier. If no other
/// thread belongs to its process, the process goes too: its identifier is
/// released and its buffers are queued for release. The caller never resumes.
pub fn thread_teardown(scheduler: &mut Scheduler) -> (r: ControlFlow<Option<TerminationReason>>)
    requires
        old(scheduler)@.wf(),
        old(scheduler)@.in_dispatch(),
    ensures
        r == ControlFlow::<Option<TerminationReason>, ()>::Break(None),
        final(scheduler)@ == old(scheduler)@.after_thread_teardown(),
        final(scheduler)@.wf(),
{
    let id = scheduler.current_tid.unwrap();
    scheduler.threads.remove(id);
    scheduler.tid_gen.free(id);
    scheduler.current_tid = None;

    let pid = scheduler.current_pid.unwrap();
    if !scheduler.has_thread_of(pid) {
        let removed = scheduler.processes.remove(pid);
        scheduler.reclaim(removed);
        scheduler.pid_gen.free(pid);
        scheduler.current_pid = None;
    }
    proof {
        let before = old(scheduler)@;
        assert(scheduler@.processes =~= before.after_thread_teardown().processes);
        lemma_thread_teardown_keeps_wf(before);
    }
    ControlFlow::Break(None)
}

/// Removes the executing process and every thread that belongs to it,
/// releases the process identifier and queues the buffers of the process for
/// release. Thread identifiers are not released.
pub fn process_teardown(scheduler: &mut Scheduler)
    requires
        old(scheduler)@.wf(),
        old(scheduler)@.current_pid is Some,
    ensures
        final(scheduler)@ == old(scheduler)@.after_process_teardown(),
        final(scheduler)@.wf(),
{
    let pid = scheduler.current_pid.unwrap();
    let removed = scheduler.processes.remove(pid);
    scheduler.reclaim(removed);
    scheduler.pid_gen.free(pid);
    scheduler.current_pid = None;
    scheduler.threads.retain_outside(pid);
    proof {
        let before = old(scheduler)@;
        assert(scheduler@.processes =~= before.after_process_teardown().processes);
        lemma_process_teardown_keeps_wf(before);
    }
}

/// Creating a process keeps the tables consistent.
pub proof fn lemma_spawn_process_keeps_wf(s: SchedulerState)
    requires
        s.wf(),
        s.can_spawn(),
    ensures
        s.after_spawn_process().wf(),
        !s.processes.contains_key(s.pids.next_id()),
        !s.threads.contains_key(s.tids.next_id()),
{
    crate::incremental_num::lemma_next_is_fresh(s.pids);
    crate::incremental_num::lemma_next_is_fresh(s.tids);
    let t = s.after_spawn_process();
    let pid = s.pids.next_id();
    let tid = s.tids.next_id();
    assert(t.pids.live().contains(pid));
    assert(t.tids.live().contains(tid));
    assert forall|p: u64| #[trigger] t.processes.contains_key(p) implies t.pids.is_live(p)
        && distinct_bases(t.processes[p]) && process_has_thread(t.threads, p) by {
        if p == pid {
            assert(t.threads.contains_key(tid));
        } else {
            assert(s.pids.live().contains(p));
            assert(t.pids.live().contains(p));
            let w = choose|w: u64| #[trigger] s.threads.contains_key(w) && s.threads[w].pid == p;
            assert(t.threads.contains_key(w));
        }
    }
    assert forall|x: u64| #[trigger] t.threads.contains_key(x) implies t.tids.is_live(x)
        && t.processes.contains_key(t.threads[x].pid) by {
        if x != tid {
            assert(s.tids.live().contains(x));
            assert(t.tids.live().contains(x));
        }
    }
    if s.current_tid is Some {
        assert(s.tids.live().contains(s.current_tid.unwrap()));
        assert(t.tids.live().contains(s.current_tid.unwrap()));
    }
}

/// Adding a thread keeps the tables consistent.
pub proof fn lemma_spawn_thread_keeps_wf(s: SchedulerState, pid: u64)
    requires
        s.wf(),
        s.tids.can_issue(),
    ensures
        s.after_spawn_thread(pid).wf(),
        !s.threads.contains_key(s.tids.next_id()),
{
    crate::incremental_num::lemma_next_is_fresh(s.tids);
    if s.processes.contains_key(pid) {
        let t = s.after_spawn_thread(pid);
        let tid = s.tids.next_id();
        assert(t.tids.live().contains(tid));
        assert forall|p: u64| #[trigger] t.processes.contains_key(p) implies process_has_thread(
            t.threads,
            p,
        ) by {
            let w = choose|w: u64| #[trigger] s.threads.contains_key(w) && s.threads[w].pid == p;
            assert(t.threads.contains_key(w));
        }
        assert forall|x: u64| #[trigger] t.threads.contains_key(x) implies t.tids.is_live(x)
            && t.processes.contains_key(t.threads[x].pid) by {
            if x != tid {
                assert(s.tids.live().contains(x));
                assert(t.tids.live().contains(x));
            }
        }
        if s.current_tid is Some {
            assert(s.tids.live().contains(s.current_tid.unwrap()));
            assert(t.tids.live().contains(s.current_tid.unwrap()));
        }
    }
}

/// Tearing down the executing thread keeps the tables consistent.
pub proof fn lemma_thread_teardown_keeps_wf(s: SchedulerState)
    requires
        s.wf(),
        s.in_dispatch(),
    ensures
        s.after_thread_teardown().wf(),
{
    let tid = s.current_tid.unwrap();
    let pid = s.current_pid.unwrap();
    let t = s.after_thread_teardown();
    crate::incremental_num::lemma_free_releases(s.tids, tid);
    assert(s.pids.is_live(pid));
    crate::incremental_num::lemma_free_releases(s.pids, pid);
    assert forall|x: u64| #[trigger] t.threads.contains_key(x) implies t.tids.is_live(x)
        && t.processes.contains_key(t.threads[x].pid) by {
        assert(s.threads.contains_key(x));
        assert(s.tids.live().contains(x));
        assert(t.tids.live().contains(x));
    }
    assert forall|p: u64| #[trigger] t.processes.contains_key(p) implies t.pids.is_live(p)
        && distinct_bases(t.processes[p]) && process_has_thread(t.threads, p) by {
        assert(s.processes.contains_key(p));
        assert(s.pids.live().contains(p));
        if p != pid {
            if !process_has_thread(t.threads, pid) {
                assert(t.pids.live().contains(p));
            }
            let w = choose|w: u64| #[trigger] s.threads.contains_key(w) && s.threads[w].pid == p;
            assert(t.threads.contains_key(w));
        }
    }
}

/// Tearing down the executing process keeps the tables consistent.
pub proof fn lemma_process_teardown_keeps_wf(s: SchedulerState)
    requires
        s.wf(),
        s.current_pid is Some,
    ensures
        s.after_process_teardown().wf(),
{
    let pid = s.current_pid.unwrap();
    let t = s.after_process_teardown();
    crate::incremental_num::lemma_free_releases(s.pids, pid);
    assert forall|p: u64| #[trigger] t.processes.contains_key(p) implies t.pids.is_live(p)
        && distinct_bases(t.processes[p]) && process_has_thread(t.threads, p) by {
        assert(s.processes.contains_key(p));
        assert(s.pids.live().contains(p));
        assert(t.pids.live().contains(p));
        let w = choose|w: u64| #[trigger] s.threads.contains_key(w) && s.threads[w].pid == p;
        assert(t.threads.contains_key(w));
    }
    assert forall|x: u64| #[trigger] t.threads.contains_key(x) implies t.tids.is_live(x)
        && t.processes.contains_key(t.threads[x].pid) by {
        assert(s.threads.contains_key(x));
    }
}

/// Once an interrupt line has an owner, a further request for it by any
/// process is refused with `AlreadyExists` and changes nothing.
pub proof fn law_irq_claimed_once(s: SchedulerState, raw: u64, second_pid: u64)
    requires
        s.current_pid is Some,
        s.irq_outcome(raw) is Continue,
    ensures
        ({
            let claimed = s.after_register_irq(raw);
            let later = SchedulerState { current_pid: Some(second_pid), ..claimed };
            &&& claimed.irq_handlers[raw as u8] == s.current_pid.unwrap()
            &&& later.irq_outcome(raw) == ControlFlow::<Option<TerminationReason>, u8>::Break(
                Some(TerminationReason::AlreadyExists),
            )
            &&& later.after_register_irq(raw) == later
        }),
{
}

/// A request for interrupt line `0xE0` or above is refused with
/// `MalformedArgument` and changes nothing.
pub proof fn law_irq_out_of_range(s: SchedulerState, raw: u64)
    requires
        raw >= 0xE0,
    ensures
        s.irq_outcome(raw) == ControlFlow::<Option<TerminationReason>, u8>::Break(
            Some(TerminationReason::MalformedArgument),
        ),
        s.after_register_irq(raw) == s,
{
}

/// No request changes the owner of a line that has one.
pub proof fn law_irq_owner_is_kept(s: SchedulerState, raw: u64, line: u8)
    requires
        s.irq_handlers.contains_key(line),
    ensures
        s.after_register_irq(raw).irq_handlers.contains_key(line),
        s.after_register_irq(raw).irq_handlers[line] == s.irq_handlers[line],
{
}

/// Tearing down the last thread of a process removes the process record and
/// releases the process identifier.
pub proof fn law_last_thread_takes_process(s: SchedulerState)
    requires
        s.wf(),
        s.in_dispatch(),
        forall|tid: u64| #[trigger]
            s.threads.contains_key(tid) && tid != s.current_tid.unwrap() ==> s.threads[tid].pid
                != s.current_pid.unwrap(),
    ensures
        !s.after_thread_teardown().processes.contains_key(s.current_pid.unwrap()),
        !s.after_thread_teardown().pids.is_live(s.current_pid.unwrap()),
        !s.after_thread_teardown().threads.contains_key(s.current_tid.unwrap()),
        !s.after_thread_teardown().tids.is_live(s.current_tid.unwrap()),
        s.after_thread_teardown().current_pid is None,
        s.after_thread_teardown().reclaimable == s.reclaimable + s.processes[s.current_pid.unwrap()],
{
    let tid = s.current_tid.unwrap();
    let pid = s.current_pid.unwrap();
    crate::incremental_num::lemma_free_releases(s.tids, tid);
    crate::incremental_num::lemma_free_releases(s.pids, pid);
    let threads = s.threads.remove(tid);
    if process_has_thread(threads, pid) {
        let w = choose|w: u64| #[trigger] threads.contains_key(w) && threads[w].pid == pid;
        assert(s.threads.contains_key(w) && w != tid);
    }
}

/// Tearing down one of several threads of a process leaves the process
/// record as it was and does not release the process identifier.
pub proof fn law_other_threads_keep_process(s: SchedulerState, other: u64)
    requires
        s.wf(),
        s.in_dispatch(),
        s.threads.contains_key(other),
        other != s.current_tid.unwrap(),
        s.threads[other].pid == s.current_pid.unwrap(),
    ensures
        s.after_thread_teardown().processes == s.processes,
        s.after_thread_teardown().pids == s.pids,
        s.after_thread_teardown().pids.is_live(s.current_pid.unwrap()),
        s.after_thread_teardown().current_pid == s.current_pid,
        !s.after_thread_teardown().threads.contains_key(s.current_tid.unwrap()),
        s.after_thread_teardown().threads.contains_key(other),
{
    let tid = s.current_tid.unwrap();
    let threads = s.threads.remove(tid);
    assert(threads.contains_key(other));
}

/// A buffer is tracked for the process it was granted to from the grant until
/// it is released on request, and a second request finds nothing to release.
pub proof fn law_buffer_released_once(s: SchedulerState, ptr: u64, len: u64)
    requires
        s.wf(),
        s.current_pid is Some,
        !tracks(s.processes[s.current_pid.unwrap()], ptr),
    ensures
        ({
            let pid = s.current_pid.unwrap();
            let granted = s.after_track(ptr, len);
            let released = granted.after_release(ptr);
            &&& tracks(granted.processes[pid], ptr)
            &&& granted.processes[pid][alloc_index(granted.processes[pid], ptr)] == (KernelAlloc {
                base: ptr,
                len: len,
            })
            &&& released == s
            &&& released.after_release(ptr) == released
        }),
{
    let pid = s.current_pid.unwrap();
    let before = s.processes[pid];
    let granted = s.after_track(ptr, len);
    let after = granted.processes[pid];
    assert(after[before.len() as int].base == ptr);
    let k = alloc_index(after, ptr);
    assert(after[k].base == ptr);
    if k < before.len() {
        assert(before[k].base == ptr);
    }
    assert(k == before.len());
    assert(after.remove(k) =~= before);
    assert(granted.after_release(ptr).processes =~= s.processes);
}

} // verus!
