use core::ops::ControlFlow;
use kernel_core::scheduler::process_teardown;
use kernel_core::scheduler::register_irq_handler;
use kernel_core::scheduler::thread_teardown;
use kernel_core::scheduler::KernelAlloc;
use kernel_core::scheduler::Process;
use kernel_core::scheduler::Scheduler;
use kernel_core::scheduler::Thread;
use kernel_core::scheduler::IRQ_VECTOR_BASE;
use kernel_core::scheduler::MAX_IRQ;
use kernel_core::syscall::RegisterState;
use kernel_core::syscall::TerminationReason;

fn request(rsi: u64) -> RegisterState {
    RegisterState { rax: 0, rdi: 0, rsi, rdx: 0, rcx: 0, r8: 0 }
}

#[test]
fn a_new_scheduler_is_empty() {
    let s = Scheduler::new();
    assert_eq!(s.current_pid(), None);
    assert_eq!(s.current_tid(), None);
    assert!(s.process(1).is_none());
    assert_eq!(s.thread(1), None);
    assert_eq!(s.irq_owner(0), None);
    assert!(s.current_process().is_none());
    assert!(s.can_spawn());
    assert!(s.can_spawn_thread());
}

#[test]
fn spawning_issues_identifiers_from_one() {
    let mut s = Scheduler::new();
    assert_eq!(s.spawn_process(), (1, 1));
    assert_eq!(s.spawn_process(), (2, 2));
    assert_eq!(s.spawn_thread(1), Some(3));
    assert_eq!(s.spawn_thread(9), None);
    assert_eq!(s.thread(1), Some(Thread { pid: 1 }));
    assert_eq!(s.thread(2), Some(Thread { pid: 2 }));
    assert_eq!(s.thread(3), Some(Thread { pid: 1 }));
    assert_eq!(s.thread(4), None);
    assert!(s.process(1).is_some());
    assert!(s.process(2).is_some());
    assert!(s.process(3).is_none());
}

#[test]
fn entering_sets_the_context_and_leaving_clears_it() {
    let mut s = Scheduler::new();
    let (pid, tid) = s.spawn_process();
    assert!(!s.enter(77));
    assert_eq!(s.current_tid(), None);
    assert!(s.enter(tid));
    assert_eq!(s.current_tid(), Some(tid));
    assert_eq!(s.current_pid(), Some(pid));
    assert!(s.current_process().is_some());
    s.leave();
    assert_eq!(s.current_tid(), None);
    assert_eq!(s.current_pid(), None);
}

#[test]
fn an_irq_is_bound_to_the_calling_process() {
    let mut s = Scheduler::new();
    let (pid, tid) = s.spawn_process();
    assert!(s.enter(tid));
    assert_eq!(register_irq_handler(&mut s, &request(1)), ControlFlow::Continue(0x21));
    assert_eq!(s.irq_owner(1), Some(pid));
    assert_eq!(s.irq_owner(2), None);
}

#[test]
fn the_vector_lies_thirty_two_above_the_line() {
    let mut s = Scheduler::new();
    let (_, tid) = s.spawn_process();
    assert!(s.enter(tid));
    assert_eq!(IRQ_VECTOR_BASE, 0x20);
    assert_eq!(register_irq_handler(&mut s, &request(0)), ControlFlow::Continue(0x20));
    assert_eq!(register_irq_handler(&mut s, &request(0xDF)), ControlFlow::Continue(0xFF));
}

#[test]
fn registering_an_irq_twice_fails_with_already_exists() {
    let mut s = Scheduler::new();
    let (first, t1) = s.spawn_process();
    let (_, t2) = s.spawn_process();
    assert!(s.enter(t1));
    assert_eq!(register_irq_handler(&mut s, &request(12)), ControlFlow::Continue(44));
    assert_eq!(
        register_irq_handler(&mut s, &request(12)),
        ControlFlow::Break(Some(TerminationReason::AlreadyExists))
    );
    s.leave();
    assert!(s.enter(t2));
    assert_eq!(
        register_irq_handler(&mut s, &request(12)),
        ControlFlow::Break(Some(TerminationReason::AlreadyExists))
    );
    assert_eq!(s.irq_owner(12), Some(first));
}

#[test]
fn an_irq_above_the_last_line_is_malformed() {
    let mut s = Scheduler::new();
    let (_, tid) = s.spawn_process();
    assert!(s.enter(tid));
    assert_eq!(MAX_IRQ, 0xDF);
    for raw in [0xE0u64, 0xE1, 0xFF, 0x100, 0x1_0000_0001, u64::MAX] {
        assert_eq!(
            register_irq_handler(&mut s, &request(raw)),
            ControlFlow::Break(Some(TerminationReason::MalformedArgument))
        );
    }
    assert_eq!(s.irq_owner(0xE0), None);
    assert_eq!(s.irq_owner(0), None);
    assert_eq!(s.irq_owner(1), None);
}

#[test]
fn tearing_down_the_last_thread_removes_the_process() {
    let mut s = Scheduler::new();
    let (pid, tid) = s.spawn_process();
    assert!(s.enter(tid));
    assert_eq!(thread_teardown(&mut s), ControlFlow::Break(None));
    assert_eq!(s.thread(tid), None);
    assert!(s.process(pid).is_none());
    assert_eq!(s.current_tid(), None);
    assert_eq!(s.current_pid(), None);
    // Both identifiers are free again.
    assert_eq!(s.spawn_process(), (pid, tid));
}

#[test]
fn tearing_down_one_of_two_threads_keeps_the_process() {
    let mut s = Scheduler::new();
    let (pid, first) = s.spawn_process();
    let second = s.spawn_thread(pid).unwrap();
    assert!(s.enter(first));
    assert_eq!(thread_teardown(&mut s), ControlFlow::Break(None));
    assert_eq!(s.thread(first), None);
    assert_eq!(s.thread(second), Some(Thread { pid }));
    assert!(s.process(pid).is_some());
    assert_eq!(s.current_tid(), None);
    assert_eq!(s.current_pid(), Some(pid));
    // The thread identifier is free again, the process identifier is not.
    assert_eq!(s.spawn_process(), (pid + 1, first));
}

#[test]
fn thread_teardown_leaves_other_processes_alone() {
    let mut s = Scheduler::new();
    let (a, ta) = s.spawn_process();
    let (b, tb) = s.spawn_process();
    assert!(s.enter(ta));
    assert_eq!(thread_teardown(&mut s), ControlFlow::Break(None));
    assert!(s.process(a).is_none());
    assert!(s.process(b).is_some());
    assert_eq!(s.thread(tb), Some(Thread { pid: b }));
}

#[test]
fn process_teardown_removes_every_thread_of_the_process() {
    let mut s = Scheduler::new();
    let (a, a1) = s.spawn_process();
    let (b, b1) = s.spawn_process();
    let a2 = s.spawn_thread(a).unwrap();
    let a3 = s.spawn_thread(a).unwrap();
    assert!(s.enter(a2));
    process_teardown(&mut s);
    assert!(s.process(a).is_none());
    assert_eq!(s.thread(a1), None);
    assert_eq!(s.thread(a2), None);
    assert_eq!(s.thread(a3), None);
    assert!(s.process(b).is_some());
    assert_eq!(s.thread(b1), Some(Thread { pid: b }));
    assert_eq!(s.current_pid(), None);
    // The thread that made the request is still named as executing.
    assert_eq!(s.current_tid(), Some(a2));
}

#[test]
fn process_teardown_frees_the_pid_but_no_tid() {
    let mut s = Scheduler::new();
    let (a, a1) = s.spawn_process();
    let a2 = s.spawn_thread(a).unwrap();
    assert_eq!((a, a1, a2), (1, 1, 2));
    assert!(s.enter(a1));
    process_teardown(&mut s);
    s.leave();
    assert_eq!(s.spawn_process(), (1, 3));
}

#[test]
fn a_tracked_buffer_is_returned_under_its_address() {
    let mut s = Scheduler::new();
    let (_, tid) = s.spawn_process();
    assert!(s.enter(tid));
    assert!(!s.is_tracked(0x4000));
    assert_eq!(s.track_kernelside_alloc(0x4000, 24), 0x4000);
    assert!(s.is_tracked(0x4000));
    assert_eq!(s.track_kernelside_alloc(0x8000, 3), 0x8000);
    let allocs = s.current_process().unwrap().allocations().clone();
    assert_eq!(
        allocs,
        vec![KernelAlloc { base: 0x4000, len: 24 }, KernelAlloc { base: 0x8000, len: 3 }]
    );
}

#[test]
fn a_buffer_is_released_exactly_once() {
    let mut s = Scheduler::new();
    let (_, tid) = s.spawn_process();
    assert!(s.enter(tid));
    let token = s.track_kernelside_alloc(0x4000, 24);
    s.track_kernelside_alloc(0x5000, 8);
    assert_eq!(s.release_kernelside_alloc(token), Some(KernelAlloc { base: 0x4000, len: 24 }));
    assert_eq!(s.release_kernelside_alloc(token), None);
    assert!(!s.is_tracked(token));
    assert!(s.is_tracked(0x5000));
    assert_eq!(s.release_kernelside_alloc(0x1234), None);
}

#[test]
fn buffers_are_tracked_per_process() {
    let mut s = Scheduler::new();
    let (a, ta) = s.spawn_process();
    let (b, tb) = s.spawn_process();
    assert!(s.enter(ta));
    s.track_kernelside_alloc(0x1000, 1);
    s.leave();
    assert!(s.enter(tb));
    assert!(!s.is_tracked(0x1000));
    s.track_kernelside_alloc(0x2000, 2);
    assert_eq!(s.process(a).unwrap().allocations().len(), 1);
    assert_eq!(s.process(b).unwrap().allocations().len(), 1);
    assert!(s.process(a).unwrap().is_tracked(0x1000));
    assert!(s.process(b).unwrap().is_tracked(0x2000));
}

#[test]
fn teardown_queues_the_buffers_of_the_process_for_release() {
    let mut s = Scheduler::new();
    let (_, tid) = s.spawn_process();
    assert!(s.enter(tid));
    s.track_kernelside_alloc(0x4000, 24);
    s.track_kernelside_alloc(0x5000, 8);
    assert_eq!(s.take_reclaimable(), vec![]);
    assert_eq!(thread_teardown(&mut s), ControlFlow::Break(None));
    assert_eq!(
        s.take_reclaimable(),
        vec![KernelAlloc { base: 0x4000, len: 24 }, KernelAlloc { base: 0x5000, len: 8 }]
    );
    assert_eq!(s.take_reclaimable(), vec![]);
}

#[test]
fn process_teardown_queues_the_buffers_too() {
    let mut s = Scheduler::new();
    let (pid, tid) = s.spawn_process();
    s.spawn_thread(pid);
    assert!(s.enter(tid));
    s.track_kernelside_alloc(0x9000, 5);
    process_teardown(&mut s);
    assert_eq!(s.take_reclaimable(), vec![KernelAlloc { base: 0x9000, len: 5 }]);
}

#[test]
fn a_surviving_process_keeps_its_buffers() {
    let mut s = Scheduler::new();
    let (pid, first) = s.spawn_process();
    s.spawn_thread(pid);
    assert!(s.enter(first));
    s.track_kernelside_alloc(0x9000, 5);
    assert_eq!(thread_teardown(&mut s), ControlFlow::Break(None));
    assert_eq!(s.take_reclaimable(), vec![]);
    assert!(s.process(pid).unwrap().is_tracked(0x9000));
}

#[test]
fn a_process_record_tracks_and_releases() {
    let mut p = Process::new();
    assert!(p.allocations().is_empty());
    assert_eq!(p.track_kernelside_alloc(7, 70), 7);
    assert_eq!(p.track_kernelside_alloc(8, 80), 8);
    assert_eq!(p.track_kernelside_alloc(9, 90), 9);
    assert_eq!(p.release_kernelside_alloc(8), Some(KernelAlloc { base: 8, len: 80 }));
    assert_eq!(
        p.allocations().clone(),
        vec![KernelAlloc { base: 7, len: 70 }, KernelAlloc { base: 9, len: 90 }]
    );
    assert_eq!(p.release_kernelside_alloc(8), None);
}

#[test]
fn thread_predicates_compare_the_process() {
    let t = Thread { pid: 4 };
    assert!(t.belongs_to(4));
    assert!(!t.belongs_to(5));
    assert!(t.is_outside(5));
    assert!(!t.is_outside(4));
}

#[test]
fn a_process_has_threads_until_the_last_is_gone() {
    let mut s = Scheduler::new();
    assert!(!s.has_thread_of(1));
    let (a, a1) = s.spawn_process();
    let (b, _) = s.spawn_process();
    let a2 = s.spawn_thread(a).unwrap();
    assert!(s.has_thread_of(a));
    assert!(s.has_thread_of(b));
    assert!(!s.has_thread_of(3));
    assert!(s.enter(a1));
    assert_eq!(thread_teardown(&mut s), ControlFlow::Break(None));
    assert!(s.has_thread_of(a));
    assert!(s.enter(a2));
    assert_eq!(thread_teardown(&mut s), ControlFlow::Break(None));
    assert!(!s.has_thread_of(a));
    assert!(s.has_thread_of(b));
}

#[test]
fn many_threads_are_all_found() {
    let mut s = Scheduler::new();
    let (a, _) = s.spawn_process();
    let (b, _) = s.spawn_process();
    let mut of_b = Vec::new();
    for round in 0..50 {
        let owner = if round % 2 == 0 { a } else { b };
        let tid = s.spawn_thread(owner).unwrap();
        if owner == b {
            of_b.push(tid);
        }
    }
    assert!(s.enter(of_b[0]));
    process_teardown(&mut s);
    assert!(!s.has_thread_of(b));
    assert!(s.has_thread_of(a));
    for tid in of_b {
        assert_eq!(s.thread(tid), None);
    }
    let survivors = (1..=52u64).filter(|&tid| s.thread(tid).is_some()).count();
    assert_eq!(survivors, 26);
}
