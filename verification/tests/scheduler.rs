use neural_os::cpu::Cpu;
use neural_os::scheduler::{switch_to, Scheduler, TaskState, MAX_TASKS};
use neural_os::thread::{ThreadState, ThreadTable};

fn table_with(states: &[(usize, ThreadState, u8)]) -> ThreadTable {
    let mut t = ThreadTable::new();
    for &(i, st, prio) in states {
        t.slots[i].state = st;
        t.slots[i].priority = prio;
    }
    t
}

#[test]
fn pick_prefers_higher_priority() {
    let t = table_with(&[(1, ThreadState::Ready, 1), (2, ThreadState::Ready, 9), (3, ThreadState::Ready, 4)]);
    let s = Scheduler::new();
    assert_eq!(s.pick_next(&t), 2);
}

#[test]
fn pick_breaks_ties_round_robin() {
    let t = table_with(&[(1, ThreadState::Ready, 5), (2, ThreadState::Running, 5), (3, ThreadState::Ready, 5)]);
    let mut s = Scheduler::new();
    s.current = 2;
    // after 2 comes 3, then wraps to 1
    assert_eq!(s.pick_next(&t), 3);
    s.current = 3;
    assert_eq!(s.pick_next(&t), 1);
}

#[test]
fn pick_skips_blocked_and_falls_back() {
    let t = table_with(&[(1, ThreadState::BlockedRecv, 9), (2, ThreadState::Running, 1)]);
    let mut s = Scheduler::new();
    s.current = 2;
    assert_eq!(s.pick_next(&t), 2);
    let t = table_with(&[(1, ThreadState::BlockedRecv, 9), (2, ThreadState::Exited, 1)]);
    assert_eq!(s.pick_next(&t), 0);
}

#[test]
fn preemption_after_quantum_with_other_ready() {
    let mut t = table_with(&[(1, ThreadState::Running, 1), (2, ThreadState::Ready, 1)]);
    let mut s = Scheduler::new();
    s.current = 1;
    t.slots[1].ticks_used = 2;
    assert!(!s.preempt_needed(&t));
    t.slots[1].ticks_used = 3;
    assert!(s.preempt_needed(&t));
    t.slots[2].state = ThreadState::BlockedSend;
    assert!(!s.preempt_needed(&t));
}

#[test]
fn idle_slot_is_always_preempted_for_ready_work() {
    let t = table_with(&[(4, ThreadState::Ready, 0)]);
    let s = Scheduler::new();
    assert!(s.preempt_needed(&t));
}

#[test]
fn switch_moves_running_state() {
    let mut t = table_with(&[(1, ThreadState::Running, 1), (2, ThreadState::Ready, 1)]);
    t.slots[2].ticks_used = 7;
    let mut cpu = Cpu::new();
    cpu.current = 1;
    switch_to(&mut cpu, &mut t.slots, 2);
    assert_eq!(cpu.current, 2);
    assert_eq!(t.slots[1].state, ThreadState::Ready);
    assert_eq!(t.slots[2].state, ThreadState::Running);
    assert_eq!(t.slots[2].ticks_used, 0);
}

#[test]
fn add_task_fills_slots_in_order() {
    let mut s = Scheduler::new();
    for id in 1..=5 {
        s.add_task(id, 0x8000_0000 + id);
    }
    assert_eq!(s.tasks[0].unwrap().state, TaskState::Running);
    assert_eq!(s.tasks[1].unwrap().state, TaskState::Ready);
    assert_eq!(s.tasks[3].unwrap().id, 4);
    assert!(s.tasks.iter().all(|t| t.is_some()));
    assert_eq!(s.tasks.len(), MAX_TASKS);
}

#[test]
fn task_reschedule_round_robin() {
    let mut s = Scheduler::new();
    s.add_task(1, 0);
    s.add_task(2, 0);
    s.add_task(3, 0);
    // yield from slot 0: slot 1 runs
    assert_eq!(s.reschedule(TaskState::Ready), Some(1));
    assert_eq!(s.current, 1);
    assert_eq!(s.tasks[0].unwrap().state, TaskState::Ready);
    assert_eq!(s.tasks[1].unwrap().state, TaskState::Running);
    // slot 1 blocks: slot 2 is next
    assert_eq!(s.reschedule(TaskState::Blocked), Some(2));
    // slot 2 exits: slot 0 is the only ready one
    assert_eq!(s.reschedule(TaskState::Terminated), Some(0));
    // slot 0 blocks with nobody ready: nothing runs
    assert_eq!(s.reschedule(TaskState::Blocked), None);
    assert_eq!(s.current, 0);
    assert_eq!(s.tasks[0].unwrap().state, TaskState::Blocked);
}

#[test]
fn lone_task_yield_keeps_running() {
    let mut s = Scheduler::new();
    s.add_task(1, 0);
    assert_eq!(s.reschedule(TaskState::Ready), Some(0));
    assert_eq!(s.tasks[0].unwrap().state, TaskState::Running);
}
