use neural_os::capability::{CapError, Capability, RIGHT_GRANT, RIGHT_RECV, RIGHT_SEND};
use neural_os::kernel::Kernel;
use neural_os::neural::TaskClass;
use neural_os::syscall::{
    dispatch, SyscallAction, ERR_BAD_EP, ERR_BAD_SYS, ERR_DEAD, ERR_DENIED, ERR_FULL, ERR_NO_CAP, OK,
    SYS_CREATE_ENDPOINT, SYS_EXIT, SYS_GETPID, SYS_GETTID, SYS_GRANT, SYS_PRINT, SYS_RECV, SYS_SEND,
};
use neural_os::thread::ThreadState;
use neural_os::trapframe::TrapFrame;

/// Server (pid 1, tid 1) and client (pid 2, tid 2) sharing endpoint 1; the
/// server runs. Returns the kernel and the client's capability slot.
fn pair() -> (Kernel, usize) {
    let mut k = Kernel::new();
    k.spawn(0x1000, TaskClass::Interactive, 8).unwrap();
    k.spawn(0x2000, TaskClass::Batch, 4).unwrap();
    let ep = k.endpoints.allocate().unwrap();
    let (_, cc) = k.install_endpoint_caps(ep, 1, 2).unwrap();
    k.cpu.current = 1;
    k.scheduler.current = 1;
    k.threads.slots[1].state = ThreadState::Running;
    (k, cc)
}

fn run(k: &mut Kernel, tid: usize) {
    k.cpu.current = tid;
    k.scheduler.current = tid;
    k.threads.slots[tid].state = ThreadState::Running;
}

#[test]
fn spawn_fills_process_and_thread() {
    let mut k = Kernel::new();
    let (pid, tid) = k.spawn(0x4242, TaskClass::RealTime, 3).unwrap();
    assert_eq!((pid, tid), (1, 1));
    let t = &k.threads.slots[1];
    assert_eq!(t.state, ThreadState::Ready);
    assert_eq!(t.pid, 1);
    assert_eq!(t.priority, 3);
    assert_eq!(t.class, TaskClass::RealTime);
    assert_eq!(t.trapframe.mepc, 0x4242);
    assert_eq!(t.context.ra, 0x4242);
    assert_eq!(t.trapframe.sp % 16, 0);
    assert_eq!(t.trapframe.sp, t.context.sp);
    assert_ne!(t.trapframe.sp, 0);
    assert!(k.processes.slots[1].alive);
    assert_eq!(k.processes.slots[1].primary_tid, 1);
}

#[test]
fn spawn_fails_when_processes_run_out() {
    let mut k = Kernel::new();
    for _ in 1..8 {
        assert!(k.spawn(0, TaskClass::Batch, 0).is_some());
    }
    assert!(k.spawn(0, TaskClass::Batch, 0).is_none());
}

#[test]
fn install_caps_rejects_unknown_endpoint() {
    let mut k = Kernel::new();
    k.spawn(0, TaskClass::Batch, 0).unwrap();
    assert_eq!(k.install_endpoint_caps(3, 1, 1), Err(()));
}

#[test]
fn recv_denied_without_recv_right() {
    let (mut k, cc) = pair();
    run(&mut k, 2);
    let before = k.threads.slots[2].state;
    assert_eq!(k.sys_recv(cc), ERR_DENIED);
    assert_eq!(k.ipc_denied, 1);
    assert_eq!(k.threads.slots[2].state, before);
}

#[test]
fn empty_and_bad_slots_read_as_no_cap() {
    let (mut k, _) = pair();
    assert_eq!(k.sys_send(5, 0, 0, 0), ERR_NO_CAP);
    assert_eq!(k.sys_send(99, 0, 0, 0), ERR_NO_CAP);
    assert_eq!(k.ipc_denied, 0);
}

#[test]
fn stale_capability_after_revoke() {
    let (mut k, cc) = pair();
    k.endpoints.slots[1].revoke();
    run(&mut k, 2);
    assert_eq!(k.sys_send(cc, 1, 2, 3), ERR_BAD_EP);
    k.endpoints.allocate().unwrap();
    assert_eq!(k.sys_send(cc, 1, 2, 3), ERR_NO_CAP);
}

#[test]
fn expired_capability_is_denied() {
    let (mut k, _) = pair();
    let gen = k.endpoints.slots[1].generation;
    let cap = Capability::endpoint(1, gen, RIGHT_SEND | RIGHT_RECV, 1).with_expiry(5);
    k.processes.slots[1].caps.insert_at(3, cap).unwrap();
    k.scheduler.tick = 4;
    assert_eq!(k.sys_recv(3), OK);
    run(&mut k, 1);
    k.scheduler.tick = 5;
    assert_eq!(k.sys_recv(3), ERR_DENIED);
    assert_eq!(k.ipc_denied, 0);
}

#[test]
fn wrong_object_type_is_no_cap() {
    let (mut k, _) = pair();
    let mut cap = Capability::endpoint(1, 0, RIGHT_SEND, 1);
    cap.object_type = neural_os::capability::ObjectType::Process;
    k.processes.slots[1].caps.insert_at(4, cap).unwrap();
    assert_eq!(k.sys_send(4, 0, 0, 0), ERR_NO_CAP);
}

#[test]
fn receiver_gets_message_in_registers() {
    let (mut k, cc) = pair();
    assert_eq!(k.sys_recv(1), OK);
    assert_eq!(k.threads.slots[1].blocked_on, Some(1));
    assert!(k.want_resched);
    run(&mut k, 2);
    assert_eq!(k.sys_send(cc, 11, 22, 33), OK);
    let tf = k.threads.slots[1].trapframe;
    assert_eq!((tf.a0, tf.a1, tf.a2, tf.a3, tf.a4), (OK, 11, 22, 33, 2));
    assert_eq!(k.threads.slots[1].blocked_on, None);
    assert_eq!(k.ipc_sends, 1);
    assert_eq!(k.ipc_recvs, 1);
    assert_eq!(k.ipc_blocks, 1);
}

#[test]
fn senders_are_served_in_arrival_order() {
    let mut k = Kernel::new();
    for _ in 0..3 {
        k.spawn(0, TaskClass::Batch, 0).unwrap();
    }
    let ep = k.endpoints.allocate().unwrap();
    let (_, c2) = k.install_endpoint_caps(ep, 1, 2).unwrap();
    let (_, c3) = k.install_endpoint_caps(ep, 1, 3).unwrap();
    run(&mut k, 2);
    assert_eq!(k.sys_send(c2, 200, 0, 0), OK);
    run(&mut k, 3);
    assert_eq!(k.sys_send(c3, 300, 0, 0), OK);
    run(&mut k, 1);
    assert_eq!(k.sys_recv(1), OK);
    assert_eq!(k.threads.slots[1].ipc_msg.words[0], 200);
    assert_eq!(k.threads.slots[2].state, ThreadState::Ready);
    assert_eq!(k.threads.slots[3].state, ThreadState::BlockedSend);
    assert_eq!(k.sys_recv(1), OK);
    assert_eq!(k.threads.slots[1].ipc_msg.words[0], 300);
    assert_eq!(k.threads.slots[1].ipc_msg.sender, 3);
}

#[test]
fn full_send_queue_gives_err_full() {
    let mut k = Kernel::new();
    for _ in 0..7 {
        k.spawn(0, TaskClass::Batch, 0).unwrap();
    }
    let ep = k.endpoints.allocate().unwrap();
    k.install_endpoint_caps(ep, 1, 2).unwrap();
    // park eight senders (tid 2 repeatedly counts as separate waits)
    for _ in 0..8 {
        run(&mut k, 2);
        assert_eq!(k.sys_send(1, 5, 0, 0), OK);
    }
    run(&mut k, 2);
    assert_eq!(k.sys_send(1, 6, 0, 0), ERR_FULL);
    assert_eq!(k.threads.slots[2].state, ThreadState::Ready);
    assert_eq!(k.threads.slots[2].blocked_on, None);
}

#[test]
fn exit_cancels_wait_and_kills_process() {
    let (mut k, _) = pair();
    assert_eq!(k.sys_recv(1), OK);
    assert!(k.endpoints.slots[1].receivers.contains(1));
    run(&mut k, 1);
    k.threads.slots[1].state = ThreadState::BlockedRecv;
    k.threads.slots[1].blocked_on = Some(1);
    k.sys_exit();
    assert_eq!(k.threads.slots[1].state, ThreadState::Exited);
    assert_eq!(k.threads.slots[1].blocked_on, None);
    assert!(!k.endpoints.slots[1].receivers.contains(1));
    assert!(!k.processes.slots[1].alive);
}

#[test]
fn create_endpoint_and_grant() {
    let (mut k, _) = pair();
    let slot = k.sys_create_endpoint(0);
    assert_eq!(slot, 2);
    let cap = *k.processes.slots[1].caps.get(slot).unwrap();
    assert_eq!(cap.object_id, 2);
    assert_eq!(cap.rights, RIGHT_SEND | RIGHT_RECV | RIGHT_GRANT);
    assert_eq!(cap.owner, 1);
    let granted = k.sys_grant(slot, 2, RIGHT_SEND as usize);
    assert_eq!(granted, 2);
    assert_eq!(k.processes.slots[2].caps.get(2).unwrap().rights, RIGHT_SEND);
    // no grant right on the client's copy
    run(&mut k, 2);
    assert_eq!(k.sys_grant(2, 1, RIGHT_SEND as usize), ERR_DENIED);
    // dead destination
    run(&mut k, 1);
    assert_eq!(k.sys_grant(slot, 5, 0), ERR_DEAD);
    assert_eq!(k.sys_grant(slot, 50, 0), ERR_DEAD);
}

#[test]
fn create_endpoint_with_full_table_revokes_it() {
    let (mut k, _) = pair();
    for i in 2..16 {
        k.processes.slots[1]
            .caps
            .insert_at(i, Capability::endpoint(9, 0, 0, 1))
            .unwrap();
    }
    assert_eq!(k.sys_create_endpoint(RIGHT_SEND as usize), ERR_FULL);
    assert!(!k.endpoints.slots[2].used);
    assert_eq!(k.endpoints.slots[2].generation, 1);
}

#[test]
fn dispatch_reports_print_and_exit() {
    let (mut k, _) = pair();
    let mut tf = TrapFrame::zero();
    tf.a7 = SYS_PRINT;
    tf.a0 = 0x5000;
    tf.a1 = 12;
    assert_eq!(dispatch(&mut k, &mut tf), SyscallAction::Print { ptr: 0x5000, len: 12 });
    assert_eq!(tf.a0, OK);
    let mut tf = TrapFrame::zero();
    tf.a7 = SYS_PRINT;
    tf.a1 = 129;
    assert_eq!(dispatch(&mut k, &mut tf), SyscallAction::Nothing);
    let mut tf = TrapFrame::zero();
    tf.a7 = SYS_GETPID;
    dispatch(&mut k, &mut tf);
    assert_eq!(tf.a0, 1);
    let mut tf = TrapFrame::zero();
    tf.a7 = SYS_GETTID;
    dispatch(&mut k, &mut tf);
    assert_eq!(tf.a0, 1);
    let mut tf = TrapFrame::zero();
    tf.a7 = 77;
    dispatch(&mut k, &mut tf);
    assert_eq!(tf.a0, ERR_BAD_SYS);
    let mut tf = TrapFrame::zero();
    tf.a7 = SYS_EXIT;
    tf.a0 = 123;
    assert_eq!(dispatch(&mut k, &mut tf), SyscallAction::Exited { tid: 1 });
    assert_eq!(k.threads.slots[1].state, ThreadState::Exited);
    // the caller no longer runs, so its registers keep their values
    assert_eq!(tf.a0, 123);
    assert_eq!(tf.mepc, 4);
    assert!(k.want_resched);
}

#[test]
fn dispatch_recv_fills_ipc_registers() {
    let (mut k, cc) = pair();
    run(&mut k, 2);
    assert_eq!(k.sys_send(cc, 7, 8, 9), OK);
    run(&mut k, 1);
    let mut tf = TrapFrame::zero();
    tf.a7 = SYS_RECV;
    tf.a0 = 1;
    dispatch(&mut k, &mut tf);
    assert_eq!((tf.a0, tf.a1, tf.a2, tf.a3, tf.a4), (OK, 7, 8, 9, 2));
    let mut tf = TrapFrame::zero();
    tf.a7 = SYS_SEND;
    tf.a0 = 9;
    dispatch(&mut k, &mut tf);
    assert_eq!(tf.a0, ERR_NO_CAP);
    let mut tf = TrapFrame::zero();
    tf.a7 = SYS_CREATE_ENDPOINT;
    dispatch(&mut k, &mut tf);
    assert_eq!(tf.a0, 2);
    let mut tf = TrapFrame::zero();
    tf.a7 = SYS_GRANT;
    tf.a0 = 2;
    tf.a1 = 2;
    tf.a2 = RIGHT_RECV as usize;
    dispatch(&mut k, &mut tf);
    assert_eq!(tf.a0, 2);
}

#[test]
fn wake_ignores_idle_slot_and_running_threads() {
    let (mut k, _) = pair();
    k.wake(0, OK);
    k.wake(99, OK);
    k.threads.slots[2].trapframe.a0 = 5;
    k.wake(2, OK);
    assert_eq!(k.threads.slots[2].trapframe.a0, 5);
    assert_eq!(k.threads.slots[2].state, ThreadState::Ready);
    k.threads.slots[2].state = ThreadState::BlockedSend;
    k.wake(2, ERR_FULL);
    assert_eq!(k.threads.slots[2].state, ThreadState::Ready);
    assert_eq!(k.threads.slots[2].trapframe.a0, ERR_FULL);
}

#[test]
fn cap_errors_map_to_codes() {
    assert_eq!(usize::from(CapError::Denied), ERR_DENIED);
    assert_eq!(usize::from(CapError::Expired), ERR_DENIED);
    assert_eq!(usize::from(CapError::EmptySlot), ERR_NO_CAP);
    assert_eq!(usize::from(CapError::BadIndex), ERR_NO_CAP);
    assert_eq!(usize::from(CapError::WrongType), ERR_NO_CAP);
    assert_eq!(usize::from(CapError::StaleGeneration), ERR_NO_CAP);
    assert_eq!(usize::from(CapError::TableFull), ERR_FULL);
}

#[test]
fn timer_ticks_and_requests_preemption() {
    let (mut k, _) = pair();
    // thread 1 runs, thread 2 is ready; quantum is 3 ticks
    k.on_timer();
    k.on_timer();
    assert_eq!(k.scheduler.tick, 2);
    assert_eq!(k.threads.slots[1].ticks_used, 2);
    assert_eq!(k.threads.slots[1].cpu_time, 2);
    assert_eq!(k.threads.slots[2].wait_time, 2);
    assert!(!k.want_resched);
    k.on_timer();
    assert!(k.want_resched);
    let next = k.reschedule();
    assert_eq!(next, 2);
    assert_eq!(k.threads.slots[2].state, ThreadState::Running);
    assert_eq!(k.threads.slots[1].state, ThreadState::Ready);
    assert_eq!(k.context_switches, 1);
    assert!(!k.want_resched);
}

#[test]
fn reschedule_prefers_priority() {
    let (mut k, _) = pair();
    // server (prio 8) runs; client (prio 4) ready: the server is preferred
    // only when ready, so the client gets the hart
    assert_eq!(k.reschedule(), 2);
    // now server ready (8) and client running: server wins
    assert_eq!(k.reschedule(), 1);
    assert_eq!(k.threads.slots[2].state, ThreadState::Ready);
}
