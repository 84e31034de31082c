use neural_os::capability::{Capability, RIGHT_RECV};
use neural_os::kernel::Kernel;
use neural_os::neural::TaskClass;
use neural_os::syscall::{ERR_DENIED, OK, SYS_RECV, SYS_SEND, SYS_YIELD};
use neural_os::thread::ThreadState;
use neural_os::trapframe::TrapFrame;

fn dummy_entry() {}

fn setup_pair() -> (Kernel, usize, usize, usize) {
    let mut k = Kernel::new();
    let entry = dummy_entry as usize;
    let (server_pid, server_tid) = k.spawn(entry, TaskClass::Interactive, 8).unwrap();
    let (client_pid, client_tid) = k.spawn(entry, TaskClass::Batch, 4).unwrap();
    let ep = k.endpoints.allocate().unwrap();
    let (sc, cc) = k.install_endpoint_caps(ep, server_pid, client_pid).unwrap();
    k.cpu.current = server_tid;
    k.scheduler.current = server_tid;
    k.threads.slots[server_tid].state = ThreadState::Running;
    let _ = client_tid;
    let _ = sc;
    (k, server_tid, client_tid, cc)
}

#[test]
fn blocking_recv_then_send_rendezvous() {
    let (mut k, server, client, client_cap) = setup_pair();
    k.cpu.current = server;
    let status = k.sys_recv(1);
    assert_eq!(status, OK);
    assert_eq!(k.threads.slots[server].state, ThreadState::BlockedRecv);

    k.cpu.current = client;
    k.threads.slots[client].state = ThreadState::Running;
    let status = k.sys_send(client_cap, 42, 7, 1);
    assert_eq!(status, OK);
    assert_eq!(k.threads.slots[server].state, ThreadState::Ready);
    assert_eq!(k.threads.slots[server].ipc_msg.words[0], 42);
    assert_eq!(k.threads.slots[server].ipc_msg.words[1], 7);
    assert_eq!(k.threads.slots[server].ipc_msg.sender, client);
    assert_eq!(k.threads.slots[client].state, ThreadState::Running);
}

#[test]
fn send_denied_without_send_right() {
    let (mut k, server, _client, _cc) = setup_pair();
    k.processes.slots[k.threads.slots[server].pid]
        .caps
        .insert_at(
            2,
            Capability::endpoint(1, k.endpoints.slots[1].generation, RIGHT_RECV, 1),
        )
        .unwrap();
    k.cpu.current = server;
    let status = k.sys_send(2, 1, 0, 0);
    assert_eq!(status, ERR_DENIED);
    assert_eq!(k.ipc_denied, 1);
}

#[test]
fn yield_requests_reschedule() {
    let mut k = Kernel::new();
    let (_, tid) = k.spawn(dummy_entry as usize, TaskClass::Batch, 1).unwrap();
    k.cpu.current = tid;
    k.threads.slots[tid].state = ThreadState::Running;
    let mut tf = TrapFrame::zero();
    tf.a7 = SYS_YIELD;
    tf.mepc = 100;
    neural_os::syscall::dispatch(&mut k, &mut tf);
    assert!(k.want_resched);
    assert_eq!(tf.mepc, 104);
    assert_eq!(tf.a0, OK);
}

#[test]
fn send_without_recv_blocks_sender() {
    let (mut k, _server, client, client_cap) = setup_pair();
    k.cpu.current = client;
    k.threads.slots[client].state = ThreadState::Running;
    let status = k.sys_send(client_cap, 9, 0, 0);
    assert_eq!(status, OK);
    assert_eq!(k.threads.slots[client].state, ThreadState::BlockedSend);
    k.cpu.current = _server;
    k.threads.slots[_server].state = ThreadState::Running;
    let status = k.sys_recv(1);
    assert_eq!(status, OK);
    assert_eq!(k.threads.slots[_server].ipc_msg.words[0], 9);
    assert_eq!(k.threads.slots[client].state, ThreadState::Ready);
    let _ = SYS_SEND;
    let _ = SYS_RECV;
}
