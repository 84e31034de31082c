//! What the IPC syscalls guarantee across calls: a message passes through a
//! rendezvous unchanged whichever side arrives first, and a refused call
//! changes nothing but the denial counter.
use vstd::prelude::*;
use crate::capability::{
    Capability,
    CapabilityTable,
    ObjectType,
    RIGHT_GRANT,
    RIGHT_RECV,
    RIGHT_SEND,
    first_free_slot,
    law_restricted_never_amplifies,
    rights_include,
    spec_get,
};
use crate::config::MAX_CAPS;
use crate::config::{MAX_THREADS, WAIT_QUEUE};
use crate::ipc::{first_free_endpoint, msg_of};
use crate::kernel::Kernel;
use crate::syscall::{
    ERR_FULL,
    ERR_NO_CAP,
    OK,
    SYS_CREATE_ENDPOINT,
    SYS_GRANT,
    SYS_RECV,
    SYS_SEND,
    SyscallAction,
    create_post,
    dispatch_post,
    cur_caps,
    grant_post,
    ipc_check,
    recv_post,
    send_post,
    wakeable,
};
use crate::thread::ThreadState;
use crate::trapframe::TrapFrame;

verus! {

/// A receiver blocked on the endpoint gets the sender's three words and the
/// sender's id, in its message and in its return registers, and is ready to
/// run again; the send returns `OK`.
pub proof fn law_send_delivers_to_waiting_receiver(
    k0: Kernel,
    k1: Kernel,
    cap_idx: usize,
    w0: usize,
    w1: usize,
    w2: usize,
    r: usize,
)
    requires
        k0.wf(),
        send_post(k0, k1, cap_idx, w0, w1, w2, r),
        ipc_check(k0, cap_idx, RIGHT_SEND) is Ok,
        k0.endpoints.slots@[ipc_check(k0, cap_idx, RIGHT_SEND)->Ok_0 as int].receivers@.len() > 0,
        wakeable(
            k0.endpoints.slots@[ipc_check(k0, cap_idx, RIGHT_SEND)->Ok_0 as int].receivers@[0] as int,
        ),
        k0.threads.slots@[k0.endpoints.slots@[ipc_check(
            k0,
            cap_idx,
            RIGHT_SEND,
        )->Ok_0 as int].receivers@[0] as int].state == ThreadState::BlockedRecv,
    ensures
        ({
            let ep = ipc_check(k0, cap_idx, RIGHT_SEND)->Ok_0 as int;
            let rt = k0.endpoints.slots@[ep].receivers@[0] as int;
            let sender = k0.cpu.current;
            let t = k1.threads.slots@[rt];
            &&& r == OK
            &&& t.ipc_msg == msg_of(sender, w0, w1, w2)
            &&& t.state == ThreadState::Ready
            &&& t.blocked_on is None
            &&& t.trapframe.a0 == OK
            &&& t.trapframe.a1 == w0
            &&& t.trapframe.a2 == w1
            &&& t.trapframe.a3 == w2
            &&& t.trapframe.a4 == sender
            &&& k1.endpoints.slots@[ep].receivers@ == k0.endpoints.slots@[ep].receivers@.drop_first()
        }),
{
}

/// A receiver that finds a sender waiting takes the sender's message, and
/// the sender is woken with `OK`; the receive returns `OK`.
pub proof fn law_recv_takes_waiting_sender(k0: Kernel, k1: Kernel, cap_idx: usize, r: usize)
    requires
        k0.wf(),
        recv_post(k0, k1, cap_idx, r),
        ipc_check(k0, cap_idx, RIGHT_RECV) is Ok,
        k0.endpoints.slots@[ipc_check(k0, cap_idx, RIGHT_RECV)->Ok_0 as int].senders@.len() > 0,
        wakeable(
            k0.endpoints.slots@[ipc_check(k0, cap_idx, RIGHT_RECV)->Ok_0 as int].senders@[0] as int,
        ),
        k0.endpoints.slots@[ipc_check(k0, cap_idx, RIGHT_RECV)->Ok_0 as int].senders@[0]
            != k0.cpu.current,
        k0.threads.slots@[k0.endpoints.slots@[ipc_check(
            k0,
            cap_idx,
            RIGHT_RECV,
        )->Ok_0 as int].senders@[0] as int].state == ThreadState::BlockedSend,
    ensures
        ({
            let ep = ipc_check(k0, cap_idx, RIGHT_RECV)->Ok_0 as int;
            let st = k0.endpoints.slots@[ep].senders@[0] as int;
            let tid = k0.cpu.current as int;
            &&& r == OK
            &&& k1.threads.slots@[tid].ipc_msg == k0.threads.slots@[st].ipc_msg
            &&& k1.threads.slots@[st].state == ThreadState::Ready
            &&& k1.threads.slots@[st].blocked_on is None
            &&& k1.threads.slots@[st].trapframe.a0 == OK
            &&& k1.endpoints.slots@[ep].senders@ == k0.endpoints.slots@[ep].senders@.drop_first()
        }),
{
}

/// Sender first: a send that finds no receiver parks the sender with its
/// message; a later receive on the same endpoint (whichever thread runs it)
/// gets exactly that message and wakes the sender with `OK`.
pub proof fn law_send_then_recv_rendezvous(
    k0: Kernel,
    k1: Kernel,
    k2: Kernel,
    k3: Kernel,
    send_cap: usize,
    recv_cap: usize,
    w0: usize,
    w1: usize,
    w2: usize,
    r1: usize,
    r2: usize,
)
    requires
        k0.wf(),
        send_post(k0, k1, send_cap, w0, w1, w2, r1),
        ipc_check(k0, send_cap, RIGHT_SEND) is Ok,
        k0.endpoints.slots@[ipc_check(k0, send_cap, RIGHT_SEND)->Ok_0 as int].receivers@.len() == 0,
        k0.endpoints.slots@[ipc_check(k0, send_cap, RIGHT_SEND)->Ok_0 as int].senders@.len() == 0,
        wakeable(k0.cpu.current as int),
        // Between the calls only the running thread, and the state of the
        // receiving thread, change.
        k2 == (Kernel { cpu: k2.cpu, threads: k2.threads, ..k1 }),
        k2.cpu.current != k0.cpu.current,
        k2.cpu.current < MAX_THREADS,
        k2.threads.slots@ == k1.threads.slots@.update(
            k2.cpu.current as int,
            k2.threads.slots@[k2.cpu.current as int],
        ),
        recv_post(k2, k3, recv_cap, r2),
        ipc_check(k2, recv_cap, RIGHT_RECV) == Ok::<usize, usize>(
            ipc_check(k0, send_cap, RIGHT_SEND)->Ok_0,
        ),
    ensures
        r1 == OK,
        r2 == OK,
        k3.threads.slots@[k2.cpu.current as int].ipc_msg == msg_of(k0.cpu.current, w0, w1, w2),
        k3.threads.slots@[k0.cpu.current as int].state == ThreadState::Ready,
        k3.threads.slots@[k0.cpu.current as int].trapframe.a0 == OK,
{
    let ep = ipc_check(k0, send_cap, RIGHT_SEND)->Ok_0 as int;
    let tid0 = k0.cpu.current as int;
    let tid2 = k2.cpu.current as int;
    let msg = msg_of(k0.cpu.current, w0, w1, w2);
    assert(k0.endpoints.slots@[ep].senders@.len() < WAIT_QUEUE);
    assert(k1.endpoints.slots@[ep].senders@ =~= seq![k0.cpu.current]);
    assert(k2.endpoints == k1.endpoints);
    assert(k2.endpoints.slots@[ep].senders@[0] == k0.cpu.current);
    assert(k1.threads.slots@[tid0].ipc_msg == msg);
    assert(k1.threads.slots@[tid0].state == ThreadState::BlockedSend);
    assert(k2.threads.slots@[tid0] == k1.threads.slots@[tid0]);
    let s0 = k2.threads.slots@;
    let s1 = s0.update(tid2, crate::thread::Thread { ipc_msg: s0[tid0].ipc_msg, ..s0[tid2] });
    assert(s1[tid0] == k1.threads.slots@[tid0]);
    assert(k3.threads.slots@ == s1.update(tid0, crate::syscall::woken(s1[tid0], OK)));
    assert(k3.threads.slots@[tid2] == s1[tid2]);
}

/// Receiver first: a receive that finds no sender parks the receiver; a later
/// send on the same endpoint delivers its three words and the sender's id to
/// it and makes it ready.
pub proof fn law_recv_then_send_rendezvous(
    k0: Kernel,
    k1: Kernel,
    k2: Kernel,
    k3: Kernel,
    recv_cap: usize,
    send_cap: usize,
    w0: usize,
    w1: usize,
    w2: usize,
    r1: usize,
    r2: usize,
)
    requires
        k0.wf(),
        recv_post(k0, k1, recv_cap, r1),
        ipc_check(k0, recv_cap, RIGHT_RECV) is Ok,
        k0.endpoints.slots@[ipc_check(k0, recv_cap, RIGHT_RECV)->Ok_0 as int].senders@.len() == 0,
        k0.endpoints.slots@[ipc_check(k0, recv_cap, RIGHT_RECV)->Ok_0 as int].receivers@.len() == 0,
        wakeable(k0.cpu.current as int),
        k2 == (Kernel { cpu: k2.cpu, threads: k2.threads, ..k1 }),
        k2.cpu.current != k0.cpu.current,
        k2.cpu.current < MAX_THREADS,
        k2.threads.slots@ == k1.threads.slots@.update(
            k2.cpu.current as int,
            k2.threads.slots@[k2.cpu.current as int],
        ),
        send_post(k2, k3, send_cap, w0, w1, w2, r2),
        ipc_check(k2, send_cap, RIGHT_SEND) == Ok::<usize, usize>(
            ipc_check(k0, recv_cap, RIGHT_RECV)->Ok_0,
        ),
    ensures
        r1 == OK,
        r2 == OK,
        k3.threads.slots@[k0.cpu.current as int].ipc_msg == msg_of(k2.cpu.current, w0, w1, w2),
        k3.threads.slots@[k0.cpu.current as int].state == ThreadState::Ready,
        k3.threads.slots@[k0.cpu.current as int].trapframe.a1 == w0,
{
    let ep = ipc_check(k0, recv_cap, RIGHT_RECV)->Ok_0 as int;
    let tid0 = k0.cpu.current as int;
    assert(k0.endpoints.slots@[ep].receivers@.len() < WAIT_QUEUE);
    assert(k1.endpoints.slots@[ep].receivers@ =~= seq![k0.cpu.current]);
    assert(k2.endpoints == k1.endpoints);
    assert(k2.endpoints.slots@[ep].receivers@[0] == k0.cpu.current);
    assert(k1.threads.slots@[tid0].state == ThreadState::BlockedRecv);
    assert(k2.threads.slots@[tid0] == k1.threads.slots@[tid0]);
}

/// A send or receive refused by the capability check moves no thread, touches
/// no endpoint or capability table, and only ever counts the denial.
pub proof fn law_refused_ipc_changes_nothing(
    k0: Kernel,
    k1: Kernel,
    cap_idx: usize,
    w0: usize,
    w1: usize,
    w2: usize,
    r: usize,
    sending: bool,
)
    requires
        k0.ipc_denied < u64::MAX,
        sending ==> send_post(k0, k1, cap_idx, w0, w1, w2, r) && ipc_check(k0, cap_idx, RIGHT_SEND) is Err,
        !sending ==> recv_post(k0, k1, cap_idx, r) && ipc_check(k0, cap_idx, RIGHT_RECV) is Err,
    ensures
        k1.threads == k0.threads,
        k1.endpoints == k0.endpoints,
        k1.processes == k0.processes,
        k1.cpu == k0.cpu,
        k1.ipc_sends == k0.ipc_sends,
        k1.ipc_recvs == k0.ipc_recvs,
        k1.ipc_blocks == k0.ipc_blocks,
        k1.ipc_denied == k0.ipc_denied || k1.ipc_denied == k0.ipc_denied + 1,
{
}

/// A capability minted before its endpoint was revoked (the endpoint's
/// generation has moved on by one) no longer works for IPC.
pub proof fn law_stale_capability_refused(k: Kernel, cap_idx: usize, right: u32)
    requires
        spec_get(cur_caps(k), cap_idx as int) is Ok,
        spec_get(cur_caps(k), cap_idx as int)->Ok_0.object_type == ObjectType::Endpoint,
        rights_include(spec_get(cur_caps(k), cap_idx as int)->Ok_0.rights, right),
        !spec_get(cur_caps(k), cap_idx as int)->Ok_0.is_expired_spec(k.scheduler.tick as u64),
        k.endpoints.valid_id(spec_get(cur_caps(k), cap_idx as int)->Ok_0.object_id as int),
        k.endpoints.slots@[spec_get(cur_caps(k), cap_idx as int)->Ok_0.object_id as int].generation
            == vstd::wrapping::u32_specs::wrapping_add(
            spec_get(cur_caps(k), cap_idx as int)->Ok_0.generation,
            1,
        ),
    ensures
        ipc_check(k, cap_idx, right) == Err::<usize, usize>(ERR_NO_CAP),
{
}

/// A successful grant puts into the destination a capability for the same
/// object and generation whose rights are among both the source's and the
/// requested ones; the source needed the grant right.
pub proof fn law_grant_restricts(
    k0: Kernel,
    k1: Kernel,
    cap_idx: usize,
    dest_pid: usize,
    rights: usize,
    r: usize,
    right: u32,
)
    requires
        grant_post(k0, k1, cap_idx, dest_pid, rights, r),
        r < MAX_CAPS,
    ensures
        ({
            let src = spec_get(cur_caps(k0), cap_idx as int)->Ok_0;
            let g = k1.processes.slots@[dest_pid as int].caps@[r as int];
            &&& spec_get(cur_caps(k0), cap_idx as int) is Ok
            &&& rights_include(src.rights, RIGHT_GRANT)
            &&& g.object_type == src.object_type
            &&& g.object_id == src.object_id
            &&& g.generation == src.generation
            &&& rights_include(g.rights, right) ==> rights_include(src.rights, right)
                && rights_include(rights as u32, right)
        }),
{
    let src = spec_get(cur_caps(k0), cap_idx as int)->Ok_0;
    assert(spec_get(cur_caps(k0), cap_idx as int) is Ok);
    law_restricted_never_amplifies(src, rights as u32, right);
    let p = k0.processes.slots@[dest_pid as int];
    crate::capability::CapabilityTable::lemma_len(&p.caps);
    assert(first_free_slot(p.caps@) is Some);
    let i = first_free_slot(p.caps@)->Some_0;
    assert(i == r);
    assert(k1.processes.slots@[dest_pid as int].caps@[i] == src.restricted_spec(rights as u32));
}

/// A send trap is the send syscall on the caller's registers: capability
/// slot in a0 and the three message words in a1, a2, a3, in that order.
pub proof fn law_send_trap_is_sys_send(
    k0: Kernel,
    k1: Kernel,
    tf0: TrapFrame,
    tf1: TrapFrame,
    ret: usize,
    action: SyscallAction,
)
    requires
        dispatch_post(k0, k1, tf0, tf1, ret, action),
        tf0.a7 == SYS_SEND,
    ensures
        send_post(k0, k1, tf0.a0, tf0.a1, tf0.a2, tf0.a3, ret),
        action == SyscallAction::Nothing,
{
}

/// Every trap reads its arguments from the caller's registers in order:
/// receive and create-endpoint take a0, grant takes a0, a1, a2 (capability
/// slot, destination process, rights), send takes a0 and the words a1, a2,
/// a3; the caller resumes at the instruction after the `ecall`.
pub proof fn law_trap_arguments(
    k0: Kernel,
    k1: Kernel,
    tf0: TrapFrame,
    tf1: TrapFrame,
    ret: usize,
    action: SyscallAction,
)
    requires
        dispatch_post(k0, k1, tf0, tf1, ret, action),
    ensures
        tf0.a7 == SYS_SEND ==> send_post(k0, k1, tf0.a0, tf0.a1, tf0.a2, tf0.a3, ret),
        tf0.a7 == SYS_RECV ==> recv_post(k0, k1, tf0.a0, ret),
        tf0.a7 == SYS_CREATE_ENDPOINT ==> create_post(k0, k1, tf0.a0, ret),
        tf0.a7 == SYS_GRANT ==> grant_post(k0, k1, tf0.a0, tf0.a1, tf0.a2, ret),
        tf1.mepc == vstd::wrapping::usize_specs::wrapping_add(tf0.mepc, 4),
{
}

/// A send trap that finds a receiver blocked on the endpoint hands it the
/// caller's a1, a2, a3 as message words 0, 1, 2, and the receiver finds them
/// in its own a1, a2, a3, with the caller's thread id in a4 and `OK` in a0.
pub proof fn law_send_trap_delivers_registers_in_order(
    k0: Kernel,
    k1: Kernel,
    tf0: TrapFrame,
    tf1: TrapFrame,
    ret: usize,
    action: SyscallAction,
)
    requires
        k0.wf(),
        dispatch_post(k0, k1, tf0, tf1, ret, action),
        tf0.a7 == SYS_SEND,
        ipc_check(k0, tf0.a0, RIGHT_SEND) is Ok,
        k0.endpoints.slots@[ipc_check(k0, tf0.a0, RIGHT_SEND)->Ok_0 as int].receivers@.len() > 0,
        wakeable(
            k0.endpoints.slots@[ipc_check(k0, tf0.a0, RIGHT_SEND)->Ok_0 as int].receivers@[0] as int,
        ),
        k0.threads.slots@[k0.endpoints.slots@[ipc_check(
            k0,
            tf0.a0,
            RIGHT_SEND,
        )->Ok_0 as int].receivers@[0] as int].state == ThreadState::BlockedRecv,
    ensures
        ({
            let ep = ipc_check(k0, tf0.a0, RIGHT_SEND)->Ok_0 as int;
            let rt = k0.endpoints.slots@[ep].receivers@[0] as int;
            let t = k1.threads.slots@[rt];
            &&& ret == OK
            &&& t.ipc_msg.sender == k0.cpu.current
            &&& t.ipc_msg.words@ == seq![tf0.a1, tf0.a2, tf0.a3]
            &&& t.trapframe.a0 == OK
            &&& t.trapframe.a1 == tf0.a1
            &&& t.trapframe.a2 == tf0.a2
            &&& t.trapframe.a3 == tf0.a3
            &&& t.trapframe.a4 == k0.cpu.current
        }),
{
    law_send_delivers_to_waiting_receiver(k0, k1, tf0.a0, tf0.a1, tf0.a2, tf0.a3, ret);
    let ep = ipc_check(k0, tf0.a0, RIGHT_SEND)->Ok_0 as int;
    let rt = k0.endpoints.slots@[ep].receivers@[0] as int;
    assert(k1.threads.slots@[rt].ipc_msg.words@ =~= seq![tf0.a1, tf0.a2, tf0.a3]);
}

/// The capability that creating an endpoint installs carries the rights
/// asked for: exactly `rights` (as 32 bits) when `rights` is non-zero, and
/// send, receive and grant when it is zero. It sits in the caller's table at
/// the slot returned, names an endpoint, and is owned by the caller.
pub proof fn law_create_endpoint_rights(k0: Kernel, k1: Kernel, rights: usize, r: usize)
    requires
        create_post(k0, k1, rights, r),
        r != ERR_FULL,
    ensures
        1 <= r < MAX_CAPS,
        cur_caps(k1)[r as int].object_type == ObjectType::Endpoint,
        cur_caps(k1)[r as int].owner == k0.current_pid_spec() as u16,
        rights != 0 ==> cur_caps(k1)[r as int].rights == rights as u32,
        rights == 0 ==> cur_caps(k1)[r as int].rights == RIGHT_SEND | RIGHT_RECV | RIGHT_GRANT,
        k1.endpoints.slots@[cur_caps(k1)[r as int].object_id as int].used,
        !k0.endpoints.slots@[cur_caps(k1)[r as int].object_id as int].used,
        cur_caps(k1)[r as int].generation == k1.endpoints.slots@[cur_caps(
            k1,
        )[r as int].object_id as int].generation,
{
    let pid = k0.current_pid_spec() as int;
    let ep = first_free_endpoint(k0.endpoints.slots@)->Some_0;
    let p = k0.processes.slots@[pid];
    let i = first_free_slot(p.caps@)->Some_0;
    assert(k1.threads == k0.threads && k1.cpu == k0.cpu);
    assert(k1.current_pid_spec() == k0.current_pid_spec());
    CapabilityTable::lemma_len(&p.caps);
    assert(r == i as usize);
    assert(cur_caps(k1) == p.caps@.update(i, cur_caps(k1)[i]));
}

} // verus!
