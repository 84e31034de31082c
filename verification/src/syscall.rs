//! Syscall numbers and dispatcher. The IPC path checks capabilities first.
use vstd::prelude::*;
use crate::capability::{
    CapError,
    Capability,
    ObjectType,
    RIGHT_GRANT,
    RIGHT_RECV,
    RIGHT_SEND,
    first_free_slot,
    rights_include,
    spec_get,
};
use crate::config::{MAX_ENDPOINTS, MAX_PROCESSES, MAX_THREADS, WAIT_QUEUE};
use crate::ipc::{Endpoint, Message, first_free_endpoint, lemma_without_bounded, msg_of, without};
use crate::kernel::Kernel;
use crate::process::Process;
use crate::thread::{Thread, ThreadState};
use crate::trapframe::TrapFrame;

verus! {

pub const SYS_YIELD: usize = 0;

pub const SYS_GETPID: usize = 1;

pub const SYS_GETTID: usize = 2;

pub const SYS_PRINT: usize = 3;

pub const SYS_EXIT: usize = 4;

pub const SYS_SEND: usize = 5;

pub const SYS_RECV: usize = 6;

pub const SYS_CREATE_ENDPOINT: usize = 7;

pub const SYS_GRANT: usize = 8;

pub const OK: usize = 0;

pub const ERR_NO_CAP: usize = usize::MAX;

pub const ERR_DENIED: usize = usize::MAX - 1;

pub const ERR_BAD_EP: usize = usize::MAX - 2;

pub const ERR_DEAD: usize = usize::MAX - 3;

pub const ERR_FULL: usize = usize::MAX - 4;

pub const ERR_BAD_SYS: usize = usize::MAX - 5;

/// Longest string `SYS_PRINT` writes.
pub const PRINT_MAX: usize = 128;

/// What a capability error reads as in a syscall's return register.
pub open spec fn cap_error_code(e: CapError) -> usize {
    match e {
        CapError::Denied | CapError::Expired => ERR_DENIED,
        CapError::EmptySlot | CapError::BadIndex | CapError::WrongType
        | CapError::StaleGeneration => ERR_NO_CAP,
        CapError::TableFull => ERR_FULL,
    }
}

impl From<CapError> for usize {
    fn from(e: CapError) -> (r: usize) {
        match e {
            CapError::Denied | CapError::Expired => ERR_DENIED,
            CapError::EmptySlot | CapError::BadIndex | CapError::WrongType
            | CapError::StaleGeneration => ERR_NO_CAP,
            CapError::TableFull => ERR_FULL,
        }
    }
}

impl vstd::std_specs::convert::FromSpecImpl<CapError> for usize {
    open spec fn obeys_from_spec() -> bool {
        true
    }

    open spec fn from_spec(e: CapError) -> usize {
        cap_error_code(e)
    }
}

/// Work that a syscall leaves to the platform: printing and console notes.
#[derive(Clone, Copy, Debug, PartialEq, Eq, Structural)]
pub enum SyscallAction {
    /// Nothing to do.
    Nothing,
    /// Print `len` bytes of the caller's memory starting at address `ptr`.
    Print { ptr: usize, len: usize },
    /// Thread `tid` has exited.
    Exited { tid: usize },
}

/// The capability table of the running thread's process.
pub open spec fn cur_caps(k: Kernel) -> Seq<Capability> {
    k.processes.slots@[k.current_pid_spec() as int].caps@
}

/// The checks shared by send and receive, in order: the endpoint id when all
/// pass, else the code of the first that fails.
pub open spec fn ipc_check(k: Kernel, cap_idx: usize, right: u32) -> Result<usize, usize> {
    match spec_get(cur_caps(k), cap_idx as int) {
        Err(e) => Err(cap_error_code(e)),
        Ok(cap) => if cap.object_type != ObjectType::Endpoint {
            Err(ERR_NO_CAP)
        } else if !rights_include(cap.rights, right) {
            Err(ERR_DENIED)
        } else if cap.is_expired_spec(k.scheduler.tick as u64) {
            Err(ERR_DENIED)
        } else if !k.endpoints.valid_id(cap.object_id as int) {
            Err(ERR_BAD_EP)
        } else if cap.generation != k.endpoints.slots@[cap.object_id as int].generation {
            Err(ERR_NO_CAP)
        } else {
            Ok(cap.object_id as usize)
        },
    }
}

/// The check failed on a missing right, which the kernel counts.
pub open spec fn lacks_right(k: Kernel, cap_idx: usize, right: u32) -> bool {
    match spec_get(cur_caps(k), cap_idx as int) {
        Ok(cap) => cap.object_type == ObjectType::Endpoint && !rights_include(cap.rights, right),
        Err(_) => false,
    }
}

/// The state after a failed IPC check: only the denial counter may move.
pub open spec fn after_failed_check(k: Kernel, cap_idx: usize, right: u32) -> Kernel {
    if lacks_right(k, cap_idx, right) {
        Kernel { ipc_denied: (k.ipc_denied + 1) as u64, ..k }
    } else {
        k
    }
}

/// A blocked thread woken with `status`: ready again, no longer blocked, the
/// status in a0, and (on success with a message from a real sender) the
/// message in its IPC return registers. Other threads are left as they are.
pub open spec fn woken(t: Thread, status: usize) -> Thread {
    if t.state == ThreadState::BlockedSend || t.state == ThreadState::BlockedRecv {
        let tf = TrapFrame { a0: status, ..t.trapframe };
        let tf2 = if status == OK && t.ipc_msg.sender != 0 {
            tf.with_ipc_return(
                OK,
                t.ipc_msg.words@[0],
                t.ipc_msg.words@[1],
                t.ipc_msg.words@[2],
                t.ipc_msg.sender,
            )
        } else {
            tf
        };
        Thread { state: ThreadState::Ready, blocked_on: None, trapframe: tf2, ..t }
    } else {
        t
    }
}

/// Whether `wake` acts on `tid`: not the idle slot, inside the table.
pub open spec fn wakeable(tid: int) -> bool {
    1 <= tid < MAX_THREADS
}

/// The receiver `t` (thread `tid`) after a sender hands it `msg`.
pub open spec fn delivered(t: Thread, msg: Message, tid: int) -> Thread {
    let t1 = Thread {
        ipc_msg: msg,
        trapframe: t.trapframe.with_ipc_return(
            OK,
            msg.words@[0],
            msg.words@[1],
            msg.words@[2],
            msg.sender,
        ),
        ..t
    };
    if wakeable(tid) {
        woken(t1, OK)
    } else {
        t1
    }
}

/// What `sys_send` does: after the checks, hand the message to the
/// longest-waiting receiver, or else park the sender in the endpoint's queue.
pub open spec fn send_post(
    k0: Kernel,
    k1: Kernel,
    cap_idx: usize,
    w0: usize,
    w1: usize,
    w2: usize,
    r: usize,
) -> bool {
    let tid = k0.cpu.current as int;
    match ipc_check(k0, cap_idx, RIGHT_SEND) {
        Err(code) => r == code && k1 == after_failed_check(k0, cap_idx, RIGHT_SEND),
        Ok(ep) => {
            let e = k0.endpoints.slots@[ep as int];
            let e1 = k1.endpoints.slots@[ep as int];
            let msg = msg_of(tid as usize, w0, w1, w2);
            let t = k0.threads.slots@[tid];
            if e.receivers@.len() > 0 {
                let rt = e.receivers@[0] as int;
                &&& r == OK
                &&& k1.endpoints.slots@ == k0.endpoints.slots@.update(ep as int, e1)
                &&& e1 == (Endpoint { receivers: e1.receivers, ..e })
                &&& e1.receivers@ == e.receivers@.drop_first()
                &&& k1.threads.slots@ == k0.threads.slots@.update(
                    rt,
                    delivered(k0.threads.slots@[rt], msg, rt),
                )
                &&& k1 == Kernel {
                    threads: k1.threads,
                    endpoints: k1.endpoints,
                    ipc_sends: (k0.ipc_sends + 1) as u64,
                    ipc_recvs: (k0.ipc_recvs + 1) as u64,
                    ..k0
                }
            } else if e.senders@.len() >= WAIT_QUEUE {
                &&& r == ERR_FULL
                &&& k1.threads.slots@ == k0.threads.slots@.update(
                    tid,
                    Thread { ipc_msg: msg, blocked_on: None, state: ThreadState::Ready, ..t },
                )
                &&& k1 == Kernel { threads: k1.threads, ..k0 }
            } else {
                &&& r == OK
                &&& k1.threads.slots@ == k0.threads.slots@.update(
                    tid,
                    Thread { ipc_msg: msg, blocked_on: Some(ep), state: ThreadState::BlockedSend, ..t },
                )
                &&& k1.endpoints.slots@ == k0.endpoints.slots@.update(ep as int, e1)
                &&& e1 == (Endpoint { senders: e1.senders, ..e })
                &&& e1.senders@ == e.senders@.push(tid as usize)
                &&& k1 == Kernel {
                    threads: k1.threads,
                    endpoints: k1.endpoints,
                    want_resched: true,
                    ipc_blocks: (k0.ipc_blocks + 1) as u64,
                    ..k0
                }
            }
        },
    }
}

/// What `sys_recv` does: after the checks, take the message of the
/// longest-waiting sender and wake it, or else park the receiver.
pub open spec fn recv_post(k0: Kernel, k1: Kernel, cap_idx: usize, r: usize) -> bool {
    let tid = k0.cpu.current as int;
    match ipc_check(k0, cap_idx, RIGHT_RECV) {
        Err(code) => r == code && k1 == after_failed_check(k0, cap_idx, RIGHT_RECV),
        Ok(ep) => {
            let e = k0.endpoints.slots@[ep as int];
            let e1 = k1.endpoints.slots@[ep as int];
            let s0 = k0.threads.slots@;
            let t = s0[tid];
            if e.senders@.len() > 0 {
                let st = e.senders@[0] as int;
                let s1 = s0.update(tid, Thread { ipc_msg: s0[st].ipc_msg, ..t });
                &&& r == OK
                &&& k1.endpoints.slots@ == k0.endpoints.slots@.update(ep as int, e1)
                &&& e1 == (Endpoint { senders: e1.senders, ..e })
                &&& e1.senders@ == e.senders@.drop_first()
                &&& k1.threads.slots@ == (if wakeable(st) {
                    s1.update(st, woken(s1[st], OK))
                } else {
                    s1
                })
                &&& k1 == Kernel {
                    threads: k1.threads,
                    endpoints: k1.endpoints,
                    ipc_recvs: (k0.ipc_recvs + 1) as u64,
                    ..k0
                }
            } else if e.receivers@.len() >= WAIT_QUEUE {
                &&& r == ERR_FULL
                &&& k1.threads.slots@ == s0.update(
                    tid,
                    Thread { blocked_on: None, state: ThreadState::Ready, ..t },
                )
                &&& k1 == Kernel { threads: k1.threads, ..k0 }
            } else {
                &&& r == OK
                &&& k1.threads.slots@ == s0.update(
                    tid,
                    Thread { blocked_on: Some(ep), state: ThreadState::BlockedRecv, ..t },
                )
                &&& k1.endpoints.slots@ == k0.endpoints.slots@.update(ep as int, e1)
                &&& e1 == (Endpoint { receivers: e1.receivers, ..e })
                &&& e1.receivers@ == e.receivers@.push(tid as usize)
                &&& k1 == Kernel {
                    threads: k1.threads,
                    endpoints: k1.endpoints,
                    want_resched: true,
                    ipc_blocks: (k0.ipc_blocks + 1) as u64,
                    ..k0
                }
            }
        },
    }
}

/// What `sys_exit` does: the running thread leaves any wait queue it is in
/// and is marked exited; its process dies if it was the primary thread.
pub open spec fn exit_post(k0: Kernel, k1: Kernel) -> bool {
    let tid = k0.cpu.current as int;
    let t = k0.threads.slots@[tid];
    let pid = t.pid as int;
    &&& k1.threads.slots@ == k0.threads.slots@.update(
        tid,
        Thread { state: ThreadState::Exited, blocked_on: None, ..t },
    )
    &&& k1.processes.slots@ == (if k0.processes.in_use(pid) && k0.processes.slots@[pid].primary_tid
        == tid {
        k0.processes.slots@.update(pid, Process { alive: false, ..k0.processes.slots@[pid] })
    } else {
        k0.processes.slots@
    })
    &&& match t.blocked_on {
        Some(ep) if k0.endpoints.valid_id(ep as int) => {
            let e = k0.endpoints.slots@[ep as int];
            let e1 = k1.endpoints.slots@[ep as int];
            &&& k1.endpoints.slots@ == k0.endpoints.slots@.update(ep as int, e1)
            &&& e1.used == e.used
            &&& e1.generation == e.generation
            &&& e1.senders@ == without(e.senders@, tid as usize)
            &&& e1.receivers@ == without(e.receivers@, tid as usize)
        },
        _ => k1.endpoints == k0.endpoints,
    }
    &&& k1 == Kernel {
        threads: k1.threads,
        processes: k1.processes,
        endpoints: k1.endpoints,
        ..k0
    }
}

/// What `sys_create_endpoint` does: claim the lowest free endpoint and give
/// the caller a capability for it (default rights: send, receive, grant).
/// When the caller's table is full the endpoint is revoked again.
pub open spec fn create_post(k0: Kernel, k1: Kernel, rights: usize, r: usize) -> bool {
    let pid = k0.current_pid_spec() as int;
    match first_free_endpoint(k0.endpoints.slots@) {
        None => r == ERR_FULL && k1 == k0,
        Some(ep) => {
            let e = k0.endpoints.slots@[ep];
            let e1 = k1.endpoints.slots@[ep];
            let cap_rights: u32 = if rights == 0 {
                RIGHT_SEND | RIGHT_RECV | RIGHT_GRANT
            } else {
                rights as u32
            };
            let cap = Capability::endpoint_spec(ep as u16, e.generation, cap_rights, pid as u16);
            let p = k0.processes.slots@[pid];
            &&& k1.endpoints.slots@ == k0.endpoints.slots@.update(ep, e1)
            &&& k1 == Kernel { endpoints: k1.endpoints, processes: k1.processes, ..k0 }
            &&& match first_free_slot(p.caps@) {
                Some(i) => {
                    &&& r == i as usize
                    &&& e1 == (Endpoint { used: true, ..e })
                    &&& k1.processes.slots@ == k0.processes.slots@.update(
                        pid,
                        k1.processes.slots@[pid],
                    )
                    &&& k1.processes.slots@[pid] == (Process {
                        caps: k1.processes.slots@[pid].caps,
                        ..p
                    })
                    &&& k1.processes.slots@[pid].caps@ == p.caps@.update(i, cap)
                },
                None => {
                    &&& r == ERR_FULL
                    &&& !e1.used
                    &&& e1.generation == vstd::wrapping::u32_specs::wrapping_add(e.generation, 1)
                    &&& e1.senders@.len() == 0
                    &&& e1.receivers@.len() == 0
                    &&& k1.processes == k0.processes
                },
            }
        },
    }
}

/// What `sys_grant` does: copy a capability the caller may grant into a live
/// process's table, its rights restricted to `rights`.
pub open spec fn grant_post(
    k0: Kernel,
    k1: Kernel,
    cap_idx: usize,
    dest_pid: usize,
    rights: usize,
    r: usize,
) -> bool {
    let dest = dest_pid as int;
    match spec_get(cur_caps(k0), cap_idx as int) {
        Err(e) => r == cap_error_code(e) && k1 == k0,
        Ok(cap) => if !rights_include(cap.rights, RIGHT_GRANT) {
            r == ERR_DENIED && k1 == k0
        } else if cap.is_expired_spec(k0.scheduler.tick as u64) {
            r == ERR_DENIED && k1 == k0
        } else if !(k0.processes.in_use(dest) && k0.processes.slots@[dest].alive) {
            r == ERR_DEAD && k1 == k0
        } else {
            let p = k0.processes.slots@[dest];
            let granted = cap.restricted_spec(rights as u32);
            match first_free_slot(p.caps@) {
                None => r == ERR_FULL && k1 == k0,
                Some(i) => {
                    &&& r == i as usize
                    &&& k1.processes.slots@ == k0.processes.slots@.update(
                        dest,
                        k1.processes.slots@[dest],
                    )
                    &&& k1.processes.slots@[dest] == (Process {
                        caps: k1.processes.slots@[dest].caps,
                        ..p
                    })
                    &&& k1.processes.slots@[dest].caps@ == p.caps@.update(i, granted)
                    &&& k1 == Kernel { processes: k1.processes, ..k0 }
                },
            }
        },
    }
}

/// The effect of syscall `nr` with arguments `a0..a3` and its result `ret`.
pub open spec fn syscall_post(
    k0: Kernel,
    k1: Kernel,
    nr: usize,
    a0: usize,
    a1: usize,
    a2: usize,
    a3: usize,
    ret: usize,
) -> bool {
    if nr == SYS_YIELD {
        ret == OK && k1 == Kernel { want_resched: true, ..k0 }
    } else if nr == SYS_GETPID {
        ret == k0.current_pid_spec() && k1 == k0
    } else if nr == SYS_GETTID {
        ret == k0.cpu.current && k1 == k0
    } else if nr == SYS_PRINT {
        ret == OK && k1 == k0
    } else if nr == SYS_EXIT {
        ret == OK && k1.want_resched && exit_post(k0, Kernel { want_resched: k0.want_resched, ..k1 })
    } else if nr == SYS_SEND {
        send_post(k0, k1, a0, a1, a2, a3, ret)
    } else if nr == SYS_RECV {
        recv_post(k0, k1, a0, ret)
    } else if nr == SYS_CREATE_ENDPOINT {
        create_post(k0, k1, a0, ret)
    } else if nr == SYS_GRANT {
        grant_post(k0, k1, a0, a1, a2, ret)
    } else {
        ret == ERR_BAD_SYS && k1 == k0
    }
}

/// The trap frame and platform action after `dispatch`: the pc steps past the
/// `ecall`; a caller still running gets `ret` in a0, and a successful receive
/// also gets its message in the IPC return registers.
pub open spec fn dispatch_post(
    k0: Kernel,
    k1: Kernel,
    tf0: TrapFrame,
    tf1: TrapFrame,
    ret: usize,
    action: SyscallAction,
) -> bool {
    let tfa = TrapFrame { mepc: vstd::wrapping::usize_specs::wrapping_add(tf0.mepc, 4), ..tf0 };
    let nr = tf0.a7;
    let cur = k1.threads.slots@[k1.cpu.current as int];
    &&& syscall_post(k0, k1, nr, tf0.a0, tf0.a1, tf0.a2, tf0.a3, ret)
    &&& tf1 == (if cur.state == ThreadState::Running {
        let tfr = TrapFrame { a0: ret, ..tfa };
        if nr == SYS_RECV && ret == OK {
            tfr.with_ipc_return(
                OK,
                cur.ipc_msg.words@[0],
                cur.ipc_msg.words@[1],
                cur.ipc_msg.words@[2],
                cur.ipc_msg.sender,
            )
        } else {
            tfr
        }
    } else {
        tfa
    })
    &&& action == (if nr == SYS_PRINT && 0 < tf0.a1 <= PRINT_MAX {
        SyscallAction::Print { ptr: tf0.a0, len: tf0.a1 }
    } else if nr == SYS_EXIT {
        SyscallAction::Exited { tid: k0.cpu.current }
    } else {
        SyscallAction::Nothing
    })
}

impl Kernel {
    /// The IPC counters have room to count one more event.
    pub open spec fn counters_ok(&self) -> bool {
        &&& self.ipc_sends < u64::MAX
        &&& self.ipc_recvs < u64::MAX
        &&& self.ipc_blocks < u64::MAX
        &&& self.ipc_denied < u64::MAX
    }
}

/// Handles the `ecall` whose registers `tf` holds, and returns what is left
/// for the platform to do.
pub fn dispatch(kernel: &mut Kernel, tf: &mut TrapFrame) -> (action: SyscallAction)
    requires
        old(kernel).wf(),
        old(tf).a7 == SYS_SEND || old(tf).a7 == SYS_RECV ==> old(kernel).counters_ok(),
    ensures
        final(kernel).wf(),
        exists|ret: usize|
            dispatch_post(*old(kernel), *final(kernel), *old(tf), *final(tf), ret, action),
{
    tf.advance_pc();
    let nr = tf.syscall_number();
    let a0 = tf.arg0();
    let a1 = tf.arg1();
    let a2 = tf.arg2();
    let a3 = tf.arg3();
    let mut action = SyscallAction::Nothing;
    let ret = if nr == SYS_YIELD {
        kernel.want_resched = true;
        OK
    } else if nr == SYS_GETPID {
        kernel.current_pid()
    } else if nr == SYS_GETTID {
        kernel.cpu.current
    } else if nr == SYS_PRINT {
        if 0 < a1 && a1 <= PRINT_MAX {
            action = SyscallAction::Print { ptr: a0, len: a1 };
        }
        OK
    } else if nr == SYS_EXIT {
        action = SyscallAction::Exited { tid: kernel.cpu.current };
        kernel.sys_exit();
        kernel.want_resched = true;
        OK
    } else if nr == SYS_SEND {
        kernel.sys_send(a0, a1, a2, a3)
    } else if nr == SYS_RECV {
        kernel.sys_recv(a0)
    } else if nr == SYS_CREATE_ENDPOINT {
        kernel.sys_create_endpoint(a0)
    } else if nr == SYS_GRANT {
        kernel.sys_grant(a0, a1, a2)
    } else {
        ERR_BAD_SYS
    };
    let cur = kernel.cpu.current;
    if kernel.threads.slots[cur].state == ThreadState::Running {
        tf.set_return(ret);
        if nr == SYS_RECV && ret == OK {
            let msg = kernel.threads.slots[cur].ipc_msg;
            tf.set_ipc_return(OK, msg.words[0], msg.words[1], msg.words[2], msg.sender);
        }
    }
    assert(dispatch_post(*old(kernel), *kernel, *old(tf), *tf, ret, action));
    action
}

impl Kernel {
    /// Ends the running thread (see `exit_post`).
    pub fn sys_exit(&mut self)
        requires
            old(self).wf(),
        ensures
            final(self).wf(),
            exit_post(*old(self), *final(self)),
    {
        let tid = self.cpu.current;
        let pid = self.threads.slots[tid].pid;
        if let Some(ep) = self.threads.slots[tid].blocked_on {
            if ep < MAX_ENDPOINTS && self.endpoints.slots[ep].used {
                let ghost e = self.endpoints.slots@[ep as int];
                self.endpoints.slots[ep].cancel(tid);
                proof {
                    lemma_without_bounded(e.senders@, tid, MAX_THREADS);
                    lemma_without_bounded(e.receivers@, tid, MAX_THREADS);
                }
            }
        }
        self.threads.slots[tid].state = ThreadState::Exited;
        self.threads.slots[tid].blocked_on = None;
        if pid < MAX_PROCESSES && self.processes.slots[pid].used {
            if self.processes.slots[pid].primary_tid == tid {
                self.processes.slots[pid].alive = false;
            }
        }
        proof {
            assert(self.threads.slots@ =~= old(self).threads.slots@.update(
                tid as int,
                Thread { state: ThreadState::Exited, blocked_on: None, ..old(self).threads.slots@[tid as int] },
            ));
        }
    }

    /// Allocates an endpoint and hands the caller a capability for it (see
    /// `create_post`). Returns the capability slot, or `ERR_FULL`.
    pub fn sys_create_endpoint(&mut self, rights: usize) -> (r: usize)
        requires
            old(self).wf(),
        ensures
            final(self).wf(),
            create_post(*old(self), *final(self), rights, r),
    {
        let pid = self.current_pid();
        let ep = match self.endpoints.allocate() {
            Ok(id) => id,
            Err(_) => {
                assert(self.endpoints.slots =~= old(self).endpoints.slots);
                return ERR_FULL;
            },
        };
        let gen = self.endpoints.slots[ep].generation;
        let cap_rights: u32 = if rights == 0 {
            RIGHT_SEND | RIGHT_RECV | RIGHT_GRANT
        } else {
            #[verifier::truncate]
            (rights as u32)
        };
        let cap = Capability::endpoint(ep as u16, gen, cap_rights, pid as u16);
        match self.processes.slots[pid].caps.insert(cap) {
            Ok(idx) => {
                assert(self.processes.slots@ =~= old(self).processes.slots@.update(
                    pid as int,
                    self.processes.slots@[pid as int],
                ));
                idx
            },
            Err(_) => {
                self.endpoints.slots[ep].revoke();
                assert(self.processes.slots =~= old(self).processes.slots);
                assert(self.endpoints.slots@ =~= old(self).endpoints.slots@.update(
                    ep as int,
                    self.endpoints.slots@[ep as int],
                ));
                ERR_FULL
            },
        }
    }

    /// Copies capability `cap_idx` of the caller, restricted to `rights`, into
    /// process `dest_pid` (see `grant_post`). Returns the new slot or an error code.
    pub fn sys_grant(&mut self, cap_idx: usize, dest_pid: usize, rights: usize) -> (r: usize)
        requires
            old(self).wf(),
        ensures
            final(self).wf(),
            grant_post(*old(self), *final(self), cap_idx, dest_pid, rights, r),
    {
        let src = self.current_pid();
        let now = self.scheduler.tick;
        let src_cap = match self.processes.slots[src].caps.get(cap_idx) {
            Ok(c) => *c,
            Err(e) => return usize::from(e),
        };
        if !src_cap.has_right(RIGHT_GRANT) {
            return ERR_DENIED;
        }
        if src_cap.is_expired(now as u64) {
            return ERR_DENIED;
        }
        if dest_pid >= MAX_PROCESSES || !self.processes.slots[dest_pid].used
            || !self.processes.slots[dest_pid].alive {
            return ERR_DEAD;
        }
        let granted = src_cap.restricted(#[verifier::truncate] (rights as u32));
        match self.processes.slots[dest_pid].caps.insert(granted) {
            Ok(idx) => idx,
            Err(_) => {
                assert(self.processes.slots =~= old(self).processes.slots);
                ERR_FULL
            },
        }
    }

    /// Checks capability `cap_idx` for the right `right` and returns the
    /// endpoint it names (see `ipc_check`); a missing right is counted.
    fn check_ipc_cap(&mut self, cap_idx: usize, right: u32) -> (r: Result<usize, usize>)
        requires
            old(self).wf(),
            old(self).ipc_denied < u64::MAX,
        ensures
            r == ipc_check(*old(self), cap_idx, right),
            r is Ok ==> *final(self) == *old(self),
            r is Err ==> *final(self) == after_failed_check(*old(self), cap_idx, right),
            r matches Ok(ep) ==> ep < MAX_ENDPOINTS,
    {
        let tid = self.cpu.current;
        let pid = self.threads.slots[tid].pid;
        let now = self.scheduler.tick;
        let cap = match self.processes.slots[pid].caps.get(cap_idx) {
            Ok(c) => *c,
            Err(e) => return Err(usize::from(e)),
        };
        if cap.object_type != ObjectType::Endpoint {
            return Err(ERR_NO_CAP);
        }
        if !cap.has_right(right) {
            self.ipc_denied = self.ipc_denied + 1;
            return Err(ERR_DENIED);
        }
        if cap.is_expired(now as u64) {
            return Err(ERR_DENIED);
        }
        let ep_id = cap.object_id as usize;
        let gen = match self.endpoints.get(ep_id) {
            Ok(ep) => ep.generation,
            Err(_) => return Err(ERR_BAD_EP),
        };
        if cap.generation != gen {
            return Err(ERR_NO_CAP);
        }
        Ok(ep_id)
    }

    /// Sends the message `(w0, w1, w2)` on the endpoint of capability
    /// `cap_idx` (see `send_post`).
    pub fn sys_send(&mut self, cap_idx: usize, w0: usize, w1: usize, w2: usize) -> (r: usize)
        requires
            old(self).wf(),
            old(self).counters_ok(),
        ensures
            final(self).wf(),
            send_post(*old(self), *final(self), cap_idx, w0, w1, w2, r),
    {
        let tid = self.cpu.current;
        let ep_id = match self.check_ipc_cap(cap_idx, RIGHT_SEND) {
            Ok(ep) => ep,
            Err(code) => return code,
        };
        let msg = Message::new(tid, w0, w1, w2);
        let ghost e = self.endpoints.slots@[ep_id as int];
        if let Some(recv_tid) = self.endpoints.slots[ep_id].pop_receiver() {
            assert(e.receivers@.len() > 0);
            assert(recv_tid < MAX_THREADS);
            proof {
                assert forall|j: int| 0 <= j < e.receivers@.drop_first().len() implies #[trigger] e.receivers@.drop_first()[j] < MAX_THREADS by {
                    assert(e.receivers@.drop_first()[j] == e.receivers@[j + 1]);
                }
            }
            self.complete_rendezvous(recv_tid, msg);
            self.ipc_sends = self.ipc_sends + 1;
            return OK;
        }
        let ghost t = self.threads.slots@[tid as int];
        self.threads.slots[tid].ipc_msg = msg;
        self.threads.slots[tid].blocked_on = Some(ep_id);
        self.threads.slots[tid].state = ThreadState::BlockedSend;
        if self.endpoints.slots[ep_id].enqueue_sender(tid).is_err() {
            self.threads.slots[tid].state = ThreadState::Ready;
            self.threads.slots[tid].blocked_on = None;
            assert(self.endpoints.slots =~= old(self).endpoints.slots);
            assert(self.threads.slots@ =~= old(self).threads.slots@.update(
                tid as int,
                Thread { ipc_msg: msg, blocked_on: None, state: ThreadState::Ready, ..t },
            ));
            return ERR_FULL;
        }
        assert(self.threads.slots@ =~= old(self).threads.slots@.update(
            tid as int,
            Thread { ipc_msg: msg, blocked_on: Some(ep_id), state: ThreadState::BlockedSend, ..t },
        ));
        assert(self.endpoints.slots@ =~= old(self).endpoints.slots@.update(
            ep_id as int,
            self.endpoints.slots@[ep_id as int],
        ));
        self.want_resched = true;
        self.ipc_blocks = self.ipc_blocks + 1;
        OK
    }

    /// Receives on the endpoint of capability `cap_idx` (see `recv_post`).
    pub fn sys_recv(&mut self, cap_idx: usize) -> (r: usize)
        requires
            old(self).wf(),
            old(self).counters_ok(),
        ensures
            final(self).wf(),
            recv_post(*old(self), *final(self), cap_idx, r),
    {
        let tid = self.cpu.current;
        let ep_id = match self.check_ipc_cap(cap_idx, RIGHT_RECV) {
            Ok(ep) => ep,
            Err(code) => return code,
        };
        let ghost e = self.endpoints.slots@[ep_id as int];
        if let Some(send_tid) = self.endpoints.slots[ep_id].pop_sender() {
            assert(e.senders@.len() > 0);
            assert(send_tid < MAX_THREADS);
            proof {
                assert forall|j: int| 0 <= j < e.senders@.drop_first().len() implies #[trigger] e.senders@.drop_first()[j] < MAX_THREADS by {
                    assert(e.senders@.drop_first()[j] == e.senders@[j + 1]);
                }
            }
            let msg = self.threads.slots[send_tid].ipc_msg;
            self.threads.slots[tid].ipc_msg = msg;
            self.wake(send_tid, OK);
            self.ipc_recvs = self.ipc_recvs + 1;
            return OK;
        }
        let ghost t = self.threads.slots@[tid as int];
        self.threads.slots[tid].blocked_on = Some(ep_id);
        self.threads.slots[tid].state = ThreadState::BlockedRecv;
        if self.endpoints.slots[ep_id].enqueue_receiver(tid).is_err() {
            self.threads.slots[tid].state = ThreadState::Ready;
            self.threads.slots[tid].blocked_on = None;
            assert(self.endpoints.slots =~= old(self).endpoints.slots);
            assert(self.threads.slots@ =~= old(self).threads.slots@.update(
                tid as int,
                Thread { blocked_on: None, state: ThreadState::Ready, ..t },
            ));
            return ERR_FULL;
        }
        assert(self.threads.slots@ =~= old(self).threads.slots@.update(
            tid as int,
            Thread { blocked_on: Some(ep_id), state: ThreadState::BlockedRecv, ..t },
        ));
        assert(self.endpoints.slots@ =~= old(self).endpoints.slots@.update(
            ep_id as int,
            self.endpoints.slots@[ep_id as int],
        ));
        self.want_resched = true;
        self.ipc_blocks = self.ipc_blocks + 1;
        OK
    }

    /// Hands `msg` to the waiting receiver `recv_tid` and wakes it.
    fn complete_rendezvous(&mut self, recv_tid: usize, msg: Message)
        requires
            old(self).wf(),
            recv_tid < MAX_THREADS,
            old(self).ipc_recvs < u64::MAX,
        ensures
            final(self).wf(),
            final(self).threads.slots@ == old(self).threads.slots@.update(
                recv_tid as int,
                delivered(old(self).threads.slots@[recv_tid as int], msg, recv_tid as int),
            ),
            *final(self) == (Kernel {
                threads: final(self).threads,
                ipc_recvs: (old(self).ipc_recvs + 1) as u64,
                ..*old(self)
            }),
    {
        self.threads.slots[recv_tid].ipc_msg = msg;
        self.threads.slots[recv_tid].trapframe.set_ipc_return(
            OK,
            msg.words[0],
            msg.words[1],
            msg.words[2],
            msg.sender,
        );
        self.wake(recv_tid, OK);
        self.ipc_recvs = self.ipc_recvs + 1;
    }

    /// Wakes thread `tid` with `status` if it is blocked in IPC (see `woken`);
    /// the idle slot 0 and ids past the table are ignored.
    pub fn wake(&mut self, tid: usize, status: usize)
        requires
            old(self).wf(),
        ensures
            final(self).wf(),
            wakeable(tid as int) ==> final(self).threads.slots@ == old(self).threads.slots@.update(
                tid as int,
                woken(old(self).threads.slots@[tid as int], status),
            ),
            !wakeable(tid as int) ==> final(self).threads == old(self).threads,
            *final(self) == (Kernel { threads: final(self).threads, ..*old(self) }),
    {
        if tid == 0 || tid >= MAX_THREADS {
            return ;
        }
        let st = self.threads.slots[tid].state;
        if st == ThreadState::BlockedSend || st == ThreadState::BlockedRecv {
            self.threads.slots[tid].state = ThreadState::Ready;
            self.threads.slots[tid].blocked_on = None;
            self.threads.slots[tid].trapframe.set_return(status);
            if status == OK && self.threads.slots[tid].ipc_msg.sender != 0 {
                let msg = self.threads.slots[tid].ipc_msg;
                self.threads.slots[tid].trapframe.set_ipc_return(
                    OK,
                    msg.words[0],
                    msg.words[1],
                    msg.words[2],
                    msg.sender,
                );
            }
        }
        assert(self.threads.slots@ =~= old(self).threads.slots@.update(
            tid as int,
            woken(old(self).threads.slots@[tid as int], status),
        ));
    }
}

} // verus!
