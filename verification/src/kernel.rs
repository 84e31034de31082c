//! Kernel object graph: CPU + processes + threads + endpoints + scheduler.
use vstd::prelude::*;
use crate::capability::{Capability, RIGHT_GRANT, RIGHT_RECV, RIGHT_SEND, first_free_slot};
use crate::config::{MAX_ENDPOINTS, MAX_PROCESSES, MAX_THREADS};
use crate::cpu::Cpu;
use crate::ipc::EndpointTable;
use crate::neural::TaskClass;
use crate::process::{Process, ProcessId, ProcessTable, first_unused_process, empty_caps};
use crate::scheduler::{Scheduler, is_ready, switch_to, spec_pick, spec_preempt};
use crate::thread::{Thread, ThreadId, ThreadState, ThreadTable, first_unused_thread};

verus! {

pub struct Kernel {
    pub cpu: Cpu,
    pub threads: ThreadTable,
    pub processes: ProcessTable,
    pub endpoints: EndpointTable,
    pub scheduler: Scheduler,
    pub want_resched: bool,
    pub ipc_sends: u64,
    pub ipc_recvs: u64,
    pub ipc_blocks: u64,
    pub ipc_denied: u64,
    pub context_switches: u64,
}

/// `x + 1`, stopping at `u32::MAX`.
pub open spec fn sat_inc(x: u32) -> u32 {
    if x == u32::MAX {
        x
    } else {
        (x + 1) as u32
    }
}

/// The threads after one timer tick: the current thread (unless it is the
/// idle slot 0) is charged a tick of its quantum and of CPU time; every ready
/// thread from slot 1 on waits one tick longer.
pub open spec fn ticked(s: Seq<Thread>, cur: int) -> Seq<Thread> {
    Seq::new(
        s.len(),
        |i: int|
            {
                let t = s[i];
                let t1 = if i == cur && cur != 0 {
                    Thread { ticks_used: (t.ticks_used + 1) as usize, cpu_time: sat_inc(t.cpu_time), ..t }
                } else {
                    t
                };
                if 1 <= i && t1.state == ThreadState::Ready {
                    Thread { wait_time: sat_inc(t1.wait_time), ..t1 }
                } else {
                    t1
                }
            },
    )
}

/// What `spawn` does: see its doc comment.
pub open spec fn spawn_post(
    k0: Kernel,
    k1: Kernel,
    entry: usize,
    class: TaskClass,
    priority: u8,
    r: Option<(ProcessId, ThreadId)>,
) -> bool {
    match first_unused_process(k0.processes.slots@) {
                None => r is None && k1 == k0,
                Some(p) => {
                    &&& k1 == Kernel {
                        processes: k1.processes,
                        threads: k1.threads,
                        ..k0
                    }
                    &&& forall|j: int|
                        0 <= j < MAX_PROCESSES && j != p ==> k1.processes.slots@[j] == k0.processes.slots@[j]
                    &&& k1.processes.slots@[p].pid == p
                    &&& k1.processes.slots@[p].used
                    &&& k1.processes.slots@[p].alive
                    &&& k1.processes.slots@[p].caps@ == empty_caps()
                    &&& match first_unused_thread(k0.threads.slots@) {
                        None => {
                            &&& r is None
                            &&& k1.threads == k0.threads
                            &&& k1.processes.slots@[p].primary_tid == 0
                        },
                        Some(t) => {
                            &&& r == Some((p as usize, t as usize))
                            &&& k1.processes.slots@[p].primary_tid == t
                            &&& k1.threads.slots@ == k0.threads.slots@.update(
                                t,
                                k1.threads.slots@[t],
                            )
                            &&& k0.threads.slots@[t].activated_as(
                                k1.threads.slots@[t],
                                t as usize,
                                p as usize,
                                entry,
                                class,
                                priority,
                            )
                        },
                    }
                },
            }
}

/// `s1` differs from `s0` in the capability tables of slots `a` and `b` only.
pub open spec fn only_caps_changed(s0: Seq<Process>, s1: Seq<Process>, a: int, b: int) -> bool {
    &&& s1.len() == s0.len()
    &&& forall|j: int|
        0 <= j < s0.len() ==> (#[trigger] s1[j]) == (Process { caps: s1[j].caps, ..s0[j] })
    &&& forall|j: int| 0 <= j < s0.len() && j != a && j != b ==> (#[trigger] s1[j]) == s0[j]
}

/// What `install_endpoint_caps` does: see its doc comment. Nothing changes
/// when `ep` is not an allocated endpoint; otherwise the server's capability
/// goes into its lowest free slot, then the client's into its own.
pub open spec fn install_caps_post(
    k0: Kernel,
    k1: Kernel,
    ep: usize,
    server_pid: ProcessId,
    client_pid: ProcessId,
    r: Result<(usize, usize), ()>,
) -> bool {
    let gen = k0.endpoints.slots@[ep as int].generation;
    let server_cap = Capability::endpoint_spec(
        ep as u16,
        gen,
        RIGHT_SEND | RIGHT_RECV | RIGHT_GRANT,
        server_pid as u16,
    );
    let client_cap = Capability::endpoint_spec(ep as u16, gen, RIGHT_SEND, client_pid as u16);
    let s0 = k0.processes.slots@;
    let s1 = k1.processes.slots@;
    let srv = server_pid as int;
    let cli = client_pid as int;
    &&& k1 == Kernel { processes: k1.processes, ..k0 }
    &&& only_caps_changed(s0, s1, srv, cli)
    &&& if !k0.endpoints.valid_id(ep as int) {
        r is Err && s1 == s0
    } else {
        match first_free_slot(s0[srv].caps@) {
            None => r is Err && s1 == s0,
            Some(si) => {
                let mid = s0[srv].caps@.update(si, server_cap);
                let cli_before = if cli == srv {
                    mid
                } else {
                    s0[cli].caps@
                };
                match first_free_slot(cli_before) {
                    None => r is Err && s1[srv].caps@ == mid && s1[cli].caps@ == cli_before,
                    Some(ci) => {
                        &&& r == Ok::<(usize, usize), ()>((si as usize, ci as usize))
                        &&& s1[cli].caps@ == cli_before.update(ci, client_cap)
                        &&& cli != srv ==> s1[srv].caps@ == mid
                    },
                }
            },
        }
    }
}

/// What `reschedule` does: see its doc comment.
pub open spec fn reschedule_post(k0: Kernel, k1: Kernel) -> bool {
                let next = spec_pick(k0.threads.slots@, k0.scheduler.current as int);
                let s = k0.threads.slots@;
                let cur = k0.cpu.current as int;
                if next != cur {
                    let s1 = if s[cur].state == ThreadState::Running {
                        s.update(cur, Thread { state: ThreadState::Ready, ..s[cur] })
                    } else {
                        s
                    };
                    &&& k1.threads.slots@ == s1.update(
                        next,
                        Thread { state: ThreadState::Running, ticks_used: 0, ..s1[next] },
                    )
                    &&& k1.cpu == Cpu { current: next as usize, ..k0.cpu }
                    &&& k1.scheduler == Scheduler {
                        current: next as usize,
                        ..k0.scheduler
                    }
                    &&& k1.context_switches == k0.context_switches + 1
                    &&& k1 == Kernel {
                        threads: k1.threads,
                        cpu: k1.cpu,
                        scheduler: k1.scheduler,
                        context_switches: k1.context_switches,
                        want_resched: false,
                        ..k0
                    }
                } else if s[next].state == ThreadState::Ready {
                    &&& k1.threads.slots@ == s.update(
                        next,
                        Thread { state: ThreadState::Running, ..s[next] },
                    )
                    &&& k1.cpu == Cpu { current: next as usize, ..k0.cpu }
                    &&& k1.scheduler == Scheduler {
                        current: next as usize,
                        ..k0.scheduler
                    }
                    &&& k1 == Kernel {
                        threads: k1.threads,
                        cpu: k1.cpu,
                        scheduler: k1.scheduler,
                        want_resched: false,
                        ..k0
                    }
                } else {
                    k1 == Kernel { want_resched: false, ..k0 }
                }
            }

/// What `on_timer` does: see its doc comment.
pub open spec fn timer_post(k0: Kernel, k1: Kernel) -> bool {
    &&& k1.scheduler == Scheduler { tick: (k0.scheduler.tick + 1) as usize, ..k0.scheduler }
    &&& k1.threads.slots@ == ticked(k0.threads.slots@, k0.cpu.current as int)
    &&& k1.want_resched == (k0.want_resched || spec_preempt(
        k1.threads.slots@,
        k1.scheduler.current as int,
    ))
    &&& k1 == Kernel {
        threads: k1.threads,
        scheduler: k1.scheduler,
        want_resched: k1.want_resched,
        ..k0
    }
}

impl Kernel {
    /// The indices that the kernel follows stay inside their tables.
    pub open spec fn wf(&self) -> bool {
        &&& self.cpu.current < MAX_THREADS
        &&& self.scheduler.current < MAX_THREADS
        &&& forall|i: int|
            0 <= i < MAX_THREADS ==> (#[trigger] self.threads.slots@[i]).pid < MAX_PROCESSES
        &&& forall|e: int, j: int|
            0 <= e < MAX_ENDPOINTS && 0 <= j < self.endpoints.slots@[e].senders@.len()
                ==> #[trigger] self.endpoints.slots@[e].senders@[j] < MAX_THREADS
        &&& forall|e: int, j: int|
            0 <= e < MAX_ENDPOINTS && 0 <= j < self.endpoints.slots@[e].receivers@.len()
                ==> #[trigger] self.endpoints.slots@[e].receivers@[j] < MAX_THREADS
    }

    pub fn new() -> (k: Kernel)
        ensures
            k.wf(),
            k.cpu.current == 0,
            k.cpu.hartid == 0,
            k.cpu.interrupt_depth == 0,
            !k.cpu.scheduler_enabled,
            forall|i: int| 0 <= i < MAX_THREADS ==> (#[trigger] k.threads.slots@[i]).is_unused_slot(),
            forall|i: int|
                0 <= i < MAX_PROCESSES ==> !(#[trigger] k.processes.slots@[i]).used
                    && !k.processes.slots@[i].alive && k.processes.slots@[i].caps@ == empty_caps()
                    && k.processes.slots@[i].pid == 0 && k.processes.slots@[i].primary_tid == 0,
            forall|i: int|
                0 <= i < MAX_ENDPOINTS ==> !(#[trigger] k.endpoints.slots@[i]).used
                    && k.endpoints.slots@[i].generation == 0
                    && k.endpoints.slots@[i].senders@.len() == 0
                    && k.endpoints.slots@[i].receivers@.len() == 0,
            forall|i: int| 0 <= i < crate::scheduler::MAX_TASKS ==> (#[trigger] k.scheduler.tasks@[i]) is None,
            k.scheduler.current == 0,
            k.scheduler.tick == 0,
            !k.want_resched,
            k.ipc_sends == 0,
            k.ipc_recvs == 0,
            k.ipc_blocks == 0,
            k.ipc_denied == 0,
            k.context_switches == 0,
    {
        Kernel {
            cpu: Cpu::new(),
            threads: ThreadTable::new(),
            processes: ProcessTable::new(),
            endpoints: EndpointTable::new(),
            scheduler: Scheduler::new(),
            want_resched: false,
            ipc_sends: 0,
            ipc_recvs: 0,
            ipc_blocks: 0,
            ipc_denied: 0,
            context_switches: 0,
        }
    }

    pub open spec fn current_pid_spec(&self) -> ProcessId {
        self.threads.slots@[self.cpu.current as int].pid
    }

    /// The process of the running thread.
    pub fn current_pid(&self) -> (r: ProcessId)
        requires
            self.cpu.current < MAX_THREADS,
        ensures
            r == self.current_pid_spec(),
    {
        self.threads.slots[self.cpu.current].pid
    }

    /// Creates a process with one thread that starts at `entry`. Claims the
    /// lowest free process slot, then the lowest unused thread slot; when no
    /// thread slot is left the claimed process slot stays claimed.
    pub fn spawn(&mut self, entry: usize, class: TaskClass, priority: u8) -> (r: Option<
        (ProcessId, ThreadId),
    >)
        requires
            old(self).wf(),
        ensures
            final(self).wf(),
            spawn_post(*old(self), *final(self), entry, class, priority, r),
    {
        let pid = match self.processes.allocate() {
            Some(p) => p,
            None => {
                assert(self.processes.slots =~= old(self).processes.slots);
                return None;
            },
        };
        let tid = match self.threads.allocate() {
            Some(t) => t,
            None => return None,
        };
        self.threads.slots[tid].activate(tid, pid, entry, class, priority);
        self.processes.slots[pid].primary_tid = tid;
        proof {
            assert(self.threads.slots@ =~= old(self).threads.slots@.update(
                tid as int,
                self.threads.slots@[tid as int],
            ));
        }
        Some((pid, tid))
    }

    /// Gives the server full IPC rights (send, receive, grant) and the client
    /// the send right on endpoint `ep`, at the endpoint's current generation.
    /// Returns the two capability slots.
    pub fn install_endpoint_caps(&mut self, ep: usize, server_pid: ProcessId, client_pid: ProcessId) -> (r:
        Result<(usize, usize), ()>)
        requires
            old(self).wf(),
            server_pid < MAX_PROCESSES,
            client_pid < MAX_PROCESSES,
        ensures
            final(self).wf(),
            install_caps_post(*old(self), *final(self), ep, server_pid, client_pid, r),
    {
        let gen = match self.endpoints.get(ep) {
            Ok(e) => e.generation,
            Err(_) => return Err(()),
        };
        let server_cap = Capability::endpoint(
            ep as u16,
            gen,
            RIGHT_SEND | RIGHT_RECV | RIGHT_GRANT,
            server_pid as u16,
        );
        let client_cap = Capability::endpoint(ep as u16, gen, RIGHT_SEND, client_pid as u16);
        let ghost s0 = self.processes.slots@;
        let s = match self.processes.slots[server_pid].caps.insert(server_cap) {
            Ok(i) => i,
            Err(_) => {
                assert(self.processes.slots =~= old(self).processes.slots);
                return Err(());
            },
        };
        let ghost s1 = self.processes.slots@;
        let c = match self.processes.slots[client_pid].caps.insert(client_cap) {
            Ok(i) => i,
            Err(_) => {
                return Err(());
            },
        };
        Ok((s, c))
    }

    /// Runs the scheduler's choice: switches to it if it differs from the
    /// running thread, else keeps (or starts) the current thread running.
    /// Clears the reschedule request and returns the thread now on the hart.
    pub fn reschedule(&mut self) -> (r: ThreadId)
        requires
            old(self).wf(),
            old(self).context_switches < u64::MAX,
        ensures
            final(self).wf(),
            r == final(self).cpu.current,
            !final(self).want_resched,
            reschedule_post(*old(self), *final(self)),
    {
        let next = self.scheduler.pick_next(&self.threads);
        if next != self.cpu.current {
            switch_to(&mut self.cpu, &mut self.threads.slots, next);
            self.scheduler.current = next;
            self.context_switches = self.context_switches + 1;
        } else if self.threads.slots[next].state == ThreadState::Ready {
            self.threads.slots[next].state = ThreadState::Running;
            self.cpu.current = next;
            self.scheduler.current = next;
        }
        self.want_resched = false;
        self.cpu.current
    }

    /// Timer tick: advances the clock, charges the running thread, ages the
    /// ready ones, and asks for a reschedule when preemption is due.
    pub fn on_timer(&mut self)
        requires
            old(self).wf(),
            old(self).scheduler.tick < usize::MAX,
            old(self).cpu.current != 0 ==> old(self).threads.slots@[old(
                self,
            ).cpu.current as int].ticks_used < usize::MAX,
        ensures
            final(self).wf(),
            timer_post(*old(self), *final(self)),
    {
        self.scheduler.tick = self.scheduler.tick + 1;
        let cur = self.cpu.current;
        let ghost s0 = self.threads.slots@;
        if cur != 0 {
            self.threads.slots[cur].ticks_used = self.threads.slots[cur].ticks_used + 1;
            self.threads.slots[cur].cpu_time = self.threads.slots[cur].cpu_time.saturating_add(1);
        }
        let ghost s1 = self.threads.slots@;
        let mut i: usize = 1;
        while i < MAX_THREADS
            invariant
                1 <= i <= MAX_THREADS,
                cur == self.cpu.current,
                cur < MAX_THREADS,
                self.scheduler.current < MAX_THREADS,
                self.scheduler == (Scheduler { tick: (old(self).scheduler.tick + 1) as usize, ..old(self).scheduler }),
                *self == (Kernel { threads: self.threads, scheduler: self.scheduler, ..*old(self) }),
                forall|j: int| 0 <= j < MAX_THREADS ==> (#[trigger] self.threads.slots@[j]).pid == s0[j].pid,
                s0.len() == MAX_THREADS,
                s1 == (if cur != 0 {
                    s0.update(
                        cur as int,
                        Thread {
                            ticks_used: (s0[cur as int].ticks_used + 1) as usize,
                            cpu_time: sat_inc(s0[cur as int].cpu_time),
                            ..s0[cur as int]
                        },
                    )
                } else {
                    s0
                }),
                forall|j: int| 0 <= j < i ==> self.threads.slots@[j] == #[trigger] ticked(s0, cur as int)[j],
                forall|j: int| i <= j < MAX_THREADS ==> self.threads.slots@[j] == #[trigger] s1[j],
            decreases MAX_THREADS - i,
        {
            assert(ticked(s0, cur as int)[i as int] == (if s1[i as int].state == ThreadState::Ready {
                Thread { wait_time: sat_inc(s1[i as int].wait_time), ..s1[i as int] }
            } else {
                s1[i as int]
            }));
            if self.threads.slots[i].state == ThreadState::Ready {
                self.threads.slots[i].wait_time = self.threads.slots[i].wait_time.saturating_add(1);
            }
            i = i + 1;
        }
        proof {
            assert(ticked(s0, cur as int)[0] == s1[0]);
            assert(self.threads.slots@ =~= ticked(s0, cur as int));
        }
        if self.scheduler.preempt_needed(&self.threads) {
            self.want_resched = true;
        }
    }
}

/// A thread that has used up its quantum while another thread is ready is
/// flagged for preemption on that tick.
pub proof fn law_quantum_expiry_requests_reschedule(k0: Kernel, k1: Kernel, other: int)
    requires
        k0.wf(),
        k0.scheduler.current == k0.cpu.current,
        timer_post(k0, k1),
        k0.cpu.current != 0,
        k0.threads.slots@[k0.cpu.current as int].state == ThreadState::Running,
        k0.threads.slots@[k0.cpu.current as int].ticks_used < usize::MAX,
        k0.threads.slots@[k0.cpu.current as int].ticks_used + 1 >= k0.threads.slots@[k0.cpu.current as int].quantum,
        is_ready(k0.threads.slots@, other),
        other != k0.cpu.current,
    ensures
        k1.want_resched,
{
    let cur = k0.cpu.current as int;
    assert(k1.threads.slots@[other].state == ThreadState::Ready);
    assert(is_ready(k1.threads.slots@, other));
    assert(k1.threads.slots@[cur].ticks_used == k0.threads.slots@[cur].ticks_used + 1);
    assert(k1.threads.slots@[cur].quantum == k0.threads.slots@[cur].quantum);
}

/// After a reschedule with a thread ready (or the current one still
/// running), the hart runs the scheduler's pick and that thread is running.
pub proof fn law_reschedule_runs_pick(k0: Kernel, k1: Kernel)
    requires
        k0.wf(),
        k0.scheduler.current == k0.cpu.current,
        reschedule_post(k0, k1),
        (exists|i: int| is_ready(k0.threads.slots@, i)) || k0.threads.slots@[k0.cpu.current as int].state
            == ThreadState::Running,
    ensures
        k1.cpu.current == spec_pick(k0.threads.slots@, k0.cpu.current as int),
        k1.threads.slots@[k1.cpu.current as int].state == ThreadState::Running,
        k1.scheduler.current == k1.cpu.current,
{
    crate::scheduler::law_pick_is_best_ready(k0.threads.slots@, k0.cpu.current as int);
}

} // verus!
