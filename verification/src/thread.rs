//! Thread control block. Scheduler, IPC and trap handling all talk to this type.
use vstd::prelude::*;
use crate::config::{DEFAULT_QUANTUM, KERNEL_STACK_SIZE, MAX_THREADS};
use crate::context::{Context, zero_context};
use crate::ipc::{Message, msg_of};
use crate::neural::TaskClass;
use crate::trapframe::{TrapFrame, zero_frame, MSTATUS_INIT};

verus! {

pub type ThreadId = usize;

#[derive(Clone, Copy, Debug, PartialEq, Eq, Structural)]
pub enum ThreadState {
    Unused,
    Ready,
    Running,
    BlockedSend,
    BlockedRecv,
    Sleeping,
    Exited,
}

/// Name under which the AI observer knows thread states.
pub type TaskState = ThreadState;

#[derive(Clone, Copy)]
pub struct Thread {
    pub id: ThreadId,
    pub pid: usize,
    pub state: ThreadState,
    pub priority: u8,
    pub quantum: usize,
    pub ticks_used: usize,
    pub trapframe: TrapFrame,
    pub context: Context,
    pub kernel_stack: [u8; KERNEL_STACK_SIZE],
    pub ipc_msg: Message,
    pub blocked_on: Option<usize>,
    pub class: TaskClass,
    pub cpu_time: u32,
    pub wait_time: u32,
}

/// Address of the first byte of `stack`, read with `<[u8]>::as_ptr`. What
/// address the allocator chose is not stated; what is stated is that the
/// array's one-past-the-end address does not wrap, which holds of every Rust
/// allocation (none wraps around the address space).
#[verifier::external_body]
fn stack_base(stack: &[u8; KERNEL_STACK_SIZE]) -> (r: usize)
    ensures
        r + KERNEL_STACK_SIZE <= usize::MAX,
{
    stack.as_ptr() as usize
}

/// The initial stack pointer of a stack that starts at `base`: its end,
/// rounded down to a 16-byte boundary as the RISC-V ABI asks.
pub fn align_stack_top(base: usize) -> (r: usize)
    requires
        base + KERNEL_STACK_SIZE <= usize::MAX,
    ensures
        r == (base + KERNEL_STACK_SIZE) as usize & !0xFusize,
        r % 16 == 0,
        base + KERNEL_STACK_SIZE - 16 < r <= base + KERNEL_STACK_SIZE,
{
    let end: usize = base + KERNEL_STACK_SIZE;
    let r = end & !0xFusize;
    assert(r == end & !0xFusize);
    assert((end & !0xFusize) % 16 == 0) by (bit_vector);
    assert((end & !0xFusize) <= end) by (bit_vector);
    assert(end - 16 < (end & !0xFusize)) by (bit_vector)
        requires
            end >= 16,
    ;
    r
}

impl Thread {
    /// `self` is a never-used slot: zeroed registers and stack, default quantum.
    pub open spec fn is_unused_slot(self) -> bool {
        &&& self.id == 0
        &&& self.pid == 0
        &&& self.state == ThreadState::Unused
        &&& self.priority == 0
        &&& self.quantum == DEFAULT_QUANTUM
        &&& self.ticks_used == 0
        &&& self.trapframe == zero_frame()
        &&& self.context == zero_context()
        &&& forall|i: int| 0 <= i < KERNEL_STACK_SIZE ==> self.kernel_stack[i] == 0
        &&& self.ipc_msg == msg_of(0, 0, 0, 0)
        &&& self.blocked_on is None
        &&& self.class == TaskClass::Batch
        &&& self.cpu_time == 0
        &&& self.wait_time == 0
    }

    pub fn unused() -> (t: Thread)
        ensures
            t.is_unused_slot(),
    {
        Thread {
            id: 0,
            pid: 0,
            state: ThreadState::Unused,
            priority: 0,
            quantum: DEFAULT_QUANTUM,
            ticks_used: 0,
            trapframe: TrapFrame::zero(),
            context: Context::zero(),
            kernel_stack: [0u8; KERNEL_STACK_SIZE],
            ipc_msg: Message::empty(),
            blocked_on: None,
            class: TaskClass::Batch,
            cpu_time: 0,
            wait_time: 0,
        }
    }

    /// Top of this thread's kernel stack, 16-byte aligned.
    pub fn stack_top(&self) -> (r: usize)
        ensures
            r % 16 == 0,
            r > KERNEL_STACK_SIZE - 16,
    {
        align_stack_top(stack_base(&self.kernel_stack))
    }

    /// `t` is `self` made ready to run `entry` as thread `id` of process `pid`:
    /// fresh bookkeeping, a trap frame and context that start at `entry` on
    /// a 16-byte aligned stack top, the stack memory itself untouched.
    pub open spec fn activated_as(
        self,
        t: Thread,
        id: ThreadId,
        pid: usize,
        entry: usize,
        class: TaskClass,
        priority: u8,
    ) -> bool {
        &&& t.id == id
        &&& t.pid == pid
        &&& t.state == ThreadState::Ready
        &&& t.priority == priority
        &&& t.quantum == DEFAULT_QUANTUM
        &&& t.ticks_used == 0
        &&& t.ipc_msg == msg_of(0, 0, 0, 0)
        &&& t.blocked_on is None
        &&& t.class == class
        &&& t.cpu_time == 0
        &&& t.wait_time == 0
        &&& t.kernel_stack == self.kernel_stack
        &&& t.trapframe == (TrapFrame {
            mepc: entry,
            sp: t.context.sp,
            mstatus: MSTATUS_INIT,
            ..zero_frame()
        })
        &&& t.context == (Context { ra: entry, sp: t.context.sp, ..zero_context() })
        &&& t.context.sp % 16 == 0
    }

    /// Makes the thread ready to run `entry` as thread `id` of process `pid`.
    pub fn activate(&mut self, id: ThreadId, pid: usize, entry: usize, class: TaskClass, priority: u8)
        ensures
            old(self).activated_as(*final(self), id, pid, entry, class, priority),
    {
        self.id = id;
        self.pid = pid;
        self.state = ThreadState::Ready;
        self.priority = priority;
        self.quantum = DEFAULT_QUANTUM;
        self.ticks_used = 0;
        self.ipc_msg = Message::empty();
        self.blocked_on = None;
        self.class = class;
        self.cpu_time = 0;
        self.wait_time = 0;
        let sp = self.stack_top();
        self.trapframe.init_kernel(entry, sp);
        self.context.init(entry, sp);
    }

    pub open spec fn is_runnable_spec(&self) -> bool {
        self.state == ThreadState::Ready || self.state == ThreadState::Running
    }

    pub fn is_runnable(&self) -> (r: bool)
        ensures
            r == self.is_runnable_spec(),
    {
        self.state == ThreadState::Ready || self.state == ThreadState::Running
    }
}

/// The lowest unused thread slot from 1 on, if there is one.
pub open spec fn first_unused_thread(s: Seq<Thread>) -> Option<int> {
    if exists|i: int| 1 <= i < MAX_THREADS && (#[trigger] s[i]).state == ThreadState::Unused {
        Some(
            choose|i: int|
                1 <= i < MAX_THREADS && (#[trigger] s[i]).state == ThreadState::Unused && forall|
                    j: int,
                | 1 <= j < i ==> (#[trigger] s[j]).state != ThreadState::Unused,
        )
    } else {
        None
    }
}

pub struct ThreadTable {
    pub slots: [Thread; MAX_THREADS],
}

impl ThreadTable {
    pub fn new() -> (t: ThreadTable)
        ensures
            forall|i: int| 0 <= i < MAX_THREADS ==> (#[trigger] t.slots@[i]).is_unused_slot(),
    {
        ThreadTable { slots: [Thread::unused(); MAX_THREADS] }
    }

    /// The lowest unused slot from 1 on; the slot is not claimed here.
    pub fn allocate(&self) -> (r: Option<ThreadId>)
        ensures
            r == (match first_unused_thread(self.slots@) {
                Some(i) => Some(i as usize),
                None => None::<usize>,
            }),
    {
        let mut i: usize = 1;
        while i < MAX_THREADS
            invariant
                1 <= i <= MAX_THREADS,
                forall|j: int| 1 <= j < i ==> (#[trigger] self.slots@[j]).state != ThreadState::Unused,
            decreases MAX_THREADS - i,
        {
            if self.slots[i].state == ThreadState::Unused {
                proof {
                    let k = i as int;
                    let c = choose|c: int|
                        1 <= c < MAX_THREADS && (#[trigger] self.slots@[c]).state
                            == ThreadState::Unused && forall|j: int|
                            1 <= j < c ==> (#[trigger] self.slots@[j]).state != ThreadState::Unused;
                    assert(self.slots@[k].state == ThreadState::Unused);
                    assert(c == k) by {
                        if c > k {
                            assert(self.slots@[k].state != ThreadState::Unused);
                        }
                    }
                }
                return Some(i);
            }
            i = i + 1;
        }
        None
    }

    pub open spec fn live(&self, id: int) -> bool {
        0 <= id < MAX_THREADS && self.slots@[id].state != ThreadState::Unused
    }

    pub fn get(&self, id: ThreadId) -> (r: Option<&Thread>)
        ensures
            self.live(id as int) ==> r == Some(&self.slots@[id as int]),
            !self.live(id as int) ==> r is None,
    {
        if id < MAX_THREADS && self.slots[id].state != ThreadState::Unused {
            Some(&self.slots[id])
        } else {
            None
        }
    }

    pub fn get_mut(&mut self, id: ThreadId) -> (r: Option<&mut Thread>)
        ensures
            old(self).live(id as int) ==> r is Some && *r->Some_0 == old(self).slots@[id as int]
                && final(self).slots@ == old(self).slots@.update(id as int, *final(r->Some_0)),
            !old(self).live(id as int) ==> r is None && final(self).slots@ == old(self).slots@,
    {
        if id < MAX_THREADS && self.slots[id].state != ThreadState::Unused {
            Some(&mut self.slots[id])
        } else {
            None
        }
    }
}

} // verus!
