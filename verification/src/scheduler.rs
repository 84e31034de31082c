//! Scheduling decisions: which thread runs next, and when to preempt.
//!
//! Besides the thread choice, the scheduler keeps the small task table that
//! the adaptive (neural) observer reads: four slots of task id, entry point and
//! state.
use vstd::prelude::*;
use crate::config::MAX_THREADS;
use crate::cpu::Cpu;
use crate::thread::{Thread, ThreadState, ThreadTable};

verus! {

pub const MAX_TASKS: usize = 4;

#[derive(Clone, Copy, Debug, PartialEq, Eq, Structural)]
pub enum TaskState {
    Ready,
    Running,
    Blocked,
    Terminated,
}

/// Saved execution context of a task in the observer's table.
#[derive(Clone, Copy, Debug, PartialEq, Eq, Structural)]
pub struct Context {
    pub sp: usize,
    pub ra: usize,
}

impl Context {
    pub fn new() -> (c: Context)
        ensures
            c.sp == 0,
            c.ra == 0,
    {
        Context { sp: 0, ra: 0 }
    }
}

/// A task of the observer's table; `entry` is the address it starts at.
#[derive(Clone, Copy, Debug, PartialEq, Eq, Structural)]
pub struct Task {
    pub id: usize,
    pub entry: usize,
    pub state: TaskState,
    pub context: Context,
}

pub struct Scheduler {
    pub tasks: [Option<Task>; MAX_TASKS],
    pub current: usize,
    pub tick: usize,
}

/// Position of thread `i` in the round-robin order that starts right after
/// `cur`: `cur + 1` comes first, `cur` itself last.
pub open spec fn rr_rank(cur: int, i: int) -> int {
    if i > cur {
        i - cur
    } else {
        i - cur + MAX_THREADS
    }
}

/// Thread `i` can be picked: a real thread (not the idle slot 0) that is ready.
pub open spec fn is_ready(s: Seq<Thread>, i: int) -> bool {
    1 <= i < MAX_THREADS && s[i].state == ThreadState::Ready
}

/// Thread `i` is preferred to thread `j`: higher priority, or the same
/// priority and earlier in round-robin order after `cur`.
pub open spec fn preferred(s: Seq<Thread>, cur: int, i: int, j: int) -> bool {
    s[i].priority > s[j].priority || (s[i].priority == s[j].priority && rr_rank(cur, i) < rr_rank(
        cur,
        j,
    ))
}

/// The thread `pick_next` chooses: the preferred ready thread; failing that,
/// the current thread if it is still running; failing that, the idle slot 0.
pub open spec fn spec_pick(s: Seq<Thread>, cur: int) -> int {
    if exists|i: int| is_ready(s, i) {
        choose|i: int|
            is_ready(s, i) && forall|j: int| #[trigger] is_ready(s, j) && j != i ==> preferred(s, cur, i, j)
    } else if 0 <= cur < MAX_THREADS && s[cur].state == ThreadState::Running {
        cur
    } else {
        0
    }
}

/// Whether the running thread should give way: some other thread is ready,
/// and the current one is the idle slot, has stopped running, or has used up
/// its quantum.
pub open spec fn spec_preempt(s: Seq<Thread>, cur: int) -> bool {
    (exists|j: int| is_ready(s, j) && j != cur) && (cur == 0 || s[cur].state != ThreadState::Running
        || s[cur].ticks_used >= s[cur].quantum)
}

/// The first empty slot of the observer's table, if any.
pub open spec fn first_empty_task(s: Seq<Option<Task>>) -> Option<int> {
    if exists|i: int| 0 <= i < MAX_TASKS && (#[trigger] s[i]) is None {
        Some(
            choose|i: int|
                0 <= i < MAX_TASKS && (#[trigger] s[i]) is None && forall|j: int|
                    0 <= j < i ==> (#[trigger] s[j]) is Some,
        )
    } else {
        None
    }
}

proof fn lemma_preferred_strict(s: Seq<Thread>, cur: int, i: int, j: int)
    requires
        0 <= cur < MAX_THREADS,
        1 <= i < MAX_THREADS,
        1 <= j < MAX_THREADS,
        i != j,
    ensures
        preferred(s, cur, i, j) != preferred(s, cur, j, i),
{
}

/// Among the ready threads of slots 1..n there is one preferred to all others.
proof fn lemma_best_exists(s: Seq<Thread>, cur: int, n: int) -> (b: int)
    requires
        0 <= cur < MAX_THREADS,
        1 <= n <= MAX_THREADS,
        exists|i: int| 1 <= i < n && is_ready(s, i),
    ensures
        1 <= b < n,
        is_ready(s, b),
        forall|j: int| 1 <= j < n && #[trigger] is_ready(s, j) && j != b ==> preferred(s, cur, b, j),
    decreases n,
{
    let last = n - 1;
    if !(exists|i: int| 1 <= i < last && is_ready(s, i)) {
        assert(is_ready(s, last));
        last
    } else {
        let b0 = lemma_best_exists(s, cur, last);
        if is_ready(s, last) && preferred(s, cur, last, b0) {
            last
        } else {
            if is_ready(s, last) {
                lemma_preferred_strict(s, cur, last, b0);
            }
            b0
        }
    }
}

/// The scheduler's pick is a ready thread preferred to every other ready
/// thread (so of the highest priority) whenever one is ready; otherwise it is
/// the current thread if that still runs, or the idle slot 0. It never picks
/// a blocked, sleeping, exited or unused thread unless it is the running
/// thread.
pub proof fn law_pick_is_best_ready(s: Seq<Thread>, cur: int)
    requires
        0 <= cur < MAX_THREADS,
        s.len() == MAX_THREADS,
    ensures
        (exists|i: int| is_ready(s, i)) ==> {
            &&& is_ready(s, spec_pick(s, cur))
            &&& forall|j: int| #[trigger] is_ready(s, j) ==> s[j].priority <= s[spec_pick(s, cur)].priority
        },
        !(exists|i: int| is_ready(s, i)) ==> spec_pick(s, cur) == if s[cur].state
            == ThreadState::Running {
            cur
        } else {
            0
        },
{
    if exists|i: int| is_ready(s, i) {
        let w = choose|i: int| is_ready(s, i);
        assert(1 <= w < MAX_THREADS);
        let b = lemma_best_exists(s, cur, MAX_THREADS as int);
        assert(is_ready(s, b) && forall|j: int| #[trigger] is_ready(s, j) && j != b ==> preferred(s, cur, b, j));
        let p = spec_pick(s, cur);
        assert(is_ready(s, p));
    }
}

impl Scheduler {
    pub fn new() -> (s: Scheduler)
        ensures
            forall|i: int| 0 <= i < MAX_TASKS ==> (#[trigger] s.tasks@[i]) is None,
            s.current == 0,
            s.tick == 0,
    {
        Scheduler { tasks: [None; MAX_TASKS], current: 0, tick: 0 }
    }

    /// Puts a task in the first empty slot: running if that is slot 0, else
    /// ready. A full table is left as it is.
    pub fn add_task(&mut self, id: usize, entry: usize)
        ensures
            final(self).current == old(self).current,
            final(self).tick == old(self).tick,
            match first_empty_task(old(self).tasks@) {
                Some(i) => final(self).tasks@ == old(self).tasks@.update(
                    i,
                    Some(
                        Task {
                            id,
                            entry,
                            state: if i == 0 {
                                TaskState::Running
                            } else {
                                TaskState::Ready
                            },
                            context: Context { sp: 0, ra: 0 },
                        },
                    ),
                ),
                None => final(self).tasks@ == old(self).tasks@,
            },
    {
        let mut i: usize = 0;
        while i < MAX_TASKS
            invariant
                0 <= i <= MAX_TASKS,
                self.tasks@ == old(self).tasks@,
                self.current == old(self).current,
                self.tick == old(self).tick,
                forall|j: int| 0 <= j < i ==> (#[trigger] self.tasks@[j]) is Some,
            decreases MAX_TASKS - i,
        {
            if self.tasks[i].is_none() {
                proof {
                    let k = i as int;
                    let c = choose|c: int|
                        0 <= c < MAX_TASKS && (#[trigger] self.tasks@[c]) is None && forall|j: int|
                            0 <= j < c ==> (#[trigger] self.tasks@[j]) is Some;
                    assert(self.tasks@[k] is None);
                    assert(c == k) by {
                        if c > k {
                            assert(self.tasks@[k] is Some);
                        }
                    }
                }
                let state = if i == 0 {
                    TaskState::Running
                } else {
                    TaskState::Ready
                };
                self.tasks[i] = Some(Task { id, entry, state, context: Context::new() });
                return ;
            }
            i = i + 1;
        }
    }

    /// The thread to run next (see `spec_pick`).
    pub fn pick_next(&self, threads: &ThreadTable) -> (r: usize)
        requires
            self.current < MAX_THREADS,
        ensures
            r == spec_pick(threads.slots@, self.current as int),
            r < MAX_THREADS,
    {
        let cur = self.current;
        let ghost s = threads.slots@;
        let mut best: usize = 0;
        let mut found = false;
        let mut i: usize = 1;
        while i < MAX_THREADS
            invariant
                1 <= i <= MAX_THREADS,
                cur < MAX_THREADS,
                s == threads.slots@,
                found ==> is_ready(s, best as int) && best < i,
                !found ==> forall|j: int| 1 <= j < i ==> !is_ready(s, j),
                found ==> forall|j: int|
                    1 <= j < i && is_ready(s, j) && j != best ==> preferred(s, cur as int, best as int, j),
            decreases MAX_THREADS - i,
        {
            if threads.slots[i].state == ThreadState::Ready {
                if !found {
                    best = i;
                    found = true;
                } else {
                    let pi = threads.slots[i].priority;
                    let pb = threads.slots[best].priority;
                    let rank_i: usize = if i > cur {
                        i - cur
                    } else {
                        i + MAX_THREADS - cur
                    };
                    let rank_b: usize = if best > cur {
                        best - cur
                    } else {
                        best + MAX_THREADS - cur
                    };
                    if pi > pb || (pi == pb && rank_i < rank_b) {
                        proof {
                            assert forall|j: int|
                                1 <= j < i + 1 && is_ready(s, j) && j != i implies preferred(
                                s,
                                cur as int,
                                i as int,
                                j,
                            ) by {
                                if j != best {
                                    assert(preferred(s, cur as int, best as int, j));
                                }
                            }
                        }
                        best = i;
                    }
                }
            }
            i = i + 1;
        }
        if found {
            proof {
                assert(is_ready(s, best as int));
                let c = choose|c: int|
                    is_ready(s, c) && forall|j: int|
                        #[trigger] is_ready(s, j) && j != c ==> preferred(s, cur as int, c, j);
                assert(c == best) by {
                    if c != best {
                        assert(preferred(s, cur as int, c, best as int));
                        assert(preferred(s, cur as int, best as int, c));
                        lemma_preferred_strict(s, cur as int, c, best as int);
                    }
                }
            }
            best
        } else if threads.slots[cur].state == ThreadState::Running {
            cur
        } else {
            0
        }
    }

    /// Whether the running thread should be preempted (see `spec_preempt`).
    pub fn preempt_needed(&self, threads: &ThreadTable) -> (r: bool)
        requires
            self.current < MAX_THREADS,
        ensures
            r == spec_preempt(threads.slots@, self.current as int),
    {
        let cur = self.current;
        let ghost s = threads.slots@;
        let mut other_ready = false;
        let mut i: usize = 1;
        while i < MAX_THREADS
            invariant
                1 <= i <= MAX_THREADS,
                s == threads.slots@,
                other_ready <==> exists|j: int| 1 <= j < i && is_ready(s, j) && j != cur,
            decreases MAX_THREADS - i,
        {
            if i != cur && threads.slots[i].state == ThreadState::Ready {
                other_ready = true;
                assert(is_ready(s, i as int));
            }
            proof {
                if !other_ready {
                    assert forall|j: int| 1 <= j < i + 1 && is_ready(s, j) implies j == cur by {
                        if j < i {
                            assert(!(1 <= j < i && is_ready(s, j) && j != cur));
                        }
                    }
                }
            }
            i = i + 1;
        }
        let t = &threads.slots[cur];
        other_ready && (cur == 0 || t.state != ThreadState::Running || t.ticks_used >= t.quantum)
    }
}

/// Position of task slot `i` in the rotation after `cur`: `cur + 1` first,
/// `cur` itself last.
pub open spec fn task_rank(cur: int, i: int) -> int {
    (i - cur - 1 + MAX_TASKS) % (MAX_TASKS as int)
}

/// Slot `i` of `tasks` holds a ready task.
pub open spec fn task_ready(tasks: Seq<Option<Task>>, i: int) -> bool {
    tasks[i] matches Some(t) && t.state == TaskState::Ready
}

/// The first ready slot in rotation order after `cur`, if any.
pub open spec fn next_ready_task(tasks: Seq<Option<Task>>, cur: int) -> Option<int> {
    if exists|i: int| 0 <= i < MAX_TASKS && task_ready(tasks, i) {
        Some(
            choose|i: int|
                0 <= i < MAX_TASKS && task_ready(tasks, i) && forall|j: int|
                    0 <= j < MAX_TASKS && #[trigger] task_ready(tasks, j) ==> task_rank(cur, i)
                        <= task_rank(cur, j),
        )
    } else {
        None
    }
}

/// `tasks` with the task in slot `i`, if any, put in state `st`.
pub open spec fn with_task_state(tasks: Seq<Option<Task>>, i: int, st: TaskState) -> Seq<Option<Task>> {
    match tasks[i] {
        Some(t) => tasks.update(i, Some(Task { state: st, ..t })),
        None => tasks,
    }
}

impl Scheduler {
    /// Moves the current task to `new_state` and hands the hart, round robin,
    /// to the first ready task after it (the current task itself comes last).
    /// When no task is ready and the current task only yielded, it keeps
    /// running. Returns the slot switched to.
    pub fn reschedule(&mut self, new_state: TaskState) -> (r: Option<usize>)
        requires
            old(self).current < MAX_TASKS,
        ensures
            final(self).tick == old(self).tick,
            ({
                let cur = old(self).current as int;
                let t1 = with_task_state(old(self).tasks@, cur, new_state);
                match next_ready_task(t1, cur) {
                    Some(n) => {
                        &&& r == Some(n as usize)
                        &&& final(self).tasks@ == with_task_state(t1, n, TaskState::Running)
                        &&& final(self).current == n
                    },
                    None => {
                        &&& r is None
                        &&& final(self).current == old(self).current
                        &&& final(self).tasks@ == (if new_state == TaskState::Ready {
                            with_task_state(t1, cur, TaskState::Running)
                        } else {
                            t1
                        })
                    },
                }
            }),
    {
        let cur = self.current;
        if let Some(t) = self.tasks[cur] {
            self.tasks[cur] = Some(Task { state: new_state, ..t });
        }
        let ghost t1 = self.tasks@;
        assert(t1 =~= with_task_state(old(self).tasks@, cur as int, new_state));
        let mut found: Option<usize> = None;
        let mut k: usize = 0;
        let mut idx: usize = cur;
        while k < MAX_TASKS
            invariant_except_break
                0 <= k <= MAX_TASKS,
                found is None,
                idx == (cur + k) % (MAX_TASKS as int),
                self.tasks@ == t1,
                self.current == cur,
                self.tick == old(self).tick,
                cur < MAX_TASKS,
                forall|j: int| 0 <= j < MAX_TASKS && task_rank(cur as int, j) < k ==> !(#[trigger] task_ready(t1, j)),
            ensures
                self.tasks@ == t1,
                self.current == cur,
                self.tick == old(self).tick,
                found matches Some(f) ==> f < MAX_TASKS && task_ready(t1, f as int) && forall|j: int|
                    0 <= j < MAX_TASKS && #[trigger] task_ready(t1, j) ==> task_rank(cur as int, f as int)
                        <= task_rank(cur as int, j),
                found is None ==> forall|j: int| 0 <= j < MAX_TASKS ==> !(#[trigger] task_ready(t1, j)),
            decreases MAX_TASKS - k,
        {
            idx = (idx + 1) % MAX_TASKS;
            assert(task_rank(cur as int, idx as int) == k);
            if let Some(t) = self.tasks[idx] {
                if t.state == TaskState::Ready {
                    found = Some(idx);
                    break;
                }
            }
            k = k + 1;
        }
        match found {
            Some(n) => {
                proof {
                    let c = choose|i: int|
                        0 <= i < MAX_TASKS && task_ready(t1, i) && forall|j: int|
                            0 <= j < MAX_TASKS && #[trigger] task_ready(t1, j) ==> task_rank(cur as int, i)
                                <= task_rank(cur as int, j);
                    assert(task_ready(t1, n as int));
                    assert(c == n) by {
                        assert(task_rank(cur as int, c) <= task_rank(cur as int, n as int));
                        assert(task_rank(cur as int, n as int) <= task_rank(cur as int, c));
                    }
                }
                if let Some(t) = self.tasks[n] {
                    self.tasks[n] = Some(Task { state: TaskState::Running, ..t });
                }
                self.current = n;
                assert(self.tasks@ =~= with_task_state(t1, n as int, TaskState::Running));
                Some(n)
            },
            None => {
                if new_state == TaskState::Ready {
                    if let Some(t) = self.tasks[cur] {
                        self.tasks[cur] = Some(Task { state: TaskState::Running, ..t });
                    }
                    assert(self.tasks@ =~= with_task_state(t1, cur as int, TaskState::Running));
                }
                None
            },
        }
    }
}

/// Hands the hart to thread `next`: the thread that was running goes back to
/// ready, `next` runs with a fresh quantum.
pub fn switch_to(cpu: &mut Cpu, threads: &mut [Thread; MAX_THREADS], next: usize)
    requires
        next < MAX_THREADS,
        old(cpu).current < MAX_THREADS,
    ensures
        final(cpu).current == next,
        final(cpu).hartid == old(cpu).hartid,
        final(cpu).interrupt_depth == old(cpu).interrupt_depth,
        final(cpu).scheduler_enabled == old(cpu).scheduler_enabled,
        final(threads)@ == ({
            let prev = old(cpu).current as int;
            let s = old(threads)@;
            let s1 = if s[prev].state == ThreadState::Running {
                s.update(prev, Thread { state: ThreadState::Ready, ..s[prev] })
            } else {
                s
            };
            s1.update(next as int, Thread { state: ThreadState::Running, ticks_used: 0, ..s1[next as int] })
        }),
{
    let prev = cpu.current;
    if threads[prev].state == ThreadState::Running {
        threads[prev].state = ThreadState::Ready;
    }
    threads[next].state = ThreadState::Running;
    threads[next].ticks_used = 0;
    cpu.current = next;
}

} // verus!
