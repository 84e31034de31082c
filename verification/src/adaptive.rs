//! Integer side of the adaptive scheduler: task slots, the metrics history and
//! the preemption predictor. The neural priorities and Q-values it combines
//! with these live with the caller.
use vstd::prelude::*;
use crate::neural::{NeuralError, TaskClass};
use crate::scheduler::{MAX_TASKS, Scheduler, Task, TaskState};

verus! {

pub const METRICS_HISTORY_SIZE: usize = 128;

/// Time quantum in ticks (10 ms).
pub const QUANTUM: u32 = 100;

#[derive(Clone, Copy, PartialEq, Eq, Structural, Debug)]
pub enum SchedulerError {
    /// A task id outside 1..=MAX_TASKS: the request was not carried out.
    InvalidTaskId(usize),
    /// The chosen or the current slot was empty: no switch is possible.
    MissingTask(usize),
    /// No task is ready.
    NoRunnableTask,
    /// The network gave no usable priority.
    Neural(NeuralError),
}

impl From<NeuralError> for SchedulerError {
    fn from(error: NeuralError) -> (r: SchedulerError) {
        SchedulerError::Neural(error)
    }
}

impl vstd::std_specs::convert::FromSpecImpl<NeuralError> for SchedulerError {
    open spec fn obeys_from_spec() -> bool {
        true
    }

    open spec fn from_spec(error: NeuralError) -> SchedulerError {
        SchedulerError::Neural(error)
    }
}

#[derive(Clone, Copy, PartialEq, Eq, Structural, Debug)]
pub enum SchedulingStrategy {
    /// Pure network priority.
    NeuralOnly,
    /// Network priority with fairness corrections.
    LoadBalanced,
    /// Switch only when the predictor says so.
    PredictivePreempt,
}

/// The slot of task `task_id`: ids run from 1 to `MAX_TASKS`.
pub fn task_index(task_id: usize) -> (r: Result<usize, SchedulerError>)
    ensures
        0 < task_id <= MAX_TASKS ==> r == Ok::<usize, SchedulerError>((task_id - 1) as usize),
        !(0 < task_id <= MAX_TASKS) ==> r == Err::<usize, SchedulerError>(
            SchedulerError::InvalidTaskId(task_id),
        ),
{
    if task_id > 0 && task_id <= MAX_TASKS {
        Ok(task_id - 1)
    } else {
        Err(SchedulerError::InvalidTaskId(task_id))
    }
}

/// The integer metrics of one task that the history keeps.
#[derive(Clone, Copy, PartialEq, Eq, Structural, Debug)]
pub struct TaskMetrics {
    pub task_id: usize,
    pub execution_time: u32,
    pub wait_time: u32,
    pub memory_used: usize,
    pub ticks_since_run: u32,
    pub io_wait_count: u32,
    pub context_switches: u32,
    pub priority_boost: i32,
}

impl TaskMetrics {
    pub open spec fn fresh(task_id: usize) -> TaskMetrics {
        TaskMetrics {
            task_id,
            execution_time: 0,
            wait_time: 0,
            memory_used: 0,
            ticks_since_run: 0,
            io_wait_count: 0,
            context_switches: 0,
            priority_boost: 0,
        }
    }

    pub fn new(task_id: usize) -> (m: TaskMetrics)
        ensures
            m == TaskMetrics::fresh(task_id),
    {
        TaskMetrics {
            task_id,
            execution_time: 0,
            wait_time: 0,
            memory_used: 0,
            ticks_since_run: 0,
            io_wait_count: 0,
            context_switches: 0,
            priority_boost: 0,
        }
    }
}

/// Entry `e` is a record of task `id`.
pub open spec fn is_of(e: Option<TaskMetrics>, id: usize) -> bool {
    e matches Some(m) && m.task_id == id
}

/// How many of the first `n` entries of `h` are records of task `id`.
pub open spec fn count_of(h: Seq<Option<TaskMetrics>>, id: usize, n: nat) -> nat
    decreases n,
{
    if n == 0 {
        0
    } else {
        count_of(h, id, (n - 1) as nat) + if is_of(h[n - 1], id) {
            1nat
        } else {
            0nat
        }
    }
}

/// The sum of `f` over the records of task `id` among the first `n`
/// entries, added in order and saturating at `max`.
pub open spec fn sat_sum(
    h: Seq<Option<TaskMetrics>>,
    id: usize,
    f: spec_fn(TaskMetrics) -> int,
    max: int,
    n: nat,
) -> int
    decreases n,
{
    if n == 0 {
        0
    } else {
        let prev = sat_sum(h, id, f, max, (n - 1) as nat);
        if is_of(h[n - 1], id) {
            let s = prev + f(h[n - 1]->Some_0);
            if s > max {
                max
            } else {
                s
            }
        } else {
            prev
        }
    }
}

pub open spec fn f_exec(m: TaskMetrics) -> int {
    m.execution_time as int
}

pub open spec fn f_wait(m: TaskMetrics) -> int {
    m.wait_time as int
}

pub open spec fn f_mem(m: TaskMetrics) -> int {
    m.memory_used as int
}

pub open spec fn f_ticks(m: TaskMetrics) -> int {
    m.ticks_since_run as int
}

pub open spec fn f_io(m: TaskMetrics) -> int {
    m.io_wait_count as int
}

pub open spec fn f_ctx(m: TaskMetrics) -> int {
    m.context_switches as int
}

proof fn lemma_count_bound(h: Seq<Option<TaskMetrics>>, id: usize, n: nat)
    ensures
        count_of(h, id, n) <= n,
    decreases n,
{
    if n > 0 {
        lemma_count_bound(h, id, (n - 1) as nat);
    }
}

/// `a - b`, stopping at 0.
pub open spec fn sat_sub_u32(a: u32, b: u32) -> u32 {
    if a >= b {
        (a - b) as u32
    } else {
        0
    }
}

/// `a + b`, stopping at `u32::MAX`.
pub open spec fn sat_add_u32(a: u32, b: u32) -> u32 {
    if a + b > u32::MAX {
        u32::MAX
    } else {
        (a + b) as u32
    }
}

/// The field-wise average of the records of task `id` in history `h`
/// (sums saturate; averages round down), or `None` when there are none.
pub open spec fn average_of(h: Seq<Option<TaskMetrics>>, id: usize) -> Option<TaskMetrics> {
    let n = METRICS_HISTORY_SIZE as nat;
    let c = count_of(h, id, n) as int;
    if c == 0 {
        None
    } else {
        Some(
            TaskMetrics {
                task_id: id,
                execution_time: (sat_sum(h, id, |m| f_exec(m), u32::MAX as int, n) / c) as u32,
                wait_time: (sat_sum(h, id, |m| f_wait(m), u32::MAX as int, n) / c) as u32,
                memory_used: (sat_sum(h, id, |m| f_mem(m), usize::MAX as int, n) / c) as usize,
                ticks_since_run: (sat_sum(h, id, |m| f_ticks(m), u32::MAX as int, n) / c) as u32,
                io_wait_count: (sat_sum(h, id, |m| f_io(m), u32::MAX as int, n) / c) as u32,
                context_switches: (sat_sum(h, id, |m| f_ctx(m), u32::MAX as int, n) / c) as u32,
                priority_boost: 0,
            },
        )
    }
}

/// The count of records is 0 exactly when none of the first `n` entries is
/// a record of task `id`, and at least 1 when entry `k < n` is one.
proof fn lemma_count_zero(h: Seq<Option<TaskMetrics>>, id: usize, n: nat)
    ensures
        count_of(h, id, n) == 0 <==> forall|k: int|
            0 <= k < n ==> !(#[trigger] h[k] matches Some(m) && m.task_id == id),
    decreases n,
{
    if n > 0 {
        lemma_count_zero(h, id, (n - 1) as nat);
        if count_of(h, id, n) == 0 {
            assert forall|k: int|
                0 <= k < n implies !(#[trigger] h[k] matches Some(m) && m.task_id == id) by {
                if k < n - 1 {
                }
            }
        }
    }
}

/// Summing a field that has the same value `v` in every record of task `id`
/// gives `count * v` while that stays within `max`.
proof fn lemma_sat_sum_const(
    h: Seq<Option<TaskMetrics>>,
    id: usize,
    f: spec_fn(TaskMetrics) -> int,
    max: int,
    n: nat,
    v: int,
)
    requires
        0 <= v,
        n * v <= max,
        forall|k: int| 0 <= k < n && is_of(#[trigger] h[k], id) ==> f(h[k]->Some_0) == v,
    ensures
        sat_sum(h, id, f, max, n) == count_of(h, id, n) * v,
    decreases n,
{
    if n > 0 {
        let c = count_of(h, id, (n - 1) as nat);
        assert((n - 1) * v <= n * v) by (nonlinear_arith)
            requires
                v >= 0,
                n >= 1,
        ;
        lemma_sat_sum_const(h, id, f, max, (n - 1) as nat, v);
        lemma_count_bound(h, id, (n - 1) as nat);
        assert(c * v + v == (c + 1) * v) by (nonlinear_arith);
        assert((c + 1) * v <= n * v) by (nonlinear_arith)
            requires
                c + 1 <= n,
                v >= 0,
        ;
        assert(sat_sum(h, id, f, max, (n - 1) as nat) == c * v);
        if is_of(h[n - 1], id) {
            assert(f(h[n - 1]->Some_0) == v);
            assert(count_of(h, id, n) == c + 1);
            assert(sat_sum(h, id, f, max, n) == (c + 1) * v);
        } else {
            assert(count_of(h, id, n) == c);
        }
    } else {
        assert(0 * v == 0);
    }
}

proof fn lemma_div_back(c: int, v: int)
    requires
        c > 0,
    ensures
        (c * v) / c == v,
{
    assert((c * v) / c == v) by (nonlinear_arith)
        requires
            c > 0,
    ;
}

/// There is an average exactly when the history holds a record of the task.
pub proof fn law_average_exists_iff_recorded(h: Seq<Option<TaskMetrics>>, id: usize)
    ensures
        average_of(h, id) is None <==> forall|k: int|
            0 <= k < METRICS_HISTORY_SIZE ==> !(#[trigger] h[k] matches Some(m) && m.task_id == id),
{
    lemma_count_zero(h, id, METRICS_HISTORY_SIZE as nat);
}

/// Averaging records that are all the same gives that record back (its
/// priority boost dropped), as long as the sums cannot saturate: each field
/// at most its maximum divided by the history size.
pub proof fn law_average_of_equal_records(h: Seq<Option<TaskMetrics>>, m: TaskMetrics, k0: int)
    requires
        0 <= k0 < METRICS_HISTORY_SIZE,
        h[k0] == Some(m),
        forall|k: int|
            0 <= k < METRICS_HISTORY_SIZE && (#[trigger] h[k] matches Some(x) && x.task_id
                == m.task_id) ==> h[k] == Some(m),
        m.execution_time <= u32::MAX / 128,
        m.wait_time <= u32::MAX / 128,
        m.memory_used <= usize::MAX / 128,
        m.ticks_since_run <= u32::MAX / 128,
        m.io_wait_count <= u32::MAX / 128,
        m.context_switches <= u32::MAX / 128,
    ensures
        average_of(h, m.task_id) == Some(TaskMetrics { priority_boost: 0, ..m }),
{
    let id = m.task_id;
    let n = METRICS_HISTORY_SIZE as nat;
    lemma_count_zero(h, id, n);
    assert(is_of(h[k0], id));
    let c = count_of(h, id, n) as int;
    assert(c != 0);
    assert forall|k: int| 0 <= k < n && is_of(#[trigger] h[k], id) implies h[k] == Some(m) by {
        assert(h[k] matches Some(x) && x.task_id == id);
    }
    lemma_sat_sum_const(h, id, |x| f_exec(x), u32::MAX as int, n, m.execution_time as int);
    lemma_sat_sum_const(h, id, |x| f_wait(x), u32::MAX as int, n, m.wait_time as int);
    lemma_sat_sum_const(h, id, |x| f_mem(x), usize::MAX as int, n, m.memory_used as int);
    lemma_sat_sum_const(h, id, |x| f_ticks(x), u32::MAX as int, n, m.ticks_since_run as int);
    lemma_sat_sum_const(h, id, |x| f_io(x), u32::MAX as int, n, m.io_wait_count as int);
    lemma_sat_sum_const(h, id, |x| f_ctx(x), u32::MAX as int, n, m.context_switches as int);
    lemma_div_back(c, m.execution_time as int);
    lemma_div_back(c, m.wait_time as int);
    lemma_div_back(c, m.memory_used as int);
    lemma_div_back(c, m.ticks_since_run as int);
    lemma_div_back(c, m.io_wait_count as int);
    lemma_div_back(c, m.context_switches as int);
}

/// Ring buffer of the last `METRICS_HISTORY_SIZE` task records.
pub struct MetricsCollector {
    pub history: [Option<TaskMetrics>; METRICS_HISTORY_SIZE],
    pub index: usize,
}

impl MetricsCollector {
    pub fn new() -> (c: MetricsCollector)
        ensures
            forall|i: int| 0 <= i < METRICS_HISTORY_SIZE ==> (#[trigger] c.history[i]) is None,
            c.index == 0,
    {
        MetricsCollector { history: [None; METRICS_HISTORY_SIZE], index: 0 }
    }

    /// Stores `metrics` at the write position, overwriting the oldest record
    /// once the ring is full, and moves the position on.
    pub fn record(&mut self, metrics: TaskMetrics)
        requires
            old(self).index < METRICS_HISTORY_SIZE,
        ensures
            final(self).history@ == old(self).history@.update(old(self).index as int, Some(metrics)),
            final(self).index == (old(self).index + 1) % (METRICS_HISTORY_SIZE as int),
    {
        self.history[self.index] = Some(metrics);
        self.index = (self.index + 1) % METRICS_HISTORY_SIZE;
    }

    /// The field-wise average of the records of `task_id` (sums saturate;
    /// averages round down), or `None` when the history holds none. The
    /// average carries no priority boost.
    pub fn get_average(&self, task_id: usize) -> (r: Option<TaskMetrics>)
        ensures
            r == average_of(self.history@, task_id),
    {
        let ghost h = self.history@;
        let mut count: u32 = 0;
        let mut avg_exec: u32 = 0;
        let mut avg_wait: u32 = 0;
        let mut avg_mem: usize = 0;
        let mut avg_ticks: u32 = 0;
        let mut avg_io: u32 = 0;
        let mut avg_ctx: u32 = 0;
        let mut i: usize = 0;
        while i < METRICS_HISTORY_SIZE
            invariant
                0 <= i <= METRICS_HISTORY_SIZE,
                h == self.history@,
                count == count_of(h, task_id, i as nat),
                avg_exec == sat_sum(h, task_id, |m| f_exec(m), u32::MAX as int, i as nat),
                avg_wait == sat_sum(h, task_id, |m| f_wait(m), u32::MAX as int, i as nat),
                avg_mem == sat_sum(h, task_id, |m| f_mem(m), usize::MAX as int, i as nat),
                avg_ticks == sat_sum(h, task_id, |m| f_ticks(m), u32::MAX as int, i as nat),
                avg_io == sat_sum(h, task_id, |m| f_io(m), u32::MAX as int, i as nat),
                avg_ctx == sat_sum(h, task_id, |m| f_ctx(m), u32::MAX as int, i as nat),
            decreases METRICS_HISTORY_SIZE - i,
        {
            proof {
                lemma_count_bound(h, task_id, i as nat);
            }
            if let Some(metrics) = self.history[i] {
                if metrics.task_id == task_id {
                    avg_exec = avg_exec.saturating_add(metrics.execution_time);
                    avg_wait = avg_wait.saturating_add(metrics.wait_time);
                    avg_mem = avg_mem.saturating_add(metrics.memory_used);
                    avg_ticks = avg_ticks.saturating_add(metrics.ticks_since_run);
                    avg_io = avg_io.saturating_add(metrics.io_wait_count);
                    avg_ctx = avg_ctx.saturating_add(metrics.context_switches);
                    count = count + 1;
                }
            }
            i = i + 1;
        }
        if count > 0 {
            Some(
                TaskMetrics {
                    task_id,
                    execution_time: avg_exec / count,
                    wait_time: avg_wait / count,
                    memory_used: avg_mem / (count as usize),
                    ticks_since_run: avg_ticks / count,
                    io_wait_count: avg_io / count,
                    context_switches: avg_ctx / count,
                    priority_boost: 0,
                },
            )
        } else {
            None
        }
    }

    /// How many records of `task_id` the history holds.
    pub fn count_for_task(&self, task_id: usize) -> (r: usize)
        ensures
            r == count_of(self.history@, task_id, METRICS_HISTORY_SIZE as nat),
    {
        let mut count: usize = 0;
        let mut i: usize = 0;
        while i < METRICS_HISTORY_SIZE
            invariant
                0 <= i <= METRICS_HISTORY_SIZE,
                count == count_of(self.history@, task_id, i as nat),
            decreases METRICS_HISTORY_SIZE - i,
        {
            proof {
                lemma_count_bound(self.history@, task_id, i as nat);
            }
            if let Some(m) = self.history[i] {
                if m.task_id == task_id {
                    count = count + 1;
                }
            }
            i = i + 1;
        }
        count
    }
}

/// Whether task slot `i` holds a ready task.
pub open spec fn slot_ready(s: Seq<Option<Task>>, i: int) -> bool {
    s[i] matches Some(t) && t.state == TaskState::Ready
}

/// How many slots among the first `n` hold a ready task.
pub open spec fn ready_count(s: Seq<Option<Task>>, n: nat) -> nat
    decreases n,
{
    if n == 0 {
        0
    } else {
        ready_count(s, (n - 1) as nat) + if slot_ready(s, n - 1) {
            1nat
        } else {
            0nat
        }
    }
}

/// The predictor's answer (see `predict_preemption`).
pub open spec fn spec_predict_preemption(
    tasks: Seq<Option<Task>>,
    current_idx: int,
    exec_time: u32,
    class: TaskClass,
    deadline: u32,
) -> bool {
    &&& tasks[current_idx] is Some
    &&& {
        ||| ready_count(tasks, MAX_TASKS as nat) > 2 && exec_time > QUANTUM / 3
        ||| exec_time > QUANTUM
        ||| class == TaskClass::RealTime && 0 < deadline < 10
    }
}

/// Whether the task in slot `current_idx` should be preempted now: it exists
/// and either more than two tasks are ready and its entry in
/// `execution_start_time` exceeds a third of a quantum, or that entry exceeds
/// a whole quantum, or it is a real-time task whose deadline is less than 10
/// ticks away. Note that the entry compared with the quantum is the tick at
/// which the task last started (what `commit_switch` stamps), not the time it
/// has run since; the comparison is made on that stamp as it stands.
pub fn predict_preemption(
    sched: &Scheduler,
    current_idx: usize,
    execution_start_time: &[u32; MAX_TASKS],
    task_classes: &[TaskClass; MAX_TASKS],
    task_deadlines: &[u32; MAX_TASKS],
) -> (r: bool)
    requires
        current_idx < MAX_TASKS,
    ensures
        r == spec_predict_preemption(
            sched.tasks@,
            current_idx as int,
            execution_start_time[current_idx as int],
            task_classes[current_idx as int],
            task_deadlines[current_idx as int],
        ),
{
    let mut waiting_count: usize = 0;
    let mut i: usize = 0;
    while i < MAX_TASKS
        invariant
            0 <= i <= MAX_TASKS,
            waiting_count == ready_count(sched.tasks@, i as nat),
            waiting_count <= i,
        decreases MAX_TASKS - i,
    {
        if let Some(t) = sched.tasks[i] {
            if t.state == TaskState::Ready {
                waiting_count = waiting_count + 1;
            }
        }
        i = i + 1;
    }
    if sched.tasks[current_idx].is_some() {
        let exec_time = execution_start_time[current_idx];
        if waiting_count > 2 && exec_time > QUANTUM / 3 {
            return true;
        }
        if exec_time > QUANTUM {
            return true;
        }
        if task_classes[current_idx] == TaskClass::RealTime {
            if task_deadlines[current_idx] > 0 && task_deadlines[current_idx] < 10 {
                return true;
            }
        }
    }
    false
}

/// The deadline rule is for real-time tasks only: a task of any other class
/// whose start stamp is at most a third of a quantum is never picked for
/// preemption, whatever its deadline and however many tasks wait.
pub proof fn law_deadline_rule_is_real_time_only(
    tasks: Seq<Option<Task>>,
    current_idx: int,
    exec_time: u32,
    class: TaskClass,
    deadline: u32,
)
    requires
        class != TaskClass::RealTime,
        exec_time <= QUANTUM / 3,
    ensures
        !spec_predict_preemption(tasks, current_idx, exec_time, class, deadline),
{
}

/// When each rule fires: an existing real-time task less than 10 ticks (and
/// more than 0) from its deadline is preempted; so is any existing task whose
/// start stamp exceeds a whole quantum; an empty slot never is.
pub proof fn law_preemption_triggers(
    tasks: Seq<Option<Task>>,
    current_idx: int,
    exec_time: u32,
    class: TaskClass,
    deadline: u32,
)
    ensures
        tasks[current_idx] is Some && class == TaskClass::RealTime && 0 < deadline < 10
            ==> spec_predict_preemption(tasks, current_idx, exec_time, class, deadline),
        tasks[current_idx] is Some && exec_time > QUANTUM
            ==> spec_predict_preemption(tasks, current_idx, exec_time, class, deadline),
        tasks[current_idx] is None
            ==> !spec_predict_preemption(tasks, current_idx, exec_time, class, deadline),
        tasks[current_idx] is Some && ready_count(tasks, MAX_TASKS as nat) > 2 && exec_time
            > QUANTUM / 3 ==> spec_predict_preemption(tasks, current_idx, exec_time, class, deadline),
{
}

/// A task is left running when no rule fires: at most two tasks are ready,
/// its start stamp is within a quantum, and it is not a real-time task
/// less than 10 ticks from its deadline.
pub proof fn law_quiet_task_keeps_running(
    tasks: Seq<Option<Task>>,
    current_idx: int,
    exec_time: u32,
    class: TaskClass,
    deadline: u32,
)
    requires
        ready_count(tasks, MAX_TASKS as nat) <= 2,
        exec_time <= QUANTUM,
        !(class == TaskClass::RealTime && 0 < deadline < 10),
    ensures
        !spec_predict_preemption(tasks, current_idx, exec_time, class, deadline),
{
}

/// The count of ready tasks: it never exceeds the number of slots looked at,
/// it is 0 when no slot holds a ready task, and it is the number of slots
/// when every slot holds one.
pub proof fn law_ready_count(tasks: Seq<Option<Task>>, n: nat)
    ensures
        ready_count(tasks, n) <= n,
        (forall|i: int|
            0 <= i < n ==> !(#[trigger] tasks[i] matches Some(t) && t.state == TaskState::Ready))
            ==> ready_count(tasks, n) == 0,
        (forall|i: int|
            0 <= i < n ==> (#[trigger] tasks[i] matches Some(t) && t.state == TaskState::Ready))
            ==> ready_count(tasks, n) == n,
    decreases n,
{
    if n > 0 {
        law_ready_count(tasks, (n - 1) as nat);
    }
}

/// The deadlines after one tick: every pending deadline counts down by one.
pub open spec fn counted_down(d: u32) -> u32 {
    if d > 0 {
        (d - 1) as u32
    } else {
        0
    }
}

/// Starts a scheduling tick: the clock advances by one and every pending
/// task deadline comes one tick closer.
pub fn begin_tick(sched: &mut Scheduler, task_deadlines: &mut [u32; MAX_TASKS])
    requires
        old(sched).tick < usize::MAX,
    ensures
        *final(sched) == (Scheduler { tick: (old(sched).tick + 1) as usize, ..*old(sched) }),
        forall|i: int|
            0 <= i < MAX_TASKS ==> #[trigger] final(task_deadlines)[i] == counted_down(
                old(task_deadlines)[i],
            ),
{
    sched.tick = sched.tick + 1;
    let mut i: usize = 0;
    while i < MAX_TASKS
        invariant
            0 <= i <= MAX_TASKS,
            forall|j: int|
                0 <= j < i ==> #[trigger] task_deadlines[j] == counted_down(old(task_deadlines)[j]),
            forall|j: int| i <= j < MAX_TASKS ==> #[trigger] task_deadlines[j] == old(task_deadlines)[j],
        decreases MAX_TASKS - i,
    {
        if task_deadlines[i] > 0 {
            task_deadlines[i] = task_deadlines[i].saturating_sub(1);
        }
        i = i + 1;
    }
}

/// How the outcome of choosing a task drives the tick: a chosen slot goes on
/// to the switch, "no ready task" means the current task keeps running
/// (`Ok(None)`), any other error is passed on.
pub fn route_choice(choice: Result<usize, SchedulerError>) -> (r: Result<Option<usize>, SchedulerError>)
    ensures
        r == match choice {
            Ok(i) => Ok::<Option<usize>, SchedulerError>(Some(i)),
            Err(SchedulerError::NoRunnableTask) => Ok::<Option<usize>, SchedulerError>(None),
            Err(e) => Err::<Option<usize>, SchedulerError>(e),
        },
{
    match choice {
        Ok(i) => Ok(Some(i)),
        Err(SchedulerError::NoRunnableTask) => Ok(None),
        Err(e) => Err(e),
    }
}

/// The metrics recorded when the hart passes from the current task to slot
/// `next` at tick `sched.tick` (taken modulo 2^32): the outgoing task's run
/// time since its start stamp, the incoming task's wait since it last ran,
/// and the switch count modulo 255.
pub open spec fn switch_record(
    sched: Scheduler,
    next: int,
    context_switches: u64,
    start: Seq<u32>,
    last: Seq<u32>,
) -> TaskMetrics {
    let now = sched.tick as u32;
    let wait = sat_sub_u32(now, last[next]);
    TaskMetrics {
        task_id: sched.tasks@[next]->Some_0.id,
        execution_time: sat_sub_u32(now, start[sched.current as int]),
        wait_time: wait,
        memory_used: 0,
        ticks_since_run: wait,
        io_wait_count: 0,
        context_switches: ((context_switches as u32) % 255) as u32,
        priority_boost: 0,
    }
}

/// What a switch records, while the tick fits in 32 bits: the outgoing
/// task's run time is the tick minus its start stamp (0 if the stamp lies
/// ahead), the incoming task's wait is the tick minus when it last ran (0 if
/// that lies ahead) and is also its ticks since run, the record names the
/// incoming task, and it counts the switches modulo 255.
pub proof fn law_switch_record(
    sched: Scheduler,
    next: int,
    context_switches: u64,
    start: Seq<u32>,
    last: Seq<u32>,
)
    requires
        sched.tick <= u32::MAX,
    ensures
        ({
            let m = switch_record(sched, next, context_switches, start, last);
            let now = sched.tick as int;
            let s = start[sched.current as int] as int;
            let l = last[next] as int;
            &&& s <= now ==> m.execution_time == now - s
            &&& s > now ==> m.execution_time == 0
            &&& l <= now ==> m.wait_time == now - l
            &&& l > now ==> m.wait_time == 0
            &&& m.ticks_since_run == m.wait_time
            &&& m.task_id == sched.tasks@[next]->Some_0.id
            &&& m.memory_used == 0
            &&& m.io_wait_count == 0
            &&& m.priority_boost == 0
            &&& m.context_switches < 255
            &&& context_switches < 255 ==> m.context_switches == context_switches
        }),
{
}

/// `tasks` with the task in slot `i` (there is one) put in state `st`.
pub open spec fn set_state(tasks: Seq<Option<Task>>, i: int, st: TaskState) -> Seq<Option<Task>> {
    tasks.update(i, Some(Task { state: st, ..tasks[i]->Some_0 }))
}

/// What `commit_switch` does (see there): scheduler `s0` becomes `s1`, the
/// stamp arrays and totals go from `*0` to `*1`, the history from `h0` to
/// `h1`, and `r` is returned.
pub open spec fn switch_post(
    s0: Scheduler,
    s1: Scheduler,
    next: usize,
    context_switches: u64,
    start0: [u32; MAX_TASKS],
    start1: [u32; MAX_TASKS],
    last0: [u32; MAX_TASKS],
    last1: [u32; MAX_TASKS],
    tot0: [u32; MAX_TASKS],
    tot1: [u32; MAX_TASKS],
    h0: MetricsCollector,
    h1: MetricsCollector,
    r: Result<Option<TaskMetrics>, SchedulerError>,
) -> bool {
    let cur = s0.current as int;
    let n = next as int;
    let now = s0.tick as u32;
    let unchanged = {
        &&& s1 == s0
        &&& start1 == start0
        &&& last1 == last0
        &&& tot1 == tot0
        &&& h1.history == h0.history
        &&& h1.index == h0.index
    };
    if n == cur {
        r == Ok::<Option<TaskMetrics>, SchedulerError>(None) && unchanged
    } else if s0.tasks@[cur] is None {
        r == Err::<Option<TaskMetrics>, SchedulerError>(SchedulerError::MissingTask(cur as usize))
            && unchanged
    } else if s0.tasks@[n] is None {
        r == Err::<Option<TaskMetrics>, SchedulerError>(SchedulerError::MissingTask(next))
            && unchanged
    } else {
        let m = switch_record(s0, n, context_switches, start0@, last0@);
        &&& r == Ok::<Option<TaskMetrics>, SchedulerError>(Some(m))
        &&& h1.history@ == h0.history@.update(h0.index as int, Some(m))
        &&& h1.index == (h0.index + 1) % (METRICS_HISTORY_SIZE as int)
        &&& tot1@ == tot0@.update(cur, sat_add_u32(tot0[cur], m.execution_time))
        &&& last1@ == last0@.update(n, now)
        &&& start1@ == start0@.update(n, now)
        &&& s1.tasks@ == set_state(
            set_state(s0.tasks@, cur, TaskState::Ready),
            n,
            TaskState::Running,
        )
        &&& s1.current == next
        &&& s1.tick == s0.tick
    }
}

/// A switch moves the hart from the current task to slot `next` and changes
/// nothing else: when both slots hold tasks and differ, `next` becomes
/// current and running, the outgoing task ready (each keeping its other
/// fields), every other slot stays as it was; the outgoing task's total
/// grows by its run time (stopping at `u32::MAX`) and no other total moves;
/// the incoming task's start and last-run stamps become the tick and no
/// other stamp moves; the record returned is written at the history's write
/// position, which moves on by one. Otherwise nothing changes and no record
/// is returned.
pub proof fn law_commit_switch(
    s0: Scheduler,
    s1: Scheduler,
    next: usize,
    cs: u64,
    start0: [u32; MAX_TASKS],
    start1: [u32; MAX_TASKS],
    last0: [u32; MAX_TASKS],
    last1: [u32; MAX_TASKS],
    tot0: [u32; MAX_TASKS],
    tot1: [u32; MAX_TASKS],
    h0: MetricsCollector,
    h1: MetricsCollector,
    r: Result<Option<TaskMetrics>, SchedulerError>,
)
    requires
        switch_post(s0, s1, next, cs, start0, start1, last0, last1, tot0, tot1, h0, h1, r),
        s0.current < MAX_TASKS,
        next < MAX_TASKS,
        h0.index < METRICS_HISTORY_SIZE,
        s0.tick <= u32::MAX,
    ensures
        ({
            let cur = s0.current as int;
            let n = next as int;
            let switched = n != cur && s0.tasks@[cur] is Some && s0.tasks@[n] is Some;
            &&& switched ==> {
                let m = r->Ok_0->Some_0;
                let told = s0.tasks@[cur]->Some_0;
                let tnew = s0.tasks@[n]->Some_0;
                &&& r is Ok && r->Ok_0 is Some
                &&& m.task_id == tnew.id
                &&& (start0[cur] <= s0.tick ==> m.execution_time == s0.tick - start0[cur])
                &&& s1.current == next
                &&& s1.tick == s0.tick
                &&& s1.tasks@[n] == Some(Task { state: TaskState::Running, ..tnew })
                &&& s1.tasks@[cur] == Some(Task { state: TaskState::Ready, ..told })
                &&& forall|k: int|
                    0 <= k < MAX_TASKS && k != cur && k != n ==> #[trigger] s1.tasks@[k]
                        == s0.tasks@[k]
                &&& tot1[cur] == (if tot0[cur] + m.execution_time > u32::MAX {
                    u32::MAX as int
                } else {
                    tot0[cur] + m.execution_time
                })
                &&& forall|k: int| 0 <= k < MAX_TASKS && k != cur ==> #[trigger] tot1[k] == tot0[k]
                &&& start1[n] == s0.tick && last1[n] == s0.tick
                &&& forall|k: int|
                    0 <= k < MAX_TASKS && k != n ==> #[trigger] start1[k] == start0[k] && last1[k]
                        == last0[k]
                &&& h1.history[h0.index as int] == Some(m)
                &&& forall|k: int|
                    0 <= k < METRICS_HISTORY_SIZE && k != h0.index ==> #[trigger] h1.history[k]
                        == h0.history[k]
                &&& h1.index == (if h0.index + 1 == METRICS_HISTORY_SIZE {
                    0
                } else {
                    h0.index + 1
                })
            }
            &&& !switched ==> {
                &&& !(r matches Ok(Some(_)))
                &&& s1 == s0
                &&& start1 == start0
                &&& last1 == last0
                &&& tot1 == tot0
                &&& h1.history == h0.history
                &&& h1.index == h0.index
            }
        }),
{
    let cur = s0.current as int;
    let n = next as int;
    if n != cur && s0.tasks@[cur] is Some && s0.tasks@[n] is Some {
        law_switch_record(s0, n, cs, start0@, last0@);
        assert forall|k: int| 0 <= k < MAX_TASKS && k != n implies #[trigger] start1[k] == start0[k]
            && last1[k] == last0[k] by {
            assert(start1@[k] == start0@[k]);
            assert(last1@[k] == last0@[k]);
        }
        assert forall|k: int| 0 <= k < MAX_TASKS && k != cur implies #[trigger] tot1[k] == tot0[k] by {
            assert(tot1@[k] == tot0@[k]);
        }
        assert(start1@[n] == start1[n]);
        assert(tot1@[cur] == tot1[cur]);
        assert(h1.history@[h0.index as int] == h1.history[h0.index as int]);
        assert forall|k: int|
            0 <= k < METRICS_HISTORY_SIZE && k != h0.index implies #[trigger] h1.history[k]
            == h0.history[k] by {
            assert(h1.history@[k] == h0.history@[k]);
        }
    }
}

/// Carries out the switch to slot `next` chosen for this tick (see
/// `switch_record`).
///
/// - `next` is the current slot: nothing changes, `Ok(None)`.
/// - the current or the chosen slot is empty: nothing changes,
///   `Err(MissingTask(slot))`, the current slot checked first.
/// - otherwise the outgoing task is charged its run time (saturating), the
///   record is stored in the history, the incoming task's last-run and start
///   stamps become the tick, the outgoing task turns ready, the incoming one
///   running and current, and the record is returned for learning.
pub fn commit_switch(
    sched: &mut Scheduler,
    next: usize,
    context_switches: u64,
    execution_start_time: &mut [u32; MAX_TASKS],
    last_execution_tick: &mut [u32; MAX_TASKS],
    total_exec_time: &mut [u32; MAX_TASKS],
    history: &mut MetricsCollector,
) -> (r: Result<Option<TaskMetrics>, SchedulerError>)
    requires
        old(sched).current < MAX_TASKS,
        next < MAX_TASKS,
        old(history).index < METRICS_HISTORY_SIZE,
    ensures
        switch_post(
            *old(sched),
            *final(sched),
            next,
            context_switches,
            *old(execution_start_time),
            *final(execution_start_time),
            *old(last_execution_tick),
            *final(last_execution_tick),
            *old(total_exec_time),
            *final(total_exec_time),
            *old(history),
            *final(history),
            r,
        ),
{
    let cur = sched.current;
    if next == cur {
        return Ok(None);
    }
    let old_task = match sched.tasks[cur] {
        Some(t) => t,
        None => return Err(SchedulerError::MissingTask(cur)),
    };
    let new_task = match sched.tasks[next] {
        Some(t) => t,
        None => return Err(SchedulerError::MissingTask(next)),
    };
    let now: u32 = #[verifier::truncate] (sched.tick as u32);
    let exec_time = now.saturating_sub(execution_start_time[cur]);
    total_exec_time[cur] = total_exec_time[cur].saturating_add(exec_time);
    let wait = now.saturating_sub(last_execution_tick[next]);
    let mut metrics = TaskMetrics::new(new_task.id);
    metrics.execution_time = exec_time;
    metrics.wait_time = wait;
    metrics.ticks_since_run = wait;
    metrics.context_switches = (#[verifier::truncate] (context_switches as u32)) % 255;
    history.record(metrics);
    last_execution_tick[next] = now;
    execution_start_time[next] = now;
    sched.current = next;
    sched.tasks[cur] = Some(Task { state: TaskState::Ready, ..old_task });
    sched.tasks[next] = Some(Task { state: TaskState::Running, ..new_task });
    proof {
        assert(total_exec_time@ =~= old(total_exec_time)@.update(
            cur as int,
            sat_add_u32(old(total_exec_time)[cur as int], exec_time),
        ));
        assert(last_execution_tick@ =~= old(last_execution_tick)@.update(next as int, now));
        assert(execution_start_time@ =~= old(execution_start_time)@.update(next as int, now));
        assert(sched.tasks@ =~= set_state(
            set_state(old(sched).tasks@, cur as int, TaskState::Ready),
            next as int,
            TaskState::Running,
        ));
    }
    Ok(Some(metrics))
}

} // verus!
