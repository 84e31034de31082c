use neural_os::adaptive::{
    begin_tick, commit_switch, predict_preemption, route_choice, task_index, MetricsCollector, SchedulerError, TaskMetrics,
    METRICS_HISTORY_SIZE, QUANTUM,
};
use neural_os::neural::{NeuralError, TaskClass};
use neural_os::scheduler::{Scheduler, TaskState};

fn metrics(task_id: usize, exec: u32, wait: u32, mem: usize) -> TaskMetrics {
    let mut m = TaskMetrics::new(task_id);
    m.execution_time = exec;
    m.wait_time = wait;
    m.memory_used = mem;
    m
}

#[test]
fn task_ids_map_to_slots() {
    assert_eq!(task_index(1), Ok(0));
    assert_eq!(task_index(4), Ok(3));
    assert_eq!(task_index(0), Err(SchedulerError::InvalidTaskId(0)));
    assert_eq!(task_index(5), Err(SchedulerError::InvalidTaskId(5)));
}

#[test]
fn neural_errors_convert() {
    let e: SchedulerError = NeuralError::NonFiniteTarget.into();
    assert_eq!(e, SchedulerError::Neural(NeuralError::NonFiniteTarget));
}

#[test]
fn average_of_recorded_metrics() {
    let mut c = MetricsCollector::new();
    assert_eq!(c.get_average(1), None);
    c.record(metrics(1, 10, 4, 100));
    c.record(metrics(2, 99, 99, 99));
    c.record(metrics(1, 21, 5, 201));
    let avg = c.get_average(1).unwrap();
    assert_eq!(avg.task_id, 1);
    assert_eq!(avg.execution_time, 15);
    assert_eq!(avg.wait_time, 4);
    assert_eq!(avg.memory_used, 150);
    assert_eq!(avg.priority_boost, 0);
    assert_eq!(c.count_for_task(1), 2);
    assert_eq!(c.count_for_task(2), 1);
    assert_eq!(c.count_for_task(3), 0);
}

#[test]
fn average_sums_saturate() {
    let mut c = MetricsCollector::new();
    c.record(metrics(1, u32::MAX, 0, 0));
    c.record(metrics(1, u32::MAX, 0, 0));
    assert_eq!(c.get_average(1).unwrap().execution_time, u32::MAX / 2);
}

#[test]
fn history_wraps_around() {
    let mut c = MetricsCollector::new();
    for i in 0..METRICS_HISTORY_SIZE {
        c.record(metrics(1, i as u32, 0, 0));
    }
    assert_eq!(c.index, 0);
    c.record(metrics(2, 0, 0, 0));
    assert_eq!(c.index, 1);
    assert_eq!(c.count_for_task(1), METRICS_HISTORY_SIZE - 1);
    assert_eq!(c.count_for_task(2), 1);
}

#[test]
fn preemption_predictor() {
    let mut s = Scheduler::new();
    for id in 1..=4 {
        s.add_task(id, 0);
    }
    let classes = [TaskClass::RealTime, TaskClass::Batch, TaskClass::Batch, TaskClass::Batch];
    let no_deadlines = [0u32; 4];
    // three tasks ready: preempt after a third of a quantum
    assert!(!predict_preemption(&s, 0, &[QUANTUM / 3, 0, 0, 0], &classes, &no_deadlines));
    assert!(predict_preemption(&s, 0, &[QUANTUM / 3 + 1, 0, 0, 0], &classes, &no_deadlines));
    // real-time deadline close
    assert!(predict_preemption(&s, 0, &[0, 0, 0, 0], &classes, &[9, 0, 0, 0]));
    assert!(!predict_preemption(&s, 0, &[0, 0, 0, 0], &classes, &[10, 0, 0, 0]));
    // fewer ready tasks: only the full quantum counts
    s.tasks[1] = None;
    s.tasks[2].as_mut().unwrap().state = TaskState::Blocked;
    assert!(!predict_preemption(&s, 1, &[0, QUANTUM, 0, 0], &classes, &no_deadlines));
    assert!(!predict_preemption(&s, 3, &[0, 0, 0, QUANTUM], &classes, &no_deadlines));
    assert!(predict_preemption(&s, 3, &[0, 0, 0, QUANTUM + 1], &classes, &no_deadlines));
}

#[test]
fn begin_tick_advances_clock_and_deadlines() {
    let mut s = Scheduler::new();
    s.tick = 41;
    let mut deadlines = [5u32, 0, 1, 200];
    begin_tick(&mut s, &mut deadlines);
    assert_eq!(s.tick, 42);
    assert_eq!(deadlines, [4, 0, 0, 199]);
}

#[test]
fn route_choice_keeps_current_when_nothing_is_ready() {
    assert_eq!(route_choice(Ok(2)), Ok(Some(2)));
    assert_eq!(route_choice(Err(SchedulerError::NoRunnableTask)), Ok(None));
    assert_eq!(
        route_choice(Err(SchedulerError::Neural(NeuralError::NonFiniteOutput))),
        Err(SchedulerError::Neural(NeuralError::NonFiniteOutput))
    );
}

#[test]
fn tick_with_no_ready_task_keeps_task_running() {
    let mut s = Scheduler::new();
    s.add_task(1, 0);
    let mut deadlines = [5u32, 0, 0, 0];
    begin_tick(&mut s, &mut deadlines);
    assert_eq!(route_choice(Err(SchedulerError::NoRunnableTask)), Ok(None));
    assert_eq!(s.current, 0);
    assert_eq!(s.tasks[0].unwrap().state, TaskState::Running);
    assert_eq!(deadlines[0], 4);
}

#[test]
fn commit_switch_bookkeeping() {
    let mut s = Scheduler::new();
    s.add_task(1, 0);
    s.add_task(2, 0);
    s.tick = 30;
    let mut start = [10u32, 0, 0, 0];
    let mut last = [0u32, 12, 0, 0];
    let mut total = [5u32, 0, 0, 0];
    let mut hist = MetricsCollector::new();
    let r = commit_switch(&mut s, 1, 300, &mut start, &mut last, &mut total, &mut hist).unwrap();
    let m = r.unwrap();
    assert_eq!(m.task_id, 2);
    assert_eq!(m.execution_time, 20);
    assert_eq!(m.wait_time, 18);
    assert_eq!(m.ticks_since_run, 18);
    assert_eq!(m.context_switches, 300 % 255);
    assert_eq!(total, [25, 0, 0, 0]);
    assert_eq!(last[1], 30);
    assert_eq!(start[1], 30);
    assert_eq!(s.current, 1);
    assert_eq!(s.tasks[0].unwrap().state, TaskState::Ready);
    assert_eq!(s.tasks[1].unwrap().state, TaskState::Running);
    assert_eq!(hist.index, 1);
    assert_eq!(hist.history[0], Some(m));
    // switching to the running slot does nothing
    assert_eq!(commit_switch(&mut s, 1, 0, &mut start, &mut last, &mut total, &mut hist), Ok(None));
    // an empty chosen slot is refused and nothing changes
    assert_eq!(
        commit_switch(&mut s, 3, 0, &mut start, &mut last, &mut total, &mut hist),
        Err(SchedulerError::MissingTask(3))
    );
    assert_eq!(s.current, 1);
    assert_eq!(hist.index, 1);
    // an empty current slot is refused first
    s.current = 2;
    assert_eq!(
        commit_switch(&mut s, 3, 0, &mut start, &mut last, &mut total, &mut hist),
        Err(SchedulerError::MissingTask(2))
    );
}
