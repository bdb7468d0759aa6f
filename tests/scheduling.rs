use ringexec::{LocalExecutor, RunError, RunStep, TaskQueueHandle, DEFAULT_QUEUE};

fn default_queue() -> TaskQueueHandle {
    TaskQueueHandle { index: DEFAULT_QUEUE }
}

#[test]
fn three_counting_tasks_then_root() {
    let mut ex = LocalExecutor::default();
    assert_eq!(ex.enter(), Ok(()));
    let mut workers = Vec::new();
    for _ in 0..3 {
        workers.push(ex.spawn().unwrap().task);
    }
    let root = ex.spawn().unwrap();
    assert_eq!(root.queue, default_queue());
    assert_eq!(ex.next_step(false), RunStep::PollIo { block: false });

    let mut counter = 0;
    let q = ex.begin_one_task_queue().unwrap();
    assert_eq!(q, default_queue());
    let mut ran = Vec::new();
    while let Some(t) = ex.next_task() {
        if workers.contains(&t) {
            counter += 1;
        }
        ran.push(t);
    }
    ex.finish_task_queue();
    assert_eq!(ran, vec![workers[0], workers[1], workers[2], root.task]);
    assert_eq!(counter, 3);
    assert!(!ex.get_queue(default_queue()).unwrap().is_active());
    assert!(!ex.has_runnable());
    assert_eq!(ex.begin_one_task_queue(), None);
    assert_eq!(ex.next_step(true), RunStep::Finish);
    ex.leave();
}

#[test]
fn spawned_tasks_run_in_spawn_order() {
    let mut ex = LocalExecutor::default();
    let ids: Vec<u64> = (0..5).map(|_| ex.spawn().unwrap().task).collect();
    assert_eq!(ex.get_queue(default_queue()).unwrap().tasks(), ids);
    ex.begin_one_task_queue().unwrap();
    let first = ex.next_task().unwrap();
    let extra = ex.spawn().unwrap().task;
    let mut rest = Vec::new();
    while let Some(t) = ex.next_task() {
        rest.push(t);
    }
    assert_eq!(first, ids[0]);
    assert_eq!(rest, vec![ids[1], ids[2], ids[3], ids[4], extra]);
}

#[test]
fn child_inherits_queue_of_running_parent() {
    let mut ex = LocalExecutor::default();
    let io = ex.add_task_queue(String::from("io")).unwrap();
    assert_eq!(io.index, 1);
    let parent = ex.spawn_into(io).unwrap();
    assert_eq!(parent.queue, io);
    assert_eq!(ex.begin_one_task_queue(), Some(io));
    assert_eq!(ex.next_task(), Some(parent.task));
    let child = ex.spawn().unwrap();
    assert_eq!(child.queue, io);
    assert_eq!(ex.next_task(), Some(child.task));
    ex.finish_task_queue();
    let outside = ex.spawn().unwrap();
    assert_eq!(outside.queue, default_queue());
}

#[test]
fn drained_queue_is_not_taken_up_again_until_woken() {
    let mut ex = LocalExecutor::default();
    let t = ex.spawn().unwrap().task;
    ex.begin_one_task_queue().unwrap();
    assert_eq!(ex.next_task(), Some(t));
    assert_eq!(ex.next_task(), None);
    ex.finish_task_queue();
    assert!(!ex.get_queue(default_queue()).unwrap().is_active());
    assert_eq!(ex.begin_one_task_queue(), None);
    assert!(ex.wake(t, default_queue()));
    assert!(ex.get_queue(default_queue()).unwrap().is_active());
    assert_eq!(ex.begin_one_task_queue(), Some(default_queue()));
    assert_eq!(ex.next_task(), Some(t));
}

#[test]
fn queue_with_work_left_is_pushed_back() {
    let mut ex = LocalExecutor::default();
    ex.spawn().unwrap();
    ex.begin_one_task_queue().unwrap();
    ex.next_task().unwrap();
    let again = ex.spawn().unwrap().task;
    ex.finish_task_queue();
    assert!(ex.has_runnable());
    assert_eq!(ex.begin_one_task_queue(), Some(default_queue()));
    assert_eq!(ex.next_task(), Some(again));
}

#[test]
fn immediate_root_finishes_without_waiting() {
    let mut ex = LocalExecutor::default();
    ex.enter().unwrap();
    ex.spawn().unwrap();
    let step = ex.next_step(false);
    assert_eq!(step, RunStep::PollIo { block: false });
    ex.begin_one_task_queue().unwrap();
    while ex.next_task().is_some() {}
    ex.finish_task_queue();
    assert_eq!(ex.next_step(true), RunStep::Finish);
}

#[test]
fn nested_run_is_refused() {
    let mut ex = LocalExecutor::default();
    assert_eq!(ex.enter(), Ok(()));
    assert_eq!(ex.enter(), Err(RunError::AlreadyRunning));
    ex.leave();
    assert_eq!(ex.enter(), Ok(()));
}

#[test]
fn nothing_runnable_and_nothing_in_flight_is_a_stall() {
    let ex = LocalExecutor::default();
    assert_eq!(ex.next_step(false), RunStep::Stalled);
}

#[test]
fn unknown_queue_is_refused() {
    let mut ex = LocalExecutor::default();
    assert_eq!(ex.spawn_into(TaskQueueHandle { index: 3 }), None);
    assert!(!ex.wake(7, TaskQueueHandle { index: 3 }));
    assert!(ex.get_queue(TaskQueueHandle { index: 3 }).is_none());
    assert!(!ex.has_runnable());
}

#[test]
fn init_installs_one_default_queue() {
    let mut ex = LocalExecutor::new();
    assert!(ex.get_queue(default_queue()).is_none());
    assert_eq!(ex.get_id(), 0);
    ex.init();
    ex.add_default_task_queue();
    let q = ex.get_queue(default_queue()).unwrap();
    assert_eq!(q.handle(), default_queue());
    assert_eq!(q.len(), 0);
    assert_eq!(q.name, "default");
    assert!(ex.get_queue(TaskQueueHandle { index: 1 }).is_none());
    assert_eq!(ex.get_reactor().main_ring.depth, 128);
}
