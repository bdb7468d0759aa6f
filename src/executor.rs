use vstd::prelude::*;
use crate::reactor::{batch_taken, completion_target, poll_mask, Reactor, SubmissionBatch, CANCEL_USER_DATA};
use vstd::string::StrSliceExecFns;
use crate::uring::{Source, UringDescriptor, UringOpDescriptor};

verus! {

/// The ring depth of a new executor.
pub const DEFAULT_RING_SUBMISSION_DEPTH: usize = 128;

/// The numeric handle of a task queue.
#[derive(Clone, Copy, Debug, PartialEq, Eq, Structural)]
pub struct TaskQueueHandle {
    pub index: usize,
}

/// The handle of the queue that `init` installs.
pub const DEFAULT_QUEUE: usize = 0;

/// Runnable tasks of one scheduling identity, in the order they became
/// runnable.
pub struct TaskQueue {
    pub name: String,
    index: usize,
    tasks: std::collections::VecDeque<u64>,
    active: bool,
}

impl TaskQueue {
    fn new(name: String, index: usize) -> (r: Self)
        ensures
            r.index == index,
            r.name@ == name@,
            r.tasks@ == Seq::<u64>::empty(),
            !r.active,
    {
        TaskQueue { name, index, tasks: std::collections::VecDeque::new(), active: false }
    }
}

/// All known queues, the ones with runnable work, and the one running now.
pub struct QueueManager {
    available_queues: Vec<TaskQueue>,
    active_queues: Vec<usize>,
    active_executing: Option<usize>,
}

impl QueueManager {
    /// How many queues exist; their handles are `0..num_queues()`.
    pub closed spec fn num_queues(&self) -> nat {
        self.available_queues@.len()
    }

    /// The runnable tasks of queue `q`, next to run first.
    pub closed spec fn queue_tasks(&self, q: int) -> Seq<u64> {
        self.available_queues@[q].tasks@
    }

    /// The queues waiting to be run, the next one last.
    pub closed spec fn active_set(&self) -> Seq<usize> {
        self.active_queues@
    }

    /// The queue whose tasks are being run, if any.
    pub closed spec fn executing(&self) -> Option<usize> {
        self.active_executing
    }

    /// The name of queue `q`.
    pub closed spec fn queue_name(&self, q: int) -> Seq<char> {
        self.available_queues@[q].name@
    }

    /// The activation flag of queue `q`.
    pub closed spec fn is_active(&self, q: int) -> bool {
        self.available_queues@[q].active
    }

    pub closed spec fn wf(&self) -> bool {
        &&& forall|q: int|
            0 <= q < self.available_queues@.len() ==> #[trigger] self.available_queues@[q].index
                == q
        &&& self.active_queues@.no_duplicates()
        &&& forall|i: int|
            0 <= i < self.active_queues@.len() ==> #[trigger] self.active_queues@[i]
                < self.available_queues@.len()
        &&& match self.active_executing {
            Some(q) => q < self.available_queues@.len() && !self.active_queues@.contains(q),
            None => true,
        }
        &&& forall|q: int|
            0 <= q < self.available_queues@.len() ==> (#[trigger] self.available_queues@[q].active
                <==> (self.active_queues@.contains(q as usize) || self.active_executing == Some(
                q as usize,
            )))
        &&& forall|i: int|
            0 <= i < self.active_queues@.len() ==> #[trigger] self.available_queues@[self.active_queues@[i] as int].tasks@.len()
                > 0
        &&& forall|q: int|
            0 <= q < self.available_queues@.len() ==> #[trigger] self.available_queues@[q].tasks@.len() > 0
                ==> self.available_queues@[q].active
    }

    fn new() -> (r: Self)
        ensures
            r.wf(),
            r.num_queues() == 0,
            r.active_set() == Seq::<usize>::empty(),
            r.executing() == None::<usize>,
    {
        QueueManager {
            available_queues: Vec::new(),
            active_queues: Vec::new(),
            active_executing: None,
        }
    }

    /// Adds a queue with no tasks and returns its handle.
    fn add_queue(&mut self, name: String) -> (h: usize)
        requires
            old(self).wf(),
            old(self).num_queues() < usize::MAX,
        ensures
            final(self).wf(),
            h == old(self).num_queues(),
            final(self).num_queues() == old(self).num_queues() + 1,
            final(self).queue_name(h as int) == name@,
            final(self).queue_tasks(h as int) == Seq::<u64>::empty(),
            !final(self).is_active(h as int),
            forall|q: int|
                0 <= q < old(self).num_queues() ==> #[trigger] final(self).queue_tasks(q)
                    == old(self).queue_tasks(q) && final(self).is_active(q) == old(self).is_active(q),
            final(self).active_set() == old(self).active_set(),
            final(self).executing() == old(self).executing(),
    {
        let h = self.available_queues.len();
        self.available_queues.push(TaskQueue::new(name, h));
        assert(forall|i: int|
            0 <= i < self.active_queues@.len() ==> #[trigger] self.active_queues@[i] != h);
        h
    }

    /// Makes `task` runnable at the back of queue `q`, and queues `q` for
    /// running unless it is waiting or running already.
    fn schedule(&mut self, task: u64, q: usize)
        requires
            old(self).wf(),
            q < old(self).num_queues(),
        ensures
            final(self).wf(),
            final(self).num_queues() == old(self).num_queues(),
            final(self).queue_tasks(q as int) == old(self).queue_tasks(q as int).push(task),
            forall|p: int|
                0 <= p < old(self).num_queues() && p != q ==> #[trigger] final(self).queue_tasks(p)
                    == old(self).queue_tasks(p),
            final(self).executing() == old(self).executing(),
            final(self).is_active(q as int),
            final(self).active_set() == (if old(self).is_active(q as int) {
                old(self).active_set()
            } else {
                old(self).active_set().push(q)
            }),
            forall|p: int|
                0 <= p < old(self).num_queues() && p != q ==> #[trigger] final(self).is_active(p)
                    == old(self).is_active(p),
    {
        let was_active = self.available_queues[q].active;
        self.available_queues[q].tasks.push_back(task);
        if !was_active {
            self.available_queues[q].active = true;
            self.active_queues.push(q);
            assert(self.active_queues@.last() == q);
        }
        proof {
            assert(self.available_queues.len() == self.available_queues@.len());
            let aq = self.active_queues@;
            assert forall|i: int| 0 <= i < aq.len() implies #[trigger] self.available_queues@[aq[i] as int].tasks@.len() > 0 by {
                if i < old(self).active_queues@.len() {
                    assert(old(self).active_queues@[i] == aq[i]);
                }
            }
            assert forall|p: int| 0 <= p < self.available_queues@.len() implies (#[trigger] self.available_queues@[p].active
                <==> (aq.contains(p as usize) || self.active_executing == Some(p as usize))) by {
                if p != q {
                    if aq.contains(p as usize) {
                        let i = choose|i: int| 0 <= i < aq.len() && aq[i] == p as usize;
                        if !was_active {
                            assert(aq[aq.len() - 1] == q);
                            assert((p as usize) != q);
                            assert(i < aq.len() - 1);
                            assert(old(self).active_queues@[i] == p as usize);
                        }
                    }
                    if old(self).active_queues@.contains(p as usize) {
                        let i = choose|i: int| 0 <= i < old(self).active_queues@.len() && old(self).active_queues@[i] == p as usize;
                        assert(aq[i] == p as usize);
                    }
                }
            }
        }
    }

    /// Takes the next queue with runnable work and marks it as running.
    fn begin_one_task_queue(&mut self) -> (r: Option<usize>)
        requires
            old(self).wf(),
            old(self).executing() == None::<usize>,
        ensures
            final(self).wf(),
            final(self).num_queues() == old(self).num_queues(),
            forall|p: int|
                0 <= p < old(self).num_queues() ==> #[trigger] final(self).queue_tasks(p)
                    == old(self).queue_tasks(p) && final(self).is_active(p) == old(self).is_active(p),
            old(self).active_set().len() == 0 ==> r == None::<usize> && *final(self) == *old(self),
            old(self).active_set().len() > 0 ==> r == Some(old(self).active_set().last())
                && final(self).active_set() == old(self).active_set().drop_last()
                && final(self).executing() == r,
    {
        if self.active_queues.len() == 0 {
            return None;
        }
        let r = self.active_queues.pop();
        self.active_executing = r;
        proof {
            let aq = self.active_queues@;
            let oq = old(self).active_queues@;
            if let Some(q) = r {
                assert(oq =~= aq.push(q));
                assert forall|i: int| 0 <= i < aq.len() implies #[trigger] aq[i] != q by {
                    assert(oq[i] == aq[i]);
                    assert(oq[oq.len() - 1] == q);
                }
                assert forall|p: int| 0 <= p < self.available_queues@.len() implies (#[trigger] self.available_queues@[p].active
                    <==> (aq.contains(p as usize) || self.active_executing == Some(p as usize))) by {
                    if oq.contains(p as usize) {
                        let i = choose|i: int| 0 <= i < oq.len() && oq[i] == p as usize;
                        if i < aq.len() {
                            assert(aq[i] == oq[i]);
                        }
                    }
                    if aq.contains(p as usize) {
                        let i = choose|i: int| 0 <= i < aq.len() && aq[i] == p as usize;
                        assert(oq[i] == aq[i]);
                    }
                }
                assert forall|i: int| 0 <= i < aq.len() implies #[trigger] self.available_queues@[aq[i] as int].tasks@.len() > 0 by {
                    assert(oq[i] == aq[i]);
                }
                assert forall|i: int| 0 <= i < aq.len() implies #[trigger] aq[i] < self.available_queues@.len() by {
                    assert(oq[i] == aq[i]);
                }
            }
        }
        r
    }

    /// Takes the next runnable task of the running queue.
    fn next_task(&mut self) -> (r: Option<u64>)
        requires
            old(self).wf(),
            old(self).executing() is Some,
        ensures
            ({
                let q = old(self).executing()->0 as int;
                let t = old(self).queue_tasks(q);
                &&& final(self).wf()
                &&& r == (if t.len() > 0 { Some(t[0]) } else { None::<u64> })
                &&& final(self).queue_tasks(q) == (if t.len() > 0 { t.drop_first() } else { t })
                &&& forall|p: int|
                    0 <= p < old(self).num_queues() && p != q ==> #[trigger] final(self).queue_tasks(p)
                        == old(self).queue_tasks(p)
                &&& forall|p: int|
                    0 <= p < old(self).num_queues() ==> #[trigger] final(self).is_active(p)
                        == old(self).is_active(p)
            }),
            final(self).num_queues() == old(self).num_queues(),
            final(self).active_set() == old(self).active_set(),
            final(self).executing() == old(self).executing(),
    {
        let q = self.active_executing.unwrap();
        let r = self.available_queues[q].tasks.pop_front();
        proof {
            let aq = self.active_queues@;
            assert forall|i: int| 0 <= i < aq.len() implies #[trigger] self.available_queues@[aq[i] as int].tasks@.len() > 0 by {
                assert(aq[i] != q);
                assert(old(self).available_queues@[aq[i] as int].tasks@.len() > 0);
            }
        }
        r
    }

    /// Ends the run of the running queue: it waits for another round if it
    /// still has runnable tasks, and leaves the active set otherwise.
    fn finish_task_queue(&mut self)
        requires
            old(self).wf(),
            old(self).executing() is Some,
        ensures
            ({
                let q = old(self).executing()->0;
                &&& final(self).wf()
                &&& final(self).executing() == None::<usize>
                &&& final(self).active_set() == (if old(self).queue_tasks(q as int).len() > 0 {
                    old(self).active_set().push(q)
                } else {
                    old(self).active_set()
                })
                &&& final(self).is_active(q as int) == (old(self).queue_tasks(q as int).len() > 0)
                &&& forall|p: int|
                    0 <= p < old(self).num_queues() && p != q ==> #[trigger] final(self).is_active(p)
                        == old(self).is_active(p)
                &&& forall|p: int|
                    0 <= p < old(self).num_queues() ==> #[trigger] final(self).queue_tasks(p)
                        == old(self).queue_tasks(p)
            }),
            final(self).num_queues() == old(self).num_queues(),
    {
        let q = self.active_executing.unwrap();
        self.active_executing = None;
        if self.available_queues[q].tasks.len() > 0 {
            self.active_queues.push(q);
            assert(self.active_queues@.last() == q);
        } else {
            self.available_queues[q].active = false;
        }
        proof {
            assert(self.available_queues.len() == self.available_queues@.len());
            let aq = self.active_queues@;
            let oq = old(self).active_queues@;
            assert forall|i: int| 0 <= i < aq.len() implies #[trigger] self.available_queues@[aq[i] as int].tasks@.len() > 0 by {
                if i < oq.len() {
                    assert(oq[i] == aq[i]);
                }
            }
            assert forall|i: int| 0 <= i < aq.len() implies #[trigger] aq[i] < self.available_queues@.len() by {
                if i < oq.len() {
                    assert(oq[i] == aq[i]);
                }
            }
            assert forall|p: int| 0 <= p < self.available_queues@.len() implies (#[trigger] self.available_queues@[p].active
                <==> (aq.contains(p as usize) || self.active_executing == Some(p as usize))) by {
                if aq.contains(p as usize) {
                    let i = choose|i: int| 0 <= i < aq.len() && aq[i] == p as usize;
                    if i < oq.len() {
                        assert(oq[i] == aq[i]);
                    }
                }
                if oq.contains(p as usize) {
                    let i = choose|i: int| 0 <= i < oq.len() && oq[i] == p as usize;
                    assert(aq[i] == oq[i]);
                }
                if p == q as int {
                    if aq.len() > oq.len() {
                        assert(aq[aq.len() - 1] == q);
                    }
                }
            }
        }
    }
}

impl TaskQueue {
    /// The queue's handle.
    pub fn handle(&self) -> (r: TaskQueueHandle)
        ensures
            r.index == self.handle_spec(),
    {
        TaskQueueHandle { index: self.index }
    }

    /// How many tasks are runnable in this queue.
    pub fn len(&self) -> (r: usize)
        ensures
            r == self.tasks_view().len(),
    {
        self.tasks.len()
    }

    /// Whether the queue is waiting to run or running.
    pub fn is_active(&self) -> (r: bool)
        ensures
            r == self.active_spec(),
    {
        self.active
    }

    /// The runnable tasks, next to run first.
    pub fn tasks(&self) -> (r: Vec<u64>)
        ensures
            r@ == self.tasks_view(),
    {
        let mut r: Vec<u64> = Vec::new();
        let mut i: usize = 0;
        while i < self.tasks.len()
            invariant
                i <= self.tasks@.len(),
                r@ == self.tasks@.take(i as int),
            decreases self.tasks@.len() - i,
        {
            r.push(self.tasks[i]);
            assert(self.tasks@.take(i + 1) =~= self.tasks@.take(i as int).push(self.tasks@[i as int]));
            i = i + 1;
        }
        assert(self.tasks@.take(i as int) =~= self.tasks@);
        r
    }
}

/// Why `enter` refused to start a run.
#[derive(Clone, Copy, Debug, PartialEq, Eq, Structural)]
pub enum RunError {
    /// A run of this executor is in progress already.
    AlreadyRunning,
}

/// What the run loop does next.
#[derive(Clone, Copy, Debug, PartialEq, Eq, Structural)]
pub enum RunStep {
    /// The root task is done: hand its output back.
    Finish,
    /// Submit queued descriptors and consume completions, then run the
    /// active queues. Waiting in the kernel is allowed only when `block`.
    PollIo { block: bool },
    /// Nothing is runnable and nothing is in flight, yet the root task is not
    /// done: a defect in the program being run.
    Stalled,
}

/// The decision of the run loop, from whether the root task is done, whether
/// any queue has runnable work, and whether any operation is queued for the
/// ring or held by the kernel.
pub open spec fn spec_next_step(root_ready: bool, runnable: bool, io_pending: bool) -> RunStep {
    if root_ready {
        RunStep::Finish
    } else if runnable {
        RunStep::PollIo { block: false }
    } else if io_pending {
        RunStep::PollIo { block: true }
    } else {
        RunStep::Stalled
    }
}

/// A task made runnable by `spawn`, and where.
#[derive(Clone, Copy, Debug, PartialEq, Eq, Structural)]
pub struct SpawnedTask {
    pub task: u64,
    pub queue: TaskQueueHandle,
}

/// The scheduling and reactor state of one thread.
pub struct LocalExecutor {
    id: usize,
    queues: QueueManager,
    reactor: Reactor,
    running: bool,
    next_task: u64,
}

impl LocalExecutor {
    pub closed spec fn manager(&self) -> QueueManager {
        self.queues
    }

    pub closed spec fn spec_reactor(&self) -> Reactor {
        self.reactor
    }

    pub closed spec fn spec_id(&self) -> usize {
        self.id
    }

    pub closed spec fn is_running(&self) -> bool {
        self.running
    }

    /// The identifier the next spawned task gets.
    pub closed spec fn next_task_id(&self) -> u64 {
        self.next_task
    }

    pub open spec fn wf(&self) -> bool {
        &&& self.manager().wf()
        &&& self.spec_reactor().wf()
        &&& forall|k: u64| #[trigger] self.spec_reactor().source_map.sources().contains_key(k)
            ==> self.spec_reactor().source_map.sources()[k].queue < self.manager().num_queues()
    }

    /// An executor with no queue yet, a fresh reactor of the default ring
    /// depth, and no run in progress.
    pub fn new() -> (r: Self)
        ensures
            r.wf(),
            r.spec_id() == 0,
            r.manager().num_queues() == 0,
            r.manager().executing() == None::<usize>,
            r.manager().active_set() == Seq::<usize>::empty(),
            !r.is_running(),
            r.next_task_id() == 0,
            r.spec_reactor().main_ring.depth == DEFAULT_RING_SUBMISSION_DEPTH,
            r.spec_reactor().main_ring.in_kernel == 0,
            r.spec_reactor().source_map.sources() == Map::<u64, Source>::empty(),
            r.spec_reactor().source_map.next_id() == 1,
            r.spec_reactor().main_ring.submission_queue.submissions@ == Seq::<UringDescriptor>::empty(),
            r.spec_reactor().main_ring.submission_queue.cancellations@ == Seq::<UringDescriptor>::empty(),
    {
        LocalExecutor {
            id: 0,
            queues: QueueManager::new(),
            reactor: Reactor::new(DEFAULT_RING_SUBMISSION_DEPTH),
            running: false,
            next_task: 0,
        }
    }

    /// Installs the default queue.
    pub fn init(&mut self)
        requires
            old(self).wf(),
        ensures
            final(self).wf(),
            final(self).manager().num_queues() >= 1,
            old(self).manager().num_queues() == 0 ==> final(self).manager().num_queues() == 1
                && final(self).manager().queue_tasks(0) == Seq::<u64>::empty()
                && !final(self).manager().is_active(0)
                && final(self).manager().queue_name(0) == "default"@,
            old(self).manager().num_queues() > 0 ==> final(self).manager() == old(self).manager(),
            final(self).manager().active_set() == old(self).manager().active_set(),
            final(self).manager().executing() == old(self).manager().executing(),
            final(self).spec_reactor() == old(self).spec_reactor(),
            final(self).is_running() == old(self).is_running(),
            final(self).next_task_id() == old(self).next_task_id(),
    {
        self.add_default_task_queue();
    }

    /// A new executor with its default queue installed.
    pub fn default() -> (r: Self)
        ensures
            r.wf(),
            r.manager().num_queues() == 1,
            r.manager().queue_tasks(0) == Seq::<u64>::empty(),
            r.manager().executing() == None::<usize>,
            r.manager().active_set() == Seq::<usize>::empty(),
            !r.is_running(),
            r.next_task_id() == 0,
            !r.manager().is_active(0),
            r.manager().queue_name(0) == "default"@,
            r.spec_reactor().main_ring.depth == DEFAULT_RING_SUBMISSION_DEPTH,
            r.spec_reactor().main_ring.in_kernel == 0,
            r.spec_reactor().source_map.sources() == Map::<u64, Source>::empty(),
            r.spec_reactor().source_map.next_id() == 1,
            r.spec_reactor().main_ring.submission_queue.submissions@ == Seq::<UringDescriptor>::empty(),
            r.spec_reactor().main_ring.submission_queue.cancellations@ == Seq::<UringDescriptor>::empty(),
    {
        let mut ex = LocalExecutor::new();
        ex.init();
        ex
    }

    pub fn get_reactor(&self) -> (r: &Reactor)
        ensures
            *r == self.spec_reactor(),
    {
        &self.reactor
    }

    /// Installs the default queue, handle 0, unless it exists already.
    pub fn add_default_task_queue(&mut self)
        requires
            old(self).wf(),
        ensures
            final(self).wf(),
            final(self).manager().num_queues() >= 1,
            old(self).manager().num_queues() == 0 ==> final(self).manager().num_queues() == 1
                && final(self).manager().queue_tasks(0) == Seq::<u64>::empty()
                && !final(self).manager().is_active(0)
                && final(self).manager().queue_name(0) == "default"@,
            old(self).manager().num_queues() > 0 ==> final(self).manager() == old(self).manager(),
            final(self).manager().active_set() == old(self).manager().active_set(),
            final(self).manager().executing() == old(self).manager().executing(),
            final(self).spec_reactor() == old(self).spec_reactor(),
            final(self).is_running() == old(self).is_running(),
            final(self).next_task_id() == old(self).next_task_id(),
    {
        if self.queues.available_queues.len() == 0 {
            self.queues.add_queue(String::from_str("default"));
        }
    }

    pub fn get_id(&self) -> (r: usize)
        ensures
            r == self.spec_id(),
    {
        self.id
    }

    /// The queue under `handle`, if there is one.
    pub fn get_queue(&self, handle: TaskQueueHandle) -> (r: Option<&TaskQueue>)
        requires
            self.wf(),
        ensures
            handle.index < self.manager().num_queues() <==> r is Some,
            r matches Some(tq) ==> tq.handle_spec() == handle.index && tq.name_view()
                == self.manager().queue_name(handle.index as int) && tq.tasks_view()
                == self.manager().queue_tasks(handle.index as int) && tq.active_spec()
                == self.manager().is_active(handle.index as int),
    {
        if handle.index < self.queues.available_queues.len() {
            Some(&self.queues.available_queues[handle.index])
        } else {
            None
        }
    }

    fn get_default_queue(&self) -> (r: Option<&TaskQueue>)
        requires
            self.wf(),
        ensures
            r is Some <==> self.manager().num_queues() > 0,
            r matches Some(tq) ==> tq.handle_spec() == DEFAULT_QUEUE,
    {
        self.get_queue(TaskQueueHandle { index: DEFAULT_QUEUE })
    }
}

impl LocalExecutor {
    /// Adds a queue with no tasks under a new handle.
    pub fn add_task_queue(&mut self, name: String) -> (r: Option<TaskQueueHandle>)
        requires
            old(self).wf(),
        ensures
            final(self).wf(),
            r is Some <==> old(self).manager().num_queues() < usize::MAX,
            r matches Some(h) ==> {
                &&& h.index == old(self).manager().num_queues()
                &&& final(self).manager().num_queues() == old(self).manager().num_queues() + 1
                &&& final(self).manager().queue_tasks(h.index as int) == Seq::<u64>::empty()
                &&& !final(self).manager().is_active(h.index as int)
                &&& forall|q: int|
                    0 <= q < old(self).manager().num_queues() ==> #[trigger] final(self).manager().queue_tasks(q)
                        == old(self).manager().queue_tasks(q) && final(self).manager().is_active(q)
                        == old(self).manager().is_active(q)
                &&& final(self).manager().active_set() == old(self).manager().active_set()
                &&& final(self).manager().executing() == old(self).manager().executing()
            },
            r is None ==> final(self).manager() == old(self).manager(),
            final(self).spec_reactor() == old(self).spec_reactor(),
            final(self).is_running() == old(self).is_running(),
            final(self).next_task_id() == old(self).next_task_id(),
    {
        if self.queues.available_queues.len() == usize::MAX {
            return None;
        }
        let h = self.queues.add_queue(name);
        Some(TaskQueueHandle { index: h })
    }

    /// Makes `task` runnable in queue `q`.
    fn schedule(&mut self, task: u64, q: usize)
        requires
            old(self).wf(),
            q < old(self).manager().num_queues(),
        ensures
            final(self).wf(),
            final(self).manager().num_queues() == old(self).manager().num_queues(),
            final(self).manager().queue_tasks(q as int) == old(self).manager().queue_tasks(q as int).push(task),
            forall|p: int|
                0 <= p < old(self).manager().num_queues() && p != q ==> #[trigger] final(self).manager().queue_tasks(p)
                    == old(self).manager().queue_tasks(p),
            final(self).manager().executing() == old(self).manager().executing(),
            final(self).manager().is_active(q as int),
            final(self).manager().active_set() == (if old(self).manager().is_active(q as int) {
                old(self).manager().active_set()
            } else {
                old(self).manager().active_set().push(q)
            }),
            forall|p: int|
                0 <= p < old(self).manager().num_queues() && p != q ==> #[trigger] final(self).manager().is_active(p)
                    == old(self).manager().is_active(p),
            final(self).spec_reactor() == old(self).spec_reactor(),
            final(self).is_running() == old(self).is_running(),
            final(self).next_task_id() == old(self).next_task_id(),
    {
        self.queues.schedule(task, q);
    }

    /// Spawns a task into queue `q` under the next identifier.
    fn spawn_in(&mut self, q: usize) -> (r: Option<SpawnedTask>)
        requires
            old(self).wf(),
            q < old(self).manager().num_queues(),
        ensures
            final(self).wf(),
            r is Some <==> old(self).next_task_id() < u64::MAX,
            r matches Some(st) ==> spawned_into(*old(self), *final(self), st, q),
            r is None ==> *final(self) == *old(self),
    {
        if self.next_task == u64::MAX {
            return None;
        }
        let task = self.next_task;
        self.next_task = self.next_task + 1;
        self.schedule(task, q);
        Some(SpawnedTask { task, queue: TaskQueueHandle { index: q } })
    }

    /// Spawns a task: into the queue that is running now, so that a task
    /// spawned by a task stays in its queue, or else into the default queue.
    /// Returns `None` only when task identifiers are used up.
    pub fn spawn(&mut self) -> (r: Option<SpawnedTask>)
        requires
            old(self).wf(),
            old(self).manager().num_queues() > 0,
        ensures
            final(self).wf(),
            r is Some <==> old(self).next_task_id() < u64::MAX,
            r matches Some(st) ==> spawned_into(
                *old(self),
                *final(self),
                st,
                spawn_target(old(self).manager().executing()),
            ),
            r is None ==> *final(self) == *old(self),
    {
        let q = match self.queues.active_executing {
            Some(q) => q,
            None => self.get_default_queue().unwrap().handle().index,
        };
        self.spawn_in(q)
    }

    /// Spawns a task into the queue under `handle`. Returns `None`, changing
    /// nothing, when there is no such queue or task identifiers are used up.
    pub fn spawn_into(&mut self, handle: TaskQueueHandle) -> (r: Option<SpawnedTask>)
        requires
            old(self).wf(),
        ensures
            final(self).wf(),
            r is Some <==> (old(self).next_task_id() < u64::MAX && handle.index
                < old(self).manager().num_queues()),
            r matches Some(st) ==> spawned_into(*old(self), *final(self), st, handle.index),
            r is None ==> *final(self) == *old(self),
    {
        if handle.index >= self.queues.available_queues.len() {
            return None;
        }
        self.spawn_in(handle.index)
    }

    /// Makes a suspended `task` of the queue under `handle` runnable again.
    /// Returns false, changing nothing, when there is no such queue.
    pub fn wake(&mut self, task: u64, handle: TaskQueueHandle) -> (r: bool)
        requires
            old(self).wf(),
        ensures
            final(self).wf(),
            r == (handle.index < old(self).manager().num_queues()),
            r ==> woken_into(*old(self), *final(self), task, handle.index),
            !r ==> *final(self) == *old(self),
            final(self).next_task_id() == old(self).next_task_id(),
    {
        if handle.index >= self.queues.available_queues.len() {
            return false;
        }
        self.schedule(task, handle.index);
        true
    }
}

impl LocalExecutor {
    /// Starts a run: refused while a run of this executor is in progress.
    pub fn enter(&mut self) -> (r: Result<(), RunError>)
        ensures
            old(self).is_running() ==> r == Err::<(), RunError>(RunError::AlreadyRunning)
                && *final(self) == *old(self),
            !old(self).is_running() ==> r == Ok::<(), RunError>(()) && final(self).is_running()
                && final(self).manager() == old(self).manager() && final(self).spec_reactor()
                == old(self).spec_reactor() && final(self).next_task_id() == old(self).next_task_id(),
    {
        if self.running {
            return Err(RunError::AlreadyRunning);
        }
        self.running = true;
        Ok(())
    }

    /// Ends the run in progress.
    pub fn leave(&mut self)
        ensures
            !final(self).is_running(),
            final(self).manager() == old(self).manager(),
            final(self).spec_reactor() == old(self).spec_reactor(),
            final(self).next_task_id() == old(self).next_task_id(),
    {
        self.running = false;
    }

    /// Whether any queue waits to be run.
    pub fn has_runnable(&self) -> (r: bool)
        ensures
            r == (self.manager().active_set().len() > 0),
    {
        self.queues.active_queues.len() > 0
    }

    /// Whether any operation waits for the ring or is held by the kernel.
    pub fn io_pending(&self) -> (r: bool)
        ensures
            r == io_pending_spec(self.spec_reactor()),
    {
        self.reactor.main_ring.in_kernel > 0 || self.reactor.main_ring.submission_queue.submissions.len() > 0
            || self.reactor.main_ring.submission_queue.cancellations.len() > 0
    }

    /// What the run loop does next, given whether the root task is done.
    /// The thread may wait in the kernel only when no queue has runnable
    /// work and an operation is in flight.
    pub fn next_step(&self, root_ready: bool) -> (r: RunStep)
        ensures
            r == spec_next_step(
                root_ready,
                self.manager().active_set().len() > 0,
                io_pending_spec(self.spec_reactor()),
            ),
    {
        if root_ready {
            RunStep::Finish
        } else if self.has_runnable() {
            RunStep::PollIo { block: false }
        } else if self.io_pending() {
            RunStep::PollIo { block: true }
        } else {
            RunStep::Stalled
        }
    }

    /// Takes the next queue with runnable work and marks it as running.
    /// Returns `None`, changing nothing, when no queue waits or one is
    /// running already.
    pub fn begin_one_task_queue(&mut self) -> (r: Option<TaskQueueHandle>)
        requires
            old(self).wf(),
        ensures
            final(self).wf(),
            final(self).spec_reactor() == old(self).spec_reactor(),
            final(self).is_running() == old(self).is_running(),
            final(self).next_task_id() == old(self).next_task_id(),
            ({
                let m0 = old(self).manager();
                let m1 = final(self).manager();
                &&& m1.num_queues() == m0.num_queues()
                &&& forall|p: int|
                    0 <= p < m0.num_queues() ==> #[trigger] m1.queue_tasks(p) == m0.queue_tasks(p)
                        && m1.is_active(p) == m0.is_active(p)
                &&& (m0.executing() is Some || m0.active_set().len() == 0) ==> r
                    == None::<TaskQueueHandle> && m1 == m0
                &&& (m0.executing() is None && m0.active_set().len() > 0) ==> r == Some(
                    TaskQueueHandle { index: m0.active_set().last() },
                ) && m1.active_set() == m0.active_set().drop_last() && m1.executing() == Some(
                    m0.active_set().last(),
                )
            }),
    {
        if self.queues.active_executing.is_some() {
            return None;
        }
        match self.queues.begin_one_task_queue() {
            Some(q) => Some(TaskQueueHandle { index: q }),
            None => None,
        }
    }

    /// Takes the next runnable task of the running queue, first in first
    /// out. Returns `None` when the queue has run dry or none is running.
    pub fn next_task(&mut self) -> (r: Option<u64>)
        requires
            old(self).wf(),
        ensures
            final(self).wf(),
            final(self).spec_reactor() == old(self).spec_reactor(),
            final(self).is_running() == old(self).is_running(),
            final(self).next_task_id() == old(self).next_task_id(),
            ({
                let m0 = old(self).manager();
                let m1 = final(self).manager();
                &&& m1.num_queues() == m0.num_queues()
                &&& m1.active_set() == m0.active_set()
                &&& m1.executing() == m0.executing()
                &&& forall|p: int|
                    0 <= p < m0.num_queues() ==> #[trigger] m1.is_active(p) == m0.is_active(p)
                &&& match m0.executing() {
                    None => r == None::<u64> && m1 == m0,
                    Some(q) => {
                        let t = m0.queue_tasks(q as int);
                        &&& r == (if t.len() > 0 { Some(t[0]) } else { None::<u64> })
                        &&& m1.queue_tasks(q as int) == (if t.len() > 0 { t.drop_first() } else { t })
                        &&& forall|p: int|
                            0 <= p < m0.num_queues() && p != q ==> #[trigger] m1.queue_tasks(p)
                                == m0.queue_tasks(p)
                    },
                }
            }),
    {
        if self.queues.active_executing.is_none() {
            return None;
        }
        self.queues.next_task()
    }

    /// Ends the run of the running queue: it waits for another round if
    /// tasks became runnable in it meanwhile, and leaves the active set
    /// otherwise. Changes nothing when no queue is running.
    pub fn finish_task_queue(&mut self)
        requires
            old(self).wf(),
        ensures
            final(self).wf(),
            final(self).spec_reactor() == old(self).spec_reactor(),
            final(self).is_running() == old(self).is_running(),
            final(self).next_task_id() == old(self).next_task_id(),
            ({
                let m0 = old(self).manager();
                let m1 = final(self).manager();
                &&& m1.num_queues() == m0.num_queues()
                &&& forall|p: int|
                    0 <= p < m0.num_queues() ==> #[trigger] m1.queue_tasks(p) == m0.queue_tasks(p)
                &&& match m0.executing() {
                    None => m1 == m0,
                    Some(q) => {
                        &&& m1.executing() == None::<usize>
                        &&& m1.active_set() == (if m0.queue_tasks(q as int).len() > 0 {
                            m0.active_set().push(q)
                        } else {
                            m0.active_set()
                        })
                        &&& m1.is_active(q as int) == (m0.queue_tasks(q as int).len() > 0)
                        &&& forall|p: int|
                            0 <= p < m0.num_queues() && p != q ==> #[trigger] m1.is_active(p)
                                == m0.is_active(p)
                    },
                }
            }),
    {
        if self.queues.active_executing.is_none() {
            return;
        }
        self.queues.finish_task_queue();
    }
}

impl LocalExecutor {
    /// Registers the interest of `task`, of the queue under `handle`, in
    /// `fd` becoming readable and/or writable, and queues the poll for the
    /// ring. Returns the interest's correlation identifier; `None`, changing
    /// nothing, when there is no such queue or identifiers are used up.
    pub fn register_interest(
        &mut self,
        fd: i32,
        task: u64,
        handle: TaskQueueHandle,
        read: bool,
        write: bool,
    ) -> (r: Option<u64>)
        requires
            old(self).wf(),
        ensures
            final(self).wf(),
            r is Some <==> (handle.index < old(self).manager().num_queues()
                && old(self).spec_reactor().source_map.next_id() < u64::MAX),
            r is None ==> *final(self) == *old(self),
            r matches Some(id) ==> {
                let r0 = old(self).spec_reactor();
                let r1 = final(self).spec_reactor();
                &&& id == r0.source_map.next_id()
                &&& !r0.source_map.sources().contains_key(id)
                &&& r1.source_map.next_id() == id + 1
                &&& r1.source_map.sources() == r0.source_map.sources().insert(
                    id,
                    Source { fd, task, queue: handle.index },
                )
                &&& r1.main_ring.submission_queue.submissions@
                    == r0.main_ring.submission_queue.submissions@.push(
                    UringDescriptor {
                        fd,
                        user_data: id,
                        args: UringOpDescriptor::PollAdd(poll_mask(read, write)),
                    },
                )
                &&& r1.main_ring.submission_queue.cancellations@
                    == r0.main_ring.submission_queue.cancellations@
                &&& r1.main_ring.in_kernel == r0.main_ring.in_kernel
                &&& final(self).manager() == old(self).manager()
                &&& final(self).is_running() == old(self).is_running()
                &&& final(self).next_task_id() == old(self).next_task_id()
            },
    {
        if handle.index >= self.queues.available_queues.len() {
            return None;
        }
        if self.reactor.source_map.next_identifier() == u64::MAX {
            return None;
        }
        let id = self.reactor.interest(fd, task, handle.index, read, write);
        proof {
            let m = self.reactor.source_map.sources();
            assert forall|k: u64| #[trigger] m.contains_key(k) implies m[k].queue
                < self.queues.num_queues() by {
                if k != id {
                    assert(old(self).reactor.source_map.sources().contains_key(k));
                }
            }
        }
        Some(id)
    }

    /// Consumes the kernel's completion of the operation numbered
    /// `user_data`: a live interest leaves the table and its task becomes
    /// runnable in its queue, and that task is returned. A completion that
    /// matches no live interest wakes nothing.
    pub fn complete(&mut self, user_data: u64) -> (r: Option<u64>)
        requires
            old(self).wf(),
        ensures
            final(self).wf(),
            ({
                let r0 = old(self).spec_reactor();
                let r1 = final(self).spec_reactor();
                &&& r1.source_map.sources() == r0.source_map.sources().remove(user_data)
                &&& r1.source_map.next_id() == r0.source_map.next_id()
                &&& r1.main_ring.submission_queue == r0.main_ring.submission_queue
                &&& r1.main_ring.in_kernel == (if r0.main_ring.in_kernel > 0 {
                    r0.main_ring.in_kernel - 1
                } else {
                    0
                })
                &&& match completion_target(r0.source_map.sources(), user_data) {
                    Some(src) => {
                        &&& r == Some(src.task)
                        &&& woken_into_manager(old(self).manager(), final(self).manager(), src.task, src.queue)
                    },
                    None => r == None::<u64> && final(self).manager() == old(self).manager(),
                }
            }),
            final(self).is_running() == old(self).is_running(),
            final(self).next_task_id() == old(self).next_task_id(),
    {
        let ghost before = self.reactor.source_map.sources();
        let woken = self.reactor.complete(user_data);
        proof {
            let m = self.reactor.source_map.sources();
            assert forall|k: u64| #[trigger] m.contains_key(k) implies m[k].queue
                < self.queues.num_queues() by {
                assert(before.contains_key(k));
            }
        }
        match woken {
            Some(src) => {
                assert(before.contains_key(user_data));
                self.queues.schedule(src.task, src.queue);
                Some(src.task)
            },
            None => None,
        }
    }

    /// Withdraws the interest numbered `id`, as when its task is dropped: it
    /// leaves the table and a cancellation for it is queued for the ring.
    /// Returns false, changing nothing, when no such interest is live.
    pub fn cancel(&mut self, id: u64) -> (r: bool)
        requires
            old(self).wf(),
        ensures
            final(self).wf(),
            ({
                let r0 = old(self).spec_reactor();
                let r1 = final(self).spec_reactor();
                &&& r == r0.source_map.sources().contains_key(id)
                &&& r1.source_map.sources() == r0.source_map.sources().remove(id)
                &&& r1.source_map.next_id() == r0.source_map.next_id()
                &&& r1.main_ring.submission_queue.submissions@
                    == r0.main_ring.submission_queue.submissions@
                &&& r1.main_ring.submission_queue.cancellations@ == (if r {
                    r0.main_ring.submission_queue.cancellations@.push(
                        UringDescriptor {
                            fd: r0.source_map.sources()[id].fd,
                            user_data: CANCEL_USER_DATA,
                            args: UringOpDescriptor::Cancel(id),
                        },
                    )
                } else {
                    r0.main_ring.submission_queue.cancellations@
                })
                &&& r1.main_ring.in_kernel == r0.main_ring.in_kernel
            }),
            final(self).manager() == old(self).manager(),
            final(self).is_running() == old(self).is_running(),
            final(self).next_task_id() == old(self).next_task_id(),
    {
        let ghost before = self.reactor.source_map.sources();
        let r = self.reactor.cancel(id);
        proof {
            let m = self.reactor.source_map.sources();
            assert forall|k: u64| #[trigger] m.contains_key(k) implies m[k].queue
                < self.queues.num_queues() by {
                assert(before.contains_key(k));
            }
        }
        r
    }

    /// Takes from the ring's queues what fits into `slots_free` free slots,
    /// cancellations first, and says whether the ring needs a flush.
    pub fn prepare_submission(&mut self, slots_free: usize) -> (r: SubmissionBatch)
        requires
            old(self).wf(),
        ensures
            final(self).wf(),
            r.slots_free == slots_free,
            batch_taken(
                old(self).spec_reactor().main_ring.submission_queue,
                final(self).spec_reactor().main_ring.submission_queue,
                r,
            ),
            final(self).spec_reactor().main_ring.in_kernel == old(self).spec_reactor().main_ring.in_kernel,
            final(self).spec_reactor().source_map == old(self).spec_reactor().source_map,
            final(self).manager() == old(self).manager(),
            final(self).is_running() == old(self).is_running(),
            final(self).next_task_id() == old(self).next_task_id(),
    {
        self.reactor.main_ring.consume_submission_queue(slots_free)
    }

    /// Counts `n` operations that a flush handed to the kernel.
    pub fn record_submitted(&mut self, n: usize)
        requires
            old(self).wf(),
        ensures
            final(self).wf(),
            final(self).spec_reactor().main_ring.in_kernel == (if old(self).spec_reactor().main_ring.in_kernel + n
                <= usize::MAX {
                old(self).spec_reactor().main_ring.in_kernel + n
            } else {
                usize::MAX as int
            }),
            final(self).spec_reactor().main_ring.submission_queue == old(self).spec_reactor().main_ring.submission_queue,
            final(self).spec_reactor().source_map == old(self).spec_reactor().source_map,
            final(self).manager() == old(self).manager(),
            final(self).is_running() == old(self).is_running(),
            final(self).next_task_id() == old(self).next_task_id(),
    {
        let add = if n <= usize::MAX - self.reactor.main_ring.in_kernel {
            n
        } else {
            usize::MAX - self.reactor.main_ring.in_kernel
        };
        self.reactor.main_ring.record_submitted(add);
    }

    /// Operations that the kernel holds.
    pub fn in_kernel(&self) -> (r: usize)
        ensures
            r == self.spec_reactor().main_ring.in_kernel,
    {
        self.reactor.main_ring.in_kernel
    }
}

/// `m1` is `m0` with `task` made runnable at the back of queue `q`, and `q`
/// queued for running unless it was waiting or running already.
pub open spec fn woken_into_manager(m0: QueueManager, m1: QueueManager, task: u64, q: usize) -> bool {
    &&& q < m0.num_queues()
    &&& m1.num_queues() == m0.num_queues()
    &&& m1.queue_tasks(q as int) == m0.queue_tasks(q as int).push(task)
    &&& forall|p: int|
        0 <= p < m0.num_queues() && p != q ==> #[trigger] m1.queue_tasks(p) == m0.queue_tasks(p)
    &&& m1.executing() == m0.executing()
    &&& m1.is_active(q as int)
    &&& m1.active_set() == (if m0.is_active(q as int) {
        m0.active_set()
    } else {
        m0.active_set().push(q)
    })
    &&& forall|p: int|
        0 <= p < m0.num_queues() && p != q ==> #[trigger] m1.is_active(p) == m0.is_active(p)
}

/// `ms` are the managers met while the tasks of the interests `ids`,
/// looked up in `sources`, were made runnable one after another, each at the
/// back of its queue.
pub open spec fn woken_steps(ms: Seq<QueueManager>, sources: Map<u64, Source>, ids: Seq<u64>) -> bool {
    &&& ms.len() == ids.len() + 1
    &&& forall|i: int|
        0 <= i < ids.len() ==> woken_into_manager(
            #[trigger] ms[i],
            ms[i + 1],
            sources[ids[i]].task,
            sources[ids[i]].queue,
        )
}

/// `m1` is `m0` after the tasks of the interests `ids`, looked up in
/// `sources`, were made runnable one after another, each at the back of its
/// queue.
pub open spec fn woken_chain(
    m0: QueueManager,
    m1: QueueManager,
    sources: Map<u64, Source>,
    ids: Seq<u64>,
) -> bool {
    exists|ms: Seq<QueueManager>|
        #[trigger] woken_steps(ms, sources, ids) && ms[0] == m0 && ms.last() == m1
}

/// Whether an operation waits for the ring or is held by the kernel.
pub open spec fn io_pending_spec(r: Reactor) -> bool {
    r.main_ring.in_kernel > 0 || r.main_ring.submission_queue.submissions@.len() > 0
        || r.main_ring.submission_queue.cancellations@.len() > 0
}

/// The queue that `spawn` picks: the running one, else the default queue.
pub open spec fn spawn_target(executing: Option<usize>) -> usize {
    match executing {
        Some(q) => q,
        None => DEFAULT_QUEUE,
    }
}

/// `after` is `before` with `task` made runnable at the back of queue `q`,
/// and `q` queued for running unless it was waiting or running already.
pub open spec fn woken_into(before: LocalExecutor, after: LocalExecutor, task: u64, q: usize) -> bool {
    &&& woken_into_manager(before.manager(), after.manager(), task, q)
    &&& after.spec_reactor() == before.spec_reactor()
    &&& after.is_running() == before.is_running()
}

/// `after` is `before` with a new task, numbered by `before`, spawned into
/// queue `q`.
pub open spec fn spawned_into(
    before: LocalExecutor,
    after: LocalExecutor,
    st: SpawnedTask,
    q: usize,
) -> bool {
    &&& st.task == before.next_task_id()
    &&& st.queue.index == q
    &&& after.next_task_id() == before.next_task_id() + 1
    &&& woken_into(before, after, st.task, q)
}

impl TaskQueue {
    pub closed spec fn handle_spec(&self) -> usize {
        self.index
    }

    /// The runnable tasks, next to run first.
    pub closed spec fn tasks_view(&self) -> Seq<u64> {
        self.tasks@
    }

    pub closed spec fn name_view(&self) -> Seq<char> {
        self.name@
    }

    pub closed spec fn active_spec(&self) -> bool {
        self.active
    }
}

/// Tasks spawned one after another into queue `q` stand in it in the order
/// they were spawned, behind the tasks that were there; as `next_task` takes
/// from the front, they run first in, first out.
pub proof fn lemma_spawns_fifo(states: Seq<LocalExecutor>, spawned: Seq<SpawnedTask>, q: usize)
    requires
        states.len() == spawned.len() + 1,
        forall|i: int|
            0 <= i < spawned.len() ==> spawned_into(#[trigger] states[i], states[i + 1], spawned[i], q),
    ensures
        states.last().manager().queue_tasks(q as int) == states[0].manager().queue_tasks(q as int)
            + spawned.map_values(|st: SpawnedTask| st.task),
        forall|i: int|
            0 <= i < spawned.len() ==> #[trigger] states.last().manager().queue_tasks(q as int)[
                states[0].manager().queue_tasks(q as int).len() + i] == spawned[i].task,
    decreases spawned.len(),
{
    let t0 = states[0].manager().queue_tasks(q as int);
    let ids = spawned.map_values(|st: SpawnedTask| st.task);
    if spawned.len() == 0 {
        assert(ids =~= Seq::<u64>::empty());
        assert(t0 + ids =~= t0);
    } else {
        let n = spawned.len() - 1;
        let ss = states.drop_last();
        let sp = spawned.drop_last();
        assert forall|i: int| 0 <= i < sp.len() implies spawned_into(
            #[trigger] ss[i],
            ss[i + 1],
            sp[i],
            q,
        ) by {
            assert(ss[i] == states[i] && ss[i + 1] == states[i + 1] && sp[i] == spawned[i]);
        }
        lemma_spawns_fifo(ss, sp, q);
        assert(spawned_into(states[n], states[n + 1], spawned[n], q));
        assert(ss.last() == states[n]);
        assert(ids =~= sp.map_values(|st: SpawnedTask| st.task).push(spawned[n].task));
        assert(t0 + ids =~= (t0 + sp.map_values(|st: SpawnedTask| st.task)).push(spawned[n].task));
    }
}

/// Once the running queue has no runnable task left, ending its run takes
/// it out of the active set: it is not taken up again until a task in it
/// becomes runnable.
pub proof fn lemma_drained_queue_leaves_active_set(m0: QueueManager, m1: QueueManager, q: usize)
    requires
        m0.wf(),
        m1.wf(),
        m0.executing() == Some(q),
        m0.queue_tasks(q as int).len() == 0,
        m1.num_queues() == m0.num_queues(),
        m1.executing() == None::<usize>,
        m1.active_set() == m0.active_set(),
    ensures
        !m1.active_set().contains(q),
        !m1.is_active(q as int),
{
}

/// The run loop waits in the kernel only when no queue has runnable work:
/// a root task that finishes without suspending ends the run before any
/// wait.
pub proof fn lemma_ready_root_never_blocks(root_ready: bool, runnable: bool, io_pending: bool)
    ensures
        spec_next_step(true, runnable, io_pending) == RunStep::Finish,
        runnable ==> spec_next_step(root_ready, runnable, io_pending) != (RunStep::PollIo {
            block: true,
        }),
        spec_next_step(root_ready, runnable, io_pending) == (RunStep::PollIo { block: true })
            ==> !runnable && io_pending,
{
}

/// What a well-formed manager guarantees of every queue: it is active
/// exactly while it waits in the active set or runs, it waits there at most
/// once, and a queue with runnable tasks is active.
pub proof fn lemma_queue_manager_wf(m: QueueManager, q: int)
    requires
        m.wf(),
        0 <= q < m.num_queues(),
    ensures
        m.is_active(q) <==> (m.active_set().contains(q as usize) || m.executing() == Some(
            q as usize,
        )),
        m.queue_tasks(q).len() > 0 ==> m.is_active(q),
        m.active_set().no_duplicates(),
        m.executing() matches Some(e) ==> !m.active_set().contains(e),
        forall|i: int|
            0 <= i < m.active_set().len() ==> #[trigger] m.active_set()[i] < m.num_queues()
                && m.queue_tasks(m.active_set()[i] as int).len() > 0,
{
}

} // verus!
