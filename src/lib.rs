//! A single-threaded, cooperative executor and the bookkeeping of an
//! io_uring-style reactor, kept as plain state with verified transitions.
//! The owner of the thread polls futures and fills kernel ring entries; this
//! crate decides which task runs next, which descriptors go to the ring,
//! and which task a completion wakes.

mod affinity;
mod executor;
mod reactor;
mod ring;
mod uring;

pub use affinity::{cpu_set_of, cpus_of, CPU_SETSIZE};
pub use executor::{
    io_pending_spec, lemma_drained_queue_leaves_active_set, lemma_spawns_fifo,
    lemma_queue_manager_wf, lemma_ready_root_never_blocks, spawn_target,
    spawned_into, spec_next_step, woken_chain, woken_into, woken_into_manager, woken_steps, LocalExecutor, QueueManager,
    RunError, RunStep, SpawnedTask, TaskQueue, TaskQueueHandle, DEFAULT_QUEUE,
    DEFAULT_RING_SUBMISSION_DEPTH,
};
pub use reactor::{
    batch_taken, common_flags, completion_target, lemma_cancelled_never_wakes,
    lemma_interest_wakes_once, poll_mask, read_flags, spec_common_flags, write_flags, Reactor,
    SleepableRing, SubmissionBatch, CANCEL_USER_DATA, POLLERR, POLLHUP, POLLIN, POLLNVAL,
    POLLOUT, POLLPRI,
};
pub use uring::{
    consume_sqe_queue, fits, submit_one_event, Source, SourceMap, SubmitOne, UringDescriptor,
    UringOpDescriptor, UringQueueState,
};
