use vstd::prelude::*;
use vstd::string::StrSliceExecFns;
use crate::uring::{
    consume_sqe_queue, fits, Source, SourceMap, UringDescriptor, UringOpDescriptor,
    UringQueueState,
};

verus! {

/// Readiness bits of `poll(2)` on Linux.
pub const POLLIN: u16 = 0x1;
pub const POLLPRI: u16 = 0x2;
pub const POLLOUT: u16 = 0x4;
pub const POLLERR: u16 = 0x8;
pub const POLLHUP: u16 = 0x10;
pub const POLLNVAL: u16 = 0x20;

/// The conditions watched on every interest: error, hang-up, invalid.
pub open spec fn spec_common_flags() -> u16 {
    POLLERR | POLLHUP | POLLNVAL
}

/// The readiness mask for an interest in reading and/or writing.
pub open spec fn poll_mask(read: bool, write: bool) -> u16 {
    spec_common_flags() | (if read { POLLIN | POLLPRI } else { 0u16 }) | (if write {
        POLLOUT
    } else {
        0u16
    })
}

pub fn common_flags() -> (r: u16)
    ensures
        r == spec_common_flags(),
{
    POLLERR | POLLHUP | POLLNVAL
}

/// Every readability event.
pub fn read_flags() -> (r: u16)
    ensures
        r == POLLIN | POLLPRI,
{
    POLLIN | POLLPRI
}

/// Every writability event.
pub fn write_flags() -> (r: u16)
    ensures
        r == POLLOUT,
{
    POLLOUT
}

/// The correlation identifier carried by cancellation entries. Interests are
/// numbered from one, so a completion under it never matches one.
pub const CANCEL_USER_DATA: u64 = 0;

/// What a completion wakes: the interest's source when it is live.
pub open spec fn completion_target(sources: Map<u64, Source>, id: u64) -> Option<Source> {
    if sources.contains_key(id) {
        Some(sources[id])
    } else {
        None
    }
}

/// The descriptors that one flush hands to the ring, and whether a flush is
/// due at all.
pub struct SubmissionBatch {
    pub descriptors: Vec<UringDescriptor>,
    pub flush: bool,
    /// The free slots the batch was cut to.
    pub slots_free: usize,
}

/// `r` holds what fits into `r.slots_free` slots, cancellations first and
/// each kind in queue order, and `q1` is `q0` without it; a flush is due
/// when anything was queued.
pub open spec fn batch_taken(q0: UringQueueState, q1: UringQueueState, r: SubmissionBatch) -> bool {
    let c = q0.cancellations@;
    let s = q0.submissions@;
    let kc = fits(c.len(), r.slots_free as nat);
    let ks = fits(s.len(), (r.slots_free - kc) as nat);
    &&& r.descriptors@ == c.take(kc as int) + s.take(ks as int)
    &&& q1.cancellations@ == c.skip(kc as int)
    &&& q1.submissions@ == s.skip(ks as int)
    &&& r.flush == (c.len() > 0 || s.len() > 0)
}

/// The process side of a sleepable ring: its queues and the count of
/// operations the kernel holds.
pub struct SleepableRing {
    pub in_kernel: usize,
    pub submission_queue: UringQueueState,
    pub depth: usize,
    pub name: String,
}

impl SleepableRing {
    pub fn new(size: usize, name: String) -> (r: Self)
        ensures
            r.in_kernel == 0,
            r.depth == size,
            r.name@ == name@,
            r.submission_queue.submissions@ == Seq::<UringDescriptor>::empty(),
            r.submission_queue.cancellations@ == Seq::<UringDescriptor>::empty(),
    {
        let cap = if size <= usize::MAX / 4 { size * 4 } else { size };
        SleepableRing {
            in_kernel: 0,
            submission_queue: UringQueueState::with_capacity(cap),
            depth: size,
            name,
        }
    }

    /// Takes what fits into `slots_free` ring slots: cancellations first, so
    /// that they overtake operations still waiting, then operations in the
    /// order they were queued.
    pub fn consume_submission_queue(&mut self, slots_free: usize) -> (r: SubmissionBatch)
        ensures
            r.slots_free == slots_free,
            batch_taken(old(self).submission_queue, final(self).submission_queue, r),
            final(self).in_kernel == old(self).in_kernel,
            final(self).depth == old(self).depth,
    {
        let mut staged: Vec<UringDescriptor> = Vec::new();
        let before = staged.len();
        let f1 = consume_sqe_queue(
            &mut self.submission_queue.cancellations,
            slots_free,
            &mut staged,
            false,
        );
        let used = staged.len() - before;
        let f2 = consume_sqe_queue(
            &mut self.submission_queue.submissions,
            slots_free - used,
            &mut staged,
            f1,
        );
        proof {
            let c = old(self).submission_queue.cancellations@;
            let s = old(self).submission_queue.submissions@;
            let kc = fits(c.len(), slots_free as nat);
            assert(Seq::<UringDescriptor>::empty() + c.take(kc as int) =~= c.take(kc as int));
        }
        SubmissionBatch { descriptors: staged, flush: f2, slots_free }
    }

    /// Counts `n` operations that a flush handed to the kernel.
    pub fn record_submitted(&mut self, n: usize)
        requires
            old(self).in_kernel + n <= usize::MAX,
        ensures
            final(self).in_kernel == old(self).in_kernel + n,
            final(self).depth == old(self).depth,
            final(self).submission_queue == old(self).submission_queue,
    {
        self.in_kernel = self.in_kernel + n;
    }

    /// Counts one operation that the kernel completed.
    pub fn record_completed(&mut self)
        ensures
            final(self).in_kernel == (if old(self).in_kernel > 0 {
                old(self).in_kernel - 1
            } else {
                0
            }),
            final(self).depth == old(self).depth,
            final(self).submission_queue == old(self).submission_queue,
    {
        if self.in_kernel > 0 {
            self.in_kernel = self.in_kernel - 1;
        }
    }
}

/// The ring and the table of interests it serves.
pub struct Reactor {
    pub main_ring: SleepableRing,
    pub source_map: SourceMap,
}

impl Reactor {
    pub open spec fn wf(&self) -> bool {
        self.source_map.wf()
    }

    pub fn new(ring_depth: usize) -> (r: Self)
        ensures
            r.wf(),
            r.main_ring.in_kernel == 0,
            r.main_ring.depth == ring_depth,
            r.main_ring.submission_queue.submissions@ == Seq::<UringDescriptor>::empty(),
            r.main_ring.submission_queue.cancellations@ == Seq::<UringDescriptor>::empty(),
            r.source_map.sources() == Map::<u64, Source>::empty(),
            r.source_map.next_id() == 1,
    {
        let source_map = SourceMap::new();
        let main_ring = SleepableRing::new(ring_depth, String::from_str("main"));
        Reactor { main_ring, source_map }
    }

    /// Registers interest of `task` (in queue `queue`) in `fd` becoming
    /// readable and/or writable, and queues the poll for the ring.
    pub fn interest(&mut self, fd: i32, task: u64, queue: usize, read: bool, write: bool) -> (id:
        u64)
        requires
            old(self).wf(),
            old(self).source_map.next_id() < u64::MAX,
        ensures
            final(self).wf(),
            id == old(self).source_map.next_id(),
            !old(self).source_map.sources().contains_key(id),
            final(self).source_map.next_id() == id + 1,
            final(self).source_map.sources() == old(self).source_map.sources().insert(
                id,
                Source { fd, task, queue },
            ),
            final(self).main_ring.submission_queue.submissions@
                == old(self).main_ring.submission_queue.submissions@.push(
                UringDescriptor { fd, user_data: id, args: UringOpDescriptor::PollAdd(poll_mask(read, write)) },
            ),
            final(self).main_ring.submission_queue.cancellations@
                == old(self).main_ring.submission_queue.cancellations@,
            final(self).main_ring.in_kernel == old(self).main_ring.in_kernel,
    {
        let mut flags = common_flags();
        if read {
            flags = flags | read_flags();
        }
        if write {
            flags = flags | write_flags();
        }
        assert(forall|x: u16| #[trigger] (x | 0u16) == x) by (bit_vector);
        assert(flags == poll_mask(read, write));
        queue_request_into_ring(
            &mut self.main_ring,
            fd,
            Source { fd, task, queue },
            UringOpDescriptor::PollAdd(flags),
            &mut self.source_map,
        )
    }

    /// Consumes the completion of the operation numbered `user_data`: its
    /// interest leaves the table and its source, if it was live, is returned
    /// for waking. An unknown identifier changes nothing but the count.
    pub fn complete(&mut self, user_data: u64) -> (r: Option<Source>)
        requires
            old(self).wf(),
        ensures
            final(self).wf(),
            r == completion_target(old(self).source_map.sources(), user_data),
            final(self).source_map.sources() == old(self).source_map.sources().remove(user_data),
            final(self).source_map.next_id() == old(self).source_map.next_id(),
            final(self).main_ring.in_kernel == (if old(self).main_ring.in_kernel > 0 {
                old(self).main_ring.in_kernel - 1
            } else {
                0
            }),
            final(self).main_ring.submission_queue == old(self).main_ring.submission_queue,
    {
        self.main_ring.record_completed();
        self.source_map.remove_source(user_data)
    }

    /// Withdraws the interest numbered `id`: it leaves the table, and a
    /// cancellation for it is queued. Returns false, changing nothing, when
    /// no such interest is live.
    pub fn cancel(&mut self, id: u64) -> (r: bool)
        requires
            old(self).wf(),
        ensures
            final(self).wf(),
            r == old(self).source_map.sources().contains_key(id),
            final(self).source_map.sources() == old(self).source_map.sources().remove(id),
            final(self).source_map.next_id() == old(self).source_map.next_id(),
            final(self).main_ring.submission_queue.submissions@
                == old(self).main_ring.submission_queue.submissions@,
            final(self).main_ring.submission_queue.cancellations@ == (if r {
                old(self).main_ring.submission_queue.cancellations@.push(
                    UringDescriptor {
                        fd: old(self).source_map.sources()[id].fd,
                        user_data: CANCEL_USER_DATA,
                        args: UringOpDescriptor::Cancel(id),
                    },
                )
            } else {
                old(self).main_ring.submission_queue.cancellations@
            }),
            final(self).main_ring.in_kernel == old(self).main_ring.in_kernel,
    {
        match self.source_map.remove_source(id) {
            Some(source) => {
                self.main_ring.submission_queue.cancellations.push_back(
                    UringDescriptor {
                        fd: source.fd,
                        user_data: CANCEL_USER_DATA,
                        args: UringOpDescriptor::Cancel(id),
                    },
                );
                true
            },
            None => false,
        }
    }
}

/// Records `source` in the table under a fresh identifier and queues
/// `descriptor` for `fd` under it.
fn queue_request_into_ring(
    ring: &mut SleepableRing,
    fd: i32,
    source: Source,
    descriptor: UringOpDescriptor,
    source_map: &mut SourceMap,
) -> (id: u64)
    requires
        old(source_map).wf(),
        old(source_map).next_id() < u64::MAX,
    ensures
        final(source_map).wf(),
        id == old(source_map).next_id(),
        !old(source_map).sources().contains_key(id),
        final(source_map).next_id() == id + 1,
        final(source_map).sources() == old(source_map).sources().insert(id, source),
        final(ring).submission_queue.submissions@ == old(ring).submission_queue.submissions@.push(
            UringDescriptor { fd, user_data: id, args: descriptor },
        ),
        final(ring).submission_queue.cancellations@ == old(ring).submission_queue.cancellations@,
        final(ring).in_kernel == old(ring).in_kernel,
{
    let id = source_map.add_source(source);
    ring.submission_queue.submissions.push_back(
        UringDescriptor { args: descriptor, fd, user_data: id },
    );
    id
}

/// A completion for an interest just registered wakes that interest's task,
/// and a second completion under the same identifier wakes nothing.
pub proof fn lemma_interest_wakes_once(sources: Map<u64, Source>, id: u64, source: Source)
    requires
        !sources.contains_key(id),
    ensures
        completion_target(sources.insert(id, source), id) == Some(source),
        completion_target(sources.insert(id, source).remove(id), id) == None::<Source>,
        sources.insert(id, source).remove(id) =~= sources,
{
}

/// Once an interest is cancelled, no completion under its identifier wakes
/// anything.
pub proof fn lemma_cancelled_never_wakes(sources: Map<u64, Source>, id: u64)
    ensures
        completion_target(sources.remove(id), id) == None::<Source>,
{
}

} // verus!
