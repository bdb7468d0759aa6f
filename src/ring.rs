use vstd::prelude::*;
use crate::executor::{woken_chain, woken_into_manager, woken_steps, LocalExecutor};
use crate::reactor::completion_target;
use crate::reactor::{batch_taken, SubmissionBatch};

verus! {

#[verifier::external_type_specification]
#[verifier::external_body]
pub struct ExIoUring(iou::IoUring);

#[verifier::external_type_specification]
#[verifier::external_body]
pub struct ExIoError(std::io::Error);

/// Relies on iou::IoUring::sq_space_left: how many submission slots are
/// free. What the kernel ring holds is not modelled, so nothing is stated.
#[verifier::external_body]
pub(crate) fn sq_space_left(ring: &mut iou::IoUring) -> (r: usize) {
    ring.sq_space_left() as usize
}

/// Relies on iou::IoUring::submit_sqes: hands the staged entries to the
/// kernel and returns how many it took, or the kernel's error.
#[verifier::external_body]
pub(crate) fn submit_sqes(ring: &mut iou::IoUring) -> (r: Result<u32, std::io::Error>) {
    ring.submit_sqes()
}

/// Relies on iou::IoUring::peek_for_cqe and iou::CQE::user_data: the
/// correlation identifier of the next ready completion, without waiting,
/// or `None` when none is ready.
#[verifier::external_body]
pub(crate) fn peek_for_cqe(ring: &mut iou::IoUring) -> (r: Option<u64>) {
    ring.peek_for_cqe().map(|cqe| cqe.user_data())
}

impl LocalExecutor {
    /// Takes from the ring's queues what fits into the submission slots that
    /// the ring has free, cancellations first.
    pub fn stage_submissions(&mut self, ring: &mut iou::IoUring) -> (r: SubmissionBatch)
        requires
            old(self).wf(),
        ensures
            final(self).wf(),
            batch_taken(
                old(self).spec_reactor().main_ring.submission_queue,
                final(self).spec_reactor().main_ring.submission_queue,
                r,
            ),
            final(self).spec_reactor().main_ring.in_kernel == old(self).spec_reactor().main_ring.in_kernel,
            final(self).spec_reactor().source_map == old(self).spec_reactor().source_map,
            final(self).manager() == old(self).manager(),
            final(self).is_running() == old(self).is_running(),
            final(self).next_task_id() == old(self).next_task_id(),
    {
        let free = sq_space_left(ring);
        self.prepare_submission(free)
    }

    /// Flushes the staged entries to the kernel when `flush` asks for it,
    /// and counts the operations it took as held by the kernel. Without a
    /// flush, or when the kernel refuses, nothing is counted.
    pub fn flush_submissions(&mut self, ring: &mut iou::IoUring, flush: bool) -> (r: Result<
        usize,
        std::io::Error,
    >)
        requires
            old(self).wf(),
        ensures
            final(self).wf(),
            !flush ==> (r matches Ok(n) && n == 0),
            match r {
                Ok(n) => final(self).spec_reactor().main_ring.in_kernel == (if old(
                    self,
                ).spec_reactor().main_ring.in_kernel + n <= usize::MAX {
                    old(self).spec_reactor().main_ring.in_kernel + n
                } else {
                    usize::MAX as int
                }),
                Err(_) => final(self).spec_reactor() == old(self).spec_reactor(),
            },
            final(self).spec_reactor().main_ring.submission_queue == old(self).spec_reactor().main_ring.submission_queue,
            final(self).spec_reactor().source_map == old(self).spec_reactor().source_map,
            final(self).manager() == old(self).manager(),
            final(self).is_running() == old(self).is_running(),
            final(self).next_task_id() == old(self).next_task_id(),
    {
        if !flush {
            return Ok(0);
        }
        match submit_sqes(ring) {
            Ok(n) => {
                let n = n as usize;
                self.record_submitted(n);
                Ok(n)
            },
            Err(e) => Err(e),
        }
    }

    /// Consumes the completions that are ready, at most `max` of them, each
    /// through `complete`: the interests they match leave the table and
    /// their tasks become runnable. Returns the identifiers of the interests
    /// that were matched; unmatched completions are dropped.
    pub fn drain_completions(&mut self, ring: &mut iou::IoUring, max: usize) -> (r: Vec<u64>)
        requires
            old(self).wf(),
        ensures
            final(self).wf(),
            r@.len() <= max,
            r@.no_duplicates(),
            forall|i: int|
                0 <= i < r@.len() ==> old(self).spec_reactor().source_map.sources().contains_key(
                    #[trigger] r@[i],
                ),
            final(self).spec_reactor().source_map.sources() == old(
                self,
            ).spec_reactor().source_map.sources().remove_keys(r@.to_set()),
            final(self).spec_reactor().source_map.next_id() == old(self).spec_reactor().source_map.next_id(),
            woken_chain(
                old(self).manager(),
                final(self).manager(),
                old(self).spec_reactor().source_map.sources(),
                r@,
            ),
            final(self).spec_reactor().main_ring.submission_queue == old(self).spec_reactor().main_ring.submission_queue,
            final(self).spec_reactor().main_ring.in_kernel <= old(self).spec_reactor().main_ring.in_kernel,
            final(self).is_running() == old(self).is_running(),
            final(self).next_task_id() == old(self).next_task_id(),
            max == 0 ==> r@.len() == 0 && *final(self) == *old(self),
    {
        if max == 0 {
            let none: Vec<u64> = Vec::new();
            assert(woken_steps(seq![self.manager()], self.spec_reactor().source_map.sources(), none@));
            return none;
        }
        let ghost m0 = self.spec_reactor().source_map.sources();
        let ghost g0 = self.manager();
        let ghost mut ms: Seq<crate::executor::QueueManager> = seq![g0];
        let mut woken: Vec<u64> = Vec::new();
        let mut seen: usize = 0;
        while seen < max
            invariant
                self.wf(),
                seen <= max,
                woken@.len() <= seen,
                woken@.no_duplicates(),
                forall|i: int| 0 <= i < woken@.len() ==> m0.contains_key(#[trigger] woken@[i]),
                self.spec_reactor().source_map.sources() == m0.remove_keys(woken@.to_set()),
                self.spec_reactor().source_map.next_id() == old(self).spec_reactor().source_map.next_id(),
                woken_steps(ms, m0, woken@),
                ms[0] == g0,
                ms.last() == self.manager(),
                self.spec_reactor().main_ring.submission_queue == old(self).spec_reactor().main_ring.submission_queue,
                self.spec_reactor().main_ring.in_kernel <= old(self).spec_reactor().main_ring.in_kernel,
                self.is_running() == old(self).is_running(),
                self.next_task_id() == old(self).next_task_id(),
            decreases max - seen,
        {
            let user_data = match peek_for_cqe(ring) {
                Some(u) => u,
                None => break,
            };
            seen = seen + 1;
            let ghost before = self.spec_reactor().source_map.sources();
            let ghost mgr = self.manager();
            if self.complete(user_data).is_some() {
                proof {
                    assert(before.contains_key(user_data));
                    assert(!woken@.contains(user_data));
                    assert(!woken@.to_set().contains(user_data));
                    assert(before[user_data] == m0[user_data]);
                }
                let ghost prev = woken@;
                woken.push(user_data);
                proof {
                    prev.lemma_push_to_set_commute(user_data);
                    assert(woken@ == prev.push(user_data));
                    assert(woken@.to_set() == prev.to_set().insert(user_data));
                    assert(m0.remove_keys(woken@.to_set()) =~= before.remove(user_data));
                    assert(woken@.drop_last() =~= prev);
                    assert(woken@.last() == user_data);
                    assert(woken_chain(g0, mgr, m0, woken@.drop_last()));
                    assert(completion_target(before, user_data) == Some(before[user_data]));
                    assert(woken_into_manager(
                        mgr,
                        self.manager(),
                        m0[woken@.last()].task,
                        m0[woken@.last()].queue,
                    ));
                    let ms1 = ms.push(self.manager());
                    assert forall|i: int| 0 <= i < woken@.len() implies woken_into_manager(
                        #[trigger] ms1[i],
                        ms1[i + 1],
                        m0[woken@[i]].task,
                        m0[woken@[i]].queue,
                    ) by {
                        if i < prev.len() {
                            assert(ms1[i] == ms[i] && ms1[i + 1] == ms[i + 1]);
                            assert(woken@[i] == prev[i]);
                        }
                    }
                    ms = ms1;
                    assert forall|i: int| 0 <= i < woken@.len() implies m0.contains_key(
                        #[trigger] woken@[i],
                    ) by {
                        if i < woken@.len() - 1 {
                            assert(woken@[i] == prev[i]);
                        }
                    }
                }
            } else {
                assert(before.remove(user_data) =~= before);
            }
        }
        assert(woken_steps(ms, m0, woken@));
        woken
    }
}

} // verus!
