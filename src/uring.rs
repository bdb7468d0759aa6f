use vstd::prelude::*;

verus! {

/// One operation that waits in a submission queue for a ring slot.
#[derive(Clone, Copy, Debug, PartialEq, Eq, Structural)]
pub struct UringDescriptor {
    pub fd: i32,
    pub user_data: u64,
    pub args: UringOpDescriptor,
}

/// What the kernel is asked to do for a descriptor.
#[derive(Clone, Copy, Debug, PartialEq, Eq, Structural)]
pub enum UringOpDescriptor {
    /// Watch `fd` for the readiness events in the mask.
    PollAdd(u16),
    /// Withdraw the earlier operation whose correlation identifier is given.
    Cancel(u64),
}

/// A registered interest: the descriptor watched and the task to wake.
#[derive(Clone, Copy, Debug, PartialEq, Eq, Structural)]
pub struct Source {
    pub fd: i32,
    pub task: u64,
    pub queue: usize,
}

/// Correlation identifiers handed out so far, and the live interests.
pub struct SourceMap {
    id: u64,
    map: std::collections::HashMap<u64, Source>,
}

impl SourceMap {
    /// The next identifier to be handed out.
    pub closed spec fn next_id(&self) -> u64 {
        self.id
    }

    /// The live interests by correlation identifier.
    pub closed spec fn sources(&self) -> Map<u64, Source> {
        self.map@
    }

    /// Identifiers start at one and every live one was handed out before.
    pub open spec fn wf(&self) -> bool {
        &&& self.next_id() >= 1
        &&& forall|k: u64| #[trigger] self.sources().contains_key(k) ==> 1 <= k < self.next_id()
    }

    pub fn new() -> (r: Self)
        ensures
            r.wf(),
            r.next_id() == 1,
            r.sources() == Map::<u64, Source>::empty(),
    {
        SourceMap { id: 1, map: std::collections::HashMap::new() }
    }

    /// The identifier that the next interest will get.
    pub fn next_identifier(&self) -> (r: u64)
        ensures
            r == self.next_id(),
    {
        self.id
    }

    /// How many interests are live.
    pub fn len(&self) -> (r: usize)
        requires
            self.wf(),
        ensures
            r == self.sources().len(),
    {
        broadcast use vstd::std_specs::hash::group_hash_axioms;
        self.map.len()
    }

    /// Records `source` under a fresh identifier and returns it.
    pub fn add_source(&mut self, source: Source) -> (id: u64)
        requires
            old(self).wf(),
            old(self).next_id() < u64::MAX,
        ensures
            final(self).wf(),
            id == old(self).next_id(),
            !old(self).sources().contains_key(id),
            final(self).next_id() == old(self).next_id() + 1,
            final(self).sources() == old(self).sources().insert(id, source),
    {
        broadcast use vstd::std_specs::hash::group_hash_axioms;
        let ghost before = self.sources();
        let id = self.id;
        self.id = self.id + 1;
        self.map.insert(id, source);
        assert forall|k: u64| #[trigger] self.sources().contains_key(k) implies 1 <= k
            < self.next_id() by {
            if k != id {
                assert(before.contains_key(k));
            }
        }
        id
    }

    /// Takes the interest recorded under `id` out of the map, if any.
    pub fn remove_source(&mut self, id: u64) -> (r: Option<Source>)
        requires
            old(self).wf(),
        ensures
            final(self).wf(),
            final(self).next_id() == old(self).next_id(),
            final(self).sources() == old(self).sources().remove(id),
            r == (if old(self).sources().contains_key(id) {
                Some(old(self).sources()[id])
            } else {
                None
            }),
    {
        broadcast use vstd::std_specs::hash::group_hash_axioms;
        let ghost before = self.sources();
        let r = self.map.remove(&id);
        assert forall|k: u64| #[trigger] self.sources().contains_key(k) implies 1 <= k
            < self.next_id() by {
            assert(before.contains_key(k));
        }
        r
    }
}

/// What a ring slot request found.
#[derive(Clone, Copy, Debug, PartialEq, Eq, Structural)]
pub enum SubmitOne {
    /// The queue was empty.
    Empty,
    /// One descriptor was staged into a slot.
    Staged,
    /// No slot was free: the ring must be flushed first.
    NoSlot,
}

/// Descriptors waiting for the ring: operations, and cancellations that
/// travel apart so that they can overtake them.
pub struct UringQueueState {
    pub submissions: std::collections::VecDeque<UringDescriptor>,
    pub cancellations: std::collections::VecDeque<UringDescriptor>,
}

impl UringQueueState {
    pub fn with_capacity(cap: usize) -> (r: Self)
        ensures
            r.submissions@ == Seq::<UringDescriptor>::empty(),
            r.cancellations@ == Seq::<UringDescriptor>::empty(),
    {
        UringQueueState {
            submissions: std::collections::VecDeque::with_capacity(cap),
            cancellations: std::collections::VecDeque::new(),
        }
    }
}

/// Stages the head of `queue` into `staged` if a slot is free.
pub fn submit_one_event(
    queue: &mut std::collections::VecDeque<UringDescriptor>,
    slots_free: usize,
    staged: &mut Vec<UringDescriptor>,
) -> (r: SubmitOne)
    ensures
        old(queue)@.len() == 0 ==> r == SubmitOne::Empty,
        old(queue)@.len() > 0 && slots_free == 0 ==> r == SubmitOne::NoSlot,
        old(queue)@.len() > 0 && slots_free > 0 ==> r == SubmitOne::Staged,
        r == SubmitOne::Staged ==> final(queue)@ == old(queue)@.drop_first()
            && final(staged)@ == old(staged)@.push(old(queue)@[0]),
        r != SubmitOne::Staged ==> final(queue)@ == old(queue)@ && final(staged)@ == old(staged)@,
{
    if queue.len() == 0 {
        return SubmitOne::Empty;
    }
    if slots_free == 0 {
        return SubmitOne::NoSlot;
    }
    let op = queue.pop_front().unwrap();
    staged.push(op);
    SubmitOne::Staged
}

/// How many descriptors of a queue of `len` fit into `slots` free slots.
pub open spec fn fits(len: nat, slots: nat) -> nat {
    if len <= slots { len } else { slots }
}

/// Moves descriptors from the head of `queue` into `staged` while slots are
/// free, and says whether the ring must be flushed afterwards: when the
/// caller asked for it, or when anything was waiting in the queue.
pub fn consume_sqe_queue(
    queue: &mut std::collections::VecDeque<UringDescriptor>,
    slots_free: usize,
    staged: &mut Vec<UringDescriptor>,
    dispatch: bool,
) -> (flush: bool)
    ensures
        ({
            let k = fits(old(queue)@.len(), slots_free as nat) as int;
            &&& final(staged)@ == old(staged)@ + old(queue)@.take(k)
            &&& final(queue)@ == old(queue)@.skip(k)
        }),
        flush == (dispatch || old(queue)@.len() > 0),
{
    let ghost q0 = queue@;
    let ghost s0 = staged@;
    let flush = dispatch || queue.len() > 0;
    let mut free: usize = slots_free;
    loop
        invariant
            free <= slots_free,
            slots_free - free <= q0.len(),
            queue@ == q0.skip(slots_free - free),
            staged@ == s0 + q0.take(slots_free - free),
        ensures
            queue@ == q0.skip(fits(q0.len(), slots_free as nat) as int),
            staged@ == s0 + q0.take(fits(q0.len(), slots_free as nat) as int),
        decreases free,
    {
        let ghost done = (slots_free - free) as int;
        match submit_one_event(queue, free, staged) {
            SubmitOne::NoSlot => {
                break;
            },
            SubmitOne::Staged => {
                assert(q0.skip(done).drop_first() =~= q0.skip(done + 1));
                assert(q0.take(done).push(q0.skip(done)[0]) =~= q0.take(done + 1));
                assert(s0 + q0.take(done + 1) =~= (s0 + q0.take(done)).push(q0.skip(done)[0]));
                free = free - 1;
            },
            SubmitOne::Empty => {
                break;
            },
        }
    }
    flush
}

} // verus!
