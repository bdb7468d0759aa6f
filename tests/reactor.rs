use std::collections::VecDeque;

use ringexec::{
    common_flags, consume_sqe_queue, read_flags, submit_one_event, write_flags, LocalExecutor,
    RunStep, Source, SourceMap, SubmitOne, TaskQueueHandle, UringDescriptor, UringOpDescriptor,
    CANCEL_USER_DATA, POLLERR, POLLHUP, POLLIN, POLLNVAL, POLLOUT, POLLPRI,
};

fn poll(fd: i32, user_data: u64, mask: u16) -> UringDescriptor {
    UringDescriptor { fd, user_data, args: UringOpDescriptor::PollAdd(mask) }
}

#[test]
fn poll_masks() {
    assert_eq!(common_flags(), 0x38);
    assert_eq!(common_flags(), POLLERR | POLLHUP | POLLNVAL);
    assert_eq!(read_flags(), POLLIN | POLLPRI);
    assert_eq!(read_flags(), 0x3);
    assert_eq!(write_flags(), POLLOUT);
    assert_eq!(write_flags(), 0x4);
}

#[test]
fn read_interest_wakes_its_task_once() {
    let mut ex = LocalExecutor::default();
    let q = TaskQueueHandle { index: 0 };
    let task = ex.spawn().unwrap().task;
    ex.begin_one_task_queue().unwrap();
    assert_eq!(ex.next_task(), Some(task));
    let id = ex.register_interest(9, task, q, true, false).unwrap();
    assert_eq!(id, 1);
    ex.finish_task_queue();

    let batch = ex.prepare_submission(16);
    assert!(batch.flush);
    assert_eq!(batch.descriptors, vec![poll(9, id, 0x3b)]);
    ex.record_submitted(batch.descriptors.len());
    assert_eq!(ex.in_kernel(), 1);
    assert_eq!(ex.next_step(false), RunStep::PollIo { block: true });

    assert_eq!(ex.complete(id), Some(task));
    assert_eq!(ex.in_kernel(), 0);
    assert_eq!(ex.get_queue(q).unwrap().tasks(), vec![task]);
    assert_eq!(ex.complete(id), None);
    assert_eq!(ex.get_queue(q).unwrap().tasks(), vec![task]);
}

#[test]
fn write_interest_mask() {
    let mut ex = LocalExecutor::default();
    let q = TaskQueueHandle { index: 0 };
    let a = ex.register_interest(4, 0, q, false, true).unwrap();
    let b = ex.register_interest(5, 1, q, true, true).unwrap();
    let c = ex.register_interest(6, 2, q, false, false).unwrap();
    let batch = ex.prepare_submission(16);
    assert_eq!(
        batch.descriptors,
        vec![poll(4, a, 0x3c), poll(5, b, 0x3f), poll(6, c, 0x38)]
    );
    assert_eq!((a, b, c), (1, 2, 3));
}

#[test]
fn cancelled_interest_never_wakes() {
    let mut ex = LocalExecutor::default();
    let q = TaskQueueHandle { index: 0 };
    let id = ex.register_interest(3, 42, q, true, false).unwrap();
    assert_eq!(ex.get_reactor().source_map.len(), 1);
    assert!(ex.cancel(id));
    assert_eq!(ex.get_reactor().source_map.len(), 0);
    assert!(!ex.cancel(id));
    let batch = ex.prepare_submission(16);
    assert_eq!(
        batch.descriptors,
        vec![
            UringDescriptor { fd: 3, user_data: CANCEL_USER_DATA, args: UringOpDescriptor::Cancel(id) },
            poll(3, id, 0x3b),
        ]
    );
    ex.record_submitted(2);
    assert_eq!(ex.complete(id), None);
    assert_eq!(ex.complete(CANCEL_USER_DATA), None);
    assert!(!ex.has_runnable());
    assert_eq!(ex.in_kernel(), 0);
}

#[test]
fn unmatched_completion_is_ignored() {
    let mut ex = LocalExecutor::default();
    assert_eq!(ex.complete(77), None);
    assert_eq!(ex.in_kernel(), 0);
    assert!(!ex.has_runnable());
}

#[test]
fn interest_needs_a_known_queue() {
    let mut ex = LocalExecutor::default();
    assert_eq!(ex.register_interest(3, 1, TaskQueueHandle { index: 2 }, true, false), None);
    assert!(!ex.prepare_submission(4).flush);
}

#[test]
fn submission_respects_free_slots() {
    let mut ex = LocalExecutor::default();
    let q = TaskQueueHandle { index: 0 };
    for t in 0..3u64 {
        ex.register_interest(10 + t as i32, t, q, true, false).unwrap();
    }
    let first = ex.prepare_submission(2);
    assert!(first.flush);
    assert_eq!(first.descriptors, vec![poll(10, 1, 0x3b), poll(11, 2, 0x3b)]);
    let second = ex.prepare_submission(2);
    assert!(second.flush);
    assert_eq!(second.descriptors, vec![poll(12, 3, 0x3b)]);
    let third = ex.prepare_submission(2);
    assert!(!third.flush);
    assert!(third.descriptors.is_empty());
}

#[test]
fn submit_one_event_outcomes() {
    let mut queue: VecDeque<UringDescriptor> = VecDeque::new();
    let mut staged = Vec::new();
    assert_eq!(submit_one_event(&mut queue, 4, &mut staged), SubmitOne::Empty);
    queue.push_back(poll(1, 1, 0x38));
    assert_eq!(submit_one_event(&mut queue, 0, &mut staged), SubmitOne::NoSlot);
    assert_eq!(queue.len(), 1);
    assert_eq!(submit_one_event(&mut queue, 1, &mut staged), SubmitOne::Staged);
    assert!(queue.is_empty());
    assert_eq!(staged, vec![poll(1, 1, 0x38)]);
}

#[test]
fn consume_sqe_queue_flushes_when_work_was_queued() {
    let mut queue: VecDeque<UringDescriptor> = (1..=3u64).map(|i| poll(i as i32, i, 0x38)).collect();
    let mut staged = Vec::new();
    assert!(consume_sqe_queue(&mut queue, 2, &mut staged, false));
    assert_eq!(staged, vec![poll(1, 1, 0x38), poll(2, 2, 0x38)]);
    assert_eq!(queue.len(), 1);
    let mut empty: VecDeque<UringDescriptor> = VecDeque::new();
    let mut none = Vec::new();
    assert!(!consume_sqe_queue(&mut empty, 2, &mut none, false));
    assert!(consume_sqe_queue(&mut empty, 2, &mut none, true));
    assert!(none.is_empty());
}

#[test]
fn source_map_hands_out_fresh_ids() {
    let mut map = SourceMap::new();
    assert_eq!(map.next_identifier(), 1);
    let s = Source { fd: 3, task: 9, queue: 0 };
    assert_eq!(map.add_source(s), 1);
    assert_eq!(map.add_source(s), 2);
    assert_eq!(map.len(), 2);
    assert_eq!(map.remove_source(1), Some(s));
    assert_eq!(map.remove_source(1), None);
    assert_eq!(map.next_identifier(), 3);
}

#[test]
fn kernel_ring_round_without_work() {
    let mut ring = match iou::IoUring::new(8) {
        Ok(r) => r,
        Err(_) => return,
    };
    let mut ex = LocalExecutor::default();
    let batch = ex.stage_submissions(&mut ring);
    assert!(batch.descriptors.is_empty());
    assert!(!batch.flush);
    assert_eq!(batch.slots_free, 8);
    assert_eq!(ex.flush_submissions(&mut ring, false).unwrap(), 0);
    assert_eq!(ex.in_kernel(), 0);
    assert!(ex.drain_completions(&mut ring, 16).is_empty());
    assert_eq!(ex.in_kernel(), 0);
}
