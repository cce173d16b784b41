use eska_cli::queue::{refusal_reply, Admission, RequestQueue, MAX_BATCH, MAX_BYTES, MAX_PENDING};
use eska_cli::rpc::Id;

fn number(n: u64) -> Id {
    Id::Number(n)
}

#[test]
fn saturated_queue_still_accepts_cancellation_and_reports_file_loss() {
    let mut queue = RequestQueue::new();
    for n in 0..MAX_PENDING as u64 {
        assert_eq!(queue.enqueue(vec![number(n)], 1, 10, false, &Vec::new()), Admission::Admitted);
    }
    let refused = queue.enqueue(vec![number(1000)], 1, 10, false, &vec![number(7)]);
    assert_eq!(refused, Admission::Rejected { oversized: false });
    let (kind, _, _) = refusal_reply(refused).expect("a refused request is answered");
    assert_eq!(kind, "resource_limit");
    assert!(queue.is_cancelled(&number(7)));
    assert!(!queue.is_cancelled(&number(8)));
    assert_eq!(
        queue.enqueue(Vec::new(), 1, 10, true, &Vec::new()),
        Admission::Rejected { oversized: false }
    );
    let (job, overflow) = queue.take_job();
    assert!(overflow);
    assert_eq!(job.unwrap().bytes, 10);
    let (_, overflow) = queue.take_job();
    assert!(!overflow);
}

#[test]
fn identifiers_are_pending_until_released() {
    let mut queue = RequestQueue::new();
    assert_eq!(
        queue.enqueue(vec![number(1), Id::Text("1".to_owned())], 2, 20, false, &Vec::new()),
        Admission::Admitted
    );
    assert_eq!(queue.enqueue(vec![number(1)], 1, 5, false, &Vec::new()), Admission::Duplicate);
    assert_eq!(queue.enqueue(vec![number(2), number(2)], 2, 5, false, &Vec::new()), Admission::Duplicate);
    queue.release(&vec![number(1)]);
    assert_eq!(queue.enqueue(vec![number(1)], 1, 5, false, &vec![number(1)]), Admission::Admitted);
    assert!(queue.is_cancelled(&number(1)));
    assert!(!queue.is_cancelled(&Id::Text("1".to_owned())));
}

#[test]
fn oversized_batches_and_bytes_are_refused() {
    let mut queue = RequestQueue::new();
    assert_eq!(
        queue.enqueue(vec![number(1)], 17, 5, true, &Vec::new()),
        Admission::Rejected { oversized: true }
    );
    assert_eq!(
        queue.enqueue(vec![number(1)], 1, MAX_BYTES + 1, false, &Vec::new()),
        Admission::Rejected { oversized: false }
    );
    assert_eq!(queue.enqueue(vec![number(1)], 1, MAX_BYTES, false, &Vec::new()), Admission::Admitted);
    assert_eq!(
        queue.enqueue(Vec::new(), 1, 1, false, &Vec::new()),
        Admission::Rejected { oversized: false }
    );
    let (job, overflow) = queue.take_job();
    assert!(!overflow);
    assert_eq!(job.unwrap().ids, vec![number(1)]);
    assert!(queue.take_job().0.is_none());
    assert_eq!(queue.enqueue(Vec::new(), 1, MAX_BYTES, false, &Vec::new()), Admission::Admitted);
}

#[test]
fn refused_requests_are_answered_with_the_limit_reached() {
    assert_eq!(
        refusal_reply(Admission::Rejected { oversized: false }),
        Some(("resource_limit", "queue", MAX_PENDING))
    );
    assert_eq!(
        refusal_reply(Admission::Rejected { oversized: true }),
        Some(("resource_limit", "batch", MAX_BATCH))
    );
    assert_eq!(refusal_reply(Admission::Admitted), None);
    assert_eq!(refusal_reply(Admission::Duplicate), None);
}
