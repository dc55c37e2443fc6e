use spawn_harness::outcome::SpawnOutcome;
use spawn_harness::sequencer::{new_creator, next_command, OutcomeQueue};

fn completed(status: i32) -> SpawnOutcome {
    SpawnOutcome::Completed {
        exit_status: status,
        stdout: Vec::new(),
        stderr: Vec::new(),
    }
}

#[test]
fn test_queue_fifo_order() {
    let mut q = OutcomeQueue::new();
    q.enqueue_outcome(completed(0));
    q.enqueue_outcome(SpawnOutcome::Failed { error_code: 2 });
    q.enqueue_outcome(completed(1));
    assert_eq!(q.len(), 3);
    assert_eq!(q.consume_next(), completed(0));
    assert_eq!(q.consume_next(), SpawnOutcome::Failed { error_code: 2 });
    assert_eq!(q.consume_next(), completed(1));
    assert_eq!(q.len(), 0);
}

#[test]
fn test_queue_underflow_is_reported_not_defaulted() {
    let mut q = OutcomeQueue::new();
    q.enqueue_outcome(completed(0));
    assert_eq!(q.try_consume_next(), Some(completed(0)));
    // Drained: every further attempt reports underflow, never a stale value.
    assert_eq!(q.try_consume_next(), None);
    assert_eq!(q.try_consume_next(), None);
}

#[test]
fn test_outcome_contents_pass_through_unchanged() {
    let mut q = OutcomeQueue::new();
    q.enqueue_outcome(SpawnOutcome::Completed {
        exit_status: 3,
        stdout: b"compiled ok".to_vec(),
        stderr: b"warning: dusty".to_vec(),
    });
    match q.consume_next() {
        SpawnOutcome::Completed { exit_status, stdout, stderr } => {
            assert_eq!(exit_status, 3);
            assert_eq!(stdout, b"compiled ok".to_vec());
            assert_eq!(stderr, b"warning: dusty".to_vec());
        }
        SpawnOutcome::Failed { .. } => panic!("programmed a completion, consumed a failure"),
    }
}

#[test]
fn test_shared_sequencer_fifo_across_handles() {
    let creator = new_creator();
    let handle = creator.share();
    next_command(&creator, completed(10));
    next_command(&handle, SpawnOutcome::Failed { error_code: 5 });
    next_command(&creator, completed(11));
    assert_eq!(creator.pending(), 3);
    // Consumed through either handle, outcomes come back in insertion order.
    assert_eq!(handle.consume_next(), Some(completed(10)));
    assert_eq!(creator.consume_next(), Some(SpawnOutcome::Failed { error_code: 5 }));
    assert_eq!(handle.consume_next(), Some(completed(11)));
    assert_eq!(creator.pending(), 0);
    assert_eq!(creator.consume_next(), None);
}

#[test]
fn test_shared_sequencer_underflow_fails_loudly() {
    let creator = new_creator();
    // More consume calls than enqueued outcomes: the sequencer reports
    // underflow and the test layer turns that into a hard failure.
    assert!(creator.consume_next().is_none());
}
