use espipe::{BulkItem, BulkResponse, Reply, ResponseItem, RetryState, TaskStep};

fn accepted(n: usize) -> BulkResponse {
    let items = (0..n)
        .map(|i| BulkItem::Create {
            create: ResponseItem { index: "i".to_string(), id: i.to_string(), status: 201, error: None },
        })
        .collect();
    BulkResponse { error: None, errors: Some(false), items: Some(items) }
}

fn throttled() -> Reply {
    Reply::Received { status: 429, response: BulkResponse { error: None, errors: None, items: None } }
}

#[test]
fn new_task_starts_at_first_attempt_with_one_second() {
    let s = RetryState::new();
    assert_eq!(s.attempt, 1);
    assert_eq!(s.backoff_secs, 1);
}

#[test]
fn throttled_then_accepted_counts_once_with_capped_backoff() {
    let mut s = RetryState::new();
    let mut delays = Vec::new();
    for _ in 0..8 {
        match s.step(&throttled()) {
            TaskStep::Retry { delay_secs } => delays.push(delay_secs),
            TaskStep::Finish { .. } => panic!("a throttled reply must not end the task"),
        }
    }
    assert_eq!(delays, vec![1, 2, 4, 8, 16, 30, 30, 30]);
    assert!(delays.windows(2).all(|w| w[0] <= w[1]));
    assert!(delays.iter().all(|d| *d <= 30));
    assert_eq!(s.attempt, 9);
    let end = s.step(&Reply::Received { status: 200, response: accepted(3) });
    assert_eq!(end, TaskStep::Finish { successes: 3 });
}

#[test]
fn bad_request_ends_task_without_retry() {
    let mut s = RetryState::new();
    let step = s.step(&Reply::Received { status: 400, response: accepted(5) });
    assert_eq!(step, TaskStep::Finish { successes: 0 });
    assert_eq!(s, RetryState::new());
}

#[test]
fn failed_send_contributes_nothing() {
    let mut s = RetryState::new();
    assert_eq!(s.step(&Reply::Failed), TaskStep::Finish { successes: 0 });
}

#[test]
fn other_statuses_count_accepted_items() {
    let mut s = RetryState::new();
    let step = s.step(&Reply::Received { status: 500, response: accepted(2) });
    assert_eq!(step, TaskStep::Finish { successes: 2 });
    let step = s.step(&Reply::Received { status: 201, response: accepted(4) });
    assert_eq!(step, TaskStep::Finish { successes: 4 });
}
