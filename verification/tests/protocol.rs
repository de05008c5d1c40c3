use pg_dispatcher::consumer::consumer_cycle;
use pg_dispatcher::keys::payload_key;
use pg_dispatcher::pool::ThreadPool;
use pg_dispatcher::queue::ChannelQueue;

#[test]
fn payload_key_is_base64_of_payload() {
    assert_eq!(payload_key(&"hello".to_string()), "aGVsbG8=");
    assert_eq!(payload_key(&"".to_string()), "");
    assert_eq!(payload_key(&"payload".to_string()), "cGF5bG9hZA==");
}

#[test]
fn insert_pending_deduplicates() {
    let mut queue = ChannelQueue::new();
    let payload = "payload".to_string();
    assert!(queue.insert_pending(&payload));
    assert!(!queue.insert_pending(&payload));
    let entries = queue.claimable();
    assert_eq!(entries.len(), 1);
    assert_eq!(entries[0], "cGF5bG9hZA==");
}

#[test]
fn claim_succeeds_once_per_key() {
    let mut queue = ChannelQueue::new();
    let payload = "job".to_string();
    queue.insert_pending(&payload);
    let key = payload_key(&payload);
    assert!(queue.try_claim(&key));
    assert!(!queue.try_claim(&key));
    assert!(queue.is_processing(&key));
    assert!(queue.is_pending(&key));
}

#[test]
fn release_makes_key_claimable_again() {
    let mut queue = ChannelQueue::new();
    let payload = "job".to_string();
    queue.insert_pending(&payload);
    let key = payload_key(&payload);
    assert!(queue.try_claim(&key));
    assert_eq!(queue.claimable().len(), 0);
    queue.release(&key);
    assert!(!queue.is_processing(&key));
    assert!(queue.is_pending(&key));
    let entries = queue.claimable();
    assert_eq!(entries.len(), 1);
    assert_eq!(entries[0], key);
    assert!(queue.try_claim(&key));
}

#[test]
fn complete_clears_pending_and_processing() {
    let mut queue = ChannelQueue::new();
    let payload = "job".to_string();
    queue.insert_pending(&payload);
    let key = payload_key(&payload);
    assert!(queue.try_claim(&key));
    queue.complete(&key);
    assert!(queue.is_done(&key));
    assert!(!queue.is_pending(&key));
    assert!(!queue.is_processing(&key));
    assert_eq!(queue.claimable().len(), 0);
}

#[test]
fn scenario_single_worker_done_task() {
    let mut queue = ChannelQueue::new();
    let mut pool = ThreadPool::new(1, vec!["cat".to_string()]);
    let payload = "hello".to_string();
    assert!(queue.insert_pending(&payload));

    let claims = consumer_cycle(&mut queue, &mut pool);
    assert_eq!(claims.len(), 1);
    assert_eq!(claims[0], "hello");
    let key = "aGVsbG8=".to_string();
    assert!(queue.is_processing(&key));

    let picked = pool.begin_job();
    assert_eq!(picked, "hello");
    assert_eq!(pool.idle_workers(), 0);
    pool.finish_job(&picked, true, true);
    assert_eq!(pool.idle_workers(), 1);

    let claims = consumer_cycle(&mut queue, &mut pool);
    assert_eq!(claims.len(), 0);
    assert!(queue.is_done(&key));
    assert!(!queue.is_pending(&key));
    assert!(!queue.is_processing(&key));
}

#[test]
fn scenario_duplicate_payload_single_execution() {
    let mut queue = ChannelQueue::new();
    let mut pool = ThreadPool::new(4, vec!["cat".to_string()]);
    let payload = "payload".to_string();
    assert!(queue.insert_pending(&payload));
    assert!(!queue.insert_pending(&payload));

    let claims = consumer_cycle(&mut queue, &mut pool);
    assert_eq!(claims.len(), 1);
    assert_eq!(claims[0], "payload");

    let claims = consumer_cycle(&mut queue, &mut pool);
    assert_eq!(claims.len(), 0);
}

#[test]
fn scenario_program_not_found_is_reclaimed() {
    let mut queue = ChannelQueue::new();
    let mut pool = ThreadPool::new(1, vec!["no-such-program".to_string()]);
    let payload = "job".to_string();
    queue.insert_pending(&payload);
    let key = payload_key(&payload);

    let claims = consumer_cycle(&mut queue, &mut pool);
    assert_eq!(claims.len(), 1);
    assert_eq!(claims[0], "job");

    let picked = pool.begin_job();
    pool.finish_job(&picked, false, false);

    let claims = consumer_cycle(&mut queue, &mut pool);
    assert_eq!(claims.len(), 1);
    assert_eq!(claims[0], "job");
    assert!(queue.is_pending(&key));
    assert!(queue.is_processing(&key));
    assert!(!queue.is_done(&key));
}

#[test]
fn scenario_stdin_failure_is_reclaimed() {
    let mut queue = ChannelQueue::new();
    let mut pool = ThreadPool::new(1, vec!["cat".to_string()]);
    let payload = "job".to_string();
    queue.insert_pending(&payload);
    let key = payload_key(&payload);

    let claims = consumer_cycle(&mut queue, &mut pool);
    assert_eq!(claims.len(), 1);
    let picked = pool.begin_job();
    pool.finish_job(&picked, true, false);

    let claims = consumer_cycle(&mut queue, &mut pool);
    assert_eq!(claims.len(), 1);
    assert!(queue.is_pending(&key));
    assert!(!queue.is_done(&key));
}

#[test]
fn scenario_empty_payload_round_trip() {
    let mut queue = ChannelQueue::new();
    let mut pool = ThreadPool::new(1, vec!["cat".to_string()]);
    let payload = "".to_string();
    assert!(queue.insert_pending(&payload));
    let claims = consumer_cycle(&mut queue, &mut pool);
    assert_eq!(claims.len(), 1);
    assert_eq!(claims[0], "");
    let picked = pool.begin_job();
    pool.finish_job(&picked, true, true);
    consumer_cycle(&mut queue, &mut pool);
    assert!(queue.is_done(&"".to_string()));
}

#[test]
fn cycle_claims_are_bounded_by_idle_workers() {
    let mut queue = ChannelQueue::new();
    let mut pool = ThreadPool::new(2, vec!["cat".to_string()]);
    queue.insert_pending(&"a".to_string());
    queue.insert_pending(&"b".to_string());
    queue.insert_pending(&"c".to_string());

    let claims = consumer_cycle(&mut queue, &mut pool);
    assert_eq!(claims.len(), 2);

    let first = pool.begin_job();
    let second = pool.begin_job();
    assert_eq!(pool.idle_workers(), 0);

    let claims = consumer_cycle(&mut queue, &mut pool);
    assert_eq!(claims.len(), 0);

    pool.finish_job(&first, true, true);
    pool.finish_job(&second, true, true);
    assert_eq!(pool.idle_workers(), 2);
}

#[test]
fn cycle_drains_one_outcome_per_cycle() {
    let mut queue = ChannelQueue::new();
    let mut pool = ThreadPool::new(2, vec!["cat".to_string()]);
    queue.insert_pending(&"a".to_string());
    queue.insert_pending(&"b".to_string());
    let key_a = payload_key(&"a".to_string());
    let key_b = payload_key(&"b".to_string());

    let claims = consumer_cycle(&mut queue, &mut pool);
    assert_eq!(claims.len(), 2);
    let first = pool.begin_job();
    let second = pool.begin_job();
    pool.finish_job(&first, true, true);
    pool.finish_job(&second, true, true);

    let claims = consumer_cycle(&mut queue, &mut pool);
    assert_eq!(claims.len(), 0);
    let one_done = queue.is_done(&key_a) || queue.is_done(&key_b);
    let both_done = queue.is_done(&key_a) && queue.is_done(&key_b);
    assert!(one_done);
    assert!(!both_done);

    let claims = consumer_cycle(&mut queue, &mut pool);
    assert_eq!(claims.len(), 0);
    assert!(queue.is_done(&key_a));
    assert!(queue.is_done(&key_b));
}
