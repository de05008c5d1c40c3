use pg_dispatcher::pool::classify_attempt;
use pg_dispatcher::pool::ThreadPool;
use pg_dispatcher::pool::WorkerMessage;

#[test]
fn classify_spawn_failure() {
    let m = classify_attempt("k".to_string(), false, false);
    assert!(matches!(m, WorkerMessage::ProgramNotFound(k) if k == "k"));
}

#[test]
fn classify_stdin_failure() {
    let m = classify_attempt("k".to_string(), true, false);
    assert!(matches!(m, WorkerMessage::StdinFailed(k) if k == "k"));
}

#[test]
fn classify_completed_attempt() {
    let m = classify_attempt("k".to_string(), true, true);
    assert!(matches!(m, WorkerMessage::DoneTask(k) if k == "k"));
}

#[test]
fn idle_counter_tracks_execution() {
    let mut pool = ThreadPool::new(3, vec!["cat".to_string()]);
    assert_eq!(pool.idle_workers(), 3);
    pool.execute("a".to_string());
    pool.execute("b".to_string());
    assert_eq!(pool.idle_workers(), 3);
    let a = pool.begin_job();
    assert_eq!(a, "a");
    assert_eq!(pool.idle_workers(), 2);
    let b = pool.begin_job();
    assert_eq!(b, "b");
    assert_eq!(pool.idle_workers(), 1);
    pool.finish_job(&a, true, true);
    assert_eq!(pool.idle_workers(), 2);
    pool.finish_job(&b, false, false);
    assert_eq!(pool.idle_workers(), 3);
}

#[test]
fn outcomes_are_reported_once_per_attempt() {
    let mut pool = ThreadPool::new(1, vec!["cat".to_string()]);
    pool.execute("hello".to_string());
    let p = pool.begin_job();
    pool.finish_job(&p, true, true);
    let first = pool.take_outcome();
    assert!(matches!(first, Some(WorkerMessage::DoneTask(k)) if k == "aGVsbG8="));
    let second = pool.take_outcome();
    assert!(second.is_none());
}

#[test]
fn shutdown_returns_undrained_outcomes() {
    let mut pool = ThreadPool::new(2, vec!["cat".to_string()]);
    pool.execute("a".to_string());
    let a = pool.begin_job();
    pool.finish_job(&a, true, true);
    let rest = pool.shutdown();
    assert_eq!(rest.len(), 1);
    assert!(matches!(&rest[0], WorkerMessage::DoneTask(k) if k == "YQ=="));
}

#[test]
fn shutdown_after_drain_leaves_nothing() {
    let mut pool = ThreadPool::new(1, vec!["cat".to_string()]);
    pool.execute("a".to_string());
    let a = pool.begin_job();
    pool.finish_job(&a, true, true);
    assert!(pool.take_outcome().is_some());
    let rest = pool.shutdown();
    assert_eq!(rest.len(), 0);
}
