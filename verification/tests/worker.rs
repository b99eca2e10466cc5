use kakitu_miner::difficulty::{MAX_DIFFICULTY, MIN_DIFFICULTY, WORK_THRESHOLD};
use kakitu_miner::search::{lanes, Solution, Step};
use kakitu_miner::worker::{Finished, Job, Reaction, WorkerState, WsIncoming};

fn message(action: &str) -> WsIncoming {
    WsIncoming {
        action: action.to_string(),
        hash: None,
        difficulty: None,
        amount: None,
        tx_hash: None,
    }
}

fn work(hash: &str) -> WsIncoming {
    WsIncoming { hash: Some(hash.to_string()), ..message("work") }
}

fn work_at(hash: &str, difficulty: &str) -> WsIncoming {
    WsIncoming { difficulty: Some(difficulty.to_string()), ..work(hash) }
}

fn start(worker: &mut WorkerState, hash: &str) -> Job {
    match worker.handle_message(work(hash)) {
        Reaction::Start { job, started } => {
            assert_eq!(started.hash, hash);
            job
        }
        _ => panic!("not started"),
    }
}

fn solve(hash: &str, nonce: u64) -> Solution {
    let mut lane = lanes(hash, 0, nonce, 1).unwrap().pop().unwrap();
    match lane.step(false, false) {
        Step::Found(solution) => solution,
        _ => panic!("not found"),
    }
}

#[test]
fn work_is_started() {
    let mut worker = WorkerState::new();
    let job = start(&mut worker, "ab");
    assert_eq!(job.hash, "ab");
    assert_eq!(job.threshold, WORK_THRESHOLD);
    assert!(worker.is_live(job.id));
}

#[test]
fn work_at_a_given_difficulty() {
    let mut worker = WorkerState::new();
    for (text, threshold) in [
        ("0xffffe00000000000", MIN_DIFFICULTY),
        ("fffff80000000000", MAX_DIFFICULTY),
        ("ffffe80000000000", 0xffffe80000000000),
        ("nonsense", WORK_THRESHOLD),
    ] {
        match worker.handle_message(work_at("ab", text)) {
            Reaction::Start { job, .. } => assert_eq!(job.threshold, threshold),
            _ => panic!("not started"),
        }
    }
}

#[test]
fn work_out_of_bounds_is_turned_down() {
    let mut worker = WorkerState::new();
    let job = start(&mut worker, "ab");
    for (text, t) in [
        ("ffffdfffffffffff", MIN_DIFFICULTY - 1),
        ("fffff80000000001", MAX_DIFFICULTY + 1),
        ("0", 0),
        ("ffffffffffffffff", u64::MAX),
    ] {
        match worker.handle_message(work_at("cd", text)) {
            Reaction::Reject { threshold } => assert_eq!(threshold, t),
            _ => panic!("not turned down"),
        }
    }
    assert!(worker.is_live(job.id));
    assert!(matches!(worker.finish_work(job.id, &Some(solve("ab", 1))), Finished::Submit { .. }));
}

#[test]
fn work_without_a_block_is_ignored() {
    let mut worker = WorkerState::new();
    assert!(matches!(worker.handle_message(message("work")), Reaction::Ignore));
    let bad = WsIncoming { difficulty: Some("0".to_string()), ..message("work") };
    assert!(matches!(worker.handle_message(bad), Reaction::Ignore));
}

#[test]
fn a_new_job_replaces_the_old_one() {
    let mut worker = WorkerState::new();
    let first = start(&mut worker, "ab");
    let second = start(&mut worker, "cd");
    assert_ne!(first.id, second.id);
    assert!(!worker.is_live(first.id));
    assert!(worker.is_live(second.id));
    assert!(matches!(worker.finish_work(first.id, &Some(solve("ab", 1))), Finished::Stale));
    assert!(matches!(
        worker.finish_work(second.id, &Some(solve("cd", 1))),
        Finished::Submit { .. }
    ));
}

#[test]
fn the_same_block_given_again_is_not_stale() {
    let mut worker = WorkerState::new();
    let first = start(&mut worker, "ab");
    start(&mut worker, "ab");
    assert!(!worker.is_live(first.id));
    assert!(matches!(worker.finish_work(first.id, &Some(solve("ab", 1))), Finished::Submit { .. }));
}

#[test]
fn found_work_is_handed_in() {
    let mut worker = WorkerState::new();
    let job = start(&mut worker, "aB");
    match worker.finish_work(job.id, &Some(solve("aB", 0x1f))) {
        Finished::Submit { completed, message } => {
            assert_eq!(completed.hash, "aB");
            assert_eq!(completed.work, "000000000000001f");
            assert_eq!(message, "{\"hash\":\"aB\",\"work\":\"000000000000001f\"}");
        }
        _ => panic!("not handed in"),
    }
}

#[test]
fn a_search_without_result_is_abandoned() {
    let mut worker = WorkerState::new();
    assert!(matches!(worker.finish_work(0, &None), Finished::Abandoned));
    let job = start(&mut worker, "ab");
    assert!(matches!(worker.finish_work(job.id, &None), Finished::Abandoned));
}

#[test]
fn blocks_are_told_apart_by_their_text() {
    let mut worker = WorkerState::new();
    let job = start(&mut worker, "AB");
    assert!(matches!(worker.finish_work(job.id, &Some(solve("ab", 1))), Finished::Stale));
}

#[test]
fn cancel_calls_the_job_off() {
    let mut worker = WorkerState::new();
    assert!(matches!(worker.handle_message(message("cancel")), Reaction::Cancel));
    let job = start(&mut worker, "ab");
    assert!(matches!(worker.handle_message(message("cancel")), Reaction::Cancel));
    assert!(!worker.is_live(job.id));
    // The block is still the one that was last given.
    assert!(matches!(worker.finish_work(job.id, &Some(solve("ab", 1))), Finished::Submit { .. }));
    let next = start(&mut worker, "cd");
    assert!(!worker.is_live(job.id));
    assert!(worker.is_live(next.id));
}

#[test]
fn a_timeout_ends_its_own_job_only() {
    let mut worker = WorkerState::new();
    let first = start(&mut worker, "ab");
    let second = start(&mut worker, "cd");
    worker.time_out(first.id);
    assert!(worker.is_live(second.id));
    worker.time_out(second.id);
    assert!(!worker.is_live(second.id));
}

#[test]
fn a_find_after_the_timeout_is_not_handed_in() {
    let mut worker = WorkerState::new();
    let job = start(&mut worker, "ab");
    worker.time_out(job.id);
    assert!(matches!(worker.finish_work(job.id, &Some(solve("ab", 1))), Finished::Abandoned));
}

#[test]
fn a_timeout_is_remembered_when_the_job_is_replaced() {
    let mut worker = WorkerState::new();
    let first = start(&mut worker, "ab");
    worker.time_out(first.id);
    let second = start(&mut worker, "ab");
    assert!(matches!(worker.finish_work(first.id, &Some(solve("ab", 1))), Finished::Abandoned));
    assert!(matches!(
        worker.finish_work(second.id, &Some(solve("ab", 1))),
        Finished::Submit { .. }
    ));
}

#[test]
fn a_timeout_after_the_replacement_counts_too() {
    let mut worker = WorkerState::new();
    let first = start(&mut worker, "ab");
    worker.handle_message(message("cancel"));
    let second = start(&mut worker, "ab");
    worker.time_out(first.id);
    assert!(worker.is_live(second.id));
    assert!(matches!(worker.finish_work(first.id, &Some(solve("ab", 1))), Finished::Abandoned));
    worker.connection_lost();
    assert!(matches!(worker.finish_work(first.id, &Some(solve("ab", 1))), Finished::Abandoned));
    assert!(matches!(worker.finish_work(second.id, &Some(solve("ab", 1))), Finished::Stale));
}

#[test]
fn a_job_that_was_never_started_cannot_time_out() {
    let mut worker = WorkerState::new();
    worker.time_out(0);
    let job = start(&mut worker, "ab");
    assert_eq!(job.id, 0);
    assert!(worker.is_live(job.id));
    assert!(matches!(worker.finish_work(job.id, &Some(solve("ab", 1))), Finished::Submit { .. }));
}

#[test]
fn there_is_room_for_messages() {
    let worker = WorkerState::new();
    assert!(worker.has_room_for(&work("ab")));
    assert!(worker.has_room_for(&message("ping")));
    assert!(worker.has_room_for_session());
}

#[test]
fn disconnecting_keeps_the_block() {
    let mut worker = WorkerState::new();
    let job = start(&mut worker, "ab");
    worker.disconnect_worker();
    assert!(!worker.is_live(job.id));
    assert!(matches!(worker.finish_work(job.id, &Some(solve("ab", 1))), Finished::Submit { .. }));
}

#[test]
fn losing_the_connection_forgets_the_block() {
    let mut worker = WorkerState::new();
    let job = start(&mut worker, "ab");
    worker.connection_lost();
    assert!(!worker.is_live(job.id));
    assert!(matches!(worker.finish_work(job.id, &Some(solve("ab", 1))), Finished::Stale));
}

#[test]
fn payments_are_passed_on() {
    let mut worker = WorkerState::new();
    let msg = WsIncoming {
        hash: Some("ab".to_string()),
        amount: Some("1.5".to_string()),
        tx_hash: Some("ef".to_string()),
        ..message("paid")
    };
    match worker.handle_message(msg) {
        Reaction::Paid(paid) => {
            assert_eq!(paid.hash, "ab");
            assert_eq!(paid.amount, "1.5");
            assert_eq!(paid.tx_hash, "ef");
        }
        _ => panic!("not passed on"),
    }
}

#[test]
fn payments_have_defaults() {
    let mut worker = WorkerState::new();
    match worker.handle_message(message("paid")) {
        Reaction::Paid(paid) => {
            assert_eq!(paid.hash, "");
            assert_eq!(paid.amount, "0.010000");
            assert_eq!(paid.tx_hash, "");
        }
        _ => panic!("not passed on"),
    }
}

#[test]
fn pings_are_answered() {
    let mut worker = WorkerState::new();
    match worker.handle_message(message("ping")) {
        Reaction::Reply(text) => assert_eq!(text, "{\"action\":\"pong\"}"),
        _ => panic!("not answered"),
    }
}

#[test]
fn other_messages_are_ignored() {
    let mut worker = WorkerState::new();
    let job = start(&mut worker, "ab");
    for action in ["", "Work", "works", "stats", "pong"] {
        assert!(matches!(worker.handle_message(message(action)), Reaction::Ignore));
    }
    assert!(worker.is_live(job.id));
}
