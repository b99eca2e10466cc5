use kakitu_miner::session::{
    sort_frame, ConnectionStatusPayload, Frame, FrameStep, LinkAction, LinkEvent, Session, Watch,
    MAX_BACKOFF_SECS, MAX_RECONNECT_RETRIES, PING_TIMEOUT_SECS, WATCHDOG_INTERVAL_SECS,
};
use kakitu_miner::search::{lanes, Step};
use kakitu_miner::worker::{Finished, Reaction, WorkerState, WsIncoming, WORK_TIMEOUT_SECS};

fn says(status: &ConnectionStatusPayload, connected: bool, message: &str) {
    assert_eq!(status.connected, connected);
    assert_eq!(status.message, message);
}

fn connect_failed() -> LinkEvent {
    LinkEvent::ConnectFailed { reason: "refused".to_string() }
}

fn register_failed() -> LinkEvent {
    LinkEvent::RegisterFailed { reason: "broken pipe".to_string() }
}

fn work_message() -> WsIncoming {
    WsIncoming {
        action: "work".to_string(),
        hash: Some("ab".to_string()),
        difficulty: None,
        amount: None,
        tx_hash: None,
    }
}

fn working() -> (WorkerState, u64) {
    let mut worker = WorkerState::new();
    match worker.handle_message(work_message()) {
        Reaction::Start { job, .. } => (worker, job.id),
        _ => panic!("not started"),
    }
}

fn registered() -> LinkEvent {
    LinkEvent::Registered { now: 5_000 }
}

fn listening(worker: &mut WorkerState) -> Session {
    let mut session = Session::open(worker, "kshs_1abc");
    match session.advance(worker, LinkEvent::Connected) {
        LinkAction::Register { text } => assert_eq!(text, "{\"kshs_address\":\"kshs_1abc\"}"),
        other => panic!("{:?}", other),
    }
    match session.advance(worker, registered()) {
        LinkAction::Adopt { status } => says(&status, true, "Connected to worker hub."),
        other => panic!("{:?}", other),
    }
    session
}

#[test]
fn session_constants() {
    assert_eq!(MAX_RECONNECT_RETRIES, 10);
    assert_eq!(MAX_BACKOFF_SECS, 60);
    assert_eq!(PING_TIMEOUT_SECS, 90);
    assert_eq!(WATCHDOG_INTERVAL_SECS, 15);
    assert_eq!(WORK_TIMEOUT_SECS, 120);
}

#[test]
fn a_first_connection_that_fails_is_an_error() {
    let mut worker = WorkerState::new();
    let mut session = Session::open(&mut worker, "kshs_1abc");
    match session.advance(&mut worker, connect_failed()) {
        LinkAction::Fail { error } => assert_eq!(error, "WebSocket connect failed: refused"),
        other => panic!("{:?}", other),
    }
}

#[test]
fn a_first_registration_that_fails_is_an_error() {
    let mut worker = WorkerState::new();
    let mut session = Session::open(&mut worker, "kshs_1abc");
    session.advance(&mut worker, LinkEvent::Connected);
    match session.advance(&mut worker, register_failed()) {
        LinkAction::Fail { error } => assert_eq!(error, "Registration send failed: broken pipe"),
        other => panic!("{:?}", other),
    }
}

#[test]
fn opening_leaves_the_job_alone() {
    let (mut worker, id) = working();
    listening(&mut worker);
    assert!(worker.is_live(id));
}

#[test]
fn ten_attempts_with_growing_waits() {
    let mut worker = WorkerState::new();
    let mut session = listening(&mut worker);
    let waits = [1, 2, 4, 8, 16, 32, 60, 60, 60, 60];
    for (i, wait) in waits.iter().enumerate() {
        match session.advance(&mut worker, LinkEvent::StreamEnded) {
            LinkAction::Wait { status, secs } => {
                assert_eq!(secs, *wait);
                says(
                    &status,
                    false,
                    &format!(
                        "Disconnected. Reconnecting in {}s... (attempt {}/10)",
                        wait,
                        i + 1
                    ),
                );
            }
            other => panic!("{:?}", other),
        }
        assert!(matches!(session.advance(&mut worker, LinkEvent::Waited), LinkAction::Connect));
        if i % 2 == 0 {
            assert!(matches!(session.advance(&mut worker, connect_failed()), LinkAction::Listen));
        } else {
            assert!(matches!(
                session.advance(&mut worker, LinkEvent::Connected),
                LinkAction::Register { .. }
            ));
            assert!(matches!(session.advance(&mut worker, register_failed()), LinkAction::Listen));
        }
    }
    match session.advance(&mut worker, LinkEvent::StreamEnded) {
        LinkAction::Stop { status } => {
            says(&status, false, "Failed after 10 consecutive retries. Stopped.")
        }
        other => panic!("{:?}", other),
    }
    for event in [
        LinkEvent::Connected,
        connect_failed(),
        registered(),
        register_failed(),
        LinkEvent::StreamEnded,
        LinkEvent::Waited,
    ] {
        assert!(!session.expects(&event));
    }
}

#[test]
fn a_new_connection_starts_over() {
    let mut worker = WorkerState::new();
    let mut session = listening(&mut worker);
    for _ in 0..4 {
        session.advance(&mut worker, LinkEvent::StreamEnded);
        session.advance(&mut worker, LinkEvent::Waited);
        session.advance(&mut worker, connect_failed());
    }
    session.advance(&mut worker, LinkEvent::StreamEnded);
    session.advance(&mut worker, LinkEvent::Waited);
    match session.advance(&mut worker, LinkEvent::Connected) {
        LinkAction::Register { text } => assert_eq!(text, "{\"kshs_address\":\"kshs_1abc\"}"),
        other => panic!("{:?}", other),
    }
    match session.advance(&mut worker, registered()) {
        LinkAction::Adopt { status } => says(&status, true, "Reconnected to worker hub."),
        other => panic!("{:?}", other),
    }
    match session.advance(&mut worker, LinkEvent::StreamEnded) {
        LinkAction::Wait { status, secs } => {
            assert_eq!(secs, 1);
            says(&status, false, "Disconnected. Reconnecting in 1s... (attempt 1/10)");
        }
        other => panic!("{:?}", other),
    }
}

#[test]
fn the_end_of_the_stream_ends_the_job() {
    let (mut worker, id) = working();
    let mut session = listening(&mut worker);
    session.advance(&mut worker, LinkEvent::StreamEnded);
    assert!(!worker.is_live(id));
}

#[test]
fn a_session_expects_what_it_waits_for() {
    let mut worker = WorkerState::new();
    let mut session = Session::open(&mut worker, "kshs_1abc");
    assert!(session.expects(&LinkEvent::Connected));
    assert!(session.expects(&connect_failed()));
    assert!(!session.expects(&registered()));
    assert!(!session.expects(&LinkEvent::StreamEnded));
    session.advance(&mut worker, LinkEvent::Connected);
    assert!(session.expects(&registered()));
    assert!(session.expects(&register_failed()));
    assert!(!session.expects(&LinkEvent::Connected));
    session.advance(&mut worker, registered());
    assert!(session.expects(&LinkEvent::StreamEnded));
    assert!(!session.expects(&LinkEvent::Waited));
    session.advance(&mut worker, LinkEvent::StreamEnded);
    assert!(session.expects(&LinkEvent::Waited));
}

fn expires(session: &mut Session, worker: &mut WorkerState, now: u64) {
    match session.look(worker, now) {
        Watch::Expire { status } => {
            says(&status, false, "Connection stale (no ping). Reconnecting...")
        }
        other => panic!("{:?}", other),
    }
}

#[test]
fn a_silent_hub_is_given_up() {
    let (mut worker, id) = working();
    let mut session = listening(&mut worker);
    assert!(matches!(session.look(&mut worker, 0), Watch::Go));
    assert!(matches!(session.look(&mut worker, 94_999), Watch::Go));
    assert!(worker.is_live(id));
    expires(&mut session, &mut worker, 95_000);
    assert!(!worker.is_live(id));
    assert!(matches!(session.look(&mut worker, 200_000), Watch::Go));
}

#[test]
fn messages_are_signs_of_life() {
    let mut worker = WorkerState::new();
    let mut session = listening(&mut worker);
    let reaction = session.receive(&mut worker, 90_000, Some(work_message()));
    assert!(matches!(reaction, Reaction::Start { .. }));
    assert!(matches!(session.look(&mut worker, 179_999), Watch::Go));
    // A text that is no message is one, too.
    assert!(matches!(session.receive(&mut worker, 179_999, None), Reaction::Ignore));
    assert!(matches!(session.look(&mut worker, 269_998), Watch::Go));
    expires(&mut session, &mut worker, 269_999);
}

#[test]
fn a_connection_that_was_had_back_is_watched() {
    let mut worker = WorkerState::new();
    let mut session = listening(&mut worker);
    expires(&mut session, &mut worker, 100_000);
    session.advance(&mut worker, LinkEvent::StreamEnded);
    assert!(matches!(session.look(&mut worker, 300_000), Watch::Go));
    session.advance(&mut worker, LinkEvent::Waited);
    session.advance(&mut worker, LinkEvent::Connected);
    session.advance(&mut worker, LinkEvent::Registered { now: 400_000 });
    assert!(matches!(session.look(&mut worker, 489_999), Watch::Go));
    expires(&mut session, &mut worker, 490_000);
}

#[test]
fn the_watch_ends_with_the_session() {
    let mut worker = WorkerState::new();
    let mut session = listening(&mut worker);
    for _ in 0..10 {
        session.advance(&mut worker, LinkEvent::StreamEnded);
        session.advance(&mut worker, LinkEvent::Waited);
        session.advance(&mut worker, connect_failed());
    }
    session.advance(&mut worker, LinkEvent::StreamEnded);
    assert!(matches!(session.look(&mut worker, 0), Watch::End));
    assert!(matches!(session.look(&mut worker, 1_000_000), Watch::End));
}

#[test]
fn a_new_session_ends_the_old_one() {
    let mut worker = WorkerState::new();
    let mut old = listening(&mut worker);
    let mut new = listening(&mut worker);
    let id = match new.receive(&mut worker, 6_000, Some(work_message())) {
        Reaction::Start { job, .. } => job.id,
        _ => panic!("not started"),
    };
    let cancel = WsIncoming { action: "cancel".to_string(), ..work_message() };
    assert!(matches!(old.receive(&mut worker, 7_000, Some(cancel)), Reaction::Ignore));
    let again = old.receive(&mut worker, 7_000, Some(work_message()));
    assert!(matches!(again, Reaction::Ignore));
    assert!(matches!(old.look(&mut worker, 1_000_000), Watch::End));
    assert!(matches!(old.advance(&mut worker, LinkEvent::StreamEnded), LinkAction::End));
    assert!(!old.expects(&LinkEvent::Waited));
    assert!(worker.is_live(id));
    let mut lane = lanes("ab", 0, 1, 1).unwrap().pop().unwrap();
    let outcome = match lane.step(false, false) {
        Step::Found(solution) => Some(solution),
        _ => None,
    };
    assert!(matches!(worker.finish_work(id, &outcome), Finished::Submit { .. }));
    assert!(matches!(
        new.advance(&mut worker, LinkEvent::StreamEnded),
        LinkAction::Wait { secs: 1, .. }
    ));
}

#[test]
fn a_session_in_mid_attempt_is_ended_too() {
    let mut worker = WorkerState::new();
    let mut old = listening(&mut worker);
    old.advance(&mut worker, LinkEvent::StreamEnded);
    let mut opening = Session::open(&mut worker, "kshs_3xyz");
    assert!(matches!(old.advance(&mut worker, LinkEvent::Waited), LinkAction::End));
    let _new = Session::open(&mut worker, "kshs_1abc");
    assert!(matches!(opening.advance(&mut worker, LinkEvent::Connected), LinkAction::End));
}

#[test]
fn an_overtaken_opening_that_fails_says_why() {
    let mut worker = WorkerState::new();
    let mut first = Session::open(&mut worker, "kshs_1abc");
    let mut second = Session::open(&mut worker, "kshs_1abc");
    second.advance(&mut worker, LinkEvent::Connected);
    let mut last = Session::open(&mut worker, "kshs_1abc");
    match first.advance(&mut worker, connect_failed()) {
        LinkAction::Fail { error } => assert_eq!(error, "WebSocket connect failed: refused"),
        other => panic!("{:?}", other),
    }
    match second.advance(&mut worker, register_failed()) {
        LinkAction::Fail { error } => assert_eq!(error, "Registration send failed: broken pipe"),
        other => panic!("{:?}", other),
    }
    assert!(!first.expects(&LinkEvent::Connected));
    assert!(!second.expects(&registered()));
    assert!(matches!(
        last.advance(&mut worker, LinkEvent::Connected),
        LinkAction::Register { .. }
    ));
}

#[test]
fn an_overtaken_reconnection_that_fails_ends_quietly() {
    let mut worker = WorkerState::new();
    let mut old = listening(&mut worker);
    old.advance(&mut worker, LinkEvent::StreamEnded);
    old.advance(&mut worker, LinkEvent::Waited);
    let _new = Session::open(&mut worker, "kshs_1abc");
    assert!(matches!(old.advance(&mut worker, connect_failed()), LinkAction::End));
}

#[test]
fn frames_are_sorted() {
    assert!(matches!(sort_frame(&Frame::Text), FrameStep::Handle));
    assert!(matches!(sort_frame(&Frame::Other), FrameStep::Skip));
    for frame in [Frame::Close, Frame::Broken, Frame::Ended] {
        assert!(matches!(sort_frame(&frame), FrameStep::End));
    }
}

#[test]
fn failures_are_told_from_other_events() {
    assert!(connect_failed().is_failure());
    assert!(register_failed().is_failure());
    for event in [LinkEvent::Connected, registered(), LinkEvent::StreamEnded, LinkEvent::Waited] {
        assert!(!event.is_failure());
    }
}
