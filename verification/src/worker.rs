//! What a worker has in hand, and how it reacts to what the hub sends.
//!
//! A worker works on one job at a time. A job is live from its start until it is cancelled, times
//! out, or is replaced by the next one. Apart from that, the worker remembers which block it was
//! last given and which jobs have run out of time: what a search yields is handed in only for
//! that block, and never for a job that took too long. It also knows which session with the hub
//! is the one in use: opening one puts an end to the one before.

use crate::base16::{bytes_of_hex, is_hex_text, law_hex_digits};
use crate::difficulty::{
    acceptable, difficulty_of, is_acceptable, opt_text, threshold_of, work_threshold,
    MAX_DIFFICULTY, MIN_DIFFICULTY,
};
use crate::endian::le_value;
use crate::json::{
    escaped, law_plain_text_stands_for_itself, law_result_holds_block_and_work, pong_text,
    result_message, result_text,
};
use crate::search::{
    are_lanes_from_some_base, law_work_is_a_numeral, law_work_names_its_nonce, nonce_text, work_of,
    work_string, work_value, Lane, Solution,
};
use crate::text::same_text;
use std::collections::HashSet;
use vstd::prelude::*;
use vstd::string::*;

verus! {

broadcast use vstd::std_specs::hash::group_hash_axioms;

/// How long a job may take, in seconds.
pub const WORK_TIMEOUT_SECS: u64 = 120;

/// A message from the hub.
#[derive(Debug)]
pub struct WsIncoming {
    /// What the message is about.
    pub action: String,
    /// The block, in hexadecimal.
    pub hash: Option<String>,
    /// The threshold, in hexadecimal.
    pub difficulty: Option<String>,
    /// How much was paid.
    pub amount: Option<String>,
    /// The transaction that paid it.
    pub tx_hash: Option<String>,
}

/// Tells the user that work on a block has begun.
#[derive(Debug)]
pub struct WorkStartedPayload {
    pub hash: String,
}

/// Tells the user that work on a block is done.
#[derive(Debug)]
pub struct WorkCompletedPayload {
    pub hash: String,
    pub work: String,
}

/// Tells the user that a block was paid for.
#[derive(Debug)]
pub struct PaidPayload {
    pub hash: String,
    pub amount: String,
    pub tx_hash: String,
}

/// A block to find a nonce for.
#[derive(Debug)]
pub struct Job {
    /// Tells jobs apart: no two of a worker have the same.
    pub id: u64,
    /// The block, as it was given.
    pub hash: String,
    /// The threshold to reach.
    pub threshold: u64,
}

/// What is to be done about a message.
pub enum Reaction {
    /// Nothing.
    Ignore,
    /// The work asked for is too easy or too hard, and is turned down.
    Reject { threshold: u64 },
    /// The job is to be worked on, and the user to be told.
    Start { job: Job, started: WorkStartedPayload },
    /// The job in hand, if any, was called off.
    Cancel,
    /// The user is to be told of a payment.
    Paid(PaidPayload),
    /// The text is to be sent back.
    Reply(String),
}

/// What is to be done when a search has ended.
pub enum Finished {
    /// Nothing was found: the job was called off, took too long, or named no block.
    Abandoned,
    /// What was found is for a block that is no longer asked for.
    Stale,
    /// The user is to be told, and the message to be sent.
    Submit { completed: WorkCompletedPayload, message: String },
}

/// What a worker has in hand.
pub struct WorkerView {
    /// The last job that was started, and whether it was called off.
    pub current: Option<(u64, bool)>,
    /// The block that was last given.
    pub work_hash: Option<Seq<char>>,
    /// How many jobs were started.
    pub started: u64,
    /// The jobs whose time has run out.
    pub expired: Set<u64>,
    /// How many sessions were opened; the last of them is the one in use.
    pub sessions: nat,
}

impl WorkerView {
    /// The job is being worked on.
    pub open spec fn live(self, id: u64) -> bool {
        self.current == Some((id, false))
    }

    /// The time for the job has run out.
    pub open spec fn timed_out(self, id: u64) -> bool {
        self.expired.contains(id)
    }

    /// What was found for the job is to be handed in: in time, and for the block that was last
    /// given.
    pub open spec fn hands_in(self, id: u64, solution: Solution) -> bool {
        !self.timed_out(id) && self.work_hash == Some(solution.hash())
    }

    /// What becomes of a job whose search has ended.
    pub open spec fn finishes(
        self,
        id: u64,
        outcome: Option<Solution>,
        finished: Finished,
    ) -> bool {
        match outcome {
            Some(solution) => if self.timed_out(id) {
                finished is Abandoned
            } else if self.hands_in(id, solution) {
                &&& finished matches Finished::Submit { completed, message }
                &&& completed.hash@ == solution.hash()
                &&& completed.work@ == nonce_text(solution.nonce())
                &&& message@ == result_message(solution.hash(), nonce_text(solution.nonce()))
            } else {
                finished is Stale
            },
            None => finished is Abandoned,
        }
    }

    /// The job in hand, and those that ran out of time, are ones that were started, and none
    /// that ran out of time is live.
    pub open spec fn valid(self) -> bool {
        &&& self.current matches Some(job) ==> job.0 < self.started
        &&& forall|id: u64| #[trigger]
            self.expired.contains(id) ==> id < self.started && !self.live(id)
    }

    /// After a new job for `hash` was started.
    pub open spec fn after_start(self, hash: Seq<char>) -> WorkerView {
        WorkerView {
            current: Some((self.started, false)),
            work_hash: Some(hash),
            started: (self.started + 1) as u64,
            ..self
        }
    }

    /// After the job in hand was called off.
    pub open spec fn after_cancel(self) -> WorkerView {
        WorkerView {
            current: match self.current {
                Some(job) => Some((job.0, true)),
                None => None,
            },
            ..self
        }
    }

    /// After the time for a job ran out. There is no time to run out for a job that was never
    /// started.
    pub open spec fn after_timeout(self, id: u64) -> WorkerView {
        if id < self.started {
            WorkerView {
                expired: self.expired.insert(id),
                ..if self.live(id) {
                    self.after_cancel()
                } else {
                    self
                }
            }
        } else {
            self
        }
    }

    /// After the connection was lost.
    pub open spec fn after_loss(self) -> WorkerView {
        WorkerView { work_hash: None, ..self.after_cancel() }
    }

    /// After a session was opened.
    pub open spec fn after_open(self) -> WorkerView {
        WorkerView { sessions: self.sessions + 1, ..self }
    }

    /// After a message.
    pub open spec fn after_message(self, msg: WsIncoming) -> WorkerView {
        if starts_work(msg) {
            self.after_start(msg.hash->0@)
        } else if msg.action@ == "cancel"@ {
            self.after_cancel()
        } else {
            self
        }
    }

    /// What a message calls for.
    pub open spec fn calls_for(self, msg: WsIncoming, reaction: Reaction) -> bool {
        if starts_work(msg) {
            &&& reaction matches Reaction::Start { job, started }
            &&& job.id == self.started
            &&& job.hash@ == msg.hash->0@
            &&& job.threshold == threshold_of(opt_text(msg.difficulty))
            &&& started.hash@ == msg.hash->0@
        } else if msg.action@ == "work"@ && msg.hash is Some {
            reaction == (Reaction::Reject { threshold: threshold_of(opt_text(msg.difficulty)) })
        } else if msg.action@ == "cancel"@ {
            reaction is Cancel
        } else if msg.action@ == "paid"@ {
            &&& reaction matches Reaction::Paid(paid)
            &&& paid.hash@ == text_or(msg.hash, ""@)
            &&& paid.amount@ == text_or(msg.amount, "0.010000"@)
            &&& paid.tx_hash@ == text_or(msg.tx_hash, ""@)
        } else if msg.action@ == "ping"@ {
            &&& reaction matches Reaction::Reply(text)
            &&& text@ == "{\"action\":\"pong\"}"@
        } else {
            reaction is Ignore
        }
    }
}

/// A message that asks for work which the miner is willing to do.
pub open spec fn starts_work(msg: WsIncoming) -> bool {
    &&& msg.action@ == "work"@
    &&& msg.hash is Some
    &&& acceptable(threshold_of(opt_text(msg.difficulty)))
}

/// The text that is there, or else `default`.
pub open spec fn text_or(s: Option<String>, default: Seq<char>) -> Seq<char> {
    match s {
        Some(s) => s@,
        None => default,
    }
}

/// A job that was started, and whether it was called off.
#[derive(Clone, Copy)]
struct Mark {
    id: u64,
    cancelled: bool,
}

/// The state of a worker.
pub struct WorkerState {
    current: Option<Mark>,
    work_hash: Option<String>,
    started: u64,
    expired: HashSet<u64>,
    sessions: u64,
}

impl View for WorkerState {
    type V = WorkerView;

    closed spec fn view(&self) -> WorkerView {
        WorkerView {
            current: match self.current {
                Some(mark) => Some((mark.id, mark.cancelled)),
                None => None,
            },
            work_hash: opt_text(self.work_hash),
            started: self.started,
            expired: self.expired@,
            sessions: self.sessions as nat,
        }
    }
}

/// No two of the actions that are told apart are the same.
proof fn lemma_actions_differ()
    ensures
        "work"@ != "cancel"@,
        "work"@ != "paid"@,
        "work"@ != "ping"@,
        "cancel"@ != "paid"@,
        "cancel"@ != "ping"@,
        "paid"@ != "ping"@,
{
    reveal_strlit("work");
    reveal_strlit("cancel");
    reveal_strlit("paid");
    reveal_strlit("ping");
    assert("work"@[0] == 'w');
    assert("cancel"@[0] == 'c');
    assert("paid"@[1] == 'a' && "paid"@[0] == 'p');
    assert("ping"@[1] == 'i' && "ping"@[0] == 'p');
}

/// The text that is there, or else `default`.
fn or_default(s: Option<String>, default: &str) -> (out: String)
    ensures
        out@ == text_or(s, default@),
{
    match s {
        Some(s) => s,
        None => default.to_string(),
    }
}

impl WorkerState {
    #[verifier::type_invariant]
    spec fn type_inv(self) -> bool {
        self@.valid()
    }

    /// A worker with nothing in hand.
    pub fn new() -> (state: WorkerState)
        ensures
            state@ == (WorkerView {
                current: None,
                work_hash: None,
                started: 0,
                expired: Set::empty(),
                sessions: 0,
            }),
            state@.valid(),
            forall|id: u64| !state@.live(id) && !#[trigger] state@.timed_out(id),
    {
        WorkerState {
            current: None,
            work_hash: None,
            started: 0,
            expired: HashSet::new(),
            sessions: 0,
        }
    }

    /// Whether a message can be handled: it starts no job, or another job can be numbered.
    pub fn has_room_for(&self, msg: &WsIncoming) -> (room: bool)
        ensures
            room == (starts_work(*msg) ==> self@.started < u64::MAX),
    {
        self.started < u64::MAX || !same_text(msg.action.as_str(), "work") || msg.hash.is_none()
            || !is_acceptable(work_threshold(&msg.difficulty))
    }

    /// Whether another session can be numbered.
    pub fn has_room_for_session(&self) -> (room: bool)
        ensures
            room == (self@.sessions < u64::MAX),
    {
        self.sessions < u64::MAX
    }

    /// The number of the session in use.
    pub(crate) fn session(&self) -> (id: u64)
        ensures
            id == self@.sessions,
    {
        self.sessions
    }

    /// Numbers a new session, which from now on is the one in use.
    pub(crate) fn open_session(&mut self) -> (id: u64)
        requires
            old(self)@.sessions < u64::MAX,
        ensures
            id == final(self)@.sessions,
            final(self)@ == old(self)@.after_open(),
    {
        proof {
            use_type_invariant(&*self);
        }
        self.sessions = self.sessions + 1;
        self.sessions
    }

    /// Whether a job is being worked on: it is the one in hand, and was not called off.
    pub fn is_live(&self, id: u64) -> (live: bool)
        ensures
            live == self@.live(id),
            live == (self@.current == Some((id, false))),
    {
        match self.current {
            Some(mark) => mark.id == id && !mark.cancelled,
            None => false,
        }
    }

    /// Calls the job in hand off, if there is one.
    pub fn cancel(&mut self)
        ensures
            final(self)@ == old(self)@.after_cancel(),
    {
        proof {
            use_type_invariant(&*self);
        }
        match self.current {
            Some(mark) => {
                self.current = Some(Mark { id: mark.id, cancelled: true });
            },
            None => {},
        }
    }

    /// Notes that the time for a job has run out, and calls the job off if it is in hand. A job
    /// that has replaced it meanwhile goes on.
    pub fn time_out(&mut self, id: u64)
        ensures
            final(self)@ == old(self)@.after_timeout(id),
    {
        if id < self.started {
            if self.is_live(id) {
                self.cancel();
            }
            proof {
                use_type_invariant(&*self);
            }
            let ghost before = self@;
            let mut expired: HashSet<u64> = HashSet::new();
            std::mem::swap(&mut expired, &mut self.expired);
            expired.insert(id);
            assert forall|job: u64| #[trigger] expired@.contains(job) implies job < self.started
                && !self@.live(job) by {
                assert(job == id || before.expired.contains(job));
            }
            self.expired = expired;
        }
    }

    /// The user disconnects: the job in hand is called off. The block that was last given is
    /// still remembered.
    pub fn disconnect_worker(&mut self)
        ensures
            final(self)@ == old(self)@.after_cancel(),
    {
        self.cancel();
    }

    /// The connection was lost: the job in hand is called off, and its block forgotten.
    pub fn connection_lost(&mut self)
        ensures
            final(self)@ == old(self)@.after_loss(),
    {
        self.cancel();
        proof {
            use_type_invariant(&*self);
        }
        self.work_hash = None;
    }

    /// Takes a job for `hash` in hand in place of the one before.
    fn start(&mut self, hash: &String) -> (id: u64)
        requires
            old(self)@.started < u64::MAX,
        ensures
            id == old(self)@.started,
            final(self)@ == old(self)@.after_start(hash@),
    {
        proof {
            use_type_invariant(&*self);
        }
        let id: u64 = self.started;
        self.started = id + 1;
        self.work_hash = Some(hash.clone());
        self.current = Some(Mark { id, cancelled: false });
        id
    }

    /// Decides what a message calls for.
    ///
    /// `work` starts a job, unless it names no block, or a threshold out of bounds; `cancel`
    /// calls the job in hand off; `paid` is passed on to the user, with what is missing filled
    /// in; `ping` is answered. Anything else is ignored.
    pub fn handle_message(&mut self, msg: WsIncoming) -> (reaction: Reaction)
        requires
            starts_work(msg) ==> old(self)@.started < u64::MAX,
        ensures
            final(self)@ == old(self)@.after_message(msg),
            old(self)@.calls_for(msg, reaction),
            msg.action@ == "paid"@ ==> {
                &&& reaction matches Reaction::Paid(paid)
                &&& paid.hash@ == text_or(msg.hash, ""@)
                &&& paid.amount@ == text_or(msg.amount, "0.010000"@)
                &&& paid.tx_hash@ == text_or(msg.tx_hash, ""@)
            },
            msg.action@ == "ping"@ ==> {
                &&& reaction matches Reaction::Reply(text)
                &&& text@ == "{\"action\":\"pong\"}"@
            },
            msg.action@ == "cancel"@ <==> reaction is Cancel,
    {
        proof {
            use_type_invariant(&*self);
            lemma_actions_differ();
        }
        let action: &str = msg.action.as_str();
        if same_text(action, "work") {
            match msg.hash {
                None => Reaction::Ignore,
                Some(hash) => {
                    let threshold: u64 = work_threshold(&msg.difficulty);
                    if !is_acceptable(threshold) {
                        return Reaction::Reject { threshold };
                    }
                    let id: u64 = self.start(&hash);
                    let started: WorkStartedPayload = WorkStartedPayload { hash: hash.clone() };
                    Reaction::Start { job: Job { id, hash, threshold }, started }
                },
            }
        } else if same_text(action, "cancel") {
            self.cancel();
            Reaction::Cancel
        } else if same_text(action, "paid") {
            let hash: String = or_default(msg.hash, "");
            let amount: String = or_default(msg.amount, "0.010000");
            let tx_hash: String = or_default(msg.tx_hash, "");
            Reaction::Paid(PaidPayload { hash, amount, tx_hash })
        } else if same_text(action, "ping") {
            Reaction::Reply(pong_text())
        } else {
            Reaction::Ignore
        }
    }

    /// Decides what becomes of a job whose search has ended. What was found is handed in exactly
    /// when the job's time has not run out and its block is the one that was last given; and it
    /// is a good nonce for that block.
    pub fn finish_work(&self, id: u64, outcome: &Option<Solution>) -> (finished: Finished)
        ensures
            self@.finishes(id, *outcome, finished),
            finished is Abandoned <==> (outcome is None || self@.timed_out(id)),
            finished is Submit <==> outcome is Some && !self@.expired.contains(id)
                && self@.work_hash == Some(outcome->0.hash()),
            finished is Stale <==> outcome is Some && !self@.timed_out(id) && self@.work_hash
                != Some(outcome->0.hash()),
            finished is Submit <==> outcome is Some && self@.hands_in(id, outcome->0),
            finished matches Finished::Submit { completed, message } ==> {
                &&& completed.hash@ == outcome->0.hash()
                &&& completed.work@ == nonce_text(outcome->0.nonce())
                &&& message@ == result_message(outcome->0.hash(), nonce_text(outcome->0.nonce()))
                &&& outcome->0.is_valid()
            },
    {
        if self.expired.contains(&id) {
            return Finished::Abandoned;
        }
        let hash: &str = match outcome {
            Some(solution) => solution.hash_text(),
            None => {
                return Finished::Abandoned;
            },
        };
        match &self.work_hash {
            Some(current) => {
                if !same_text(current.as_str(), hash) {
                    return Finished::Stale;
                }
            },
            None => {
                return Finished::Stale;
            },
        }
        let work: String = work_string(outcome);
        let message: String = result_text(hash, work.as_str());
        Finished::Submit {
            completed: WorkCompletedPayload { hash: hash.to_string(), work },
            message,
        }
    }
}

/// Something that changes what a worker has in hand.
pub enum WorkerEvent {
    /// A job for this block is started.
    Start(Seq<char>),
    /// The job in hand is called off.
    Cancel,
    /// The time for this job has run out.
    Timeout(u64),
    /// The connection is lost.
    Loss,
    /// A session is opened.
    Open,
}

impl WorkerView {
    /// After one event.
    pub open spec fn after(self, event: WorkerEvent) -> WorkerView {
        match event {
            WorkerEvent::Start(hash) => self.after_start(hash),
            WorkerEvent::Cancel => self.after_cancel(),
            WorkerEvent::Timeout(id) => self.after_timeout(id),
            WorkerEvent::Loss => self.after_loss(),
            WorkerEvent::Open => self.after_open(),
        }
    }

    /// After a row of events.
    pub open spec fn after_all(self, events: Seq<WorkerEvent>) -> WorkerView
        decreases events.len(),
    {
        if events.len() == 0 {
            self
        } else {
            self.after_all(events.drop_last()).after(events.last())
        }
    }
}

/// Whatever happens to a worker, the job in hand is one that was started, and the count of jobs
/// never goes down; so every job gets a number that none had before.
pub proof fn law_jobs_are_numbered_apart(worker: WorkerView, events: Seq<WorkerEvent>)
    requires
        worker.valid(),
        worker.started + events.len() <= u64::MAX,
    ensures
        worker.after_all(events).valid(),
        worker.started <= worker.after_all(events).started <= worker.started + events.len(),
    decreases events.len(),
{
    if events.len() > 0 {
        law_jobs_are_numbered_apart(worker, events.drop_last());
    }
}

/// A worker works on at most one job, and starting one calls every other off.
pub proof fn law_one_job_at_a_time(worker: WorkerView, hash: Seq<char>, id: u64, other: u64)
    ensures
        worker.live(id) && worker.live(other) ==> id == other,
        worker.after_start(hash).live(id) <==> id == worker.started,
{
}

/// A job that has ended stays ended: once it was called off, timed out or was replaced, nothing
/// that can happen brings it back.
pub proof fn law_ended_jobs_stay_ended(worker: WorkerView, events: Seq<WorkerEvent>, id: u64)
    requires
        worker.valid(),
        worker.started + events.len() <= u64::MAX,
        id < worker.started,
        !worker.live(id),
    ensures
        !worker.after_all(events).live(id),
    decreases events.len(),
{
    if events.len() > 0 {
        law_ended_jobs_stay_ended(worker, events.drop_last(), id);
        law_jobs_are_numbered_apart(worker, events.drop_last());
    }
}

/// When the time for a job runs out, that job is no longer live, and a job that has replaced it
/// goes on undisturbed.
pub proof fn law_timeout_ends_its_own_job(worker: WorkerView, id: u64, other: u64)
    requires
        worker.valid(),
    ensures
        !worker.after_timeout(id).live(id),
        other != id ==> (worker.after_timeout(id).live(other) <==> worker.live(other)),
        other != id ==> (worker.after_timeout(id).timed_out(other) <==> worker.timed_out(other)),
        worker.after_timeout(id).work_hash == worker.work_hash,
{
}

/// What is found for a job after its time ran out is never handed in, whatever happens in
/// between: not if the job was replaced or called off before, and not if its block is asked for
/// again.
pub proof fn law_timed_out_work_is_never_handed_in(
    worker: WorkerView,
    id: u64,
    events: Seq<WorkerEvent>,
    solution: Solution,
)
    requires
        id < worker.started,
    ensures
        worker.after_timeout(id).after_all(events).timed_out(id),
        !worker.after_timeout(id).after_all(events).hands_in(id, solution),
    decreases events.len(),
{
    if events.len() > 0 {
        law_timed_out_work_is_never_handed_in(worker, id, events.drop_last(), solution);
    }
}

/// A job whose time has not run out is not taken for one: only its own timeout marks it.
pub proof fn law_only_its_own_timeout_marks_a_job(
    worker: WorkerView,
    id: u64,
    events: Seq<WorkerEvent>,
)
    requires
        !worker.timed_out(id),
        forall|i: int| 0 <= i < events.len() ==> #[trigger] events[i] != WorkerEvent::Timeout(id),
    ensures
        !worker.after_all(events).timed_out(id),
    decreases events.len(),
{
    if events.len() > 0 {
        law_only_its_own_timeout_marks_a_job(worker, id, events.drop_last());
        assert(events[events.len() - 1] == events.last());
        if events.last() is Timeout {
            assert(events.last()->Timeout_0 != id);
        }
    }
}

/// A session that was followed by another never becomes the one in use again.
pub proof fn law_superseded_sessions_stay_superseded(
    worker: WorkerView,
    id: nat,
    events: Seq<WorkerEvent>,
)
    requires
        id <= worker.sessions,
    ensures
        id < worker.after_open().after_all(events).sessions,
    decreases events.len(),
{
    if events.len() > 0 {
        law_superseded_sessions_stay_superseded(worker, id, events.drop_last());
    }
}

/// Calling off, disconnecting and losing the connection leave no live job.
pub proof fn law_cancel_leaves_no_live_job(worker: WorkerView, id: u64)
    ensures
        !worker.after_cancel().live(id),
        !worker.after_loss().live(id),
        worker.after_cancel().work_hash == worker.work_hash,
        worker.after_loss().work_hash is None,
{
}

/// A block that was asked for is the one remembered until another is asked for or the
/// connection is lost: calling off, running out of time and opening a session do not change it.
pub proof fn law_last_block_is_remembered(
    worker: WorkerView,
    hash: Seq<char>,
    events: Seq<WorkerEvent>,
)
    requires
        forall|i: int|
            0 <= i < events.len() ==> !((#[trigger] events[i]) is Start) && !(events[i] is Loss),
    ensures
        worker.after_start(hash).after_all(events).work_hash == Some(hash),
    decreases events.len(),
{
    if events.len() > 0 {
        law_last_block_is_remembered(worker, hash, events.drop_last());
        assert(events[events.len() - 1] == events.last());
    }
}

/// What was found for a block is dropped as stale once another block was asked for, and once
/// the connection was lost, unless the same block is asked for again.
pub proof fn law_replaced_work_is_stale(
    worker: WorkerView,
    hash: Seq<char>,
    events: Seq<WorkerEvent>,
)
    requires
        worker.work_hash != Some(hash),
        forall|i: int| 0 <= i < events.len() ==> #[trigger] events[i] != WorkerEvent::Start(hash),
    ensures
        worker.after_all(events).work_hash != Some(hash),
    decreases events.len(),
{
    if events.len() > 0 {
        law_replaced_work_is_stale(worker, hash, events.drop_last());
        assert(events[events.len() - 1] == events.last());
        if events.last() is Start {
            assert(events.last()->Start_0 != hash);
        }
    }
}

/// A nonce that some lane has found for a job proves work on the job's block, at the threshold
/// that was asked for and within the bounds; and the text that is handed in for it spells it out.
pub proof fn law_submitted_work_is_valid(
    msg: WsIncoming,
    lanes: Seq<Lane>,
    n: nat,
    lane: int,
    solution: Solution,
)
    requires
        starts_work(msg),
        are_lanes_from_some_base(
            lanes,
            msg.hash->0@,
            threshold_of(opt_text(msg.difficulty)),
            n,
        ),
        0 <= lane < n,
        solution.hash() == lanes[lane]@.hash,
        solution.threshold() == lanes[lane]@.threshold,
        solution.is_valid(),
    ensures
        solution.hash() == msg.hash->0@,
        work_value(bytes_of_hex(msg.hash->0@), solution.nonce()) >= threshold_of(
            opt_text(msg.difficulty),
        ),
        MIN_DIFFICULTY <= threshold_of(opt_text(msg.difficulty)) <= MAX_DIFFICULTY,
        is_hex_text(work_of(Some(solution))),
        le_value(bytes_of_hex(work_of(Some(solution))).reverse()) == solution.nonce(),
{
    law_work_names_its_nonce(solution.nonce(), solution.nonce());
}

/// How many jobs a row of events starts.
pub open spec fn starts_in(events: Seq<WorkerEvent>) -> nat
    decreases events.len(),
{
    if events.len() == 0 {
        0
    } else {
        starts_in(events.drop_last()) + if events.last() is Start {
            1nat
        } else {
            0
        }
    }
}

/// Each start counts as one job, and nothing else does.
pub proof fn law_only_starts_are_counted(worker: WorkerView, events: Seq<WorkerEvent>)
    requires
        worker.started + events.len() <= u64::MAX,
    ensures
        starts_in(events) <= events.len(),
        worker.after_all(events).started == worker.started + starts_in(events),
    decreases events.len(),
{
    if events.len() > 0 {
        law_only_starts_are_counted(worker, events.drop_last());
    }
}

/// Nothing has run out of time in a worker that no timeout has come to, and from then on a job
/// has exactly if its own timeout came after it was started, whatever else happened and whatever
/// its number.
pub proof fn law_timed_out_is_having_had_a_timeout(
    worker: WorkerView,
    events: Seq<WorkerEvent>,
    id: u64,
)
    requires
        worker.expired == Set::<u64>::empty(),
        worker.started + events.len() <= u64::MAX,
    ensures
        !worker.timed_out(id),
        worker.after_all(events).timed_out(id) <==> exists|i: int|
            0 <= i < events.len() && #[trigger] events[i] == WorkerEvent::Timeout(id) && id
                < worker.started + starts_in(events.take(i)),
    decreases events.len(),
{
    if events.len() > 0 {
        let before = events.drop_last();
        let n = events.len() - 1;
        law_timed_out_is_having_had_a_timeout(worker, before, id);
        law_only_starts_are_counted(worker, before);
        assert(events.take(n) =~= before);
        assert(events[n] == events.last());
        assert forall|i: int| 0 <= i < n implies before[i] == events[i] && before.take(i)
            == events.take(i) by {
            assert(before.take(i) =~= events.take(i));
        }
        if worker.after_all(before).timed_out(id) {
            let i = choose|i: int|
                0 <= i < before.len() && #[trigger] before[i] == WorkerEvent::Timeout(id) && id
                    < worker.started + starts_in(before.take(i));
            assert(events[i] == WorkerEvent::Timeout(id));
        } else if worker.after_all(events).timed_out(id) {
            assert(events.last() == WorkerEvent::Timeout(id));
            assert(events[n] == WorkerEvent::Timeout(id));
        } else {
            assert forall|i: int|
                0 <= i < events.len() && #[trigger] events[i] == WorkerEvent::Timeout(
                    id,
                ) implies id >= worker.started + starts_in(events.take(i)) by {
                if i < n {
                    assert(before[i] == WorkerEvent::Timeout(id));
                }
            }
        }
    }
}

/// What is found for a job in time is handed in, whatever the job's number: as long as its own
/// timeout has not come, the connection was not lost, and no other block was asked for since.
/// That it was called off, or that its block was asked for again, does not matter.
pub proof fn law_timely_work_is_handed_in(
    worker: WorkerView,
    hash: Seq<char>,
    events: Seq<WorkerEvent>,
    solution: Solution,
)
    requires
        worker.valid(),
        worker.started + 1 + events.len() <= u64::MAX,
        solution.hash() == hash,
        forall|i: int|
            0 <= i < events.len() ==> {
                &&& #[trigger] events[i] != WorkerEvent::Timeout(worker.started)
                &&& !(events[i] is Loss)
                &&& events[i] matches WorkerEvent::Start(other) ==> other == hash
            },
    ensures
        worker.after_start(hash).after_all(events).hands_in(worker.started, solution),
    decreases events.len(),
{
    if events.len() > 0 {
        law_timely_work_is_handed_in(worker, hash, events.drop_last(), solution);
        assert(events[events.len() - 1] == events.last());
        if events.last() is Timeout {
            assert(events.last()->Timeout_0 != worker.started);
        }
    }
}

/// A job that was started goes on until it is called off, its own time runs out, the connection
/// is lost or another is started: nothing else ends it.
pub proof fn law_nothing_else_ends_a_job(
    worker: WorkerView,
    hash: Seq<char>,
    events: Seq<WorkerEvent>,
)
    requires
        forall|i: int|
            0 <= i < events.len() ==> (#[trigger] events[i] is Open || (events[i] is Timeout
                && events[i] != WorkerEvent::Timeout(worker.started))),
    ensures
        worker.after_start(hash).after_all(events).live(worker.started),
    decreases events.len(),
{
    if events.len() > 0 {
        law_nothing_else_ends_a_job(worker, hash, events.drop_last());
        assert(events[events.len() - 1] == events.last());
        if events.last() is Timeout {
            assert(events.last()->Timeout_0 != worker.started);
        }
    }
}

/// Each event changes what it is about and leaves everything else as it was.
pub proof fn law_events_keep_to_their_own(worker: WorkerView, hash: Seq<char>, id: u64)
    ensures
        ({
            let after = worker.after_start(hash);
            &&& after.current == Some((worker.started, false))
            &&& after.work_hash == Some(hash)
            &&& worker.started < u64::MAX ==> after.started == worker.started + 1
            &&& after.expired == worker.expired
            &&& after.sessions == worker.sessions
        }),
        ({
            let after = worker.after_cancel();
            &&& after.current is None <==> worker.current is None
            &&& worker.current matches Some(job) ==> after.current == Some((job.0, true))
            &&& after.work_hash == worker.work_hash
            &&& after.started == worker.started
            &&& after.expired == worker.expired
            &&& after.sessions == worker.sessions
        }),
        ({
            let after = worker.after_timeout(id);
            &&& after.current == (if worker.current == Some((id, false)) && id < worker.started {
                Some((id, true))
            } else {
                worker.current
            })
            &&& after.work_hash == worker.work_hash
            &&& after.started == worker.started
            &&& after.expired == (if id < worker.started {
                worker.expired.insert(id)
            } else {
                worker.expired
            })
            &&& after.sessions == worker.sessions
        }),
        ({
            let after = worker.after_loss();
            &&& after.current == worker.after_cancel().current
            &&& after.work_hash is None
            &&& after.started == worker.started
            &&& after.expired == worker.expired
            &&& after.sessions == worker.sessions
        }),
        ({
            let after = worker.after_open();
            &&& after.current == worker.current
            &&& after.work_hash == worker.work_hash
            &&& after.started == worker.started
            &&& after.expired == worker.expired
            &&& after.sessions == worker.sessions + 1
        }),
{
}

/// Every payment is reported, whatever the worker is doing, with the block, the amount and the
/// transaction that the message names; what it does not name is empty, and the amount `0.010000`.
/// The work goes on undisturbed.
pub proof fn law_every_payment_is_reported(worker: WorkerView, msg: WsIncoming, reaction: Reaction)
    requires
        msg.action@ == "paid"@,
        worker.calls_for(msg, reaction),
    ensures
        reaction is Paid,
        msg.hash is Some ==> reaction->Paid_0.hash@ == msg.hash->0@,
        msg.hash is None ==> reaction->Paid_0.hash@ == ""@,
        msg.amount is Some ==> reaction->Paid_0.amount@ == msg.amount->0@,
        msg.amount is None ==> reaction->Paid_0.amount@ == "0.010000"@,
        msg.tx_hash is Some ==> reaction->Paid_0.tx_hash@ == msg.tx_hash->0@,
        msg.tx_hash is None ==> reaction->Paid_0.tx_hash@ == ""@,
        worker.after_message(msg) == worker,
{
    lemma_actions_differ();
}

/// Every ping is answered, whatever the worker is doing and whatever else the message holds, and
/// the work goes on undisturbed.
pub proof fn law_every_ping_is_answered(worker: WorkerView, msg: WsIncoming, reaction: Reaction)
    requires
        msg.action@ == "ping"@,
        worker.calls_for(msg, reaction),
    ensures
        reaction is Reply,
        reaction->Reply_0@ == "{\"action\":\"pong\"}"@,
        worker.after_message(msg) == worker,
{
    lemma_actions_differ();
}

/// When the hub calls off, no job is live any more, whatever else the message holds; the block
/// that was last given is still remembered.
pub proof fn law_hub_can_always_call_off(
    worker: WorkerView,
    msg: WsIncoming,
    reaction: Reaction,
    id: u64,
)
    requires
        msg.action@ == "cancel"@,
        worker.calls_for(msg, reaction),
    ensures
        reaction is Cancel,
        !worker.after_message(msg).live(id),
        worker.after_message(msg).work_hash == worker.work_hash,
        worker.after_message(msg).started == worker.started,
        worker.after_message(msg).expired == worker.expired,
        worker.after_message(msg).sessions == worker.sessions,
{
    lemma_actions_differ();
}

/// Work is taken on exactly when the message names a block, and a threshold within the bounds or
/// none that can be read; whatever the worker was doing before. The job is for that block and
/// threshold, is numbered as none before, and is the one in hand from then on. A threshold out of
/// bounds is turned down, and then, as without a block, nothing changes.
pub proof fn law_work_is_taken_on_within_the_bounds(
    worker: WorkerView,
    msg: WsIncoming,
    reaction: Reaction,
    threshold: u64,
)
    requires
        worker.valid(),
        msg.action@ == "work"@,
        worker.calls_for(msg, reaction),
        threshold == (if msg.difficulty is Some && difficulty_of(msg.difficulty->0@) is Some {
            difficulty_of(msg.difficulty->0@)->0
        } else {
            0xfffff00000000000
        }),
    ensures
        msg.hash is None ==> reaction is Ignore && worker.after_message(msg) == worker,
        msg.hash is Some && (threshold < 0xffffe00000000000 || threshold > 0xfffff80000000000)
            ==> reaction == (Reaction::Reject { threshold }) && worker.after_message(msg) == worker,
        msg.hash is Some && 0xffffe00000000000 <= threshold <= 0xfffff80000000000 ==> {
            let after = worker.after_message(msg);
            &&& reaction matches Reaction::Start { job, started }
            &&& job.hash@ == msg.hash->0@
            &&& job.threshold == threshold
            &&& started.hash@ == msg.hash->0@
            &&& job.id == worker.started
            &&& !worker.live(job.id)
            &&& !worker.timed_out(job.id)
            &&& after.live(job.id)
            &&& !after.timed_out(job.id)
            &&& after.work_hash == Some(msg.hash->0@)
            &&& worker.started < u64::MAX ==> after.started == worker.started + 1
            &&& after.expired == worker.expired
            &&& after.sessions == worker.sessions
        },
{
    lemma_actions_differ();
}

/// A message about anything else is ignored.
pub proof fn law_anything_else_is_ignored(worker: WorkerView, msg: WsIncoming, reaction: Reaction)
    requires
        msg.action@ != "work"@,
        msg.action@ != "cancel"@,
        msg.action@ != "paid"@,
        msg.action@ != "ping"@,
        worker.calls_for(msg, reaction),
    ensures
        reaction is Ignore,
        worker.after_message(msg) == worker,
{
}

/// A job's end as the user and the hub see it: without a find, or after its timeout, nothing;
/// with one for another block than the last that was given, nothing either; and otherwise the
/// block and the nonce's sixteen digits, told to the user and sent to the hub.
pub proof fn law_what_finishing_hands_in(
    worker: WorkerView,
    id: u64,
    outcome: Option<Solution>,
    finished: Finished,
)
    requires
        worker.finishes(id, outcome, finished),
    ensures
        outcome is None ==> finished is Abandoned,
        worker.expired.contains(id) ==> finished is Abandoned,
        outcome matches Some(solution) ==> !worker.expired.contains(id) ==> if worker.work_hash
            == Some(solution.hash()) {
            &&& finished matches Finished::Submit { completed, message }
            &&& completed.hash@ == solution.hash()
            &&& completed.work@.len() == 16
            &&& difficulty_of(completed.work@) == Some(solution.nonce())
            &&& message@ == "{\"hash\":\""@ + escaped(solution.hash()) + "\",\"work\":\""@
                + completed.work@ + "\"}"@
        } else {
            finished is Stale
        },
{
    if let Some(solution) = outcome {
        let work = nonce_text(solution.nonce());
        law_result_holds_block_and_work(solution.hash(), work);
        law_work_is_a_numeral(solution, 0);
        assert forall|i: int| 0 <= i < work.len() implies #[trigger] work[i] as int > 0x1f
            && work[i] != '"' && work[i] != '\\' by {
            law_work_is_a_numeral(solution, i);
            law_hex_digits(0, work[i]);
            assert(work_of(Some(solution))[i] == work[i]);
        }
        law_plain_text_stands_for_itself(work);
    }
}

/// From start to finish: what is found for a job in time is sent to the hub, with the job's own
/// block, as long as the connection was not lost and no other block was asked for since.
pub proof fn law_timely_work_is_sent(
    worker: WorkerView,
    hash: Seq<char>,
    events: Seq<WorkerEvent>,
    solution: Solution,
    finished: Finished,
)
    requires
        worker.valid(),
        worker.started + 1 + events.len() <= u64::MAX,
        solution.hash() == hash,
        forall|i: int|
            0 <= i < events.len() ==> {
                &&& #[trigger] events[i] != WorkerEvent::Timeout(worker.started)
                &&& !(events[i] is Loss)
                &&& events[i] matches WorkerEvent::Start(other) ==> other == hash
            },
        worker.after_start(hash).after_all(events).finishes(
            worker.started,
            Some(solution),
            finished,
        ),
    ensures
        finished matches Finished::Submit { completed, message } && completed.hash@ == hash
            && difficulty_of(completed.work@) == Some(solution.nonce()),
{
    law_timely_work_is_handed_in(worker, hash, events, solution);
    law_what_finishing_hands_in(
        worker.after_start(hash).after_all(events),
        worker.started,
        Some(solution),
        finished,
    );
}

} // verus!
