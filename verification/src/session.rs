//! The connection to the hub: opening it, opening it again when it is lost, and noticing that it
//! has gone silent.
//!
//! A session waits for one thing at a time, and each event that it waits for calls for one
//! action. While the connection cannot be had back it waits twice as long before each attempt,
//! up to a minute, and gives up after ten attempts in a row. Every connection that is taken into
//! use is watched for silence from then on. Opening a session puts an end to the one before:
//! whatever still happens to that one, it neither acts nor touches the worker.

use crate::json::{
    escaped, law_registration_holds_the_address, registration_message, registration_text,
};
use crate::text::{decimal, decimal_text, law_decimal_digits};
use crate::worker::{
    law_every_payment_is_reported, law_every_ping_is_answered, law_hub_can_always_call_off,
    law_superseded_sessions_stay_superseded, starts_work, Reaction, WorkerEvent, WorkerState,
    WorkerView, WsIncoming,
};
use vstd::arithmetic::power2::{lemma_pow2_pos, lemma_pow2_unfold, pow2};
use vstd::prelude::*;
use vstd::string::*;

verus! {

/// How many attempts in a row may fail.
pub const MAX_RECONNECT_RETRIES: u32 = 10;

/// The longest wait before an attempt, in seconds.
pub const MAX_BACKOFF_SECS: u64 = 60;

/// How long the hub may be silent, in seconds.
pub const PING_TIMEOUT_SECS: u64 = 90;

/// How often silence is looked for, in seconds.
pub const WATCHDOG_INTERVAL_SECS: u64 = 15;

/// Tells the user how the connection stands.
#[derive(Debug)]
pub struct ConnectionStatusPayload {
    pub connected: bool,
    pub message: String,
}

impl ConnectionStatusPayload {
    /// What is told.
    pub open spec fn says(self, connected: bool, message: Seq<char>) -> bool {
        self.connected == connected && self.message@ == message
    }
}

/// What a session is waiting for.
#[derive(Debug, Clone, Copy, PartialEq, Eq, Structural)]
pub enum Phase {
    /// The first connection.
    Opening,
    /// The first registration to be sent.
    Enrolling,
    /// The stream to end.
    Listening,
    /// The time before an attempt to pass.
    Waiting,
    /// A new connection.
    Connecting,
    /// The registration on a new connection to be sent.
    Registering,
    /// Nothing any more.
    Stopped,
}

/// Something that a session waits for.
#[derive(Debug)]
pub enum LinkEvent {
    /// There is a connection.
    Connected,
    /// There is none.
    ConnectFailed { reason: String },
    /// The registration was sent, at this time of a steady clock, in milliseconds.
    Registered { now: u64 },
    /// The registration was not sent.
    RegisterFailed { reason: String },
    /// The hub has closed the stream, or it broke.
    StreamEnded,
    /// The time before an attempt has passed.
    Waited,
}

impl LinkEvent {
    /// Whether a connection or a registration has failed.
    pub fn is_failure(&self) -> (failure: bool)
        ensures
            failure == (self is ConnectFailed || self is RegisterFailed),
    {
        match self {
            LinkEvent::ConnectFailed { .. } | LinkEvent::RegisterFailed { .. } => true,
            _ => false,
        }
    }
}

/// What comes out of the stream.
#[derive(Debug)]
pub enum Frame {
    /// A text.
    Text,
    /// The hub closes the stream.
    Close,
    /// The stream is broken.
    Broken,
    /// There is nothing more to come.
    Ended,
    /// Anything else.
    Other,
}

/// What is to be done with what came out of the stream.
#[derive(Debug)]
pub enum FrameStep {
    /// Take the text in as a message.
    Handle,
    /// Read on.
    Skip,
    /// Stop reading: the stream has ended.
    End,
}

/// Tells texts, which are taken in, from what ends the stream, and from what is passed over.
pub fn sort_frame(frame: &Frame) -> (next: FrameStep)
    ensures
        next is Handle <==> frame is Text,
        next is Skip <==> frame is Other,
        next is End <==> (frame is Close || frame is Broken || frame is Ended),
{
    match frame {
        Frame::Text => FrameStep::Handle,
        Frame::Other => FrameStep::Skip,
        Frame::Close | Frame::Broken | Frame::Ended => FrameStep::End,
    }
}

/// What is to be done next.
#[derive(Debug)]
pub enum LinkAction {
    /// Connect to the hub.
    Connect,
    /// Send this on the new connection.
    Register { text: String },
    /// Make the new connection the one in use, tell the user, and read from it.
    Adopt { status: ConnectionStatusPayload },
    /// Go on reading from the stream that was in use last.
    Listen,
    /// Drop the connection, tell the user, and wait.
    Wait { status: ConnectionStatusPayload, secs: u64 },
    /// Drop the connection, tell the user, and end the session.
    Stop { status: ConnectionStatusPayload },
    /// There is no session, for this reason.
    Fail { error: String },
    /// Another session has taken over: do nothing more, and leave the connection in use alone.
    End,
}

/// The wait before an attempt, in seconds: one before the first, twice as long before each that
/// follows, and at most a minute.
pub open spec fn delay(attempt: nat) -> nat {
    let doubled = pow2((attempt - 1) as nat);
    if doubled < MAX_BACKOFF_SECS {
        doubled
    } else {
        MAX_BACKOFF_SECS as nat
    }
}

/// What the user is told before an attempt.
pub open spec fn waiting_message(attempt: nat) -> Seq<char> {
    "Disconnected. Reconnecting in "@ + decimal(delay(attempt)) + "s... (attempt "@ + decimal(
        attempt,
    ) + "/"@ + decimal(MAX_RECONNECT_RETRIES as nat) + ")"@
}

/// What the user is told after the last attempt.
pub open spec fn stopped_message() -> Seq<char> {
    "Failed after "@ + decimal(MAX_RECONNECT_RETRIES as nat) + " consecutive retries. Stopped."@
}

/// The events that a session can meet with in a phase.
pub open spec fn fits(phase: Phase, event: LinkEvent) -> bool {
    match event {
        LinkEvent::Connected => phase == Phase::Opening || phase == Phase::Connecting,
        LinkEvent::ConnectFailed { .. } => phase == Phase::Opening || phase == Phase::Connecting,
        LinkEvent::Registered { .. } => phase == Phase::Enrolling || phase == Phase::Registering,
        LinkEvent::RegisterFailed { .. } => phase == Phase::Enrolling || phase
            == Phase::Registering,
        LinkEvent::StreamEnded => phase == Phase::Listening,
        LinkEvent::Waited => phase == Phase::Waiting,
    }
}

/// The hub has been silent for too long.
pub open spec fn too_silent(silent_millis: int) -> bool {
    silent_millis >= PING_TIMEOUT_SECS * 1000
}

/// Where a session stands.
pub struct SessionView {
    /// Its number: no two sessions of a worker have the same.
    pub id: nat,
    /// The address that the worker registers with.
    pub address: Seq<char>,
    /// What it is waiting for.
    pub phase: Phase,
    /// How often in a row the connection was lost or could not be had back.
    pub retries: nat,
    /// The connection is watched for silence.
    pub watched: bool,
    /// When the hub was last heard of, in milliseconds.
    pub heard: u64,
}

impl SessionView {
    /// No other session has taken over.
    pub open spec fn in_use(self, worker: WorkerView) -> bool {
        self.id == worker.sessions
    }

    /// The count of losses stays within its bound, which is passed only on stopping.
    pub open spec fn valid(self) -> bool {
        match self.phase {
            Phase::Opening | Phase::Enrolling => self.retries == 0,
            Phase::Listening => self.retries <= MAX_RECONNECT_RETRIES,
            Phase::Waiting | Phase::Connecting | Phase::Registering => 1 <= self.retries
                <= MAX_RECONNECT_RETRIES,
            Phase::Stopped => self.retries <= MAX_RECONNECT_RETRIES + 1,
        }
    }

    /// The connection is being opened for the first time.
    pub open spec fn is_first(self) -> bool {
        self.phase == Phase::Opening || self.phase == Phase::Enrolling
    }

    /// After an event, if no other session has taken over.
    pub open spec fn after(self, event: LinkEvent) -> SessionView {
        match event {
            LinkEvent::Connected => SessionView {
                phase: if self.is_first() {
                    Phase::Enrolling
                } else {
                    Phase::Registering
                },
                ..self
            },
            LinkEvent::ConnectFailed { .. } | LinkEvent::RegisterFailed { .. } => SessionView {
                phase: if self.is_first() {
                    Phase::Stopped
                } else {
                    Phase::Listening
                },
                ..self
            },
            LinkEvent::Registered { now } => SessionView {
                phase: Phase::Listening,
                retries: 0,
                watched: true,
                heard: now,
                ..self
            },
            LinkEvent::StreamEnded => SessionView {
                phase: if self.retries < MAX_RECONNECT_RETRIES {
                    Phase::Waiting
                } else {
                    Phase::Stopped
                },
                retries: self.retries + 1,
                ..self
            },
            LinkEvent::Waited => SessionView { phase: Phase::Connecting, ..self },
        }
    }

    /// What an event calls for, if no other session has taken over.
    pub open spec fn calls_for(self, event: LinkEvent, action: LinkAction) -> bool {
        match event {
            LinkEvent::Connected => {
                &&& action matches LinkAction::Register { text }
                &&& text@ == registration_message(self.address)
            },
            LinkEvent::ConnectFailed { reason } => if self.is_first() {
                &&& action matches LinkAction::Fail { error }
                &&& error@ == "WebSocket connect failed: "@ + reason@
            } else {
                action is Listen
            },
            LinkEvent::Registered { .. } => {
                &&& action matches LinkAction::Adopt { status }
                &&& status.says(
                    true,
                    if self.is_first() {
                        "Connected to worker hub."@
                    } else {
                        "Reconnected to worker hub."@
                    },
                )
            },
            LinkEvent::RegisterFailed { reason } => if self.is_first() {
                &&& action matches LinkAction::Fail { error }
                &&& error@ == "Registration send failed: "@ + reason@
            } else {
                action is Listen
            },
            LinkEvent::StreamEnded => if self.retries < MAX_RECONNECT_RETRIES {
                &&& action matches LinkAction::Wait { status, secs }
                &&& secs == delay(self.retries + 1)
                &&& status.says(false, waiting_message(self.retries + 1))
            } else {
                &&& action matches LinkAction::Stop { status }
                &&& status.says(false, stopped_message())
            },
            LinkEvent::Waited => action is Connect,
        }
    }

    /// A look at `now` finds the connection too silent.
    pub open spec fn expires(self, now: int) -> bool {
        self.phase != Phase::Stopped && self.watched && too_silent(now - self.heard)
    }

    /// The first connection, or the registration on it, has failed.
    pub open spec fn fails_to_open(self, event: LinkEvent) -> bool {
        self.is_first() && (event is ConnectFailed || event is RegisterFailed)
    }

    /// How a session and its worker take an event in. A session that another has taken over from
    /// stops, and leaves the worker as it is; but one that could not be opened in the first place
    /// still says why.
    pub open spec fn advances(
        self,
        worker: WorkerView,
        event: LinkEvent,
        next: SessionView,
        next_worker: WorkerView,
        action: LinkAction,
    ) -> bool {
        if self.in_use(worker) {
            &&& next == self.after(event)
            &&& next_worker == (if event is StreamEnded {
                worker.after_loss()
            } else {
                worker
            })
            &&& self.calls_for(event, action)
        } else {
            &&& next == (SessionView { phase: Phase::Stopped, ..self })
            &&& next_worker == worker
            &&& if self.fails_to_open(event) {
                self.calls_for(event, action)
            } else {
                action is End
            }
        }
    }

    /// How a session and its worker take a message in, or a text that is no message. Either is a
    /// sign of life. What comes in on a session that another has taken over from is ignored.
    pub open spec fn receives(
        self,
        worker: WorkerView,
        now: u64,
        msg: Option<WsIncoming>,
        next: SessionView,
        next_worker: WorkerView,
        reaction: Reaction,
    ) -> bool {
        if self.in_use(worker) {
            &&& next == (SessionView { heard: now, ..self })
            &&& match msg {
                Some(msg) => {
                    &&& next_worker == worker.after_message(msg)
                    &&& worker.calls_for(msg, reaction)
                },
                None => {
                    &&& next_worker == worker
                    &&& reaction is Ignore
                },
            }
        } else {
            &&& next == self
            &&& next_worker == worker
            &&& reaction is Ignore
        }
    }

    /// How a session and its worker stand a look for silence. One that is too silent has its job
    /// called off, and is not looked at again until there is a new connection.
    pub open spec fn looks(
        self,
        worker: WorkerView,
        now: u64,
        next: SessionView,
        next_worker: WorkerView,
        out: Watch,
    ) -> bool {
        if self.phase == Phase::Stopped || !self.in_use(worker) {
            &&& next == self
            &&& next_worker == worker
            &&& out is End
        } else if self.expires(now as int) {
            &&& next == (SessionView { watched: false, ..self })
            &&& next_worker == worker.after_cancel()
            &&& out matches Watch::Expire { status }
            &&& status.says(false, "Connection stale (no ping). Reconnecting..."@)
        } else {
            &&& next == self
            &&& next_worker == worker
            &&& out is Go
        }
    }
}

/// What is to be done when silence was looked for.
#[derive(Debug)]
pub enum Watch {
    /// Stop looking: the session has ended.
    End,
    /// Go on looking.
    Go,
    /// Drop the connection, tell the user, and go on looking.
    Expire { status: ConnectionStatusPayload },
}

/// A session with the hub.
pub struct Session {
    id: u64,
    address: String,
    phase: Phase,
    backoff_secs: u64,
    consecutive_retries: u32,
    watched: bool,
    heard: u64,
}

impl View for Session {
    type V = SessionView;

    closed spec fn view(&self) -> SessionView {
        SessionView {
            id: self.id as nat,
            address: self.address@,
            phase: self.phase,
            retries: self.consecutive_retries as nat,
            watched: self.watched,
            heard: self.heard,
        }
    }
}

/// Each wait is twice the one before, up to the longest.
proof fn lemma_delay_step(attempt: nat)
    requires
        attempt >= 1,
    ensures
        1 <= delay(attempt) <= MAX_BACKOFF_SECS,
        delay(1) == 1,
        delay(attempt + 1) == (if 2 * delay(attempt) < MAX_BACKOFF_SECS {
            2 * delay(attempt)
        } else {
            MAX_BACKOFF_SECS as nat
        }),
{
    lemma_pow2_pos((attempt - 1) as nat);
    lemma_pow2_unfold(attempt);
    vstd::arithmetic::power2::lemma2_to64();
}

/// What the user is told before an attempt.
fn waiting_text(secs: u64, attempt: u32) -> (out: String)
    requires
        secs == delay(attempt as nat),
    ensures
        out@ == waiting_message(attempt as nat),
{
    let mut out: String = "Disconnected. Reconnecting in ".to_string();
    out.append(decimal_text(secs).as_str());
    out.append("s... (attempt ");
    out.append(decimal_text(attempt as u64).as_str());
    out.append("/");
    out.append(decimal_text(MAX_RECONNECT_RETRIES as u64).as_str());
    out.append(")");
    out
}

/// What the user is told after the last attempt.
fn stopped_text() -> (out: String)
    ensures
        out@ == stopped_message(),
{
    let mut out: String = "Failed after ".to_string();
    out.append(decimal_text(MAX_RECONNECT_RETRIES as u64).as_str());
    out.append(" consecutive retries. Stopped.");
    out
}

/// A status for the user.
fn status(connected: bool, message: &str) -> (out: ConnectionStatusPayload)
    ensures
        out.says(connected, message@),
{
    ConnectionStatusPayload { connected, message: message.to_string() }
}

impl Session {
    #[verifier::type_invariant]
    spec fn type_inv(self) -> bool {
        &&& self@.valid()
        &&& self.backoff_secs == delay(self@.retries + 1)
    }

    /// A session for an address, which takes over from the worker's session before. The job in
    /// hand is left alone. The first thing to do is to connect.
    pub fn open(worker: &mut WorkerState, address: &str) -> (session: Session)
        requires
            old(worker)@.sessions < u64::MAX,
        ensures
            final(worker)@ == old(worker)@.after_open(),
            session@ == (SessionView {
                id: final(worker)@.sessions,
                address: address@,
                phase: Phase::Opening,
                retries: 0,
                watched: false,
                heard: 0,
            }),
            session@.valid(),
            session@.in_use(final(worker)@),
    {
        proof {
            lemma_delay_step(1);
        }
        let id: u64 = worker.open_session();
        Session {
            id,
            address: address.to_string(),
            phase: Phase::Opening,
            backoff_secs: 1,
            consecutive_retries: 0,
            watched: false,
            heard: 0,
        }
    }

    /// Whether the session can meet with an event now.
    pub fn expects(&self, event: &LinkEvent) -> (fit: bool)
        ensures
            fit == fits(self@.phase, *event),
    {
        match event {
            LinkEvent::Connected | LinkEvent::ConnectFailed { .. } => match self.phase {
                Phase::Opening | Phase::Connecting => true,
                _ => false,
            },
            LinkEvent::Registered { .. } | LinkEvent::RegisterFailed { .. } => match self.phase {
                Phase::Enrolling | Phase::Registering => true,
                _ => false,
            },
            LinkEvent::StreamEnded => match self.phase {
                Phase::Listening => true,
                _ => false,
            },
            LinkEvent::Waited => match self.phase {
                Phase::Waiting => true,
                _ => false,
            },
        }
    }

    /// Whether the connection is being opened for the first time.
    fn opens(&self) -> (first: bool)
        ensures
            first == self@.is_first(),
    {
        match self.phase {
            Phase::Opening | Phase::Enrolling => true,
            _ => false,
        }
    }

    /// Goes on to a phase that is in place with the same count of losses.
    fn go_to(&mut self, phase: Phase)
        requires
            (SessionView { phase, ..old(self)@ }).valid(),
        ensures
            final(self)@ == (SessionView { phase, ..old(self)@ }),
    {
        proof {
            use_type_invariant(&*self);
        }
        self.phase = phase;
    }

    /// Takes an event in, and says what it calls for. When the stream ends, the worker's job is
    /// called off and its block forgotten. A session that another has taken over from ends, with
    /// an error if it is its own opening that has failed.
    pub fn advance(&mut self, worker: &mut WorkerState, event: LinkEvent) -> (action: LinkAction)
        requires
            fits(old(self)@.phase, event),
        ensures
            old(self)@.advances(old(worker)@, event, final(self)@, final(worker)@, action),
            final(self)@.valid(),
            event is Connected && old(self)@.id == old(worker)@.sessions ==> {
                &&& action matches LinkAction::Register { text }
                &&& text@ == registration_message(old(self)@.address)
            },
            final(self)@.address == old(self)@.address,
    {
        proof {
            use_type_invariant(&*self);
        }
        let first: bool = self.opens();
        if self.id != worker.session() && !(first && event.is_failure()) {
            self.go_to(Phase::Stopped);
            return LinkAction::End;
        }
        match event {
            LinkEvent::Connected => {
                let text: String = registration_text(self.address.as_str());
                self.go_to(
                    if first {
                        Phase::Enrolling
                    } else {
                        Phase::Registering
                    },
                );
                LinkAction::Register { text }
            },
            LinkEvent::ConnectFailed { reason } => {
                if first {
                    self.go_to(Phase::Stopped);
                    let mut error: String = "WebSocket connect failed: ".to_string();
                    error.append(reason.as_str());
                    LinkAction::Fail { error }
                } else {
                    self.go_to(Phase::Listening);
                    LinkAction::Listen
                }
            },
            LinkEvent::RegisterFailed { reason } => {
                if first {
                    self.go_to(Phase::Stopped);
                    let mut error: String = "Registration send failed: ".to_string();
                    error.append(reason.as_str());
                    LinkAction::Fail { error }
                } else {
                    self.go_to(Phase::Listening);
                    LinkAction::Listen
                }
            },
            LinkEvent::Registered { now } => {
                proof {
                    lemma_delay_step(1);
                }
                *self = Session {
                    id: self.id,
                    address: self.address.clone(),
                    phase: Phase::Listening,
                    backoff_secs: 1,
                    consecutive_retries: 0,
                    watched: true,
                    heard: now,
                };
                if first {
                    LinkAction::Adopt { status: status(true, "Connected to worker hub.") }
                } else {
                    LinkAction::Adopt { status: status(true, "Reconnected to worker hub.") }
                }
            },
            LinkEvent::StreamEnded => {
                worker.connection_lost();
                let retries: u32 = self.consecutive_retries + 1;
                let secs: u64 = self.backoff_secs;
                proof {
                    lemma_delay_step(retries as nat);
                }
                let doubled: u64 = secs * 2;
                let backoff_secs: u64 = if doubled < MAX_BACKOFF_SECS {
                    doubled
                } else {
                    MAX_BACKOFF_SECS
                };
                let given_up: bool = retries > MAX_RECONNECT_RETRIES;
                *self = Session {
                    id: self.id,
                    address: self.address.clone(),
                    phase: if given_up {
                        Phase::Stopped
                    } else {
                        Phase::Waiting
                    },
                    backoff_secs,
                    consecutive_retries: retries,
                    watched: self.watched,
                    heard: self.heard,
                };
                if given_up {
                    LinkAction::Stop { status: status(false, stopped_text().as_str()) }
                } else {
                    LinkAction::Wait {
                        status: status(false, waiting_text(secs, retries).as_str()),
                        secs,
                    }
                }
            },
            LinkEvent::Waited => {
                self.go_to(Phase::Connecting);
                LinkAction::Connect
            },
        }
    }

    /// Takes a message in that came at `now`, and says what it calls for; `None` is a text that
    /// is no message. On a session that another has taken over from, nothing comes of it.
    pub fn receive(&mut self, worker: &mut WorkerState, now: u64, msg: Option<WsIncoming>) -> (
        reaction: Reaction)
        requires
            old(self)@.in_use(old(worker)@) ==> (msg matches Some(m) ==> starts_work(m) ==> old(
                worker,
            )@.started < u64::MAX),
        ensures
            old(self)@.receives(
                old(worker)@,
                now,
                msg,
                final(self)@,
                final(worker)@,
                reaction,
            ),
            final(self)@.heard == (if old(self)@.id == old(worker)@.sessions {
                now
            } else {
                old(self)@.heard
            }),
    {
        if self.id != worker.session() {
            return Reaction::Ignore;
        }
        proof {
            use_type_invariant(&*self);
        }
        self.heard = now;
        match msg {
            Some(msg) => worker.handle_message(msg),
            None => Reaction::Ignore,
        }
    }

    /// Looks for silence at `now`. A connection that has gone silent is given up, and the job in
    /// hand called off.
    pub fn look(&mut self, worker: &mut WorkerState, now: u64) -> (out: Watch)
        ensures
            old(self)@.looks(old(worker)@, now, final(self)@, final(worker)@, out),
            out is Expire <==> {
                &&& old(self)@.id == old(worker)@.sessions
                &&& old(self)@.phase != Phase::Stopped
                &&& old(self)@.watched
                &&& now >= old(self)@.heard + 90_000
            },
    {
        let stopped: bool = match self.phase {
            Phase::Stopped => true,
            _ => false,
        };
        if stopped || self.id != worker.session() {
            return Watch::End;
        }
        if self.watched && now >= self.heard && now - self.heard >= PING_TIMEOUT_SECS * 1000 {
            proof {
                use_type_invariant(&*self);
            }
            self.watched = false;
            worker.cancel();
            return Watch::Expire {
                status: status(false, "Connection stale (no ping). Reconnecting..."),
            };
        }
        Watch::Go
    }
}

/// The first wait is one second, each further one is twice as long, and none is longer than a
/// minute or shorter than the one before.
pub proof fn law_waits_double_up_to_a_minute(attempt: nat)
    requires
        attempt >= 1,
    ensures
        delay(1) == 1,
        delay(attempt + 1) == (if 2 * delay(attempt) < MAX_BACKOFF_SECS {
            2 * delay(attempt)
        } else {
            MAX_BACKOFF_SECS as nat
        }),
        1 <= delay(attempt) <= delay(attempt + 1) <= MAX_BACKOFF_SECS,
{
    lemma_delay_step(attempt);
    lemma_delay_step(attempt + 1);
}

/// Whatever a session meets with, its count of losses stays within the bound, and it keeps its
/// address.
pub proof fn law_session_stays_valid(session: SessionView, event: LinkEvent)
    requires
        session.valid(),
        fits(session.phase, event),
    ensures
        session.after(event).valid(),
        session.after(event).address == session.address,
{
}

/// A new registration wipes every earlier failure out: the session is as if it had just been
/// opened, and the next wait is the shortest.
pub proof fn law_success_starts_over(session: SessionView, now: u64, action: LinkAction)
    requires
        session.after(LinkEvent::Registered { now }).calls_for(LinkEvent::StreamEnded, action),
    ensures
        session.after(LinkEvent::Registered { now }).retries == 0,
        action matches LinkAction::Wait { status, secs } && secs == 1,
{
    lemma_delay_step(1);
}

/// One more loss and one more attempt that fails: the stream ends, the wait passes, and either no
/// connection can be had, or the registration cannot be sent on it.
pub open spec fn after_failed_round(
    session: SessionView,
    connected: bool,
    reason: String,
) -> SessionView {
    let trying = session.after(LinkEvent::StreamEnded).after(LinkEvent::Waited);
    if connected {
        trying.after(LinkEvent::Connected).after(LinkEvent::RegisterFailed { reason })
    } else {
        trying.after(LinkEvent::ConnectFailed { reason })
    }
}

/// After a row of attempts that failed, each at connecting or at registering.
pub open spec fn after_failed_rounds(
    session: SessionView,
    connected: Seq<bool>,
    reason: String,
) -> SessionView
    decreases connected.len(),
{
    if connected.len() == 0 {
        session
    } else {
        after_failed_round(
            after_failed_rounds(session, connected.drop_last(), reason),
            connected.last(),
            reason,
        )
    }
}

/// Ten attempts in a row, no more and no fewer: after each of the first ten losses the session
/// waits and tries again, and after the eleventh it stops.
pub proof fn law_ten_attempts_in_a_row(
    session: SessionView,
    connected: Seq<bool>,
    reason: String,
)
    requires
        session.phase == Phase::Listening,
        session.retries == 0,
        connected.len() <= MAX_RECONNECT_RETRIES,
    ensures
        after_failed_rounds(session, connected, reason) == (SessionView {
            retries: connected.len(),
            ..session
        }),
        after_failed_rounds(session, connected, reason).after(LinkEvent::StreamEnded).phase == (
        if connected.len() < MAX_RECONNECT_RETRIES {
            Phase::Waiting
        } else {
            Phase::Stopped
        }),
    decreases connected.len(),
{
    if connected.len() > 0 {
        law_ten_attempts_in_a_row(session, connected.drop_last(), reason);
    }
}

/// Something that happens to a session.
pub enum SessionStep {
    /// An event.
    Event(LinkEvent),
    /// A message, at this time.
    Message(u64),
    /// A look for silence, at this time.
    Look(u64),
}

impl SessionView {
    /// After a step, if no other session has taken over.
    pub open spec fn after_step(self, step: SessionStep) -> SessionView {
        match step {
            SessionStep::Event(event) => self.after(event),
            SessionStep::Message(now) => SessionView { heard: now, ..self },
            SessionStep::Look(now) => SessionView {
                watched: self.watched && !self.expires(now as int),
                ..self
            },
        }
    }

    /// After a row of steps.
    pub open spec fn after_steps(self, steps: Seq<SessionStep>) -> SessionView
        decreases steps.len(),
    {
        if steps.len() == 0 {
            self
        } else {
            self.after_steps(steps.drop_last()).after_step(steps.last())
        }
    }

    /// None of the looks in a row of steps finds the connection too silent.
    pub open spec fn never_expires(self, steps: Seq<SessionStep>) -> bool
        decreases steps.len(),
    {
        steps.len() > 0 ==> {
            &&& self.never_expires(steps.drop_last())
            &&& steps.last() matches SessionStep::Look(now) ==> !self.after_steps(
                steps.drop_last(),
            ).expires(now as int)
        }
    }
}

/// Every connection that is taken into use is watched, the first one and each that was had back,
/// whether or not one before was found silent: silence is counted from the registration on, and
/// the watch goes on until a look finds the connection too silent.
pub proof fn law_every_connection_is_watched(
    session: SessionView,
    now: u64,
    steps: Seq<SessionStep>,
)
    requires
        session.after(LinkEvent::Registered { now }).never_expires(steps),
    ensures
        session.after(LinkEvent::Registered { now }).heard == now,
        session.after(LinkEvent::Registered { now }).after_steps(steps).watched,
    decreases steps.len(),
{
    if steps.len() > 0 {
        law_every_connection_is_watched(session, now, steps.drop_last());
    }
}

/// The steps are what taking in an event, a message and a look do to a session in use.
pub proof fn law_steps_are_what_happens(
    session: SessionView,
    worker: WorkerView,
    event: LinkEvent,
    msg: Option<WsIncoming>,
    now: u64,
    next: SessionView,
    next_worker: WorkerView,
    action: LinkAction,
    reaction: Reaction,
    out: Watch,
)
    requires
        session.in_use(worker),
    ensures
        session.advances(worker, event, next, next_worker, action) ==> next == session.after_step(
            SessionStep::Event(event),
        ),
        session.receives(worker, now, msg, next, next_worker, reaction) ==> next
            == session.after_step(SessionStep::Message(now)),
        session.looks(worker, now, next, next_worker, out) ==> next == session.after_step(
            SessionStep::Look(now),
        ),
        session.looks(worker, now, next, next_worker, out) ==> (out is Expire <==> session.expires(
            now as int,
        )),
{
}

/// When silence is looked for, for the `k`-th time after the first, in milliseconds.
pub open spec fn look_time(first: int, k: nat) -> int {
    first + 1000 * (k * WATCHDOG_INTERVAL_SECS)
}

/// Silence is noticed in time: if a watched connection is not heard of any more, and silence is
/// looked for at regular intervals from `first` on, then the looks leave it alone until one of
/// them finds it too silent, and that one comes less than an interval after it has become so.
pub proof fn law_silence_is_noticed(session: SessionView, first: int)
    requires
        session.watched,
        session.phase != Phase::Stopped,
        first <= session.heard + PING_TIMEOUT_SECS * 1000,
    ensures
        exists|k: nat|
            {
                &&& session.expires(#[trigger] look_time(first, k))
                &&& look_time(first, k) < session.heard + (PING_TIMEOUT_SECS
                    + WATCHDOG_INTERVAL_SECS) * 1000
                &&& forall|j: nat| j < k ==> !session.expires(#[trigger] look_time(first, j))
            },
{
    let gap: int = session.heard + PING_TIMEOUT_SECS * 1000 - first;
    let k: nat = ((gap + 14_999) / 15_000) as nat;
    assert(session.expires(look_time(first, k)));
    assert forall|j: nat| j < k implies !session.expires(#[trigger] look_time(first, j)) by {}
}

/// Opening a session puts an end to the one before, and to all before that: whatever happens to
/// the worker afterwards, and whatever the old session still meets with, it makes no attempt to
/// connect, wait or register, no message that comes in on it is acted upon, its watch ends, and
/// the worker's job and block are left alone. All that can still come of it is the error of one
/// that could not be opened itself.
pub proof fn law_opening_ends_earlier_sessions(
    session: SessionView,
    before: WorkerView,
    events: Seq<WorkerEvent>,
    event: LinkEvent,
    msg: Option<WsIncoming>,
    now: u64,
    next: SessionView,
    next_worker: WorkerView,
    action: LinkAction,
    reaction: Reaction,
    out: Watch,
)
    requires
        session.id <= before.sessions,
    ensures
        ({
            let worker = before.after_open().after_all(events);
            &&& !session.in_use(worker)
            &&& session.advances(worker, event, next, next_worker, action) ==> {
                &&& if session.fails_to_open(event) {
                    action is Fail
                } else {
                    action is End
                }
                &&& next.phase == Phase::Stopped
                &&& next_worker == worker
            }
            &&& session.receives(worker, now, msg, next, next_worker, reaction) ==> reaction
                is Ignore && next_worker == worker
            &&& session.looks(worker, now, next, next_worker, out) ==> out is End && next_worker
                == worker
        }),
{
    law_superseded_sessions_stay_superseded(before, session.id, events);
}

/// A row of steps can be taken in two parts.
proof fn lemma_steps_in_two_parts(
    session: SessionView,
    first: Seq<SessionStep>,
    second: Seq<SessionStep>,
)
    ensures
        session.after_steps(first + second) == session.after_steps(first).after_steps(second),
    decreases second.len(),
{
    if second.len() == 0 {
        assert(first + second =~= first);
    } else {
        lemma_steps_in_two_parts(session, first, second.drop_last());
        assert((first + second).drop_last() =~= first + second.drop_last());
        assert((first + second).last() == second.last());
    }
}

/// Every registration, the first one and each after any number of losses, holds the address that
/// the session was opened with, and nothing but that: whatever the session has been through.
pub proof fn law_every_registration_names_the_address(
    session: SessionView,
    steps: Seq<SessionStep>,
    action: LinkAction,
)
    ensures
        session.after_steps(steps).address == session.address,
        session.after_steps(steps).id == session.id,
        session.after_steps(steps).calls_for(LinkEvent::Connected, action) ==> {
            &&& action matches LinkAction::Register { text }
            &&& text@ == "{\"kshs_address\":\""@ + escaped(session.address) + "\"}"@
        },
    decreases steps.len(),
{
    law_registration_holds_the_address(session.address);
    if steps.len() > 0 {
        law_every_registration_names_the_address(session, steps.drop_last(), action);
    }
}

/// A session in use reacts to an event by one action that is settled by what it is waiting for
/// and how often in a row it has lost the connection. A connection is registered on; a failure is
/// an error on first opening and otherwise ignored; a registration makes the connection the one
/// in use; a loss is followed by a wait, or after ten in a row by the end; a wait is followed by an
/// attempt.
pub proof fn law_what_events_lead_to(
    session: SessionView,
    worker: WorkerView,
    event: LinkEvent,
    next: SessionView,
    next_worker: WorkerView,
    action: LinkAction,
)
    requires
        session.id == worker.sessions,
        session.advances(worker, event, next, next_worker, action),
    ensures
        event is Connected ==> {
            &&& action matches LinkAction::Register { text }
            &&& text@ == "{\"kshs_address\":\""@ + escaped(session.address) + "\"}"@
        },
        event matches LinkEvent::ConnectFailed { reason } ==> if session.phase == Phase::Opening {
            &&& action matches LinkAction::Fail { error }
            &&& error@ == "WebSocket connect failed: "@ + reason@
        } else {
            session.phase == Phase::Connecting ==> action is Listen
        },
        event matches LinkEvent::RegisterFailed { reason } ==> if session.phase
            == Phase::Enrolling {
            &&& action matches LinkAction::Fail { error }
            &&& error@ == "Registration send failed: "@ + reason@
        } else {
            session.phase == Phase::Registering ==> action is Listen
        },
        event is Registered ==> {
            &&& action matches LinkAction::Adopt { status }
            &&& status.connected
            &&& session.phase == Phase::Enrolling ==> status.message@ == "Connected to worker hub."@
            &&& session.phase == Phase::Registering ==> status.message@
                == "Reconnected to worker hub."@
        },
        event is StreamEnded && session.retries < 10 ==> {
            &&& action matches LinkAction::Wait { status, secs }
            &&& secs == (if pow2(session.retries) < 60 {
                pow2(session.retries)
            } else {
                60
            })
            &&& !status.connected
            &&& status.message@ == "Disconnected. Reconnecting in "@ + decimal(secs as nat)
                + "s... (attempt "@ + decimal(session.retries + 1) + "/10)"@
        },
        event is StreamEnded && session.retries >= 10 ==> {
            &&& action matches LinkAction::Stop { status }
            &&& !status.connected
            &&& status.message@ == "Failed after 10 consecutive retries. Stopped."@
        },
        event is Waited ==> action is Connect,
{
    law_registration_holds_the_address(session.address);
    law_decimal_digits(1, 0);
    law_decimal_digits(0, 1);
    reveal_strlit("0123456789");
    reveal_strlit("/");
    reveal_strlit(")");
    reveal_strlit("/10)");
    reveal_strlit("Failed after ");
    reveal_strlit(" consecutive retries. Stopped.");
    reveal_strlit("Failed after 10 consecutive retries. Stopped.");
    assert(decimal(10) =~= seq!['1', '0']);
    assert("/"@ + decimal(10) + ")"@ =~= "/10)"@);
    if event is StreamEnded && session.retries < 10 {
        let secs = delay(session.retries + 1);
        let head = "Disconnected. Reconnecting in "@ + decimal(secs) + "s... (attempt "@ + decimal(
            session.retries + 1,
        );
        assert(head + "/"@ + decimal(10) + ")"@ =~= head + ("/"@ + decimal(10) + ")"@));
    }
    assert("Failed after "@ + decimal(10) + " consecutive retries. Stopped."@
        =~= "Failed after 10 consecutive retries. Stopped."@);
}

/// What a session in use waits for next, and what it remembers: the losses are counted one by one
/// and forgotten on registration, which is when the watch begins. Its number and address never
/// change, and apart from registration nothing touches the watch.
pub proof fn law_where_events_lead(
    session: SessionView,
    worker: WorkerView,
    event: LinkEvent,
    next: SessionView,
    next_worker: WorkerView,
    action: LinkAction,
)
    requires
        session.id == worker.sessions,
        fits(session.phase, event),
        session.advances(worker, event, next, next_worker, action),
    ensures
        next.id == session.id,
        next.address == session.address,
        event matches LinkEvent::Registered { now } ==> next.watched && next.heard == now,
        !(event is Registered) ==> next.watched == session.watched && next.heard == session.heard,
        next.retries == (if event is Registered {
            0
        } else if event is StreamEnded {
            session.retries + 1
        } else {
            session.retries
        }),
        next.phase == (match session.phase {
            Phase::Opening => if event is Connected {
                Phase::Enrolling
            } else {
                Phase::Stopped
            },
            Phase::Enrolling => if event is Registered {
                Phase::Listening
            } else {
                Phase::Stopped
            },
            Phase::Listening => if session.retries < 10 {
                Phase::Waiting
            } else {
                Phase::Stopped
            },
            Phase::Waiting => Phase::Connecting,
            Phase::Connecting => if event is Connected {
                Phase::Registering
            } else {
                Phase::Listening
            },
            Phase::Registering => Phase::Listening,
            Phase::Stopped => Phase::Stopped,
        }),
{
}

/// In each phase a session meets with what it waits for, which has come or has failed, and with
/// nothing else; a stopped one meets with nothing.
pub proof fn law_events_fit_the_phase(phase: Phase, event: LinkEvent)
    ensures
        fits(phase, event) <==> (match phase {
            Phase::Opening | Phase::Connecting => event is Connected || event is ConnectFailed,
            Phase::Enrolling | Phase::Registering => event is Registered || event
                is RegisterFailed,
            Phase::Listening => event is StreamEnded,
            Phase::Waiting => event is Waited,
            Phase::Stopped => false,
        }),
{
}

/// A loss, and only a loss, reaches the worker: no job is live any more and its block is
/// forgotten, whichever loss in a row it is. What was started and what ran out of time stays on
/// record.
pub proof fn law_every_loss_reaches_the_worker(
    session: SessionView,
    worker: WorkerView,
    event: LinkEvent,
    next: SessionView,
    next_worker: WorkerView,
    action: LinkAction,
    id: u64,
)
    requires
        session.id == worker.sessions,
        session.advances(worker, event, next, next_worker, action),
    ensures
        event is StreamEnded ==> {
            &&& !next_worker.live(id)
            &&& next_worker.work_hash is None
            &&& next_worker.started == worker.started
            &&& next_worker.expired == worker.expired
            &&& next_worker.sessions == worker.sessions
        },
        !(event is StreamEnded) ==> next_worker == worker,
{
}

/// Each wait is twice as long as the one before it, up to a minute, as long as no attempt
/// succeeds in between; the first is one second.
pub proof fn law_each_wait_is_twice_the_last(
    session: SessionView,
    connected: bool,
    reason: String,
    first: LinkAction,
    second: LinkAction,
)
    requires
        session.phase == Phase::Listening,
        session.retries < 9,
        session.calls_for(LinkEvent::StreamEnded, first),
        after_failed_round(session, connected, reason).calls_for(LinkEvent::StreamEnded, second),
    ensures
        first is Wait,
        second is Wait,
        session.retries == 0 ==> first->Wait_secs == 1,
        second->Wait_secs == (if 2 * first->Wait_secs < 60 {
            2 * first->Wait_secs
        } else {
            60
        }),
{
    lemma_delay_step(session.retries + 1);
}

/// Every message is a sign of life, however long after the one before it comes and whether or not
/// it could be read: silence is counted from it on, and no look less than ninety seconds later
/// finds the connection too silent. Nothing else about the session changes.
pub proof fn law_every_message_is_a_sign_of_life(
    session: SessionView,
    worker: WorkerView,
    now: u64,
    msg: Option<WsIncoming>,
    next: SessionView,
    next_worker: WorkerView,
    reaction: Reaction,
    look: int,
)
    requires
        session.id == worker.sessions,
        session.receives(worker, now, msg, next, next_worker, reaction),
    ensures
        next.heard == now,
        next.id == session.id,
        next.address == session.address,
        next.phase == session.phase,
        next.retries == session.retries,
        next.watched == session.watched,
        next.expires(look) <==> session.watched && session.phase != Phase::Stopped && look >= now
            + 90_000,
{
}

/// What comes in on the session in use reaches the worker: a payment is reported, a ping
/// answered, and the job called off, in every phase and whatever the worker is doing. A text that
/// is no message does nothing.
pub proof fn law_messages_reach_the_worker(
    session: SessionView,
    worker: WorkerView,
    now: u64,
    msg: Option<WsIncoming>,
    next: SessionView,
    next_worker: WorkerView,
    reaction: Reaction,
    id: u64,
)
    requires
        session.id == worker.sessions,
        session.receives(worker, now, msg, next, next_worker, reaction),
    ensures
        msg is None ==> reaction is Ignore && next_worker == worker,
        msg matches Some(m) ==> worker.calls_for(m, reaction) && next_worker
            == worker.after_message(m),
        msg matches Some(m) ==> m.action@ == "paid"@ ==> {
            &&& reaction matches Reaction::Paid(paid)
            &&& m.hash matches Some(hash) ==> paid.hash@ == hash@
            &&& m.amount matches Some(amount) ==> paid.amount@ == amount@
            &&& m.tx_hash matches Some(tx_hash) ==> paid.tx_hash@ == tx_hash@
            &&& next_worker == worker
        },
        msg matches Some(m) ==> m.action@ == "ping"@ ==> {
            &&& reaction matches Reaction::Reply(text)
            &&& text@ == "{\"action\":\"pong\"}"@
            &&& next_worker == worker
        },
        msg matches Some(m) ==> m.action@ == "cancel"@ ==> reaction is Cancel && !next_worker.live(
            id,
        ),
{
    if let Some(m) = msg {
        if m.action@ == "paid"@ {
            law_every_payment_is_reported(worker, m, reaction);
        }
        if m.action@ == "ping"@ {
            law_every_ping_is_answered(worker, m, reaction);
        }
        if m.action@ == "cancel"@ {
            law_hub_can_always_call_off(worker, m, reaction, id);
        }
    }
}

/// A look at the session in use finds it too silent exactly when it is watched and was not heard
/// of for ninety seconds or more. Then the job is called off, the user told, and the watch ends;
/// otherwise nothing changes. A stopped session is not looked at any more.
pub proof fn law_what_a_look_finds(
    session: SessionView,
    worker: WorkerView,
    now: u64,
    next: SessionView,
    next_worker: WorkerView,
    out: Watch,
    id: u64,
)
    requires
        session.id == worker.sessions,
        session.looks(worker, now, next, next_worker, out),
    ensures
        out is End <==> session.phase == Phase::Stopped,
        out is Expire <==> session.phase != Phase::Stopped && session.watched && now
            >= session.heard + 90_000,
        !(out is Expire) ==> next == session && next_worker == worker,
        out matches Watch::Expire { status } ==> {
            &&& !status.connected
            &&& status.message@ == "Connection stale (no ping). Reconnecting..."@
            &&& next == (SessionView { watched: false, ..session })
            &&& !next_worker.live(id)
            &&& next_worker.work_hash == worker.work_hash
            &&& next_worker.started == worker.started
            &&& next_worker.expired == worker.expired
            &&& next_worker.sessions == worker.sessions
        },
{
}

/// When a step shows that the hub is there: a message, or a registration that was sent.
pub open spec fn sign_of_life(step: SessionStep) -> Option<u64> {
    match step {
        SessionStep::Message(now) => Some(now),
        SessionStep::Event(LinkEvent::Registered { now }) => Some(now),
        _ => None,
    }
}

/// Silence is counted from the last sign of life, whatever came before it, and whatever else
/// happens after it; so no look less than ninety seconds after it finds the connection too silent.
pub proof fn law_silence_counts_from_the_last_sign(
    session: SessionView,
    sign: SessionStep,
    rest: Seq<SessionStep>,
    look: int,
)
    requires
        sign_of_life(sign) is Some,
        forall|i: int| 0 <= i < rest.len() ==> sign_of_life(#[trigger] rest[i]) is None,
    ensures
        session.after_step(sign).after_steps(rest).heard == sign_of_life(sign)->0,
        look < sign_of_life(sign)->0 + 90_000 ==> !session.after_step(sign).after_steps(
            rest,
        ).expires(look),
    decreases rest.len(),
{
    if rest.len() > 0 {
        law_silence_counts_from_the_last_sign(session, sign, rest.drop_last(), look);
        assert(sign_of_life(rest[rest.len() - 1]) is None);
    }
}

/// Step `j` of a row is the last sign of life before step `i`.
pub open spec fn is_last_sign(steps: Seq<SessionStep>, i: int, j: int) -> bool {
    &&& 0 <= j < i
    &&& sign_of_life(steps[j]) is Some
    &&& forall|k: int| j < k < i ==> sign_of_life(#[trigger] steps[k]) is None
}

/// A hub that keeps sending is never found silent: if every look comes less than ninety seconds
/// after the last sign of life, none of them ends the connection.
pub proof fn law_talkative_hub_is_never_found_silent(
    session: SessionView,
    steps: Seq<SessionStep>,
)
    requires
        forall|i: int|
            0 <= i < steps.len() ==> ((#[trigger] steps[i]) matches SessionStep::Look(now)
                ==> exists|j: int| #[trigger] is_last_sign(steps, i, j) && now < sign_of_life(
                steps[j],
            )->0 + 90_000),
    ensures
        session.never_expires(steps),
    decreases steps.len(),
{
    if steps.len() > 0 {
        let before = steps.drop_last();
        let n = steps.len() - 1;
        assert forall|i: int| 0 <= i < before.len() implies ((
        #[trigger] before[i]) matches SessionStep::Look(now) ==> exists|j: int| #[trigger]
            is_last_sign(before, i, j) && now < sign_of_life(before[j])->0 + 90_000) by {
            assert(before[i] == steps[i]);
            if let SessionStep::Look(now) = steps[i] {
                let j = choose|j: int| #[trigger]
                    is_last_sign(steps, i, j) && now < sign_of_life(steps[j])->0 + 90_000;
                assert(is_last_sign(before, i, j));
            }
        }
        law_talkative_hub_is_never_found_silent(session, before);
        assert(steps[n] == steps.last());
        if let SessionStep::Look(now) = steps.last() {
            let j = choose|j: int| #[trigger]
                is_last_sign(steps, n, j) && now < sign_of_life(steps[j])->0 + 90_000;
            let head = steps.take(j + 1);
            let rest = steps.subrange(j + 1, n);
            assert(before =~= head + rest);
            lemma_steps_in_two_parts(session, head, rest);
            assert(head.drop_last() =~= steps.take(j));
            assert(head.last() == steps[j]);
            assert forall|k: int| 0 <= k < rest.len() implies sign_of_life(
                #[trigger] rest[k],
            ) is None by {
                assert(rest[k] == steps[j + 1 + k]);
            }
            law_silence_counts_from_the_last_sign(
                session.after_steps(steps.take(j)),
                steps[j],
                rest,
                now as int,
            );
        }
    }
}

/// A session that was opened is the one in use until the next is opened, whatever else happens to
/// the worker.
pub proof fn law_session_is_in_use_until_the_next(
    session: SessionView,
    before: WorkerView,
    events: Seq<WorkerEvent>,
)
    requires
        session.id == before.sessions + 1,
        forall|i: int| 0 <= i < events.len() ==> !(#[trigger] events[i] is Open),
    ensures
        session.in_use(before.after_open().after_all(events)),
    decreases events.len(),
{
    if events.len() > 0 {
        law_session_is_in_use_until_the_next(session, before, events.drop_last());
        assert(events[events.len() - 1] == events.last());
    }
}

/// A session that is not the one in use does nothing: it stops at the next event, does not touch
/// the worker, takes no message in and is not looked at. Only where its own opening has failed
/// does it say so.
pub proof fn law_session_out_of_use_does_nothing(
    session: SessionView,
    worker: WorkerView,
    event: LinkEvent,
    msg: Option<WsIncoming>,
    now: u64,
    next: SessionView,
    next_worker: WorkerView,
    action: LinkAction,
    reaction: Reaction,
    out: Watch,
)
    requires
        session.id != worker.sessions,
        fits(session.phase, event),
    ensures
        session.advances(worker, event, next, next_worker, action) ==> {
            &&& next == (SessionView { phase: Phase::Stopped, ..session })
            &&& next_worker == worker
            &&& match (session.phase, event) {
                (Phase::Opening, LinkEvent::ConnectFailed { reason }) => {
                    &&& action matches LinkAction::Fail { error }
                    &&& error@ == "WebSocket connect failed: "@ + reason@
                },
                (Phase::Enrolling, LinkEvent::RegisterFailed { reason }) => {
                    &&& action matches LinkAction::Fail { error }
                    &&& error@ == "Registration send failed: "@ + reason@
                },
                _ => action is End,
            }
        },
        session.receives(worker, now, msg, next, next_worker, reaction) ==> next == session
            && next_worker == worker && reaction is Ignore,
        session.looks(worker, now, next, next_worker, out) ==> next == session && next_worker
            == worker && out is End,
{
}

} // verus!
