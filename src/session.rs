//! The decisions of a long-lived chat session.
//!
//! The session connects, joins its channels one at a time (each attempt raced against
//! a timer by the caller), then handles inbound events until the stream ends, when it
//! connects and joins again. The caller performs each `SessionAction` and reports back
//! what happened as a `SessionEvent`; `ChatSession::step` decides what comes next.
use vstd::prelude::*;
use crate::notice::{gift_report, is_relevant, opt_string_text, report_matches, GiftReport,
    NoticeEvent};

verus! {

/// Where the session stands.
#[derive(Clone, Copy, Debug, PartialEq, Eq, Structural)]
pub enum SessionState {
    /// A fresh connection is to be opened.
    Connecting,
    /// Waiting for the join attempt of one channel to resolve.
    Joining,
    /// Handling inbound events.
    Running,
    /// The session is over: a connect failed, or the server asked it to quit.
    Stopped,
}

/// How a join attempt, raced against its timer, resolved.
#[derive(Clone, Copy, Debug, PartialEq, Eq, Structural)]
pub enum JoinOutcome {
    /// The server acknowledged the join before the timer fired.
    Acked,
    /// The join failed before the timer fired.
    Failed,
    /// The timer fired first; whatever the join does later is discarded.
    TimedOut,
}

/// What the caller observed.
pub enum SessionEvent {
    Connected,
    ConnectFailed,
    /// The join attempt for the channel at this index resolved.
    Join { channel: usize, outcome: JoinOutcome },
    Notice(NoticeEvent),
    EndOfStream,
    /// Reading the next event failed; handled as the end of the stream.
    StreamError,
    /// Any other inbound message.
    Other,
    /// The server asked the session to quit, which it never should.
    Quit,
}

/// What the caller is to do next.
#[derive(Clone, Copy, Debug, PartialEq, Eq, Structural)]
pub enum SessionAction {
    /// Open a new connection, replacing the old one.
    Connect,
    /// Try to join the channel at this index, racing the join against the timeout.
    Join { channel: usize },
    /// Wait for the next inbound event.
    AwaitEvent,
    /// Nothing new: the event was stale or out of place and changed nothing.
    Keep,
    /// End the session.
    Stop,
}

/// A line for the log.
pub enum SessionLog {
    JoinFailed { channel: usize, timed_out: bool },
    JoinedAll,
    Gift(GiftReport),
    Reconnecting,
    ConnectFailed,
    UnexpectedQuit,
}

/// The result of one step: the next action and what to log, in order.
pub struct Step {
    pub action: SessionAction,
    pub logs: Vec<SessionLog>,
}

/// The abstract state of a session: its channel count, state, the channel being
/// joined (or the count once all are tried), and the channels joined and failed in
/// the current round, by index.
pub struct SessionView {
    pub len: nat,
    pub state: SessionState,
    pub next: nat,
    pub joined: Seq<usize>,
    pub failed: Seq<usize>,
}

/// Go on joining from channel `from`, or run once every channel was tried.
pub open spec fn join_from(v: SessionView, from: nat) -> SessionView {
    if from < v.len {
        SessionView { state: SessionState::Joining, next: from, ..v }
    } else {
        SessionView { state: SessionState::Running, next: v.len, ..v }
    }
}

/// The state after a connection was opened: a new round of joins from the first channel.
pub open spec fn after_connect(v: SessionView) -> SessionView {
    join_from(SessionView { joined: Seq::empty(), failed: Seq::empty(), ..v }, 0)
}

/// A join result counts only if it is for the attempt in progress.
pub open spec fn join_is_current(v: SessionView, channel: nat) -> bool {
    v.state == SessionState::Joining && channel == v.next
}

/// The state after the join attempt for `channel` resolved with `outcome`.
/// A result for any other attempt changes nothing.
pub open spec fn after_join(v: SessionView, channel: nat, outcome: JoinOutcome) -> SessionView {
    if join_is_current(v, channel) {
        let v1 = if outcome == JoinOutcome::Acked {
            SessionView { joined: v.joined.push(channel as usize), ..v }
        } else {
            SessionView { failed: v.failed.push(channel as usize), ..v }
        };
        join_from(v1, channel + 1)
    } else {
        v
    }
}

/// The action that a state waits on.
pub open spec fn action_for(v: SessionView) -> SessionAction {
    match v.state {
        SessionState::Connecting => SessionAction::Connect,
        SessionState::Joining => SessionAction::Join { channel: v.next as usize },
        SessionState::Running => SessionAction::AwaitEvent,
        SessionState::Stopped => SessionAction::Stop,
    }
}

/// A join result that arrives once its attempt has resolved, such as an acknowledgment
/// after the timer fired, is not recorded: the channel stays failed, nothing is joined,
/// and the session has moved on to the next channel.
pub proof fn lemma_late_ack_discarded(v: SessionView, channel: nat)
    requires
        v.next < v.len,
        join_is_current(v, channel),
    ensures
        ({
            let timed_out = after_join(v, channel, JoinOutcome::TimedOut);
            let late = after_join(timed_out, channel, JoinOutcome::Acked);
            &&& late == timed_out
            &&& late.failed == v.failed.push(channel as usize)
            &&& late.joined == v.joined
            &&& (late.state == SessionState::Joining ==> late.next == channel + 1)
            &&& (late.state == SessionState::Running ==> channel + 1 == v.len)
        }),
{
}

/// Once a round of joins starts, every channel is tried in order, whatever each
/// attempt's outcome: after the results for channels `0..k` the session is joining
/// channel `k`, or running once `k` is the channel count.
pub proof fn lemma_round_tries_every_channel(v: SessionView, outcomes: Seq<JoinOutcome>)
    requires
        v.state == SessionState::Joining,
        v.next == 0,
        v.len > 0,
        outcomes.len() <= v.len,
    ensures
        ({
            let w = joins_in_order(v, outcomes);
            &&& w.len == v.len
            &&& w.next == outcomes.len()
            &&& w.joined.len() + w.failed.len() == v.joined.len() + v.failed.len()
                + outcomes.len()
            &&& (outcomes.len() < v.len ==> w.state == SessionState::Joining)
            &&& (outcomes.len() == v.len ==> w.state == SessionState::Running)
        }),
    decreases outcomes.len(),
{
    if outcomes.len() > 0 {
        let k = outcomes.len() - 1;
        lemma_round_tries_every_channel(v, outcomes.drop_last());
        let w = joins_in_order(v, outcomes.drop_last());
        assert(w.next == k);
        assert(w.state == SessionState::Joining);
        assert(join_is_current(w, k as nat));
        let w2 = after_join(w, k as nat, outcomes.last());
        assert(joins_in_order(v, outcomes) == w2);
        assert(w2.next == k + 1);
        assert(w2.joined.len() + w2.failed.len() == w.joined.len() + w.failed.len() + 1);
    } else {
        assert(joins_in_order(v, outcomes) == v);
    }
}

/// The state after the attempts for channels `0, 1, ...` resolve with `outcomes`, in order.
pub open spec fn joins_in_order(v: SessionView, outcomes: Seq<JoinOutcome>) -> SessionView
    decreases outcomes.len(),
{
    if outcomes.len() == 0 {
        v
    } else {
        let w = joins_in_order(v, outcomes.drop_last());
        after_join(w, (outcomes.len() - 1) as nat, outcomes.last())
    }
}

/// A chat session over a fixed list of channels, watching for gifts to one recipient.
pub struct ChatSession {
    channels: Vec<String>,
    recipient: String,
    state: SessionState,
    next: usize,
    joined: Vec<usize>,
    failed: Vec<usize>,
}

impl View for ChatSession {
    type V = SessionView;

    closed spec fn view(&self) -> SessionView {
        SessionView {
            len: self.channels@.len(),
            state: self.state,
            next: self.next as nat,
            joined: self.joined@,
            failed: self.failed@,
        }
    }
}

impl ChatSession {
    /// The session's internal invariant.
    pub closed spec fn wf(&self) -> bool {
        &&& self.next <= self.channels@.len()
        &&& self.state == SessionState::Joining ==> self.next < self.channels@.len()
        &&& self.state == SessionState::Running ==> self.next == self.channels@.len()
    }

    /// The names of the channels, in joining order.
    pub closed spec fn channel_names(&self) -> Seq<Seq<char>> {
        self.channels@.map_values(|s: String| s@)
    }

    /// The recipient whose gifts are logged.
    pub closed spec fn recipient_name(&self) -> Seq<char> {
        self.recipient@
    }

    /// A session that has yet to connect.
    pub fn new(channels: Vec<String>, recipient: String) -> (r: Self)
        ensures
            r.wf(),
            r@ == (SessionView {
                len: channels@.len(),
                state: SessionState::Connecting,
                next: 0,
                joined: Seq::empty(),
                failed: Seq::empty(),
            }),
            r.channel_names() == channels@.map_values(|s: String| s@),
            r.recipient_name() == recipient@,
    {
        ChatSession {
            channels,
            recipient,
            state: SessionState::Connecting,
            next: 0,
            joined: Vec::new(),
            failed: Vec::new(),
        }
    }

    /// Where the session stands.
    pub fn state(&self) -> (r: SessionState)
        ensures
            r == self@.state,
    {
        self.state
    }

    /// The indices of the channels joined in the current round, in order.
    pub fn joined(&self) -> (r: &Vec<usize>)
        ensures
            r@ == self@.joined,
    {
        &self.joined
    }

    /// The indices of the channels whose join failed or timed out in the current round.
    pub fn failed(&self) -> (r: &Vec<usize>)
        ensures
            r@ == self@.failed,
    {
        &self.failed
    }

    /// How many channels the session joins.
    pub fn channel_count(&self) -> (r: usize)
        ensures
            r == self@.len,
    {
        self.channels.len()
    }

    /// The name of the channel at `i`.
    pub fn channel_name(&self, i: usize) -> (r: &str)
        requires
            i < self@.len,
        ensures
            r@ == self.channel_names()[i as int],
    {
        self.channels[i].as_str()
    }

    /// What the session waits on now.
    pub fn pending_action(&self) -> (r: SessionAction)
        requires
            self.wf(),
        ensures
            r == action_for(self@),
    {
        match self.state {
            SessionState::Connecting => SessionAction::Connect,
            SessionState::Joining => SessionAction::Join { channel: self.next },
            SessionState::Running => SessionAction::AwaitEvent,
            SessionState::Stopped => SessionAction::Stop,
        }
    }

    fn join_from(&mut self, from: usize, logs: &mut Vec<SessionLog>)
        requires
            from <= old(self).channels@.len(),
        ensures
            final(self).wf(),
            final(self)@ == join_from(old(self)@, from as nat),
            final(self).channels == old(self).channels,
            final(self).recipient == old(self).recipient,
            final(logs)@ == if from < old(self)@.len {
                old(logs)@
            } else {
                old(logs)@.push(SessionLog::JoinedAll)
            },
    {
        if from < self.channels.len() {
            self.state = SessionState::Joining;
            self.next = from;
        } else {
            self.state = SessionState::Running;
            self.next = self.channels.len();
            logs.push(SessionLog::JoinedAll);
        }
    }

    /// Decides what follows `event`.
    ///
    /// - `Connected`, while connecting: a new round of joins from the first channel.
    /// - `ConnectFailed`, while connecting: the session stops.
    /// - A join result for the attempt in progress: the channel is recorded as joined or
    ///   failed (a failure is logged), and the next channel is tried; after the last, the
    ///   session runs. A result for any other attempt changes nothing.
    /// - A notice, while running: logged if addressed to the recipient, else dropped.
    /// - The end of the stream or a read error, while running: reconnect.
    /// - `Other`, while running: nothing.
    /// - `Quit`: the session stops, logging it as unexpected.
    /// Any other event leaves everything as it was.
    pub fn step(&mut self, event: SessionEvent) -> (r: Step)
        requires
            old(self).wf(),
        ensures
            final(self).wf(),
            final(self).channel_names() == old(self).channel_names(),
            final(self).recipient_name() == old(self).recipient_name(),
            r.action == (if event_acts(old(self)@, event) {
                action_for(final(self)@)
            } else {
                SessionAction::Keep
            }),
            !event_acts(old(self)@, event) ==> final(self)@ == old(self)@ && r.logs@.len() == 0,
            match event {
                SessionEvent::Connected => if old(self)@.state == SessionState::Connecting {
                    &&& final(self)@ == after_connect(old(self)@)
                    &&& r.logs@ == if final(self)@.state == SessionState::Running {
                        seq![SessionLog::JoinedAll]
                    } else {
                        Seq::empty()
                    }
                } else {
                    final(self)@ == old(self)@ && r.logs@ == Seq::<SessionLog>::empty()
                },
                SessionEvent::ConnectFailed => if old(self)@.state == SessionState::Connecting {
                    &&& final(self)@ == (SessionView {
                        state: SessionState::Stopped,
                        ..old(self)@
                    })
                    &&& r.logs@ == seq![SessionLog::ConnectFailed]
                } else {
                    final(self)@ == old(self)@ && r.logs@ == Seq::<SessionLog>::empty()
                },
                SessionEvent::Join { channel, outcome } => {
                    &&& final(self)@ == after_join(old(self)@, channel as nat, outcome)
                    &&& r.logs@ == join_logs(old(self)@, channel, outcome)
                },
                SessionEvent::Notice(n) => {
                    &&& final(self)@ == old(self)@
                    &&& if old(self)@.state == SessionState::Running && is_relevant(
                        opt_string_text(n.recipient),
                        old(self).recipient_name(),
                    ) {
                        &&& r.logs@.len() == 1
                        &&& r.logs@[0] matches SessionLog::Gift(rep) && report_matches(n, rep)
                    } else {
                        r.logs@.len() == 0
                    }
                },
                SessionEvent::EndOfStream | SessionEvent::StreamError => if old(self)@.state
                    == SessionState::Running {
                    &&& final(self)@ == (SessionView {
                        state: SessionState::Connecting,
                        ..old(self)@
                    })
                    &&& r.logs@ == seq![SessionLog::Reconnecting]
                } else {
                    final(self)@ == old(self)@ && r.logs@ == Seq::<SessionLog>::empty()
                },
                SessionEvent::Other => final(self)@ == old(self)@ && r.logs@ == Seq::<
                    SessionLog,
                >::empty(),
                SessionEvent::Quit => {
                    &&& final(self)@ == (SessionView {
                        state: SessionState::Stopped,
                        ..old(self)@
                    })
                    &&& r.logs@ == seq![SessionLog::UnexpectedQuit]
                },
            },
    {
        let mut logs: Vec<SessionLog> = Vec::new();
        let ghost start = self@;
        let changed: bool;
        let waiting: bool;
        match event {
            SessionEvent::Connected => {
                changed = self.state == SessionState::Connecting;
                if changed {
                    self.joined = Vec::new();
                    self.failed = Vec::new();
                    self.join_from(0, &mut logs);
                    assert(self@ == after_connect(start));
                }
                waiting = false;
            },
            SessionEvent::ConnectFailed => {
                changed = self.state == SessionState::Connecting;
                if changed {
                    self.state = SessionState::Stopped;
                    logs.push(SessionLog::ConnectFailed);
                }
                waiting = false;
            },
            SessionEvent::Join { channel, outcome } => {
                changed = self.state == SessionState::Joining && channel == self.next;
                if changed {
                    assert(channel < self.channels.len());
                    if outcome == JoinOutcome::Acked {
                        self.joined.push(channel);
                    } else {
                        self.failed.push(channel);
                        logs.push(
                            SessionLog::JoinFailed {
                                channel,
                                timed_out: outcome == JoinOutcome::TimedOut,
                            },
                        );
                    }
                    self.join_from(channel + 1, &mut logs);
                }
                waiting = false;
            },
            SessionEvent::Notice(n) => {
                waiting = self.state == SessionState::Running;
                if waiting {
                    match gift_report(&n, self.recipient.as_str()) {
                        Some(rep) => logs.push(SessionLog::Gift(rep)),
                        None => {},
                    }
                }
                changed = false;
            },
            SessionEvent::EndOfStream | SessionEvent::StreamError => {
                changed = self.state == SessionState::Running;
                if changed {
                    self.state = SessionState::Connecting;
                    logs.push(SessionLog::Reconnecting);
                }
                waiting = false;
            },
            SessionEvent::Other => {
                waiting = self.state == SessionState::Running;
                changed = false;
            },
            SessionEvent::Quit => {
                self.state = SessionState::Stopped;
                logs.push(SessionLog::UnexpectedQuit);
                changed = true;
                waiting = false;
            },
        }
        let action = if changed || waiting {
            self.pending_action()
        } else {
            SessionAction::Keep
        };
        Step { action, logs }
    }
}

/// Whether `event` is handled in the state of `v`; any other event changes nothing.
pub open spec fn event_acts(v: SessionView, event: SessionEvent) -> bool {
    match event {
        SessionEvent::Connected | SessionEvent::ConnectFailed => v.state
            == SessionState::Connecting,
        SessionEvent::Join { channel, outcome } => join_is_current(v, channel as nat),
        SessionEvent::Notice(_) | SessionEvent::EndOfStream | SessionEvent::StreamError
        | SessionEvent::Other => v.state == SessionState::Running,
        SessionEvent::Quit => true,
    }
}

/// The log lines of a join result: a failure of the attempt in progress is logged, and
/// so is the end of the round.
pub open spec fn join_logs(v: SessionView, channel: usize, outcome: JoinOutcome) -> Seq<
    SessionLog,
> {
    if join_is_current(v, channel as nat) {
        let failure = if outcome == JoinOutcome::Acked {
            Seq::empty()
        } else {
            seq![
                SessionLog::JoinFailed {
                    channel,
                    timed_out: outcome == JoinOutcome::TimedOut,
                },
            ]
        };
        if channel + 1 < v.len {
            failure
        } else {
            failure.push(SessionLog::JoinedAll)
        }
    } else {
        Seq::empty()
    }
}

} // verus!
