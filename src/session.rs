use vstd::prelude::*;
use crate::options::Options;

verus! {

/// How a session runs its two directions.
#[derive(Debug, Clone, Copy, PartialEq, Eq, Structural)]
pub enum SessionPolicy {
    /// Both directions run; the session ends when both have ended.
    Join,
    /// Both directions run; the session ends when either has ended.
    Select,
    /// Only left-to-right runs.
    ForwardOnly,
    /// Only right-to-left runs.
    ReverseOnly,
    /// Nothing runs: the connections are opened and closed.
    OpenAndClose,
}

pub open spec fn policy_for(unidirectional: bool, unidirectional_reverse: bool, exit_on_eof: bool) -> SessionPolicy {
    if unidirectional && unidirectional_reverse {
        SessionPolicy::OpenAndClose
    } else if unidirectional {
        SessionPolicy::ForwardOnly
    } else if unidirectional_reverse {
        SessionPolicy::ReverseOnly
    } else if exit_on_eof {
        SessionPolicy::Select
    } else {
        SessionPolicy::Join
    }
}

/// The policy that the options ask for.
pub fn session_policy(opts: &Options) -> (r: SessionPolicy)
    ensures
        r == policy_for(opts.unidirectional, opts.unidirectional_reverse, opts.exit_on_eof),
{
    if opts.unidirectional && opts.unidirectional_reverse {
        SessionPolicy::OpenAndClose
    } else if opts.unidirectional {
        SessionPolicy::ForwardOnly
    } else if opts.unidirectional_reverse {
        SessionPolicy::ReverseOnly
    } else if opts.exit_on_eof {
        SessionPolicy::Select
    } else {
        SessionPolicy::Join
    }
}

/// One of the two transfers of a session.
#[derive(Debug, Clone, Copy, PartialEq, Eq, Structural)]
pub enum Direction {
    /// Left read half into right write half.
    Forward,
    /// Right read half into left write half.
    Reverse,
}

/// What happened to a running transfer.
#[derive(Debug, Clone, Copy, PartialEq, Eq, Structural)]
pub enum SessionEvent {
    /// The transfer reached the end of its input and shut its writer down.
    Finished(Direction),
    /// The transfer failed with an I/O error.
    Failed(Direction),
}

/// What the runner of a session does next.
#[derive(Debug, Clone, Copy, PartialEq, Eq, Structural)]
pub enum SessionAction {
    /// Keep the transfers that still run.
    Wait,
    /// Drop whatever still runs and complete the session successfully.
    Complete,
    /// Drop whatever still runs and complete the session with the error.
    Fail,
}

/// Progress of one session.
#[derive(Debug, Clone, Copy, PartialEq, Eq, Structural)]
pub struct SessionState {
    pub policy: SessionPolicy,
    pub forward_running: bool,
    pub reverse_running: bool,
    pub forward_done: bool,
    pub reverse_done: bool,
    pub failed: bool,
    pub finished: bool,
}

pub open spec fn event_direction(e: SessionEvent) -> Direction {
    match e {
        SessionEvent::Finished(d) => d,
        SessionEvent::Failed(d) => d,
    }
}

impl SessionState {
    pub open spec fn spec_start(policy: SessionPolicy) -> SessionState {
        SessionState {
            policy,
            forward_running: policy != SessionPolicy::ReverseOnly && policy != SessionPolicy::OpenAndClose,
            reverse_running: policy != SessionPolicy::ForwardOnly && policy != SessionPolicy::OpenAndClose,
            forward_done: false,
            reverse_done: false,
            failed: false,
            finished: policy == SessionPolicy::OpenAndClose,
        }
    }

    pub open spec fn running(self, d: Direction) -> bool {
        match d {
            Direction::Forward => self.forward_running,
            Direction::Reverse => self.reverse_running,
        }
    }

    /// An event can only come from a transfer that runs in an unfinished session.
    pub open spec fn admits(self, e: SessionEvent) -> bool {
        !self.finished && self.running(event_direction(e))
    }

    /// The state after `e`, and what the runner does.
    pub open spec fn spec_step(self, e: SessionEvent) -> (SessionState, SessionAction) {
        let d = event_direction(e);
        let fr = self.forward_running && d != Direction::Forward;
        let rr = self.reverse_running && d != Direction::Reverse;
        match e {
            SessionEvent::Failed(_) => (
                SessionState {
                    forward_running: false,
                    reverse_running: false,
                    failed: true,
                    finished: true,
                    ..self
                },
                SessionAction::Fail,
            ),
            SessionEvent::Finished(_) => {
                let fd = self.forward_done || d == Direction::Forward;
                let rd = self.reverse_done || d == Direction::Reverse;
                if self.policy == SessionPolicy::Join && (fr || rr) {
                    (
                        SessionState {
                            forward_running: fr,
                            reverse_running: rr,
                            forward_done: fd,
                            reverse_done: rd,
                            ..self
                        },
                        SessionAction::Wait,
                    )
                } else {
                    (
                        SessionState {
                            forward_running: false,
                            reverse_running: false,
                            forward_done: fd,
                            reverse_done: rd,
                            finished: true,
                            ..self
                        },
                        SessionAction::Complete,
                    )
                }
            },
        }
    }

    /// The state after the admissible events of `events`, in order; the
    /// others are not delivered.
    pub open spec fn run_events(self, events: Seq<SessionEvent>) -> SessionState
        decreases events.len(),
    {
        if events.len() == 0 {
            self
        } else {
            let next = if self.admits(events[0]) {
                self.spec_step(events[0]).0
            } else {
                self
            };
            next.run_events(events.drop_first())
        }
    }

    /// What holds of every state that a session passes through.
    pub open spec fn inv(self) -> bool {
        &&& self.finished ==> !self.forward_running && !self.reverse_running
        &&& self.forward_running ==> !self.forward_done
        &&& self.reverse_running ==> !self.reverse_done
        &&& self.policy == SessionPolicy::Join ==> {
            &&& !self.finished ==> (self.forward_running || self.forward_done)
            &&& !self.finished ==> (self.reverse_running || self.reverse_done)
            &&& self.finished && !self.failed ==> self.forward_done && self.reverse_done
        }
        &&& self.policy == SessionPolicy::Select && !self.finished ==> self.forward_running
            && self.reverse_running
        &&& self.finished && !self.failed && self.policy != SessionPolicy::OpenAndClose
            ==> self.forward_done || self.reverse_done
    }

    /// A session that starts now.
    pub fn start(policy: SessionPolicy) -> (r: SessionState)
        ensures
            r == Self::spec_start(policy),
    {
        SessionState {
            policy,
            forward_running: policy != SessionPolicy::ReverseOnly && policy != SessionPolicy::OpenAndClose,
            reverse_running: policy != SessionPolicy::ForwardOnly && policy != SessionPolicy::OpenAndClose,
            forward_done: false,
            reverse_done: false,
            failed: false,
            finished: policy == SessionPolicy::OpenAndClose,
        }
    }

    /// Takes note of what happened to a transfer and decides how the session goes on.
    pub fn on_event(&mut self, e: SessionEvent) -> (r: SessionAction)
        requires
            old(self).admits(e),
        ensures
            (*final(self), r) == old(self).spec_step(e),
    {
        let d = match e {
            SessionEvent::Finished(d) => d,
            SessionEvent::Failed(d) => d,
        };
        let fr = self.forward_running && d != Direction::Forward;
        let rr = self.reverse_running && d != Direction::Reverse;
        match e {
            SessionEvent::Failed(_) => {
                self.forward_running = false;
                self.reverse_running = false;
                self.failed = true;
                self.finished = true;
                SessionAction::Fail
            },
            SessionEvent::Finished(_) => {
                self.forward_done = self.forward_done || d == Direction::Forward;
                self.reverse_done = self.reverse_done || d == Direction::Reverse;
                if self.policy == SessionPolicy::Join && (fr || rr) {
                    self.forward_running = fr;
                    self.reverse_running = rr;
                    SessionAction::Wait
                } else {
                    self.forward_running = false;
                    self.reverse_running = false;
                    self.finished = true;
                    SessionAction::Complete
                }
            },
        }
    }
}

proof fn lemma_step_keeps_inv(st: SessionState, e: SessionEvent)
    requires
        st.inv(),
        st.admits(e),
    ensures
        st.spec_step(e).0.inv(),
{
}

proof fn lemma_run_keeps_inv(st: SessionState, events: Seq<SessionEvent>)
    requires
        st.inv(),
    ensures
        st.run_events(events).inv(),
        st.run_events(events).policy == st.policy,
    decreases events.len(),
{
    if events.len() > 0 {
        let next = if st.admits(events[0]) {
            lemma_step_keeps_inv(st, events[0]);
            st.spec_step(events[0]).0
        } else {
            st
        };
        lemma_run_keeps_inv(next, events.drop_first());
    }
}

/// Without one-way or exit-on-end switches, a session completes successfully
/// only after both transfers have ended, whatever order they end in; and when
/// it is over no transfer runs.
pub proof fn lemma_join_completes_after_both(events: Seq<SessionEvent>)
    ensures
        ({
            let st = SessionState::spec_start(policy_for(false, false, false)).run_events(events);
            &&& st.finished && !st.failed ==> st.forward_done && st.reverse_done
            &&& st.finished ==> !st.forward_running && !st.reverse_running
        }),
{
    lemma_run_keeps_inv(SessionState::spec_start(SessionPolicy::Join), events);
}

/// With exit-on-end, the first transfer that ends completes the session, and
/// the other one is dropped before the session completes.
pub proof fn lemma_select_completes_after_first(d: Direction)
    ensures
        ({
            let st = SessionState::spec_start(policy_for(false, false, true));
            let (next, action) = st.spec_step(SessionEvent::Finished(d));
            &&& st.admits(SessionEvent::Finished(d))
            &&& action == SessionAction::Complete
            &&& next.finished
            &&& !next.forward_running && !next.reverse_running
            &&& next.forward_done == (d == Direction::Forward)
            &&& next.reverse_done == (d == Direction::Reverse)
        }),
{
}

} // verus!
