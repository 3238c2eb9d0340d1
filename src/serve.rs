use vstd::prelude::*;
use crate::options::Options;
use crate::specifier::Specifier;

verus! {

/// Whether the left side is served once or for every incoming connection.
#[derive(Debug, Clone, Copy, PartialEq, Eq, Structural)]
pub enum ServeMode {
    /// One left connection, one session.
    Once,
    /// A session for every left connection, each with a fresh right side.
    Multiple,
}

pub open spec fn spec_serve_mode(left_multiconnect: bool, oneshot: bool) -> ServeMode {
    if left_multiconnect && !oneshot {
        ServeMode::Multiple
    } else {
        ServeMode::Once
    }
}

/// How the left specifier is served under the options.
pub fn serve_mode(left: &Specifier, opts: &Options) -> (r: ServeMode)
    ensures
        r == spec_serve_mode(left@.multiconnect(), opts.oneshot),
{
    if left.is_multiconnect() && !opts.oneshot {
        ServeMode::Multiple
    } else {
        ServeMode::Once
    }
}

/// What the left side produced.
#[derive(Debug, Clone, Copy, PartialEq, Eq, Structural)]
pub enum AcceptEvent {
    /// A connection is ready.
    Accepted,
    /// Establishing a connection failed.
    Failed,
}

/// What the server does with it.
#[derive(Debug, Clone, Copy, PartialEq, Eq, Structural)]
pub enum AcceptAction {
    /// Start a session on the connection and keep accepting.
    StartSession,
    /// Start a session on the connection and close the left side.
    StartSessionAndClose,
    /// Report the error and keep accepting.
    ReportAndContinue,
    /// Close the left side and end the run with the error.
    FailAndClose,
}

/// The left side of a run: which connections become sessions.
#[derive(Debug, Clone, Copy, PartialEq, Eq, Structural)]
pub struct Listener {
    pub mode: ServeMode,
    pub open: bool,
    pub sessions_started: u64,
}

impl Listener {
    pub open spec fn spec_new(mode: ServeMode) -> Listener {
        Listener { mode, open: true, sessions_started: 0 }
    }

    pub open spec fn spec_on_event(self, e: AcceptEvent) -> (Listener, AcceptAction) {
        match (self.mode, e) {
            (ServeMode::Once, AcceptEvent::Accepted) => (
                Listener { open: false, sessions_started: (self.sessions_started + 1) as u64, ..self },
                AcceptAction::StartSessionAndClose,
            ),
            (ServeMode::Once, AcceptEvent::Failed) => (
                Listener { open: false, ..self },
                AcceptAction::FailAndClose,
            ),
            (ServeMode::Multiple, AcceptEvent::Accepted) => (
                Listener { sessions_started: (self.sessions_started + 1) as u64, ..self },
                AcceptAction::StartSession,
            ),
            (ServeMode::Multiple, AcceptEvent::Failed) => (self, AcceptAction::ReportAndContinue),
        }
    }

    /// The listener after the events of `events` that reach it while it is open.
    pub open spec fn run_events(self, events: Seq<AcceptEvent>) -> Listener
        decreases events.len(),
    {
        if events.len() == 0 || !self.open {
            self
        } else {
            self.spec_on_event(events[0]).0.run_events(events.drop_first())
        }
    }

    pub fn new(mode: ServeMode) -> (r: Listener)
        ensures
            r == Self::spec_new(mode),
    {
        Listener { mode, open: true, sessions_started: 0 }
    }

    /// Decides what to do with what the left side produced.
    pub fn on_event(&mut self, e: AcceptEvent) -> (r: AcceptAction)
        requires
            old(self).open,
            old(self).sessions_started < u64::MAX,
        ensures
            (*final(self), r) == old(self).spec_on_event(e),
    {
        match (self.mode, e) {
            (ServeMode::Once, AcceptEvent::Accepted) => {
                self.open = false;
                self.sessions_started = self.sessions_started + 1;
                AcceptAction::StartSessionAndClose
            },
            (ServeMode::Once, AcceptEvent::Failed) => {
                self.open = false;
                AcceptAction::FailAndClose
            },
            (ServeMode::Multiple, AcceptEvent::Accepted) => {
                self.sessions_started = self.sessions_started + 1;
                AcceptAction::StartSession
            },
            (ServeMode::Multiple, AcceptEvent::Failed) => AcceptAction::ReportAndContinue,
        }
    }
}

/// With `oneshot`, even a left side that accepts many connections is served
/// once: after the first connection, whatever else arrives, exactly one
/// session has started and the left side is closed.
pub proof fn lemma_oneshot_serves_one_session(events: Seq<AcceptEvent>)
    requires
        events.len() > 0,
        events[0] == AcceptEvent::Accepted,
    ensures
        ({
            let l = Listener::spec_new(spec_serve_mode(true, true)).run_events(events);
            &&& l.sessions_started == 1
            &&& !l.open
        }),
{
    let first = Listener::spec_new(ServeMode::Once).spec_on_event(events[0]).0;
    assert(!first.open);
    assert(first.run_events(events.drop_first()) == first);
}

/// Which of the process's singleton resources are taken.
pub struct ProgramState {
    /// A specifier owns the standard streams.
    pub stdio_claimed: bool,
    /// The connection reuser holds a live inner connection.
    pub reuser_connected: bool,
}

/// What a connection reuser does for a new outer connection.
#[derive(Debug, Clone, Copy, PartialEq, Eq, Structural)]
pub enum ReuseDecision {
    /// Open the inner connection, which later outer connections will share.
    ConnectInner,
    /// Share the inner connection that is already open.
    ShareExisting,
}

impl Default for ProgramState {
    fn default() -> (r: ProgramState)
        ensures
            !r.stdio_claimed,
            !r.reuser_connected,
    {
        ProgramState { stdio_claimed: false, reuser_connected: false }
    }
}

impl ProgramState {
    pub fn new() -> (r: ProgramState)
        ensures
            !r.stdio_claimed,
            !r.reuser_connected,
    {
        ProgramState { stdio_claimed: false, reuser_connected: false }
    }

    /// Claims the standard streams; `false` when they are already owned.
    pub fn claim_stdio(&mut self) -> (r: bool)
        ensures
            r == !old(self).stdio_claimed,
            final(self).stdio_claimed,
            final(self).reuser_connected == old(self).reuser_connected,
    {
        if self.stdio_claimed {
            false
        } else {
            self.stdio_claimed = true;
            true
        }
    }

    /// Attaches an outer connection to the reuser.
    pub fn reuser_attach(&mut self) -> (r: ReuseDecision)
        ensures
            r == (if old(self).reuser_connected {
                ReuseDecision::ShareExisting
            } else {
                ReuseDecision::ConnectInner
            }),
            final(self).reuser_connected,
            final(self).stdio_claimed == old(self).stdio_claimed,
    {
        if self.reuser_connected {
            ReuseDecision::ShareExisting
        } else {
            self.reuser_connected = true;
            ReuseDecision::ConnectInner
        }
    }

    /// The reuser's inner connection has ended; the next outer connection opens a new one.
    pub fn reuser_detach(&mut self)
        ensures
            !final(self).reuser_connected,
            final(self).stdio_claimed == old(self).stdio_claimed,
    {
        self.reuser_connected = false;
    }
}

} // verus!
