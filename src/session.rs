//! The remote-console session: when to open, reuse or re-open the
//! connection, and when a command has failed for good.
//!
//! The session decides; its owner performs the actions it asks for (open a
//! connection, send the command) and reports back what happened. One
//! `execute` starts with [`RconSession::begin`] and is driven by
//! [`RconSession::on_event`] until the session answers with
//! [`SessionAction::Finish`].

use vstd::prelude::*;

verus! {

/// Why a command could not be run.
#[derive(Debug, Clone, Copy, PartialEq, Eq, Structural)]
pub enum RconError {
    /// The first connection of a session without one could not be opened.
    Connection,
    /// The command failed on a connection that existed, and its one retry
    /// failed too.
    Command,
}

/// Where the session stands within one command.
#[derive(Debug, Clone, Copy, PartialEq, Eq, Structural)]
pub enum Stage {
    /// No command in progress.
    Idle,
    /// Opening the first connection for this command.
    Connecting,
    /// The command was sent for the first time.
    Sending,
    /// The first send failed; opening a new connection.
    Reconnecting,
    /// The command was sent again on the new connection.
    Resending,
}

/// What the owner of the session observed after performing an action.
#[derive(Debug, PartialEq, Eq)]
pub enum SessionEvent {
    /// The connection was opened and authenticated.
    Connected,
    /// Opening or authenticating the connection failed.
    ConnectFailed,
    /// The command was answered with this text.
    Replied(String),
    /// Sending the command or reading its answer failed.
    SendFailed,
}

/// What the session asks its owner to do next.
#[derive(Debug, PartialEq, Eq)]
pub enum SessionAction {
    /// Drop the current connection, if any, and open a new one.
    Connect,
    /// Send the command on the current connection.
    Send,
    /// The command is over, with this outcome.
    Finish(Result<String, RconError>),
}

/// The connection state of one server's remote console.
#[derive(Debug, Clone, Copy, PartialEq, Eq, Structural)]
pub struct RconSession {
    /// A live connection is held.
    pub connected: bool,
    /// Progress of the command in flight.
    pub stage: Stage,
}

/// Steps left, at most, before a command in this stage finishes.
pub open spec fn stage_rank(stage: Stage) -> nat {
    match stage {
        Stage::Idle => 0,
        Stage::Connecting => 4,
        Stage::Sending => 3,
        Stage::Reconnecting => 2,
        Stage::Resending => 1,
    }
}

impl RconSession {
    /// The session after starting a command.
    pub open spec fn begin_state(self) -> RconSession {
        if self.connected {
            RconSession { connected: true, stage: Stage::Sending }
        } else {
            RconSession { connected: false, stage: Stage::Connecting }
        }
    }

    /// The first action of a command.
    pub open spec fn begin_action(self) -> SessionAction {
        if self.connected {
            SessionAction::Send
        } else {
            SessionAction::Connect
        }
    }

    /// `ev` is an answer to the action that the session asked for last.
    pub open spec fn expects(self, ev: SessionEvent) -> bool {
        match self.stage {
            Stage::Connecting | Stage::Reconnecting => ev is Connected || ev is ConnectFailed,
            Stage::Sending | Stage::Resending => ev is Replied || ev is SendFailed,
            Stage::Idle => false,
        }
    }

    /// The session after the event `ev`.
    pub open spec fn next_state(self, ev: SessionEvent) -> RconSession {
        match (self.stage, ev) {
            (Stage::Connecting, SessionEvent::Connected) => RconSession {
                connected: true,
                stage: Stage::Sending,
            },
            (Stage::Reconnecting, SessionEvent::Connected) => RconSession {
                connected: true,
                stage: Stage::Resending,
            },
            (Stage::Sending, SessionEvent::SendFailed) => RconSession {
                connected: false,
                stage: Stage::Reconnecting,
            },
            (_, SessionEvent::Replied(_)) => RconSession { connected: true, stage: Stage::Idle },
            _ => RconSession { connected: false, stage: Stage::Idle },
        }
    }

    /// The action that follows the event `ev`.
    pub open spec fn next_action(self, ev: SessionEvent) -> SessionAction {
        match (self.stage, ev) {
            (Stage::Connecting, SessionEvent::Connected) => SessionAction::Send,
            (Stage::Reconnecting, SessionEvent::Connected) => SessionAction::Send,
            (Stage::Sending, SessionEvent::SendFailed) => SessionAction::Connect,
            (Stage::Connecting, SessionEvent::ConnectFailed) => SessionAction::Finish(
                Err(RconError::Connection),
            ),
            (_, SessionEvent::Replied(text)) => SessionAction::Finish(Ok(text)),
            _ => SessionAction::Finish(Err(RconError::Command)),
        }
    }

    /// A session with no connection and no command in progress.
    pub fn new() -> (r: RconSession)
        ensures
            !r.connected,
            r.stage == Stage::Idle,
    {
        RconSession { connected: false, stage: Stage::Idle }
    }

    /// No command is in progress.
    pub fn is_idle(&self) -> (r: bool)
        ensures
            r == (self.stage == Stage::Idle),
    {
        match self.stage {
            Stage::Idle => true,
            _ => false,
        }
    }

    /// Whether `ev` answers the action that the session asked for last.
    pub fn accepts(&self, ev: &SessionEvent) -> (r: bool)
        ensures
            r == self.expects(*ev),
    {
        match self.stage {
            Stage::Connecting | Stage::Reconnecting => match ev {
                SessionEvent::Connected | SessionEvent::ConnectFailed => true,
                _ => false,
            },
            Stage::Sending | Stage::Resending => match ev {
                SessionEvent::Replied(_) | SessionEvent::SendFailed => true,
                _ => false,
            },
            Stage::Idle => false,
        }
    }

    /// Starts a command: reuses the live connection if there is one, and
    /// otherwise asks for a connection first.
    pub fn begin(&mut self) -> (r: SessionAction)
        requires
            old(self).stage == Stage::Idle,
        ensures
            *final(self) == old(self).begin_state(),
            r == old(self).begin_action(),
    {
        if self.connected {
            self.stage = Stage::Sending;
            SessionAction::Send
        } else {
            self.stage = Stage::Connecting;
            SessionAction::Connect
        }
    }

    /// Takes what happened after the last action and decides the next one.
    /// A failed send is retried once on a new connection; every command
    /// finishes after at most four events.
    pub fn on_event(&mut self, ev: SessionEvent) -> (r: SessionAction)
        requires
            old(self).expects(ev),
        ensures
            *final(self) == old(self).next_state(ev),
            r == old(self).next_action(ev),
            r is Finish <==> final(self).stage == Stage::Idle,
            stage_rank(final(self).stage) < stage_rank(old(self).stage),
    {
        match (self.stage, ev) {
            (Stage::Connecting, SessionEvent::Connected) => {
                *self = RconSession { connected: true, stage: Stage::Sending };
                SessionAction::Send
            },
            (Stage::Reconnecting, SessionEvent::Connected) => {
                *self = RconSession { connected: true, stage: Stage::Resending };
                SessionAction::Send
            },
            (Stage::Sending, SessionEvent::SendFailed) => {
                *self = RconSession { connected: false, stage: Stage::Reconnecting };
                SessionAction::Connect
            },
            (Stage::Connecting, SessionEvent::ConnectFailed) => {
                *self = RconSession { connected: false, stage: Stage::Idle };
                SessionAction::Finish(Err(RconError::Connection))
            },
            (_, SessionEvent::Replied(text)) => {
                *self = RconSession { connected: true, stage: Stage::Idle };
                SessionAction::Finish(Ok(text))
            },
            _ => {
                *self = RconSession { connected: false, stage: Stage::Idle };
                SessionAction::Finish(Err(RconError::Command))
            },
        }
    }

    /// Releases the connection; doing so twice changes nothing more.
    pub fn disconnect(&mut self)
        requires
            old(self).stage == Stage::Idle,
        ensures
            !final(self).connected,
            final(self).stage == Stage::Idle,
    {
        self.connected = false;
    }
}

/// The session after starting a command and then taking the events `evs`.
pub open spec fn state_after(s: RconSession, evs: Seq<SessionEvent>) -> RconSession
    decreases evs.len(),
{
    if evs.len() == 0 {
        s.begin_state()
    } else {
        state_after(s, evs.drop_last()).next_state(evs.last())
    }
}

/// The actions asked for while starting a command and taking the events `evs`.
pub open spec fn actions_of(s: RconSession, evs: Seq<SessionEvent>) -> Seq<SessionAction>
    decreases evs.len(),
{
    if evs.len() == 0 {
        seq![s.begin_action()]
    } else {
        actions_of(s, evs.drop_last()).push(state_after(s, evs.drop_last()).next_action(evs.last()))
    }
}

/// An idle session that holds no connection.
pub open spec fn released() -> RconSession {
    RconSession { connected: false, stage: Stage::Idle }
}

/// On a live connection that has broken, a command is sent, fails, causes
/// exactly one reconnect, is sent once more, and if that fails too the
/// command ends with `Command` and the session without a connection.
pub proof fn lemma_broken_connection_retried_once(s: RconSession)
    requires
        s.stage == Stage::Idle,
        s.connected,
    ensures
        actions_of(s, seq![SessionEvent::SendFailed, SessionEvent::Connected, SessionEvent::SendFailed])
            == seq![SessionAction::Send, SessionAction::Connect, SessionAction::Send, SessionAction::Finish(Err(RconError::Command))],
        state_after(s, seq![SessionEvent::SendFailed, SessionEvent::Connected, SessionEvent::SendFailed])
            == released(),
{
    let e = seq![SessionEvent::SendFailed, SessionEvent::Connected, SessionEvent::SendFailed];
    assert(e.drop_last() =~= seq![SessionEvent::SendFailed, SessionEvent::Connected]);
    assert(e.drop_last().drop_last() =~= seq![SessionEvent::SendFailed]);
    assert(e.drop_last().drop_last().drop_last() =~= Seq::<SessionEvent>::empty());
    let e0 = Seq::<SessionEvent>::empty();
    assert(actions_of(s, e0) == seq![SessionAction::Send]);
    assert(actions_of(s, e.drop_last().drop_last()) =~= seq![SessionAction::Send, SessionAction::Connect]);
    assert(actions_of(s, e.drop_last()) =~= seq![SessionAction::Send, SessionAction::Connect, SessionAction::Send]);
    assert(actions_of(s, e) =~= seq![SessionAction::Send, SessionAction::Connect, SessionAction::Send, SessionAction::Finish(Err(RconError::Command))]);
}

/// On a session that never connected, a failed first connection ends the
/// command at once with `Connection`: nothing is retried.
pub proof fn lemma_first_connect_not_retried(s: RconSession)
    requires
        s.stage == Stage::Idle,
        !s.connected,
    ensures
        actions_of(s, seq![SessionEvent::ConnectFailed])
            == seq![SessionAction::Connect, SessionAction::Finish(Err(RconError::Connection))],
        state_after(s, seq![SessionEvent::ConnectFailed]) == released(),
{
    let e = seq![SessionEvent::ConnectFailed];
    assert(e.drop_last() =~= Seq::<SessionEvent>::empty());
    assert(actions_of(s, e.drop_last()) == seq![SessionAction::Connect]);
    assert(actions_of(s, e) =~= seq![SessionAction::Connect, SessionAction::Finish(Err(RconError::Connection))]);
}

} // verus!
