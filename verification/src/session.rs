//! The connection to the backend: when it is made, given up and made again, and when the agent
//! leaves.

use crate::config::{agent_address, encrypted, is_encrypted, AgentConfig};
use vstd::prelude::*;

verus! {

/// The seconds between two attempts to connect.
pub const RETRY_SECONDS: u64 = 5;

/// The seconds without any other event after which the agent reports on itself.
pub const HEARTBEAT_SECONDS: u64 = 5;

/// What the agent is about.
#[derive(Debug, Clone, Copy, PartialEq, Eq, Structural)]
pub enum Phase {
    /// It connects to its backend.
    Connecting,
    /// It could not connect, and lets [`RETRY_SECONDS`] pass or a line from the console come. Where
    /// encryption could not even be set up, the console can do less.
    Retrying { no_encryption: bool },
    /// It is connected.
    Serving,
    /// It stops its server before it leaves.
    Stopping,
    /// It is done, in order or because of an error.
    Exited { in_order: bool },
}

/// What happens to the connection.
#[derive(Debug, Clone, Copy, PartialEq, Eq, Structural)]
pub enum SessionEvent {
    /// Encryption could not be set up.
    EncryptionFailed,
    /// The backend could not be reached.
    ConnectFailed,
    Connected,
    /// The time before another attempt is over.
    PauseOver,
    /// A message could not be sent.
    SendFailed { required: bool },
    /// Reading from the backend failed.
    ReadFailed,
    /// The backend closed the connection.
    Closed,
    /// The settings that name the agent or its backend were changed and saved.
    SettingsChanged,
    /// Changed settings could not be saved.
    SaveFailed,
    /// The agent is told to leave.
    ShutdownRequested,
    /// The server was stopped, or could not be.
    ServerStopped,
}

/// The phase after an event. What has no meaning in a phase leaves it as it is.
pub open spec fn phase_after(phase: Phase, event: SessionEvent) -> Phase {
    match (phase, event) {
        (Phase::Connecting, SessionEvent::EncryptionFailed) => Phase::Retrying {
            no_encryption: true,
        },
        (Phase::Connecting, SessionEvent::ConnectFailed) => Phase::Retrying {
            no_encryption: false,
        },
        (Phase::Connecting, SessionEvent::Connected) => Phase::Serving,
        (Phase::Retrying { .. }, SessionEvent::PauseOver) => Phase::Connecting,
        (Phase::Serving, SessionEvent::SendFailed { required: true }) => Phase::Connecting,
        (Phase::Serving, SessionEvent::ReadFailed) => Phase::Connecting,
        (Phase::Serving, SessionEvent::Closed) => Phase::Connecting,
        (Phase::Serving, SessionEvent::SettingsChanged) => Phase::Connecting,
        (Phase::Serving, SessionEvent::SaveFailed) => Phase::Exited { in_order: false },
        (Phase::Serving, SessionEvent::ShutdownRequested) => Phase::Stopping,
        (Phase::Stopping, SessionEvent::ServerStopped) => Phase::Exited { in_order: true },
        _ => phase,
    }
}

impl Phase {
    /// The phase after an event.
    pub fn after(self, event: SessionEvent) -> (r: Phase)
        ensures
            r == phase_after(self, event),
    {
        match self {
            Phase::Connecting => match event {
                SessionEvent::EncryptionFailed => Phase::Retrying { no_encryption: true },
                SessionEvent::ConnectFailed => Phase::Retrying { no_encryption: false },
                SessionEvent::Connected => Phase::Serving,
                _ => self,
            },
            Phase::Retrying { no_encryption: _ } => match event {
                SessionEvent::PauseOver => Phase::Connecting,
                _ => self,
            },
            Phase::Serving => match event {
                SessionEvent::SendFailed { required } => if required {
                    Phase::Connecting
                } else {
                    self
                },
                SessionEvent::ReadFailed | SessionEvent::Closed | SessionEvent::SettingsChanged =>
                    Phase::Connecting,
                SessionEvent::SaveFailed => Phase::Exited { in_order: false },
                SessionEvent::ShutdownRequested => Phase::Stopping,
                _ => self,
            },
            Phase::Stopping => match event {
                SessionEvent::ServerStopped => Phase::Exited { in_order: true },
                _ => self,
            },
            Phase::Exited { in_order: _ } => self,
        }
    }
}

/// How to reach the backend.
#[derive(Debug)]
pub struct Dial {
    pub address: String,
    pub encrypted: bool,
}

/// How to reach the backend with these settings. It is asked anew for each attempt, so that
/// changed settings count.
pub fn dial(config: &AgentConfig) -> (r: Dial)
    ensures
        r.address@ == agent_address(config@.backend_url, config@.agent_id),
        r.encrypted == is_encrypted(r.address@),
{
    let address: String = config.address();
    let encrypted: bool = encrypted(address.as_str());
    Dial { address, encrypted }
}

/// The phase after a row of events.
pub open spec fn phase_after_all(phase: Phase, events: Seq<SessionEvent>) -> Phase
    decreases events.len(),
{
    if events.len() == 0 {
        phase
    } else {
        phase_after(phase_after_all(phase, events.drop_last()), events.last())
    }
}

/// The agent leaves only when it was told to, or when changed settings could not be saved: no
/// failure of the connection ends it.
pub proof fn only_orders_end_the_agent(events: Seq<SessionEvent>)
    ensures
        phase_after_all(Phase::Connecting, events) == (Phase::Exited { in_order: true })
            ==> events.contains(SessionEvent::ShutdownRequested),
        phase_after_all(Phase::Connecting, events) == (Phase::Exited { in_order: false })
            ==> events.contains(SessionEvent::SaveFailed),
        phase_after_all(Phase::Connecting, events) == Phase::Stopping ==> events.contains(
            SessionEvent::ShutdownRequested,
        ),
    decreases events.len(),
{
    if events.len() > 0 {
        let front = events.drop_last();
        only_orders_end_the_agent(front);
        assert forall|e: SessionEvent| front.contains(e) implies events.contains(e) by {
            let i = choose|i: int| 0 <= i < front.len() && front[i] == e;
            assert(events[i] == e);
        }
        assert(events[events.len() - 1] == events.last());
    }
}

/// Whatever happened to the connection, it comes back: unless the agent was told to leave or its
/// settings could not be saved, the end of a pause and a successful attempt lead to a connection.
pub proof fn connection_comes_back(events: Seq<SessionEvent>)
    requires
        !events.contains(SessionEvent::ShutdownRequested),
        !events.contains(SessionEvent::SaveFailed),
    ensures
        phase_after_all(
            Phase::Connecting,
            events.push(SessionEvent::PauseOver).push(SessionEvent::Connected),
        ) == Phase::Serving,
{
    only_orders_end_the_agent(events);
    let once = events.push(SessionEvent::PauseOver);
    assert(once.drop_last() =~= events);
    assert(once.push(SessionEvent::Connected).drop_last() =~= once);
    reveal_with_fuel(phase_after_all, 3);
}

/// A connection that is lost, for whatever reason, is made anew at once; so is one whose settings
/// changed, and no other. A message that is not required does not matter.
pub proof fn lost_connection_is_made_anew(event: SessionEvent)
    ensures
        phase_after(Phase::Serving, event) == Phase::Connecting <==> event is ReadFailed
            || event is Closed || event is SettingsChanged || event == (SessionEvent::SendFailed {
            required: true,
        }),
        event == (SessionEvent::SendFailed { required: false }) ==> phase_after(
            Phase::Serving,
            event,
        ) == Phase::Serving,
        !(phase_after(Phase::Serving, event) is Retrying),
{
}

/// An attempt to connect leads to a connection or to a pause, and a pause to another attempt; nothing
/// else ends them. The console can do less in a pause exactly where encryption could not be set up.
pub proof fn attempts_follow_pauses(event: SessionEvent, no_encryption: bool)
    ensures
        ({
            let next = phase_after(Phase::Connecting, event);
            &&& next == Phase::Serving <==> event is Connected
            &&& next == (Phase::Retrying { no_encryption: true }) <==> event is EncryptionFailed
            &&& next == (Phase::Retrying { no_encryption: false }) <==> event is ConnectFailed
            &&& next == Phase::Serving || next is Retrying || next == Phase::Connecting
        }),
        ({
            let pause = Phase::Retrying { no_encryption };
            let next = phase_after(pause, event);
            &&& next == Phase::Connecting <==> event is PauseOver
            &&& next == Phase::Connecting || next == pause
        }),
{
}

/// An agent that is connected and told to leave stops its server first, and leaves once that is
/// done; nothing but that ends the stop. One that has left does not come back.
pub proof fn server_is_stopped_before_leaving(event: SessionEvent, in_order: bool)
    ensures
        phase_after(Phase::Serving, event) == Phase::Stopping <==> event is ShutdownRequested,
        phase_after(Phase::Serving, event) is Exited <==> event is SaveFailed,
        event is SaveFailed ==> phase_after(Phase::Serving, event) == (Phase::Exited {
            in_order: false,
        }),
        phase_after(Phase::Stopping, event) == (if event is ServerStopped {
            Phase::Exited { in_order: true }
        } else {
            Phase::Stopping
        }),
        phase_after(Phase::Exited { in_order }, event) == (Phase::Exited { in_order }),
{
}

} // verus!
