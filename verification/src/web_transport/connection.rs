//! The life of one browser connection.

use crate::web_transport::framing::{ConnectionStage, LANE_RELIABLE_INBOUND};
use vstd::prelude::*;

verus! {

/// The connection as the control session sees it.
#[derive(Clone, Copy, Debug, PartialEq, Eq, Structural)]
pub enum WebTransportConnectionState {
    Waiting,
    Connected,
    Closed,
}

#[derive(Clone, Copy, Debug, PartialEq, Eq, Structural)]
pub enum ConnectionStep {
    /// The browser shows with its own lane that it has the connection. Nothing
    /// is opened before.
    AwaitingClientLane,
    OpeningAudioLane,
    OpeningReliableLane,
    Running,
    Ended,
}

#[derive(Clone, Copy, Debug, PartialEq, Eq, Structural)]
pub enum ConnectionEvent {
    /// The browser opened a lane with this marker.
    ClientLane(u8),
    LaneOpened,
    /// What was waited for failed, or took too long.
    StepFailed,
    /// A lane failed while the connection ran.
    LaneFailed(ConnectionStage),
    /// The session or the peer ended the connection, or a lane came to its end.
    Ended,
}

#[derive(Clone, Copy, Debug, PartialEq, Eq, Structural)]
pub enum ConnectionAction {
    OpenAudioLane,
    OpenReliableLane,
    /// Run all lanes.
    Run,
    /// Close the connection and shut the bridge down; a failure is logged with
    /// its stage.
    Close { failure: Option<ConnectionStage> },
    Ignore,
}

#[derive(Clone, Copy, Debug, PartialEq, Eq, Structural)]
pub struct BrowserConnection {
    pub step: ConnectionStep,
    pub state: WebTransportConnectionState,
    /// The bridge was shut down.
    pub shut_down: bool,
}

pub open spec fn stage_of(step: ConnectionStep) -> ConnectionStage {
    match step {
        ConnectionStep::OpeningAudioLane => ConnectionStage::OpenAudioLane,
        ConnectionStep::OpeningReliableLane => ConnectionStage::OpenReliableServerLane,
        _ => ConnectionStage::WaitReliableClientLane,
    }
}

pub open spec fn closed_connection(failure: Option<ConnectionStage>) -> (
    BrowserConnection,
    ConnectionAction,
) {
    (
        BrowserConnection {
            step: ConnectionStep::Ended,
            state: WebTransportConnectionState::Closed,
            shut_down: true,
        },
        ConnectionAction::Close { failure },
    )
}

/// The connection and the action after an event.
pub open spec fn connection_transition(connection: BrowserConnection, event: ConnectionEvent) -> (
    BrowserConnection,
    ConnectionAction,
) {
    match (connection.step, event) {
        (ConnectionStep::Ended, _) => (connection, ConnectionAction::Ignore),
        (_, ConnectionEvent::Ended) => closed_connection(None),
        (ConnectionStep::Running, ConnectionEvent::LaneFailed(stage)) => closed_connection(
            Some(stage),
        ),
        (ConnectionStep::Running, _) => (connection, ConnectionAction::Ignore),
        (_, ConnectionEvent::StepFailed) => closed_connection(Some(stage_of(connection.step))),
        (ConnectionStep::AwaitingClientLane, ConnectionEvent::ClientLane(lane)) => if lane
            == LANE_RELIABLE_INBOUND {
            (
                BrowserConnection { step: ConnectionStep::OpeningAudioLane, ..connection },
                ConnectionAction::OpenAudioLane,
            )
        } else {
            closed_connection(Some(ConnectionStage::WaitReliableClientLane))
        },
        (ConnectionStep::OpeningAudioLane, ConnectionEvent::LaneOpened) => (
            BrowserConnection { step: ConnectionStep::OpeningReliableLane, ..connection },
            ConnectionAction::OpenReliableLane,
        ),
        (ConnectionStep::OpeningReliableLane, ConnectionEvent::LaneOpened) => (
            BrowserConnection {
                step: ConnectionStep::Running,
                state: WebTransportConnectionState::Connected,
                ..connection
            },
            ConnectionAction::Run,
        ),
        _ => (connection, ConnectionAction::Ignore),
    }
}

impl BrowserConnection {
    pub fn begin() -> (connection: Self)
        ensures
            connection == (BrowserConnection {
                step: ConnectionStep::AwaitingClientLane,
                state: WebTransportConnectionState::Waiting,
                shut_down: false,
            }),
    {
        BrowserConnection {
            step: ConnectionStep::AwaitingClientLane,
            state: WebTransportConnectionState::Waiting,
            shut_down: false,
        }
    }

    fn close(&mut self, failure: Option<ConnectionStage>) -> (action: ConnectionAction)
        ensures
            (*final(self), action) == closed_connection(failure),
    {
        self.step = ConnectionStep::Ended;
        self.state = WebTransportConnectionState::Closed;
        self.shut_down = true;
        ConnectionAction::Close { failure }
    }

    /// The next action, after an event.
    pub fn advance(&mut self, event: ConnectionEvent) -> (action: ConnectionAction)
        ensures
            (*final(self), action) == connection_transition(*old(self), event),
    {
        match (self.step, event) {
            (ConnectionStep::Ended, _) => ConnectionAction::Ignore,
            (_, ConnectionEvent::Ended) => self.close(None),
            (ConnectionStep::Running, ConnectionEvent::LaneFailed(stage)) => self.close(
                Some(stage),
            ),
            (ConnectionStep::Running, _) => ConnectionAction::Ignore,
            (ConnectionStep::AwaitingClientLane, ConnectionEvent::StepFailed) => self.close(
                Some(ConnectionStage::WaitReliableClientLane),
            ),
            (ConnectionStep::OpeningAudioLane, ConnectionEvent::StepFailed) => self.close(
                Some(ConnectionStage::OpenAudioLane),
            ),
            (ConnectionStep::OpeningReliableLane, ConnectionEvent::StepFailed) => self.close(
                Some(ConnectionStage::OpenReliableServerLane),
            ),
            (ConnectionStep::AwaitingClientLane, ConnectionEvent::ClientLane(lane)) => {
                if lane != LANE_RELIABLE_INBOUND {
                    return self.close(Some(ConnectionStage::WaitReliableClientLane));
                }
                self.step = ConnectionStep::OpeningAudioLane;
                ConnectionAction::OpenAudioLane
            },
            (ConnectionStep::OpeningAudioLane, ConnectionEvent::LaneOpened) => {
                self.step = ConnectionStep::OpeningReliableLane;
                ConnectionAction::OpenReliableLane
            },
            (ConnectionStep::OpeningReliableLane, ConnectionEvent::LaneOpened) => {
                self.step = ConnectionStep::Running;
                self.state = WebTransportConnectionState::Connected;
                ConnectionAction::Run
            },
            _ => ConnectionAction::Ignore,
        }
    }
}

/// What can be said of a connection at any time.
pub open spec fn connection_fits(connection: BrowserConnection) -> bool {
    &&& connection.step is Running <==> connection.state is Connected
    &&& connection.step is Ended <==> connection.state is Closed
    &&& connection.shut_down <==> connection.state is Closed
}

/// The control session never waits for a connection that is gone: however it
/// ends, it is reported as closed and the bridge is shut down.
pub proof fn law_ended_connection_is_reported(connection: BrowserConnection, event: ConnectionEvent)
    requires
        connection_fits(connection),
    ensures
        connection_fits(connection_transition(connection, event).0),
        connection_transition(connection, event).1 is Close ==> connection_transition(
            connection,
            event,
        ).0.state is Closed,
{
}

/// No lane is opened before the browser has shown its own.
pub proof fn law_browser_comes_first(connection: BrowserConnection, event: ConnectionEvent)
    requires
        connection.step is AwaitingClientLane,
        connection_transition(connection, event).1 is OpenAudioLane,
    ensures
        event == ConnectionEvent::ClientLane(LANE_RELIABLE_INBOUND),
{
}

/// A browser that opens its lane first gets the audio lane, then the reliable lane, and
/// then the connection runs. It counts as connected from there, and not before.
pub proof fn law_connection_is_set_up_in_order()
    ensures
        ({
            let waiting = BrowserConnection {
                step: ConnectionStep::AwaitingClientLane,
                state: WebTransportConnectionState::Waiting,
                shut_down: false,
            };
            let first = connection_transition(waiting, ConnectionEvent::ClientLane(4));
            let second = connection_transition(first.0, ConnectionEvent::LaneOpened);
            let third = connection_transition(second.0, ConnectionEvent::LaneOpened);
            &&& first.1 is OpenAudioLane && first.0.state is Waiting
            &&& second.1 is OpenReliableLane && second.0.state is Waiting
            &&& third.1 is Run && third.0.state is Connected
            &&& !third.0.shut_down
        }),
{
}

/// A step that fails closes the connection and is named: the wait for the lane of the
/// browser, the audio lane or the reliable lane. A wrong lane of the browser counts as
/// the first. A lane that fails while the connection runs is named as well, and an end
/// is no failure. A closed connection stays closed.
pub proof fn law_how_a_connection_ends(
    connection: BrowserConnection,
    lane: u8,
    stage: ConnectionStage,
    event: ConnectionEvent,
)
    requires
        lane != 4,
    ensures
        ({
            let at = |step: ConnectionStep, event: ConnectionEvent|
                connection_transition(BrowserConnection { step, ..connection }, event).1;
            let closed = |stage: ConnectionStage| ConnectionAction::Close { failure: Some(stage) };
            &&& at(ConnectionStep::AwaitingClientLane, ConnectionEvent::StepFailed) == closed(
                ConnectionStage::WaitReliableClientLane,
            )
            &&& at(ConnectionStep::AwaitingClientLane, ConnectionEvent::ClientLane(lane)) == closed(
                ConnectionStage::WaitReliableClientLane,
            )
            &&& at(ConnectionStep::OpeningAudioLane, ConnectionEvent::StepFailed) == closed(
                ConnectionStage::OpenAudioLane,
            )
            &&& at(ConnectionStep::OpeningReliableLane, ConnectionEvent::StepFailed) == closed(
                ConnectionStage::OpenReliableServerLane,
            )
            &&& at(ConnectionStep::Running, ConnectionEvent::LaneFailed(stage)) == closed(stage)
            &&& !(connection.step is Ended) ==> connection_transition(
                connection,
                ConnectionEvent::Ended,
            ).1 == (ConnectionAction::Close { failure: None })
            &&& at(ConnectionStep::Ended, event) is Ignore
            &&& connection_transition(connection, event).1 is Close ==> connection_transition(
                connection,
                event,
            ).0 == (BrowserConnection {
                step: ConnectionStep::Ended,
                state: WebTransportConnectionState::Closed,
                shut_down: true,
            })
            &&& connection_transition(connection, event).1 is Ignore ==> connection_transition(
                connection,
                event,
            ).0 == connection
        }),
{
}

} // verus!
