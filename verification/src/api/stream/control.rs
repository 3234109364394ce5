//! From the browser to the streamer: the control socket, and the WebTransport
//! bridge where the browser chose it.
//!
//! The transport of a session is chosen once. A browser that wants another one
//! begins a new session.

use crate::api::stream::forwarder::RelayRoute;
use crate::messages::{ServerIpcMessage, StreamClientMessage, TransportType};
use crate::web_transport::connection::WebTransportConnectionState;
use vstd::prelude::*;

verus! {

#[derive(Clone, Copy, Debug, PartialEq, Eq, Structural)]
pub enum SelectedTransport {
    WebRtc,
    WebSocket,
    WebTransport,
}

pub open spec fn selection_of(transport: TransportType) -> SelectedTransport {
    match transport {
        TransportType::WebRTC => SelectedTransport::WebRtc,
        TransportType::WebSocket => SelectedTransport::WebSocket,
        TransportType::WebTransport => SelectedTransport::WebTransport,
    }
}

pub fn selected_transport(transport: TransportType) -> (selected: SelectedTransport)
    ensures
        selected == selection_of(transport),
{
    match transport {
        TransportType::WebRTC => SelectedTransport::WebRtc,
        TransportType::WebSocket => SelectedTransport::WebSocket,
        TransportType::WebTransport => SelectedTransport::WebTransport,
    }
}

#[derive(Clone, Copy, Debug, PartialEq, Eq, Structural)]
pub enum ControlStep {
    /// Waits for any of the events below.
    Listening,
    /// Waits for the browser to come over the bridge that it chose.
    AwaitingConnection,
    /// Waits for the streamer or the socket to take a message.
    Sending,
    Finished,
}

/// The control side of a session.
#[derive(Clone, Copy, Debug, PartialEq, Eq, Structural)]
pub struct ControlSession {
    pub step: ControlStep,
    /// A bridge may still be offered.
    pub setup_pending: bool,
    /// A bridge is there, and must be shut down in the end.
    pub has_bridge: bool,
    /// What is watched of the bridge.
    pub watches_state: bool,
    pub watches_shutdown: bool,
    pub watches_inbound: bool,
    pub selected: Option<SelectedTransport>,
    pub route: RelayRoute,
}

#[derive(Clone, Copy, Debug, PartialEq, Eq, Structural)]
pub enum BridgeOffer {
    Bridge,
    NoBridge,
    /// The streamer ended before the offer.
    Abandoned,
}

/// A frame on the control socket.
#[derive(Debug, PartialEq, Eq)]
pub enum SocketFrame {
    /// A text, where it could be read as a message.
    Text(Option<StreamClientMessage>),
    Binary(Vec<u8>),
    Ping(Vec<u8>),
    Close,
    Other,
    /// The socket failed or ended.
    Ended,
}

#[derive(Debug)]
pub enum ControlEvent {
    Offer(BridgeOffer),
    ForwarderDone,
    /// The state of the bridge changed, or its watcher is gone.
    BridgeState(Option<WebTransportConnectionState>),
    /// The order to shut the bridge down changed, or its watcher is gone.
    BridgeShutdown(Option<bool>),
    Socket(SocketFrame),
    /// A frame over the bridge, or its end.
    Inbound(Option<Vec<u8>>),
    /// Whether the browser came over the bridge in time.
    Connected(bool),
    /// Whether the message was taken.
    Sent(bool),
}

#[derive(Debug)]
pub enum ControlAction {
    Listen,
    /// Shut the bridge down that was just offered, and listen.
    RefuseBridge,
    /// Shut the bridge down, and listen.
    DropBridge,
    /// Shut the bridge down, and end.
    DropBridgeAndEnd,
    /// Wait for the browser on the bridge, for a limited time.
    AwaitConnection,
    /// Send this to the streamer, for a limited time.
    SendIpc { message: ServerIpcMessage, drop_bridge: bool, clear_media: bool },
    /// Answer the ping on the socket.
    SendPong(Vec<u8>),
    End,
    /// The event does not belong to this step.
    Ignore,
}

/// The session and the action.
pub struct Controlled {
    pub session: ControlSession,
    pub action: ControlAction,
}

impl ControlSession {
    /// Nothing of a bridge is left.
    pub open spec fn without_bridge(self) -> ControlSession {
        ControlSession {
            has_bridge: false,
            watches_state: false,
            watches_shutdown: false,
            watches_inbound: false,
            ..self
        }
    }

    pub open spec fn at(self, step: ControlStep) -> ControlSession {
        ControlSession { step, ..self }
    }

    /// After the end of the bridge, which ends a session that chose it.
    pub open spec fn bridge_lost(self) -> Controlled {
        let bare = self.without_bridge();
        if self.selected == Some(SelectedTransport::WebTransport) {
            Controlled {
                session: bare.at(ControlStep::Finished),
                action: if self.has_bridge {
                    ControlAction::DropBridgeAndEnd
                } else {
                    ControlAction::End
                },
            }
        } else {
            Controlled {
                session: bare,
                action: if self.has_bridge {
                    ControlAction::DropBridge
                } else {
                    ControlAction::Listen
                },
            }
        }
    }

    pub open spec fn ended(self) -> Controlled {
        Controlled { session: self.at(ControlStep::Finished), action: ControlAction::End }
    }

    pub open spec fn listening(self) -> Controlled {
        Controlled { session: self.at(ControlStep::Listening), action: ControlAction::Listen }
    }

    pub open spec fn sending(self, message: ServerIpcMessage) -> Controlled {
        Controlled {
            session: self.at(ControlStep::Sending),
            action: ControlAction::SendIpc { message, drop_bridge: false, clear_media: false },
        }
    }

    /// After an offer of a bridge. One that comes after the choice is refused.
    pub open spec fn after_offer(self, offer: BridgeOffer) -> Controlled {
        let answered = ControlSession { setup_pending: false, ..self };
        if offer is Bridge && self.selected is Some {
            Controlled { session: answered, action: ControlAction::RefuseBridge }
        } else if offer is Bridge {
            Controlled {
                session: ControlSession {
                    has_bridge: true,
                    watches_state: true,
                    watches_shutdown: true,
                    watches_inbound: true,
                    ..answered
                },
                action: ControlAction::Listen,
            }
        } else {
            Controlled { session: answered, action: ControlAction::Listen }
        }
    }

    /// After the browser chose a transport.
    pub open spec fn after_choice(self, transport: TransportType) -> Controlled {
        let requested = selection_of(transport);
        let message = ServerIpcMessage::WebSocket(StreamClientMessage::SetTransport(transport));
        match self.selected {
            Some(selected) => if selected == requested {
                self.listening()
            } else {
                self.ended()
            },
            None => if requested is WebTransport {
                if self.has_bridge {
                    Controlled {
                        session: self.at(ControlStep::AwaitingConnection),
                        action: ControlAction::AwaitConnection,
                    }
                } else {
                    self.ended()
                }
            } else {
                Controlled {
                    session: ControlSession {
                        selected: Some(requested),
                        ..self.without_bridge().at(ControlStep::Sending)
                    },
                    action: ControlAction::SendIpc {
                        message,
                        drop_bridge: self.has_bridge,
                        clear_media: false,
                    },
                }
            },
        }
    }

    /// After the wait for the browser on the bridge. From here on media takes
    /// the bridge, and what still waits for the socket is discarded.
    pub open spec fn after_connection(self, connected: bool) -> Controlled {
        if connected {
            Controlled {
                session: ControlSession {
                    selected: Some(SelectedTransport::WebTransport),
                    route: RelayRoute::WebTransport,
                    ..self.at(ControlStep::Sending)
                },
                action: ControlAction::SendIpc {
                    message: ServerIpcMessage::WebSocket(
                        StreamClientMessage::SetTransport(TransportType::WebTransport),
                    ),
                    drop_bridge: false,
                    clear_media: true,
                },
            }
        } else {
            self.ended()
        }
    }

    /// After a frame on the control socket.
    pub open spec fn after_frame(self, frame: SocketFrame) -> Controlled {
        match frame {
            SocketFrame::Ended | SocketFrame::Close | SocketFrame::Text(None) => self.ended(),
            SocketFrame::Text(Some(StreamClientMessage::SetTransport(transport))) =>
                self.after_choice(transport),
            SocketFrame::Text(Some(message)) => self.sending(ServerIpcMessage::WebSocket(message)),
            SocketFrame::Binary(bytes) => if self.selected == Some(SelectedTransport::WebSocket) {
                self.sending(ServerIpcMessage::WebSocketTransport(bytes))
            } else {
                self.listening()
            },
            SocketFrame::Ping(bytes) => Controlled {
                session: self.at(ControlStep::Sending),
                action: ControlAction::SendPong(bytes),
            },
            SocketFrame::Other => self.listening(),
        }
    }

    /// After a frame over the bridge, or its end.
    pub open spec fn after_inbound(self, frame: Option<Vec<u8>>) -> Controlled {
        match frame {
            Some(bytes) => if self.selected == Some(SelectedTransport::WebTransport) {
                self.sending(ServerIpcMessage::WebSocketTransport(bytes))
            } else {
                self.listening()
            },
            None => self.bridge_lost(),
        }
    }

    /// The session and the action after an event.
    pub open spec fn after(self, event: ControlEvent) -> Controlled {
        match (self.step, event) {
            (ControlStep::Listening, ControlEvent::Offer(offer)) => self.after_offer(offer),
            (ControlStep::Listening, ControlEvent::ForwarderDone) => self.ended(),
            (ControlStep::Listening, ControlEvent::BridgeState(state)) => match state {
                Some(WebTransportConnectionState::Connected)
                | Some(WebTransportConnectionState::Waiting) => self.listening(),
                Some(WebTransportConnectionState::Closed) | None => self.bridge_lost(),
            },
            (ControlStep::Listening, ControlEvent::BridgeShutdown(shut_down)) => if shut_down
                == Some(false) {
                ControlSession { watches_shutdown: false, ..self }.listening()
            } else {
                self.bridge_lost()
            },
            (ControlStep::Listening, ControlEvent::Socket(frame)) => self.after_frame(frame),
            (ControlStep::Listening, ControlEvent::Inbound(frame)) => self.after_inbound(frame),
            (ControlStep::AwaitingConnection, ControlEvent::Connected(connected)) =>
                self.after_connection(connected),
            (ControlStep::Sending, ControlEvent::Sent(sent)) => if sent {
                self.listening()
            } else {
                self.ended()
            },
            _ => Controlled { session: self, action: ControlAction::Ignore },
        }
    }
}

/// Whether the browser came over the bridge, once that is settled.
pub open spec fn arrival(state: WebTransportConnectionState) -> Option<bool> {
    match state {
        WebTransportConnectionState::Connected => Some(true),
        WebTransportConnectionState::Closed => Some(false),
        WebTransportConnectionState::Waiting => None,
    }
}

pub fn wait_for_web_transport_connection(state: WebTransportConnectionState) -> (settled: Option<
    bool,
>)
    ensures
        settled == arrival(state),
{
    match state {
        WebTransportConnectionState::Connected => Some(true),
        WebTransportConnectionState::Closed => Some(false),
        WebTransportConnectionState::Waiting => None,
    }
}

/// What is to be done once the session has ended, in this order: close the
/// socket, order the forwarder down, shut the bridge down, tell the streamer to
/// stop, wait for the forwarder, and refuse a bridge that came too late.
#[derive(Clone, Copy, Debug, PartialEq, Eq, Structural)]
pub struct Teardown {
    pub shut_down_bridge: bool,
    pub look_for_late_bridge: bool,
}

impl ControlSession {
    /// A session whose streamer has been started, or could not be told what to do.
    pub fn begin(init_sent: bool) -> (session: Self)
        ensures
            session == (ControlSession {
                step: if init_sent {
                    ControlStep::Listening
                } else {
                    ControlStep::Finished
                },
                setup_pending: true,
                has_bridge: false,
                watches_state: false,
                watches_shutdown: false,
                watches_inbound: false,
                selected: None,
                route: RelayRoute::WebSocket,
            }),
    {
        ControlSession {
            step: if init_sent {
                ControlStep::Listening
            } else {
                ControlStep::Finished
            },
            setup_pending: true,
            has_bridge: false,
            watches_state: false,
            watches_shutdown: false,
            watches_inbound: false,
            selected: None,
            route: RelayRoute::WebSocket,
        }
    }

    fn finish(&mut self) -> (action: ControlAction)
        ensures
            (Controlled { session: *final(self), action }) == old(self).ended(),
    {
        self.step = ControlStep::Finished;
        ControlAction::End
    }

    fn listen(&mut self) -> (action: ControlAction)
        ensures
            (Controlled { session: *final(self), action }) == old(self).listening(),
    {
        self.step = ControlStep::Listening;
        ControlAction::Listen
    }

    fn send(&mut self, message: ServerIpcMessage) -> (action: ControlAction)
        ensures
            (Controlled { session: *final(self), action }) == old(self).sending(message),
    {
        self.step = ControlStep::Sending;
        ControlAction::SendIpc { message, drop_bridge: false, clear_media: false }
    }

    fn forget_bridge(&mut self) -> (had_bridge: bool)
        ensures
            *final(self) == old(self).without_bridge(),
            had_bridge == old(self).has_bridge,
    {
        let had_bridge: bool = self.has_bridge;
        self.has_bridge = false;
        self.watches_state = false;
        self.watches_shutdown = false;
        self.watches_inbound = false;
        had_bridge
    }

    fn on_bridge_lost(&mut self) -> (action: ControlAction)
        ensures
            (Controlled { session: *final(self), action }) == old(self).bridge_lost(),
    {
        let had_bridge: bool = self.forget_bridge();
        if self.selected == Some(SelectedTransport::WebTransport) {
            self.step = ControlStep::Finished;
            if had_bridge {
                ControlAction::DropBridgeAndEnd
            } else {
                ControlAction::End
            }
        } else if had_bridge {
            ControlAction::DropBridge
        } else {
            ControlAction::Listen
        }
    }

    fn on_offer(&mut self, offer: BridgeOffer) -> (action: ControlAction)
        ensures
            (Controlled { session: *final(self), action }) == old(self).after_offer(offer),
    {
        self.setup_pending = false;
        match offer {
            BridgeOffer::Bridge => {
                if self.selected.is_some() {
                    return ControlAction::RefuseBridge;
                }
                self.has_bridge = true;
                self.watches_state = true;
                self.watches_shutdown = true;
                self.watches_inbound = true;
                ControlAction::Listen
            },
            BridgeOffer::NoBridge | BridgeOffer::Abandoned => ControlAction::Listen,
        }
    }

    fn on_choice(&mut self, transport: TransportType) -> (action: ControlAction)
        ensures
            (Controlled { session: *final(self), action }) == old(self).after_choice(transport),
    {
        let requested = selected_transport(transport);
        if let Some(selected) = self.selected {
            if selected == requested {
                return self.listen();
            }
            return self.finish();
        }
        if requested == SelectedTransport::WebTransport {
            if !self.has_bridge {
                return self.finish();
            }
            self.step = ControlStep::AwaitingConnection;
            return ControlAction::AwaitConnection;
        }
        let had_bridge: bool = self.forget_bridge();
        self.selected = Some(requested);
        self.step = ControlStep::Sending;
        ControlAction::SendIpc {
            message: ServerIpcMessage::WebSocket(StreamClientMessage::SetTransport(transport)),
            drop_bridge: had_bridge,
            clear_media: false,
        }
    }

    fn on_connection(&mut self, connected: bool) -> (action: ControlAction)
        ensures
            (Controlled { session: *final(self), action }) == old(self).after_connection(connected),
    {
        if !connected {
            return self.finish();
        }
        self.selected = Some(SelectedTransport::WebTransport);
        self.route = RelayRoute::WebTransport;
        self.step = ControlStep::Sending;
        ControlAction::SendIpc {
            message: ServerIpcMessage::WebSocket(
                StreamClientMessage::SetTransport(TransportType::WebTransport),
            ),
            drop_bridge: false,
            clear_media: true,
        }
    }

    fn on_frame(&mut self, frame: SocketFrame) -> (action: ControlAction)
        ensures
            (Controlled { session: *final(self), action }) == old(self).after_frame(frame),
    {
        match frame {
            SocketFrame::Ended | SocketFrame::Close | SocketFrame::Text(None) => self.finish(),
            SocketFrame::Text(Some(message)) => match message {
                StreamClientMessage::SetTransport(transport) => self.on_choice(transport),
                message => self.send(ServerIpcMessage::WebSocket(message)),
            },
            SocketFrame::Binary(bytes) => if self.selected == Some(SelectedTransport::WebSocket) {
                self.send(ServerIpcMessage::WebSocketTransport(bytes))
            } else {
                self.listen()
            },
            SocketFrame::Ping(bytes) => {
                self.step = ControlStep::Sending;
                ControlAction::SendPong(bytes)
            },
            SocketFrame::Other => self.listen(),
        }
    }

    fn on_inbound(&mut self, frame: Option<Vec<u8>>) -> (action: ControlAction)
        ensures
            (Controlled { session: *final(self), action }) == old(self).after_inbound(frame),
    {
        match frame {
            Some(bytes) => if self.selected == Some(SelectedTransport::WebTransport) {
                self.send(ServerIpcMessage::WebSocketTransport(bytes))
            } else {
                self.listen()
            },
            None => self.on_bridge_lost(),
        }
    }

    /// The next action, after an event.
    pub fn advance(&mut self, event: ControlEvent) -> (action: ControlAction)
        ensures
            (Controlled { session: *final(self), action }) == old(self).after(event),
    {
        match (self.step, event) {
            (ControlStep::Listening, ControlEvent::Offer(offer)) => self.on_offer(offer),
            (ControlStep::Listening, ControlEvent::ForwarderDone) => self.finish(),
            (ControlStep::Listening, ControlEvent::BridgeState(state)) => match state {
                Some(WebTransportConnectionState::Connected)
                | Some(WebTransportConnectionState::Waiting) => self.listen(),
                Some(WebTransportConnectionState::Closed) | None => self.on_bridge_lost(),
            },
            (ControlStep::Listening, ControlEvent::BridgeShutdown(shut_down)) => match shut_down {
                Some(false) => {
                    self.watches_shutdown = false;
                    self.listen()
                },
                _ => self.on_bridge_lost(),
            },
            (ControlStep::Listening, ControlEvent::Socket(frame)) => self.on_frame(frame),
            (ControlStep::Listening, ControlEvent::Inbound(frame)) => self.on_inbound(frame),
            (ControlStep::AwaitingConnection, ControlEvent::Connected(connected)) =>
                self.on_connection(connected),
            (ControlStep::Sending, ControlEvent::Sent(sent)) => if sent {
                self.listen()
            } else {
                self.finish()
            },
            _ => ControlAction::Ignore,
        }
    }

    /// What is to be done once the session has ended.
    pub fn teardown(&self) -> (teardown: Teardown)
        ensures
            teardown == (Teardown {
                shut_down_bridge: self.has_bridge,
                look_for_late_bridge: self.setup_pending,
            }),
    {
        Teardown {
            shut_down_bridge: self.has_bridge,
            look_for_late_bridge: self.setup_pending,
        }
    }
}

/// Media takes the bridge exactly in a session that chose it, and a session
/// that waits for the browser on the bridge has not chosen yet.
pub open spec fn fits(session: ControlSession) -> bool {
    &&& session.route is WebTransport <==> session.selected == Some(SelectedTransport::WebTransport)
    &&& session.step is AwaitingConnection ==> session.selected is None
}

/// The route of media always fits the choice.
pub proof fn law_route_follows_choice(session: ControlSession, event: ControlEvent)
    requires
        fits(session),
    ensures
        fits(session.after(event).session),
{
}

/// The transport of a session, once chosen, is chosen for good.
pub proof fn law_choice_is_final(session: ControlSession, event: ControlEvent)
    requires
        fits(session),
        session.selected is Some,
    ensures
        session.after(event).session.selected == session.selected,
        session.after(event).session.route == session.route,
{
}

/// Input reaches the streamer only over the transport that was chosen.
pub proof fn law_input_takes_the_chosen_way(
    session: ControlSession,
    bytes: Vec<u8>,
    over_bridge: bool,
)
    requires
        session.step is Listening,
    ensures
        ({
            let event = if over_bridge {
                ControlEvent::Inbound(Some(bytes))
            } else {
                ControlEvent::Socket(SocketFrame::Binary(bytes))
            };
            let chosen = if over_bridge {
                SelectedTransport::WebTransport
            } else {
                SelectedTransport::WebSocket
            };
            session.after(event).action is SendIpc <==> session.selected == Some(chosen)
        }),
{
}

/// Every bridge is shut down: when it is refused, when it is given up, or at
/// the end.
pub proof fn law_no_bridge_is_left_behind(session: ControlSession, event: ControlEvent)
    ensures
        ({
            let next = session.after(event);
            session.has_bridge && !next.session.has_bridge ==> {
                ||| next.action is DropBridge
                ||| next.action is DropBridgeAndEnd
                ||| next.action matches ControlAction::SendIpc { drop_bridge, .. } && drop_bridge
            }
        }),
        event matches ControlEvent::Offer(offer) && offer is Bridge && session.step is Listening
            ==> session.after(event).session.has_bridge || session.after(event).action is RefuseBridge,
{
}

/// A finished session does nothing more.
pub proof fn law_finished_session_is_quiet(session: ControlSession, event: ControlEvent)
    requires
        session.step is Finished,
    ensures
        session.after(event) == (Controlled { session, action: ControlAction::Ignore }),
{
}

/// What the browser says reaches the streamer unchanged, but for the choice of a
/// transport. What it sends as a frame goes on as a frame if it comes the way that
/// was chosen, byte for byte, and is passed over if it does not.
pub proof fn law_words_of_the_browser_reach_the_streamer(
    session: ControlSession,
    message: StreamClientMessage,
    bytes: Vec<u8>,
)
    requires
        session.step is Listening,
    ensures
        !(message is SetTransport) ==> reaches(
            session,
            ControlEvent::Socket(SocketFrame::Text(Some(message))),
            ServerIpcMessage::WebSocket(message),
        ),
        session.selected == Some(SelectedTransport::WebSocket) ==> reaches(
            session,
            ControlEvent::Socket(SocketFrame::Binary(bytes)),
            ServerIpcMessage::WebSocketTransport(bytes),
        ),
        session.selected == Some(SelectedTransport::WebTransport) ==> reaches(
            session,
            ControlEvent::Inbound(Some(bytes)),
            ServerIpcMessage::WebSocketTransport(bytes),
        ),
        session.selected != Some(SelectedTransport::WebSocket) ==> session.after(
            ControlEvent::Socket(SocketFrame::Binary(bytes)),
        ).action is Listen,
        session.selected != Some(SelectedTransport::WebTransport) ==> session.after(
            ControlEvent::Inbound(Some(bytes)),
        ).action is Listen,
{
}

/// An event makes the session send this to the streamer, and listen again as it did
/// before once it was taken.
pub open spec fn reaches(
    session: ControlSession,
    event: ControlEvent,
    message: ServerIpcMessage,
) -> bool {
    let next = session.after(event);
    let again = next.session.after(ControlEvent::Sent(true));
    &&& next.action matches ControlAction::SendIpc { message: sent, drop_bridge, clear_media }
    &&& sent == message && !drop_bridge && !clear_media
    &&& again.action is Listen
    &&& again.session == session
}

/// The choice of WebRTC or of the socket is passed on to the streamer, and holds.
/// A bridge that is there is not needed and goes.
pub proof fn law_choice_without_the_bridge(session: ControlSession, transport: TransportType)
    requires
        session.step is Listening,
        session.selected is None,
        !(transport is WebTransport),
    ensures
        ({
            let next = session.after(
                ControlEvent::Socket(
                    SocketFrame::Text(Some(StreamClientMessage::SetTransport(transport))),
                ),
            );
            &&& next.action matches ControlAction::SendIpc { message, drop_bridge, clear_media }
            &&& message == ServerIpcMessage::WebSocket(StreamClientMessage::SetTransport(transport))
            &&& drop_bridge == session.has_bridge
            &&& !clear_media
            &&& !next.session.has_bridge
            &&& next.session.route == session.route
            &&& transport is WebRTC ==> next.session.selected == Some(SelectedTransport::WebRtc)
            &&& transport is WebSocket ==> next.session.selected == Some(
                SelectedTransport::WebSocket,
            )
        }),
{
}

/// The choice of the bridge waits for the browser to come over it. When it does,
/// media go over the bridge, what is queued on the socket is dropped, and the
/// streamer learns of the choice. When it does not, or there is no bridge, the
/// session is over.
pub proof fn law_choice_of_the_bridge(session: ControlSession)
    requires
        session.step is Listening,
        session.selected is None,
    ensures
        ({
            let choice = StreamClientMessage::SetTransport(TransportType::WebTransport);
            let waiting = session.after(ControlEvent::Socket(SocketFrame::Text(Some(choice))));
            let came = waiting.session.after(ControlEvent::Connected(true));
            let stayed_away = waiting.session.after(ControlEvent::Connected(false));
            &&& session.has_bridge ==> {
                &&& waiting.action is AwaitConnection
                &&& came.action matches ControlAction::SendIpc { message, drop_bridge, clear_media }
                &&& message == ServerIpcMessage::WebSocket(choice) && !drop_bridge && clear_media
                &&& came.session.selected == Some(SelectedTransport::WebTransport)
                &&& came.session.route is WebTransport
                &&& came.session.has_bridge
                &&& stayed_away.action is End && stayed_away.session.step is Finished
            }
            &&& !session.has_bridge ==> waiting.action is End && waiting.session.step is Finished
        }),
{
}

/// A choice that was made can be repeated, and not changed.
pub proof fn law_choice_cannot_be_changed(session: ControlSession, transport: TransportType)
    requires
        session.step is Listening,
        session.selected is Some,
    ensures
        ({
            let next = session.after(
                ControlEvent::Socket(
                    SocketFrame::Text(Some(StreamClientMessage::SetTransport(transport))),
                ),
            );
            let same = match session.selected->0 {
                SelectedTransport::WebRtc => transport is WebRTC,
                SelectedTransport::WebSocket => transport is WebSocket,
                SelectedTransport::WebTransport => transport is WebTransport,
            };
            &&& same ==> next.action is Listen && next.session == session
            &&& !same ==> next.action is End && next.session.step is Finished
        }),
{
}

/// The session is over when the socket is, when the browser talks nonsense, when
/// the streamer is done, and when a message is not taken. A ping is answered with
/// what it brought, and nothing else on the socket matters.
pub proof fn law_when_the_session_is_over(session: ControlSession, bytes: Vec<u8>)
    requires
        session.step is Listening,
    ensures
        is_over(session.after(ControlEvent::Socket(SocketFrame::Ended))),
        is_over(session.after(ControlEvent::Socket(SocketFrame::Close))),
        is_over(session.after(ControlEvent::Socket(SocketFrame::Text(None)))),
        is_over(session.after(ControlEvent::ForwarderDone)),
        is_over(session.at(ControlStep::Sending).after(ControlEvent::Sent(false))),
        session.after(ControlEvent::Socket(SocketFrame::Other)).action is Listen,
        session.after(ControlEvent::Socket(SocketFrame::Ping(bytes))).action
            == ControlAction::SendPong(bytes),
{
}

pub open spec fn is_over(next: Controlled) -> bool {
    next.action is End && next.session.step is Finished
}

/// When the bridge is lost that was chosen, the session is over. When another
/// transport was chosen, or none yet, it goes on without the bridge. A bridge that
/// waits or is connected is not lost, nor one that is not to be shut down.
pub proof fn law_what_a_lost_bridge_means(session: ControlSession)
    requires
        session.step is Listening,
        session.has_bridge,
    ensures
        forall|event: ControlEvent| #[trigger]
            loses_bridge(event) ==> {
                let next = session.after(event);
                &&& !next.session.has_bridge
                &&& !next.session.watches_state && !next.session.watches_shutdown
                    && !next.session.watches_inbound
                &&& session.selected == Some(SelectedTransport::WebTransport) ==> next.action
                    is DropBridgeAndEnd && next.session.step is Finished
                &&& session.selected != Some(SelectedTransport::WebTransport) ==> next.action
                    is DropBridge && next.session.step is Listening
            },
        session.after(
            ControlEvent::BridgeState(Some(WebTransportConnectionState::Waiting)),
        ).session.has_bridge,
        session.after(
            ControlEvent::BridgeState(Some(WebTransportConnectionState::Connected)),
        ).session.has_bridge,
        session.after(ControlEvent::BridgeShutdown(Some(false))).session.has_bridge,
{
}

/// The bridge is closed or to be shut down, or nothing more is heard of it.
pub open spec fn loses_bridge(event: ControlEvent) -> bool {
    ||| event == ControlEvent::BridgeState(Some(WebTransportConnectionState::Closed))
    ||| event == ControlEvent::BridgeState(None)
    ||| event == ControlEvent::BridgeShutdown(Some(true))
    ||| event == ControlEvent::BridgeShutdown(None)
    ||| event == ControlEvent::Inbound(None)
}

/// An offered bridge is taken and watched before a choice, and refused after one.
/// Either way, and when none comes, no further offer is expected.
pub proof fn law_what_an_offer_means(session: ControlSession, offer: BridgeOffer)
    requires
        session.step is Listening,
    ensures
        ({
            let next = session.after(ControlEvent::Offer(offer));
            &&& !next.session.setup_pending
            &&& next.session.selected == session.selected
            &&& offer is Bridge && session.selected is None ==> next.session.has_bridge
                && next.session.watches_state && next.session.watches_shutdown
                && next.session.watches_inbound && next.action is Listen
            &&& offer is Bridge && session.selected is Some ==> next.action is RefuseBridge
                && next.session.has_bridge == session.has_bridge
            &&& !(offer is Bridge) ==> next.action is Listen && next.session.has_bridge
                == session.has_bridge
        }),
{
}

/// The wait for the browser is over once the bridge is connected or closed.
pub proof fn law_when_the_wait_is_over(state: WebTransportConnectionState)
    ensures
        arrival(state) == Some(true) <==> state is Connected,
        arrival(state) == Some(false) <==> state is Closed,
        arrival(state) is None <==> state is Waiting,
{
}

/// A session listens once the streamer was told of it, is over at once otherwise, and
/// begins on the WebSocket with no bridge and no choice made.
pub proof fn law_how_a_session_begins(init_sent: bool, session: ControlSession)
    requires
        call_ensures(ControlSession::begin, (init_sent,), session),
    ensures
        session.step is Listening <==> init_sent,
        session.step is Finished <==> !init_sent,
        session.setup_pending && !session.has_bridge && session.selected is None,
        session.route is WebSocket,
        !session.watches_state && !session.watches_shutdown && !session.watches_inbound,
{
}

/// At the end a bridge that is there is shut down, and one that may still be offered is
/// looked for.
pub proof fn law_how_a_session_is_torn_down(session: ControlSession, teardown: Teardown)
    requires
        call_ensures(ControlSession::teardown, (&session,), teardown),
    ensures
        teardown.shut_down_bridge <==> session.has_bridge,
        teardown.look_for_late_bridge <==> session.setup_pending,
{
}

} // verus!
