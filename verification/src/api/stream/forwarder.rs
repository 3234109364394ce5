//! From the streamer to the browser. Log lines and lifecycle messages stay on
//! the control socket; media goes by the route that the browser chose.

use crate::api::low_latency_ws::BinarySendOutcome;
use crate::channel::HOST_VIDEO;
use crate::messages::{StreamServerMessage, StreamerIpcMessage};
use vstd::prelude::*;

verus! {

/// The way of media to the browser.
#[derive(Clone, Copy, Debug, PartialEq, Eq, Structural)]
pub enum RelayRoute {
    WebSocket,
    WebTransport,
}

/// What the forwarder waits for.
#[derive(Debug)]
pub enum ForwardStep {
    /// The next message of the streamer.
    Listening,
    /// The bridge for the browser.
    Registering { setup: StreamServerMessage },
    /// The other side to take the bridge over.
    HandingOver { setup: StreamServerMessage, url: Option<String> },
    /// The browser to be told of the bridge.
    Advertising { setup: StreamServerMessage },
    /// A message to be put on the control socket.
    SendingText,
    /// A frame to be put on the control socket.
    SendingFrame,
    /// The streamer to be asked for a key frame.
    RequestingIdr,
    /// A frame to be put on the bridge.
    Relaying,
    Finished,
}

#[derive(Debug)]
pub struct Forwarder {
    /// No bridge was offered yet.
    pub setup_pending: bool,
    /// There is a bridge that frames can be put on.
    pub has_bridge: bool,
    /// The streamer must be told to stop.
    pub request_child_stop: bool,
    pub step: ForwardStep,
}

#[derive(Debug)]
pub enum ForwardEvent {
    /// The session is going down.
    ShutDown,
    /// A message of the streamer, or the end of its output. The route is that
    /// of this moment.
    Message { message: Option<StreamerIpcMessage>, route: RelayRoute },
    /// The bridge was registered under this address, or there is none.
    Registered { url: Option<String> },
    HandedOver { taken: bool },
    Sent { sent: bool },
    FrameSent { outcome: Option<BinarySendOutcome> },
}

#[derive(Debug)]
pub enum ForwardAction {
    Listen,
    /// Register a bridge for the browser, where there is a hub and an origin.
    RegisterBridge,
    /// Offer the bridge, or its absence, to the other side.
    HandOver,
    /// Shut the bridge down that nobody took, then end.
    DropBridgeAndEnd,
    /// Put this on the control socket.
    SendText(StreamServerMessage),
    /// Put this on the control socket as a frame of the transport.
    SendFrame(Vec<u8>),
    /// Send the streamer [`idr_request_message`].
    RequestIdr,
    /// Put this on the bridge.
    Relay(Vec<u8>),
    End,
    /// The event does not belong to this step.
    Ignore,
}

/// A forwarder without the step.
#[derive(Clone, Copy, Debug, PartialEq, Eq, Structural)]
pub struct ForwardState {
    pub setup_pending: bool,
    pub has_bridge: bool,
    pub request_child_stop: bool,
}

impl Forwarder {
    pub open spec fn state(&self) -> ForwardState {
        ForwardState {
            setup_pending: self.setup_pending,
            has_bridge: self.has_bridge,
            request_child_stop: self.request_child_stop,
        }
    }
}

/// The step, the state and the action.
pub struct Forwarded {
    pub step: ForwardStep,
    pub state: ForwardState,
    pub action: ForwardAction,
}

/// The end of a session that failed: the streamer is told to stop.
pub open spec fn broken_off(state: ForwardState) -> Forwarded {
    Forwarded {
        step: ForwardStep::Finished,
        state: ForwardState { request_child_stop: true, ..state },
        action: ForwardAction::End,
    }
}

pub open spec fn listening(state: ForwardState) -> Forwarded {
    Forwarded { step: ForwardStep::Listening, state, action: ForwardAction::Listen }
}

/// After a message of the streamer.
pub open spec fn after_message(
    state: ForwardState,
    message: Option<StreamerIpcMessage>,
    route: RelayRoute,
) -> Forwarded {
    match message {
        None | Some(StreamerIpcMessage::Stop) => Forwarded {
            step: ForwardStep::Finished,
            state,
            action: ForwardAction::End,
        },
        Some(StreamerIpcMessage::WebSocket(text)) => if text is Setup && state.setup_pending {
            Forwarded {
                step: ForwardStep::Registering { setup: text },
                state,
                action: ForwardAction::RegisterBridge,
            }
        } else {
            Forwarded {
                step: ForwardStep::SendingText,
                state,
                action: ForwardAction::SendText(text),
            }
        },
        Some(StreamerIpcMessage::WebSocketTransport(data)) => if route is WebSocket {
            Forwarded {
                step: ForwardStep::SendingFrame,
                state,
                action: ForwardAction::SendFrame(data),
            }
        } else if state.has_bridge {
            Forwarded { step: ForwardStep::Relaying, state, action: ForwardAction::Relay(data) }
        } else {
            broken_off(state)
        },
    }
}

/// After work on the control socket, the bridge or the streamer.
pub open spec fn after_sent(step: ForwardStep, state: ForwardState, sent: bool) -> Forwarded {
    if !sent {
        broken_off(state)
    } else {
        match step {
            ForwardStep::Advertising { setup } => Forwarded {
                step: ForwardStep::SendingText,
                state,
                action: ForwardAction::SendText(setup),
            },
            _ => listening(state),
        }
    }
}

/// After the bridge was registered under `url`, or not at all.
pub open spec fn after_registered(
    state: ForwardState,
    setup: StreamServerMessage,
    url: Option<String>,
) -> Forwarded {
    Forwarded {
        step: ForwardStep::HandingOver { setup, url },
        state: ForwardState { setup_pending: false, has_bridge: url is Some, ..state },
        action: ForwardAction::HandOver,
    }
}

/// After the other side took the bridge over, or was gone.
pub open spec fn after_handed_over(
    state: ForwardState,
    setup: StreamServerMessage,
    url: Option<String>,
    taken: bool,
) -> Forwarded {
    if !taken {
        Forwarded { action: ForwardAction::DropBridgeAndEnd, ..broken_off(state) }
    } else {
        match url {
            Some(url) => Forwarded {
                step: ForwardStep::Advertising { setup },
                state,
                action: ForwardAction::SendText(StreamServerMessage::WebTransportSetup { url }),
            },
            None => Forwarded {
                step: ForwardStep::SendingText,
                state,
                action: ForwardAction::SendText(setup),
            },
        }
    }
}

/// After a frame was put on the control socket, or the socket was closed.
pub open spec fn after_frame_sent(
    state: ForwardState,
    outcome: Option<BinarySendOutcome>,
) -> Forwarded {
    match outcome {
        Some(BinarySendOutcome::NeedIdr) => Forwarded {
            step: ForwardStep::RequestingIdr,
            state,
            action: ForwardAction::RequestIdr,
        },
        Some(_) => listening(state),
        None => broken_off(state),
    }
}

/// The step, the state and the action after an event. The session may go down
/// at any time; every other event belongs to the step that waits for it.
pub open spec fn forward_transition(
    step: ForwardStep,
    state: ForwardState,
    event: ForwardEvent,
) -> Forwarded {
    match (step, event) {
        (ForwardStep::Finished, _) => Forwarded { step, state, action: ForwardAction::Ignore },
        (_, ForwardEvent::ShutDown) => broken_off(state),
        (ForwardStep::Listening, ForwardEvent::Message { message, route }) => after_message(
            state,
            message,
            route,
        ),
        (ForwardStep::Registering { setup }, ForwardEvent::Registered { url }) => after_registered(
            state,
            setup,
            url,
        ),
        (ForwardStep::HandingOver { setup, url }, ForwardEvent::HandedOver { taken }) =>
            after_handed_over(state, setup, url, taken),
        (ForwardStep::Advertising { .. }, ForwardEvent::Sent { sent })
        | (ForwardStep::SendingText, ForwardEvent::Sent { sent })
        | (ForwardStep::RequestingIdr, ForwardEvent::Sent { sent })
        | (ForwardStep::Relaying, ForwardEvent::Sent { sent }) => after_sent(step, state, sent),
        (ForwardStep::SendingFrame, ForwardEvent::FrameSent { outcome }) => after_frame_sent(
            state,
            outcome,
        ),
        _ => Forwarded { step, state, action: ForwardAction::Ignore },
    }
}

/// The request for a key frame on the wire.
pub open spec fn idr_request() -> Seq<u8> {
    seq![HOST_VIDEO, 0u8]
}

pub fn idr_request_message() -> (message: [u8; 2])
    ensures
        message@ == idr_request(),
{
    let message: [u8; 2] = [HOST_VIDEO, 0];
    assert(message@ =~= idr_request());
    message
}

/// What is to be done once the forwarder has ended.
#[derive(Clone, Copy, Debug, PartialEq, Eq, Structural)]
pub struct ForwarderEnd {
    /// Tell the other side that there will be no bridge.
    pub decline_bridge: bool,
    /// Tell the streamer to stop.
    pub stop_streamer: bool,
    /// Close the control socket before what is queued on it.
    pub close_now: bool,
}

impl Forwarder {
    pub fn begin() -> (forwarder: Self)
        ensures
            forwarder.state() == (ForwardState {
                setup_pending: true,
                has_bridge: false,
                request_child_stop: false,
            }),
            forwarder.step is Listening,
    {
        Forwarder {
            setup_pending: true,
            has_bridge: false,
            request_child_stop: false,
            step: ForwardStep::Listening,
        }
    }

    fn break_off(&mut self) -> (action: ForwardAction)
        ensures
            broken_off(old(self).state()) == (Forwarded {
                step: final(self).step,
                state: final(self).state(),
                action,
            }),
    {
        self.request_child_stop = true;
        self.step = ForwardStep::Finished;
        ForwardAction::End
    }

    /// The forwarder as the specification sees it, with an action.
    pub open spec fn with_action(&self, action: ForwardAction) -> Forwarded {
        Forwarded { step: self.step, state: self.state(), action }
    }

    fn on_message(
        &mut self,
        message: Option<StreamerIpcMessage>,
        route: RelayRoute,
    ) -> (action: ForwardAction)
        ensures
            final(self).with_action(action) == after_message(old(self).state(), message, route),
    {
        match message {
            None | Some(StreamerIpcMessage::Stop) => {
                self.step = ForwardStep::Finished;
                ForwardAction::End
            },
            Some(StreamerIpcMessage::WebSocket(text)) => {
                let is_setup: bool = match &text {
                    StreamServerMessage::Setup { .. } => true,
                    _ => false,
                };
                if is_setup && self.setup_pending {
                    self.step = ForwardStep::Registering { setup: text };
                    ForwardAction::RegisterBridge
                } else {
                    self.step = ForwardStep::SendingText;
                    ForwardAction::SendText(text)
                }
            },
            Some(StreamerIpcMessage::WebSocketTransport(data)) => match route {
                RelayRoute::WebSocket => {
                    self.step = ForwardStep::SendingFrame;
                    ForwardAction::SendFrame(data)
                },
                RelayRoute::WebTransport => if self.has_bridge {
                    self.step = ForwardStep::Relaying;
                    ForwardAction::Relay(data)
                } else {
                    self.break_off()
                },
            },
        }
    }

    fn on_registered(
        &mut self,
        setup: StreamServerMessage,
        url: Option<String>,
    ) -> (action: ForwardAction)
        ensures
            final(self).with_action(action) == after_registered(old(self).state(), setup, url),
    {
        self.setup_pending = false;
        self.has_bridge = url.is_some();
        self.step = ForwardStep::HandingOver { setup, url };
        ForwardAction::HandOver
    }

    fn on_handed_over(
        &mut self,
        setup: StreamServerMessage,
        url: Option<String>,
        taken: bool,
    ) -> (action: ForwardAction)
        ensures
            final(self).with_action(action) == after_handed_over(
                old(self).state(),
                setup,
                url,
                taken,
            ),
    {
        if !taken {
            self.request_child_stop = true;
            self.step = ForwardStep::Finished;
            return ForwardAction::DropBridgeAndEnd;
        }
        match url {
            Some(url) => {
                self.step = ForwardStep::Advertising { setup };
                ForwardAction::SendText(StreamServerMessage::WebTransportSetup { url })
            },
            None => {
                self.step = ForwardStep::SendingText;
                ForwardAction::SendText(setup)
            },
        }
    }

    fn on_frame_sent(&mut self, outcome: Option<BinarySendOutcome>) -> (action: ForwardAction)
        ensures
            final(self).with_action(action) == after_frame_sent(old(self).state(), outcome),
    {
        match outcome {
            Some(BinarySendOutcome::NeedIdr) => {
                self.step = ForwardStep::RequestingIdr;
                ForwardAction::RequestIdr
            },
            Some(BinarySendOutcome::Enqueued) | Some(BinarySendOutcome::Dropped) => {
                self.step = ForwardStep::Listening;
                ForwardAction::Listen
            },
            None => self.break_off(),
        }
    }

    fn on_sent(&mut self, sent: bool) -> (action: ForwardAction)
        ensures
            sent ==> final(self).with_action(action) == listening(old(self).state()),
            !sent ==> final(self).with_action(action) == broken_off(old(self).state()),
    {
        if !sent {
            return self.break_off();
        }
        self.step = ForwardStep::Listening;
        ForwardAction::Listen
    }

    /// The next action, after an event.
    pub fn advance(&mut self, event: ForwardEvent) -> (action: ForwardAction)
        ensures
            final(self).with_action(action) == forward_transition(
                old(self).step,
                old(self).state(),
                event,
            ),
    {
        let mut step: ForwardStep = ForwardStep::Finished;
        std::mem::swap(&mut step, &mut self.step);
        match (step, event) {
            (ForwardStep::Finished, _) => ForwardAction::Ignore,
            (_, ForwardEvent::ShutDown) => self.break_off(),
            (ForwardStep::Listening, ForwardEvent::Message { message, route }) => self.on_message(
                message,
                route,
            ),
            (ForwardStep::Registering { setup }, ForwardEvent::Registered { url }) =>
                self.on_registered(setup, url),
            (ForwardStep::HandingOver { setup, url }, ForwardEvent::HandedOver { taken }) =>
                self.on_handed_over(setup, url, taken),
            (ForwardStep::Advertising { setup }, ForwardEvent::Sent { sent }) => {
                if sent {
                    self.step = ForwardStep::SendingText;
                    ForwardAction::SendText(setup)
                } else {
                    self.break_off()
                }
            },
            (ForwardStep::SendingText, ForwardEvent::Sent { sent })
            | (ForwardStep::RequestingIdr, ForwardEvent::Sent { sent })
            | (ForwardStep::Relaying, ForwardEvent::Sent { sent }) => self.on_sent(sent),
            (ForwardStep::SendingFrame, ForwardEvent::FrameSent { outcome }) => self.on_frame_sent(
                outcome,
            ),
            (step, _) => {
                self.step = step;
                ForwardAction::Ignore
            },
        }
    }

    /// What is to be done once the forwarder has ended.
    pub fn end(&self) -> (end: ForwarderEnd)
        ensures
            end == (ForwarderEnd {
                decline_bridge: self.setup_pending,
                stop_streamer: self.request_child_stop,
                close_now: self.request_child_stop,
            }),
    {
        ForwarderEnd {
            decline_bridge: self.setup_pending,
            stop_streamer: self.request_child_stop,
            close_now: self.request_child_stop,
        }
    }
}

/// A frame goes by exactly one way: never onto the control socket once the
/// browser chose the bridge, nor onto a bridge before.
pub proof fn law_frames_take_one_route(state: ForwardState, data: Vec<u8>)
    ensures
        ({
            let message = Some(StreamerIpcMessage::WebSocketTransport(data));
            &&& after_message(state, message, RelayRoute::WebSocket).action
                == ForwardAction::SendFrame(data)
            &&& !(after_message(state, message, RelayRoute::WebTransport).action is SendFrame)
            &&& state.has_bridge ==> after_message(state, message, RelayRoute::WebTransport).action
                == ForwardAction::Relay(data)
        }),
{
}

/// A bridge is offered once: after the first, a setup message is just passed on.
pub proof fn law_bridge_is_offered_once(
    state: ForwardState,
    message: StreamerIpcMessage,
    route: RelayRoute,
)
    requires
        !state.setup_pending,
    ensures
        !(after_message(state, Some(message), route).action is RegisterBridge),
        after_message(state, Some(message), route).state.setup_pending == state.setup_pending,
{
}

/// Only the end of the streamer itself leaves it without an order to stop.
pub proof fn law_failures_stop_the_streamer(
    state: ForwardState,
    message: Option<StreamerIpcMessage>,
    route: RelayRoute,
    step: ForwardStep,
    sent: bool,
)
    ensures
        after_message(state, message, route).action is End ==> message is None || message == Some(
            StreamerIpcMessage::Stop,
        ) || after_message(state, message, route).state.request_child_stop,
        after_sent(step, state, sent).action is End ==> after_sent(
            step,
            state,
            sent,
        ).state.request_child_stop,
{
}

/// What the streamer says to the browser reaches it unchanged, and the forwarder
/// then listens again.
pub proof fn law_words_of_the_streamer_reach_the_browser(
    state: ForwardState,
    text: StreamServerMessage,
    route: RelayRoute,
)
    requires
        !(text is Setup) || !state.setup_pending,
    ensures
        ({
            let message = Some(StreamerIpcMessage::WebSocket(text));
            let sending = forward_transition(
                ForwardStep::Listening,
                state,
                ForwardEvent::Message { message, route },
            );
            let sent = forward_transition(
                sending.step,
                sending.state,
                ForwardEvent::Sent { sent: true },
            );
            &&& sending.action matches ForwardAction::SendText(said) && said == text
            &&& sent.step is Listening
            &&& sent.action is Listen
            &&& sent.state == state
        }),
{
}

/// The first setup message makes a bridge. Once the other side has it, the browser
/// gets its address, then the setup message itself. Without a bridge it gets the
/// setup message alone.
pub proof fn law_setup_brings_the_bridge_first(
    state: ForwardState,
    setup: StreamServerMessage,
    url: Option<String>,
    route: RelayRoute,
)
    requires
        setup is Setup,
        state.setup_pending,
    ensures
        ({
            let message = Some(StreamerIpcMessage::WebSocket(setup));
            let asked = forward_transition(
                ForwardStep::Listening,
                state,
                ForwardEvent::Message { message, route },
            );
            let made = forward_transition(
                asked.step,
                asked.state,
                ForwardEvent::Registered { url },
            );
            let taken = forward_transition(
                made.step,
                made.state,
                ForwardEvent::HandedOver { taken: true },
            );
            let then_sent = forward_transition(
                taken.step,
                taken.state,
                ForwardEvent::Sent { sent: true },
            );
            &&& asked.action is RegisterBridge
            &&& made.action is HandOver
            &&& !made.state.setup_pending
            &&& made.state.has_bridge == (url is Some)
            &&& match url {
                Some(url) => {
                    let last = forward_transition(
                        then_sent.step,
                        then_sent.state,
                        ForwardEvent::Sent { sent: true },
                    );
                    &&& taken.action matches ForwardAction::SendText(
                        StreamServerMessage::WebTransportSetup { url: told },
                    ) && told == url
                    &&& then_sent.action matches ForwardAction::SendText(said) && said == setup
                    &&& last.action is Listen && last.step is Listening
                },
                None => {
                    &&& taken.action matches ForwardAction::SendText(said) && said == setup
                    &&& then_sent.action is Listen && then_sent.step is Listening
                },
            }
            &&& then_sent.state.request_child_stop == state.request_child_stop
        }),
{
}

/// A bridge that nobody takes is shut down, and the streamer is stopped.
pub proof fn law_bridge_that_nobody_takes_is_dropped(
    state: ForwardState,
    setup: StreamServerMessage,
    url: Option<String>,
)
    ensures
        ({
            let next = forward_transition(
                ForwardStep::HandingOver { setup, url },
                state,
                ForwardEvent::HandedOver { taken: false },
            );
            next.action is DropBridgeAndEnd && next.step is Finished
                && next.state.request_child_stop
        }),
{
}

/// A frame that the socket could not take up makes the streamer send a key frame:
/// it is asked on the video channel. A frame that it took up asks for nothing.
pub proof fn law_lost_frame_asks_for_a_key_frame(
    state: ForwardState,
    outcome: Option<BinarySendOutcome>,
)
    ensures
        ({
            let next = forward_transition(
                ForwardStep::SendingFrame,
                state,
                ForwardEvent::FrameSent { outcome },
            );
            &&& next.action is RequestIdr <==> outcome == Some(BinarySendOutcome::NeedIdr)
            &&& next.action is Listen <==> outcome is Some && outcome != Some(
                BinarySendOutcome::NeedIdr,
            )
            &&& outcome is None ==> next.action is End && next.state.request_child_stop
            &&& next.action is RequestIdr ==> forward_transition(
                next.step,
                next.state,
                ForwardEvent::Sent { sent: true },
            ).step is Listening
        }),
        idr_request().len() == 2 && idr_request()[0] == 2 && idr_request()[1] == 0,
{
}

/// A streamer that ends, or says that it stops, need not be told to stop. When the
/// session goes down first, or a send fails, it must be.
pub proof fn law_when_the_streamer_must_be_stopped(
    step: ForwardStep,
    state: ForwardState,
    message: Option<StreamerIpcMessage>,
    route: RelayRoute,
)
    ensures
        message is None || message == Some(StreamerIpcMessage::Stop) ==> {
            let next = forward_transition(
                ForwardStep::Listening,
                state,
                ForwardEvent::Message { message, route },
            );
            next.step is Finished && next.action is End && next.state == state
        },
        !(step is Finished) ==> {
            let next = forward_transition(step, state, ForwardEvent::ShutDown);
            next.step is Finished && next.action is End && next.state.request_child_stop
        },
        step is SendingText || step is RequestingIdr || step is Relaying || step is Advertising
            ==> {
            let next = forward_transition(step, state, ForwardEvent::Sent { sent: false });
            next.step is Finished && next.action is End && next.state.request_child_stop
        },
{
}

/// Frames for the bridge need one: without it the streamer is stopped.
pub proof fn law_frames_need_their_route(state: ForwardState, data: Vec<u8>)
    requires
        !state.has_bridge,
    ensures
        ({
            let next = forward_transition(
                ForwardStep::Listening,
                state,
                ForwardEvent::Message {
                    message: Some(StreamerIpcMessage::WebSocketTransport(data)),
                    route: RelayRoute::WebTransport,
                },
            );
            next.step is Finished && next.action is End && next.state.request_child_stop
        }),
{
}

/// A forwarder begins with a bridge still to come. At its end it declines a bridge that
/// was never taken, and stops the streamer where the streamer does not stop by itself.
pub proof fn law_how_a_forwarder_begins_and_ends(
    begun: Forwarder,
    forwarder: Forwarder,
    end: ForwarderEnd,
)
    requires
        call_ensures(Forwarder::begin, (), begun),
        call_ensures(Forwarder::end, (&forwarder,), end),
    ensures
        begun.state().setup_pending && !begun.state().has_bridge,
        !begun.state().request_child_stop,
        begun.step is Listening,
        end.decline_bridge <==> forwarder.setup_pending,
        end.stop_streamer <==> forwarder.request_child_stop,
        end.close_now <==> forwarder.request_child_stop,
{
}

} // verus!
