//! Up to the launch of the streamer: which host and app the browser wants, and
//! whether it can have them.

use crate::messages::{
    log_line, AppInfo, LogMessageType, StreamClientMessage, StreamServerMessage,
};
use vstd::prelude::*;

verus! {

/// What the browser asked for in its first message.
#[derive(Clone, Copy, Debug, PartialEq, Eq, Structural)]
pub struct StreamRequest {
    pub host_id: u32,
    pub app_id: u32,
    pub video_frame_queue_size: usize,
    pub audio_sample_queue_size: usize,
}

/// Why no stream was started, as far as the browser is told.
#[derive(Clone, Copy, Debug, PartialEq, Eq, Structural)]
pub enum OpeningFailure {
    HostNotFound,
    ServerError,
    AppNotFound,
    NotPaired,
}

pub open spec fn failure_text(failure: OpeningFailure) -> Seq<char> {
    match failure {
        OpeningFailure::HostNotFound => "Failed to start stream because the host was not found"@,
        OpeningFailure::ServerError => "Failed to start stream because of a server error"@,
        OpeningFailure::AppNotFound => "Failed to start stream because the app was not found"@,
        OpeningFailure::NotPaired => "Failed to start stream because the host is not paired"@,
    }
}

impl OpeningFailure {
    /// The message to the browser.
    pub fn message(self) -> (message: StreamServerMessage)
        ensures
            message matches StreamServerMessage::DebugLog { message: text, ty } && text@
                == failure_text(self) && ty == Some(LogMessageType::FatalDescription),
    {
        let text: &'static str = match self {
            OpeningFailure::HostNotFound => "Failed to start stream because the host was not found",
            OpeningFailure::ServerError => "Failed to start stream because of a server error",
            OpeningFailure::AppNotFound => "Failed to start stream because the app was not found",
            OpeningFailure::NotPaired => "Failed to start stream because the host is not paired",
        };
        log_line(text, Some(LogMessageType::FatalDescription))
    }
}

#[derive(Clone, Copy, Debug, PartialEq, Eq, Structural)]
pub enum OpeningStep {
    /// Waits for the first message.
    AwaitingInit,
    FindingHost { request: StreamRequest },
    ListingApps { request: StreamRequest },
    FindingAddress { request: StreamRequest, app: usize },
    FindingPairing { request: StreamRequest, app: usize },
    Launching { request: StreamRequest },
    Finished,
}

/// What came of the step.
#[derive(Clone, Debug)]
pub enum OpeningEvent {
    /// A text on the socket, where it could be read as a message.
    Text(Option<StreamClientMessage>),
    Binary,
    /// A ping or the like.
    OtherFrame,
    SocketEnded,
    HostFound,
    HostNotFound,
    HostFailed,
    Apps(Vec<AppInfo>),
    AppsFailed,
    AddressFound,
    AddressFailed,
    PairingFound,
    PairingFailed,
    /// The streamer runs, and its input and output are connected.
    Launched,
    /// The streamer runs, without input or output.
    LaunchedWithoutPipes,
    LaunchFailed,
}

/// What to do next.
#[derive(Clone, Copy, Debug, PartialEq, Eq, Structural)]
pub enum OpeningAction {
    /// Wait for the next frame on the socket.
    Wait,
    /// Leave the socket as it is.
    Quit,
    /// Close the socket.
    Close,
    /// Tell the browser, and close the socket. End the streamer first if it runs.
    Fail { failure: OpeningFailure, kill_streamer: bool },
    FindHost { host_id: u32 },
    ListApps,
    FindAddress,
    FindPairing,
    /// Tell the browser which app it is and that the streamer is launched, and
    /// launch it.
    Launch { app: usize },
    /// Hand this to the streamer.
    Begin { request: StreamRequest },
    /// The event does not belong to this step.
    Ignore,
}

/// Where an app stands in the list of the host; the length where it does not.
pub open spec fn app_position(apps: Seq<AppInfo>, app_id: u32) -> nat
    decreases apps.len(),
{
    if apps.len() == 0 || apps[0].app_id == app_id {
        0
    } else {
        1 + app_position(apps.skip(1), app_id)
    }
}

pub fn find_app(apps: &Vec<AppInfo>, app_id: u32) -> (at: usize)
    ensures
        at == app_position(apps@, app_id),
        at <= apps@.len(),
{
    let mut at: usize = 0;
    assert(apps@.skip(0) =~= apps@);
    while at < apps.len()
        invariant
            at <= apps@.len(),
            app_position(apps@, app_id) == at + app_position(apps@.skip(at as int), app_id),
        decreases apps@.len() - at,
    {
        assert(apps@.skip(at as int)[0] == apps@[at as int]);
        assert(apps@.skip(at as int).skip(1) =~= apps@.skip(at + 1));
        if apps[at].app_id == app_id {
            return at;
        }
        at = at + 1;
    }
    at
}

/// The opening of a stream.
#[derive(Clone, Copy, Debug, PartialEq, Eq, Structural)]
pub struct StreamOpening {
    pub step: OpeningStep,
}

pub open spec fn failed(failure: OpeningFailure, kill_streamer: bool) -> (
    OpeningStep,
    OpeningAction,
) {
    (OpeningStep::Finished, OpeningAction::Fail { failure, kill_streamer })
}

/// The next step and the action, after a frame on the socket.
pub open spec fn on_first_frame(event: OpeningEvent) -> (OpeningStep, OpeningAction) {
    match event {
        OpeningEvent::Text(
            Some(
                StreamClientMessage::Init {
                    host_id,
                    app_id,
                    video_frame_queue_size,
                    audio_sample_queue_size,
                },
            ),
        ) => (
            OpeningStep::FindingHost {
                request: StreamRequest {
                    host_id,
                    app_id,
                    video_frame_queue_size,
                    audio_sample_queue_size,
                },
            },
            OpeningAction::FindHost { host_id },
        ),
        OpeningEvent::Text(Some(_)) => (OpeningStep::Finished, OpeningAction::Close),
        OpeningEvent::Text(None) | OpeningEvent::Binary | OpeningEvent::SocketEnded => (
            OpeningStep::Finished,
            OpeningAction::Quit,
        ),
        OpeningEvent::OtherFrame => (OpeningStep::AwaitingInit, OpeningAction::Wait),
        _ => (OpeningStep::AwaitingInit, OpeningAction::Ignore),
    }
}

pub open spec fn opening_transition(step: OpeningStep, event: OpeningEvent) -> (
    OpeningStep,
    OpeningAction,
) {
    match (step, event) {
        (OpeningStep::AwaitingInit, _) => on_first_frame(event),
        (OpeningStep::FindingHost { request }, OpeningEvent::HostFound) => (
            OpeningStep::ListingApps { request },
            OpeningAction::ListApps,
        ),
        (OpeningStep::FindingHost { .. }, OpeningEvent::HostNotFound) => failed(
            OpeningFailure::HostNotFound,
            false,
        ),
        (OpeningStep::FindingHost { .. }, OpeningEvent::HostFailed) => failed(
            OpeningFailure::ServerError,
            false,
        ),
        (OpeningStep::ListingApps { request }, OpeningEvent::Apps(apps)) => {
            let app = app_position(apps@, request.app_id);
            if app < apps@.len() {
                (
                    OpeningStep::FindingAddress { request, app: app as usize },
                    OpeningAction::FindAddress,
                )
            } else {
                failed(OpeningFailure::AppNotFound, false)
            }
        },
        (OpeningStep::ListingApps { .. }, OpeningEvent::AppsFailed) => failed(
            OpeningFailure::ServerError,
            false,
        ),
        (OpeningStep::FindingAddress { request, app }, OpeningEvent::AddressFound) => (
            OpeningStep::FindingPairing { request, app },
            OpeningAction::FindPairing,
        ),
        (OpeningStep::FindingAddress { .. }, OpeningEvent::AddressFailed) => failed(
            OpeningFailure::ServerError,
            false,
        ),
        (OpeningStep::FindingPairing { request, app }, OpeningEvent::PairingFound) => (
            OpeningStep::Launching { request },
            OpeningAction::Launch { app },
        ),
        (OpeningStep::FindingPairing { .. }, OpeningEvent::PairingFailed) => failed(
            OpeningFailure::NotPaired,
            false,
        ),
        (OpeningStep::Launching { request }, OpeningEvent::Launched) => (
            OpeningStep::Finished,
            OpeningAction::Begin { request },
        ),
        (OpeningStep::Launching { .. }, OpeningEvent::LaunchedWithoutPipes) => failed(
            OpeningFailure::ServerError,
            true,
        ),
        (OpeningStep::Launching { .. }, OpeningEvent::LaunchFailed) => failed(
            OpeningFailure::ServerError,
            false,
        ),
        _ => (step, OpeningAction::Ignore),
    }
}

impl StreamOpening {
    pub fn begin() -> (opening: Self)
        ensures
            opening.step == OpeningStep::AwaitingInit,
    {
        StreamOpening { step: OpeningStep::AwaitingInit }
    }

    fn fail(&mut self, failure: OpeningFailure, kill_streamer: bool) -> (action: OpeningAction)
        ensures
            (final(self).step, action) == failed(failure, kill_streamer),
    {
        self.step = OpeningStep::Finished;
        OpeningAction::Fail { failure, kill_streamer }
    }

    fn first_frame(&mut self, event: &OpeningEvent) -> (action: OpeningAction)
        requires
            old(self).step is AwaitingInit,
        ensures
            (final(self).step, action) == on_first_frame(*event),
    {
        match event {
            OpeningEvent::Text(Some(message)) => match message {
                StreamClientMessage::Init {
                    host_id,
                    app_id,
                    video_frame_queue_size,
                    audio_sample_queue_size,
                } => {
                    self.step = OpeningStep::FindingHost {
                        request: StreamRequest {
                            host_id: *host_id,
                            app_id: *app_id,
                            video_frame_queue_size: *video_frame_queue_size,
                            audio_sample_queue_size: *audio_sample_queue_size,
                        },
                    };
                    OpeningAction::FindHost { host_id: *host_id }
                },
                _ => {
                    self.step = OpeningStep::Finished;
                    OpeningAction::Close
                },
            },
            OpeningEvent::Text(None) | OpeningEvent::Binary | OpeningEvent::SocketEnded => {
                self.step = OpeningStep::Finished;
                OpeningAction::Quit
            },
            OpeningEvent::OtherFrame => OpeningAction::Wait,
            _ => OpeningAction::Ignore,
        }
    }

    /// The next action, after an event.
    pub fn advance(&mut self, event: &OpeningEvent) -> (action: OpeningAction)
        ensures
            (final(self).step, action) == opening_transition(old(self).step, *event),
    {
        match self.step {
            OpeningStep::AwaitingInit => self.first_frame(event),
            OpeningStep::FindingHost { request } => match event {
                OpeningEvent::HostFound => {
                    self.step = OpeningStep::ListingApps { request };
                    OpeningAction::ListApps
                },
                OpeningEvent::HostNotFound => self.fail(OpeningFailure::HostNotFound, false),
                OpeningEvent::HostFailed => self.fail(OpeningFailure::ServerError, false),
                _ => OpeningAction::Ignore,
            },
            OpeningStep::ListingApps { request } => match event {
                OpeningEvent::Apps(apps) => {
                    let app: usize = find_app(apps, request.app_id);
                    if app < apps.len() {
                        self.step = OpeningStep::FindingAddress { request, app };
                        OpeningAction::FindAddress
                    } else {
                        self.fail(OpeningFailure::AppNotFound, false)
                    }
                },
                OpeningEvent::AppsFailed => self.fail(OpeningFailure::ServerError, false),
                _ => OpeningAction::Ignore,
            },
            OpeningStep::FindingAddress { request, app } => match event {
                OpeningEvent::AddressFound => {
                    self.step = OpeningStep::FindingPairing { request, app };
                    OpeningAction::FindPairing
                },
                OpeningEvent::AddressFailed => self.fail(OpeningFailure::ServerError, false),
                _ => OpeningAction::Ignore,
            },
            OpeningStep::FindingPairing { request, app } => match event {
                OpeningEvent::PairingFound => {
                    self.step = OpeningStep::Launching { request };
                    OpeningAction::Launch { app }
                },
                OpeningEvent::PairingFailed => self.fail(OpeningFailure::NotPaired, false),
                _ => OpeningAction::Ignore,
            },
            OpeningStep::Launching { request } => match event {
                OpeningEvent::Launched => {
                    self.step = OpeningStep::Finished;
                    OpeningAction::Begin { request }
                },
                OpeningEvent::LaunchedWithoutPipes => self.fail(OpeningFailure::ServerError, true),
                OpeningEvent::LaunchFailed => self.fail(OpeningFailure::ServerError, false),
                _ => OpeningAction::Ignore,
            },
            OpeningStep::Finished => OpeningAction::Ignore,
        }
    }
}

/// The one Origin of the request for the control socket. `origins` holds each
/// Origin header, or `None` where it is not plain text. A request with none, or
/// with more than one, has no Origin to rely on.
pub fn single_origin_header(origins: &Vec<Option<String>>) -> (origin: Option<String>)
    ensures
        match origin {
            Some(text) => origins@.len() == 1 && origins@[0] is Some && text@ == origins@[0]->0@,
            None => origins@.len() != 1 || origins@[0] is None,
        },
{
    if origins.len() != 1 {
        return None;
    }
    match &origins[0] {
        Some(text) => Some(text.clone()),
        None => None,
    }
}

/// The streamer is launched only for an app of the host that was asked for, and
/// only once the host has an address and a pairing.
pub proof fn law_launch_needs_everything(step: OpeningStep, event: OpeningEvent)
    requires
        opening_transition(step, event).1 is Launch,
    ensures
        step is FindingPairing,
        event is PairingFound,
{
}

/// What follows an opening that ended is nothing.
pub proof fn law_finished_opening_stays_finished(event: OpeningEvent)
    ensures
        opening_transition(OpeningStep::Finished, event) == (
            OpeningStep::Finished,
            OpeningAction::Ignore,
        ),
{
}

/// The app that is launched has the id that was asked for, and is the first
/// with it.
pub proof fn law_app_is_the_one_asked_for(apps: Seq<AppInfo>, app_id: u32)
    ensures
        ({
            let at = app_position(apps, app_id);
            &&& at <= apps.len()
            &&& at < apps.len() ==> apps[at as int].app_id == app_id
            &&& forall|i: int| 0 <= i < at ==> (#[trigger] apps[i]).app_id != app_id
        }),
    decreases apps.len(),
{
    if apps.len() > 0 && apps[0].app_id != app_id {
        law_app_is_the_one_asked_for(apps.skip(1), app_id);
        let at = app_position(apps, app_id);
        assert forall|i: int| 0 <= i < at implies (#[trigger] apps[i]).app_id != app_id by {
            if i > 0 {
                assert(apps.skip(1)[i - 1] == apps[i]);
            }
        }
    }
}

/// A request whose host, app, address and pairing are found, and whose streamer
/// can be launched, is handed to the streamer as the browser sent it. On the way
/// the host that it names is looked for, and the app that is launched is the one
/// that it names.
pub proof fn law_request_reaches_the_streamer(request: StreamRequest, apps: Vec<AppInfo>)
    requires
        exists|i: int| 0 <= i < apps@.len() && (#[trigger] apps@[i]).app_id == request.app_id,
        apps@.len() <= usize::MAX,
    ensures
        ({
            let init = OpeningEvent::Text(
                Some(
                    StreamClientMessage::Init {
                        host_id: request.host_id,
                        app_id: request.app_id,
                        video_frame_queue_size: request.video_frame_queue_size,
                        audio_sample_queue_size: request.audio_sample_queue_size,
                    },
                ),
            );
            let (s1, a1) = opening_transition(OpeningStep::AwaitingInit, init);
            let (s2, a2) = opening_transition(s1, OpeningEvent::HostFound);
            let (s3, a3) = opening_transition(s2, OpeningEvent::Apps(apps));
            let (s4, a4) = opening_transition(s3, OpeningEvent::AddressFound);
            let (s5, a5) = opening_transition(s4, OpeningEvent::PairingFound);
            let (s6, a6) = opening_transition(s5, OpeningEvent::Launched);
            &&& a1 == OpeningAction::FindHost { host_id: request.host_id }
            &&& a2 is ListApps
            &&& a3 is FindAddress
            &&& a4 is FindPairing
            &&& a5 matches OpeningAction::Launch { app } && app < apps@.len() && apps@[app as int].app_id
                == request.app_id
            &&& a6 == OpeningAction::Begin { request }
            &&& s6 is Finished
        }),
{
    law_app_is_the_one_asked_for(apps@, request.app_id);
}

/// Where something is missing the browser is told what, the opening is over, and
/// no streamer is left running.
pub proof fn law_browser_is_told_what_is_missing(
    request: StreamRequest,
    app: usize,
    apps: Vec<AppInfo>,
)
    requires
        forall|i: int| 0 <= i < apps@.len() ==> (#[trigger] apps@[i]).app_id != request.app_id,
    ensures
        ({
            let finding = OpeningStep::FindingHost { request };
            let listing = OpeningStep::ListingApps { request };
            let address = OpeningStep::FindingAddress { request, app };
            let pairing = OpeningStep::FindingPairing { request, app };
            let launching = OpeningStep::Launching { request };
            &&& ends_with(
                opening_transition(finding, OpeningEvent::HostNotFound),
                OpeningFailure::HostNotFound,
                false,
            )
            &&& ends_with(
                opening_transition(finding, OpeningEvent::HostFailed),
                OpeningFailure::ServerError,
                false,
            )
            &&& ends_with(
                opening_transition(listing, OpeningEvent::Apps(apps)),
                OpeningFailure::AppNotFound,
                false,
            )
            &&& ends_with(
                opening_transition(listing, OpeningEvent::AppsFailed),
                OpeningFailure::ServerError,
                false,
            )
            &&& ends_with(
                opening_transition(address, OpeningEvent::AddressFailed),
                OpeningFailure::ServerError,
                false,
            )
            &&& ends_with(
                opening_transition(pairing, OpeningEvent::PairingFailed),
                OpeningFailure::NotPaired,
                false,
            )
            &&& ends_with(
                opening_transition(launching, OpeningEvent::LaunchFailed),
                OpeningFailure::ServerError,
                false,
            )
            &&& ends_with(
                opening_transition(launching, OpeningEvent::LaunchedWithoutPipes),
                OpeningFailure::ServerError,
                true,
            )
        }),
{
    law_app_is_the_one_asked_for(apps@, request.app_id);
}

/// The opening is over, and the browser is told of this failure.
pub open spec fn ends_with(
    next: (OpeningStep, OpeningAction),
    failure: OpeningFailure,
    kill_streamer: bool,
) -> bool {
    next.0 is Finished && (next.1 matches OpeningAction::Fail {
        failure: told,
        kill_streamer: killed,
    } && told == failure && killed == kill_streamer)
}

/// The first message has to be the request. Pings are passed over; any other
/// message closes the socket, and what is no message at all leaves it.
pub proof fn law_first_message_is_the_request(event: OpeningEvent)
    ensures
        ({
            let (step, action) = opening_transition(OpeningStep::AwaitingInit, event);
            match event {
                OpeningEvent::OtherFrame => step is AwaitingInit && action is Wait,
                OpeningEvent::Text(None) | OpeningEvent::Binary | OpeningEvent::SocketEnded => step
                    is Finished && action is Quit,
                OpeningEvent::Text(Some(message)) => if message is Init {
                    action is FindHost
                } else {
                    step is Finished && action is Close
                },
                _ => step is AwaitingInit && action is Ignore,
            }
        }),
{
}

/// The four failures are told apart by their words.
pub proof fn law_failures_have_words_of_their_own(a: OpeningFailure, b: OpeningFailure)
    requires
        failure_text(a) == failure_text(b),
    ensures
        a == b,
{
    reveal_strlit("Failed to start stream because the host was not found");
    reveal_strlit("Failed to start stream because of a server error");
    reveal_strlit("Failed to start stream because the app was not found");
    reveal_strlit("Failed to start stream because the host is not paired");
    let x = failure_text(a);
    let y = failure_text(b);
    if a != b {
        assert(x.len() != y.len() || x[31] != y[31] || x[35] != y[35] || x[40] != y[40]);
    }
}

/// The origin of a request is known when it has one header for it and that one can be
/// read; two of them say nothing.
pub proof fn law_which_origin_is_known(origins: &Vec<Option<String>>, origin: Option<String>)
    requires
        call_ensures(single_origin_header, (origins,), origin),
    ensures
        origin is Some <==> origins@.len() == 1 && origins@[0] is Some,
        origin is Some ==> origin->0@ == origins@[0]->0@,
{
}

} // verus!
