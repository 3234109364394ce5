//! The connection to the peer: signaling, and when it counts as lost.

use crate::messages::{
    RtcIceCandidate, RtcSdpType, StreamClientMessage, StreamSignalingMessage,
};
use crate::outside::{answer_of, offer_of, pranswer_of, read_answer, read_offer, read_pranswer};
use crate::permissions::StreamSettings;
use crate::time::Instant;
use crate::video_format::{requested, requested_formats};
use vstd::prelude::*;
use webrtc::peer_connection::sdp::session_description::RTCSessionDescription;

verus! {

/// How long a peer may be away.
pub const TIMEOUT_NANOS: u64 = 10_000_000_000;

/// A request to end the session, unless the peer comes back.
#[derive(Clone, Copy, Debug, PartialEq, Eq, Structural)]
pub struct TerminationRequest {
    pub generation: u64,
    pub requested_at: Instant,
}

#[derive(Clone, Copy, Debug, PartialEq, Eq, Structural)]
pub struct TerminationState {
    pub next_generation: u64,
    pub pending: Option<TerminationRequest>,
}

pub open spec fn generation_after(generation: u64) -> u64 {
    if generation == u64::MAX {
        0
    } else {
        (generation + 1) as u64
    }
}

impl TerminationState {
    pub fn new() -> (state: Self)
        ensures
            state == (TerminationState { next_generation: 0, pending: None }),
    {
        TerminationState { next_generation: 0, pending: None }
    }

    pub open spec fn requested(self, requested_at: Instant) -> TerminationState {
        let generation = generation_after(self.next_generation);
        TerminationState {
            next_generation: generation,
            pending: Some(TerminationRequest { generation, requested_at }),
        }
    }

    /// Whether the request still stands, and the peer was away for too long.
    pub open spec fn expired(self, request: TerminationRequest, now: Instant) -> bool {
        &&& self.pending == Some(request)
        &&& now.elapsed_since(request.requested_at) > TIMEOUT_NANOS
    }

    pub fn request(&mut self, requested_at: Instant) -> (request: TerminationRequest)
        ensures
            *final(self) == old(self).requested(requested_at),
            final(self).pending == Some(request),
    {
        self.next_generation = self.next_generation.wrapping_add(1);
        let request = TerminationRequest { generation: self.next_generation, requested_at };
        self.pending = Some(request);
        request
    }

    /// The peer came back.
    pub fn clear(&mut self)
        ensures
            *final(self) == (TerminationState { pending: None, ..*old(self) }),
    {
        self.pending = None;
    }

    pub fn is_current_and_expired(&self, request: TerminationRequest, now: Instant) -> (expired: bool)
        ensures
            expired == self.expired(request, now),
    {
        match self.pending {
            Some(pending) => pending.generation == request.generation && pending.requested_at
                == request.requested_at && now.nanos_since(request.requested_at)
                > TIMEOUT_NANOS as u128,
            None => false,
        }
    }

    /// Whether the end of the session is reported, once there is room for the
    /// report. The peer may have come back while it waited.
    pub fn send_closed_if_current(
        &self,
        request: TerminationRequest,
        now: Instant,
    ) -> (closed: bool)
        ensures
            closed == self.expired(request, now),
    {
        self.is_current_and_expired(request, now)
    }
}

#[derive(Clone, Copy, Debug, PartialEq, Eq, Structural)]
pub enum PeerState {
    New,
    Connecting,
    Connected,
    Disconnected,
    Failed,
    Closed,
}

#[derive(Clone, Copy, Debug, PartialEq, Eq, Structural)]
pub enum PeerReaction {
    /// Report the end of the session at once.
    ReportClosed,
    /// End the session unless the peer comes back.
    RequestTerminate,
    ClearRequest,
}

pub fn on_peer_connection_state_change(state: PeerState) -> (reaction: PeerReaction)
    ensures
        reaction == (match state {
            PeerState::Closed => PeerReaction::ReportClosed,
            PeerState::Failed | PeerState::Disconnected => PeerReaction::RequestTerminate,
            _ => PeerReaction::ClearRequest,
        }),
{
    match state {
        PeerState::Closed => PeerReaction::ReportClosed,
        PeerState::Failed | PeerState::Disconnected => PeerReaction::RequestTerminate,
        PeerState::New | PeerState::Connecting | PeerState::Connected => PeerReaction::ClearRequest,
    }
}

/// What a message of the browser asks of the peer connection.
#[derive(Debug)]
pub enum SignalingStep {
    /// Note the formats of the browser, and start the stream.
    StartStream { settings: StreamSettings, formats: u32 },
    SetRemoteDescription(RTCSessionDescription),
    AddIceCandidate(RtcIceCandidate),
    /// A description of no use: it cannot be read.
    RefuseDescription,
    /// An offer, which only the server makes.
    RefuseOffer,
    /// A description of a kind that is not handled.
    RefuseType,
    Nothing,
}

/// The description that a text stands for, as far as its kind is handled.
pub open spec fn description_of(ty: RtcSdpType, sdp: Seq<char>) -> Option<RTCSessionDescription> {
    match ty {
        RtcSdpType::Offer => offer_of(sdp),
        RtcSdpType::Answer => answer_of(sdp),
        RtcSdpType::Pranswer => pranswer_of(sdp),
        RtcSdpType::Rollback | RtcSdpType::Unspecified => None,
    }
}

/// What follows from a description, where it could be read.
pub fn on_description(ty: RtcSdpType, read: Option<RTCSessionDescription>) -> (step: SignalingStep)
    ensures
        step == (match (ty, read) {
            (RtcSdpType::Rollback, _) | (RtcSdpType::Unspecified, _) => SignalingStep::RefuseType,
            (_, None) => SignalingStep::RefuseDescription,
            (RtcSdpType::Offer, Some(_)) => SignalingStep::RefuseOffer,
            (_, Some(description)) => SignalingStep::SetRemoteDescription(description),
        }),
{
    match ty {
        RtcSdpType::Rollback | RtcSdpType::Unspecified => SignalingStep::RefuseType,
        RtcSdpType::Offer => if read.is_some() {
            SignalingStep::RefuseOffer
        } else {
            SignalingStep::RefuseDescription
        },
        RtcSdpType::Answer | RtcSdpType::Pranswer => match read {
            Some(description) => SignalingStep::SetRemoteDescription(description),
            None => SignalingStep::RefuseDescription,
        },
    }
}

/// Handles a message of the browser.
pub fn on_ws_message(message: StreamClientMessage) -> (step: SignalingStep)
    ensures
        match message {
            StreamClientMessage::StartStream { settings } => step == (SignalingStep::StartStream {
                settings,
                formats: requested(settings.supported_codecs),
            }),
            StreamClientMessage::WebRtc(StreamSignalingMessage::Description(description)) =>
                match (description.ty, description_of(description.ty, description.sdp@)) {
                    (RtcSdpType::Rollback, _) | (RtcSdpType::Unspecified, _) => step is RefuseType,
                    (_, None) => step is RefuseDescription,
                    (RtcSdpType::Offer, Some(_)) => step is RefuseOffer,
                    (_, Some(read)) => step == SignalingStep::SetRemoteDescription(read),
                },
            StreamClientMessage::WebRtc(StreamSignalingMessage::AddIceCandidate(candidate)) => step
                == SignalingStep::AddIceCandidate(candidate),
            _ => step is Nothing,
        },
{
    match message {
        StreamClientMessage::StartStream { settings } => {
            let formats: u32 = requested_formats(settings.supported_codecs);
            SignalingStep::StartStream { settings, formats }
        },
        StreamClientMessage::WebRtc(StreamSignalingMessage::Description(description)) => {
            let read: Option<RTCSessionDescription> = match description.ty {
                RtcSdpType::Offer => read_offer(description.sdp),
                RtcSdpType::Answer => read_answer(description.sdp),
                RtcSdpType::Pranswer => read_pranswer(description.sdp),
                RtcSdpType::Rollback | RtcSdpType::Unspecified => None,
            };
            on_description(description.ty, read)
        },
        StreamClientMessage::WebRtc(StreamSignalingMessage::AddIceCandidate(candidate)) =>
            SignalingStep::AddIceCandidate(candidate),
        StreamClientMessage::Init { .. } | StreamClientMessage::SetTransport(_) =>
            SignalingStep::Nothing,
    }
}

/// A peer that comes back in time is not given up, and one request does not
/// stand in for another.
pub proof fn law_returning_peer_is_kept(
    state: TerminationState,
    first: Instant,
    second: Instant,
    now: Instant,
)
    ensures
        ({
            let requested = state.requested(first);
            let request = requested.pending->0;
            let cleared = TerminationState { pending: None, ..requested };
            &&& !cleared.expired(request, now)
            &&& !requested.requested(second).expired(request, now)
            &&& !requested.expired(request, first)
        }),
{
}

/// A peer that left has ten seconds to come back: its request expires later than that
/// and not before, and only as long as it is the last one. Requests are told apart by
/// their generations.
pub proof fn law_peer_has_ten_seconds_to_come_back(
    state: TerminationState,
    asked: Instant,
    now: Instant,
)
    ensures
        ({
            let waiting = state.requested(asked);
            &&& waiting.pending is Some
            &&& waiting.pending->0.requested_at == asked
            &&& waiting.pending->0.generation == waiting.next_generation
            &&& waiting.next_generation != state.next_generation
            &&& state.next_generation < 0xffff_ffff_ffff_ffff ==> waiting.next_generation
                == state.next_generation + 1
            &&& waiting.expired(waiting.pending->0, now) <==> now.nanos() > asked.nanos()
                + 10_000_000_000
        }),
{
}

/// A description is read as the kind that it says it is, and kinds that say nothing of a
/// session are not read at all.
pub proof fn law_descriptions_are_read_by_their_kind(sdp: Seq<char>)
    ensures
        description_of(RtcSdpType::Offer, sdp) == offer_of(sdp),
        description_of(RtcSdpType::Answer, sdp) == answer_of(sdp),
        description_of(RtcSdpType::Pranswer, sdp) == pranswer_of(sdp),
        description_of(RtcSdpType::Rollback, sdp) is None,
        description_of(RtcSdpType::Unspecified, sdp) is None,
{
}

/// A peer that closed has ended, one that was lost may come back, and any other state
/// means that it is there.
pub proof fn law_what_the_state_of_a_peer_means(state: PeerState, reaction: PeerReaction)
    requires
        call_ensures(on_peer_connection_state_change, (state,), reaction),
    ensures
        reaction is ReportClosed <==> state is Closed,
        reaction is RequestTerminate <==> state is Failed || state is Disconnected,
        reaction is ClearRequest <==> state is New || state is Connecting || state is Connected,
{
}

/// Of what the browser says, an answer that can be read is set, an offer is refused, and
/// so is what cannot be read or says nothing. Candidates are added, and a start begins
/// with the formats that the browser asked for.
pub proof fn law_what_the_browser_says_is_done(message: StreamClientMessage, step: SignalingStep)
    requires
        call_ensures(on_ws_message, (message,), step),
    ensures
        message matches StreamClientMessage::StartStream { settings } ==> (
        step matches SignalingStep::StartStream { settings: started, formats } && started
            == settings && formats == requested(settings.supported_codecs)),
        message matches StreamClientMessage::WebRtc(
            StreamSignalingMessage::AddIceCandidate(candidate),
        ) ==> step == SignalingStep::AddIceCandidate(candidate),
        message matches StreamClientMessage::WebRtc(
            StreamSignalingMessage::Description(description),
        ) ==> {
            let sdp = description.sdp@;
            &&& description.ty is Answer ==> step == (if answer_of(sdp) is Some {
                SignalingStep::SetRemoteDescription(answer_of(sdp)->0)
            } else {
                SignalingStep::RefuseDescription
            })
            &&& description.ty is Pranswer ==> step == (if pranswer_of(sdp) is Some {
                SignalingStep::SetRemoteDescription(pranswer_of(sdp)->0)
            } else {
                SignalingStep::RefuseDescription
            })
            &&& description.ty is Offer ==> step is RefuseOffer || step is RefuseDescription
            &&& description.ty is Offer && offer_of(sdp) is Some ==> step is RefuseOffer
            &&& description.ty is Rollback || description.ty is Unspecified ==> step is RefuseType
        },
        step is SetRemoteDescription ==> message is WebRtc,
        message is Init || message is SetTransport ==> step is Nothing,
{
}

} // verus!
