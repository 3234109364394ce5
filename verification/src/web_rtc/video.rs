//! Video over RTP: a frame is taken apart into packets, and a frame that could
//! not be sent makes the track wait for a key frame.

use crate::frame::DecodeResult;
use crate::messages::{log_line, LogMessageType, StreamServerMessage};
use crate::outside::{av1_payload, av1_payloads};
use crate::text::{decimal, decimal_digits};
use crate::time::Duration;
use crate::video_format::{
    announces, format_name, offers, video_format_to_codec, CodecParameters, VideoFormat,
};
use crate::web_rtc::av1::units_fit;
use crate::web_rtc::h264::{
    bytes_of, fills_up, frame_samples, law_what_becomes_of_the_units, samples_from, stands_alone,
    unit_stream, H264_HEADER_SIZE, H265_HEADER_SIZE,
};
use crate::web_rtc::track::{clamped_queue_size, FrameSamples, TrackLocalSender};
use vstd::prelude::*;

verus! {

/// The largest packet.
pub const RTP_OUTBOUND_MTU: usize = 1200;

/// The length of the header of a packet.
pub const RTP_HEADER_SIZE: usize = 12;

/// The clock of video in RTP, per second.
pub const VIDEO_CLOCK_RATE: u32 = 90_000;

#[derive(Clone, Copy, Debug, PartialEq, Eq, Structural)]
pub enum VideoCodec {
    H264,
    H265,
    Av1,
}

pub open spec fn codec_of(format: VideoFormat) -> VideoCodec {
    match format {
        VideoFormat::H264 | VideoFormat::H264High8_444 => VideoCodec::H264,
        VideoFormat::H265
        | VideoFormat::H265Main10
        | VideoFormat::H265Rext8_444
        | VideoFormat::H265Rext10_444 => VideoCodec::H265,
        VideoFormat::Av1Main8
        | VideoFormat::Av1Main10
        | VideoFormat::Av1High8_444
        | VideoFormat::Av1High10_444 => VideoCodec::Av1,
    }
}

/// A packet of a track. The number, the payload type and the source are set
/// when it is sent.
#[derive(Debug, PartialEq, Eq)]
pub struct RtpPacket {
    pub version: u8,
    pub padding: bool,
    pub extension: bool,
    /// The last packet of a frame.
    pub marker: bool,
    pub sequence_number: u16,
    pub timestamp: u32,
    pub payload_type: u8,
    pub ssrc: u32,
    pub payload: Vec<u8>,
}

/// The packet with this payload.
pub open spec fn is_packet(
    packet: RtpPacket,
    payload: Seq<u8>,
    sequence_number: u16,
    timestamp: u32,
    marker: bool,
) -> bool {
    &&& packet.version == 2
    &&& !packet.padding
    &&& !packet.extension
    &&& packet.marker == marker
    &&& packet.sequence_number == sequence_number
    &&& packet.timestamp == timestamp
    &&& packet.payload_type == 0
    &&& packet.ssrc == 0
    &&& packet.payload@ == payload
}

fn packet_with(
    payload: Vec<u8>,
    sequence_number: u16,
    timestamp: u32,
    marker: bool,
) -> (packet: RtpPacket)
    ensures
        is_packet(packet, payload@, sequence_number, timestamp, marker),
{
    RtpPacket {
        version: 2,
        padding: false,
        extension: false,
        marker,
        sequence_number,
        timestamp,
        payload_type: 0,
        ssrc: 0,
        payload,
    }
}

/// Packets with these payloads.
pub open spec fn are_packets(
    packets: Seq<RtpPacket>,
    payloads: Seq<Seq<u8>>,
    sequence_number: u16,
    timestamp: u32,
    end_has_marker: bool,
) -> bool {
    &&& packets.len() == payloads.len()
    &&& forall|i: int|
        0 <= i < packets.len() ==> is_packet(
            #[trigger] packets[i],
            payloads[i],
            sequence_number,
            timestamp,
            end_has_marker && i == packets.len() - 1,
        )
}

/// Puts payloads into packets.
pub fn packetize(
    payloads: Vec<Vec<u8>>,
    sequence_number: u16,
    timestamp: u32,
    end_has_marker: bool,
) -> (packets: Vec<RtpPacket>)
    ensures
        are_packets(
            packets@,
            bytes_of(payloads@),
            sequence_number,
            timestamp,
            end_has_marker,
        ),
{
    let ghost all = payloads@;
    let mut left: Vec<Vec<u8>> = payloads;
    let mut packets: Vec<RtpPacket> = Vec::new();
    let mut i: usize = 0;
    assert(all.skip(0) =~= all);
    let count: usize = left.len();
    while left.len() > 0
        invariant
            i <= count,
            count == all.len(),
            left@ == all.skip(i as int),
            packets@.len() == i,
            forall|k: int|
                0 <= k < i ==> is_packet(
                    #[trigger] packets@[k],
                    all[k]@,
                    sequence_number,
                    timestamp,
                    end_has_marker && k == count - 1,
                ),
        decreases left@.len(),
    {
        let payload: Vec<u8> = left.remove(0);
        assert(payload == all[i as int]);
        assert(left@ =~= all.skip(i + 1));
        packets.push(
            packet_with(payload, sequence_number, timestamp, end_has_marker && i == count - 1),
        );
        i = i + 1;
    }
    packets
}

/// The time of a frame on the clock of video, which has 32 bits.
pub open spec fn rtp_timestamp(nanos: nat) -> int {
    (nanos * 90_000 / 1_000_000_000) as int % 0x1_0000_0000
}

pub fn video_timestamp(time: Duration) -> (timestamp: u32)
    ensures
        timestamp == rtp_timestamp(time.nanos()),
{
    let nanos: u128 = time.as_nanos();
    (nanos * 90_000 / 1_000_000_000 % 0x1_0000_0000) as u32
}

/// The payloads of the samples of a frame behind one another; none where a
/// sample could not be packed.
pub open spec fn all_payloads(payloads: Seq<Option<Vec<Vec<u8>>>>) -> Option<Seq<Seq<u8>>>
    decreases payloads.len(),
{
    if payloads.len() == 0 {
        Some(Seq::empty())
    } else {
        match (all_payloads(payloads.drop_last()), payloads.last()) {
            (Some(before), Some(last)) => Some(before + bytes_of(last@)),
            _ => None,
        }
    }
}

/// No sample is empty.
pub open spec fn no_empty_sample(samples: Seq<Vec<u8>>) -> bool {
    forall|i: int| 0 <= i < samples.len() ==> (#[trigger] samples[i])@.len() > 0
}

/// The payloads of a frame that can be sent.
pub open spec fn frame_payloads(
    samples: Seq<Vec<u8>>,
    payloads: Seq<Option<Vec<Vec<u8>>>>,
) -> Option<Seq<Seq<u8>>> {
    match all_payloads(payloads) {
        Some(all) => if samples.len() > 0 && no_empty_sample(samples) && all.len() > 0 {
            Some(all)
        } else {
            None
        },
        None => None,
    }
}

fn collect_payloads(payloads: Vec<Option<Vec<Vec<u8>>>>) -> (all: Option<Vec<Vec<u8>>>)
    ensures
        match all {
            Some(all) => all_payloads(payloads@) == Some(bytes_of(all@)),
            None => all_payloads(payloads@) is None,
        },
    decreases payloads@.len(),
{
    let mut payloads: Vec<Option<Vec<Vec<u8>>>> = payloads;
    let ghost whole = payloads@;
    match payloads.pop() {
        None => {
            let all: Vec<Vec<u8>> = Vec::new();
            assert(bytes_of(all@) =~= Seq::<Seq<u8>>::empty());
            Some(all)
        },
        Some(last) => {
            assert(payloads@ =~= whole.drop_last());
            let mut last: Vec<Vec<u8>> = match last {
                Some(last) => last,
                None => {
                    return None;
                },
            };
            match collect_payloads(payloads) {
                Some(before) => {
                    let mut all: Vec<Vec<u8>> = before;
                    let ghost first = all@;
                    let ghost second = last@;
                    all.append(&mut last);
                    assert(all@ =~= first + second);
                    assert(bytes_of(all@) =~= bytes_of(first) + bytes_of(second));
                    Some(all)
                },
                None => None,
            }
        },
    }
}

/// The packets of a frame: what the packer made of its samples, with a mark on
/// the last. `payloads` holds what it made of each sample, or `None` where it
/// failed. A frame with an empty sample, or without any packet, is not sent.
pub fn frame_packets(
    samples: &Vec<Vec<u8>>,
    payloads: Vec<Option<Vec<Vec<u8>>>>,
    timestamp: u32,
) -> (packets: Option<Vec<RtpPacket>>)
    ensures
        match frame_payloads(samples@, payloads@) {
            Some(all) => packets is Some && are_packets(packets->0@, all, 0, timestamp, true),
            None => packets is None,
        },
{
    let mut i: usize = 0;
    while i < samples.len()
        invariant
            i <= samples@.len(),
            forall|k: int| 0 <= k < i ==> (#[trigger] samples@[k])@.len() > 0,
        decreases samples@.len() - i,
    {
        if samples[i].len() == 0 {
            return None;
        }
        i = i + 1;
    }
    if samples.len() == 0 {
        return None;
    }
    let all: Vec<Vec<u8>> = match collect_payloads(payloads) {
        Some(all) => all,
        None => {
            return None;
        },
    };
    assert(bytes_of(all@).len() == all@.len());
    if all.len() == 0 {
        return None;
    }
    Some(packetize(all, 0, timestamp, true))
}

/// A video track.
#[derive(Debug)]
pub struct WebRtcVideo {
    pub supported_video_formats: u32,
    pub sender: TrackLocalSender<RtpPacket>,
    /// The browser lost a picture.
    pub needs_idr: bool,
    /// Nothing but a key frame is sent.
    pub awaiting_idr: bool,
    pub clock_rate: u32,
    pub codec: Option<VideoCodec>,
}

/// What to do with a format that the host chose.
#[derive(Debug)]
pub enum VideoSetupStep {
    /// Tell the browser, and set nothing up.
    Refuse(StreamServerMessage),
    /// Create a track with this codec.
    CreateTrack(CodecParameters),
}

/// The words for a format that the browser did not ask for.
pub open spec fn refusal_text(format: VideoFormat, supported: u32) -> Seq<char> {
    "The host tried to setup a video stream with a non supported video format: "@ + format_name(
        format,
    ) + ", supported formats: "@ + decimal_digits(supported as nat)
}

/// The browser gets to know why there is no stream.
pub open spec fn is_refusal(
    message: StreamServerMessage,
    format: VideoFormat,
    supported: u32,
) -> bool {
    message matches StreamServerMessage::DebugLog { message, ty } && message@ == refusal_text(
        format,
        supported,
    ) && ty == Some(LogMessageType::FatalDescription)
}

fn refusal(format: VideoFormat, supported: u32) -> (message: StreamServerMessage)
    ensures
        is_refusal(message, format, supported),
{
    let mut text: String =
        "The host tried to setup a video stream with a non supported video format: ".to_owned();
    text.append(format.name());
    text.append(", supported formats: ");
    text.append(decimal(supported as u64).as_str());
    log_line(text.as_str(), Some(LogMessageType::FatalDescription))
}

/// What to do with a frame.
#[derive(Debug, PartialEq, Eq)]
pub enum UnitStep {
    /// Pack these samples, each on its own, and hand in what came of them.
    Pack(Vec<Vec<u8>>),
    NeedIdr,
}

/// The samples of a frame, where it can be taken apart.
pub open spec fn unit_samples(codec: Option<VideoCodec>, frame: Seq<u8>) -> Option<Seq<Seq<u8>>> {
    match codec {
        Some(VideoCodec::H264) => samples_from(frame, 0, 1),
        Some(VideoCodec::H265) => samples_from(frame, 0, 2),
        Some(VideoCodec::Av1) => Some(seq![frame]),
        None => None,
    }
}

impl WebRtcVideo {
    pub open spec fn well_formed(&self) -> bool {
        self.sender.well_formed()
    }

    /// Everything but the latch that waits for a key frame and the queue.
    pub open spec fn same_setup(&self, other: &WebRtcVideo) -> bool {
        &&& self.supported_video_formats == other.supported_video_formats
        &&& self.clock_rate == other.clock_rate
        &&& self.codec == other.codec
        &&& self.sender.channel_queue_size == other.sender.channel_queue_size
    }

    pub fn new(frame_queue_size: usize) -> (video: Self)
        ensures
            video.well_formed(),
            video.supported_video_formats == 0,
            !video.needs_idr,
            !video.awaiting_idr,
            video.clock_rate == 0,
            video.codec is None,
            video.sender.channel_queue_size == clamped_queue_size(frame_queue_size),
            video.sender.queue@.len() == 0,
    {
        WebRtcVideo {
            supported_video_formats: 0,
            sender: TrackLocalSender::new(frame_queue_size),
            needs_idr: false,
            awaiting_idr: false,
            clock_rate: 0,
            codec: None,
        }
    }

    pub fn set_codecs(&mut self, supported_codecs: u32)
        requires
            old(self).well_formed(),
        ensures
            final(self).well_formed(),
            *final(self) == (WebRtcVideo {
                supported_video_formats: supported_codecs,
                ..*old(self)
            }),
    {
        self.supported_video_formats = supported_codecs;
    }

    /// Begins with the setup of a format. One that the browser did not ask for is
    /// refused, and the browser is told.
    pub fn setup_step(&self, format: VideoFormat) -> (step: VideoSetupStep)
        ensures
            match step {
                VideoSetupStep::Refuse(message) => !offers(self.supported_video_formats, format)
                    && is_refusal(message, format, self.supported_video_formats),
                VideoSetupStep::CreateTrack(codec) => offers(self.supported_video_formats, format)
                    && announces(codec, format),
            },
    {
        if self.supported_video_formats & format.bit() == 0 {
            return VideoSetupStep::Refuse(refusal(format, self.supported_video_formats));
        }
        match video_format_to_codec(format) {
            Some(codec) => VideoSetupStep::CreateTrack(codec),
            None => VideoSetupStep::Refuse(refusal(format, self.supported_video_formats)),
        }
    }

    /// Ends with the setup of a format, once its track was created or could not
    /// be. Says whether the video is set up; it stays as it was where it is not.
    pub fn setup(&mut self, format: VideoFormat, track_created: bool) -> (set_up: bool)
        requires
            old(self).well_formed(),
        ensures
            final(self).well_formed(),
            set_up == (offers(old(self).supported_video_formats, format) && track_created),
            *final(self) == (if set_up {
                WebRtcVideo {
                    clock_rate: VIDEO_CLOCK_RATE,
                    codec: Some(codec_of(format)),
                    ..*old(self)
                }
            } else {
                *old(self)
            }),
    {
        if self.supported_video_formats & format.bit() == 0 || !track_created {
            return false;
        }
        self.clock_rate = VIDEO_CLOCK_RATE;
        self.codec = Some(
            match format {
                VideoFormat::H264 | VideoFormat::H264High8_444 => VideoCodec::H264,
                VideoFormat::H265
                | VideoFormat::H265Main10
                | VideoFormat::H265Rext8_444
                | VideoFormat::H265Rext10_444 => VideoCodec::H265,
                VideoFormat::Av1Main8
                | VideoFormat::Av1Main10
                | VideoFormat::Av1High8_444
                | VideoFormat::Av1High10_444 => VideoCodec::Av1,
            },
        );
        true
    }

    /// The browser reported a lost picture.
    pub fn on_picture_loss(&mut self)
        requires
            old(self).well_formed(),
        ensures
            final(self).well_formed(),
            *final(self) == (WebRtcVideo { needs_idr: true, ..*old(self) }),
    {
        self.needs_idr = true;
    }

    /// Whether a frame is let through: nothing but a key frame is, once a frame
    /// was lost.
    pub open spec fn lets_through(&self, important: bool) -> bool {
        important || !(self.awaiting_idr || self.needs_idr)
    }

    /// Begins with a frame.
    pub fn begin_unit(&mut self, frame: Vec<u8>, important: bool) -> (step: UnitStep)
        requires
            old(self).well_formed(),
        ensures
            final(self).well_formed(),
            final(self).same_setup(old(self)),
            final(self).sender == old(self).sender,
            !final(self).needs_idr,
            ({
                let samples = unit_samples(old(self).codec, frame@);
                if !old(self).lets_through(important) || samples is None {
                    step is NeedIdr && final(self).awaiting_idr
                } else {
                    &&& step matches UnitStep::Pack(taken)
                    &&& bytes_of(taken@) == samples->0
                    &&& final(self).awaiting_idr == (old(self).awaiting_idr || old(self).needs_idr)
                }
            }),
    {
        if self.needs_idr {
            self.needs_idr = false;
            self.awaiting_idr = true;
        }
        if self.awaiting_idr && !important {
            return UnitStep::NeedIdr;
        }
        let samples: Option<Vec<Vec<u8>>> = match self.codec {
            Some(VideoCodec::H264) => frame_samples(frame, H264_HEADER_SIZE),
            Some(VideoCodec::H265) => frame_samples(frame, H265_HEADER_SIZE),
            Some(VideoCodec::Av1) => {
                let ghost content = frame@;
                let mut samples: Vec<Vec<u8>> = Vec::new();
                samples.push(frame);
                assert(bytes_of(samples@) =~= seq![content]);
                Some(samples)
            },
            None => None,
        };
        match samples {
            Some(samples) => UnitStep::Pack(samples),
            None => {
                self.awaiting_idr = true;
                UnitStep::NeedIdr
            },
        }
    }

    fn queue_frame(&mut self, packets: Vec<RtpPacket>, important: bool) -> (queued: bool)
        requires
            old(self).well_formed(),
        ensures
            final(self).well_formed(),
            final(self).same_setup(old(self)),
            final(self).needs_idr == old(self).needs_idr,
            final(self).awaiting_idr == old(self).awaiting_idr,
            queued == (important || old(self).sender.queue@.len() < old(self).sender.channel_queue_size),
            final(self).sender.queue@ == (if important {
                seq![FrameSamples { important, samples: packets }]
            } else if queued {
                seq![FrameSamples { important, samples: packets }] + old(self).sender.queue@
            } else {
                Seq::empty()
            }),
    {
        if important {
            self.sender.replace_queued_samples(packets, important);
            return true;
        }
        if !self.sender.send_samples(packets, important) {
            self.sender.clear_queue(true);
            return false;
        }
        true
    }

    /// Ends with a frame, after its samples were packed.
    pub fn finish_unit(
        &mut self,
        samples: &Vec<Vec<u8>>,
        payloads: Vec<Option<Vec<Vec<u8>>>>,
        timestamp: u32,
        important: bool,
    ) -> (result: DecodeResult)
        requires
            old(self).well_formed(),
        ensures
            final(self).well_formed(),
            final(self).same_setup(old(self)),
            !final(self).needs_idr,
            ({
                let all = frame_payloads(samples@, payloads@);
                let room = important || old(self).sender.queue@.len() < old(self).sender.channel_queue_size;
                let sent = all is Some && room && !old(self).needs_idr;
                &&& result == (if sent {
                    DecodeResult::Accepted
                } else {
                    DecodeResult::NeedIdr
                })
                &&& final(self).awaiting_idr == (!sent || (old(self).awaiting_idr && !important))
                &&& match all {
                    None => final(self).sender.queue@ == old(self).sender.queue@,
                    Some(all) => if room {
                        &&& final(self).sender.queue@.len() > 0
                        &&& final(self).sender.queue@[0].important == important
                        &&& are_packets(
                            final(self).sender.queue@[0].samples@,
                            all,
                            0,
                            timestamp,
                            true,
                        )
                        &&& final(self).sender.queue@.skip(1) == (if important {
                            Seq::empty()
                        } else {
                            old(self).sender.queue@
                        })
                    } else {
                        final(self).sender.queue@ == Seq::<FrameSamples<RtpPacket>>::empty()
                    },
                }
            }),
    {
        let frame_queued: bool = match frame_packets(samples, payloads, timestamp) {
            Some(packets) => {
                let queued: bool = self.queue_frame(packets, important);
                proof {
                    if queued {
                        assert(self.sender.queue@.skip(1) =~= (if important {
                            Seq::empty()
                        } else {
                            old(self).sender.queue@
                        }));
                    }
                }
                queued
            },
            None => false,
        };
        let idr_requested: bool = self.needs_idr;
        self.needs_idr = false;
        if !frame_queued || idr_requested {
            self.awaiting_idr = true;
            return DecodeResult::NeedIdr;
        }
        if important {
            self.awaiting_idr = false;
        }
        DecodeResult::Accepted
    }

    /// Sends a frame of AV1 video, whose packer comes with the transport. The
    /// packer reads only what is let through.
    pub fn send_av1_unit(
        &mut self,
        frame: Vec<u8>,
        timestamp: u32,
        important: bool,
    ) -> (result: DecodeResult)
        requires
            old(self).well_formed(),
            old(self).codec == Some(VideoCodec::Av1),
            old(self).lets_through(important) ==> units_fit(frame@, 0),
        ensures
            final(self).well_formed(),
            final(self).same_setup(old(self)),
            !final(self).needs_idr,
            ({
                let payloads = av1_payloads((RTP_OUTBOUND_MTU - RTP_HEADER_SIZE) as nat, frame@);
                let sendable = frame@.len() > 0 && payloads is Some && payloads->0.len() > 0;
                let room = important || old(self).sender.queue@.len() < old(self).sender.channel_queue_size;
                let sent = old(self).lets_through(important) && sendable && room;
                &&& result == (if sent {
                    DecodeResult::Accepted
                } else {
                    DecodeResult::NeedIdr
                })
                &&& final(self).awaiting_idr == !sent
                &&& if !old(self).lets_through(important) || !sendable {
                    final(self).sender.queue@ == old(self).sender.queue@
                } else if room {
                    &&& final(self).sender.queue@.len() > 0
                    &&& final(self).sender.queue@[0].important == important
                    &&& are_packets(
                        final(self).sender.queue@[0].samples@,
                        payloads->0,
                        0,
                        timestamp,
                        true,
                    )
                    &&& final(self).sender.queue@.skip(1) == (if important {
                        Seq::empty()
                    } else {
                        old(self).sender.queue@
                    })
                } else {
                    final(self).sender.queue@ == Seq::<FrameSamples<RtpPacket>>::empty()
                }
            }),
    {
        let ghost content = frame@;
        match self.begin_unit(frame, important) {
            UnitStep::Pack(samples) => {
                assert(bytes_of(samples@).len() == 1);
                assert(bytes_of(samples@)[0] == samples@[0]@);
                let payloads = av1_payload(RTP_OUTBOUND_MTU - RTP_HEADER_SIZE, samples[0].clone());
                let mut packed: Vec<Option<Vec<Vec<u8>>>> = Vec::new();
                packed.push(payloads);
                proof {
                    assert(packed@.drop_last() =~= Seq::<Option<Vec<Vec<u8>>>>::empty());
                    assert(all_payloads(packed@.drop_last()) == Some(Seq::<Seq<u8>>::empty()));
                    if payloads is Some {
                        assert(Seq::<Seq<u8>>::empty() + bytes_of(payloads->0@) =~= bytes_of(
                            payloads->0@,
                        ));
                    }
                    assert(no_empty_sample(samples@) == (content.len() > 0)) by {
                        if content.len() == 0 {
                            assert(samples@[0]@.len() == 0);
                        }
                    }
                }
                self.finish_unit(&samples, packed, timestamp, important)
            },
            UnitStep::NeedIdr => DecodeResult::NeedIdr,
        }
    }
}

/// All packets of a frame have its time, and exactly the last has the mark.
pub proof fn law_last_packet_is_marked(
    packets: Seq<RtpPacket>,
    payloads: Seq<Seq<u8>>,
    timestamp: u32,
)
    requires
        are_packets(packets, payloads, 0, timestamp, true),
    ensures
        forall|i: int|
            0 <= i < packets.len() ==> (#[trigger] packets[i]).timestamp == timestamp
                && packets[i].marker == (i == packets.len() - 1),
{
}

/// Once a frame was lost, no frame but a key frame is let through.
pub proof fn law_lost_frame_waits_for_a_key_frame(video: WebRtcVideo)
    requires
        video.awaiting_idr || video.needs_idr,
    ensures
        !video.lets_through(false),
        video.lets_through(true),
{
}

/// A frame of H.264 or H.265 video is taken apart into the units that it was made
/// of, in their order, whichever of the two the track has: units of H.264 video
/// have a header of one byte, and those that only fill up the stream go no
/// further; units of H.265 video have one of two bytes, and all go further. A unit
/// without a whole header spoils the frame. A frame of AV1 video goes further as
/// it is, and without a codec nothing does.
pub proof fn law_frames_are_taken_apart(units: Seq<Seq<u8>>, frame: Seq<u8>)
    requires
        forall|k: int| 0 <= k < units.len() ==> stands_alone(#[trigger] units[k]),
    ensures
        (forall|k: int| 0 <= k < units.len() ==> (#[trigger] units[k]).len() >= 1)
            ==> unit_samples(Some(VideoCodec::H264), unit_stream(units)) == Some(
            units.filter(|unit: Seq<u8>| !fills_up(unit)),
        ),
        (forall|k: int| 0 <= k < units.len() ==> (#[trigger] units[k]).len() >= 2)
            ==> unit_samples(Some(VideoCodec::H265), unit_stream(units)) == Some(units),
        (exists|k: int| 0 <= k < units.len() && (#[trigger] units[k]).len() < 1)
            ==> unit_samples(Some(VideoCodec::H264), unit_stream(units)) is None,
        (exists|k: int| 0 <= k < units.len() && (#[trigger] units[k]).len() < 2)
            ==> unit_samples(Some(VideoCodec::H265), unit_stream(units)) is None,
        unit_samples(Some(VideoCodec::Av1), frame) matches Some(samples) && samples.len() == 1
            && samples[0] == frame,
        unit_samples(None, frame) is None,
{
    law_what_becomes_of_the_units(units, 1);
    law_what_becomes_of_the_units(units, 2);
}

/// A track that lost nothing lets every frame through. One that lost something
/// lets a key frame through, and nothing else.
pub proof fn law_what_is_let_through(video: WebRtcVideo, important: bool)
    ensures
        !video.awaiting_idr && !video.needs_idr ==> video.lets_through(important),
        video.awaiting_idr || video.needs_idr ==> video.lets_through(important) == important,
{
}

/// A codec for each family of formats.
pub proof fn law_each_format_has_the_codec_of_its_family(format: VideoFormat)
    ensures
        codec_of(format) is H264 <==> format == VideoFormat::H264 || format
            == VideoFormat::H264High8_444,
        codec_of(format) is Av1 <==> format == VideoFormat::Av1Main8 || format
            == VideoFormat::Av1Main10 || format == VideoFormat::Av1High8_444 || format
            == VideoFormat::Av1High10_444,
{
}

/// A frame can be sent where every sample of it is there and was packed, and there
/// is something to send. Its payloads are then those of the samples, one behind
/// the other, and none is lost.
pub proof fn law_frame_is_sent_whole(
    samples: Seq<Vec<u8>>,
    payloads: Seq<Option<Vec<Vec<u8>>>>,
)
    ensures
        frame_payloads(samples, payloads) is Some ==> samples.len() > 0 && (forall|i: int|
            0 <= i < samples.len() ==> (#[trigger] samples[i])@.len() > 0) && (forall|i: int|
            0 <= i < payloads.len() ==> (#[trigger] payloads[i]) is Some),
        (forall|i: int| 0 <= i < payloads.len() ==> (#[trigger] payloads[i]) is Some)
            && samples.len() > 0 && (forall|i: int|
            0 <= i < samples.len() ==> (#[trigger] samples[i])@.len() > 0) && (exists|i: int|
            0 <= i < payloads.len() && (#[trigger] payloads[i])->0@.len() > 0) ==> (
        frame_payloads(samples, payloads) matches Some(all) && all == payloads.map_values(
            |packed: Option<Vec<Vec<u8>>>| bytes_of(packed->0@),
        ).flatten()),
{
    lemma_all_payloads(payloads);
}

proof fn lemma_all_payloads(payloads: Seq<Option<Vec<Vec<u8>>>>)
    ensures
        all_payloads(payloads) is Some <==> forall|i: int|
            0 <= i < payloads.len() ==> (#[trigger] payloads[i]) is Some,
        all_payloads(payloads) matches Some(all) ==> all == payloads.map_values(
            |packed: Option<Vec<Vec<u8>>>| bytes_of(packed->0@),
        ).flatten() && (all.len() > 0 <==> exists|i: int|
            0 <= i < payloads.len() && (#[trigger] payloads[i])->0@.len() > 0),
    decreases payloads.len(),
{
    let of = |packed: Option<Vec<Vec<u8>>>| bytes_of(packed->0@);
    let parts = payloads.map_values(of);
    if payloads.len() == 0 {
        assert(parts.flatten() =~= Seq::<Seq<u8>>::empty());
    } else {
        let rest = payloads.drop_last();
        let end = payloads.len() - 1;
        lemma_all_payloads(rest);
        assert forall|i: int| 0 <= i < rest.len() implies #[trigger] rest[i] == payloads[i] by {}
        assert(payloads[end] == payloads.last());
        if forall|i: int| 0 <= i < payloads.len() ==> (#[trigger] payloads[i]) is Some {
            assert forall|i: int| 0 <= i < rest.len() implies (#[trigger] rest[i]) is Some by {
                assert(payloads[i] is Some);
            }
            assert(payloads[end] is Some);
        }
        if all_payloads(payloads) is Some {
            assert forall|i: int| 0 <= i < payloads.len() implies (
            #[trigger] payloads[i]) is Some by {
                if i < end {
                    assert(rest[i] is Some);
                }
            }
            assert(parts.drop_last() =~= rest.map_values(of));
            parts.lemma_flatten_and_flatten_alt_are_equivalent();
            parts.drop_last().lemma_flatten_and_flatten_alt_are_equivalent();
            assert(parts.flatten_alt() == parts.drop_last().flatten_alt() + parts.last());
            let all = all_payloads(payloads)->0;
            if all.len() > 0 {
                if all_payloads(rest)->0.len() > 0 {
                    let i = choose|i: int|
                        0 <= i < rest.len() && (#[trigger] rest[i])->0@.len() > 0;
                    assert(payloads[i]->0@.len() > 0);
                } else {
                    assert(payloads[end]->0@.len() > 0);
                }
            }
            if exists|i: int| 0 <= i < payloads.len() && (#[trigger] payloads[i])->0@.len() > 0 {
                let i = choose|i: int|
                    0 <= i < payloads.len() && (#[trigger] payloads[i])->0@.len() > 0;
                if i < end {
                    assert(rest[i] == payloads[i]);
                }
            }
        }
    }
}

/// The packets of a frame carry its payloads, each in its place, and all of them
/// have its time. Only the last one has the mark.
pub proof fn law_packets_carry_the_payloads(
    packets: Seq<RtpPacket>,
    payloads: Seq<Seq<u8>>,
    sequence_number: u16,
    timestamp: u32,
    end_has_marker: bool,
    i: int,
)
    requires
        are_packets(packets, payloads, sequence_number, timestamp, end_has_marker),
        0 <= i < payloads.len(),
    ensures
        packets.len() == payloads.len(),
        packets[i].payload@ == payloads[i],
        packets[i].timestamp == timestamp,
        packets[i].sequence_number == sequence_number,
        packets[i].marker <==> end_has_marker && i + 1 == payloads.len(),
        packets[i].version == 2,
{
}

/// The clock of video ticks 90,000 times a second: two frames a second apart are
/// so many ticks apart, on a circle of 32 bits, and no frame is more than a tick
/// off.
pub proof fn law_video_clock(nanos: nat)
    ensures
        (rtp_timestamp(nanos + 1_000_000_000) - rtp_timestamp(nanos) - 90_000) % 0x1_0000_0000
            == 0,
        nanos < 1_000_000_000 ==> rtp_timestamp(nanos) * 1_000_000_000 <= nanos * 90_000 < (
        rtp_timestamp(nanos) + 1) * 1_000_000_000,
{
    let ticks = nanos * 90_000 / 1_000_000_000;
    assert((nanos + 1_000_000_000) * 90_000 / 1_000_000_000 == ticks + 90_000);
}

/// A format that the browser does not support is refused with words and sets nothing up.
/// One that it supports gets a track with its codec, at the clock of video.
pub proof fn law_setup_goes_by_the_formats(
    video: &mut WebRtcVideo,
    format: VideoFormat,
    track_created: bool,
    step: VideoSetupStep,
    set_up: bool,
)
    requires
        call_ensures(WebRtcVideo::setup_step, (old(video), format), step),
        call_ensures(WebRtcVideo::setup, (video, format, track_created), set_up),
    ensures
        step is CreateTrack <==> old(video).supported_video_formats & format.spec_bit() != 0,
        step matches VideoSetupStep::CreateTrack(codec) ==> codec.clock_rate == 90_000
            && codec.payload_type == crate::video_format::payload_type(format),
        set_up <==> step is CreateTrack && track_created,
        set_up ==> final(video).clock_rate == 90_000 && final(video).codec == Some(
            codec_of(format),
        ),
        !set_up ==> *final(video) == *old(video),
        final(video).supported_video_formats == old(video).supported_video_formats,
        final(video).sender == old(video).sender,
{
}

/// A refusal names the format and, in digits, what would have been supported.
pub proof fn law_refusals_name_the_format(format: VideoFormat, supported: u32)
    ensures
        ({
            let text = refusal_text(format, supported);
            let name = format_name(format);
            &&& text.subrange(74, 74 + name.len() as int) == name
            &&& text.skip(74 + name.len() as int + 21) == decimal_digits(supported as nat)
        }),
{
    reveal_strlit("The host tried to setup a video stream with a non supported video format: ");
    reveal_strlit(", supported formats: ");
    let text = refusal_text(format, supported);
    let name = format_name(format);
    assert(text.subrange(74, 74 + name.len() as int) =~= name);
    assert(text.skip(74 + name.len() as int + 21) =~= decimal_digits(supported as nat));
}

/// What becomes of a frame before it is packed. After a loss only a key frame is taken.
/// A frame of a known codec is cut into its units, except for AV1, where it is one. A
/// loss that the browser told of is remembered until a key frame makes up for it.
pub proof fn law_which_frames_are_cut(
    video: &mut WebRtcVideo,
    frame: Vec<u8>,
    important: bool,
    step: UnitStep,
)
    requires
        call_ensures(WebRtcVideo::begin_unit, (video, frame, important), step),
    ensures
        ({
            let lost = old(video).awaiting_idr || old(video).needs_idr;
            &&& lost && !important ==> step is NeedIdr
            &&& old(video).codec is None ==> step is NeedIdr
            &&& step is NeedIdr ==> final(video).awaiting_idr
            &&& (important || !lost) && old(video).codec == Some(VideoCodec::Av1) ==> (
            step matches UnitStep::Pack(samples) && samples@.len() == 1 && samples@[0]@ == frame@)
            &&& (important || !lost) && old(video).codec == Some(VideoCodec::H264) ==> (step is Pack
                <==> samples_from(frame@, 0, 1) is Some)
            &&& (important || !lost) && old(video).codec == Some(VideoCodec::H265) ==> (step is Pack
                <==> samples_from(frame@, 0, 2) is Some)
            &&& step is Pack ==> final(video).awaiting_idr == lost
            &&& !final(video).needs_idr
            &&& final(video).sender == old(video).sender && final(video).codec == old(video).codec
        }),
{
    match step {
        UnitStep::Pack(samples) => {
            if old(video).codec == Some(VideoCodec::Av1) {
                assert(bytes_of(samples@).len() == samples@.len());
                assert(bytes_of(samples@)[0] == samples@[0]@);
            }
        },
        _ => {},
    }
}

/// What becomes of a frame that was packed. With room it is queued, and a key frame
/// takes the place of all that waits. Without room, or without a payload, it is lost:
/// what waits is dropped for want of room, and a key frame is asked for.
pub proof fn law_what_becomes_of_packed_frames(
    video: &mut WebRtcVideo,
    samples: &Vec<Vec<u8>>,
    payloads: Vec<Option<Vec<Vec<u8>>>>,
    timestamp: u32,
    important: bool,
    result: DecodeResult,
)
    requires
        call_ensures(
            WebRtcVideo::finish_unit,
            (video, samples, payloads, timestamp, important),
            result,
        ),
    ensures
        ({
            let packed = frame_payloads(samples@, payloads@);
            let before = old(video).sender.queue@;
            let after = final(video).sender.queue@;
            let room = important || before.len() < old(video).sender.channel_queue_size;
            &&& result is Accepted <==> packed is Some && room && !old(video).needs_idr
            &&& result is NeedIdr ==> final(video).awaiting_idr
            &&& result is Accepted && important ==> !final(video).awaiting_idr
            &&& result is Accepted && !important ==> final(video).awaiting_idr == old(
                video,
            ).awaiting_idr
            &&& packed is None ==> after == before
            &&& packed is Some && !room ==> after.len() == 0
            &&& packed is Some && room ==> after.len() == (if important {
                1
            } else {
                before.len() + 1
            }) && after[0].important == important && after[0].samples@.len() == packed->0.len()
        }),
{
    let after = final(video).sender.queue@;
    if frame_payloads(samples@, payloads@) is Some && (important || old(video).sender.queue@.len()
        < old(video).sender.channel_queue_size) {
        assert(after.len() == 1 + after.skip(1).len());
    }
}

/// Frames of AV1 are packed into at most 1188 bytes each and have the same fate.
pub proof fn law_what_becomes_of_frames_of_av1(
    video: &mut WebRtcVideo,
    frame: Vec<u8>,
    timestamp: u32,
    important: bool,
    result: DecodeResult,
)
    requires
        call_ensures(WebRtcVideo::send_av1_unit, (video, frame, timestamp, important), result),
    ensures
        ({
            let payloads = crate::outside::av1_payloads(1188, frame@);
            let before = old(video).sender.queue@;
            let after = final(video).sender.queue@;
            let lost = old(video).awaiting_idr || old(video).needs_idr;
            let taken = important || !lost;
            let packed = frame@.len() > 0 && payloads is Some && payloads->0.len() > 0;
            let room = important || before.len() < old(video).sender.channel_queue_size;
            &&& result is Accepted <==> taken && packed && room
            &&& final(video).awaiting_idr <==> result is NeedIdr
            &&& !taken || !packed ==> after == before
            &&& taken && packed && !room ==> after.len() == 0
            &&& result is Accepted ==> after.len() > 0 && after[0].samples@.len()
                == payloads->0.len() && after[0].important == important && after.skip(1) == (
            if important {
                Seq::empty()
            } else {
                before
            })
        }),
{
}

/// Frames change neither what was set up nor the size of the queue.
pub proof fn law_frames_keep_the_setup(video: WebRtcVideo, other: WebRtcVideo)
    requires
        video.same_setup(&other),
    ensures
        video.supported_video_formats == other.supported_video_formats,
        video.clock_rate == other.clock_rate,
        video.codec == other.codec,
        video.sender.channel_queue_size == other.sender.channel_queue_size,
{
}

/// Every packet of a frame is of the second version and bare, shares the time of its
/// frame, and leaves its source and its payload type to the track that sends it.
pub proof fn law_packets_are_bare(
    packets: Seq<RtpPacket>,
    payloads: Seq<Seq<u8>>,
    sequence_number: u16,
    timestamp: u32,
    i: int,
)
    requires
        are_packets(packets, payloads, sequence_number, timestamp, true),
        0 <= i < packets.len(),
    ensures
        packets[i].version == 2 && !packets[i].padding && !packets[i].extension,
        packets[i].timestamp == timestamp && packets[i].sequence_number == sequence_number,
        packets[i].ssrc == 0 && packets[i].payload_type == 0,
        packets[i].payload@ == payloads[i],
        packets[i].marker <==> i == packets.len() - 1,
{
}

} // verus!
