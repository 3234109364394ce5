//! Video formats, and how each is offered in a WebRTC session.

use vstd::prelude::*;

verus! {

#[derive(Clone, Copy, Debug, PartialEq, Eq, Structural)]
pub enum VideoFormat {
    H264,
    H264High8_444,
    H265,
    H265Main10,
    H265Rext8_444,
    H265Rext10_444,
    Av1Main8,
    Av1Main10,
    Av1High8_444,
    Av1High10_444,
}

/// All formats of the H.264 family.
pub const MASK_H264: u32 = 0x000f;

/// All formats of the H.265 family.
pub const MASK_H265: u32 = 0x0f00;

/// All formats of the AV1 family.
pub const MASK_AV1: u32 = 0xf000;

/// Every bit that stands for a format.
pub const MASK_ALL: u32 = 0xff0f;

impl VideoFormat {
    /// The bit of the format in a set of formats.
    pub open spec fn spec_bit(self) -> u32 {
        match self {
            VideoFormat::H264 => 0x0001,
            VideoFormat::H264High8_444 => 0x0004,
            VideoFormat::H265 => 0x0100,
            VideoFormat::H265Main10 => 0x0200,
            VideoFormat::H265Rext8_444 => 0x0400,
            VideoFormat::H265Rext10_444 => 0x0800,
            VideoFormat::Av1Main8 => 0x1000,
            VideoFormat::Av1Main10 => 0x2000,
            VideoFormat::Av1High8_444 => 0x4000,
            VideoFormat::Av1High10_444 => 0x8000,
        }
    }

    pub fn bit(self) -> (bit: u32)
        ensures
            bit == self.spec_bit(),
    {
        match self {
            VideoFormat::H264 => 0x0001,
            VideoFormat::H264High8_444 => 0x0004,
            VideoFormat::H265 => 0x0100,
            VideoFormat::H265Main10 => 0x0200,
            VideoFormat::H265Rext8_444 => 0x0400,
            VideoFormat::H265Rext10_444 => 0x0800,
            VideoFormat::Av1Main8 => 0x1000,
            VideoFormat::Av1Main10 => 0x2000,
            VideoFormat::Av1High8_444 => 0x4000,
            VideoFormat::Av1High10_444 => 0x8000,
        }
    }

    /// The name of the format, as it stands in messages.
    pub fn name(self) -> (name: &'static str)
        ensures
            name@ == format_name(self),
    {
        match self {
            VideoFormat::H264 => "H264",
            VideoFormat::H264High8_444 => "H264High8_444",
            VideoFormat::H265 => "H265",
            VideoFormat::H265Main10 => "H265Main10",
            VideoFormat::H265Rext8_444 => "H265Rext8_444",
            VideoFormat::H265Rext10_444 => "H265Rext10_444",
            VideoFormat::Av1Main8 => "Av1Main8",
            VideoFormat::Av1Main10 => "Av1Main10",
            VideoFormat::Av1High8_444 => "Av1High8_444",
            VideoFormat::Av1High10_444 => "Av1High10_444",
        }
    }

    pub open spec fn is_h264(self) -> bool {
        self == VideoFormat::H264 || self == VideoFormat::H264High8_444
    }

    pub open spec fn is_h265(self) -> bool {
        ||| self == VideoFormat::H265
        ||| self == VideoFormat::H265Main10
        ||| self == VideoFormat::H265Rext8_444
        ||| self == VideoFormat::H265Rext10_444
    }
}

/// The name of a format.
pub open spec fn format_name(format: VideoFormat) -> Seq<char> {
    match format {
        VideoFormat::H264 => "H264"@,
        VideoFormat::H264High8_444 => "H264High8_444"@,
        VideoFormat::H265 => "H265"@,
        VideoFormat::H265Main10 => "H265Main10"@,
        VideoFormat::H265Rext8_444 => "H265Rext8_444"@,
        VideoFormat::H265Rext10_444 => "H265Rext10_444"@,
        VideoFormat::Av1Main8 => "Av1Main8"@,
        VideoFormat::Av1Main10 => "Av1Main10"@,
        VideoFormat::Av1High8_444 => "Av1High8_444"@,
        VideoFormat::Av1High10_444 => "Av1High10_444"@,
    }
}

/// A set of formats as bits, with `format` in it.
pub open spec fn offers(bits: u32, format: VideoFormat) -> bool {
    bits & format.spec_bit() != 0
}

/// The formats that a client asked for, or H.264 alone.
pub open spec fn requested(supported_codecs: u32) -> u32 {
    if supported_codecs & !MASK_ALL == 0 {
        supported_codecs
    } else {
        VideoFormat::H264.spec_bit()
    }
}

/// The formats that a client asked for. A set with a bit that stands for no
/// format is not understood, and H.264 alone is taken instead.
pub fn requested_formats(supported_codecs: u32) -> (formats: u32)
    ensures
        formats == requested(supported_codecs),
{
    if supported_codecs & !MASK_ALL == 0 {
        supported_codecs
    } else {
        VideoFormat::H264.bit()
    }
}

#[derive(Clone, Debug, PartialEq, Eq)]
pub struct RtcpFeedback {
    pub typ: String,
    pub parameter: String,
}

/// How a codec is announced in a session description.
#[derive(Clone, Debug, PartialEq, Eq)]
pub struct CodecParameters {
    pub mime_type: String,
    pub clock_rate: u32,
    pub channels: u16,
    pub sdp_fmtp_line: String,
    pub rtcp_feedback: Vec<RtcpFeedback>,
    pub payload_type: u8,
}

/// The clock of every video codec, in ticks per second.
pub const VIDEO_CLOCK_RATE: u32 = 90_000;

pub open spec fn mime_type(format: VideoFormat) -> Seq<char> {
    if format.is_h264() {
        "video/H264"@
    } else if format.is_h265() {
        "video/H265"@
    } else {
        "video/AV1"@
    }
}

pub open spec fn fmtp_line(format: VideoFormat) -> Seq<char> {
    match format {
        VideoFormat::H264 => {
            "level-asymmetry-allowed=1;packetization-mode=1;profile-level-id=42e01f"@
        },
        VideoFormat::H264High8_444 => {
            "level-asymmetry-allowed=1;packetization-mode=1;profile-level-id=640032"@
        },
        VideoFormat::H265 => ""@,
        VideoFormat::H265Main10 => "profile-id=2;tier-flag=0;level-id=93;tx-mode=SRST"@,
        VideoFormat::H265Rext8_444 => "profile-id=4;tier-flag=0;level-id=120;tx-mode=SRST"@,
        VideoFormat::H265Rext10_444 => "profile-id=5;tier-flag=0;level-id=93;tx-mode=SRST"@,
        VideoFormat::Av1Main8 | VideoFormat::Av1Main10 => "profile=0"@,
        VideoFormat::Av1High8_444 | VideoFormat::Av1High10_444 => "profile=1"@,
    }
}

/// The RTP payload type. Eight and ten bits of one AV1 profile share theirs.
pub open spec fn payload_type(format: VideoFormat) -> u8 {
    match format {
        VideoFormat::H264 => 96,
        VideoFormat::H264High8_444 => 97,
        VideoFormat::H265 => 98,
        VideoFormat::H265Main10 => 99,
        VideoFormat::H265Rext8_444 => 100,
        VideoFormat::H265Rext10_444 => 101,
        VideoFormat::Av1Main8 | VideoFormat::Av1Main10 => 102,
        VideoFormat::Av1High8_444 | VideoFormat::Av1High10_444 => 103,
    }
}

/// The feedback that the sender understands: lost packets, lost pictures and
/// the receiver's bandwidth estimate.
pub open spec fn is_video_feedback(feedback: Seq<RtcpFeedback>) -> bool {
    &&& feedback.len() == 3
    &&& feedback[0].typ@ == "nack"@ && feedback[0].parameter@ == ""@
    &&& feedback[1].typ@ == "nack"@ && feedback[1].parameter@ == "pli"@
    &&& feedback[2].typ@ == "goog-remb"@ && feedback[2].parameter@ == ""@
}

fn feedback(typ: &str, parameter: &str) -> (feedback: RtcpFeedback)
    ensures
        feedback.typ@ == typ@,
        feedback.parameter@ == parameter@,
{
    RtcpFeedback { typ: typ.to_owned(), parameter: parameter.to_owned() }
}

pub fn video_format_to_codec(format: VideoFormat) -> (codec: Option<CodecParameters>)
    ensures
        codec is Some,
        announces(codec->0, format),
{
    let mut rtcp_feedback: Vec<RtcpFeedback> = Vec::new();
    rtcp_feedback.push(feedback("nack", ""));
    rtcp_feedback.push(feedback("nack", "pli"));
    rtcp_feedback.push(feedback("goog-remb", ""));
    let (mime_type, sdp_fmtp_line, payload_type): (&str, &str, u8) = match format {
        VideoFormat::H264 => (
            "video/H264",
            "level-asymmetry-allowed=1;packetization-mode=1;profile-level-id=42e01f",
            96,
        ),
        VideoFormat::H264High8_444 => (
            "video/H264",
            "level-asymmetry-allowed=1;packetization-mode=1;profile-level-id=640032",
            97,
        ),
        VideoFormat::H265 => ("video/H265", "", 98),
        VideoFormat::H265Main10 => (
            "video/H265",
            "profile-id=2;tier-flag=0;level-id=93;tx-mode=SRST",
            99,
        ),
        VideoFormat::H265Rext8_444 => (
            "video/H265",
            "profile-id=4;tier-flag=0;level-id=120;tx-mode=SRST",
            100,
        ),
        VideoFormat::H265Rext10_444 => (
            "video/H265",
            "profile-id=5;tier-flag=0;level-id=93;tx-mode=SRST",
            101,
        ),
        VideoFormat::Av1Main8 | VideoFormat::Av1Main10 => ("video/AV1", "profile=0", 102),
        VideoFormat::Av1High8_444 | VideoFormat::Av1High10_444 => ("video/AV1", "profile=1", 103),
    };
    Some(
        CodecParameters {
            mime_type: mime_type.to_owned(),
            clock_rate: VIDEO_CLOCK_RATE,
            channels: 0,
            sdp_fmtp_line: sdp_fmtp_line.to_owned(),
            rtcp_feedback,
            payload_type,
        },
    )
}

/// Every format, in the order in which they are announced.
pub open spec fn formats() -> Seq<VideoFormat> {
    seq![
        VideoFormat::H264,
        VideoFormat::H264High8_444,
        VideoFormat::H265,
        VideoFormat::H265Main10,
        VideoFormat::H265Rext8_444,
        VideoFormat::H265Rext10_444,
        VideoFormat::Av1Main8,
        VideoFormat::Av1Main10,
        VideoFormat::Av1High8_444,
        VideoFormat::Av1High10_444,
    ]
}

/// How the session announces a format.
pub open spec fn announces(codec: CodecParameters, format: VideoFormat) -> bool {
    &&& codec.mime_type@ == mime_type(format)
    &&& codec.clock_rate == VIDEO_CLOCK_RATE
    &&& codec.channels == 0
    &&& codec.sdp_fmtp_line@ == fmtp_line(format)
    &&& is_video_feedback(codec.rtcp_feedback@)
    &&& codec.payload_type == payload_type(format)
}

/// What the session announces: a codec for every format.
pub fn register_video_codecs() -> (codecs: Vec<CodecParameters>)
    ensures
        codecs@.len() == formats().len(),
        forall|i: int| 0 <= i < codecs@.len() ==> announces(#[trigger] codecs@[i], formats()[i]),
{
    let all: [VideoFormat; 10] = [
        VideoFormat::H264,
        VideoFormat::H264High8_444,
        VideoFormat::H265,
        VideoFormat::H265Main10,
        VideoFormat::H265Rext8_444,
        VideoFormat::H265Rext10_444,
        VideoFormat::Av1Main8,
        VideoFormat::Av1Main10,
        VideoFormat::Av1High8_444,
        VideoFormat::Av1High10_444,
    ];
    assert(all@ =~= formats());
    let mut codecs: Vec<CodecParameters> = Vec::new();
    let mut i: usize = 0;
    while i < 10
        invariant
            i <= 10,
            all@ == formats(),
            formats().len() == 10,
            codecs@.len() == i,
            forall|k: int| 0 <= k < i ==> announces(#[trigger] codecs@[k], formats()[k]),
        decreases 10 - i,
    {
        if let Some(codec) = video_format_to_codec(all[i]) {
            codecs.push(codec);
        }
        i = i + 1;
    }
    codecs
}

/// Two formats share a payload type only where they share the whole announcement.
pub proof fn law_payload_types_tell_announcements_apart(a: VideoFormat, b: VideoFormat)
    ensures
        96 <= payload_type(a) <= 103,
        payload_type(a) == payload_type(b) ==> mime_type(a) == mime_type(b) && fmtp_line(a)
            == fmtp_line(b),
{
}

/// Each format has a bit of its own: the two of H264 are one and four, and those of the
/// other formats follow from 256 on, each twice the one before. They lie in the mask of
/// their family.
pub proof fn law_formats_have_bits_of_their_own(i: int, j: int)
    requires
        0 <= i < 10,
        0 <= j < 10,
    ensures
        formats()[0].spec_bit() == 1 && formats()[1].spec_bit() == 4 && formats()[2].spec_bit()
            == 256,
        2 <= i < 9 ==> formats()[i + 1].spec_bit() == 2 * formats()[i].spec_bit(),
        formats()[i].spec_bit() == formats()[j].spec_bit() ==> i == j,
        formats()[i].is_h264() <==> formats()[i].spec_bit() <= MASK_H264,
        formats()[i].is_h265() <==> 256 <= formats()[i].spec_bit() <= MASK_H265,
        !formats()[i].is_h264() && !formats()[i].is_h265() <==> 4096 <= formats()[i].spec_bit()
            <= MASK_AV1,
        formats()[i].is_h264() <==> i < 2,
        formats()[i].is_h265() <==> 2 <= i < 6,
        MASK_H264 == 15 && MASK_H265 == 15 * 256 && MASK_AV1 == 15 * 4096 && MASK_ALL == MASK_H264
            + MASK_H265 + MASK_AV1,
{
}

/// What the browser supports is asked for as it is, unless it holds a bit that stands
/// for nothing: then H264 alone is asked for.
pub proof fn law_which_formats_are_asked_for(supported_codecs: u32)
    ensures
        supported_codecs & !0xff0fu32 == 0 ==> requested(supported_codecs) == supported_codecs,
        supported_codecs & !0xff0fu32 != 0 ==> requested(supported_codecs) == 1,
{
}

/// A format counts as offered when its bit is among the offered ones.
pub proof fn law_bits_offer_formats(bits: u32, format: VideoFormat)
    ensures
        offers(bits | format.spec_bit(), format),
        !offers(bits & !format.spec_bit(), format),
        !offers(0, format),
{
    let bit = format.spec_bit();
    assert(bit != 0);
    assert((bits | bit) & bit == bit) by (bit_vector);
    assert((bits & !bit) & bit == 0) by (bit_vector);
    assert(0u32 & bit == 0) by (bit_vector);
}

/// The announcements: payload types count up from 96 through the formats of H264 and
/// H265; those of AV1 share two, one for each profile.
pub proof fn law_how_formats_are_announced(i: int)
    requires
        0 <= i < 10,
    ensures
        ({
            let format = formats()[i];
            let line = fmtp_line(format);
            &&& i < 6 ==> payload_type(format) == 96 + i
            &&& 6 <= i < 8 ==> payload_type(format) == 102
            &&& 8 <= i ==> payload_type(format) == 103
            &&& i < 2 ==> mime_type(format) == "video/H264"@
            &&& 2 <= i < 6 ==> mime_type(format) == "video/H265"@
            &&& 6 <= i ==> mime_type(format) == "video/AV1"@
            &&& i < 2 ==> line.take(64) == line_of_h264() && line.skip(64) == (if i == 0 {
                seq!['4', '2', 'e', '0', '1', 'f']
            } else {
                seq!['6', '4', '0', '0', '3', '2']
            })
            &&& i == 2 ==> line.len() == 0
            &&& 3 <= i < 6 ==> line[11] == (if i == 3 {
                '2'
            } else if i == 4 {
                '4'
            } else {
                '5'
            })
            &&& 6 <= i ==> line[8] == (if i < 8 {
                '0'
            } else {
                '1'
            }) && line.len() == 9
        }),
{
    reveal_strlit("level-asymmetry-allowed=1;packetization-mode=1;profile-level-id=42e01f");
    reveal_strlit("level-asymmetry-allowed=1;packetization-mode=1;profile-level-id=640032");
    reveal_strlit("level-asymmetry-allowed=1;packetization-mode=1;profile-level-id=");
    reveal_strlit("");
    reveal_strlit("profile-id=2;tier-flag=0;level-id=93;tx-mode=SRST");
    reveal_strlit("profile-id=4;tier-flag=0;level-id=120;tx-mode=SRST");
    reveal_strlit("profile-id=5;tier-flag=0;level-id=93;tx-mode=SRST");
    reveal_strlit("profile=0");
    reveal_strlit("profile=1");
    let line = fmtp_line(formats()[i]);
    if i < 2 {
        assert(line.take(64) =~= line_of_h264());
        assert(line.skip(64) =~= (if i == 0 {
            seq!['4', '2', 'e', '0', '1', 'f']
        } else {
            seq!['6', '4', '0', '0', '3', '2']
        }));
    }
}

/// How every line for H264 begins.
pub open spec fn line_of_h264() -> Seq<char> {
    "level-asymmetry-allowed=1;packetization-mode=1;profile-level-id="@
}

/// Each format has a name of its own, which begins with its family.
pub proof fn law_formats_have_names_of_their_own(one: VideoFormat, other: VideoFormat)
    ensures
        one.is_h264() ==> format_name(one)[0] == 'H' && format_name(one)[3] == '4',
        one.is_h265() ==> format_name(one)[0] == 'H' && format_name(one)[3] == '5',
        !one.is_h264() && !one.is_h265() ==> format_name(one)[0] == 'A',
        format_name(one) == format_name(other) ==> one == other,
{
    lemma_name(one);
    lemma_name(other);
}

proof fn lemma_name(format: VideoFormat)
    ensures
        ({
            let name = format_name(format);
            match format {
                VideoFormat::H264 => name.len() == 4 && name[0] == 'H' && name[3] == '4',
                VideoFormat::H264High8_444 => name.len() == 13 && name[0] == 'H' && name[3] == '4',
                VideoFormat::H265 => name.len() == 4 && name[0] == 'H' && name[3] == '5',
                VideoFormat::H265Main10 => name.len() == 10 && name[0] == 'H' && name[3] == '5',
                VideoFormat::H265Rext8_444 => name.len() == 13 && name[0] == 'H' && name[3] == '5',
                VideoFormat::H265Rext10_444 => name.len() == 14 && name[0] == 'H' && name[3] == '5',
                VideoFormat::Av1Main8 => name.len() == 8 && name[0] == 'A',
                VideoFormat::Av1Main10 => name.len() == 9 && name[0] == 'A',
                VideoFormat::Av1High8_444 => name.len() == 12 && name[0] == 'A',
                VideoFormat::Av1High10_444 => name.len() == 13 && name[0] == 'A',
            }
        }),
{
    reveal_strlit("H264");
    reveal_strlit("H264High8_444");
    reveal_strlit("H265");
    reveal_strlit("H265Main10");
    reveal_strlit("H265Rext8_444");
    reveal_strlit("H265Rext10_444");
    reveal_strlit("Av1Main8");
    reveal_strlit("Av1Main10");
    reveal_strlit("Av1High8_444");
    reveal_strlit("Av1High10_444");
}

/// The browser may report single losses, the loss of a picture and what it can receive,
/// in this order.
pub proof fn law_what_the_browser_may_report(feedback: Seq<RtcpFeedback>)
    requires
        is_video_feedback(feedback),
    ensures
        feedback.len() == 3,
        feedback[0].typ@ == seq!['n', 'a', 'c', 'k'] && feedback[0].parameter@.len() == 0,
        feedback[1].typ@ == seq!['n', 'a', 'c', 'k'] && feedback[1].parameter@ == seq![
            'p',
            'l',
            'i',
        ],
        feedback[2].typ@ == seq!['g', 'o', 'o', 'g', '-', 'r', 'e', 'm', 'b']
            && feedback[2].parameter@.len() == 0,
{
    reveal_strlit("nack");
    reveal_strlit("pli");
    reveal_strlit("goog-remb");
    reveal_strlit("");
    assert("nack"@ =~= seq!['n', 'a', 'c', 'k']);
    assert("pli"@ =~= seq!['p', 'l', 'i']);
    assert("goog-remb"@ =~= seq!['g', 'o', 'o', 'g', '-', 'r', 'e', 'm', 'b']);
}

/// Every announcement runs at the clock of video and on no sound channel.
pub proof fn law_announcements_are_of_video(codec: CodecParameters, format: VideoFormat)
    requires
        announces(codec, format),
    ensures
        codec.clock_rate == 90_000 && codec.channels == 0,
        codec.payload_type == payload_type(format),
        codec.mime_type@ == mime_type(format) && codec.sdp_fmtp_line@ == fmtp_line(format),
        is_video_feedback(codec.rtcp_feedback@),
{
}

} // verus!
