//! Frames on the lanes of a connection: their length in four bytes before them.

use crate::time::Duration;
use crate::wire::{be_bytes, be_value, push_u32, read_u32};
use vstd::prelude::*;

verus! {

pub const LANE_VIDEO: u8 = 1;

pub const LANE_AUDIO: u8 = 2;

pub const LANE_OTHER: u8 = 3;

pub const LANE_RELIABLE_INBOUND: u8 = 4;

/// The longest frame to the browser.
pub const MAX_FRAME_BYTES: usize = 16_777_216;

/// The longest frame from the browser.
pub const MAX_RELIABLE_INBOUND_FRAME_BYTES: usize = 131_072;

pub const VIDEO_STREAM_OPEN_TIMEOUT_MS: u64 = 500;

pub const VIDEO_STREAM_WRITE_INACTIVITY_TIMEOUT_MS: u64 = 500;

pub const VIDEO_IDR_MAX_INACTIVITY_TIMEOUT_MS: u64 = 2_000;

pub const VIDEO_IDR_RTT_TIMEOUT_MULTIPLIER: u32 = 4;

/// The first code of the range that HTTP/3 keeps for application errors.
pub const WEBTRANSPORT_APPLICATION_ERROR_FIRST: u64 = 0x52e4_a40f_a8db;

pub const VIDEO_STREAM_TIMEOUT_APPLICATION_CODE: u32 = 0x10;

pub const VIDEO_STREAM_SUPERSEDED_APPLICATION_CODE: u32 = 0x11;

/// The largest number that QUIC can send.
pub const MAX_VARINT: u64 = 0x3fff_ffff_ffff_ffff;

/// A frame whose length the protocol does not allow.
#[derive(Clone, Copy, Debug, PartialEq, Eq, Structural)]
pub struct InvalidFrameLength;

/// The code on the wire for an application error. Every thirtieth value of the
/// range is reserved and skipped.
pub open spec fn application_error_code(code: u32) -> int {
    WEBTRANSPORT_APPLICATION_ERROR_FIRST + code + code as int / 0x1e
}

pub fn webtransport_application_error_code(code: u32) -> (wire_code: u64)
    ensures
        wire_code == application_error_code(code),
        wire_code <= MAX_VARINT,
{
    WEBTRANSPORT_APPLICATION_ERROR_FIRST + code as u64 + code as u64 / 0x1e
}

pub fn video_stream_timeout_code() -> (code: u64)
    ensures
        code == application_error_code(VIDEO_STREAM_TIMEOUT_APPLICATION_CODE),
{
    webtransport_application_error_code(VIDEO_STREAM_TIMEOUT_APPLICATION_CODE)
}

pub fn video_stream_superseded_code() -> (code: u64)
    ensures
        code == application_error_code(VIDEO_STREAM_SUPERSEDED_APPLICATION_CODE),
{
    webtransport_application_error_code(VIDEO_STREAM_SUPERSEDED_APPLICATION_CODE)
}

/// A frame of this length may go to the browser.
pub open spec fn sendable(length: int) -> bool {
    0 < length <= MAX_FRAME_BYTES
}

fn four_bytes(n: u32) -> (bytes: [u8; 4])
    ensures
        bytes@ == be_bytes(n as nat, 4),
{
    let mut out: Vec<u8> = Vec::new();
    push_u32(&mut out, n);
    proof {
        crate::wire::lemma_be_bytes_len(n as nat, 4);
    }
    let bytes: [u8; 4] = [out[0], out[1], out[2], out[3]];
    assert(bytes@ =~= be_bytes(n as nat, 4));
    bytes
}

pub fn encode_frame_length(length: usize) -> (encoded: Result<[u8; 4], InvalidFrameLength>)
    ensures
        encoded is Ok == sendable(length as int),
        encoded is Ok ==> encoded->Ok_0@ == be_bytes(length as nat, 4),
{
    if length == 0 || length > MAX_FRAME_BYTES {
        return Err(InvalidFrameLength);
    }
    Ok(four_bytes(length as u32))
}

/// What stands before a video frame on its own stream: the lane, the number of
/// the frame and its length.
pub open spec fn video_stream_header(sequence: u32, length: nat) -> Seq<u8> {
    seq![LANE_VIDEO] + be_bytes(sequence as nat, 4) + be_bytes(length, 4)
}

pub fn encode_video_stream_header(sequence: u32, length: usize) -> (header: Result<
    [u8; 9],
    InvalidFrameLength,
>)
    ensures
        header is Ok == sendable(length as int),
        header is Ok ==> header->Ok_0@ == video_stream_header(sequence, length as nat),
{
    let length_bytes: [u8; 4] = match encode_frame_length(length) {
        Ok(bytes) => bytes,
        Err(error) => {
            return Err(error);
        },
    };
    let sequence_bytes: [u8; 4] = four_bytes(sequence);
    let header: [u8; 9] = [
        LANE_VIDEO,
        sequence_bytes[0],
        sequence_bytes[1],
        sequence_bytes[2],
        sequence_bytes[3],
        length_bytes[0],
        length_bytes[1],
        length_bytes[2],
        length_bytes[3],
    ];
    assert(header@ =~= seq![LANE_VIDEO] + sequence_bytes@ + length_bytes@);
    Ok(header)
}

pub fn decode_frame_length(encoded: [u8; 4]) -> (length: Result<usize, InvalidFrameLength>)
    ensures
        match length {
            Ok(length) => length == be_value(encoded@) && sendable(length as int),
            Err(_) => !sendable(be_value(encoded@) as int),
        },
{
    let length: usize = read_u32(encoded.as_slice(), 0) as usize;
    assert(encoded@.subrange(0, 4) =~= encoded@);
    if length == 0 || length > MAX_FRAME_BYTES {
        return Err(InvalidFrameLength);
    }
    Ok(length)
}

pub fn decode_reliable_inbound_frame_length(encoded: [u8; 4]) -> (length: Result<
    usize,
    InvalidFrameLength,
>)
    ensures
        match length {
            Ok(length) => length == be_value(encoded@) && 0 < length
                <= MAX_RELIABLE_INBOUND_FRAME_BYTES,
            Err(_) => !(0 < be_value(encoded@) <= MAX_RELIABLE_INBOUND_FRAME_BYTES),
        },
{
    let length: usize = read_u32(encoded.as_slice(), 0) as usize;
    assert(encoded@.subrange(0, 4) =~= encoded@);
    if length == 0 || length > MAX_RELIABLE_INBOUND_FRAME_BYTES {
        return Err(InvalidFrameLength);
    }
    Ok(length)
}

/// How long a video stream may stand still, in nanoseconds. Delta frames have a
/// fixed time; a key frame has four round trips, between the time to open a
/// stream and the longest time.
pub open spec fn inactivity_timeout_nanos(is_idr: bool, rtt_nanos: nat) -> int {
    let scaled = rtt_nanos * VIDEO_IDR_RTT_TIMEOUT_MULTIPLIER as nat;
    if !is_idr {
        VIDEO_STREAM_WRITE_INACTIVITY_TIMEOUT_MS * 1_000_000
    } else if scaled < VIDEO_STREAM_OPEN_TIMEOUT_MS * 1_000_000 {
        VIDEO_STREAM_OPEN_TIMEOUT_MS * 1_000_000
    } else if scaled > VIDEO_IDR_MAX_INACTIVITY_TIMEOUT_MS * 1_000_000 {
        VIDEO_IDR_MAX_INACTIVITY_TIMEOUT_MS * 1_000_000
    } else {
        scaled as int
    }
}

pub fn video_stream_inactivity_timeout(is_idr: bool, rtt: Duration) -> (timeout: Duration)
    ensures
        timeout.nanos() == inactivity_timeout_nanos(is_idr, rtt.nanos()),
{
    if !is_idr {
        return Duration::from_millis(VIDEO_STREAM_WRITE_INACTIVITY_TIMEOUT_MS);
    }
    let nanos: u128 = rtt.as_nanos();
    assert(nanos * VIDEO_IDR_RTT_TIMEOUT_MULTIPLIER <= crate::time::MAX_DURATION_NANOS * 4)
        by (nonlinear_arith)
        requires
            nanos <= crate::time::MAX_DURATION_NANOS,
            VIDEO_IDR_RTT_TIMEOUT_MULTIPLIER == 4,
    ;
    let scaled: u128 = nanos * VIDEO_IDR_RTT_TIMEOUT_MULTIPLIER as u128;
    if scaled < VIDEO_STREAM_OPEN_TIMEOUT_MS as u128 * 1_000_000 {
        Duration::from_millis(VIDEO_STREAM_OPEN_TIMEOUT_MS)
    } else if scaled > VIDEO_IDR_MAX_INACTIVITY_TIMEOUT_MS as u128 * 1_000_000 {
        Duration::from_millis(VIDEO_IDR_MAX_INACTIVITY_TIMEOUT_MS)
    } else {
        Duration::from_nanos(scaled as u64)
    }
}

/// The steps of a connection, by the names under which they are logged.
#[derive(Clone, Copy, Debug, PartialEq, Eq, Structural)]
pub enum ConnectionStage {
    WaitReliableClientLane,
    OpenAudioLane,
    OpenReliableServerLane,
    DispatchOutbound,
    WriteVideo,
    WriteAudio,
    WriteReliableServer,
    ReadReliableClient,
    ReadDatagrams,
}

pub open spec fn stage_name(stage: ConnectionStage) -> Seq<char> {
    match stage {
        ConnectionStage::WaitReliableClientLane => "wait_reliable_client_lane"@,
        ConnectionStage::OpenAudioLane => "open_audio_lane"@,
        ConnectionStage::OpenReliableServerLane => "open_reliable_server_lane"@,
        ConnectionStage::DispatchOutbound => "dispatch_outbound"@,
        ConnectionStage::WriteVideo => "write_video"@,
        ConnectionStage::WriteAudio => "write_audio"@,
        ConnectionStage::WriteReliableServer => "write_reliable_server"@,
        ConnectionStage::ReadReliableClient => "read_reliable_client"@,
        ConnectionStage::ReadDatagrams => "read_datagrams"@,
    }
}

impl ConnectionStage {
    pub fn name(self) -> (name: &'static str)
        ensures
            name@ == stage_name(self),
    {
        match self {
            ConnectionStage::WaitReliableClientLane => "wait_reliable_client_lane",
            ConnectionStage::OpenAudioLane => "open_audio_lane",
            ConnectionStage::OpenReliableServerLane => "open_reliable_server_lane",
            ConnectionStage::DispatchOutbound => "dispatch_outbound",
            ConnectionStage::WriteVideo => "write_video",
            ConnectionStage::WriteAudio => "write_audio",
            ConnectionStage::WriteReliableServer => "write_reliable_server",
            ConnectionStage::ReadReliableClient => "read_reliable_client",
            ConnectionStage::ReadDatagrams => "read_datagrams",
        }
    }
}

/// A length that may be sent is read back as it was.
pub proof fn law_frame_length_round_trip(length: nat)
    requires
        sendable(length as int),
    ensures
        be_value(be_bytes(length, 4)) == length,
        be_bytes(length, 4).len() == 4,
{
    crate::wire::law_u32_round_trip(length as u32);
}

/// Different application errors have different codes on the wire, all of which
/// QUIC can send and none of which is a reserved one.
pub proof fn law_error_codes_are_distinct(a: u32, b: u32)
    requires
        a < b,
    ensures
        application_error_code(a) < application_error_code(b) <= MAX_VARINT,
        (application_error_code(a) - WEBTRANSPORT_APPLICATION_ERROR_FIRST) % 0x1f != 0x1e,
{
}

/// The four lanes have the markers one to four.
pub proof fn law_lanes_have_their_markers()
    ensures
        seq![LANE_VIDEO, LANE_AUDIO, LANE_OTHER, LANE_RELIABLE_INBOUND] == seq![1u8, 2, 3, 4],
{
}

/// A code of the application is moved up by one for every thirty codes, so that it
/// skips the reserved ones.
pub proof fn law_codes_skip_the_reserved_ones(code: u32)
    ensures
        application_error_code(code) - 0x52e4_a40f_a8db == code + code as int / 30,
        code < 0xffff_ffff ==> application_error_code((code + 1) as u32) - application_error_code(
            code,
        ) == (if (code + 1) % 30 == 0 {
            2int
        } else {
            1
        }),
{
}

/// The header of a video stream has nine bytes: the marker of the lane, the number of
/// the frame and its length, each with its highest byte first. Frames of up to sixteen
/// mebibytes can be sent, and empty ones cannot.
pub proof fn law_video_header_holds_number_and_length(sequence: u32, length: nat)
    requires
        sendable(length as int),
    ensures
        ({
            let header = video_stream_header(sequence, length);
            &&& header.len() == 9
            &&& header[0] == 1
            &&& be_value(header.subrange(1, 5)) == sequence
            &&& be_value(header.subrange(5, 9)) == length
        }),
        forall|size: int| #[trigger] sendable(size) <==> 1 <= size <= 16 * 1024 * 1024,
{
    crate::wire::law_u32_round_trip(sequence);
    law_frame_length_round_trip(length);
    let header = video_stream_header(sequence, length);
    assert(header.subrange(1, 5) =~= be_bytes(sequence as nat, 4));
    assert(header.subrange(5, 9) =~= be_bytes(length, 4));
}

/// A delta frame may stand still for half a second. A key frame has four round trips,
/// but never less than half a second and never more than two.
pub proof fn law_key_frames_have_more_time(rtt_nanos: nat, longer: nat)
    requires
        rtt_nanos <= longer,
    ensures
        inactivity_timeout_nanos(false, rtt_nanos) == 500_000_000,
        500_000_000 <= inactivity_timeout_nanos(true, rtt_nanos) <= 2_000_000_000,
        inactivity_timeout_nanos(true, rtt_nanos) <= inactivity_timeout_nanos(true, longer),
        125_000_000 <= rtt_nanos <= 500_000_000 ==> inactivity_timeout_nanos(true, rtt_nanos)
            == 4 * rtt_nanos,
{
}

/// Each stage of a connection has a name of its own.
pub proof fn law_stages_have_names_of_their_own(one: ConnectionStage, other: ConnectionStage)
    requires
        stage_name(one) == stage_name(other),
    ensures
        one == other,
{
    reveal_strlit("wait_reliable_client_lane");
    reveal_strlit("open_audio_lane");
    reveal_strlit("open_reliable_server_lane");
    reveal_strlit("dispatch_outbound");
    reveal_strlit("write_video");
    reveal_strlit("write_audio");
    reveal_strlit("write_reliable_server");
    reveal_strlit("read_reliable_client");
    reveal_strlit("read_datagrams");
    assert("wait_reliable_client_lane"@.len() == 25 && "open_audio_lane"@.len() == 15);
    assert("open_reliable_server_lane"@.len() == 25 && "dispatch_outbound"@.len() == 17);
    assert("write_video"@.len() == 11 && "write_audio"@.len() == 11);
    assert("write_reliable_server"@.len() == 21 && "read_reliable_client"@.len() == 20);
    assert("read_datagrams"@.len() == 14);
    assert(stage_name(one).len() == stage_name(other).len());
    assert("write_video"@[6] == 'v' && "write_audio"@[6] == 'a');
    assert("wait_reliable_client_lane"@[0] == 'w' && "open_reliable_server_lane"@[0] == 'o');
    assert(stage_name(one)[0] == stage_name(other)[0]);
    assert(stage_name(one)[6] == stage_name(other)[6]);
}

/// A length is read from four bytes, the highest first. What the browser sends may be
/// 128 kibibytes long, and what it is sent sixteen mebibytes.
pub proof fn law_which_lengths_are_read(
    encoded: [u8; 4],
    length: Result<usize, InvalidFrameLength>,
    inbound: Result<usize, InvalidFrameLength>,
)
    requires
        call_ensures(decode_frame_length, (encoded,), length),
        call_ensures(decode_reliable_inbound_frame_length, (encoded,), inbound),
    ensures
        ({
            let value = encoded@[0] * 0x100_0000 + encoded@[1] * 0x1_0000 + encoded@[2] * 0x100
                + encoded@[3];
            &&& length is Ok <==> 1 <= value <= 16 * 1024 * 1024
            &&& inbound is Ok <==> 1 <= value <= 128 * 1024
            &&& length is Ok ==> length->Ok_0 == value
            &&& inbound is Ok ==> inbound->Ok_0 == value
        }),
{
    crate::wire::law_highest_byte_comes_first(encoded@);
}

} // verus!
