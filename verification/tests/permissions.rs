//! What a role may do with a stream.

use moonlight_web::permissions::{
    apply_permissions_to_settings, StreamPermissions, StreamSettings,
};
use moonlight_web::video_format::{
    register_video_codecs, requested_formats, video_format_to_codec, VideoFormat, MASK_ALL, MASK_H265,
};

fn unrestricted_permissions(maximum_bitrate_kbps: Option<u32>) -> StreamPermissions {
    StreamPermissions {
        allow_add_hosts: true,
        maximum_bitrate_kbps,
        allow_codec_h264: true,
        allow_codec_h265: true,
        allow_codec_av1: true,
        allow_hdr: true,
        allow_transport_webrtc: true,
        allow_transport_websockets: true,
    }
}

fn settings() -> StreamSettings {
    StreamSettings {
        bitrate_kbps: 10_000,
        adaptive_bitrate: true,
        minimum_bitrate_kbps: 100,
        width: 1920,
        height: 1080,
        fps: 60,
        play_audio_local: false,
        encrypt_host_video: true,
        encrypt_host_audio: true,
        supported_codecs: 0,
        hdr: false,
    }
}

#[test]
fn adaptive_minimum_is_bounded_by_floor_and_permitted_ceiling() {
    let mut settings = settings();
    let permissions = unrestricted_permissions(Some(4_000));

    apply_permissions_to_settings(&permissions, &mut settings);
    assert_eq!(settings.bitrate_kbps, 4_000);
    assert_eq!(settings.minimum_bitrate_kbps, 500);

    settings.minimum_bitrate_kbps = 8_000;
    apply_permissions_to_settings(&permissions, &mut settings);
    assert_eq!(settings.minimum_bitrate_kbps, 4_000);
}

#[test]
fn forbidden_codecs_and_hdr_are_taken_out() {
    let mut asked = settings();
    asked.supported_codecs = 0xffff_ffff;
    asked.hdr = true;
    let permissions = StreamPermissions {
        allow_codec_h265: false,
        allow_hdr: false,
        ..unrestricted_permissions(None)
    };
    apply_permissions_to_settings(&permissions, &mut asked);
    assert_eq!(asked.supported_codecs, MASK_ALL & !MASK_H265);
    assert!(!asked.hdr);
    assert_eq!(asked.bitrate_kbps, 10_000);
    let once = asked;
    apply_permissions_to_settings(&permissions, &mut asked);
    assert_eq!(asked, once);
}

#[test]
fn floor_follows_a_low_bitrate() {
    let mut asked = settings();
    asked.bitrate_kbps = 300;
    apply_permissions_to_settings(&unrestricted_permissions(None), &mut asked);
    assert_eq!((asked.bitrate_kbps, asked.minimum_bitrate_kbps), (300, 300));
}

#[test]
fn codecs_are_announced_with_their_parameters() {
    let h264 = video_format_to_codec(VideoFormat::H264).unwrap();
    assert_eq!(h264.mime_type, "video/H264");
    assert_eq!(h264.clock_rate, 90_000);
    let av1 = video_format_to_codec(VideoFormat::Av1Main8).unwrap();
    assert_eq!(av1.mime_type, "video/AV1");
    assert!(h264.payload_type != av1.payload_type);
    let feedback: Vec<(&str, &str)> = av1
        .rtcp_feedback
        .iter()
        .map(|feedback| (feedback.typ.as_str(), feedback.parameter.as_str()))
        .collect();
    assert!(feedback.contains(&("nack", "pli")));
}

#[test]
fn unknown_formats_are_not_requested() {
    assert_eq!(requested_formats(0x10), VideoFormat::H264.bit());
    assert_eq!(requested_formats(VideoFormat::H265.bit()), VideoFormat::H265.bit());
}

#[test]
fn every_format_is_announced() {
    let codecs = register_video_codecs();
    assert_eq!(codecs.len(), 10);
    let types: Vec<u8> = codecs.iter().map(|codec| codec.payload_type).collect();
    assert_eq!(types, [96, 97, 98, 99, 100, 101, 102, 102, 103, 103]);
    assert_eq!(codecs[2].mime_type, "video/H265");
    assert_eq!(codecs[9].sdp_fmtp_line, "profile=1");
}
