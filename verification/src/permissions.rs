//! Stream settings, and the restrictions that an administrator puts on them.

use crate::adaptive_bitrate::{larger, smaller};
use crate::video_format::{offers, VideoFormat, MASK_ALL, MASK_AV1, MASK_H264, MASK_H265};
use vstd::prelude::*;

verus! {

/// The lowest useful bitrate of the supported video profiles.
pub const MINIMUM_USEFUL_BITRATE_KBPS: u32 = 500;

/// What a client asks of a stream.
#[derive(Clone, Copy, Debug, PartialEq, Eq, Structural)]
pub struct StreamSettings {
    pub bitrate_kbps: u32,
    pub adaptive_bitrate: bool,
    pub minimum_bitrate_kbps: u32,
    pub width: u32,
    pub height: u32,
    pub fps: u32,
    pub play_audio_local: bool,
    pub encrypt_host_video: bool,
    pub encrypt_host_audio: bool,
    pub supported_codecs: u32,
    pub hdr: bool,
}

/// What a role may do.
#[derive(Clone, Copy, Debug, PartialEq, Eq, Structural)]
pub struct StreamPermissions {
    pub allow_add_hosts: bool,
    pub maximum_bitrate_kbps: Option<u32>,
    pub allow_codec_h264: bool,
    pub allow_codec_h265: bool,
    pub allow_codec_av1: bool,
    pub allow_hdr: bool,
    pub allow_transport_webrtc: bool,
    pub allow_transport_websockets: bool,
}

/// `bits` without those of `mask`, unless they are allowed.
pub open spec fn masked(bits: u32, allowed: bool, mask: u32) -> u32 {
    if allowed {
        bits
    } else {
        bits & !mask
    }
}

pub open spec fn permitted_bitrate(permissions: StreamPermissions, bitrate_kbps: u32) -> u32 {
    match permissions.maximum_bitrate_kbps {
        Some(maximum) => smaller(bitrate_kbps as int, maximum as int) as u32,
        None => bitrate_kbps,
    }
}

pub open spec fn permitted_codecs(permissions: StreamPermissions, codecs: u32) -> u32 {
    masked(
        masked(
            masked(codecs & MASK_ALL, permissions.allow_codec_h264, MASK_H264),
            permissions.allow_codec_h265,
            MASK_H265,
        ),
        permissions.allow_codec_av1,
        MASK_AV1,
    )
}

/// The settings that a client gets for the ones it asked for. The bitrate is
/// capped, and the floor for adaptive changes lies between
/// [`MINIMUM_USEFUL_BITRATE_KBPS`], or the bitrate where that is lower, and the
/// bitrate.
pub open spec fn permitted(
    permissions: StreamPermissions,
    settings: StreamSettings,
) -> StreamSettings {
    let bitrate_kbps = permitted_bitrate(permissions, settings.bitrate_kbps);
    StreamSettings {
        bitrate_kbps,
        minimum_bitrate_kbps: smaller(
            larger(
                settings.minimum_bitrate_kbps as int,
                smaller(bitrate_kbps as int, MINIMUM_USEFUL_BITRATE_KBPS as int),
            ),
            bitrate_kbps as int,
        ) as u32,
        supported_codecs: permitted_codecs(permissions, settings.supported_codecs),
        hdr: settings.hdr && permissions.allow_hdr,
        ..settings
    }
}

/// Cuts the settings down to what the permissions allow. Nothing is refused:
/// the interface already shows the restrictions.
pub fn apply_permissions_to_settings(
    permissions: &StreamPermissions,
    settings: &mut StreamSettings,
)
    ensures
        *final(settings) == permitted(*permissions, *old(settings)),
{
    if let Some(maximum_bitrate) = permissions.maximum_bitrate_kbps {
        if settings.bitrate_kbps > maximum_bitrate {
            settings.bitrate_kbps = maximum_bitrate;
        }
    }
    let adaptive_floor: u32 = settings.bitrate_kbps.min(MINIMUM_USEFUL_BITRATE_KBPS);
    settings.minimum_bitrate_kbps =
    settings.minimum_bitrate_kbps.max(adaptive_floor).min(settings.bitrate_kbps);

    let mut supported_codecs: u32 = settings.supported_codecs & MASK_ALL;
    if !permissions.allow_codec_h264 {
        supported_codecs = supported_codecs & !MASK_H264;
    }
    if !permissions.allow_codec_h265 {
        supported_codecs = supported_codecs & !MASK_H265;
    }
    if !permissions.allow_codec_av1 {
        supported_codecs = supported_codecs & !MASK_AV1;
    }
    settings.supported_codecs = supported_codecs;

    if !permissions.allow_hdr {
        settings.hdr = false;
    }
}

/// Permitted settings stay as they are when the same permissions are applied again.
pub proof fn law_permissions_are_idempotent(
    permissions: StreamPermissions,
    settings: StreamSettings,
)
    ensures
        permitted(permissions, permitted(permissions, settings)) == permitted(
            permissions,
            settings,
        ),
{
    let c = settings.supported_codecs;
    let a = permissions.allow_codec_h264;
    let b = permissions.allow_codec_h265;
    let d = permissions.allow_codec_av1;
    let once = permitted_codecs(permissions, c);
    assert(once == {
        let x = c & 0xff0fu32;
        let y = if a {
            x
        } else {
            x & !0x000fu32
        };
        let z = if b {
            y
        } else {
            y & !0x0f00u32
        };
        if d {
            z
        } else {
            z & !0xf000u32
        }
    });
    assert({
        let x = once & 0xff0fu32;
        let y = if a {
            x
        } else {
            x & !0x000fu32
        };
        let z = if b {
            y
        } else {
            y & !0x0f00u32
        };
        if d {
            z
        } else {
            z & !0xf000u32
        }
    } == once) by (bit_vector)
        requires
            once == {
                let x = c & 0xff0fu32;
                let y = if a {
                    x
                } else {
                    x & !0x000fu32
                };
                let z = if b {
                    y
                } else {
                    y & !0x0f00u32
                };
                if d {
                    z
                } else {
                    z & !0xf000u32
                }
            },
    ;
}

/// No setting exceeds its permission: the bitrate keeps to the maximum, the
/// adaptive floor to the bitrate, and HDR is on only where it is allowed.
pub proof fn law_permissions_bound_settings(
    permissions: StreamPermissions,
    settings: StreamSettings,
)
    ensures
        ({
            let after = permitted(permissions, settings);
            &&& after.bitrate_kbps <= settings.bitrate_kbps
            &&& permissions.maximum_bitrate_kbps matches Some(maximum) ==> after.bitrate_kbps
                <= maximum
            &&& after.minimum_bitrate_kbps <= after.bitrate_kbps
            &&& after.minimum_bitrate_kbps >= smaller(
                after.bitrate_kbps as int,
                MINIMUM_USEFUL_BITRATE_KBPS as int,
            )
            &&& after.hdr ==> permissions.allow_hdr && settings.hdr
        }),
{
}

/// A format is left where the client supports it and its family is allowed, and only there.
pub proof fn law_permissions_keep_allowed_formats(
    permissions: StreamPermissions,
    settings: StreamSettings,
    format: VideoFormat,
)
    ensures
        offers(permitted(permissions, settings).supported_codecs, format) == (offers(
            settings.supported_codecs,
            format,
        ) && (if format.is_h264() {
            permissions.allow_codec_h264
        } else if format.is_h265() {
            permissions.allow_codec_h265
        } else {
            permissions.allow_codec_av1
        })),
{
    let c = settings.supported_codecs;
    let a = permissions.allow_codec_h264;
    let b = permissions.allow_codec_h265;
    let d = permissions.allow_codec_av1;
    let bit = format.spec_bit();
    let once = permitted_codecs(permissions, c);
    assert(once == {
        let x = c & 0xff0fu32;
        let y = if a {
            x
        } else {
            x & !0x000fu32
        };
        let z = if b {
            y
        } else {
            y & !0x0f00u32
        };
        if d {
            z
        } else {
            z & !0xf000u32
        }
    });
    assert((once & bit != 0) == ((c & bit != 0) && (if bit <= 0xf {
        a
    } else if bit <= 0xf00 {
        b
    } else {
        d
    }))) by (bit_vector)
        requires
            bit == 1 || bit == 4 || bit == 0x100 || bit == 0x200 || bit == 0x400 || bit == 0x800
                || bit == 0x1000 || bit == 0x2000 || bit == 0x4000 || bit == 0x8000,
            once == {
                let x = c & 0xff0fu32;
                let y = if a {
                    x
                } else {
                    x & !0x000fu32
                };
                let z = if b {
                    y
                } else {
                    y & !0x0f00u32
                };
                if d {
                    z
                } else {
                    z & !0xf000u32
                }
            },
    ;
}

/// Permissions take away what they forbid and nothing else. The bitrate is the
/// one that was asked for, or the maximum where that is less. The adaptive floor
/// is the one that was asked for, moved no further than needed to lie between 500
/// kilobits (or a bitrate below that) and the bitrate. HDR is on exactly where it
/// was asked for and is allowed. Everything else stays.
pub proof fn law_permissions_take_away_what_they_forbid(
    permissions: StreamPermissions,
    settings: StreamSettings,
)
    ensures
        ({
            let after = permitted(permissions, settings);
            &&& match permissions.maximum_bitrate_kbps {
                Some(maximum) if maximum < settings.bitrate_kbps => after.bitrate_kbps == maximum,
                _ => after.bitrate_kbps == settings.bitrate_kbps,
            }
            &&& after.minimum_bitrate_kbps <= after.bitrate_kbps
            &&& after.minimum_bitrate_kbps >= 500 || after.minimum_bitrate_kbps
                == after.bitrate_kbps
            &&& after.minimum_bitrate_kbps > settings.minimum_bitrate_kbps
                ==> after.minimum_bitrate_kbps == 500 || (after.minimum_bitrate_kbps
                == after.bitrate_kbps && after.bitrate_kbps < 500)
            &&& after.minimum_bitrate_kbps < settings.minimum_bitrate_kbps
                ==> after.minimum_bitrate_kbps == after.bitrate_kbps
            &&& after.hdr <==> settings.hdr && permissions.allow_hdr
            &&& after.adaptive_bitrate == settings.adaptive_bitrate
            &&& after.width == settings.width
            &&& after.height == settings.height
            &&& after.fps == settings.fps
            &&& after.play_audio_local == settings.play_audio_local
            &&& after.encrypt_host_video == settings.encrypt_host_video
            &&& after.encrypt_host_audio == settings.encrypt_host_audio
        }),
{
}

/// Settings that keep to all permissions are left as they are.
pub proof fn law_permitted_settings_are_left_alone(
    permissions: StreamPermissions,
    settings: StreamSettings,
)
    requires
        permissions.maximum_bitrate_kbps matches Some(maximum) ==> settings.bitrate_kbps <= maximum,
        settings.minimum_bitrate_kbps <= settings.bitrate_kbps,
        settings.minimum_bitrate_kbps >= 500 || settings.minimum_bitrate_kbps
            == settings.bitrate_kbps,
        settings.supported_codecs & !0xff0fu32 == 0,
        permissions.allow_codec_h264 || settings.supported_codecs & 0x000fu32 == 0,
        permissions.allow_codec_h265 || settings.supported_codecs & 0x0f00u32 == 0,
        permissions.allow_codec_av1 || settings.supported_codecs & 0xf000u32 == 0,
        permissions.allow_hdr || !settings.hdr,
    ensures
        permitted(permissions, settings) == settings,
{
    let c = settings.supported_codecs;
    assert(c & !0xff0fu32 == 0 ==> c & 0xff0fu32 == c) by (bit_vector);
    assert(c & 0x000fu32 == 0 ==> c & !0x000fu32 == c) by (bit_vector);
    assert(c & 0x0f00u32 == 0 ==> c & !0x0f00u32 == c) by (bit_vector);
    assert(c & 0xf000u32 == 0 ==> c & !0xf000u32 == c) by (bit_vector);
}

/// More rights never leave less of what was asked for.
pub proof fn law_more_rights_leave_more(
    fewer: StreamPermissions,
    more: StreamPermissions,
    settings: StreamSettings,
)
    requires
        more.maximum_bitrate_kbps matches Some(maximum) ==> (
        fewer.maximum_bitrate_kbps matches Some(lower) && lower <= maximum),
        fewer.allow_hdr ==> more.allow_hdr,
    ensures
        permitted(fewer, settings).bitrate_kbps <= permitted(more, settings).bitrate_kbps,
        permitted(fewer, settings).hdr ==> permitted(more, settings).hdr,
{
}

/// What comes out of the permissions holds bits of known families only, and no bit that
/// was not there before.
pub proof fn law_permissions_add_no_formats(
    permissions: StreamPermissions,
    settings: StreamSettings,
)
    ensures
        ({
            let before = settings.supported_codecs;
            let after = permitted(permissions, settings).supported_codecs;
            &&& after & !0xff0fu32 == 0
            &&& after & !before == 0
            &&& permissions.allow_codec_h264 && permissions.allow_codec_h265
                && permissions.allow_codec_av1 ==> after == before & 0xff0fu32
        }),
{
    let before = settings.supported_codecs;
    let h264 = permissions.allow_codec_h264;
    let h265 = permissions.allow_codec_h265;
    let av1 = permissions.allow_codec_av1;
    let known = before & 0xff0fu32;
    let first = if h264 {
        known
    } else {
        known & !0x000fu32
    };
    let second = if h265 {
        first
    } else {
        first & !0x0f00u32
    };
    let third = if av1 {
        second
    } else {
        second & !0xf000u32
    };
    assert(third == permitted(permissions, settings).supported_codecs);
    assert(third & !0xff0fu32 == 0 && third & !before == 0) by (bit_vector)
        requires
            known == before & 0xff0fu32,
            first == known || first == known & !0x000fu32,
            second == first || second == first & !0x0f00u32,
            third == second || third == second & !0xf000u32,
    ;
}

} // verus!
