//! What the rest of the server sees of the storage.

use crate::time::{Duration, Instant};
use serde_json::Value;
use vstd::prelude::*;

verus! {

#[derive(Clone, Copy, Debug, PartialEq, Eq, Structural)]
pub struct UserId(pub u32);

#[derive(Clone, Copy, Debug, PartialEq, Eq, Structural)]
pub struct RoleId(pub u32);

#[derive(Clone, Copy, Debug, PartialEq, Eq, Structural)]
pub struct HostId(pub u32);

#[derive(Clone, Copy, Debug, PartialEq, Eq, Structural)]
pub enum RoleType {
    User,
    Admin,
}

/// The hardware address of a host, for waking it up.
#[derive(Clone, Copy, Debug, PartialEq, Eq)]
pub struct MacAddress {
    pub bytes: [u8; 6],
}

#[derive(Clone, Copy, Debug, PartialEq, Eq)]
pub struct StoragePassword {
    pub salt: [u8; 16],
    pub hash: [u8; 32],
    pub iterations: u32,
}

/// The permissions of a role.
#[derive(Clone, Copy, Debug, PartialEq, Eq, Structural)]
pub struct StorageRolePermissions {
    pub allow_add_hosts: bool,
    pub maximum_bitrate_kbps: Option<u32>,
    pub allow_codec_h264: bool,
    pub allow_codec_h265: bool,
    pub allow_codec_av1: bool,
    pub allow_hdr: bool,
    pub allow_transport_webrtc: bool,
    pub allow_transport_websockets: bool,
}

/// Everything is allowed, without a limit.
pub open spec fn all_allowed() -> StorageRolePermissions {
    StorageRolePermissions {
        allow_add_hosts: true,
        maximum_bitrate_kbps: None,
        allow_codec_h264: true,
        allow_codec_h265: true,
        allow_codec_av1: true,
        allow_hdr: true,
        allow_transport_webrtc: true,
        allow_transport_websockets: true,
    }
}

impl Default for StorageRolePermissions {
    fn default() -> (permissions: Self)
        ensures
            permissions == all_allowed(),
    {
        StorageRolePermissions {
            allow_add_hosts: true,
            maximum_bitrate_kbps: None,
            allow_codec_h264: true,
            allow_codec_h265: true,
            allow_codec_av1: true,
            allow_hdr: true,
            allow_transport_webrtc: true,
            allow_transport_websockets: true,
        }
    }
}

#[derive(Debug)]
pub struct StorageRole {
    pub id: RoleId,
    pub name: String,
    pub ty: RoleType,
    pub default_settings: Value,
    pub permissions: StorageRolePermissions,
}

#[derive(Debug)]
pub struct StorageRoleAdd {
    pub name: String,
    pub ty: RoleType,
    pub default_settings: Value,
    pub permissions: StorageRolePermissions,
}

/// What of a role is changed.
#[derive(Debug)]
pub struct StorageRoleModify {
    pub name: Option<String>,
    pub ty: Option<RoleType>,
    pub default_settings: Option<Value>,
    pub permissions: Option<StorageRolePermissions>,
}

#[derive(Debug)]
pub struct StorageUser {
    pub id: UserId,
    pub name: String,
    pub password: Option<StoragePassword>,
    pub role_id: RoleId,
    pub client_unique_id: String,
    pub settings: Option<Value>,
    pub settings_revision: u64,
    pub settings_mutation_ids: Vec<String>,
}

#[derive(Debug)]
pub struct StorageUserAdd {
    pub role_id: RoleId,
    pub name: String,
    pub password: Option<StoragePassword>,
    pub client_unique_id: String,
}

/// What of a user is changed. A password can be taken away.
#[derive(Debug)]
pub struct StorageUserModify {
    pub role_id: Option<RoleId>,
    pub password: Option<Option<StoragePassword>>,
    pub client_unique_id: Option<String>,
}

/// What became of a change to the settings.
#[derive(Clone, Copy, Debug, PartialEq, Eq, Structural)]
pub struct StorageSettingsMutation {
    pub revision: u64,
    /// The change was new.
    pub applied: bool,
}

#[derive(Debug)]
pub struct StorageHostPairInfo {
    pub client_private_key: pem::Pem,
    pub client_certificate: pem::Pem,
    pub server_certificate: pem::Pem,
}

#[derive(Debug)]
pub struct StorageHostCache {
    pub name: String,
    pub mac: Option<MacAddress>,
}

#[derive(Debug)]
pub struct StorageHost {
    pub id: HostId,
    /// A host without an owner belongs to everyone.
    pub owner: Option<UserId>,
    pub address: String,
    pub http_port: u16,
    pub pair_info: Option<StorageHostPairInfo>,
    pub cache: StorageHostCache,
}

#[derive(Debug)]
pub struct StorageHostAdd {
    pub owner: Option<UserId>,
    pub address: String,
    pub http_port: u16,
    pub pair_info: Option<StorageHostPairInfo>,
    pub cache: StorageHostCache,
}

/// What of a host is changed. The owner, the pairing and the hardware address
/// can be taken away.
#[derive(Debug)]
pub struct StorageHostModify {
    pub owner: Option<Option<UserId>>,
    pub address: Option<String>,
    pub http_port: Option<u16>,
    pub pair_info: Option<Option<StorageHostPairInfo>>,
    pub cache_name: Option<String>,
    pub cache_mac: Option<Option<MacAddress>>,
}

/// What a browser shows to be let in.
#[derive(Clone, Copy, Debug, PartialEq, Eq)]
pub struct SessionToken {
    pub bytes: [u8; 32],
}

/// A login.
#[derive(Clone, Copy, Debug, PartialEq, Eq)]
pub struct Session {
    pub token: SessionToken,
    pub created_at: Instant,
    pub expiration: Duration,
    pub user_id: u32,
}

/// A role for which nothing was set may do everything, at any bitrate.
pub proof fn law_rights_are_given_by_default()
    ensures
        ({
            let rights = all_allowed();
            &&& rights.allow_add_hosts && rights.allow_hdr && rights.maximum_bitrate_kbps is None
            &&& rights.allow_codec_h264 && rights.allow_codec_h265 && rights.allow_codec_av1
            &&& rights.allow_transport_webrtc && rights.allow_transport_websockets
        }),
{
}

} // verus!
