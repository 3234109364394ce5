//! The storage: what is in the file, and who is logged in.

use crate::errors::AppError;
use crate::outside::{json_entries, random_bytes};
use crate::storage::records::{
    HostId, RoleId, RoleType, Session, SessionToken, StorageHost, StorageHostAdd, StorageHostCache,
    StorageHostModify, StorageHostPairInfo, StoragePassword, StorageRole, StorageRoleAdd,
    StorageRoleModify, StorageRolePermissions, StorageSettingsMutation, StorageUser,
    StorageUserAdd, StorageUserModify, UserId,
};
use crate::storage::settings_patch::{
    apply_top_level_settings_patch, patched, settings_entries,
};
use crate::storage::versions::{
    is_latest, keys_of, migrate_to_latest, Json, V2Host, V2HostCache, V2HostPairInfo, V2UserPassword, V3Role,
    V3RolePermissions, V3RoleType, V4User, V4,
};
use crate::text::same_text;
use crate::time::{Duration, Instant};
use crate::wire::{
    be_bytes, be_value, lemma_be_bytes_len, lemma_be_round_trip, power_of_256, read_u32,
};
use serde_json::Value;
use std::collections::HashMap;
use vstd::prelude::*;

verus! {

broadcast use vstd::std_specs::hash::group_hash_axioms;

/// How many changes to a user's settings are remembered.
pub const MAX_RECENT_SETTINGS_MUTATIONS: usize = 32;

pub struct JsonStorage {
    pub users: HashMap<u32, V4User>,
    pub hosts: HashMap<u32, V2Host>,
    pub roles: HashMap<u32, V3Role>,
    pub sessions: Vec<Session>,
    /// The file must be written.
    pub write_due: bool,
}

/// [`JsonStorage`] as a mathematical value.
#[verifier::ext_equal]
pub struct Stored {
    pub users: Map<u32, V4User>,
    pub hosts: Map<u32, V2Host>,
    pub roles: Map<u32, V3Role>,
    pub sessions: Seq<Session>,
    pub write_due: bool,
}

impl View for JsonStorage {
    type V = Stored;

    open spec fn view(&self) -> Stored {
        Stored {
            users: self.users@,
            hosts: self.hosts@,
            roles: self.roles@,
            sessions: self.sessions@,
            write_due: self.write_due,
        }
    }
}

/// The sessions of everyone but this user.
pub open spec fn of_others(user_id: u32) -> spec_fn(Session) -> bool {
    |session: Session| session.user_id != user_id
}

/// The sessions that have not run out.
pub open spec fn still_valid(now: Instant) -> spec_fn(Session) -> bool {
    |session: Session| now.elapsed_since(session.created_at) < session.expiration.nanos()
}

/// The sessions without one.
pub open spec fn with_another_token(token: SessionToken) -> spec_fn(Session) -> bool {
    |session: Session| session.token.bytes@ != token.bytes@
}

/// The session of a token is the first with it.
pub open spec fn session_at(sessions: Seq<Session>, token: SessionToken) -> nat
    decreases sessions.len(),
{
    if sessions.len() == 0 || sessions[0].token.bytes@ == token.bytes@ {
        0
    } else {
        1 + session_at(sessions.skip(1), token)
    }
}

/// No two sessions have the same token.
pub open spec fn tokens_are_distinct(sessions: Seq<Session>) -> bool {
    sessions.map_values(|session: Session| session.token.bytes@).no_duplicates()
}

/// Some session has this token.
pub open spec fn is_token(sessions: Seq<Session>, token: Seq<u8>) -> bool {
    exists|i: int| 0 <= i < sessions.len() && (#[trigger] sessions[i]).token.bytes@ == token
}

/// A token with a number in its first eight bytes.
pub open spec fn numbered_token(token: Seq<u8>, number: nat) -> Seq<u8> {
    be_bytes(number, 8) + token.skip(8)
}

pub open spec fn same_permissions(
    stored: V3RolePermissions,
    permissions: StorageRolePermissions,
) -> bool {
    &&& permissions.allow_add_hosts == stored.allow_add_hosts
    &&& permissions.maximum_bitrate_kbps == stored.maximum_bitrate_kbps
    &&& permissions.allow_codec_h264 == stored.allow_codec_h264
    &&& permissions.allow_codec_h265 == stored.allow_codec_h265
    &&& permissions.allow_codec_av1 == stored.allow_codec_av1
    &&& permissions.allow_hdr == stored.allow_hdr
    &&& permissions.allow_transport_webrtc == stored.allow_transport_webrtc
    &&& permissions.allow_transport_websockets == stored.allow_transport_websockets
}

pub fn permissions_from_json(permissions: V3RolePermissions) -> (read: StorageRolePermissions)
    ensures
        same_permissions(permissions, read),
{
    StorageRolePermissions {
        allow_add_hosts: permissions.allow_add_hosts,
        maximum_bitrate_kbps: permissions.maximum_bitrate_kbps,
        allow_codec_h264: permissions.allow_codec_h264,
        allow_codec_h265: permissions.allow_codec_h265,
        allow_codec_av1: permissions.allow_codec_av1,
        allow_hdr: permissions.allow_hdr,
        allow_transport_webrtc: permissions.allow_transport_webrtc,
        allow_transport_websockets: permissions.allow_transport_websockets,
    }
}

pub fn permissions_to_json(permissions: StorageRolePermissions) -> (stored: V3RolePermissions)
    ensures
        same_permissions(stored, permissions),
{
    V3RolePermissions {
        allow_add_hosts: permissions.allow_add_hosts,
        maximum_bitrate_kbps: permissions.maximum_bitrate_kbps,
        allow_codec_h264: permissions.allow_codec_h264,
        allow_codec_h265: permissions.allow_codec_h265,
        allow_codec_av1: permissions.allow_codec_av1,
        allow_hdr: permissions.allow_hdr,
        allow_transport_webrtc: permissions.allow_transport_webrtc,
        allow_transport_websockets: permissions.allow_transport_websockets,
    }
}

pub open spec fn same_role_type(stored: V3RoleType, ty: RoleType) -> bool {
    stored is Admin <==> ty is Admin
}

fn role_type_to_json(ty: RoleType) -> (stored: V3RoleType)
    ensures
        same_role_type(stored, ty),
{
    match ty {
        RoleType::Admin => V3RoleType::Admin,
        RoleType::User => V3RoleType::User,
    }
}

/// A role as it is stored.
pub open spec fn is_role(id: u32, stored: V3Role, role: StorageRole) -> bool {
    &&& role.id.0 == id
    &&& role.name == stored.name
    &&& same_role_type(stored.ty, role.ty)
    &&& role.default_settings == stored.default_settings
    &&& same_permissions(stored.permissions, role.permissions)
}

pub fn role_from_json(role_id: RoleId, role: &V3Role) -> (read: StorageRole)
    ensures
        is_role(role_id.0, *role, read),
{
    StorageRole {
        id: role_id,
        name: role.name.clone(),
        ty: match role.ty {
            V3RoleType::Admin => RoleType::Admin,
            V3RoleType::User => RoleType::User,
        },
        default_settings: role.default_settings.clone(),
        permissions: permissions_from_json(role.permissions),
    }
}

pub open spec fn same_password(
    stored: Option<V2UserPassword>,
    password: Option<StoragePassword>,
) -> bool {
    match (stored, password) {
        (Some(stored), Some(password)) => stored.salt == password.salt && stored.hash
            == password.hash && stored.iterations == password.iterations,
        (None, None) => true,
        _ => false,
    }
}

fn password_to_json(password: Option<StoragePassword>) -> (stored: Option<V2UserPassword>)
    ensures
        same_password(stored, password),
{
    match password {
        Some(password) => Some(
            V2UserPassword {
                salt: password.salt,
                hash: password.hash,
                iterations: password.iterations,
            },
        ),
        None => None,
    }
}

/// A user as they are stored.
pub open spec fn is_user(id: u32, stored: V4User, user: StorageUser) -> bool {
    &&& user.id.0 == id
    &&& user.name == stored.name
    &&& same_password(stored.password, user.password)
    &&& user.role_id.0 == stored.role_id
    &&& user.client_unique_id == stored.client_unique_id
    &&& user.settings == stored.settings
    &&& user.settings_revision == stored.settings_revision
    &&& user.settings_mutation_ids@ == stored.settings_mutation_ids@
}

fn copy_settings(settings: &Option<Value>) -> (copy: Option<Value>)
    ensures
        copy == *settings,
{
    match settings {
        Some(value) => Some(value.clone()),
        None => None,
    }
}

pub fn user_from_json(user_id: UserId, user: &V4User) -> (read: StorageUser)
    ensures
        is_user(user_id.0, *user, read),
{
    let settings_mutation_ids: Vec<String> = user.settings_mutation_ids.clone();
    assert(settings_mutation_ids@ =~= user.settings_mutation_ids@);
    StorageUser {
        id: user_id,
        name: user.name.clone(),
        password: match user.password {
            Some(password) => Some(
                StoragePassword {
                    salt: password.salt,
                    hash: password.hash,
                    iterations: password.iterations,
                },
            ),
            None => None,
        },
        role_id: RoleId(user.role_id),
        client_unique_id: user.client_unique_id.clone(),
        settings: copy_settings(&user.settings),
        settings_revision: user.settings_revision,
        settings_mutation_ids,
    }
}

pub open spec fn same_pairing(
    stored: Option<V2HostPairInfo>,
    pairing: Option<StorageHostPairInfo>,
) -> bool {
    match (stored, pairing) {
        (Some(stored), Some(pairing)) => stored.client_private_key == pairing.client_private_key
            && stored.client_certificate == pairing.client_certificate && stored.server_certificate
            == pairing.server_certificate,
        (None, None) => true,
        _ => false,
    }
}

fn pairing_to_json(pairing: Option<StorageHostPairInfo>) -> (stored: Option<V2HostPairInfo>)
    ensures
        same_pairing(stored, pairing),
{
    match pairing {
        Some(pairing) => Some(
            V2HostPairInfo {
                client_private_key: pairing.client_private_key,
                client_certificate: pairing.client_certificate,
                server_certificate: pairing.server_certificate,
            },
        ),
        None => None,
    }
}

/// The owner of a host, as an id.
pub open spec fn owner_id(owner: Option<UserId>) -> Option<u32> {
    match owner {
        Some(user_id) => Some(user_id.0),
        None => None,
    }
}

fn owner_to_json(owner: Option<UserId>) -> (id: Option<u32>)
    ensures
        id == owner_id(owner),
{
    match owner {
        Some(user_id) => Some(user_id.0),
        None => None,
    }
}

/// A host as it is stored.
pub open spec fn is_host(id: u32, stored: V2Host, host: StorageHost) -> bool {
    &&& host.id.0 == id
    &&& owner_id(host.owner) == stored.owner
    &&& host.address == stored.address
    &&& host.http_port == stored.http_port
    &&& same_pairing(stored.pair_info, host.pair_info)
    &&& host.cache.name == stored.cache.name
    &&& host.cache.mac == stored.cache.mac
}

pub fn host_from_json(host_id: HostId, host: &V2Host) -> (read: StorageHost)
    ensures
        is_host(host_id.0, *host, read),
{
    StorageHost {
        id: host_id,
        owner: match host.owner {
            Some(user_id) => Some(UserId(user_id)),
            None => None,
        },
        address: host.address.clone(),
        http_port: host.http_port,
        pair_info: match &host.pair_info {
            Some(pairing) => Some(
                StorageHostPairInfo {
                    client_private_key: pairing.client_private_key.clone(),
                    client_certificate: pairing.client_certificate.clone(),
                    server_certificate: pairing.server_certificate.clone(),
                },
            ),
            None => None,
        },
        cache: StorageHostCache { name: host.cache.name.clone(), mac: host.cache.mac },
    }
}

/// The number that four drawn bytes stand for, the highest byte first, where
/// the generator gave any.
pub open spec fn drawn_number(drawn: Option<[u8; 4]>) -> Result<u32, AppError> {
    match drawn {
        Some(bytes) => Ok(be_value(bytes@) as u32),
        None => Err(AppError::NoRandomness),
    }
}

/// A random number: what the bytes that the generator gave stand for. Nothing is
/// known of which bytes come, nor of whether the generator fails.
pub fn random_number() -> (number: Result<u32, AppError>)
    ensures
        exists|drawn: Option<[u8; 4]>| number == #[trigger] drawn_number(drawn),
{
    number_from(random_bytes::<4>())
}

/// The number that drawn bytes stand for, the highest byte first.
pub fn number_from(drawn: Option<[u8; 4]>) -> (number: Result<u32, AppError>)
    ensures
        number == drawn_number(drawn),
        drawn is Some ==> number is Ok && number->Ok_0 == be_value(drawn->0@),
{
    match drawn {
        Some(bytes) => {
            proof {
                assert(bytes@.subrange(0, 4) =~= bytes@);
            }
            Ok(read_u32(bytes.as_slice(), 0))
        },
        None => Err(AppError::NoRandomness),
    }
}

/// The smallest id that is not taken.
pub fn first_free_id<V>(taken: &HashMap<u32, V>) -> (id: Option<u32>)
    ensures
        match id {
            Some(id) => !taken@.contains_key(id) && forall|other: u32|
                other < id ==> #[trigger] taken@.contains_key(other),
            None => forall|other: u32| #[trigger] taken@.contains_key(other),
        },
{
    let mut id: u32 = 0;
    loop
        invariant
            forall|other: u32| other < id ==> #[trigger] taken@.contains_key(other),
        decreases u32::MAX - id,
    {
        if !taken.contains_key(&id) {
            return Some(id);
        }
        if id == u32::MAX {
            return None;
        }
        id = id + 1;
    }
}

/// A random id that is not taken: it draws until one is free. The `u64::MAX`th
/// draw of a taken id is the last one, and stands for the smallest free id. It
/// fails where the generator does, and where every id is taken.
fn free_id<V>(taken: &HashMap<u32, V>) -> (id: Result<u32, AppError>)
    ensures
        match id {
            Ok(id) => !taken@.contains_key(id),
            Err(error) => error == AppError::NoRandomness,
        },
{
    let mut attempts: u64 = u64::MAX;
    while attempts > 0
        decreases attempts,
    {
        let id: u32 = match random_number() {
            Ok(id) => id,
            Err(error) => {
                return Err(error);
            },
        };
        if !taken.contains_key(&id) {
            return Ok(id);
        }
        attempts = attempts - 1;
    }
    match first_free_id(taken) {
        Some(id) => Ok(id),
        None => Err(AppError::NoRandomness),
    }
}

fn same_token(a: SessionToken, b: SessionToken) -> (same: bool)
    ensures
        same == (a.bytes@ == b.bytes@),
{
    let mut i: usize = 0;
    while i < 32
        invariant
            i <= 32,
            forall|k: int| 0 <= k < i ==> a.bytes@[k] == b.bytes@[k],
        decreases 32 - i,
    {
        if a.bytes[i] != b.bytes[i] {
            return false;
        }
        i = i + 1;
    }
    assert(a.bytes@ =~= b.bytes@);
    true
}

impl JsonStorage {
    /// The storage with the contents of a file; without a file it is empty.
    pub fn load(file: Option<Json>) -> (storage: Self)
        ensures
            storage.sessions@.len() == 0,
            tokens_are_distinct(storage.sessions@),
            !storage.write_due,
            match file {
                None => storage.users@.dom() == Set::<u32>::empty() && storage.hosts@.dom()
                    == Set::<u32>::empty() && storage.roles@.dom() == Set::<u32>::empty(),
                Some(json) => is_latest(json, storage.users@, storage.hosts@, storage.roles@),
            },
    {
        match file {
            Some(json) => {
                let data: V4 = migrate_to_latest(json);
                JsonStorage {
                    users: data.users,
                    hosts: data.hosts,
                    roles: data.roles,
                    sessions: Vec::new(),
                    write_due: false,
                }
            },
            None => JsonStorage {
                users: HashMap::new(),
                hosts: HashMap::new(),
                roles: HashMap::new(),
                sessions: Vec::new(),
                write_due: false,
            },
        }
    }

    fn role_to_json(role: StorageRoleAdd) -> (stored: V3Role)
        ensures
            stored.name == role.name,
            same_role_type(stored.ty, role.ty),
            stored.default_settings == role.default_settings,
            same_permissions(stored.permissions, role.permissions),
    {
        V3Role {
            ty: role_type_to_json(role.ty),
            name: role.name,
            default_settings: role.default_settings,
            permissions: permissions_to_json(role.permissions),
        }
    }

    /// Adds a role under an id, unless the id is taken.
    pub fn add_role_with_id(&mut self, id: u32, role: StorageRoleAdd) -> (added: Option<StorageRole>)
        ensures
            added is None == old(self).roles@.contains_key(id),
            match added {
                None => final(self)@ == old(self)@,
                Some(added) => {
                    &&& added.id.0 == id
                    &&& added.name == role.name
                    &&& added.ty == role.ty
                    &&& added.default_settings == role.default_settings
                    &&& added.permissions == role.permissions
                    &&& is_role(id, final(self).roles@[id], added)
                    &&& final(self)@ == (Stored {
                        roles: old(self)@.roles.insert(id, final(self)@.roles[id]),
                        write_due: true,
                        ..old(self)@
                    })
                },
            },
    {
        if self.roles.contains_key(&id) {
            return None;
        }
        let stored: V3Role = Self::role_to_json(role);
        let added: StorageRole = role_from_json(RoleId(id), &stored);
        self.roles.insert(id, stored);
        self.write_due = true;
        Some(added)
    }

    /// Adds a role under a new id.
    pub fn add_role(&mut self, role: StorageRoleAdd) -> (added: Result<StorageRole, AppError>)
        ensures
            match added {
                Ok(added) => {
                    &&& !old(self).roles@.contains_key(added.id.0)
                    &&& added.name == role.name
                    &&& added.ty == role.ty
                    &&& added.default_settings == role.default_settings
                    &&& added.permissions == role.permissions
                    &&& is_role(added.id.0, final(self).roles@[added.id.0], added)
                    &&& final(self)@ == (Stored {
                        roles: old(self)@.roles.insert(
                            added.id.0,
                            final(self)@.roles[added.id.0],
                        ),
                        write_due: true,
                        ..old(self)@
                    })
                },
                Err(error) => error == AppError::NoRandomness && final(self)@ == old(self)@,
            },
    {
        let id: u32 = match free_id(&self.roles) {
            Ok(id) => id,
            Err(error) => {
                return Err(error);
            },
        };
        match self.add_role_with_id(id, role) {
            Some(added) => Ok(added),
            None => Err(AppError::NoRandomness),
        }
    }

    /// Changes a role.
    pub fn modify_role(&mut self, role_id: RoleId, modify: StorageRoleModify) -> (modified: Result<
        (),
        AppError,
    >)
        ensures
            if old(self).roles@.contains_key(role_id.0) {
                let before = old(self).roles@[role_id.0];
                let after = final(self).roles@[role_id.0];
                &&& modified is Ok
                &&& final(self)@ == (Stored {
                    roles: old(self)@.roles.insert(role_id.0, after),
                    write_due: true,
                    ..old(self)@
                })
                &&& after.name == match modify.name {
                    Some(name) => name,
                    None => before.name,
                }
                &&& match modify.ty {
                    Some(ty) => same_role_type(after.ty, ty),
                    None => after.ty == before.ty,
                }
                &&& after.default_settings == match modify.default_settings {
                    Some(value) => value,
                    None => before.default_settings,
                }
                &&& match modify.permissions {
                    Some(permissions) => same_permissions(after.permissions, permissions),
                    None => after.permissions == before.permissions,
                }
            } else {
                modified == Err::<(), _>(AppError::RoleNotFound) && final(self)@ == old(self)@
            },
    {
        let mut role: V3Role = match self.roles.remove(&role_id.0) {
            Some(role) => role,
            None => {
                assert(self.roles@ =~= old(self).roles@);
                return Err(AppError::RoleNotFound);
            },
        };
        if let Some(name) = modify.name {
            role.name = name;
        }
        if let Some(ty) = modify.ty {
            role.ty = role_type_to_json(ty);
        }
        if let Some(value) = modify.default_settings {
            role.default_settings = value;
        }
        if let Some(permissions) = modify.permissions {
            role.permissions = permissions_to_json(permissions);
        }
        let ghost after = role;
        self.roles.insert(role_id.0, role);
        self.write_due = true;
        assert(self.roles@ =~= old(self).roles@.insert(role_id.0, after));
        Ok(())
    }

    pub fn get_role(&self, role_id: RoleId) -> (role: Result<StorageRole, AppError>)
        ensures
            match role {
                Ok(role) => self.roles@.contains_key(role_id.0) && is_role(
                    role_id.0,
                    self.roles@[role_id.0],
                    role,
                ),
                Err(error) => !self.roles@.contains_key(role_id.0) && error
                    == AppError::RoleNotFound,
            },
    {
        match self.roles.get(&role_id.0) {
            Some(role) => Ok(role_from_json(role_id, role)),
            None => Err(AppError::RoleNotFound),
        }
    }

    /// Removes a role, its users and their sessions. The users go even where
    /// there is no such role.
    pub fn remove_role(&mut self, role_id: RoleId) -> (removed: Result<(), AppError>)
        ensures
            tokens_are_distinct(old(self).sessions@) ==> tokens_are_distinct(final(self).sessions@),
            removed == (if old(self).roles@.contains_key(role_id.0) {
                Ok(())
            } else {
                Err(AppError::RoleNotFound)
            }),
            final(self).roles@ == old(self).roles@.remove(role_id.0),
            final(self).hosts@ == old(self).hosts@,
            final(self).write_due,
            forall|id: u32| #[trigger]
                final(self).users@.contains_key(id) <==> old(self).users@.contains_key(id) && old(self).users@[id].role_id != role_id.0,
            forall|id: u32| #[trigger]
                final(self).users@.contains_key(id) ==> final(self).users@[id] == old(self).users@[id],
            final(self).sessions@ == old(self).sessions@.filter(
                of_kept_users(old(self).users@, role_id.0),
            ),
    {
        proof {
            if tokens_are_distinct(self.sessions@) {
                lemma_filter_keeps_tokens(
                    self.sessions@,
                    of_kept_users(self.users@, role_id.0),
                );
            }
        }
        let keys: Vec<u32> = keys_of(&self.users);
        let ghost users = self.users@;
        let ghost sessions = self.sessions@;
        let mut i: usize = 0;
        proof {
            assert(sessions.filter(of_kept_among(users, role_id.0, keys@.take(0))) == sessions) by {
                crate::seqs::lemma_filter_all(sessions, of_kept_among(users, role_id.0, keys@.take(0)));
            }
        }
        while i < keys.len()
            invariant
                i <= keys@.len(),
                keys@.no_duplicates(),
                users == old(self).users@,
                sessions == old(self).sessions@,
                self.roles@ == old(self).roles@,
                self.hosts@ == old(self).hosts@,
                self.write_due == old(self).write_due,
                forall|id: u32| #[trigger] users.contains_key(id) <==> keys@.contains(id),
                forall|id: u32| #[trigger]
                    self.users@.contains_key(id) <==> users.contains_key(id) && !(
                    users[id].role_id == role_id.0 && keys@.take(i as int).contains(id)),
                forall|id: u32| #[trigger]
                    self.users@.contains_key(id) ==> self.users@[id] == users[id],
                self.sessions@ == sessions.filter(
                    of_kept_among(users, role_id.0, keys@.take(i as int)),
                ),
            decreases keys@.len() - i,
        {
            let id: u32 = keys[i];
            proof {
                crate::storage::versions::lemma_key_moves(keys@, i as int);
                assert(users.contains_key(id));
                assert(!keys@.take(i as int).contains(id));
                assert(self.users@.contains_key(id));
            }
            let has_role: bool = match self.users.get(&id) {
                Some(user) => user.role_id == role_id.0,
                None => false,
            };
            let ghost before = self.sessions@;
            if has_role {
                self.users.remove(&id);
                self.remove_all_user_session_tokens(UserId(id));
                proof {
                    lemma_filter_both(
                        sessions,
                        of_kept_among(users, role_id.0, keys@.take(i as int)),
                        of_others(id),
                        of_kept_among(users, role_id.0, keys@.take(i + 1)),
                    );
                }
            } else {
                proof {
                    lemma_same_filter(
                        sessions,
                        of_kept_among(users, role_id.0, keys@.take(i as int)),
                        of_kept_among(users, role_id.0, keys@.take(i + 1)),
                    );
                }
            }
            i = i + 1;
        }
        proof {
            assert(keys@.take(i as int) =~= keys@);
            lemma_same_filter(
                sessions,
                of_kept_among(users, role_id.0, keys@.take(i as int)),
                of_kept_users(users, role_id.0),
            );
        }
        let removed: bool = self.roles.remove(&role_id.0).is_some();
        assert(self.roles@ =~= old(self).roles@.remove(role_id.0));
        self.write_due = true;
        if removed {
            Ok(())
        } else {
            Err(AppError::RoleNotFound)
        }
    }

    /// All roles. Nothing is said of their order.
    pub fn list_roles(&self) -> (roles: Vec<StorageRole>)
        ensures
            forall|id: u32| #[trigger]
                self.roles@.contains_key(id) <==> exists|i: int|
                    0 <= i < roles@.len() && (#[trigger] roles@[i]).id.0 == id,
            forall|i: int|
                0 <= i < roles@.len() ==> is_role(
                    (#[trigger] roles@[i]).id.0,
                    self.roles@[roles@[i].id.0],
                    roles@[i],
                ),
            forall|i: int, j: int|
                0 <= i < j < roles@.len() ==> (#[trigger] roles@[i]).id != (
                #[trigger] roles@[j]).id,
    {
        let keys: Vec<u32> = keys_of(&self.roles);
        let mut roles: Vec<StorageRole> = Vec::new();
        let mut i: usize = 0;
        while i < keys.len()
            invariant
                i <= keys@.len(),
                keys@.no_duplicates(),
                forall|id: u32| #[trigger] self.roles@.contains_key(id) <==> keys@.contains(id),
                roles@.len() == i,
                forall|k: int|
                    0 <= k < i ==> (#[trigger] roles@[k]).id.0 == keys@[k] && is_role(
                        keys@[k],
                        self.roles@[keys@[k]],
                        roles@[k],
                    ),
            decreases keys@.len() - i,
        {
            let id: u32 = keys[i];
            assert(self.roles@.contains_key(id));
            if let Some(role) = self.roles.get(&id) {
                roles.push(role_from_json(RoleId(id), role));
            }
            i = i + 1;
        }
        proof {
            assert forall|id: u32| #[trigger] self.roles@.contains_key(id) implies exists|k: int|
                0 <= k < roles@.len() && (#[trigger] roles@[k]).id.0 == id by {
                let k = keys@.index_of(id);
                assert(roles@[k].id.0 == id);
            }
            assert forall|id: u32|
                (exists|k: int|
                    0 <= k < roles@.len() && (#[trigger] roles@[k]).id.0
                        == id) implies #[trigger] self.roles@.contains_key(id) by {
                let k = choose|k: int| 0 <= k < roles@.len() && (#[trigger] roles@[k]).id.0 == id;
                assert(keys@[k] == id);
            }
        }
        roles
    }

    fn user_to_json(user: StorageUserAdd) -> (stored: V4User)
        ensures
            is_new_user(user, stored),
    {
        V4User {
            role_id: user.role_id.0,
            name: user.name,
            password: password_to_json(user.password),
            client_unique_id: user.client_unique_id,
            settings: None,
            settings_revision: 0,
            settings_mutation_ids: Vec::new(),
        }
    }

    /// Adds a user under an id, unless the id or the name is taken.
    pub fn add_user_with_id(&mut self, id: u32, user: StorageUserAdd) -> (added: Option<StorageUser>)
        ensures
            added is None == (old(self).users@.contains_key(id) || name_taken(
                old(self).users@,
                user.name@,
            )),
            match added {
                None => final(self)@ == old(self)@,
                Some(added) => {
                    &&& is_new_user(user, final(self).users@[id])
                    &&& is_user(id, final(self).users@[id], added)
                    &&& final(self)@ == (Stored {
                        users: old(self)@.users.insert(id, final(self)@.users[id]),
                        write_due: true,
                        ..old(self)@
                    })
                },
            },
    {
        if self.users.contains_key(&id) || self.find_user_by_name(user.name.as_str()).is_some() {
            return None;
        }
        let stored: V4User = Self::user_to_json(user);
        let added: StorageUser = user_from_json(UserId(id), &stored);
        self.users.insert(id, stored);
        self.write_due = true;
        Some(added)
    }

    /// Adds a user under a new id.
    pub fn add_user(&mut self, user: StorageUserAdd) -> (added: Result<StorageUser, AppError>)
        ensures
            name_taken(old(self).users@, user.name@) <==> added == Err::<StorageUser, _>(
                AppError::UserAlreadyExists,
            ),
            match added {
                Ok(added) => {
                    &&& !old(self).users@.contains_key(added.id.0)
                    &&& is_new_user(user, final(self).users@[added.id.0])
                    &&& is_user(added.id.0, final(self).users@[added.id.0], added)
                    &&& final(self)@ == (Stored {
                        users: old(self)@.users.insert(
                            added.id.0,
                            final(self)@.users[added.id.0],
                        ),
                        write_due: true,
                        ..old(self)@
                    })
                },
                Err(error) => final(self)@ == old(self)@ && (error == AppError::UserAlreadyExists
                    || error == AppError::NoRandomness),
            },
    {
        if self.find_user_by_name(user.name.as_str()).is_some() {
            return Err(AppError::UserAlreadyExists);
        }
        let id: u32 = match free_id(&self.users) {
            Ok(id) => id,
            Err(error) => {
                return Err(error);
            },
        };
        match self.add_user_with_id(id, user) {
            Some(added) => Ok(added),
            None => Err(AppError::NoRandomness),
        }
    }

    /// Changes a user.
    pub fn modify_user(&mut self, user_id: UserId, modify: StorageUserModify) -> (modified: Result<
        (),
        AppError,
    >)
        ensures
            if old(self).users@.contains_key(user_id.0) {
                let before = old(self).users@[user_id.0];
                let after = final(self).users@[user_id.0];
                &&& modified is Ok
                &&& final(self)@ == (Stored {
                    users: old(self)@.users.insert(user_id.0, after),
                    write_due: true,
                    ..old(self)@
                })
                &&& match modify.password {
                    Some(password) => same_password(after.password, password),
                    None => after.password == before.password,
                }
                &&& after == (V4User {
                    password: after.password,
                    role_id: match modify.role_id {
                        Some(role_id) => role_id.0,
                        None => before.role_id,
                    },
                    client_unique_id: match modify.client_unique_id {
                        Some(client_unique_id) => client_unique_id,
                        None => before.client_unique_id,
                    },
                    ..before
                })
            } else {
                modified == Err::<(), _>(AppError::UserNotFound) && final(self)@ == old(self)@
            },
    {
        let mut user: V4User = match self.users.remove(&user_id.0) {
            Some(user) => user,
            None => {
                assert(self.users@ =~= old(self).users@);
                return Err(AppError::UserNotFound);
            },
        };
        if let Some(password) = modify.password {
            user.password = password_to_json(password);
        }
        if let Some(role_id) = modify.role_id {
            user.role_id = role_id.0;
        }
        if let Some(client_unique_id) = modify.client_unique_id {
            user.client_unique_id = client_unique_id;
        }
        let ghost after = user;
        self.users.insert(user_id.0, user);
        self.write_due = true;
        assert(self.users@ =~= old(self).users@.insert(user_id.0, after));
        Ok(())
    }

    /// Changes a user's settings; no patch clears them. A change that was
    /// already made is not made again. Either way the file must be written
    /// before the answer is sent.
    pub fn modify_user_settings(
        &mut self,
        user_id: UserId,
        settings_patch: Option<Value>,
        mutation_id: String,
    ) -> (mutation: Result<StorageSettingsMutation, AppError>)
        ensures
            if !old(self).users@.contains_key(user_id.0) {
                mutation == Err::<StorageSettingsMutation, _>(AppError::UserNotFound) && final(self)@ == old(self)@
            } else {
                settings_modified(
                    old(self).users@[user_id.0],
                    settings_patch,
                    mutation_id,
                    final(self).users@[user_id.0],
                    mutation,
                ) && final(self)@ == (Stored {
                    users: old(self)@.users.insert(user_id.0, final(self).users@[user_id.0]),
                    write_due: mutation is Ok || old(self).write_due,
                    ..old(self)@
                })
            },
    {
        let mut user: V4User = match self.users.remove(&user_id.0) {
            Some(user) => user,
            None => {
                assert(self.users@ =~= old(self).users@);
                return Err(AppError::UserNotFound);
            },
        };
        let mutation = change_settings(&mut user, settings_patch, mutation_id);
        let ghost after = user;
        self.users.insert(user_id.0, user);
        if mutation.is_ok() {
            self.write_due = true;
        }
        assert(self.users@ =~= old(self).users@.insert(user_id.0, after));
        mutation
    }

    pub fn get_user(&self, user_id: UserId) -> (user: Result<StorageUser, AppError>)
        ensures
            match user {
                Ok(user) => self.users@.contains_key(user_id.0) && is_user(
                    user_id.0,
                    self.users@[user_id.0],
                    user,
                ),
                Err(error) => !self.users@.contains_key(user_id.0) && error
                    == AppError::UserNotFound,
            },
    {
        match self.users.get(&user_id.0) {
            Some(user) => Ok(user_from_json(user_id, user)),
            None => Err(AppError::UserNotFound),
        }
    }

    fn find_user_by_name(&self, name: &str) -> (id: Option<u32>)
        ensures
            id is Some == name_taken(self.users@, name@),
            id is Some ==> self.users@.contains_key(id->0) && self.users@[id->0].name@ == name@,
    {
        let keys: Vec<u32> = keys_of(&self.users);
        let mut i: usize = 0;
        while i < keys.len()
            invariant
                i <= keys@.len(),
                forall|id: u32| #[trigger] self.users@.contains_key(id) <==> keys@.contains(id),
                forall|k: int| 0 <= k < i ==> self.users@[#[trigger] keys@[k]].name@ != name@,
            decreases keys@.len() - i,
        {
            let id: u32 = keys[i];
            assert(self.users@.contains_key(id));
            if let Some(user) = self.users.get(&id) {
                if same_text(user.name.as_str(), name) {
                    return Some(id);
                }
            }
            i = i + 1;
        }
        proof {
            assert forall|id: u32| #[trigger] self.users@.contains_key(id) implies self.users@[id].name@
                != name@ by {
                assert(keys@[keys@.index_of(id)] == id);
            }
        }
        None
    }

    /// A user with this name.
    pub fn get_user_by_name(&self, name: &str) -> (user: Result<(UserId, StorageUser), AppError>)
        ensures
            match user {
                Ok((user_id, user)) => self.users@.contains_key(user_id.0)
                    && self.users@[user_id.0].name@ == name@ && is_user(
                    user_id.0,
                    self.users@[user_id.0],
                    user,
                ),
                Err(error) => !name_taken(self.users@, name@) && error == AppError::UserNotFound,
            },
    {
        match self.find_user_by_name(name) {
            Some(id) => match self.get_user(UserId(id)) {
                Ok(user) => Ok((UserId(id), user)),
                Err(error) => Err(error),
            },
            None => Err(AppError::UserNotFound),
        }
    }

    /// Removes a user and their sessions.
    pub fn remove_user(&mut self, user_id: UserId) -> (removed: Result<(), AppError>)
        ensures
            tokens_are_distinct(old(self).sessions@) ==> tokens_are_distinct(final(self).sessions@),
            if old(self).users@.contains_key(user_id.0) {
                removed is Ok && final(self)@ == (Stored {
                    users: old(self)@.users.remove(user_id.0),
                    sessions: old(self)@.sessions.filter(of_others(user_id.0)),
                    write_due: true,
                    ..old(self)@
                })
            } else {
                removed == Err::<(), _>(AppError::UserNotFound) && final(self)@ == old(self)@
            },
    {
        if self.users.remove(&user_id.0).is_none() {
            assert(self.users@ =~= old(self).users@);
            return Err(AppError::UserNotFound);
        }
        self.remove_all_user_session_tokens(user_id);
        self.write_due = true;
        assert(self.users@ =~= old(self).users@.remove(user_id.0));
        Ok(())
    }

    /// All users. Nothing is said of their order.
    pub fn list_users(&self) -> (users: Vec<StorageUser>)
        ensures
            forall|id: u32| #[trigger]
                self.users@.contains_key(id) <==> exists|i: int|
                    0 <= i < users@.len() && (#[trigger] users@[i]).id.0 == id,
            forall|i: int|
                0 <= i < users@.len() ==> is_user(
                    (#[trigger] users@[i]).id.0,
                    self.users@[users@[i].id.0],
                    users@[i],
                ),
            forall|i: int, j: int|
                0 <= i < j < users@.len() ==> (#[trigger] users@[i]).id != (
                #[trigger] users@[j]).id,
    {
        let keys: Vec<u32> = keys_of(&self.users);
        let mut users: Vec<StorageUser> = Vec::new();
        let mut i: usize = 0;
        while i < keys.len()
            invariant
                i <= keys@.len(),
                keys@.no_duplicates(),
                forall|id: u32| #[trigger] self.users@.contains_key(id) <==> keys@.contains(id),
                users@.len() == i,
                forall|k: int|
                    0 <= k < i ==> (#[trigger] users@[k]).id.0 == keys@[k] && is_user(
                        keys@[k],
                        self.users@[keys@[k]],
                        users@[k],
                    ),
            decreases keys@.len() - i,
        {
            let id: u32 = keys[i];
            assert(self.users@.contains_key(id));
            if let Some(user) = self.users.get(&id) {
                users.push(user_from_json(UserId(id), user));
            }
            i = i + 1;
        }
        proof {
            assert forall|id: u32| #[trigger] self.users@.contains_key(id) implies exists|k: int|
                0 <= k < users@.len() && (#[trigger] users@[k]).id.0 == id by {
                let k = keys@.index_of(id);
                assert(users@[k].id.0 == id);
            }
            assert forall|id: u32|
                (exists|k: int|
                    0 <= k < users@.len() && (#[trigger] users@[k]).id.0
                        == id) implies #[trigger] self.users@.contains_key(id) by {
                let k = choose|k: int| 0 <= k < users@.len() && (#[trigger] users@[k]).id.0 == id;
                assert(keys@[k] == id);
            }
        }
        users
    }

    pub fn any_user_exists(&self) -> (exists: bool)
        ensures
            exists == !(self.users@.dom() == Set::<u32>::empty()),
    {
        let empty: bool = self.users.is_empty();
        assert(empty == (self.users@.dom() =~= Set::<u32>::empty()));
        !empty
    }

    fn find_session(&self, token: SessionToken) -> (at: usize)
        ensures
            at == session_at(self.sessions@, token),
            at <= self.sessions@.len(),
            at < self.sessions@.len() ==> self.sessions@[at as int].token.bytes@ == token.bytes@,
    {
        let mut at: usize = 0;
        assert(self.sessions@.skip(0) =~= self.sessions@);
        while at < self.sessions.len()
            invariant
                at <= self.sessions@.len(),
                session_at(self.sessions@, token) == at + session_at(
                    self.sessions@.skip(at as int),
                    token,
                ),
            decreases self.sessions@.len() - at,
        {
            assert(self.sessions@.skip(at as int)[0] == self.sessions@[at as int]);
            assert(self.sessions@.skip(at as int).skip(1) =~= self.sessions@.skip(at + 1));
            if same_token(self.sessions[at].token, token) {
                return at;
            }
            at = at + 1;
        }
        at
    }

    /// Begins a session under a token, unless the token is taken.
    pub fn create_session_with_token(
        &mut self,
        user_id: UserId,
        expiration: Duration,
        token: SessionToken,
        now: Instant,
    ) -> (created: Result<bool, AppError>)
        ensures
            tokens_are_distinct(old(self).sessions@) ==> tokens_are_distinct(final(self).sessions@),
            ({
                let taken = session_at(old(self).sessions@, token) < old(self).sessions@.len();
                if !old(self).users@.contains_key(user_id.0) {
                    created == Err::<bool, _>(AppError::UserNotFound) && final(self)@ == old(self)@
                } else if taken {
                    created == Ok::<_, AppError>(false) && final(self)@ == old(self)@
                } else {
                    created == Ok::<_, AppError>(true) && final(self)@ == (Stored {
                        sessions: old(self)@.sessions.push(
                            Session { token, created_at: now, expiration, user_id: user_id.0 },
                        ),
                        ..old(self)@
                    })
                }
            }),
    {
        if !self.users.contains_key(&user_id.0) {
            return Err(AppError::UserNotFound);
        }
        if self.find_session(token) < self.sessions.len() {
            return Ok(false);
        }
        proof {
            if tokens_are_distinct(self.sessions@) {
                let session = Session { token, created_at: now, expiration, user_id: user_id.0 };
                law_tokens_stay_distinct(self.sessions@, session, still_valid(now));
            }
        }
        self.sessions.push(Session { token, created_at: now, expiration, user_id: user_id.0 });
        Ok(true)
    }

    /// A token that is not taken: the one that was drawn, with the smallest number
    /// in its first eight bytes that makes it a free one.
    pub fn free_token_like(&self, drawn: SessionToken) -> (token: SessionToken)
        ensures
            session_at(self.sessions@, token) == self.sessions@.len(),
            exists|number: nat|
                token.bytes@ == #[trigger] numbered_token(drawn.bytes@, number) && number
                    <= self.sessions@.len() && forall|other: nat|
                    other < number ==> is_token(
                        self.sessions@,
                        #[trigger] numbered_token(drawn.bytes@, other),
                    ),
    {
        let mut number: usize = 0;
        loop
            invariant
                number <= self.sessions@.len(),
                forall|other: nat|
                    other < number ==> is_token(
                        self.sessions@,
                        #[trigger] numbered_token(drawn.bytes@, other),
                    ),
            decreases self.sessions@.len() - number,
        {
            let token: SessionToken = with_number(drawn, number as u64);
            let at: usize = self.find_session(token);
            if at >= self.sessions.len() {
                assert(token.bytes@ == numbered_token(drawn.bytes@, number as nat));
                return token;
            }
            proof {
                assert(self.sessions@[at as int].token.bytes@ == token.bytes@);
                lemma_some_number_is_free(self.sessions@, drawn.bytes@, (number + 1) as nat);
            }
            number = number + 1;
        }
    }

    /// Begins a session under a new token: it draws until one is free. The
    /// `u64::MAX`th draw of a taken token is the last one, and stands for a free
    /// token like it. It fails where the generator does.
    pub fn create_session_token(
        &mut self,
        user_id: UserId,
        expiration: Duration,
        now: Instant,
    ) -> (created: Result<SessionToken, AppError>)
        ensures
            tokens_are_distinct(old(self).sessions@) ==> tokens_are_distinct(final(self).sessions@),
            !old(self).users@.contains_key(user_id.0) <==> created == Err::<SessionToken, _>(
                AppError::UserNotFound,
            ),
            match created {
                Ok(token) => session_at(old(self).sessions@, token) == old(self).sessions@.len()
                    && final(self)@ == (Stored {
                    sessions: old(self)@.sessions.push(
                        Session { token, created_at: now, expiration, user_id: user_id.0 },
                    ),
                    ..old(self)@
                }),
                Err(error) => final(self)@ == old(self)@ && (error == AppError::UserNotFound
                    || error == AppError::NoRandomness),
            },
    {
        if !self.users.contains_key(&user_id.0) {
            return Err(AppError::UserNotFound);
        }
        let mut attempts: u64 = u64::MAX;
        loop
            invariant
                attempts > 0,
                self@ == old(self)@,
                self.users@.contains_key(user_id.0),
            decreases attempts,
        {
            let drawn: SessionToken = match random_bytes::<32>() {
                Some(bytes) => SessionToken { bytes },
                None => {
                    return Err(AppError::NoRandomness);
                },
            };
            attempts = attempts - 1;
            let token: SessionToken = if attempts > 0 || self.find_session(drawn)
                >= self.sessions.len() {
                drawn
            } else {
                self.free_token_like(drawn)
            };
            proof {
                lemma_session_at(self.sessions@, token);
            }
            match self.create_session_with_token(user_id, expiration, token, now) {
                Ok(true) => {
                    return Ok(token);
                },
                Ok(false) => {},
                Err(error) => {
                    return Err(error);
                },
            }
        }
    }

    /// Ends a session, if there is one with this token.
    pub fn remove_session_token(&mut self, token: SessionToken)
        ensures
            tokens_are_distinct(old(self).sessions@) ==> tokens_are_distinct(final(self).sessions@),
            final(self)@ == (Stored {
                sessions: old(self)@.sessions.filter(with_another_token(token)),
                ..old(self)@
            }),
    {
        let mut kept: Vec<Session> = Vec::new();
        let mut i: usize = 0;
        assert(self.sessions@.take(0).filter(with_another_token(token)) =~= Seq::<
            Session,
        >::empty()) by {
            reveal(Seq::filter);
        }
        while i < self.sessions.len()
            invariant
                i <= self.sessions@.len(),
                kept@ == self.sessions@.take(i as int).filter(with_another_token(token)),
            decreases self.sessions@.len() - i,
        {
            let session: Session = self.sessions[i];
            proof {
                crate::seqs::lemma_filter_step(self.sessions@, with_another_token(token), i as int);
            }
            if !same_token(session.token, token) {
                kept.push(session);
            }
            i = i + 1;
        }
        assert(self.sessions@.take(i as int) =~= self.sessions@);
        proof {
            if tokens_are_distinct(self.sessions@) {
                lemma_filter_keeps_tokens(self.sessions@, with_another_token(token));
            }
        }
        self.sessions = kept;
    }

    /// Ends the sessions that have run out.
    pub fn clear_expired_sessions(&mut self, now: Instant)
        ensures
            tokens_are_distinct(old(self).sessions@) ==> tokens_are_distinct(final(self).sessions@),
            final(self)@ == (Stored {
                sessions: old(self)@.sessions.filter(still_valid(now)),
                ..old(self)@
            }),
    {
        let mut kept: Vec<Session> = Vec::new();
        let mut i: usize = 0;
        assert(self.sessions@.take(0).filter(still_valid(now)) =~= Seq::<Session>::empty()) by {
            reveal(Seq::filter);
        }
        while i < self.sessions.len()
            invariant
                i <= self.sessions@.len(),
                kept@ == self.sessions@.take(i as int).filter(still_valid(now)),
            decreases self.sessions@.len() - i,
        {
            let session: Session = self.sessions[i];
            proof {
                crate::seqs::lemma_filter_step(self.sessions@, still_valid(now), i as int);
            }
            if now.nanos_since(session.created_at) < session.expiration.as_nanos() {
                kept.push(session);
            }
            i = i + 1;
        }
        assert(self.sessions@.take(i as int) =~= self.sessions@);
        proof {
            if tokens_are_distinct(self.sessions@) {
                lemma_filter_keeps_tokens(self.sessions@, still_valid(now));
            }
        }
        self.sessions = kept;
    }

    /// The user of a session. A session whose user is gone is ended.
    pub fn get_user_by_session_token(&mut self, token: SessionToken) -> (user: Result<
        (UserId, StorageUser),
        AppError,
    >)
        ensures
            tokens_are_distinct(old(self).sessions@) ==> tokens_are_distinct(final(self).sessions@),
            ({
                let at = session_at(old(self).sessions@, token);
                let id = old(self).sessions@[at as int].user_id;
                if at < old(self).sessions@.len() && old(self).users@.contains_key(id) {
                    &&& user matches Ok((user_id, user)) && user_id.0 == id && is_user(
                        id,
                        old(self).users@[id],
                        user,
                    )
                    &&& final(self)@ == old(self)@
                } else {
                    &&& user == Err::<(UserId, StorageUser), _>(AppError::SessionTokenNotFound)
                    &&& final(self)@ == (Stored {
                        sessions: if at < old(self).sessions@.len() {
                            old(self)@.sessions.filter(with_another_token(token))
                        } else {
                            old(self)@.sessions
                        },
                        ..old(self)@
                    })
                }
            }),
    {
        let at: usize = self.find_session(token);
        if at >= self.sessions.len() {
            return Err(AppError::SessionTokenNotFound);
        }
        let user_id: UserId = UserId(self.sessions[at].user_id);
        match self.get_user(user_id) {
            Ok(user) => Ok((user_id, user)),
            Err(_) => {
                self.remove_session_token(token);
                Err(AppError::SessionTokenNotFound)
            },
        }
    }

    fn host_to_json(host: StorageHostAdd) -> (stored: V2Host)
        ensures
            is_new_host(host, stored),
    {
        V2Host {
            owner: owner_to_json(host.owner),
            address: host.address,
            http_port: host.http_port,
            pair_info: pairing_to_json(host.pair_info),
            cache: V2HostCache { name: host.cache.name, mac: host.cache.mac },
        }
    }

    /// Adds a host under an id, unless the id is taken.
    pub fn add_host_with_id(&mut self, id: u32, host: StorageHostAdd) -> (added: Option<StorageHost>)
        ensures
            added is None == old(self).hosts@.contains_key(id),
            match added {
                None => final(self)@ == old(self)@,
                Some(added) => {
                    &&& is_new_host(host, final(self).hosts@[id])
                    &&& is_host(id, final(self).hosts@[id], added)
                    &&& final(self)@ == (Stored {
                        hosts: old(self)@.hosts.insert(id, final(self)@.hosts[id]),
                        write_due: true,
                        ..old(self)@
                    })
                },
            },
    {
        if self.hosts.contains_key(&id) {
            return None;
        }
        let stored: V2Host = Self::host_to_json(host);
        let added: StorageHost = host_from_json(HostId(id), &stored);
        self.hosts.insert(id, stored);
        self.write_due = true;
        Some(added)
    }

    /// Adds a host under a new id.
    pub fn add_host(&mut self, host: StorageHostAdd) -> (added: Result<StorageHost, AppError>)
        ensures
            match added {
                Ok(added) => {
                    &&& !old(self).hosts@.contains_key(added.id.0)
                    &&& is_new_host(host, final(self).hosts@[added.id.0])
                    &&& is_host(added.id.0, final(self).hosts@[added.id.0], added)
                    &&& final(self)@ == (Stored {
                        hosts: old(self)@.hosts.insert(
                            added.id.0,
                            final(self)@.hosts[added.id.0],
                        ),
                        write_due: true,
                        ..old(self)@
                    })
                },
                Err(error) => error == AppError::NoRandomness && final(self)@ == old(self)@,
            },
    {
        let id: u32 = match free_id(&self.hosts) {
            Ok(id) => id,
            Err(error) => {
                return Err(error);
            },
        };
        match self.add_host_with_id(id, host) {
            Some(added) => Ok(added),
            None => Err(AppError::NoRandomness),
        }
    }

    /// Changes a host.
    pub fn modify_host(&mut self, host_id: HostId, modify: StorageHostModify) -> (modified: Result<
        (),
        AppError,
    >)
        ensures
            if old(self).hosts@.contains_key(host_id.0) {
                let before = old(self).hosts@[host_id.0];
                let after = final(self).hosts@[host_id.0];
                &&& modified is Ok
                &&& final(self)@ == (Stored {
                    hosts: old(self)@.hosts.insert(host_id.0, after),
                    write_due: true,
                    ..old(self)@
                })
                &&& match modify.pair_info {
                    Some(pairing) => same_pairing(after.pair_info, pairing),
                    None => after.pair_info == before.pair_info,
                }
                &&& after == (V2Host {
                    pair_info: after.pair_info,
                    owner: match modify.owner {
                        Some(owner) => owner_id(owner),
                        None => before.owner,
                    },
                    address: match modify.address {
                        Some(address) => address,
                        None => before.address,
                    },
                    http_port: match modify.http_port {
                        Some(port) => port,
                        None => before.http_port,
                    },
                    cache: V2HostCache {
                        name: match modify.cache_name {
                            Some(name) => name,
                            None => before.cache.name,
                        },
                        mac: match modify.cache_mac {
                            Some(mac) => mac,
                            None => before.cache.mac,
                        },
                    },
                })
            } else {
                modified == Err::<(), _>(AppError::HostNotFound) && final(self)@ == old(self)@
            },
    {
        let mut host: V2Host = match self.hosts.remove(&host_id.0) {
            Some(host) => host,
            None => {
                assert(self.hosts@ =~= old(self).hosts@);
                return Err(AppError::HostNotFound);
            },
        };
        if let Some(owner) = modify.owner {
            host.owner = owner_to_json(owner);
        }
        if let Some(address) = modify.address {
            host.address = address;
        }
        if let Some(http_port) = modify.http_port {
            host.http_port = http_port;
        }
        if let Some(pairing) = modify.pair_info {
            host.pair_info = pairing_to_json(pairing);
        }
        if let Some(name) = modify.cache_name {
            host.cache.name = name;
        }
        if let Some(mac) = modify.cache_mac {
            host.cache.mac = mac;
        }
        let ghost after = host;
        self.hosts.insert(host_id.0, host);
        self.write_due = true;
        assert(self.hosts@ =~= old(self).hosts@.insert(host_id.0, after));
        Ok(())
    }

    pub fn get_host(&self, host_id: HostId) -> (host: Result<StorageHost, AppError>)
        ensures
            match host {
                Ok(host) => self.hosts@.contains_key(host_id.0) && is_host(
                    host_id.0,
                    self.hosts@[host_id.0],
                    host,
                ),
                Err(error) => !self.hosts@.contains_key(host_id.0) && error
                    == AppError::HostNotFound,
            },
    {
        match self.hosts.get(&host_id.0) {
            Some(host) => Ok(host_from_json(host_id, host)),
            None => Err(AppError::HostNotFound),
        }
    }

    pub fn remove_host(&mut self, host_id: HostId) -> (removed: Result<(), AppError>)
        ensures
            if old(self).hosts@.contains_key(host_id.0) {
                removed is Ok && final(self)@ == (Stored {
                    hosts: old(self)@.hosts.remove(host_id.0),
                    write_due: true,
                    ..old(self)@
                })
            } else {
                removed == Err::<(), _>(AppError::HostNotFound) && final(self)@ == old(self)@
            },
    {
        if self.hosts.remove(&host_id.0).is_none() {
            assert(self.hosts@ =~= old(self).hosts@);
            return Err(AppError::HostNotFound);
        }
        self.write_due = true;
        assert(self.hosts@ =~= old(self).hosts@.remove(host_id.0));
        Ok(())
    }

    /// The hosts that a user may see: their own and those of everyone. Nothing
    /// is said of their order.
    pub fn list_user_hosts(&self, user_id: UserId) -> (hosts: Vec<StorageHost>)
        ensures
            forall|id: u32| #[trigger]
                self.hosts@.contains_key(id) && visible_to(self.hosts@[id], user_id) <==> exists|
                    i: int,
                |
                    0 <= i < hosts@.len() && (#[trigger] hosts@[i]).id.0 == id,
            forall|i: int|
                0 <= i < hosts@.len() ==> is_host(
                    (#[trigger] hosts@[i]).id.0,
                    self.hosts@[hosts@[i].id.0],
                    hosts@[i],
                ),
            forall|i: int, j: int|
                0 <= i < j < hosts@.len() ==> (#[trigger] hosts@[i]).id != (
                #[trigger] hosts@[j]).id,
    {
        let keys: Vec<u32> = keys_of(&self.hosts);
        let mut hosts: Vec<StorageHost> = Vec::new();
        let mut i: usize = 0;
        while i < keys.len()
            invariant
                i <= keys@.len(),
                keys@.no_duplicates(),
                forall|id: u32| #[trigger] self.hosts@.contains_key(id) <==> keys@.contains(id),
                forall|k: int|
                    0 <= k < i && visible_to(self.hosts@[#[trigger] keys@[k]], user_id) ==> exists|
                        j: int,
                    |
                        0 <= j < hosts@.len() && (#[trigger] hosts@[j]).id.0 == keys@[k],
                forall|j: int|
                    0 <= j < hosts@.len() ==> {
                        &&& keys@.take(i as int).contains((#[trigger] hosts@[j]).id.0)
                        &&& visible_to(self.hosts@[hosts@[j].id.0], user_id)
                        &&& is_host(hosts@[j].id.0, self.hosts@[hosts@[j].id.0], hosts@[j])
                    },
                forall|j: int, k: int|
                    0 <= j < k < hosts@.len() ==> (#[trigger] hosts@[j]).id != (
                    #[trigger] hosts@[k]).id,
            decreases keys@.len() - i,
        {
            let id: u32 = keys[i];
            proof {
                assert(self.hosts@.contains_key(id));
                crate::storage::versions::lemma_key_moves(keys@, i as int);
                assert(!keys@.take(i as int).contains(id));
            }
            let ghost before = hosts@;
            if let Some(host) = self.hosts.get(&id) {
                let visible: bool = match host.owner {
                    Some(owner) => owner == user_id.0,
                    None => true,
                };
                if visible {
                    hosts.push(host_from_json(HostId(id), host));
                    assert(hosts@[before.len() as int].id.0 == id);
                }
            }
            proof {
                assert forall|k: int|
                    0 <= k < i + 1 && visible_to(
                        self.hosts@[#[trigger] keys@[k]],
                        user_id,
                    ) implies exists|j: int|
                    0 <= j < hosts@.len() && (#[trigger] hosts@[j]).id.0 == keys@[k] by {
                    if k < i {
                        let j = choose|j: int|
                            0 <= j < before.len() && (#[trigger] before[j]).id.0 == keys@[k];
                        assert(hosts@[j].id.0 == keys@[k]);
                    }
                }
            }
            i = i + 1;
        }
        proof {
            assert(keys@.take(i as int) =~= keys@);
            assert forall|id: u32| #[trigger]
                self.hosts@.contains_key(id) && visible_to(self.hosts@[id], user_id) implies exists|
                j: int,
            |
                0 <= j < hosts@.len() && (#[trigger] hosts@[j]).id.0 == id by {
                assert(keys@[keys@.index_of(id)] == id);
            }
        }
        hosts
    }

    /// Ends all sessions of a user.
    pub fn remove_all_user_session_tokens(&mut self, user_id: UserId)
        ensures
            tokens_are_distinct(old(self).sessions@) ==> tokens_are_distinct(final(self).sessions@),
            final(self)@ == (Stored {
                sessions: old(self)@.sessions.filter(of_others(user_id.0)),
                ..old(self)@
            }),
    {
        let mut kept: Vec<Session> = Vec::new();
        let mut i: usize = 0;
        assert(self.sessions@.take(0).filter(of_others(user_id.0)) =~= Seq::<Session>::empty()) by {
            reveal(Seq::filter);
        }
        while i < self.sessions.len()
            invariant
                i <= self.sessions@.len(),
                kept@ == self.sessions@.take(i as int).filter(of_others(user_id.0)),
            decreases self.sessions@.len() - i,
        {
            let session: Session = self.sessions[i];
            proof {
                crate::seqs::lemma_filter_step(self.sessions@, of_others(user_id.0), i as int);
            }
            if session.user_id != user_id.0 {
                kept.push(session);
            }
            i = i + 1;
        }
        assert(self.sessions@.take(i as int) =~= self.sessions@);
        proof {
            if tokens_are_distinct(self.sessions@) {
                lemma_filter_keeps_tokens(self.sessions@, of_others(user_id.0));
            }
        }
        self.sessions = kept;
    }
}

/// The sessions that are left once the users of a role are gone.
pub open spec fn of_kept_users(users: Map<u32, V4User>, role_id: u32) -> spec_fn(Session) -> bool {
    |session: Session|
        !(users.contains_key(session.user_id) && users[session.user_id].role_id == role_id)
}

/// The sessions that are left once those among `gone` are.
spec fn of_kept_among(users: Map<u32, V4User>, role_id: u32, gone: Seq<u32>) -> spec_fn(
    Session,
) -> bool {
    |session: Session|
        !(gone.contains(session.user_id) && users[session.user_id].role_id == role_id)
}

proof fn lemma_same_filter(
    s: Seq<Session>,
    a: spec_fn(Session) -> bool,
    b: spec_fn(Session) -> bool,
)
    requires
        forall|session: Session| #[trigger] a(session) == b(session),
    ensures
        s.filter(a) == s.filter(b),
    decreases s.len(),
{
    reveal(Seq::filter);
    if s.len() > 0 {
        lemma_same_filter(s.drop_last(), a, b);
    }
}

proof fn lemma_filter_both(
    s: Seq<Session>,
    a: spec_fn(Session) -> bool,
    b: spec_fn(Session) -> bool,
    both: spec_fn(Session) -> bool,
)
    requires
        forall|session: Session| #[trigger] both(session) == (a(session) && b(session)),
    ensures
        s.filter(a).filter(b) == s.filter(both),
    decreases s.len(),
{
    reveal(Seq::filter);
    if s.len() > 0 {
        lemma_filter_both(s.drop_last(), a, b, both);
        if a(s.last()) {
            crate::seqs::lemma_filter_push(s.drop_last().filter(a), b, s.last());
        }
        assert(both(s.last()) == (a(s.last()) && b(s.last())));
    }
}

/// Whether some user has this name.
pub open spec fn name_taken(users: Map<u32, V4User>, name: Seq<char>) -> bool {
    exists|id: u32| #[trigger] users.contains_key(id) && users[id].name@ == name
}

/// A user who was just added: without settings.
pub open spec fn is_new_user(user: StorageUserAdd, stored: V4User) -> bool {
    &&& stored.role_id == user.role_id.0
    &&& stored.name == user.name
    &&& same_password(stored.password, user.password)
    &&& stored.client_unique_id == user.client_unique_id
    &&& stored.settings is None
    &&& stored.settings_revision == 0
    &&& stored.settings_mutation_ids@.len() == 0
}

/// The texts of a list.
pub open spec fn texts(list: Seq<String>) -> Seq<Seq<char>> {
    list.map_values(|text: String| text@)
}

/// The changes on record, with one more; the oldest go.
pub open spec fn with_recent(ids: Seq<Seq<char>>, id: Seq<char>) -> Seq<Seq<char>> {
    let all = ids.push(id);
    if all.len() > MAX_RECENT_SETTINGS_MUTATIONS {
        all.skip(all.len() - MAX_RECENT_SETTINGS_MUTATIONS)
    } else {
        all
    }
}

/// A user before and after a change to their settings, and the answer to it.
pub open spec fn settings_modified(
    before: V4User,
    patch: Option<Value>,
    mutation_id: String,
    after: V4User,
    mutation: Result<StorageSettingsMutation, AppError>,
) -> bool {
    if texts(before.settings_mutation_ids@).contains(mutation_id@) {
        &&& after == before
        &&& mutation == Ok::<_, AppError>(
            StorageSettingsMutation { revision: before.settings_revision, applied: false },
        )
    } else if before.settings_revision == u64::MAX {
        &&& after == before
        &&& mutation == Err::<StorageSettingsMutation, _>(AppError::SettingsRevisionExhausted)
    } else if patch is Some && json_entries(patch->0) is None {
        &&& after == before
        &&& mutation == Err::<StorageSettingsMutation, _>(AppError::BadRequest)
    } else {
        &&& mutation == Ok::<_, AppError>(
            StorageSettingsMutation {
                revision: (before.settings_revision + 1) as u64,
                applied: true,
            },
        )
        &&& after.settings_revision == before.settings_revision + 1
        &&& texts(after.settings_mutation_ids@) == with_recent(
            texts(before.settings_mutation_ids@),
            mutation_id@,
        )
        &&& match patch {
            None => after.settings is None,
            Some(patch) => after.settings is Some && json_entries(after.settings->0) == Some(
                patched(settings_entries(before.settings), json_entries(patch)->0),
            ),
        }
        &&& after == (V4User {
            settings: after.settings,
            settings_revision: after.settings_revision,
            settings_mutation_ids: after.settings_mutation_ids,
            ..before
        })
    }
}

fn knows_mutation(ids: &Vec<String>, id: &str) -> (known: bool)
    ensures
        known == texts(ids@).contains(id@),
{
    let mut i: usize = 0;
    while i < ids.len()
        invariant
            i <= ids@.len(),
            forall|k: int| 0 <= k < i ==> (#[trigger] ids@[k])@ != id@,
        decreases ids@.len() - i,
    {
        if same_text(ids[i].as_str(), id) {
            assert(texts(ids@)[i as int] == id@);
            return true;
        }
        i = i + 1;
    }
    assert forall|k: int| 0 <= k < texts(ids@).len() implies #[trigger] texts(ids@)[k] != id@ by {
        assert(ids@[k]@ != id@);
    }
    false
}

/// Puts a change on record; the oldest go.
fn remember_mutation(ids: &mut Vec<String>, id: String)
    ensures
        texts(final(ids)@) == with_recent(texts(old(ids)@), id@),
{
    ids.push(id);
    assert(texts(ids@) =~= texts(old(ids)@).push(id@));
    let ghost all = ids@;
    let length: usize = ids.len();
    if length > MAX_RECENT_SETTINGS_MUTATIONS {
        let recent: Vec<String> = ids.split_off(length - MAX_RECENT_SETTINGS_MUTATIONS);
        *ids = recent;
        assert(texts(ids@) =~= texts(all).skip(length - MAX_RECENT_SETTINGS_MUTATIONS));
    }
}

/// Changes the settings of a user: what
/// [`JsonStorage::modify_user_settings`] does once it has the user.
fn change_settings(
    user: &mut V4User,
    settings_patch: Option<Value>,
    mutation_id: String,
) -> (mutation: Result<StorageSettingsMutation, AppError>)
    ensures
        settings_modified(*old(user), settings_patch, mutation_id, *final(user), mutation),
{
    if knows_mutation(&user.settings_mutation_ids, mutation_id.as_str()) {
        return Ok(StorageSettingsMutation { revision: user.settings_revision, applied: false });
    }
    if user.settings_revision == u64::MAX {
        return Err(AppError::SettingsRevisionExhausted);
    }
    let revision: u64 = user.settings_revision + 1;
    match apply_top_level_settings_patch(&mut user.settings, settings_patch) {
        Ok(()) => {},
        Err(error) => {
            return Err(error);
        },
    }
    user.settings_revision = revision;
    remember_mutation(&mut user.settings_mutation_ids, mutation_id);
    Ok(StorageSettingsMutation { revision, applied: true })
}

proof fn lemma_session_at(sessions: Seq<Session>, token: SessionToken)
    ensures
        session_at(sessions, token) <= sessions.len(),
    decreases sessions.len(),
{
    if sessions.len() > 0 {
        lemma_session_at(sessions.skip(1), token);
    }
}

/// The token with this number in its first eight bytes.
fn with_number(token: SessionToken, number: u64) -> (numbered: SessionToken)
    ensures
        numbered.bytes@ == numbered_token(token.bytes@, number as nat),
{
    broadcast use lemma_be_bytes_len;

    let mut bytes: [u8; 32] = token.bytes;
    let mut rest: u64 = number;
    let mut i: usize = 8;
    assert(be_bytes(number as nat, 8) + bytes@.skip(8) =~= be_bytes(rest as nat, 8) + bytes@.skip(
        8,
    ));
    while i > 0
        invariant
            i <= 8,
            be_bytes(rest as nat, i as nat) + bytes@.skip(i as int) == numbered_token(
                token.bytes@,
                number as nat,
            ),
        decreases i,
    {
        let ghost before = bytes@;
        i = i - 1;
        bytes[i] = (rest % 256) as u8;
        assert(bytes@.skip(i as int) =~= seq![(rest % 256) as u8] + before.skip(i + 1));
        assert(be_bytes(rest as nat, (i + 1) as nat) + before.skip(i + 1) =~= be_bytes(
            (rest / 256) as nat,
            i as nat,
        ) + bytes@.skip(i as int));
        rest = rest / 256;
    }
    assert(bytes@.skip(0) =~= bytes@);
    assert(be_bytes(rest as nat, 0) + bytes@ =~= bytes@);
    SessionToken { bytes }
}

/// There are no more taken tokens than sessions.
proof fn lemma_some_number_is_free(sessions: Seq<Session>, token: Seq<u8>, count: nat)
    requires
        count <= u64::MAX + 1,
        forall|number: nat|
            number < count ==> is_token(sessions, #[trigger] numbered_token(token, number)),
    ensures
        count <= sessions.len(),
{
    broadcast use {lemma_be_bytes_len, vstd::seq_lib::seq_to_set_is_finite};

    let numbered = Seq::new(count, |number: int| numbered_token(token, number as nat));
    let tokens = sessions.map_values(|session: Session| session.token.bytes@);
    assert forall|i: int, j: int| 0 <= i < count && 0 <= j < count && i != j implies numbered[i]
        != numbered[j] by {
        assert(power_of_256(8) == u64::MAX + 1) by {
            reveal_with_fuel(power_of_256, 9);
        }
        lemma_be_round_trip(i as nat, 8);
        lemma_be_round_trip(j as nat, 8);
        assert(numbered[i].take(8) =~= be_bytes(i as nat, 8));
        assert(numbered[j].take(8) =~= be_bytes(j as nat, 8));
    }
    assert forall|bytes: Seq<u8>| numbered.to_set().contains(bytes) implies tokens.to_set().contains(
        bytes,
    ) by {
        let number = choose|number: int| 0 <= number < count && numbered[number] == bytes;
        assert(is_token(sessions, numbered_token(token, number as nat)));
        let i = choose|i: int|
            0 <= i < sessions.len() && (#[trigger] sessions[i]).token.bytes@ == bytes;
        assert(tokens[i] == bytes);
    }
    numbered.unique_seq_to_set();
    tokens.lemma_cardinality_of_set();
    vstd::set_lib::lemma_len_subset(numbered.to_set(), tokens.to_set());
}

proof fn lemma_session_is_first(sessions: Seq<Session>, token: SessionToken)
    ensures
        forall|i: int|
            0 <= i < session_at(sessions, token) && i < sessions.len() ==> (
            #[trigger] sessions[i]).token.bytes@ != token.bytes@,
    decreases sessions.len(),
{
    if sessions.len() > 0 && sessions[0].token.bytes@ != token.bytes@ {
        let rest = sessions.skip(1);
        lemma_session_is_first(rest, token);
        assert forall|i: int|
            0 <= i < session_at(sessions, token) && i < sessions.len() implies (
        #[trigger] sessions[i]).token.bytes@ != token.bytes@ by {
            if i > 0 {
                assert(rest[i - 1] == sessions[i]);
            }
        }
    }
}

proof fn lemma_filter_keeps_tokens(sessions: Seq<Session>, kept: spec_fn(Session) -> bool)
    requires
        tokens_are_distinct(sessions),
    ensures
        tokens_are_distinct(sessions.filter(kept)),
{
    crate::seqs::lemma_filter_keeps_distinct(
        sessions,
        kept,
        |session: Session| session.token.bytes@,
    );
}

/// A token stands for one session: a session is only begun under a token that
/// is not taken, and whichever sessions are ended, the others keep theirs.
pub proof fn law_tokens_stay_distinct(
    sessions: Seq<Session>,
    session: Session,
    kept: spec_fn(Session) -> bool,
)
    requires
        tokens_are_distinct(sessions),
    ensures
        session_at(sessions, session.token) >= sessions.len() ==> tokens_are_distinct(
            sessions.push(session),
        ),
        tokens_are_distinct(sessions.filter(kept)),
{
    lemma_filter_keeps_tokens(sessions, kept);
    if session_at(sessions, session.token) >= sessions.len() {
        lemma_session_is_first(sessions, session.token);
        let of = |session: Session| session.token.bytes@;
        let tokens = sessions.map_values(of);
        let more = sessions.push(session).map_values(of);
        assert(more =~= tokens.push(session.token.bytes@));
        assert forall|i: int| 0 <= i < tokens.len() implies #[trigger] tokens[i]
            != session.token.bytes@ by {
            assert(tokens[i] == sessions[i].token.bytes@);
        }
    }
}

/// A host that was just added.
pub open spec fn is_new_host(host: StorageHostAdd, stored: V2Host) -> bool {
    &&& stored.owner == owner_id(host.owner)
    &&& stored.address == host.address
    &&& stored.http_port == host.http_port
    &&& same_pairing(stored.pair_info, host.pair_info)
    &&& stored.cache.name == host.cache.name
    &&& stored.cache.mac == host.cache.mac
}

/// A host that a user may see.
pub open spec fn visible_to(host: V2Host, user_id: UserId) -> bool {
    host.owner is None || host.owner == Some(user_id.0)
}

/// A change that is sent again, right after it was made, changes nothing and
/// is answered with the same revision.
pub proof fn law_repeated_change_is_not_made_again(
    before: V4User,
    patch: Option<Value>,
    mutation_id: String,
    after: V4User,
    mutation: Result<StorageSettingsMutation, AppError>,
    again: V4User,
    answer: Result<StorageSettingsMutation, AppError>,
)
    requires
        settings_modified(before, patch, mutation_id, after, mutation),
        mutation is Ok,
        settings_modified(after, patch, mutation_id, again, answer),
    ensures
        again == after,
        answer is Ok,
        !answer->Ok_0.applied,
        answer->Ok_0.revision == mutation->Ok_0.revision,
{
    if mutation->Ok_0.applied {
        let ids = texts(after.settings_mutation_ids@);
        assert(ids[ids.len() - 1] == mutation_id@);
    }
}

/// A change is remembered through the next changes, so that it cannot undo them
/// when it is sent late.
pub proof fn law_late_change_does_not_undo_later_ones(
    before: V4User,
    patch: Option<Value>,
    mutation_id: String,
    after: V4User,
    mutation: Result<StorageSettingsMutation, AppError>,
    earlier: Seq<char>,
    at: int,
)
    requires
        settings_modified(before, patch, mutation_id, after, mutation),
        0 < at < before.settings_mutation_ids@.len() <= MAX_RECENT_SETTINGS_MUTATIONS,
        texts(before.settings_mutation_ids@)[at] == earlier,
    ensures
        texts(after.settings_mutation_ids@).contains(earlier),
{
    let old_ids = texts(before.settings_mutation_ids@);
    let new_ids = texts(after.settings_mutation_ids@);
    if new_ids.len() == old_ids.len() + 1 || after == before {
        assert(new_ids[at] == earlier);
    } else {
        assert(new_ids[at - 1] == earlier);
    }
}

/// No more than so many changes are on record, and the revision never falls.
pub proof fn law_change_history_is_bounded(
    before: V4User,
    patch: Option<Value>,
    mutation_id: String,
    after: V4User,
    mutation: Result<StorageSettingsMutation, AppError>,
)
    requires
        settings_modified(before, patch, mutation_id, after, mutation),
        before.settings_mutation_ids@.len() <= MAX_RECENT_SETTINGS_MUTATIONS,
    ensures
        after.settings_mutation_ids@.len() <= MAX_RECENT_SETTINGS_MUTATIONS,
        after.settings_revision >= before.settings_revision,
        after.name == before.name,
        after.password == before.password,
        after.role_id == before.role_id,
{
    assert(texts(after.settings_mutation_ids@).len() == after.settings_mutation_ids@.len());
}

/// What a filter keeps fulfils it.
proof fn lemma_filter_holds(s: Seq<Session>, keep: spec_fn(Session) -> bool)
    ensures
        forall|i: int| 0 <= i < s.filter(keep).len() ==> keep(#[trigger] s.filter(keep)[i]),
    decreases s.len(),
{
    reveal(Seq::filter);
    if s.len() > 0 {
        lemma_filter_holds(s.drop_last(), keep);
    }
}

/// A user who was removed has no session left.
pub proof fn law_removed_user_has_no_session(sessions: Seq<Session>, user_id: u32)
    ensures
        forall|i: int|
            0 <= i < sessions.filter(of_others(user_id)).len() ==> (
            #[trigger] sessions.filter(of_others(user_id))[i]).user_id != user_id,
{
    lemma_filter_holds(sessions, of_others(user_id));
}

/// The users of a role that was removed have no session left.
pub proof fn law_removed_role_has_no_session(
    sessions: Seq<Session>,
    users: Map<u32, V4User>,
    role_id: u32,
    user_id: u32,
)
    requires
        users.contains_key(user_id),
        users[user_id].role_id == role_id,
    ensures
        forall|i: int|
            0 <= i < sessions.filter(of_kept_users(users, role_id)).len() ==> (
            #[trigger] sessions.filter(of_kept_users(users, role_id))[i]).user_id != user_id,
{
    lemma_filter_holds(sessions, of_kept_users(users, role_id));
}

/// A session that has run out is gone after the next clean-up.
pub proof fn law_expired_sessions_are_cleared(sessions: Seq<Session>, now: Instant)
    ensures
        forall|i: int|
            0 <= i < sessions.filter(still_valid(now)).len() ==> now.elapsed_since(
                (#[trigger] sessions.filter(still_valid(now))[i]).created_at,
            ) < sessions.filter(still_valid(now))[i].expiration.nanos(),
{
    lemma_filter_holds(sessions, still_valid(now));
}

/// Every session belongs to a user there is.
pub open spec fn sessions_have_users(stored: Stored) -> bool {
    forall|i: int|
        0 <= i < stored.sessions.len() ==> stored.users.contains_key(
            (#[trigger] stored.sessions[i]).user_id,
        )
}

/// A filter adds nothing.
proof fn lemma_filter_selects(s: Seq<Session>, keep: spec_fn(Session) -> bool)
    ensures
        forall|i: int|
            0 <= i < s.filter(keep).len() ==> s.contains(#[trigger] s.filter(keep)[i]),
    decreases s.len(),
{
    reveal(Seq::filter);
    if s.len() > 0 {
        let rest = s.drop_last();
        lemma_filter_selects(rest, keep);
        assert forall|i: int| 0 <= i < s.filter(keep).len() implies s.contains(
            #[trigger] s.filter(keep)[i],
        ) by {
            if i < rest.filter(keep).len() {
                let at = choose|at: int| 0 <= at < rest.len() && rest[at] == rest.filter(keep)[i];
                assert(s[at] == s.filter(keep)[i]);
            } else {
                assert(s[s.len() - 1] == s.filter(keep)[i]);
            }
        }
    }
}

/// A session never outlives its user: a new one is only made for a user there is,
/// and neither a user nor a role goes without the sessions.
pub proof fn law_sessions_keep_their_users(
    stored: Stored,
    session: Session,
    user: V4User,
    user_id: u32,
    role_id: u32,
    kept: spec_fn(Session) -> bool,
    left: Map<u32, V4User>,
)
    requires
        sessions_have_users(stored),
        forall|id: u32| #[trigger]
            left.contains_key(id) <==> stored.users.contains_key(id) && stored.users[id].role_id
                != role_id,
    ensures
        stored.users.contains_key(session.user_id) ==> sessions_have_users(
            Stored { sessions: stored.sessions.push(session), ..stored },
        ),
        sessions_have_users(Stored { users: stored.users.insert(user_id, user), ..stored }),
        sessions_have_users(Stored { sessions: stored.sessions.filter(kept), ..stored }),
        sessions_have_users(
            Stored {
                users: stored.users.remove(user_id),
                sessions: stored.sessions.filter(of_others(user_id)),
                ..stored
            },
        ),
        sessions_have_users(
            Stored {
                users: left,
                sessions: stored.sessions.filter(of_kept_users(stored.users, role_id)),
                ..stored
            },
        ),
{
    let others = stored.sessions.filter(of_others(user_id));
    let loyal = stored.sessions.filter(of_kept_users(stored.users, role_id));
    lemma_filter_selects(stored.sessions, kept);
    lemma_filter_selects(stored.sessions, of_others(user_id));
    lemma_filter_selects(stored.sessions, of_kept_users(stored.users, role_id));
    lemma_filter_holds(stored.sessions, of_others(user_id));
    lemma_filter_holds(stored.sessions, of_kept_users(stored.users, role_id));
    assert forall|i: int| 0 <= i < stored.sessions.filter(kept).len() implies stored.users
        .contains_key((#[trigger] stored.sessions.filter(kept)[i]).user_id) by {
        assert(stored.sessions.contains(stored.sessions.filter(kept)[i]));
    }
    assert forall|i: int| 0 <= i < others.len() implies stored.users.remove(user_id).contains_key(
        (#[trigger] others[i]).user_id,
    ) by {
        assert(stored.sessions.contains(others[i]));
        assert(of_others(user_id)(others[i]));
    }
    assert forall|i: int| 0 <= i < loyal.len() implies left.contains_key(
        (#[trigger] loyal[i]).user_id,
    ) by {
        assert(stored.sessions.contains(loyal[i]));
        assert(of_kept_users(stored.users, role_id)(loyal[i]));
    }
}

/// No two users have the same name.
pub open spec fn names_are_unique(users: Map<u32, V4User>) -> bool {
    forall|a: u32, b: u32|
        #![trigger users.contains_key(a), users.contains_key(b)]
        users.contains_key(a) && users.contains_key(b) && users[a].name@ == users[b].name@ ==> a
            == b
}

/// Names stay unique: a user is only added under a new one, and what else is
/// changed of a user is not the name.
pub proof fn law_names_stay_unique(
    users: Map<u32, V4User>,
    user_id: u32,
    added: V4User,
    changed: V4User,
)
    requires
        names_are_unique(users),
    ensures
        !users.contains_key(user_id) && !name_taken(users, added.name@) ==> names_are_unique(
            users.insert(user_id, added),
        ),
        users.contains_key(user_id) && changed.name == users[user_id].name ==> names_are_unique(
            users.insert(user_id, changed),
        ),
        names_are_unique(users.remove(user_id)),
{
}

/// A role that was stored is read as it was, whoever reads it.
pub proof fn law_role_is_read_alike(id: u32, stored: V3Role, added: StorageRole, read: StorageRole)
    requires
        is_role(id, stored, added),
        is_role(id, stored, read),
    ensures
        read == added,
{
}

/// A user who was added is read with what they were added with, and without settings.
pub proof fn law_added_user_comes_back(
    id: u32,
    user: StorageUserAdd,
    stored: V4User,
    read: StorageUser,
)
    requires
        is_new_user(user, stored),
        is_user(id, stored, read),
    ensures
        read.id.0 == id,
        read.name == user.name,
        read.password == user.password,
        read.role_id == user.role_id,
        read.client_unique_id == user.client_unique_id,
        read.settings is None,
        read.settings_revision == 0,
        read.settings_mutation_ids@.len() == 0,
{
}

/// A host that was added is read with what it was added with.
pub proof fn law_added_host_comes_back(
    id: u32,
    host: StorageHostAdd,
    stored: V2Host,
    read: StorageHost,
)
    requires
        is_new_host(host, stored),
        is_host(id, stored, read),
    ensures
        read.id.0 == id,
        read.owner == host.owner,
        read.address == host.address,
        read.http_port == host.http_port,
        read.pair_info == host.pair_info,
        read.cache == host.cache,
{
}

/// Every right has its own field in the file: each is read as it was written.
pub proof fn law_rights_keep_their_fields(
    stored: V3RolePermissions,
    permissions: StorageRolePermissions,
)
    requires
        same_permissions(stored, permissions),
    ensures
        permissions == (StorageRolePermissions {
            allow_add_hosts: stored.allow_add_hosts,
            maximum_bitrate_kbps: stored.maximum_bitrate_kbps,
            allow_codec_h264: stored.allow_codec_h264,
            allow_codec_h265: stored.allow_codec_h265,
            allow_codec_av1: stored.allow_codec_av1,
            allow_hdr: stored.allow_hdr,
            allow_transport_webrtc: stored.allow_transport_webrtc,
            allow_transport_websockets: stored.allow_transport_websockets,
        }),
{
}

/// A role is read with its own name, kind, settings and rights.
pub proof fn law_role_is_read_as_written(id: u32, stored: V3Role, role: StorageRole)
    requires
        is_role(id, stored, role),
    ensures
        role.id.0 == id,
        role.name == stored.name,
        role.ty is Admin <==> stored.ty is Admin,
        role.ty is User <==> stored.ty is User,
        role.default_settings == stored.default_settings,
        role.permissions.allow_hdr == stored.permissions.allow_hdr,
        role.permissions.maximum_bitrate_kbps == stored.permissions.maximum_bitrate_kbps,
{
}

/// A user is read with everything that the file holds of them, and a password with its
/// salt, its hash and its rounds in their places.
pub proof fn law_user_is_read_as_written(id: u32, stored: V4User, user: StorageUser)
    requires
        is_user(id, stored, user),
    ensures
        user.id.0 == id,
        user.name == stored.name,
        user.role_id.0 == stored.role_id,
        user.client_unique_id == stored.client_unique_id,
        user.settings == stored.settings,
        user.settings_revision == stored.settings_revision,
        user.settings_mutation_ids@ == stored.settings_mutation_ids@,
        user.password is Some <==> stored.password is Some,
        user.password is Some ==> user.password->0.salt == stored.password->0.salt
            && user.password->0.hash == stored.password->0.hash && user.password->0.iterations
            == stored.password->0.iterations,
{
}

/// A host is read with everything that the file holds of it, each key and certificate
/// in its place.
pub proof fn law_host_is_read_as_written(id: u32, stored: V2Host, host: StorageHost)
    requires
        is_host(id, stored, host),
    ensures
        host.id.0 == id,
        host.owner is None <==> stored.owner is None,
        host.owner matches Some(owner) ==> stored.owner == Some(owner.0),
        host.address == stored.address,
        host.http_port == stored.http_port,
        host.cache.name == stored.cache.name,
        host.cache.mac == stored.cache.mac,
        host.pair_info is Some <==> stored.pair_info is Some,
        host.pair_info is Some ==> host.pair_info->0.client_private_key
            == stored.pair_info->0.client_private_key && host.pair_info->0.client_certificate
            == stored.pair_info->0.client_certificate && host.pair_info->0.server_certificate
            == stored.pair_info->0.server_certificate,
{
}

/// A user sees the hosts that nobody owns and their own, and no host of another user.
pub proof fn law_which_hosts_a_user_sees(host: V2Host, user: u32, other: u32)
    requires
        user != other,
    ensures
        visible_to(V2Host { owner: None, ..host }, UserId(user)),
        visible_to(V2Host { owner: Some(user), ..host }, UserId(user)),
        !visible_to(V2Host { owner: Some(other), ..host }, UserId(user)),
{
}

/// Which sessions stay: those that are younger than they may become, those of other
/// users, and those with other tokens. None of the rest does, and nothing is added.
pub proof fn law_which_sessions_stay(
    sessions: Seq<Session>,
    session: Session,
    now: Instant,
    user_id: u32,
    token: SessionToken,
)
    ensures
        sessions.filter(still_valid(now)).contains(session) <==> sessions.contains(session)
            && now.elapsed_since(session.created_at) < session.expiration.nanos(),
        sessions.filter(of_others(user_id)).contains(session) <==> sessions.contains(session)
            && session.user_id != user_id,
        sessions.filter(with_another_token(token)).contains(session) <==> sessions.contains(session)
            && session.token.bytes@ != token.bytes@,
{
    lemma_sessions(sessions, still_valid(now), session);
    lemma_sessions(sessions, of_others(user_id), session);
    lemma_sessions(sessions, with_another_token(token), session);
}

proof fn lemma_sessions(
    sessions: Seq<Session>,
    keep: spec_fn(Session) -> bool,
    session: Session,
)
    ensures
        sessions.filter(keep).contains(session) <==> sessions.contains(session) && keep(session),
{
    let kept = sessions.filter(keep);
    if kept.contains(session) {
        let i = choose|i: int| 0 <= i < kept.len() && kept[i] == session;
        sessions.lemma_filter_pred(keep, i);
        sessions.lemma_filter_contains_rev(keep, session);
    }
    if sessions.contains(session) && keep(session) {
        let i = choose|i: int| 0 <= i < sessions.len() && sessions[i] == session;
        sessions.lemma_filter_contains(keep, i);
    }
}

/// Users of a role that was removed lose their sessions, and nobody else does.
pub proof fn law_who_loses_their_sessions(
    sessions: Seq<Session>,
    users: Map<u32, V4User>,
    role_id: u32,
    session: Session,
)
    ensures
        sessions.filter(of_kept_users(users, role_id)).contains(session) <==> sessions.contains(
            session,
        ) && (!users.contains_key(session.user_id) || users[session.user_id].role_id != role_id),
{
    lemma_sessions(sessions, of_kept_users(users, role_id), session);
}

/// A token leads to its session, and one that nobody has leads nowhere.
pub proof fn law_token_leads_to_its_session(sessions: Seq<Session>, at: int, token: SessionToken)
    requires
        tokens_are_distinct(sessions),
    ensures
        0 <= at < sessions.len() && sessions[at].token.bytes@ == token.bytes@ ==> session_at(
            sessions,
            token,
        ) == at,
        !is_token(sessions, token.bytes@) ==> session_at(sessions, token) == sessions.len(),
    decreases sessions.len(),
{
    let tokens = sessions.map_values(|session: Session| session.token.bytes@);
    if sessions.len() > 0 {
        let rest = sessions.skip(1);
        let rest_tokens = rest.map_values(|session: Session| session.token.bytes@);
        assert forall|i: int, j: int|
            0 <= i < rest_tokens.len() && 0 <= j < rest_tokens.len() && i
                != j implies rest_tokens[i] != rest_tokens[j] by {
            assert(rest_tokens[i] == tokens[i + 1] && rest_tokens[j] == tokens[j + 1]);
        }
        law_token_leads_to_its_session(rest, at - 1, token);
        assert(tokens[0] == sessions[0].token.bytes@);
        if 0 <= at < sessions.len() && sessions[at].token.bytes@ == token.bytes@ {
            assert(tokens[at] == sessions[at].token.bytes@);
            if at > 0 {
                assert(rest[at - 1] == sessions[at]);
                assert(tokens[0] != tokens[at]);
            }
        }
        if !is_token(sessions, token.bytes@) {
            assert(sessions[0].token.bytes@ != token.bytes@);
            assert forall|i: int| 0 <= i < rest.len() implies (#[trigger] rest[i]).token.bytes@
                != token.bytes@ by {
                assert(rest[i] == sessions[i + 1]);
            }
        }
    }
}

/// A change of settings is made when it is new, when it is an object or null, and while
/// there is a next revision. It makes one revision, and the last thirty-two changes are
/// remembered, the oldest of them forgotten first.
pub proof fn law_which_changes_are_made(
    before: V4User,
    patch: Option<Value>,
    mutation_id: String,
    after: V4User,
    mutation: Result<StorageSettingsMutation, AppError>,
)
    requires
        settings_modified(before, patch, mutation_id, after, mutation),
    ensures
        ({
            let ids = before.settings_mutation_ids@;
            let known = exists|i: int| 0 <= i < ids.len() && (#[trigger] ids[i])@ == mutation_id@;
            let full = before.settings_revision == 0xffff_ffff_ffff_ffff;
            let fit = patch is None || json_entries(patch->0) is Some;
            &&& known ==> after == before && mutation is Ok && !mutation->Ok_0.applied
                && mutation->Ok_0.revision == before.settings_revision
            &&& !known && full ==> mutation == Err::<StorageSettingsMutation, _>(
                AppError::SettingsRevisionExhausted,
            )
            &&& !known && !full && !fit ==> mutation == Err::<StorageSettingsMutation, _>(
                AppError::BadRequest,
            )
            &&& mutation is Err ==> after == before
            &&& !known && !full && fit ==> mutation is Ok && mutation->Ok_0.applied
                && mutation->Ok_0.revision == before.settings_revision + 1
                && after.settings_revision == before.settings_revision + 1
            &&& !known && !full && fit && patch is None ==> after.settings is None
            &&& !known && !full && fit ==> after.settings_mutation_ids@.len() > 0
                && after.settings_mutation_ids@.last()@ == mutation_id@
                && after.settings_mutation_ids@.len() == (if ids.len() < 32 {
                ids.len() + 1
            } else {
                32
            })
            &&& after.name == before.name && after.password == before.password && after.role_id
                == before.role_id && after.client_unique_id == before.client_unique_id
        }),
{
    let ids = before.settings_mutation_ids@;
    let names = texts(ids);
    if names.contains(mutation_id@) {
        let i = choose|i: int| 0 <= i < names.len() && names[i] == mutation_id@;
        assert(ids[i]@ == mutation_id@);
    } else {
        assert forall|i: int| 0 <= i < ids.len() implies (#[trigger] ids[i])@ != mutation_id@ by {
            assert(names[i] == ids[i]@);
        }
        let after_names = texts(after.settings_mutation_ids@);
        assert(after_names.len() == after.settings_mutation_ids@.len());
        if mutation is Ok {
            assert(after_names.last() == mutation_id@);
            assert(after_names.last() == after.settings_mutation_ids@.last()@);
        }
    }
}

/// A token that is numbered has the number in its first eight bytes and the drawn bytes
/// behind them, so that no two numbers give the same token.
pub proof fn law_numbered_tokens_differ(token: Seq<u8>, one: u64, other: u64)
    requires
        token.len() >= 8,
        one != other,
    ensures
        numbered_token(token, one as nat).len() == token.len(),
        numbered_token(token, one as nat).skip(8) == token.skip(8),
        numbered_token(token, one as nat) != numbered_token(token, other as nat),
{
    assert(crate::wire::power_of_256(8) == 0x1_0000_0000_0000_0000) by {
        reveal_with_fuel(crate::wire::power_of_256, 9);
    }
    crate::wire::lemma_be_round_trip(one as nat, 8);
    crate::wire::lemma_be_round_trip(other as nat, 8);
    crate::wire::lemma_be_bytes_len(one as nat, 8);
    crate::wire::lemma_be_bytes_len(other as nat, 8);
    let a = numbered_token(token, one as nat);
    let b = numbered_token(token, other as nat);
    assert(a.skip(8) =~= token.skip(8));
    assert(a.take(8) =~= be_bytes(one as nat, 8));
    assert(b.take(8) =~= be_bytes(other as nat, 8));
}

/// A role that was added under a free number can be read, as it was added, and adding it
/// touches nothing else. A number that is taken is refused.
pub proof fn law_added_role_is_found(
    storage: &mut JsonStorage,
    id: u32,
    role: StorageRoleAdd,
    added: Option<StorageRole>,
    found: Result<StorageRole, AppError>,
)
    requires
        call_ensures(JsonStorage::add_role_with_id, (storage, id, role), added),
        call_ensures(JsonStorage::get_role, (final(storage), RoleId(id)), found),
    ensures
        added is None <==> old(storage).roles@.contains_key(id),
        added is None ==> final(storage)@ == old(storage)@,
        added is Some ==> {
            &&& found matches Ok(read) && read.id.0 == id && read.name == role.name && read.ty
                == role.ty && read.permissions == role.permissions && read.default_settings
                == role.default_settings
            &&& final(storage).write_due
            &&& final(storage)@.roles.remove(id) == old(storage)@.roles
            &&& final(storage)@.users == old(storage)@.users && final(storage)@.hosts == old(
                storage,
            )@.hosts && final(storage)@.sessions == old(storage)@.sessions
        },
{
    if added is Some {
        assert(final(storage)@.roles.remove(id) =~= old(storage)@.roles);
    }
}

/// A change of a role changes what it names and nothing else, and the file is written.
pub proof fn law_role_is_changed_where_asked(
    storage: &mut JsonStorage,
    role_id: RoleId,
    modify: StorageRoleModify,
    modified: Result<(), AppError>,
    other: u32,
)
    requires
        call_ensures(JsonStorage::modify_role, (storage, role_id, modify), modified),
        other != role_id.0,
    ensures
        ({
            let before = old(storage)@.roles[role_id.0];
            let after = final(storage)@.roles[role_id.0];
            let known = old(storage)@.roles.contains_key(role_id.0);
            &&& modified is Ok <==> known
            &&& !known ==> modified->Err_0 is RoleNotFound && final(storage)@ == old(storage)@
            &&& known ==> {
                &&& after.name == (if modify.name is Some {
                    modify.name->0
                } else {
                    before.name
                })
                &&& modify.ty is Some ==> (after.ty is Admin <==> modify.ty->0 is Admin)
                &&& modify.ty is None ==> after.ty == before.ty
                &&& after.default_settings == (if modify.default_settings is Some {
                    modify.default_settings->0
                } else {
                    before.default_settings
                })
                &&& modify.permissions is None ==> after.permissions == before.permissions
                &&& modify.permissions matches Some(rights) ==> after.permissions.allow_hdr
                    == rights.allow_hdr && after.permissions.maximum_bitrate_kbps
                    == rights.maximum_bitrate_kbps && after.permissions.allow_codec_h264
                    == rights.allow_codec_h264 && after.permissions.allow_codec_h265
                    == rights.allow_codec_h265 && after.permissions.allow_codec_av1
                    == rights.allow_codec_av1
                &&& final(storage).write_due
                &&& final(storage)@.users == old(storage)@.users
                &&& final(storage)@.roles.contains_key(other) == old(storage)@.roles.contains_key(
                    other,
                )
                &&& old(storage)@.roles.contains_key(other) ==> final(storage)@.roles[other]
                    == old(storage)@.roles[other]
            }
        }),
{
}

/// A user that was added is found under their number, with what they were added with.
/// Two users never share a name, and a refused user leaves everything as it was.
pub proof fn law_added_user_is_found(
    storage: &mut JsonStorage,
    id: u32,
    user: StorageUserAdd,
    added: Option<StorageUser>,
    other: u32,
)
    requires
        call_ensures(JsonStorage::add_user_with_id, (storage, id, user), added),
    ensures
        old(storage)@.users.contains_key(other) && old(storage)@.users[other].name@ == user.name@
            ==> added is None,
        old(storage)@.users.contains_key(id) ==> added is None,
        added is None ==> final(storage)@ == old(storage)@,
        added matches Some(added) ==> {
            &&& added.id.0 == id && added.name == user.name && added.role_id == user.role_id
            &&& added.password == user.password && added.client_unique_id == user.client_unique_id
            &&& final(storage)@.users.contains_key(id)
            &&& final(storage)@.users[id].name == user.name
            &&& final(storage)@.users.remove(id) == old(storage)@.users
            &&& final(storage)@.sessions == old(storage)@.sessions
            &&& final(storage).write_due
        },
{
    if added is Some {
        law_added_user_comes_back(id, user, final(storage)@.users[id], added->0);
        assert(final(storage)@.users.remove(id) =~= old(storage)@.users);
    }
}

/// A change of a user changes what it names: the role, the password or the identifier.
/// The name and the settings stay, and so does everybody else.
pub proof fn law_user_is_changed_where_asked(
    storage: &mut JsonStorage,
    user_id: UserId,
    modify: StorageUserModify,
    modified: Result<(), AppError>,
)
    requires
        call_ensures(JsonStorage::modify_user, (storage, user_id, modify), modified),
    ensures
        ({
            let before = old(storage)@.users[user_id.0];
            let after = final(storage)@.users[user_id.0];
            let known = old(storage)@.users.contains_key(user_id.0);
            &&& modified is Ok <==> known
            &&& !known ==> modified->Err_0 is UserNotFound && final(storage)@ == old(storage)@
            &&& known ==> {
                &&& after.role_id == (if modify.role_id is Some {
                    (modify.role_id->0).0
                } else {
                    before.role_id
                })
                &&& after.client_unique_id == (if modify.client_unique_id is Some {
                    modify.client_unique_id->0
                } else {
                    before.client_unique_id
                })
                &&& modify.password is None ==> after.password == before.password
                &&& modify.password == Some(None::<StoragePassword>) ==> after.password is None
                &&& modify.password matches Some(Some(password)) ==> after.password is Some
                    && after.password->0.salt == password.salt && after.password->0.hash
                    == password.hash && after.password->0.iterations == password.iterations
                &&& after.name == before.name && after.settings == before.settings
                &&& after.settings_revision == before.settings_revision
                &&& final(storage)@.users.remove(user_id.0) == old(storage)@.users.remove(user_id.0)
                &&& final(storage)@.sessions == old(storage)@.sessions
                &&& final(storage).write_due
            }
        }),
{
    assert(final(storage)@.users.remove(user_id.0) =~= old(storage)@.users.remove(user_id.0));
}

/// Who is removed is gone with all their sessions, and everybody else stays with theirs.
pub proof fn law_who_is_removed_is_gone(
    storage: &mut JsonStorage,
    user_id: UserId,
    removed: Result<(), AppError>,
    session: Session,
)
    requires
        call_ensures(JsonStorage::remove_user, (storage, user_id), removed),
    ensures
        removed is Ok <==> old(storage)@.users.contains_key(user_id.0),
        removed is Err ==> removed->Err_0 is UserNotFound && final(storage)@ == old(storage)@,
        removed is Ok ==> {
            &&& !final(storage)@.users.contains_key(user_id.0)
            &&& final(storage)@.users == old(storage)@.users.remove(user_id.0)
            &&& final(storage)@.sessions.contains(session) <==> old(storage)@.sessions.contains(
                session,
            ) && session.user_id != user_id.0
            &&& final(storage)@.hosts == old(storage)@.hosts && final(storage)@.roles == old(
                storage,
            )@.roles
            &&& final(storage).write_due
        },
{
    lemma_sessions(old(storage)@.sessions, of_others(user_id.0), session);
}

/// A removed role takes its users and their sessions with it, and nobody else.
pub proof fn law_removed_role_takes_its_users(
    storage: &mut JsonStorage,
    role_id: RoleId,
    removed: Result<(), AppError>,
    id: u32,
)
    requires
        call_ensures(JsonStorage::remove_role, (storage, role_id), removed),
    ensures
        removed is Ok <==> old(storage)@.roles.contains_key(role_id.0),
        removed is Err ==> removed->Err_0 is RoleNotFound,
        !final(storage)@.roles.contains_key(role_id.0),
        final(storage).users@.contains_key(id) <==> old(storage).users@.contains_key(id) && old(
            storage,
        ).users@[id].role_id != role_id.0,
        final(storage).users@.contains_key(id) ==> final(storage).users@[id] == old(
            storage,
        ).users@[id],
        id != role_id.0 ==> final(storage)@.roles.contains_key(id) == old(
            storage,
        )@.roles.contains_key(id),
{
}

/// A session that was opened leads back to its user until its token is removed; after
/// that the token leads to nobody.
pub proof fn law_session_leads_to_its_user(
    storage: &mut JsonStorage,
    asked: &mut JsonStorage,
    removed: &mut JsonStorage,
    again: &mut JsonStorage,
    user_id: UserId,
    expiration: Duration,
    token: SessionToken,
    now: Instant,
    created: Result<bool, AppError>,
    user: Result<(UserId, StorageUser), AppError>,
    nobody: Result<(UserId, StorageUser), AppError>,
)
    requires
        tokens_are_distinct(old(storage).sessions@),
        call_ensures(
            JsonStorage::create_session_with_token,
            (storage, user_id, expiration, token, now),
            created,
        ),
        *old(asked) == *final(storage),
        call_ensures(JsonStorage::get_user_by_session_token, (asked, token), user),
        *old(removed) == *final(asked),
        call_ensures(JsonStorage::remove_session_token, (removed, token), ()),
        *old(again) == *final(removed),
        call_ensures(JsonStorage::get_user_by_session_token, (again, token), nobody),
    ensures
        created is Err <==> !old(storage)@.users.contains_key(user_id.0),
        created == Ok::<_, AppError>(true) ==> {
            &&& user matches Ok((id, _)) && id == user_id
            &&& final(asked)@ == final(storage)@
        },
        created == Ok::<_, AppError>(false) <==> old(storage)@.users.contains_key(user_id.0)
            && is_token(old(storage).sessions@, token.bytes@),
        nobody == Err::<(UserId, StorageUser), _>(AppError::SessionTokenNotFound),
        final(removed)@.users == old(storage)@.users,
{
    let before = old(storage).sessions@;
    lemma_session_found(before, token);
    if created == Ok::<_, AppError>(true) {
        let after = final(storage).sessions@;
        assert(after.last().token.bytes@ == token.bytes@);
        law_token_leads_to_its_session(after, before.len() as int, token);
    }
    let left = final(removed).sessions@;
    lemma_session_found(left, token);
    if is_token(left, token.bytes@) {
        let i = choose|i: int|
            0 <= i < left.len() && (#[trigger] left[i]).token.bytes@ == token.bytes@;
        old(removed).sessions@.lemma_filter_pred(with_another_token(token), i);
    }
}

proof fn lemma_session_found(sessions: Seq<Session>, token: SessionToken)
    ensures
        session_at(sessions, token) <= sessions.len(),
        session_at(sessions, token) < sessions.len() <==> is_token(sessions, token.bytes@),
    decreases sessions.len(),
{
    if sessions.len() > 0 {
        let rest = sessions.skip(1);
        lemma_session_found(rest, token);
        if is_token(sessions, token.bytes@) && sessions[0].token.bytes@ != token.bytes@ {
            let i = choose|i: int|
                0 <= i < sessions.len() && (#[trigger] sessions[i]).token.bytes@ == token.bytes@;
            assert(rest[i - 1] == sessions[i]);
        }
        if is_token(rest, token.bytes@) {
            let i = choose|i: int|
                0 <= i < rest.len() && (#[trigger] rest[i]).token.bytes@ == token.bytes@;
            assert(sessions[i + 1] == rest[i]);
        }
    }
}

/// A host that was added is found as it was added, and one that was removed is not.
pub proof fn law_hosts_come_and_go(
    storage: &mut JsonStorage,
    removing: &mut JsonStorage,
    id: u32,
    host: StorageHostAdd,
    added: Option<StorageHost>,
    found: Result<StorageHost, AppError>,
    removed: Result<(), AppError>,
    missing: Result<StorageHost, AppError>,
)
    requires
        call_ensures(JsonStorage::add_host_with_id, (storage, id, host), added),
        call_ensures(JsonStorage::get_host, (final(storage), HostId(id)), found),
        *old(removing) == *final(storage),
        call_ensures(JsonStorage::remove_host, (removing, HostId(id)), removed),
        call_ensures(JsonStorage::get_host, (final(removing), HostId(id)), missing),
    ensures
        added is None <==> old(storage)@.hosts.contains_key(id),
        added is None ==> final(storage)@ == old(storage)@,
        added is Some ==> (found matches Ok(read) && read.id.0 == id && read.owner == host.owner
            && read.address == host.address && read.http_port == host.http_port && read.pair_info
            == host.pair_info && read.cache == host.cache),
        removed is Ok,
        missing matches Err(error) && error is HostNotFound,
        added is Some ==> final(removing)@.hosts == old(storage)@.hosts,
        final(removing)@.users == old(storage)@.users,
{
    if added is Some {
        law_added_host_comes_back(id, host, final(storage)@.hosts[id], found->Ok_0);
        assert(final(removing)@.hosts =~= old(storage)@.hosts);
    }
}

/// A change of a host changes what it names and nothing else.
pub proof fn law_host_is_changed_where_asked(
    storage: &mut JsonStorage,
    host_id: HostId,
    modify: StorageHostModify,
    modified: Result<(), AppError>,
)
    requires
        call_ensures(JsonStorage::modify_host, (storage, host_id, modify), modified),
    ensures
        ({
            let before = old(storage)@.hosts[host_id.0];
            let after = final(storage)@.hosts[host_id.0];
            let known = old(storage)@.hosts.contains_key(host_id.0);
            &&& modified is Ok <==> known
            &&& !known ==> modified->Err_0 is HostNotFound && final(storage)@ == old(storage)@
            &&& known ==> {
                &&& modify.owner is None ==> after.owner == before.owner
                &&& modify.owner == Some(None::<UserId>) ==> after.owner is None
                &&& modify.owner matches Some(Some(owner)) ==> after.owner == Some(owner.0)
                &&& after.address == (if modify.address is Some {
                    modify.address->0
                } else {
                    before.address
                })
                &&& after.http_port == (if modify.http_port is Some {
                    modify.http_port->0
                } else {
                    before.http_port
                })
                &&& after.cache.name == (if modify.cache_name is Some {
                    modify.cache_name->0
                } else {
                    before.cache.name
                })
                &&& after.cache.mac == (if modify.cache_mac is Some {
                    modify.cache_mac->0
                } else {
                    before.cache.mac
                })
                &&& modify.pair_info is None ==> after.pair_info == before.pair_info
                &&& modify.pair_info == Some(None::<StorageHostPairInfo>) ==> after.pair_info
                    is None
                &&& modify.pair_info matches Some(Some(keys)) ==> after.pair_info is Some
                    && after.pair_info->0.client_private_key == keys.client_private_key
                    && after.pair_info->0.client_certificate == keys.client_certificate
                    && after.pair_info->0.server_certificate == keys.server_certificate
                &&& final(storage)@.hosts.remove(host_id.0) == old(storage)@.hosts.remove(host_id.0)
                &&& final(storage)@.users == old(storage)@.users
                &&& final(storage).write_due
            }
        }),
{
    assert(final(storage)@.hosts.remove(host_id.0) =~= old(storage)@.hosts.remove(host_id.0));
}

/// A number that is found is free, and no free number is lower.
pub proof fn law_lowest_number_is_found<V>(taken: &HashMap<u32, V>, id: Option<u32>, free: u32)
    requires
        call_ensures(first_free_id::<V>, (taken,), id),
        !taken@.contains_key(free),
    ensures
        id matches Some(found) ==> found <= free && !taken@.contains_key(found),
{
}

/// Storage without a file begins empty, and nothing has to be written.
pub proof fn law_storage_begins_empty(storage: JsonStorage, id: u32)
    requires
        call_ensures(JsonStorage::load, (None,), storage),
    ensures
        !storage.users@.contains_key(id) && !storage.hosts@.contains_key(id)
            && !storage.roles@.contains_key(id),
        storage.sessions@.len() == 0 && !storage.write_due,
{
    assert(!storage.users@.dom().contains(id));
    assert(!storage.hosts@.dom().contains(id));
    assert(!storage.roles@.dom().contains(id));
}

} // verus!
