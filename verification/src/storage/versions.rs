//! The storage file through its versions. A file of any version is brought to
//! the latest one when it is loaded.

use crate::outside::{json_null, null_value, parse_pem, parsed_pem};
use crate::storage::records::{MacAddress, RoleType};
use serde_json::Value;
use std::collections::HashMap;
use vstd::prelude::*;

verus! {

broadcast use vstd::std_specs::hash::group_hash_axioms;

/// The iterations of passwords from before their number was stored.
pub const LEGACY_ITERATIONS: u32 = 150_000;

/// The role of administrators, in a file that had no roles.
pub const ADMIN_ID: u32 = 0;

pub const USER_ID: u32 = 1;

pub struct V1 {
    pub hosts: Vec<V1Host>,
}

pub struct V1Host {
    pub address: String,
    pub http_port: u16,
    pub cache: V1HostCache,
    pub paired: Option<V1HostPairInfo>,
}

#[derive(Clone, Debug)]
pub struct V1HostCache {
    pub name: Option<String>,
    pub mac: Option<MacAddress>,
}

#[derive(Clone, Debug)]
pub struct V1HostPairInfo {
    pub client_private_key: String,
    pub client_certificate: String,
    pub server_certificate: String,
}

pub struct V2 {
    pub users: HashMap<u32, V2User>,
    pub hosts: HashMap<u32, V2Host>,
}

#[derive(Clone, Debug)]
pub struct V2User {
    pub role: RoleType,
    pub name: String,
    pub password: Option<V2UserPassword>,
    pub client_unique_id: String,
}

#[derive(Clone, Copy, Debug, PartialEq, Eq)]
pub struct V2UserPassword {
    pub salt: [u8; 16],
    pub hash: [u8; 32],
    pub iterations: u32,
}

/// The iterations of a password that does not name them.
pub fn default_legacy_iterations() -> (iterations: u32)
    ensures
        iterations == LEGACY_ITERATIONS,
{
    LEGACY_ITERATIONS
}

pub struct V2Host {
    pub owner: Option<u32>,
    pub address: String,
    pub http_port: u16,
    pub pair_info: Option<V2HostPairInfo>,
    pub cache: V2HostCache,
}

pub struct V2HostPairInfo {
    pub client_private_key: pem::Pem,
    pub client_certificate: pem::Pem,
    pub server_certificate: pem::Pem,
}

#[derive(Clone, Debug)]
pub struct V2HostCache {
    pub name: String,
    pub mac: Option<MacAddress>,
}

pub struct V3 {
    pub users: HashMap<u32, V3User>,
    pub hosts: HashMap<u32, V2Host>,
    pub roles: HashMap<u32, V3Role>,
}

pub struct V3User {
    pub role_id: u32,
    pub name: String,
    pub password: Option<V2UserPassword>,
    pub client_unique_id: String,
    pub settings: Option<Value>,
}

pub struct V4 {
    pub users: HashMap<u32, V4User>,
    pub hosts: HashMap<u32, V2Host>,
    pub roles: HashMap<u32, V3Role>,
}

pub struct V4User {
    pub role_id: u32,
    pub name: String,
    pub password: Option<V2UserPassword>,
    pub client_unique_id: String,
    pub settings: Option<Value>,
    pub settings_revision: u64,
    pub settings_mutation_ids: Vec<String>,
}

#[derive(Clone, Copy, Debug, PartialEq, Eq, Structural)]
pub enum V3RoleType {
    User,
    Admin,
}

pub struct V3Role {
    pub name: String,
    pub ty: V3RoleType,
    pub default_settings: Value,
    pub permissions: V3RolePermissions,
}

#[derive(Clone, Copy, Debug, PartialEq, Eq, Structural)]
pub struct V3RolePermissions {
    pub allow_add_hosts: bool,
    pub maximum_bitrate_kbps: Option<u32>,
    pub allow_codec_h264: bool,
    pub allow_codec_h265: bool,
    pub allow_codec_av1: bool,
    pub allow_hdr: bool,
    pub allow_transport_webrtc: bool,
    pub allow_transport_websockets: bool,
}

/// Everything is allowed, without a limit.
pub open spec fn default_permissions() -> V3RolePermissions {
    V3RolePermissions {
        allow_add_hosts: true,
        maximum_bitrate_kbps: None,
        allow_codec_h264: true,
        allow_codec_h265: true,
        allow_codec_av1: true,
        allow_hdr: true,
        allow_transport_webrtc: true,
        allow_transport_websockets: true,
    }
}

impl Default for V3RolePermissions {
    fn default() -> (permissions: Self)
        ensures
            permissions == default_permissions(),
    {
        V3RolePermissions {
            allow_add_hosts: true,
            maximum_bitrate_kbps: None,
            allow_codec_h264: true,
            allow_codec_h265: true,
            allow_codec_av1: true,
            allow_hdr: true,
            allow_transport_webrtc: true,
            allow_transport_websockets: true,
        }
    }
}

/// A storage file of any version.
pub enum Json {
    V4(V4),
    V3(V3),
    V2(V2),
    V1(V1),
}

/// The keys of a map, each once.
pub fn keys_of<V>(map: &HashMap<u32, V>) -> (keys: Vec<u32>)
    ensures
        keys@.no_duplicates(),
        forall|key: u32| #[trigger] map@.contains_key(key) <==> keys@.contains(key),
{
    let mut keys: Vec<u32> = Vec::new();
    let iter = map.keys();
    let ghost all = vstd::std_specs::iter::IteratorSpec::remaining(&iter);
    for key in it: iter
        invariant
            it.seq() == all,
            keys@ == all.unref().take(it.index()),
    {
        assert(all.unref().take(it.index() + 1) =~= all.unref().take(it.index()).push(*key));
        keys.push(*key);
    }
    assert(keys@ =~= all.unref());
    keys
}

/// The pairing of a file of the first version: lost where one of its three
/// texts is no key or certificate.
pub open spec fn pair_info_v2(paired: V1HostPairInfo) -> Option<V2HostPairInfo> {
    match (
        parsed_pem(paired.client_private_key@),
        parsed_pem(paired.client_certificate@),
        parsed_pem(paired.server_certificate@),
    ) {
        (Some(client_private_key), Some(client_certificate), Some(server_certificate)) => Some(
            V2HostPairInfo { client_private_key, client_certificate, server_certificate },
        ),
        _ => None,
    }
}

pub fn migrate_certificates_v1_to_v2(v1: V1HostPairInfo) -> (v2: Option<V2HostPairInfo>)
    ensures
        v2 == pair_info_v2(v1),
{
    let client_private_key: pem::Pem = match parse_pem(v1.client_private_key.as_str()) {
        Some(key) => key,
        None => {
            return None;
        },
    };
    let client_certificate: pem::Pem = match parse_pem(v1.client_certificate.as_str()) {
        Some(key) => key,
        None => {
            return None;
        },
    };
    let server_certificate: pem::Pem = match parse_pem(v1.server_certificate.as_str()) {
        Some(key) => key,
        None => {
            return None;
        },
    };
    Some(V2HostPairInfo { client_private_key, client_certificate, server_certificate })
}

/// A host of the first version, in the second: it belongs to everyone, and has
/// a name in any case.
pub open spec fn is_host_v2(old: V1Host, host: V2Host) -> bool {
    &&& host.owner is None
    &&& host.address == old.address
    &&& host.http_port == old.http_port
    &&& host.pair_info == match old.paired {
        Some(paired) => pair_info_v2(paired),
        None => None,
    }
    &&& host.cache.name@ == match old.cache.name {
        Some(name) => name@,
        None => "Unknown"@,
    }
    &&& host.cache.mac == old.cache.mac
}

fn migrate_host_v1_to_v2(old: V1Host) -> (host: V2Host)
    ensures
        is_host_v2(old, host),
{
    let pair_info: Option<V2HostPairInfo> = match old.paired {
        Some(paired) => migrate_certificates_v1_to_v2(paired),
        None => None,
    };
    let name: String = match old.cache.name {
        Some(name) => name,
        None => "Unknown".to_owned(),
    };
    V2Host {
        owner: None,
        address: old.address,
        http_port: old.http_port,
        pair_info,
        cache: V2HostCache { name, mac: old.cache.mac },
    }
}

/// No later one of so many places has the same id.
pub open spec fn last_with_its_id(i: int, count: int) -> bool {
    forall|j: int| i < j < count ==> #[trigger] (j as u32) != i as u32
}

/// The hosts of the first version stand under their places in the list.
pub open spec fn hosts_are_kept(old: Seq<V1Host>, hosts: Map<u32, V2Host>) -> bool {
    forall|i: int|
        0 <= i < old.len() && last_with_its_id(i, old.len() as int) ==> is_host_v2(
            #[trigger] old[i],
            hosts[i as u32],
        )
}

/// From the first version: there were no users, and the hosts get their place
/// in the list as id. Ids have 32 bits: of two hosts with the same, the later
/// one is kept.
pub fn migrate_v1_to_v2(old: V1) -> (v2: V2)
    ensures
        v2.users@.dom() == Set::<u32>::empty(),
        forall|id: u32| #[trigger]
            v2.hosts@.contains_key(id) <==> exists|i: int|
                0 <= i < old.hosts@.len() && #[trigger] (i as u32) == id,
        hosts_are_kept(old.hosts@, v2.hosts@),
{
    let mut hosts: HashMap<u32, V2Host> = HashMap::new();
    let ghost all = old.hosts@;
    let mut left: Vec<V1Host> = old.hosts;
    let mut id: usize = left.len();
    // The list is taken from its end, so that the last of two hosts with the
    // same id must be kept.
    while left.len() > 0
        invariant
            left@ == all.take(id as int),
            id <= all.len(),
            forall|key: u32| #[trigger]
                hosts@.contains_key(key) <==> exists|i: int|
                    id <= i < all.len() && #[trigger] (i as u32) == key,
            forall|i: int|
                id <= i < all.len() && last_with_its_id(i, all.len() as int) ==> is_host_v2(
                    #[trigger] all[i],
                    hosts@[i as u32],
                ),
        decreases left@.len(),
    {
        assert(left@.len() == id);
        if let Some(old_host) = left.pop() {
            id = id - 1;
            assert(left@ =~= all.take(id as int));
            assert(old_host == all[id as int]);
            let ghost before = hosts@;
            let key: u32 = id as u32;
            if !hosts.contains_key(&key) {
                hosts.insert(key, migrate_host_v1_to_v2(old_host));
            }
            assert(id as int as u32 == key);
            assert forall|other: u32| #[trigger] hosts@.contains_key(other) implies exists|i: int|
                id <= i < all.len() && #[trigger] (i as u32) == other by {
                if other == key {
                    assert((id as int) as u32 == other);
                }
            }
        }
    }
    V2 { users: HashMap::new(), hosts }
}

/// A role that an older file is given.
pub open spec fn is_standard_role(role: V3Role, name: Seq<char>, ty: V3RoleType) -> bool {
    &&& role.name@ == name
    &&& role.ty == ty
    &&& json_null(role.default_settings)
    &&& role.permissions == default_permissions()
}

fn standard_role(name: &str, ty: V3RoleType) -> (role: V3Role)
    ensures
        is_standard_role(role, name@, ty),
{
    V3Role {
        name: name.to_owned(),
        ty,
        default_settings: null_value(),
        permissions: V3RolePermissions::default(),
    }
}

/// A user of the second version, in the third.
pub open spec fn user_v3(user: V2User) -> V3User {
    V3User {
        client_unique_id: user.client_unique_id,
        name: user.name,
        password: user.password,
        settings: None,
        role_id: match user.role {
            RoleType::Admin => ADMIN_ID,
            RoleType::User => USER_ID,
        },
    }
}

fn migrate_user_v2_to_v3(user: V2User) -> (migrated: V3User)
    ensures
        migrated == user_v3(user),
{
    V3User {
        client_unique_id: user.client_unique_id,
        name: user.name,
        password: user.password,
        settings: None,
        role_id: match user.role {
            RoleType::Admin => ADMIN_ID,
            RoleType::User => USER_ID,
        },
    }
}

/// From the second version: the kind of a user becomes a role.
pub fn migrate_v2_to_v3(old: V2) -> (v3: V3)
    ensures
        v3.users@ == old.users@.map_values(|user: V2User| user_v3(user)),
        v3.hosts == old.hosts,
        v3.roles@.dom() == set![ADMIN_ID, USER_ID],
        is_standard_role(v3.roles@[ADMIN_ID], "Admin"@, V3RoleType::Admin),
        is_standard_role(v3.roles@[USER_ID], "User"@, V3RoleType::User),
{
    let mut roles: HashMap<u32, V3Role> = HashMap::new();
    roles.insert(ADMIN_ID, standard_role("Admin", V3RoleType::Admin));
    roles.insert(USER_ID, standard_role("User", V3RoleType::User));
    assert(roles@.dom() =~= set![ADMIN_ID, USER_ID]);
    let mut left: HashMap<u32, V2User> = old.users;
    let ghost all = left@;
    let keys: Vec<u32> = keys_of(&left);
    let mut users: HashMap<u32, V3User> = HashMap::new();
    let mut i: usize = 0;
    assert(keys@.skip(0) =~= keys@);
    while i < keys.len()
        invariant
            i <= keys@.len(),
            keys@.no_duplicates(),
            forall|key: u32| #[trigger] all.contains_key(key) <==> keys@.contains(key),
            forall|key: u32| #[trigger]
                left@.contains_key(key) <==> keys@.skip(i as int).contains(key),
            forall|key: u32| #[trigger] left@.contains_key(key) ==> left@[key] == all[key],
            forall|key: u32| #[trigger]
                users@.contains_key(key) <==> keys@.take(i as int).contains(key),
            forall|key: u32| #[trigger]
                users@.contains_key(key) ==> users@[key] == user_v3(all[key]),
        decreases keys@.len() - i,
    {
        let key: u32 = keys[i];
        proof {
            assert(keys@.skip(i as int)[0] == key);
            lemma_key_moves(keys@, i as int);
            assert(all.contains_key(key));
        }
        if let Some(user) = left.remove(&key) {
            users.insert(key, migrate_user_v2_to_v3(user));
        }
        i = i + 1;
    }
    proof {
        assert(keys@.take(i as int) =~= keys@);
        assert(users@ =~= all.map_values(|user: V2User| user_v3(user)));
    }
    V3 { users, hosts: old.hosts, roles }
}

/// What the parts of a list hold before and after one element.
pub(crate) proof fn lemma_key_moves(keys: Seq<u32>, i: int)
    requires
        0 <= i < keys.len(),
        keys.no_duplicates(),
    ensures
        forall|key: u32| #[trigger]
            keys.skip(i + 1).contains(key) <==> keys.skip(i).contains(key) && key != keys[i],
        forall|key: u32| #[trigger]
            keys.take(i + 1).contains(key) <==> keys.take(i).contains(key) || key == keys[i],
        keys.skip(i).contains(keys[i]),
{
    let from = keys.skip(i);
    let behind = keys.skip(i + 1);
    let before = keys.take(i);
    let upto = keys.take(i + 1);
    assert(from[0] == keys[i]);
    assert(upto[i] == keys[i]);
    assert forall|key: u32| #[trigger] behind.contains(key) implies from.contains(key) && key
        != keys[i] by {
        let k = choose|k: int| 0 <= k < behind.len() && behind[k] == key;
        assert(from[k + 1] == key);
        assert(keys[i + 1 + k] == key);
    }
    assert forall|key: u32| from.contains(key) && key != keys[i] implies #[trigger] behind.contains(
        key,
    ) by {
        let k = choose|k: int| 0 <= k < from.len() && from[k] == key;
        assert(behind[k - 1] == key);
    }
    assert forall|key: u32| #[trigger] upto.contains(key) implies before.contains(key) || key
        == keys[i] by {
        let k = choose|k: int| 0 <= k < upto.len() && upto[k] == key;
        if k < i {
            assert(before[k] == key);
        }
    }
    assert forall|key: u32| before.contains(key) || key == keys[i] implies #[trigger] upto.contains(
        key,
    ) by {
        if before.contains(key) {
            let k = choose|k: int| 0 <= k < before.len() && before[k] == key;
            assert(upto[k] == key);
        }
    }
}

/// A user of the third version, in the fourth: with their settings, and none of
/// the changes to them on record.
pub open spec fn is_user_v4(old: V3User, user: V4User) -> bool {
    &&& user.role_id == old.role_id
    &&& user.name == old.name
    &&& user.password == old.password
    &&& user.client_unique_id == old.client_unique_id
    &&& user.settings == old.settings
    &&& user.settings_revision == 0
    &&& user.settings_mutation_ids@.len() == 0
}

fn migrate_user_v3_to_v4(user: V3User) -> (migrated: V4User)
    ensures
        is_user_v4(user, migrated),
{
    V4User {
        role_id: user.role_id,
        name: user.name,
        password: user.password,
        client_unique_id: user.client_unique_id,
        settings: user.settings,
        settings_revision: 0,
        settings_mutation_ids: Vec::new(),
    }
}

/// From the third version.
pub fn migrate_v3_to_v4(old: V3) -> (v4: V4)
    ensures
        v4.users@.dom() == old.users@.dom(),
        forall|id: u32| #[trigger]
            old.users@.contains_key(id) ==> is_user_v4(old.users@[id], v4.users@[id]),
        v4.hosts == old.hosts,
        v4.roles == old.roles,
{
    let mut left: HashMap<u32, V3User> = old.users;
    let ghost all = left@;
    let keys: Vec<u32> = keys_of(&left);
    let mut users: HashMap<u32, V4User> = HashMap::new();
    let mut i: usize = 0;
    assert(keys@.skip(0) =~= keys@);
    while i < keys.len()
        invariant
            i <= keys@.len(),
            keys@.no_duplicates(),
            forall|key: u32| #[trigger] all.contains_key(key) <==> keys@.contains(key),
            forall|key: u32| #[trigger]
                left@.contains_key(key) <==> keys@.skip(i as int).contains(key),
            forall|key: u32| #[trigger] left@.contains_key(key) ==> left@[key] == all[key],
            forall|key: u32| #[trigger]
                users@.contains_key(key) <==> keys@.take(i as int).contains(key),
            forall|key: u32| #[trigger]
                users@.contains_key(key) ==> is_user_v4(all[key], users@[key]),
        decreases keys@.len() - i,
    {
        let key: u32 = keys[i];
        proof {
            assert(keys@.skip(i as int)[0] == key);
            lemma_key_moves(keys@, i as int);
            assert(all.contains_key(key));
        }
        if let Some(user) = left.remove(&key) {
            users.insert(key, migrate_user_v3_to_v4(user));
        }
        i = i + 1;
    }
    proof {
        assert(keys@.take(i as int) =~= keys@);
        assert(users@.dom() =~= all.dom());
        assert forall|id: u32| #[trigger] all.contains_key(id) implies is_user_v4(
            all[id],
            users@[id],
        ) by {
            assert(users@.contains_key(id));
        }
    }
    V4 { users, hosts: old.hosts, roles: old.roles }
}

/// The roles that a file without roles is given.
pub open spec fn standard_roles(roles: Map<u32, V3Role>) -> bool {
    &&& roles.dom() == set![ADMIN_ID, USER_ID]
    &&& is_standard_role(roles[ADMIN_ID], "Admin"@, V3RoleType::Admin)
    &&& is_standard_role(roles[USER_ID], "User"@, V3RoleType::User)
}

/// What a storage file of any version holds, in terms of the latest.
pub open spec fn is_latest(
    json: Json,
    users: Map<u32, V4User>,
    hosts: Map<u32, V2Host>,
    roles: Map<u32, V3Role>,
) -> bool {
    match json {
        Json::V4(same) => users == same.users@ && hosts == same.hosts@ && roles == same.roles@,
        Json::V3(old) => {
            &&& users.dom() == old.users@.dom()
            &&& forall|id: u32| #[trigger]
                old.users@.contains_key(id) ==> is_user_v4(old.users@[id], users[id])
            &&& hosts == old.hosts@
            &&& roles == old.roles@
        },
        Json::V2(old) => {
            &&& users.dom() == old.users@.dom()
            &&& forall|id: u32| #[trigger]
                old.users@.contains_key(id) ==> is_user_v4(user_v3(old.users@[id]), users[id])
            &&& hosts == old.hosts@
            &&& standard_roles(roles)
        },
        Json::V1(old) => {
            &&& users.dom() == Set::<u32>::empty()
            &&& forall|id: u32| #[trigger]
                hosts.contains_key(id) <==> exists|i: int|
                    0 <= i < old.hosts@.len() && #[trigger] (i as u32) == id
            &&& hosts_are_kept(old.hosts@, hosts)
            &&& standard_roles(roles)
        },
    }
}

/// Brings a storage file of any version to the latest one.
pub fn migrate_to_latest(json: Json) -> (v4: V4)
    ensures
        is_latest(json, v4.users@, v4.hosts@, v4.roles@),
{
    match json {
        Json::V1(v1) => {
            let v3 = migrate_v2_to_v3(migrate_v1_to_v2(v1));
            assert(v3.users@.dom() =~= Set::<u32>::empty());
            migrate_v3_to_v4(v3)
        },
        Json::V2(v2) => {
            let ghost users = v2.users@;
            let v3 = migrate_v2_to_v3(v2);
            assert forall|id: u32| users.contains_key(id) implies #[trigger] v3.users@.contains_key(
                id,
            ) && v3.users@[id] == user_v3(users[id]) by {
                assert(v3.users@.dom().contains(id));
            }
            assert(v3.users@.dom() =~= users.dom());
            migrate_v3_to_v4(v3)
        },
        Json::V3(v3) => migrate_v3_to_v4(v3),
        Json::V4(v4) => v4,
    }
}

/// A user of a file without roles can log in as before, and has a role of
/// their kind.
pub proof fn law_migration_keeps_users(
    old: V2,
    users: Map<u32, V4User>,
    hosts: Map<u32, V2Host>,
    roles: Map<u32, V3Role>,
    id: u32,
)
    requires
        is_latest(Json::V2(old), users, hosts, roles),
        old.users@.contains_key(id),
    ensures
        users.contains_key(id),
        users[id].name == old.users@[id].name,
        users[id].password == old.users@[id].password,
        users[id].client_unique_id == old.users@[id].client_unique_id,
        roles.contains_key(users[id].role_id),
        roles[users[id].role_id].ty is Admin <==> old.users@[id].role is Admin,
{
    assert(users.dom().contains(id));
}

/// Every host of a file without users is kept under its place in the list, and
/// everyone may see it.
pub proof fn law_migration_keeps_hosts(
    old: V1,
    users: Map<u32, V4User>,
    hosts: Map<u32, V2Host>,
    roles: Map<u32, V3Role>,
    i: int,
)
    requires
        is_latest(Json::V1(old), users, hosts, roles),
        0 <= i < old.hosts@.len() <= u32::MAX,
    ensures
        hosts.contains_key(i as u32),
        hosts[i as u32].owner is None,
        hosts[i as u32].address == old.hosts@[i].address,
        hosts[i as u32].http_port == old.hosts@[i].http_port,
        hosts[i as u32].cache.mac == old.hosts@[i].cache.mac,
{
    assert(last_with_its_id(i, old.hosts@.len() as int));
    assert(is_host_v2(old.hosts@[i], hosts[i as u32]));
}

/// Data without roles gets two: an administrator under the number zero and a user under
/// the number one. Both may do everything, with no bound on the bitrate, and neither
/// has settings of its own.
pub proof fn law_standard_roles_may_do_everything(roles: Map<u32, V3Role>, id: u32)
    requires
        standard_roles(roles),
    ensures
        roles.contains_key(id) <==> id <= 1,
        id <= 1 ==> ({
            let rights = roles[id].permissions;
            &&& rights.allow_add_hosts && rights.maximum_bitrate_kbps is None && rights.allow_hdr
            &&& rights.allow_codec_h264 && rights.allow_codec_h265 && rights.allow_codec_av1
            &&& rights.allow_transport_webrtc && rights.allow_transport_websockets
            &&& json_null(roles[id].default_settings)
            &&& roles[id].ty is Admin <==> id == 0
            &&& roles[id].name@ == (if id == 0 {
                seq!['A', 'd', 'm', 'i', 'n']
            } else {
                seq!['U', 's', 'e', 'r']
            })
        }),
{
    reveal_strlit("Admin");
    reveal_strlit("User");
    assert("Admin"@ =~= seq!['A', 'd', 'm', 'i', 'n']);
    assert("User"@ =~= seq!['U', 's', 'e', 'r']);
}

/// A user of the second version keeps their name, password and identifier and gets the
/// role that stands for their kind, without settings.
pub proof fn law_users_get_the_role_of_their_kind(user: V2User)
    ensures
        user_v3(user).role_id == (if user.role is Admin {
            0u32
        } else {
            1
        }),
        user_v3(user).name == user.name,
        user_v3(user).password == user.password,
        user_v3(user).client_unique_id == user.client_unique_id,
        user_v3(user).settings is None,
{
}

/// Migrating the third version keeps everything that it holds of a user, who begins
/// without a history of changes; the fourth version is left alone.
pub proof fn law_migration_keeps_settings(
    old: V3,
    same: V4,
    users: Map<u32, V4User>,
    hosts: Map<u32, V2Host>,
    roles: Map<u32, V3Role>,
    id: u32,
)
    ensures
        is_latest(Json::V3(old), users, hosts, roles) ==> hosts == old.hosts@ && roles == old.roles@
            && (users.contains_key(id) <==> old.users@.contains_key(id)),
        is_latest(Json::V3(old), users, hosts, roles) && old.users@.contains_key(id)
            ==> users[id].settings == old.users@[id].settings && users[id].role_id
            == old.users@[id].role_id && users[id].name == old.users@[id].name && users[id].password
            == old.users@[id].password && users[id].client_unique_id
            == old.users@[id].client_unique_id && users[id].settings_revision == 0
            && users[id].settings_mutation_ids@.len() == 0,
        is_latest(Json::V4(same), users, hosts, roles) ==> users == same.users@ && hosts
            == same.hosts@ && roles == same.roles@,
{
    if is_latest(Json::V3(old), users, hosts, roles) {
        assert(users.dom().contains(id) <==> old.users@.dom().contains(id));
    }
}

/// A host of the first version keeps its name, or is called Unknown where it has none.
/// Its pairing is kept when all three of its texts can be read, each in its place, and
/// is lost otherwise.
pub proof fn law_hosts_keep_names_and_pairings(old: V1Host, host: V2Host)
    requires
        is_host_v2(old, host),
    ensures
        host.owner is None,
        host.address == old.address && host.http_port == old.http_port && host.cache.mac
            == old.cache.mac,
        old.cache.name matches Some(name) ==> host.cache.name@ == name@,
        old.cache.name is None ==> host.cache.name@ == seq!['U', 'n', 'k', 'n', 'o', 'w', 'n'],
        old.paired is None ==> host.pair_info is None,
        old.paired matches Some(paired) ==> {
            let key = parsed_pem(paired.client_private_key@);
            let client = parsed_pem(paired.client_certificate@);
            let server = parsed_pem(paired.server_certificate@);
            &&& host.pair_info is Some <==> key is Some && client is Some && server is Some
            &&& host.pair_info is Some ==> Some(host.pair_info->0.client_private_key) == key
                && Some(host.pair_info->0.client_certificate) == client
                && Some(host.pair_info->0.server_certificate) == server
        },
{
    reveal_strlit("Unknown");
    assert("Unknown"@ =~= seq!['U', 'n', 'k', 'n', 'o', 'w', 'n']);
}

} // verus!
