//! Users, roles, hosts and sessions.

use moonlight_web::errors::AppError;
use moonlight_web::storage::file::{
    store, temporary_mode, temporary_suffix, AtomicWrite, WriteAction, WriteEvent, WriteFailure,
};
use moonlight_web::storage::json::{first_free_id, number_from, JsonStorage, MAX_RECENT_SETTINGS_MUTATIONS};
use moonlight_web::storage::records::{
    HostId, MacAddress, RoleId, RoleType, SessionToken, StorageHostAdd, StorageHostCache,
    StorageHostModify, StorageRoleAdd, StorageRoleModify, StorageRolePermissions,
    StorageSettingsMutation, StorageUser, StorageUserAdd, StorageUserModify, UserId,
};
use moonlight_web::storage::settings_patch::apply_top_level_settings_patch;
use moonlight_web::storage::versions::{
    default_legacy_iterations, migrate_certificates_v1_to_v2, migrate_to_latest, Json, V1Host,
    V1HostCache, V1HostPairInfo, V2User, V3RoleType, V3User, ADMIN_ID, USER_ID, V1, V2, V3,
};
use moonlight_web::time::{Duration, Instant};
use serde_json::Value;
use std::collections::HashMap;

fn json(text: &str) -> Value {
    serde_json::from_str(text).expect("test value should be valid JSON")
}

fn now() -> Instant {
    Instant::at(Duration::from_secs(1_000))
}

fn test_storage() -> JsonStorage {
    JsonStorage::load(None)
}

fn reloaded(storage: &JsonStorage) -> JsonStorage {
    JsonStorage::load(Some(store(storage)))
}

fn add_named_test_user(storage: &mut JsonStorage, role_id: RoleId, name: &str) -> StorageUser {
    storage
        .add_user(StorageUserAdd {
            role_id,
            name: name.to_string(),
            password: None,
            client_unique_id: format!("{name}-client"),
        })
        .expect("test user should be created")
}

fn add_test_user(storage: &mut JsonStorage, role_id: RoleId) -> StorageUser {
    add_named_test_user(storage, role_id, "test-user")
}

#[test]
fn user_settings_persist_and_are_isolated() {
    let mut storage = test_storage();
    let first_user = add_named_test_user(&mut storage, RoleId(1), "first-user");
    let second_user = add_named_test_user(&mut storage, RoleId(1), "second-user");

    assert!(first_user.settings.is_none());
    assert!(second_user.settings.is_none());
    assert_eq!(first_user.settings_revision, 0);
    assert_eq!(second_user.settings_revision, 0);
    assert!(first_user.settings_mutation_ids.is_empty());
    assert!(second_user.settings_mutation_ids.is_empty());

    let settings = json(r#"{ "bitrate": 18000, "resolution": { "width": 1920, "height": 1080 } }"#);
    let first_mutation = storage
        .modify_user_settings(first_user.id, Some(settings.clone()), "first-settings".to_string())
        .expect("user settings should be updated");
    assert_eq!(first_mutation, StorageSettingsMutation { revision: 1, applied: true });
    assert!(storage.write_due);

    let mut reloaded_storage = reloaded(&storage);

    let reloaded_first = reloaded_storage
        .get_user(first_user.id)
        .expect("first user should reload");
    assert_eq!(reloaded_first.settings, Some(settings));
    assert_eq!(reloaded_first.settings_revision, 1);
    assert_eq!(reloaded_first.settings_mutation_ids, vec!["first-settings".to_string()]);
    assert!(reloaded_storage
        .get_user(second_user.id)
        .expect("second user should reload")
        .settings
        .is_none());

    let clear_mutation = reloaded_storage
        .modify_user_settings(first_user.id, None, "clear-settings".to_string())
        .expect("user settings should be cleared");
    assert_eq!(clear_mutation, StorageSettingsMutation { revision: 2, applied: true });

    let cleared = reloaded(&reloaded_storage);
    let cleared_user = cleared
        .get_user(first_user.id)
        .expect("first user should still exist");
    assert!(cleared_user.settings.is_none());
    assert_eq!(cleared_user.settings_revision, 2);
}

#[test]
fn partial_settings_merge_is_idempotent_and_does_not_revert_later_mutations() {
    let mut storage = test_storage();
    let user = add_named_test_user(&mut storage, RoleId(1), "merge-user");
    let initial_patch = json(
        r#"{ "bitrate": 18000, "codec": "h264", "resolution": { "width": 1920, "height": 1080 } }"#,
    );

    let initial = storage
        .modify_user_settings(user.id, Some(initial_patch.clone()), "initial-patch".to_string())
        .expect("initial patch should be persisted");
    assert_eq!(initial, StorageSettingsMutation { revision: 1, applied: true });

    let later = storage
        .modify_user_settings(
            user.id,
            Some(json(r#"{ "bitrate": 22000, "codec": null, "resolution": { "width": 1280 } }"#)),
            "later-patch".to_string(),
        )
        .expect("later patch should be persisted");
    assert_eq!(later, StorageSettingsMutation { revision: 2, applied: true });

    let duplicate = storage
        .modify_user_settings(user.id, Some(initial_patch), "initial-patch".to_string())
        .expect("duplicate patch should be acknowledged");
    assert_eq!(duplicate, StorageSettingsMutation { revision: 2, applied: false });

    let reloaded_storage = reloaded(&storage);
    let user = reloaded_storage
        .get_user(user.id)
        .expect("patched user should reload");
    assert_eq!(user.settings_revision, 2);
    assert_eq!(
        user.settings,
        Some(json(r#"{ "bitrate": 22000, "resolution": { "width": 1280 } }"#))
    );
    assert_eq!(
        user.settings_mutation_ids,
        vec!["initial-patch".to_string(), "later-patch".to_string()]
    );
}

#[test]
fn recent_settings_mutation_history_is_bounded() {
    let mut storage = test_storage();
    let user = add_named_test_user(&mut storage, RoleId(1), "bounded-history-user");
    let mutation_count = MAX_RECENT_SETTINGS_MUTATIONS + 5;

    for index in 0..mutation_count {
        storage
            .modify_user_settings(
                user.id,
                Some(json(&format!("{{ \"bitrate\": {index} }}"))),
                format!("mutation-{index}"),
            )
            .expect("settings mutation should be accepted");
    }

    let user = storage
        .get_user(user.id)
        .expect("mutated user should exist");
    assert_eq!(user.settings_revision, mutation_count as u64);
    assert_eq!(user.settings_mutation_ids.len(), MAX_RECENT_SETTINGS_MUTATIONS);
    assert_eq!(user.settings_mutation_ids[0], "mutation-5");
    let expected_last = format!("mutation-{}", mutation_count - 1);
    assert_eq!(
        user.settings_mutation_ids.last().map(String::as_str),
        Some(expected_last.as_str())
    );
}

#[test]
fn invalid_settings_patch_does_not_advance_revision_or_history() {
    let mut storage = test_storage();
    let user = add_named_test_user(&mut storage, RoleId(1), "invalid-patch-user");

    assert!(matches!(
        storage.modify_user_settings(
            user.id,
            Some(json(r#"["not", "an", "object"]"#)),
            "invalid-patch".to_string(),
        ),
        Err(AppError::BadRequest)
    ));

    let user = storage
        .get_user(user.id)
        .expect("user should still exist");
    assert!(user.settings.is_none());
    assert_eq!(user.settings_revision, 0);
    assert!(user.settings_mutation_ids.is_empty());
}

#[test]
fn deleting_user_revokes_all_sessions() {
    let mut storage = test_storage();
    let user = add_test_user(&mut storage, RoleId(1));
    let first_session = storage
        .create_session_token(user.id, Duration::from_secs(60), now())
        .expect("first session should be created");
    let second_session = storage
        .create_session_token(user.id, Duration::from_secs(60), now())
        .expect("second session should be created");

    storage.remove_user(user.id).expect("user should be deleted");

    for session in [first_session, second_session] {
        assert!(matches!(
            storage.get_user_by_session_token(session),
            Err(AppError::SessionTokenNotFound)
        ));
    }
}

#[test]
fn stale_session_is_rejected_and_removed() {
    let mut storage = test_storage();
    let user = add_test_user(&mut storage, RoleId(1));
    let session = storage
        .create_session_token(user.id, Duration::from_secs(60), now())
        .expect("session should be created");
    storage.users.remove(&user.id.0);

    assert!(matches!(
        storage.get_user_by_session_token(session),
        Err(AppError::SessionTokenNotFound)
    ));
    assert!(!storage.sessions.iter().any(|held| held.token == session));
}

fn test_role(name: &str) -> StorageRoleAdd {
    StorageRoleAdd {
        name: name.to_string(),
        ty: RoleType::User,
        default_settings: json("{}"),
        permissions: StorageRolePermissions::default(),
    }
}

#[test]
fn deleting_role_revokes_sessions_for_its_users() {
    let mut storage = test_storage();
    let role = storage
        .add_role(test_role("test-role"))
        .expect("test role should be created");
    let user = add_test_user(&mut storage, role.id);
    let session = storage
        .create_session_token(user.id, Duration::from_secs(60), now())
        .expect("session should be created");

    storage.remove_role(role.id).expect("role should be deleted");

    assert!(matches!(
        storage.get_user_by_session_token(session),
        Err(AppError::SessionTokenNotFound)
    ));
}

#[test]
fn v3_with_interim_settings_migrates_to_v4_without_loss() {
    let user = V3User {
        role_id: 3,
        name: "interim-user".to_owned(),
        password: None,
        client_unique_id: "interim-client".to_owned(),
        settings: Some(json(r#"{ "bitrate": 17000 }"#)),
    };
    let stored = Json::V3(V3 {
        users: HashMap::from([(7, user)]),
        hosts: HashMap::new(),
        roles: HashMap::new(),
    });

    let v4 = migrate_to_latest(stored);
    let migrated = v4.users.get(&7).expect("migrated user should exist");
    assert_eq!(migrated.settings, Some(json(r#"{ "bitrate": 17000 }"#)));
    assert_eq!(migrated.settings_revision, 0);
    assert!(migrated.settings_mutation_ids.is_empty());
}

#[test]
fn users_are_found_by_name_and_unique() {
    let mut storage = test_storage();
    assert!(!storage.any_user_exists());
    let user = add_named_test_user(&mut storage, RoleId(1), "alice");
    assert!(storage.any_user_exists());
    assert_eq!(storage.get_user_by_name("alice").map(|(id, _)| id).ok(), Some(user.id));
    assert!(matches!(storage.get_user_by_name("bob"), Err(AppError::UserNotFound)));
    assert!(matches!(
        storage.add_user(StorageUserAdd {
            role_id: RoleId(1),
            name: "alice".to_owned(),
            password: None,
            client_unique_id: String::new(),
        }),
        Err(AppError::UserAlreadyExists)
    ));
    assert_eq!(storage.list_users().len(), 1);
}

#[test]
fn user_changes_touch_only_what_is_named() {
    let mut storage = test_storage();
    let user = add_named_test_user(&mut storage, RoleId(1), "alice");
    storage
        .modify_user(
            user.id,
            StorageUserModify { role_id: Some(RoleId(9)), password: None, client_unique_id: None },
        )
        .expect("user should be changed");
    let changed = storage.get_user(user.id).expect("user should exist");
    assert_eq!(changed.role_id, RoleId(9));
    assert_eq!(changed.client_unique_id, "alice-client");
    assert!(matches!(storage.remove_user(UserId(user.id.0 ^ 1)), Err(AppError::UserNotFound)));
}

#[test]
fn roles_can_be_changed_and_listed() {
    let mut storage = test_storage();
    let role = storage.add_role(test_role("first")).expect("role should be created");
    storage
        .modify_role(
            role.id,
            StorageRoleModify {
                name: Some("renamed".to_owned()),
                ty: Some(RoleType::Admin),
                default_settings: None,
                permissions: None,
            },
        )
        .expect("role should be changed");
    let changed = storage.get_role(role.id).expect("role should exist");
    assert_eq!(changed.name, "renamed");
    assert_eq!(changed.ty, RoleType::Admin);
    assert_eq!(storage.list_roles().len(), 1);
    storage.remove_role(role.id).expect("role should be removed");
    assert!(matches!(storage.get_role(role.id), Err(AppError::RoleNotFound)));
}

fn test_host(owner: Option<UserId>) -> StorageHostAdd {
    StorageHostAdd {
        owner,
        address: "192.168.1.2".to_owned(),
        http_port: 47989,
        pair_info: None,
        cache: StorageHostCache { name: "tower".to_owned(), mac: None },
    }
}

#[test]
fn users_see_their_hosts_and_those_of_everyone() {
    let mut storage = test_storage();
    let mine = storage.add_host(test_host(Some(UserId(1)))).expect("host should be added");
    let common = storage.add_host(test_host(None)).expect("host should be added");
    storage.add_host(test_host(Some(UserId(2)))).expect("host should be added");
    let mut seen: Vec<u32> = storage.list_user_hosts(UserId(1)).iter().map(|host| host.id.0).collect();
    seen.sort();
    let mut expected = vec![mine.id.0, common.id.0];
    expected.sort();
    assert_eq!(seen, expected);
}

#[test]
fn hosts_can_be_changed_and_removed() {
    let mut storage = test_storage();
    let host = storage.add_host(test_host(None)).expect("host should be added");
    let mac = MacAddress { bytes: [1, 2, 3, 4, 5, 6] };
    storage
        .modify_host(
            host.id,
            StorageHostModify {
                owner: None,
                address: Some("10.0.0.1".to_owned()),
                http_port: None,
                pair_info: None,
                cache_name: None,
                cache_mac: Some(Some(mac)),
            },
        )
        .expect("host should be changed");
    let changed = storage.get_host(host.id).expect("host should exist");
    assert_eq!(changed.address, "10.0.0.1");
    assert_eq!(changed.http_port, 47989);
    assert_eq!(changed.cache.mac, Some(mac));
    storage.remove_host(host.id).expect("host should be removed");
    assert!(matches!(storage.get_host(host.id), Err(AppError::HostNotFound)));
    assert!(matches!(storage.remove_host(HostId(host.id.0)), Err(AppError::HostNotFound)));
}

#[test]
fn expired_sessions_are_cleared() {
    let mut storage = test_storage();
    let user = add_test_user(&mut storage, RoleId(1));
    let short = storage
        .create_session_token(user.id, Duration::from_secs(10), now())
        .expect("session should be created");
    let long = storage
        .create_session_token(user.id, Duration::from_secs(100), now())
        .expect("session should be created");
    assert!(short != long);
    storage.clear_expired_sessions(now().after(Duration::from_secs(50)));
    assert!(storage.get_user_by_session_token(short).is_err());
    assert_eq!(
        storage.get_user_by_session_token(long).map(|(id, _)| id).ok(),
        Some(user.id)
    );
    storage.remove_session_token(long);
    assert!(storage.get_user_by_session_token(long).is_err());
}

#[test]
fn session_tokens_are_not_given_twice() {
    let mut storage = test_storage();
    let user = add_test_user(&mut storage, RoleId(1));
    let token = SessionToken { bytes: [7; 32] };
    let create = |storage: &mut JsonStorage, id| {
        storage.create_session_with_token(id, Duration::from_secs(10), token, now()).ok()
    };
    assert_eq!(create(&mut storage, user.id), Some(true));
    assert_eq!(create(&mut storage, user.id), Some(false));
    assert_eq!(create(&mut storage, UserId(user.id.0 ^ 1)), None);
    storage.remove_all_user_session_tokens(user.id);
    assert!(storage.sessions.is_empty());
}

#[test]
fn patch_sets_and_removes_entries() {
    let mut settings = Some(json(r#"{ "a": 1, "b": { "x": 1 } }"#));
    apply_top_level_settings_patch(&mut settings, Some(json(r#"{ "b": null, "c": [2] }"#)))
        .expect("patch should apply");
    assert_eq!(settings, Some(json(r#"{ "a": 1, "c": [2] }"#)));
    apply_top_level_settings_patch(&mut settings, None).expect("patch should apply");
    assert_eq!(settings, None);
    apply_top_level_settings_patch(&mut settings, Some(json(r#"{ "d": 4 }"#)))
        .expect("patch should apply");
    assert_eq!(settings, Some(json(r#"{ "d": 4 }"#)));
    assert!(matches!(
        apply_top_level_settings_patch(&mut settings, Some(json("3"))),
        Err(AppError::BadRequest)
    ));
    assert_eq!(settings, Some(json(r#"{ "d": 4 }"#)));
}

const CERTIFICATE: &str = "-----BEGIN CERTIFICATE-----\nAQID\n-----END CERTIFICATE-----\n";

fn legacy_pairing(client_certificate: &str) -> V1HostPairInfo {
    V1HostPairInfo {
        client_private_key: CERTIFICATE.to_owned(),
        client_certificate: client_certificate.to_owned(),
        server_certificate: CERTIFICATE.to_owned(),
    }
}

#[test]
fn certificates_are_read_from_their_text() {
    let pairing = migrate_certificates_v1_to_v2(legacy_pairing(CERTIFICATE)).unwrap();
    assert_eq!(pairing.client_certificate.contents(), [1, 2, 3]);
    assert_eq!(pairing.client_certificate.tag(), "CERTIFICATE");
    assert!(migrate_certificates_v1_to_v2(legacy_pairing("garbage")).is_none());
}

#[test]
fn oldest_data_is_brought_up_to_date() {
    let host = |address: &str, paired| V1Host {
        address: address.to_owned(),
        http_port: 47989,
        cache: V1HostCache { name: Some(format!("name of {address}")), mac: None },
        paired,
    };
    let hosts = vec![
        host("first", Some(legacy_pairing(CERTIFICATE))),
        host("second", Some(legacy_pairing("garbage"))),
    ];
    let v4 = migrate_to_latest(Json::V1(V1 { hosts }));
    assert!(v4.users.is_empty());
    assert_eq!(v4.hosts.len(), 2);
    let find = |address: &str| v4.hosts.values().find(|host| host.address == address).unwrap();
    assert!(find("first").pair_info.is_some());
    assert!(find("second").pair_info.is_none());
    assert_eq!(find("first").owner, None);
    assert_eq!(v4.roles.len(), 2);
    assert_eq!(v4.roles[&ADMIN_ID].ty, V3RoleType::Admin);
    assert_eq!(v4.roles[&USER_ID].ty, V3RoleType::User);
}

#[test]
fn roles_take_the_place_of_role_types() {
    let user = |role, name: &str| V2User {
        role,
        name: name.to_owned(),
        password: None,
        client_unique_id: String::new(),
    };
    let users = HashMap::from([(4, user(RoleType::Admin, "a")), (5, user(RoleType::User, "b"))]);
    let v4 = migrate_to_latest(Json::V2(V2 { users, hosts: HashMap::new() }));
    assert_eq!(v4.users[&4].role_id, ADMIN_ID);
    assert_eq!(v4.users[&5].role_id, USER_ID);
    assert_eq!(v4.users[&5].name, "b");
}

#[test]
fn old_passwords_were_hashed_with_a_fixed_count() {
    assert_eq!(default_legacy_iterations(), 150_000);
}

#[test]
fn stored_data_comes_back() {
    let mut storage = test_storage();
    let role = storage.add_role(test_role("players")).expect("role should be created");
    let user = add_named_test_user(&mut storage, role.id, "alice");
    let host = storage.add_host(test_host(Some(user.id))).expect("host should be added");
    storage
        .create_session_token(user.id, Duration::from_secs(60), now())
        .expect("session should be created");
    let again = reloaded(&storage);
    assert_eq!(again.get_user(user.id).expect("user should reload").name, "alice");
    assert_eq!(again.get_role(role.id).expect("role should reload").name, "players");
    assert_eq!(again.get_host(host.id).expect("host should reload").owner, Some(user.id));
    assert!(again.sessions.is_empty());
}

#[test]
fn file_is_replaced_in_one_step() {
    let (mut write, action) = AtomicWrite::begin();
    assert_eq!(action, WriteAction::Inspect);
    assert_eq!(
        write.advance_with(WriteEvent::Inspected { existing: None }, Ok(7)),
        WriteAction::OpenTemporary { number: 7 }
    );
    assert_eq!(
        write.advance_with(WriteEvent::NameTaken, Ok(8)),
        WriteAction::OpenTemporary { number: 8 }
    );
    assert_eq!(write.advance(WriteEvent::Opened), WriteAction::Write { mode: 0o600 });
    assert_eq!(write.advance(WriteEvent::Written), WriteAction::Replace);
    assert_eq!(write.advance(WriteEvent::Replaced), WriteAction::Succeed);
    assert_eq!(temporary_suffix(42), ".42.tmp");
}

#[test]
fn failed_replacement_removes_the_temporary_file() {
    let (mut write, _) = AtomicWrite::begin();
    assert!(matches!(
        write.advance(WriteEvent::Inspected { existing: Some(0o640) }),
        WriteAction::OpenTemporary { .. }
    ));
    assert_eq!(write.advance(WriteEvent::Opened), WriteAction::Write { mode: 0o640 });
    write.advance(WriteEvent::Written);
    assert_eq!(write.advance(WriteEvent::Failed), WriteAction::RemoveTemporary);
    assert_eq!(write.advance(WriteEvent::Removed), WriteAction::Fail(WriteFailure::Io));
    assert_eq!(write.advance(WriteEvent::Written), WriteAction::Ignore);
}

#[test]
fn temporary_names_run_out() {
    let (mut write, _) = AtomicWrite::begin();
    write.advance_with(WriteEvent::Inspected { existing: None }, Ok(0));
    for number in 1..16 {
        assert_eq!(
            write.advance_with(WriteEvent::NameTaken, Ok(number)),
            WriteAction::OpenTemporary { number }
        );
    }
    assert_eq!(
        write.advance(WriteEvent::NameTaken),
        WriteAction::Fail(WriteFailure::NoUniqueName)
    );
    let (mut write, _) = AtomicWrite::begin();
    assert_eq!(
        write.advance_with(WriteEvent::Inspected { existing: None }, Err(AppError::NoRandomness)),
        WriteAction::Fail(WriteFailure::NoRandomness)
    );
}

#[test]
fn what_was_added_is_read() {
    let mut storage = test_storage();
    let role = storage.add_role(test_role("Players")).expect("a role");
    let user = add_named_test_user(&mut storage, role.id, "ada");
    let read = storage.get_user(user.id).expect("the user");
    assert_eq!(read.name, "ada");
    assert_eq!(read.role_id, role.id);
    assert_eq!(read.settings, None);
    assert_eq!(read.settings_revision, 0);
    assert!(read.settings_mutation_ids.is_empty());

    let host = storage.add_host(test_host(Some(user.id))).expect("a host");
    let wanted = test_host(Some(user.id));
    let read = storage.get_host(host.id).expect("the host");
    assert_eq!(read.owner, wanted.owner);
    assert_eq!(read.address, wanted.address);
    assert_eq!(read.http_port, wanted.http_port);
    assert_eq!(read.cache.name, wanted.cache.name);
    assert_eq!(storage.get_role(role.id).expect("the role").name, "Players");
}

#[test]
fn drawn_bytes_are_read_from_the_highest() {
    assert!(matches!(number_from(Some([0x12, 0x34, 0x56, 0x78])), Ok(0x1234_5678)));
    assert!(matches!(number_from(Some([0, 0, 0, 1])), Ok(1)));
    assert!(matches!(number_from(Some([0xff; 4])), Ok(u32::MAX)));
    assert!(matches!(number_from(None), Err(AppError::NoRandomness)));
}

#[test]
fn replaced_file_keeps_its_mode() {
    assert_eq!(temporary_mode(Some(0o644)), 0o644);
    assert_eq!(temporary_mode(None), 0o600);
}

#[test]
fn taken_token_begins_no_session() {
    let mut storage = test_storage();
    let user = add_test_user(&mut storage, RoleId(1));
    let token = SessionToken { bytes: [5; 32] };
    let minute = Duration::from_secs(60);
    assert!(matches!(storage.create_session_with_token(user.id, minute, token, now()), Ok(true)));
    assert!(matches!(storage.create_session_with_token(user.id, minute, token, now()), Ok(false)));
    assert_eq!(storage.sessions.len(), 1);
}

#[test]
fn smallest_free_id_is_found() {
    let taken: HashMap<u32, ()> = [(0, ()), (1, ()), (3, ())].into_iter().collect();
    assert_eq!(first_free_id(&taken), Some(2));
    assert_eq!(first_free_id(&HashMap::<u32, ()>::new()), Some(0));
}

#[test]
fn free_token_keeps_what_was_drawn() {
    let mut storage = test_storage();
    let user = add_test_user(&mut storage, RoleId(1));
    let drawn = SessionToken { bytes: [9; 32] };
    let mut expected = [9; 32];
    expected[..8].copy_from_slice(&[0; 8]);
    for number in 0..3_u8 {
        expected[7] = number;
        let token = storage.free_token_like(drawn);
        assert_eq!(token.bytes, expected);
        let minute = Duration::from_secs(60);
        assert!(matches!(
            storage.create_session_with_token(user.id, minute, token, now()),
            Ok(true)
        ));
    }
}
