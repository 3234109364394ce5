//! A user's own settings.

use crate::errors::AppError;
use crate::outside::{json_entries, json_null};
use crate::storage::json::{
    is_role, same_permissions, settings_modified, JsonStorage, Stored,
};
use crate::storage::records::{
    StorageRole, StorageRolePermissions, StorageSettingsMutation, UserId,
};
use crate::storage::settings_patch::settings_entries;
use crate::storage::versions::{V3Role, V4User};
use crate::text::{blank, is_blank};
use serde_json::Value;
use vstd::prelude::*;

verus! {

/// The longest id of a change, in bytes.
pub const MAX_MUTATION_ID_BYTES: usize = 128;

#[derive(Debug)]
pub struct UserSettingsResponse {
    pub user_id: u32,
    pub settings: Option<Value>,
    pub revision: u64,
}

#[derive(Debug)]
pub struct PatchUserSettingsRequest {
    pub user_id: u32,
    pub settings: Value,
    pub mutation_id: String,
}

#[derive(Clone, Copy, Debug, PartialEq, Eq, Structural)]
pub struct PatchUserSettingsResponse {
    pub revision: u64,
    pub applied: bool,
}

/// The change that a request asks for: an object changes settings, `null`
/// clears them, and nothing else is allowed.
pub open spec fn requested_patch(settings: Value) -> Result<Option<Value>, AppError> {
    if json_null(settings) {
        Ok(None)
    } else if json_entries(settings) is Some {
        Ok(Some(settings))
    } else {
        Err(AppError::BadRequest)
    }
}

pub fn convert_user_settings(settings: Value) -> (patch: Result<Option<Value>, AppError>)
    ensures
        patch == requested_patch(settings),
{
    if settings.is_null() {
        Ok(None)
    } else if settings.is_object() {
        Ok(Some(settings))
    } else {
        Err(AppError::BadRequest)
    }
}

/// A request names the user that it is for, who must be the one who sent it.
pub fn verify_settings_owner(
    authenticated_user_id: u32,
    expected_user_id: u32,
) -> (verified: Result<(), AppError>)
    ensures
        verified == (if authenticated_user_id == expected_user_id {
            Ok(())
        } else {
            Err(AppError::Forbidden)
        }),
{
    if authenticated_user_id == expected_user_id {
        Ok(())
    } else {
        Err(AppError::Forbidden)
    }
}

/// An id that says something and is not too long.
pub open spec fn valid_mutation_id(id: Seq<char>) -> bool {
    !is_blank(id) && vstd::utf8::encode_utf8(id).len() <= MAX_MUTATION_ID_BYTES
}

pub fn validate_mutation_id(mutation_id: &str) -> (valid: Result<(), AppError>)
    ensures
        valid == (if valid_mutation_id(mutation_id@) {
            Ok(())
        } else {
            Err(AppError::BadRequest)
        }),
{
    let bytes: &[u8] = mutation_id.as_bytes();
    if blank(mutation_id) || bytes.len() > MAX_MUTATION_ID_BYTES {
        Err(AppError::BadRequest)
    } else {
        Ok(())
    }
}

/// The role of a user.
pub open spec fn role_of(storage: &JsonStorage, user_id: UserId) -> Result<V3Role, AppError> {
    if !storage.users@.contains_key(user_id.0) {
        Err(AppError::UserNotFound)
    } else if !storage.roles@.contains_key(storage.users@[user_id.0].role_id) {
        Err(AppError::RoleNotFound)
    } else {
        Ok(storage.roles@[storage.users@[user_id.0].role_id])
    }
}

fn find_role(storage: &JsonStorage, user_id: UserId) -> (found: Result<StorageRole, AppError>)
    ensures
        match role_of(storage, user_id) {
            Ok(stored) => found is Ok && is_role(
                storage.users@[user_id.0].role_id,
                stored,
                found->Ok_0,
            ),
            Err(error) => found == Err::<StorageRole, _>(error),
        },
{
    match storage.get_user(user_id) {
        Ok(user) => storage.get_role(user.role_id),
        Err(error) => Err(error),
    }
}

/// The settings that a user starts with, which are those of the role.
pub fn get_default_settings(storage: &JsonStorage, user_id: UserId) -> (settings: Result<
    Value,
    AppError,
>)
    ensures
        settings == match role_of(storage, user_id) {
            Ok(role) => Ok(role.default_settings),
            Err(error) => Err(error),
        },
{
    match find_role(storage, user_id) {
        Ok(role) => Ok(role.default_settings),
        Err(error) => Err(error),
    }
}

/// What a user may do, which is what the role may do.
pub fn get_permissions(storage: &JsonStorage, user_id: UserId) -> (permissions: Result<
    StorageRolePermissions,
    AppError,
>)
    ensures
        match role_of(storage, user_id) {
            Ok(role) => permissions is Ok && same_permissions(
                role.permissions,
                permissions->Ok_0,
            ),
            Err(error) => permissions == Err::<StorageRolePermissions, _>(error),
        },
{
    match find_role(storage, user_id) {
        Ok(role) => Ok(role.permissions),
        Err(error) => Err(error),
    }
}

/// The settings of a user.
pub fn get_user_settings(storage: &JsonStorage, user_id: UserId) -> (response: Result<
    UserSettingsResponse,
    AppError,
>)
    ensures
        match response {
            Ok(response) => {
                &&& storage.users@.contains_key(user_id.0)
                &&& response.user_id == user_id.0
                &&& response.settings == storage.users@[user_id.0].settings
                &&& response.revision == storage.users@[user_id.0].settings_revision
            },
            Err(error) => !storage.users@.contains_key(user_id.0) && error
                == AppError::UserNotFound,
        },
{
    match storage.get_user(user_id) {
        Ok(user) => Ok(
            UserSettingsResponse {
                user_id: user_id.0,
                settings: user.settings,
                revision: user.settings_revision,
            },
        ),
        Err(error) => Err(error),
    }
}

/// Why a request is turned away before the storage is asked.
pub open spec fn request_error(user_id: UserId, request: PatchUserSettingsRequest) -> Option<
    AppError,
> {
    if user_id.0 != request.user_id {
        Some(AppError::Forbidden)
    } else if !valid_mutation_id(request.mutation_id@) || requested_patch(request.settings) is Err {
        Some(AppError::BadRequest)
    } else {
        None
    }
}

/// Changes the settings of the user who asks.
pub fn patch_user_settings(
    storage: &mut JsonStorage,
    user_id: UserId,
    request: PatchUserSettingsRequest,
) -> (response: Result<PatchUserSettingsResponse, AppError>)
    ensures
        match request_error(user_id, request) {
            Some(error) => response == Err::<PatchUserSettingsResponse, _>(error) && final(storage)@ == old(storage)@,
            None => if !old(storage).users@.contains_key(user_id.0) {
                response == Err::<PatchUserSettingsResponse, _>(AppError::UserNotFound) && final(storage)@ == old(storage)@
            } else {
                &&& settings_modified(
                    old(storage).users@[user_id.0],
                    requested_patch(request.settings)->Ok_0,
                    request.mutation_id,
                    final(storage).users@[user_id.0],
                    as_mutation(response),
                )
                &&& final(storage)@ == (Stored {
                    users: old(storage)@.users.insert(
                        user_id.0,
                        final(storage).users@[user_id.0],
                    ),
                    write_due: response is Ok || old(storage).write_due,
                    ..old(storage)@
                })
            },
        },
{
    match verify_settings_owner(user_id.0, request.user_id) {
        Ok(()) => {},
        Err(error) => {
            return Err(error);
        },
    }
    match validate_mutation_id(request.mutation_id.as_str()) {
        Ok(()) => {},
        Err(error) => {
            return Err(error);
        },
    }
    let patch: Option<Value> = match convert_user_settings(request.settings) {
        Ok(patch) => patch,
        Err(error) => {
            return Err(error);
        },
    };
    match storage.modify_user_settings(user_id, patch, request.mutation_id) {
        Ok(result) => Ok(
            PatchUserSettingsResponse { revision: result.revision, applied: result.applied },
        ),
        Err(error) => Err(error),
    }
}

/// The answer of the storage that a response stands for.
pub open spec fn as_mutation(response: Result<PatchUserSettingsResponse, AppError>) -> Result<
    StorageSettingsMutation,
    AppError,
> {
    match response {
        Ok(response) => Ok(
            StorageSettingsMutation { revision: response.revision, applied: response.applied },
        ),
        Err(error) => Err(error),
    }
}

/// Nobody changes the settings of another.
pub proof fn law_settings_belong_to_their_user(user_id: UserId, request: PatchUserSettingsRequest)
    requires
        request.user_id != user_id.0,
    ensures
        request_error(user_id, request) == Some(AppError::Forbidden),
{
}

/// A change that was made is what the user reads next: every entry that it names
/// has its value or is gone, every other entry is as before, and the revision is
/// the one of the answer.
pub proof fn law_changed_settings_are_read_back(
    before: V4User,
    settings: Value,
    mutation_id: String,
    after: V4User,
    response: PatchUserSettingsResponse,
    key: Seq<char>,
)
    requires
        requested_patch(settings) is Ok,
        settings_modified(
            before,
            requested_patch(settings)->Ok_0,
            mutation_id,
            after,
            as_mutation(Ok(response)),
        ),
    ensures
        after.settings_revision == response.revision,
        !response.applied ==> after == before,
        response.applied ==> response.revision == before.settings_revision + 1,
        response.applied && json_null(settings) ==> after.settings is None,
        response.applied && !json_null(settings) ==> {
            let named = json_entries(settings)->0;
            let earlier = settings_entries(before.settings);
            let read = json_entries(after.settings->0)->0;
            &&& after.settings is Some
            &&& json_entries(after.settings->0) is Some
            &&& named.contains_key(key) && json_null(named[key]) ==> !read.contains_key(key)
            &&& named.contains_key(key) && !json_null(named[key]) ==> read.contains_key(key)
                && read[key] == named[key]
            &&& !named.contains_key(key) ==> read.contains_key(key) == earlier.contains_key(key)
            &&& !named.contains_key(key) && earlier.contains_key(key) ==> read[key] == earlier[key]
        },
{
}

/// A request to change settings is taken when it comes from the user it names, carries
/// an identifier that is not blank and at most 128 bytes long, and holds an object or
/// null. Another user is refused before anything else is looked at.
pub proof fn law_which_changes_are_taken(user_id: UserId, request: PatchUserSettingsRequest)
    ensures
        ({
            let identified = (exists|i: int|
                0 <= i < request.mutation_id@.len() && !crate::text::is_white_space(
                    #[trigger] request.mutation_id@[i],
                )) && vstd::utf8::encode_utf8(request.mutation_id@).len() <= 128;
            let fit = json_null(request.settings) || json_entries(request.settings) is Some;
            &&& request_error(user_id, request) is None <==> user_id.0 == request.user_id
                && identified && fit
            &&& request_error(user_id, request) == Some(AppError::Forbidden) <==> user_id.0
                != request.user_id
            &&& user_id.0 == request.user_id && (!identified || !fit) ==> request_error(
                user_id,
                request,
            ) == Some(AppError::BadRequest)
        }),
{
}

/// Null takes all settings back, an object changes what it names, and nothing else is a
/// change.
pub proof fn law_what_a_change_is(settings: Value)
    ensures
        json_null(settings) ==> requested_patch(settings) == Ok::<Option<Value>, AppError>(None),
        !json_null(settings) && json_entries(settings) is Some ==> requested_patch(settings) == Ok::<
            Option<Value>,
            AppError,
        >(Some(settings)),
        requested_patch(settings) is Err <==> !json_null(settings) && json_entries(settings)
            is None,
{
}

/// The role of a user is the one that their record names; an unknown user and an
/// unknown role are told apart.
pub proof fn law_whose_role_it_is(storage: &JsonStorage, user_id: UserId)
    ensures
        ({
            let known = storage.users@.contains_key(user_id.0);
            let role_id = storage.users@[user_id.0].role_id;
            let named = storage.roles@.contains_key(role_id);
            &&& role_of(storage, user_id) == Err::<V3Role, AppError>(AppError::UserNotFound)
                <==> !known
            &&& known && !named ==> role_of(storage, user_id) == Err::<V3Role, AppError>(
                AppError::RoleNotFound,
            )
            &&& known && named ==> role_of(storage, user_id) == Ok::<V3Role, AppError>(
                storage.roles@[role_id],
            )
        }),
{
}

/// A user reads their own settings with their revision, the rights of their role and the
/// settings that it gives by default.
pub proof fn law_what_a_user_reads(
    storage: &JsonStorage,
    user_id: UserId,
    response: Result<UserSettingsResponse, AppError>,
    permissions: Result<StorageRolePermissions, AppError>,
    defaults: Result<Value, AppError>,
    verified: Result<(), AppError>,
    other: u32,
)
    requires
        call_ensures(get_user_settings, (storage, user_id), response),
        call_ensures(get_permissions, (storage, user_id), permissions),
        call_ensures(get_default_settings, (storage, user_id), defaults),
        call_ensures(verify_settings_owner, (user_id.0, other), verified),
    ensures
        ({
            let known = storage.users@.contains_key(user_id.0);
            let user = storage.users@[user_id.0];
            let role = storage.roles@[user.role_id];
            let named = storage.roles@.contains_key(user.role_id);
            &&& response is Ok <==> known
            &&& known ==> response->Ok_0.user_id == user_id.0 && response->Ok_0.settings
                == user.settings && response->Ok_0.revision == user.settings_revision
            &&& !known ==> response->Err_0 is UserNotFound
            &&& permissions is Ok <==> known && named
            &&& defaults is Ok <==> known && named
            &&& defaults is Ok ==> defaults->Ok_0 == role.default_settings
            &&& permissions is Ok ==> permissions->Ok_0.allow_hdr == role.permissions.allow_hdr
                && permissions->Ok_0.allow_add_hosts == role.permissions.allow_add_hosts
                && permissions->Ok_0.maximum_bitrate_kbps == role.permissions.maximum_bitrate_kbps
            &&& verified is Ok <==> other == user_id.0
            &&& verified is Err ==> verified->Err_0 is Forbidden
        }),
{
}

/// A change of settings by the user themselves is made in their record alone, is written
/// and answered with its revision. A refused one changes nothing.
pub proof fn law_change_is_made_in_one_record(
    storage: &mut JsonStorage,
    user_id: UserId,
    request: PatchUserSettingsRequest,
    response: Result<PatchUserSettingsResponse, AppError>,
)
    requires
        call_ensures(patch_user_settings, (storage, user_id, request), response),
    ensures
        request.user_id != user_id.0 ==> response == Err::<PatchUserSettingsResponse, _>(
            AppError::Forbidden,
        ),
        request_error(user_id, request) is Some ==> response is Err && final(storage)@ == old(
            storage,
        )@,
        request_error(user_id, request) is None && !old(storage)@.users.contains_key(user_id.0)
            ==> response == Err::<PatchUserSettingsResponse, _>(AppError::UserNotFound),
        response is Ok ==> {
            &&& final(storage).write_due
            &&& final(storage)@.users[user_id.0].settings_revision == response->Ok_0.revision
            &&& final(storage)@.users.remove(user_id.0) == old(storage)@.users.remove(user_id.0)
            &&& final(storage)@.hosts == old(storage)@.hosts && final(storage)@.roles == old(
                storage,
            )@.roles && final(storage)@.sessions == old(storage)@.sessions
        },
{
    assert(response is Ok ==> final(storage)@.users.remove(user_id.0) =~= old(
        storage,
    )@.users.remove(user_id.0));
}

} // verus!
