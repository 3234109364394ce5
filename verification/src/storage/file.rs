//! The storage file: what goes into it, and how it is replaced in one step.

use crate::errors::AppError;
use crate::storage::json::{random_number, JsonStorage, Stored};
use crate::storage::versions::{
    is_latest, keys_of, Json, V2Host, V2HostCache, V2HostPairInfo, V3Role, V4User, V4,
};
use crate::text::{decimal, decimal_digits};
use std::collections::HashMap;
use vstd::prelude::*;

verus! {

broadcast use vstd::std_specs::hash::group_hash_axioms;

/// How many names are tried for the temporary file.
pub const TEMPORARY_NAME_ATTEMPTS: u8 = 16;

/// Two records of a user with the same contents.
pub open spec fn same_user(a: V4User, b: V4User) -> bool {
    &&& a.role_id == b.role_id
    &&& a.name == b.name
    &&& a.password == b.password
    &&& a.client_unique_id == b.client_unique_id
    &&& a.settings == b.settings
    &&& a.settings_revision == b.settings_revision
    &&& a.settings_mutation_ids@ == b.settings_mutation_ids@
}

fn copy_user(user: &V4User) -> (copy: V4User)
    ensures
        same_user(*user, copy),
{
    let settings_mutation_ids: Vec<String> = user.settings_mutation_ids.clone();
    assert(settings_mutation_ids@ =~= user.settings_mutation_ids@);
    V4User {
        role_id: user.role_id,
        name: user.name.clone(),
        password: user.password,
        client_unique_id: user.client_unique_id.clone(),
        settings: match &user.settings {
            Some(value) => Some(value.clone()),
            None => None,
        },
        settings_revision: user.settings_revision,
        settings_mutation_ids,
    }
}

fn copy_host(host: &V2Host) -> (copy: V2Host)
    ensures
        copy == *host,
{
    V2Host {
        owner: host.owner,
        address: host.address.clone(),
        http_port: host.http_port,
        pair_info: match &host.pair_info {
            Some(pairing) => Some(
                V2HostPairInfo {
                    client_private_key: pairing.client_private_key.clone(),
                    client_certificate: pairing.client_certificate.clone(),
                    server_certificate: pairing.server_certificate.clone(),
                },
            ),
            None => None,
        },
        cache: V2HostCache { name: host.cache.name.clone(), mac: host.cache.mac },
    }
}

fn copy_role(role: &V3Role) -> (copy: V3Role)
    ensures
        copy == *role,
{
    V3Role {
        name: role.name.clone(),
        ty: role.ty,
        default_settings: role.default_settings.clone(),
        permissions: role.permissions,
    }
}

fn copy_users(users: &HashMap<u32, V4User>) -> (copy: HashMap<u32, V4User>)
    ensures
        copy@.dom() == users@.dom(),
        forall|id: u32| #[trigger] users@.contains_key(id) ==> same_user(users@[id], copy@[id]),
{
    let keys: Vec<u32> = keys_of(users);
    let mut copy: HashMap<u32, V4User> = HashMap::new();
    let mut i: usize = 0;
    while i < keys.len()
        invariant
            i <= keys@.len(),
            forall|id: u32| #[trigger] users@.contains_key(id) <==> keys@.contains(id),
            forall|id: u32| #[trigger]
                copy@.contains_key(id) <==> exists|k: int| 0 <= k < i && #[trigger] keys@[k] == id,
            forall|id: u32| #[trigger] copy@.contains_key(id) ==> same_user(users@[id], copy@[id]),
        decreases keys@.len() - i,
    {
        let id: u32 = keys[i];
        assert(users@.contains_key(id));
        let ghost before = copy@;
        if let Some(user) = users.get(&id) {
            copy.insert(id, copy_user(user));
        }
        assert forall|key: u32| #[trigger]
            copy@.contains_key(key) <==> exists|k: int|
                0 <= k < i + 1 && #[trigger] keys@[k] == key by {
            if before.contains_key(key) {
                let k = choose|k: int| 0 <= k < i && #[trigger] keys@[k] == key;
                assert(keys@[k] == key);
            }
            if key == id {
                assert(keys@[i as int] == key);
            }
        }
        i = i + 1;
    }
    assert forall|id: u32| #[trigger] users@.contains_key(id) implies copy@.contains_key(id) by {
        let k = keys@.index_of(id);
        assert(keys@[k] == id);
    }
    assert(copy@.dom() =~= users@.dom());
    copy
}

fn copy_hosts(hosts: &HashMap<u32, V2Host>) -> (copy: HashMap<u32, V2Host>)
    ensures
        copy@ == hosts@,
{
    let keys: Vec<u32> = keys_of(hosts);
    let mut copy: HashMap<u32, V2Host> = HashMap::new();
    let mut i: usize = 0;
    while i < keys.len()
        invariant
            i <= keys@.len(),
            forall|id: u32| #[trigger] hosts@.contains_key(id) <==> keys@.contains(id),
            forall|id: u32| #[trigger]
                copy@.contains_key(id) <==> exists|k: int| 0 <= k < i && #[trigger] keys@[k] == id,
            forall|id: u32| #[trigger] copy@.contains_key(id) ==> hosts@[id] == copy@[id],
        decreases keys@.len() - i,
    {
        let id: u32 = keys[i];
        assert(hosts@.contains_key(id));
        let ghost before = copy@;
        if let Some(host) = hosts.get(&id) {
            copy.insert(id, copy_host(host));
        }
        assert forall|key: u32| #[trigger]
            copy@.contains_key(key) <==> exists|k: int|
                0 <= k < i + 1 && #[trigger] keys@[k] == key by {
            if before.contains_key(key) {
                let k = choose|k: int| 0 <= k < i && #[trigger] keys@[k] == key;
                assert(keys@[k] == key);
            }
            if key == id {
                assert(keys@[i as int] == key);
            }
        }
        i = i + 1;
    }
    assert forall|id: u32| #[trigger] hosts@.contains_key(id) implies copy@.contains_key(id) by {
        let k = keys@.index_of(id);
        assert(keys@[k] == id);
    }
    assert(copy@ =~= hosts@);
    copy
}

fn copy_roles(roles: &HashMap<u32, V3Role>) -> (copy: HashMap<u32, V3Role>)
    ensures
        copy@ == roles@,
{
    let keys: Vec<u32> = keys_of(roles);
    let mut copy: HashMap<u32, V3Role> = HashMap::new();
    let mut i: usize = 0;
    while i < keys.len()
        invariant
            i <= keys@.len(),
            forall|id: u32| #[trigger] roles@.contains_key(id) <==> keys@.contains(id),
            forall|id: u32| #[trigger]
                copy@.contains_key(id) <==> exists|k: int| 0 <= k < i && #[trigger] keys@[k] == id,
            forall|id: u32| #[trigger] copy@.contains_key(id) ==> roles@[id] == copy@[id],
        decreases keys@.len() - i,
    {
        let id: u32 = keys[i];
        assert(roles@.contains_key(id));
        let ghost before = copy@;
        if let Some(role) = roles.get(&id) {
            copy.insert(id, copy_role(role));
        }
        assert forall|key: u32| #[trigger]
            copy@.contains_key(key) <==> exists|k: int|
                0 <= k < i + 1 && #[trigger] keys@[k] == key by {
            if before.contains_key(key) {
                let k = choose|k: int| 0 <= k < i && #[trigger] keys@[k] == key;
                assert(keys@[k] == key);
            }
            if key == id {
                assert(keys@[i as int] == key);
            }
        }
        i = i + 1;
    }
    assert forall|id: u32| #[trigger] roles@.contains_key(id) implies copy@.contains_key(id) by {
        let k = keys@.index_of(id);
        assert(keys@[k] == id);
    }
    assert(copy@ =~= roles@);
    copy
}

/// The same users, each with the same contents.
pub open spec fn same_users(a: Map<u32, V4User>, b: Map<u32, V4User>) -> bool {
    &&& a.dom() == b.dom()
    &&& forall|id: u32| #[trigger] a.contains_key(id) ==> same_user(a[id], b[id])
}

/// A file of the latest version with the contents of the storage. Sessions do
/// not outlive the process.
pub open spec fn is_file_of(stored: Stored, json: Json) -> bool {
    json matches Json::V4(file) && same_users(stored.users, file.users@) && file.hosts@
        == stored.hosts && file.roles@ == stored.roles
}

/// What goes into the file.
pub fn store(storage: &JsonStorage) -> (json: Json)
    ensures
        is_file_of(storage@, json),
{
    Json::V4(
        V4 {
            users: copy_users(&storage.users),
            hosts: copy_hosts(&storage.hosts),
            roles: copy_roles(&storage.roles),
        },
    )
}

/// The end of a temporary name, behind the name of the file and a dot in front.
pub fn temporary_suffix(number: u32) -> (suffix: String)
    ensures
        suffix@ == "."@ + decimal_digits(number as nat) + ".tmp"@,
{
    let mut suffix: String = ".".to_owned();
    suffix.append(decimal(number as u64).as_str());
    suffix.append(".tmp");
    suffix
}

/// The mode of a file that only its owner can read and write.
pub const PRIVATE_MODE: u32 = 0o600;

/// The mode of the file after it was replaced: the one it had, or a private one
/// where there was no file.
pub open spec fn replaced_mode(existing: Option<u32>) -> u32 {
    match existing {
        Some(mode) => mode,
        None => PRIVATE_MODE,
    }
}

/// The mode that the temporary file gets before anything is written to it.
pub fn temporary_mode(existing: Option<u32>) -> (mode: u32)
    ensures
        mode == replaced_mode(existing),
{
    match existing {
        Some(mode) => mode,
        None => PRIVATE_MODE,
    }
}

/// Where the replacement of the file stands.
#[derive(Clone, Copy, Debug, PartialEq, Eq, Structural)]
pub enum WriteStep {
    /// Looks for the mode of the file.
    Inspecting,
    /// Opens a temporary file that was not there before.
    Opening { attempts: u8, mode: u32 },
    /// Gives the temporary file its mode and writes the contents into it, down to
    /// the disk.
    Writing { mode: u32 },
    /// Moves the temporary file into its place.
    Replacing,
    /// Removes the temporary file.
    Removing,
    Finished,
}

/// What came of the last action.
#[derive(Clone, Copy, Debug, PartialEq, Eq, Structural)]
pub enum WriteEvent {
    /// The file is there and has this mode, or there is none yet.
    Inspected { existing: Option<u32> },
    /// The temporary file was opened.
    Opened,
    /// There is a file with that name already.
    NameTaken,
    Written,
    Replaced,
    /// The temporary file was removed.
    Removed,
    Failed,
}

/// Why the file was not replaced.
#[derive(Clone, Copy, Debug, PartialEq, Eq, Structural)]
pub enum WriteFailure {
    Io,
    NoRandomness,
    /// Every name that was tried is taken.
    NoUniqueName,
}

#[derive(Clone, Copy, Debug, PartialEq, Eq, Structural)]
pub enum WriteAction {
    Inspect,
    /// Open a temporary file with this number in its name.
    OpenTemporary { number: u32 },
    /// Give the temporary file this mode, and write the contents into it.
    Write { mode: u32 },
    Replace,
    RemoveTemporary,
    Succeed,
    Fail(WriteFailure),
    /// The event does not belong to this step.
    Ignore,
}

/// The replacement of the file. The contents go into a temporary file, which
/// then takes the place of the file.
#[derive(Clone, Copy, Debug, PartialEq, Eq, Structural)]
pub struct AtomicWrite {
    pub step: WriteStep,
}

/// What follows from an event. `drawn` is the random number for a name, or its
/// absence.
pub open spec fn write_transition(
    step: WriteStep,
    event: WriteEvent,
    drawn: Result<u32, AppError>,
) -> (WriteStep, WriteAction) {
    match (step, event) {
        (WriteStep::Inspecting, WriteEvent::Inspected { existing }) => open_next(
            0,
            replaced_mode(existing),
            drawn,
        ),
        (WriteStep::Opening { attempts, mode }, WriteEvent::NameTaken) => if attempts
            >= TEMPORARY_NAME_ATTEMPTS {
            (WriteStep::Finished, WriteAction::Fail(WriteFailure::NoUniqueName))
        } else {
            open_next(attempts, mode, drawn)
        },
        (WriteStep::Opening { mode, .. }, WriteEvent::Opened) => (
            WriteStep::Writing { mode },
            WriteAction::Write { mode },
        ),
        (WriteStep::Inspecting, WriteEvent::Failed) | (
            WriteStep::Opening { .. },
            WriteEvent::Failed,
        ) => (WriteStep::Finished, WriteAction::Fail(WriteFailure::Io)),
        (WriteStep::Writing { .. }, WriteEvent::Written) => (
            WriteStep::Replacing,
            WriteAction::Replace,
        ),
        (WriteStep::Replacing, WriteEvent::Replaced) => (
            WriteStep::Finished,
            WriteAction::Succeed,
        ),
        (WriteStep::Writing { .. }, WriteEvent::Failed) | (
            WriteStep::Replacing,
            WriteEvent::Failed,
        ) => (WriteStep::Removing, WriteAction::RemoveTemporary),
        (WriteStep::Removing, WriteEvent::Removed) => (
            WriteStep::Finished,
            WriteAction::Fail(WriteFailure::Io),
        ),
        _ => (step, WriteAction::Ignore),
    }
}

/// The next name, after so many that were taken.
pub open spec fn open_next(attempts: u8, mode: u32, drawn: Result<u32, AppError>) -> (
    WriteStep,
    WriteAction,
) {
    match drawn {
        Ok(number) => (
            WriteStep::Opening { attempts: (attempts + 1) as u8, mode },
            WriteAction::OpenTemporary { number },
        ),
        Err(_) => (WriteStep::Finished, WriteAction::Fail(WriteFailure::NoRandomness)),
    }
}

/// Whether an event leads to a new name.
pub open spec fn draws_number(step: WriteStep, event: WriteEvent) -> bool {
    match (step, event) {
        (WriteStep::Inspecting, WriteEvent::Inspected { .. }) => true,
        (WriteStep::Opening { attempts, .. }, WriteEvent::NameTaken) => attempts
            < TEMPORARY_NAME_ATTEMPTS,
        _ => false,
    }
}

impl AtomicWrite {
    pub fn begin() -> (begun: (Self, WriteAction))
        ensures
            begun.0.step is Inspecting,
            begun.1 is Inspect,
    {
        (AtomicWrite { step: WriteStep::Inspecting }, WriteAction::Inspect)
    }

    /// Whether a new name is needed after this event.
    pub fn needs_number(&self, event: WriteEvent) -> (needs: bool)
        ensures
            needs == draws_number(self.step, event),
    {
        match (self.step, event) {
            (WriteStep::Inspecting, WriteEvent::Inspected { .. }) => true,
            (WriteStep::Opening { attempts, .. }, WriteEvent::NameTaken) => attempts
                < TEMPORARY_NAME_ATTEMPTS,
            _ => false,
        }
    }

    /// Goes on with a number for a name.
    pub fn advance_with(&mut self, event: WriteEvent, drawn: Result<u32, AppError>) -> (action:
        WriteAction)
        ensures
            (final(self).step, action) == write_transition(old(self).step, event, drawn),
    {
        let (step, action): (WriteStep, WriteAction) = match (self.step, event) {
            (WriteStep::Inspecting, WriteEvent::Inspected { existing }) => match drawn {
                Ok(number) => (
                    WriteStep::Opening { attempts: 1, mode: temporary_mode(existing) },
                    WriteAction::OpenTemporary { number },
                ),
                Err(_) => (
                    WriteStep::Finished,
                    WriteAction::Fail(WriteFailure::NoRandomness),
                ),
            },
            (WriteStep::Opening { attempts, mode }, WriteEvent::NameTaken) => if attempts
                >= TEMPORARY_NAME_ATTEMPTS {
                (WriteStep::Finished, WriteAction::Fail(WriteFailure::NoUniqueName))
            } else {
                match drawn {
                    Ok(number) => (
                        WriteStep::Opening { attempts: attempts + 1, mode },
                        WriteAction::OpenTemporary { number },
                    ),
                    Err(_) => (
                        WriteStep::Finished,
                        WriteAction::Fail(WriteFailure::NoRandomness),
                    ),
                }
            },
            (WriteStep::Opening { mode, .. }, WriteEvent::Opened) => (
                WriteStep::Writing { mode },
                WriteAction::Write { mode },
            ),
            (WriteStep::Inspecting, WriteEvent::Failed) | (
                WriteStep::Opening { .. },
                WriteEvent::Failed,
            ) => (WriteStep::Finished, WriteAction::Fail(WriteFailure::Io)),
            (WriteStep::Writing { .. }, WriteEvent::Written) => (
                WriteStep::Replacing,
                WriteAction::Replace,
            ),
            (WriteStep::Replacing, WriteEvent::Replaced) => (
                WriteStep::Finished,
                WriteAction::Succeed,
            ),
            (WriteStep::Writing { .. }, WriteEvent::Failed) | (
                WriteStep::Replacing,
                WriteEvent::Failed,
            ) => (WriteStep::Removing, WriteAction::RemoveTemporary),
            (WriteStep::Removing, WriteEvent::Removed) => (
                WriteStep::Finished,
                WriteAction::Fail(WriteFailure::Io),
            ),
            _ => (self.step, WriteAction::Ignore),
        };
        self.step = step;
        action
    }

    /// Goes on. A new name gets a random number.
    pub fn advance(&mut self, event: WriteEvent) -> (action: WriteAction)
        ensures
            exists|drawn: Result<u32, AppError>|
                (final(self).step, action) == #[trigger] write_transition(
                    old(self).step,
                    event,
                    drawn,
                ),
            !draws_number(old(self).step, event) ==> forall|drawn: Result<u32, AppError>|
                (final(self).step, action) == #[trigger] write_transition(
                    old(self).step,
                    event,
                    drawn,
                ),
    {
        let drawn: Result<u32, AppError> = if self.needs_number(event) {
            random_number()
        } else {
            Ok(0)
        };
        self.advance_with(event, drawn)
    }
}

/// A file: what it holds, and its mode.
pub struct FileEntry {
    pub bytes: Seq<u8>,
    pub mode: u32,
}

/// What is to be replaced, and by which contents.
pub struct Replacement {
    pub destination: Seq<char>,
    pub contents: Seq<u8>,
}

/// All files by their paths, and the path of the temporary file that was opened last.
#[verifier::ext_equal]
pub struct Disk {
    pub files: Map<Seq<char>, FileEntry>,
    pub temporary: Seq<char>,
}

/// What came of an action on the disk.
pub struct Outcome {
    pub event: WriteEvent,
    /// The random number that is drawn for the next name.
    pub drawn: Result<u32, AppError>,
    /// The path of a temporary file that was opened.
    pub path: Seq<char>,
    /// What a write that failed left in the temporary file.
    pub part: FileEntry,
    /// Whether a replacement that failed had already moved the file.
    pub moved: bool,
}

pub open spec fn mode_on(
    files: Map<Seq<char>, FileEntry>,
    path: Seq<char>,
) -> Option<u32> {
    if files.contains_key(path) {
        Some(files[path].mode)
    } else {
        None
    }
}

/// An outcome that the disk can have: the mode is that of the file, and a
/// temporary file is opened only where no file was.
pub open spec fn can_happen(
    disk: Disk,
    job: Replacement,
    step: WriteStep,
    outcome: Outcome,
) -> bool {
    match (step, outcome.event) {
        (WriteStep::Inspecting, WriteEvent::Inspected { existing }) => existing == mode_on(
            disk.files,
            job.destination,
        ),
        (WriteStep::Opening { .. }, WriteEvent::Opened) => !disk.files.contains_key(outcome.path)
            && outcome.path != job.destination,
        _ => true,
    }
}

/// The disk with the temporary file moved into its place.
pub open spec fn moved_into_place(disk: Disk, job: Replacement) -> Disk {
    Disk {
        files: disk.files.remove(disk.temporary).insert(
            job.destination,
            disk.files[disk.temporary],
        ),
        ..disk
    }
}

/// The disk after an outcome.
pub open spec fn disk_after(
    disk: Disk,
    job: Replacement,
    step: WriteStep,
    outcome: Outcome,
) -> Disk {
    match (step, outcome.event) {
        (WriteStep::Opening { .. }, WriteEvent::Opened) => Disk {
            files: disk.files.insert(
                outcome.path,
                FileEntry { bytes: Seq::empty(), mode: PRIVATE_MODE },
            ),
            temporary: outcome.path,
        },
        (WriteStep::Writing { mode }, WriteEvent::Written) => Disk {
            files: disk.files.insert(disk.temporary, FileEntry { bytes: job.contents, mode }),
            ..disk
        },
        (WriteStep::Writing { .. }, WriteEvent::Failed) => Disk {
            files: disk.files.insert(disk.temporary, outcome.part),
            ..disk
        },
        (WriteStep::Replacing, WriteEvent::Replaced) => moved_into_place(disk, job),
        (WriteStep::Replacing, WriteEvent::Failed) => if outcome.moved {
            moved_into_place(disk, job)
        } else {
            disk
        },
        (WriteStep::Removing, WriteEvent::Removed) => Disk {
            files: disk.files.remove(disk.temporary),
            ..disk
        },
        _ => disk,
    }
}

/// The files `before` with the destination replaced: it holds exactly the
/// contents, in the mode that it had, or a private one where it is new.
pub open spec fn files_replaced(before: Map<Seq<char>, FileEntry>, job: Replacement) -> Map<
    Seq<char>,
    FileEntry,
> {
    before.insert(
        job.destination,
        FileEntry {
            bytes: job.contents,
            mode: replaced_mode(mode_on(before, job.destination)),
        },
    )
}

/// Whether the files at a path are the same, or there is none in either.
pub open spec fn same_at(
    a: Map<Seq<char>, FileEntry>,
    b: Map<Seq<char>, FileEntry>,
    path: Seq<char>,
) -> bool {
    a.contains_key(path) == b.contains_key(path) && (a.contains_key(path) ==> a[path] == b[path])
}

/// What holds of the disk at each step, if its files were `before`.
pub open spec fn disk_matches(
    before: Map<Seq<char>, FileEntry>,
    disk: Disk,
    job: Replacement,
    step: WriteStep,
) -> bool {
    let wanted = replaced_mode(mode_on(before, job.destination));
    let temporary_is_new = !before.contains_key(disk.temporary) && disk.temporary
        != job.destination;
    match step {
        WriteStep::Inspecting => disk.files == before,
        WriteStep::Opening { mode, .. } => disk.files == before && mode == wanted,
        WriteStep::Writing { mode } => mode == wanted && temporary_is_new
            && disk.files.contains_key(disk.temporary) && disk.files.remove(disk.temporary)
            == before,
        WriteStep::Replacing => temporary_is_new && disk.files == before.insert(
            disk.temporary,
            FileEntry { bytes: job.contents, mode: wanted },
        ),
        WriteStep::Removing => temporary_is_new && (disk.files.remove(disk.temporary) == before
            || disk.files.remove(disk.temporary) == files_replaced(before, job)),
        WriteStep::Finished => disk.files == before || disk.files == files_replaced(before, job),
    }
}

proof fn lemma_disk_keeps_matching(
    before: Map<Seq<char>, FileEntry>,
    disk: Disk,
    job: Replacement,
    step: WriteStep,
    outcome: Outcome,
)
    requires
        disk_matches(before, disk, job, step),
        can_happen(disk, job, step, outcome),
    ensures
        ({
            let (next, action) = write_transition(step, outcome.event, outcome.drawn);
            let after = disk_after(disk, job, step, outcome);
            &&& disk_matches(before, after, job, next)
            &&& action is Succeed ==> after.files == files_replaced(before, job)
            &&& action is Fail ==> next is Finished
        }),
{
    let after = disk_after(disk, job, step, outcome);
    match (step, outcome.event) {
        (WriteStep::Opening { .. }, WriteEvent::Opened) => {
            assert(after.files.remove(after.temporary) =~= before);
        },
        (WriteStep::Writing { mode }, WriteEvent::Written) => {
            assert(after.files =~= before.insert(
                disk.temporary,
                FileEntry { bytes: job.contents, mode },
            ));
        },
        (WriteStep::Writing { .. }, WriteEvent::Failed) => {
            assert(after.files.remove(after.temporary) =~= before);
        },
        (WriteStep::Replacing, WriteEvent::Replaced) | (WriteStep::Replacing, WriteEvent::Failed) => {
            assert(moved_into_place(disk, job).files =~= files_replaced(before, job));
            assert(files_replaced(before, job).remove(disk.temporary) =~= files_replaced(
                before,
                job,
            ));
            assert(disk.files.remove(disk.temporary) =~= before);
        },
        _ => {},
    }
}

/// How far a replacement has come.
pub struct WriteRun {
    pub step: WriteStep,
    pub disk: Disk,
    pub action: WriteAction,
}

/// A replacement after outcomes, one behind the other.
pub open spec fn write_run(disk: Disk, job: Replacement, outcomes: Seq<Outcome>) -> WriteRun
    decreases outcomes.len(),
{
    if outcomes.len() == 0 {
        WriteRun { step: WriteStep::Inspecting, disk, action: WriteAction::Inspect }
    } else {
        let run = write_run(disk, job, outcomes.drop_last());
        let outcome = outcomes.last();
        let (step, action) = write_transition(run.step, outcome.event, outcome.drawn);
        WriteRun { step, disk: disk_after(run.disk, job, run.step, outcome), action }
    }
}

/// Outcomes each of which can happen after those before it.
pub open spec fn run_can_happen(disk: Disk, job: Replacement, outcomes: Seq<Outcome>) -> bool
    decreases outcomes.len(),
{
    outcomes.len() == 0 || {
        let run = write_run(disk, job, outcomes.drop_last());
        run_can_happen(disk, job, outcomes.drop_last()) && can_happen(
            run.disk,
            job,
            run.step,
            outcomes.last(),
        )
    }
}

proof fn lemma_run_keeps_matching(disk: Disk, job: Replacement, outcomes: Seq<Outcome>)
    requires
        run_can_happen(disk, job, outcomes),
    ensures
        ({
            let run = write_run(disk, job, outcomes);
            &&& disk_matches(disk.files, run.disk, job, run.step)
            &&& run.action is Succeed ==> run.disk.files == files_replaced(disk.files, job)
            &&& run.action is Fail ==> run.step is Finished
        }),
    decreases outcomes.len(),
{
    if outcomes.len() > 0 {
        let run = write_run(disk, job, outcomes.drop_last());
        lemma_run_keeps_matching(disk, job, outcomes.drop_last());
        lemma_disk_keeps_matching(disk.files, run.disk, job, run.step, outcomes.last());
    }
}

/// Whatever happens, the file holds what it held or all of the new contents,
/// never a part, and no other file but the temporary one is touched. A write
/// that is reported as done has left exactly the new contents, in the mode that
/// the file had or in a private one if it is new. One that is reported as failed
/// has left the old file or the new one. Neither leaves a temporary file behind.
pub proof fn law_file_is_replaced_whole(disk: Disk, job: Replacement, outcomes: Seq<Outcome>)
    requires
        run_can_happen(disk, job, outcomes),
    ensures
        ({
            let run = write_run(disk, job, outcomes);
            let before = disk.files;
            let after = run.disk.files;
            let new = files_replaced(before, job);
            &&& same_at(after, before, job.destination) || same_at(after, new, job.destination)
            &&& forall|path: Seq<char>|
                path != job.destination && path != run.disk.temporary ==> #[trigger] same_at(
                    after,
                    before,
                    path,
                )
            &&& run.action is Succeed ==> after == new
            &&& run.action is Fail ==> after == before || after == new
        }),
{
    lemma_run_keeps_matching(disk, job, outcomes);
    let run = write_run(disk, job, outcomes);
    let before = disk.files;
    let after = run.disk.files;
    let rest = after.remove(run.disk.temporary);
    assert(run.step is Replacing ==> rest =~= before);
    assert forall|path: Seq<char>|
        path != job.destination && path != run.disk.temporary implies #[trigger] same_at(
        after,
        before,
        path,
    ) by {
        assert(same_at(after, rest, path));
    }
    assert(same_at(after, rest, job.destination) || after == before || after == files_replaced(
        before,
        job,
    ));
}

/// What was stored comes back when the file is loaded again.
pub proof fn law_stored_data_comes_back(
    stored: Stored,
    json: Json,
    users: Map<u32, V4User>,
    hosts: Map<u32, V2Host>,
    roles: Map<u32, V3Role>,
)
    requires
        is_file_of(stored, json),
        is_latest(json, users, hosts, roles),
    ensures
        same_users(stored.users, users),
        hosts == stored.hosts,
        roles == stored.roles,
{
}

/// A file that is there keeps its mode, and a new one is for its owner alone.
pub proof fn law_modes_are_kept(mode: u32)
    ensures
        replaced_mode(Some(mode)) == mode,
        replaced_mode(None) == 6 * 64,
{
}

/// A write that nothing hinders: the mode is looked up, a temporary file is opened under
/// the drawn number, written with that mode, and moved into place.
pub proof fn law_write_that_nothing_hinders(
    existing: Option<u32>,
    number: u32,
    drawn: Result<u32, AppError>,
)
    ensures
        ({
            let mode = if existing is Some {
                existing->0
            } else {
                384
            };
            let opening = write_transition(
                WriteStep::Inspecting,
                WriteEvent::Inspected { existing },
                Ok(number),
            );
            let writing = write_transition(opening.0, WriteEvent::Opened, drawn);
            let replacing = write_transition(writing.0, WriteEvent::Written, drawn);
            let finished = write_transition(replacing.0, WriteEvent::Replaced, drawn);
            &&& opening.1 == (WriteAction::OpenTemporary { number })
            &&& writing.1 == (WriteAction::Write { mode })
            &&& replacing.1 is Replace
            &&& finished == (WriteStep::Finished, WriteAction::Succeed)
        }),
{
}

/// How a write fails: without a number there is no name; a name that is taken is
/// replaced by another one, sixteen times in all; and a temporary file that was opened
/// is removed before the failure is told.
pub proof fn law_how_a_write_fails(
    attempts: u8,
    mode: u32,
    number: u32,
    existing: Option<u32>,
    error: AppError,
    drawn: Result<u32, AppError>,
)
    ensures
        ({
            let taken = |drawn: Result<u32, AppError>|
                write_transition(
                    WriteStep::Opening { attempts, mode },
                    WriteEvent::NameTaken,
                    drawn,
                );
            let io = (WriteStep::Finished, WriteAction::Fail(WriteFailure::Io));
            let removing = (WriteStep::Removing, WriteAction::RemoveTemporary);
            &&& write_transition(
                WriteStep::Inspecting,
                WriteEvent::Inspected { existing },
                Err(error),
            ).1 == WriteAction::Fail(WriteFailure::NoRandomness)
            &&& attempts < 16 ==> taken(Ok(number)) == (
                WriteStep::Opening { attempts: (attempts + 1) as u8, mode },
                WriteAction::OpenTemporary { number },
            ) && taken(Err(error)).1 == WriteAction::Fail(WriteFailure::NoRandomness)
            &&& attempts >= 16 ==> taken(drawn).1 == WriteAction::Fail(WriteFailure::NoUniqueName)
            &&& draws_number(WriteStep::Opening { attempts, mode }, WriteEvent::NameTaken)
                <==> attempts < 16
            &&& draws_number(WriteStep::Inspecting, WriteEvent::Inspected { existing })
            &&& write_transition(WriteStep::Inspecting, WriteEvent::Failed, drawn) == io
            &&& write_transition(
                WriteStep::Opening { attempts, mode },
                WriteEvent::Failed,
                drawn,
            ) == io
            &&& write_transition(WriteStep::Writing { mode }, WriteEvent::Failed, drawn)
                == removing
            &&& write_transition(WriteStep::Replacing, WriteEvent::Failed, drawn) == removing
            &&& write_transition(WriteStep::Removing, WriteEvent::Removed, drawn) == io
        }),
{
}

/// A copy of a user is the user, with the same settings and the same history.
pub proof fn law_copies_are_whole(a: V4User, b: V4User)
    requires
        same_user(a, b),
    ensures
        a.role_id == b.role_id && a.name == b.name && a.password == b.password,
        a.client_unique_id == b.client_unique_id && a.settings == b.settings,
        a.settings_revision == b.settings_revision,
        a.settings_mutation_ids@ == b.settings_mutation_ids@,
{
}

} // verus!
