//! Changes to a user's settings. The settings are a JSON object; a change names
//! the entries that it sets or, with `null`, removes.

use crate::errors::AppError;
use crate::outside::{
    empty_object, entries_of, insert_entry, into_object, json_entries, json_null, list_entries,
    object_value, remove_entry,
};
use serde_json::Value;
use vstd::prelude::*;

verus! {

/// The entries after a change.
pub open spec fn patched(
    current: Map<Seq<char>, Value>,
    patch: Map<Seq<char>, Value>,
) -> Map<Seq<char>, Value> {
    Map::new(
        |key: Seq<char>|
            if patch.contains_key(key) {
                !json_null(patch[key])
            } else {
                current.contains_key(key)
            },
        |key: Seq<char>|
            if patch.contains_key(key) {
                patch[key]
            } else {
                current[key]
            },
    )
}

/// The entries of settings. Settings that are no object count as none.
pub open spec fn settings_entries(settings: Option<Value>) -> Map<Seq<char>, Value> {
    match settings {
        Some(value) => match json_entries(value) {
            Some(entries) => entries,
            None => Map::empty(),
        },
        None => Map::empty(),
    }
}

/// Changes settings; no patch clears them. A patch that is no object is refused
/// and changes nothing.
pub fn apply_top_level_settings_patch(
    current: &mut Option<Value>,
    patch: Option<Value>,
) -> (applied: Result<(), AppError>)
    ensures
        match patch {
            None => applied is Ok && *final(current) is None,
            Some(patch) => match json_entries(patch) {
                Some(entries) => {
                    &&& applied is Ok
                    &&& *final(current) is Some
                    &&& json_entries(final(current)->0) == Some(
                        patched(settings_entries(*old(current)), entries),
                    )
                },
                None => applied == Err::<(), _>(AppError::BadRequest) && *final(current) == *old(current),
            },
        },
{
    let patch: Value = match patch {
        Some(patch) => patch,
        None => {
            *current = None;
            return Ok(());
        },
    };
    let patch: serde_json::Map<String, Value> = match into_object(patch) {
        Ok(patch) => patch,
        Err(_) => {
            return Err(AppError::BadRequest);
        },
    };
    let mut merged: serde_json::Map<String, Value> = match current.take() {
        Some(settings) => match into_object(settings) {
            Ok(settings) => settings,
            Err(_) => empty_object(),
        },
        None => empty_object(),
    };
    let ghost before = entries_of(merged);
    let ghost changes = entries_of(patch);
    assert(before == settings_entries(*old(current)));
    merge(&mut merged, patch);
    *current = Some(object_value(merged));
    Ok(())
}

/// Whether one of the first `count` entries has this key.
pub open spec fn seen(entries: Seq<(String, Value)>, count: int, key: Seq<char>) -> bool {
    exists|i: int| 0 <= i < count && (#[trigger] entries[i]).0@ == key
}

fn merge(merged: &mut serde_json::Map<String, Value>, patch: serde_json::Map<String, Value>)
    ensures
        entries_of(*final(merged)) == patched(entries_of(*old(merged)), entries_of(patch)),
{
    let ghost before = entries_of(*merged);
    let ghost changes = entries_of(patch);
    let mut entries: Vec<(String, Value)> = list_entries(patch);
    let ghost all = entries@;
    while entries.len() > 0
        invariant
            entries@ == all.take(entries@.len() as int),
            entries@.len() <= all.len(),
            forall|i: int, j: int|
                0 <= i < j < all.len() ==> (#[trigger] all[i]).0@ != (#[trigger] all[j]).0@,
            forall|i: int|
                0 <= i < all.len() ==> changes.contains_key((#[trigger] all[i]).0@)
                    && changes[all[i].0@] == all[i].1,
            forall|key: Seq<char>|
                #![trigger changes.contains_key(key)]
                changes.contains_key(key) ==> seen(all, all.len() as int, key),
            forall|key: Seq<char>|
                #![trigger entries_of(*merged).contains_key(key)]
                entries_of(*merged).contains_key(key) == if changes.contains_key(key) && !seen(
                    all,
                    entries@.len() as int,
                    key,
                ) {
                    !json_null(changes[key])
                } else {
                    before.contains_key(key)
                },
            forall|key: Seq<char>|
                #![trigger entries_of(*merged)[key]]
                entries_of(*merged).contains_key(key) ==> entries_of(*merged)[key] == if
                    changes.contains_key(key) && !seen(all, entries@.len() as int, key) {
                    changes[key]
                } else {
                    before[key]
                },
        decreases entries@.len(),
    {
        let ghost last = entries@.len() - 1;
        let ghost state = entries_of(*merged);
        let entry: Option<(String, Value)> = entries.pop();
        if let Some((key, value)) = entry {
            assert(all[last] == (key, value));
            proof {
                assert(!seen(all, last, key@));
                assert forall|other: Seq<char>| other != key@ implies seen(all, last + 1, other)
                    == seen(all, last, other) by {
                    if seen(all, last + 1, other) {
                        let i = choose|i: int| 0 <= i < last + 1 && (#[trigger] all[i]).0@ == other;
                        assert(i < last);
                    }
                }
            }
            if value.is_null() {
                remove_entry(merged, key.as_str());
            } else {
                insert_entry(merged, key, value);
            }
        }
        assert(entries@ =~= all.take(last));
    }
    assert(entries_of(*merged) =~= patched(before, changes));
}

/// A change sets exactly what it names and leaves everything else alone.
pub proof fn law_patch_touches_only_its_entries(
    current: Map<Seq<char>, Value>,
    patch: Map<Seq<char>, Value>,
    key: Seq<char>,
)
    ensures
        !patch.contains_key(key) ==> patched(current, patch).contains_key(key)
            == current.contains_key(key),
        !patch.contains_key(key) && current.contains_key(key) ==> patched(current, patch)[key]
            == current[key],
        patch.contains_key(key) && json_null(patch[key]) ==> !patched(current, patch).contains_key(
            key,
        ),
        patch.contains_key(key) && !json_null(patch[key]) ==> patched(current, patch).contains_key(
            key,
        ) && patched(current, patch)[key] == patch[key],
{
}

/// A change that is made twice is made once.
pub proof fn law_patch_is_idempotent(
    current: Map<Seq<char>, Value>,
    patch: Map<Seq<char>, Value>,
)
    ensures
        patched(patched(current, patch), patch) == patched(current, patch),
{
    assert(patched(patched(current, patch), patch) =~= patched(current, patch));
}

/// Without a patch all settings are taken back. A patch that is an object is applied to
/// its entries; anything else is refused and changes nothing.
pub proof fn law_what_a_patch_does(
    current: &mut Option<Value>,
    patch: Option<Value>,
    applied: Result<(), AppError>,
    key: Seq<char>,
)
    requires
        call_ensures(apply_top_level_settings_patch, (current, patch), applied),
    ensures
        applied is Err <==> patch is Some && json_entries(patch->0) is None,
        applied is Err ==> applied->Err_0 is BadRequest && *final(current) == *old(current),
        patch is None ==> *final(current) is None,
        applied is Ok && patch is Some ==> {
            let named = json_entries(patch->0)->0;
            let after = json_entries(final(current)->0);
            &&& *final(current) is Some && after is Some
            &&& named.contains_key(key) ==> after->0.contains_key(key) == !json_null(named[key])
            &&& named.contains_key(key) && !json_null(named[key]) ==> after->0[key] == named[key]
            &&& !named.contains_key(key) ==> after->0.contains_key(key) == settings_entries(
                *old(current),
            ).contains_key(key)
        },
{
}

} // verus!
