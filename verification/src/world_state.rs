//! World state: the per-campaign JSON document of world facts, and the audit
//! trail of every change made to it.

use vstd::prelude::*;
use vstd::string::*;

use crate::errors::{domain_error, AppError, Result};
use crate::game_command::StateMutation;
use crate::ids::{is_utc_rfc3339, is_uuid_v4_text, new_id, now_rfc3339};
use crate::json::{
    lemma_members_insert, lemma_members_remove, lookup, member, members_insert, members_remove,
    object1, str_model, JsonModel, JsonValue,
};

verus! {

/// One recorded world mutation: the audit trail of the GM's actions.
#[derive(Debug)]
pub struct StateChange {
    pub id: String,
    pub campaign_id: String,
    /// Which tool (or `"manual"` for direct UI edits) caused the change.
    pub tool: String,
    /// The raw arguments passed to the tool.
    pub args: JsonValue,
    /// Snapshot of the key's value before the change (null = absent).
    pub before_value: JsonValue,
    /// Snapshot of the key's value after the change.
    pub after_value: JsonValue,
    /// The transcript message that triggered it, when known.
    pub message_id: Option<String>,
    pub created_at: String,
}

/// The value `document` holds under `key`, `null` when absent.
pub open spec fn value_or_null(document: JsonModel, key: Seq<char>) -> JsonModel {
    match lookup(document, key) {
        Some(v) => v,
        None => JsonModel::Null,
    }
}

/// The message of the error for a document that is not an object.
pub open spec fn not_an_object_message() -> Seq<char> {
    "world state document is not an object"@
}

/// Set `key` to `value` in a world document, returning the (before, after)
/// snapshots of the key. A document that is not an object is refused and
/// left unchanged.
pub fn set_document_key(document: &mut JsonValue, key: &str, value: &JsonValue) -> (r: Result<(JsonValue, JsonValue)>)
    ensures
        match old(document)@ {
            JsonModel::Object(members) => {
                &&& r matches Ok((before, after)) && before@ == value_or_null(old(document)@, key@)
                    && after@ == value@
                &&& final(document)@ == JsonModel::Object(members_insert(members, key@, value@))
            },
            _ => {
                &&& r matches Err(e) && e is Domain && e.detail() == not_an_object_message()
                &&& final(document)@ == old(document)@
            },
        },
{
    let before = match document.get(key) {
        Some(v) => v.duplicate(),
        None => JsonValue::Null,
    };
    match document {
        JsonValue::Object(_) => {},
        _ => return Err(domain_error("world state document is not an object")),
    }
    let stored = value.duplicate();
    let _previous = document.insert(key, stored);
    Ok((before, value.duplicate()))
}

/// Remove `key` from a world document, returning the (before, removed)
/// snapshots: both are the value it held, `null` when it was absent. A
/// document that is not an object is refused and left unchanged.
pub fn remove_document_key(document: &mut JsonValue, key: &str) -> (r: Result<(JsonValue, JsonValue)>)
    ensures
        match old(document)@ {
            JsonModel::Object(members) => {
                &&& r matches Ok((before, removed)) && before@ == value_or_null(old(document)@, key@)
                    && removed@ == value_or_null(old(document)@, key@)
                &&& final(document)@ == JsonModel::Object(members_remove(members, key@))
            },
            _ => {
                &&& r matches Err(e) && e is Domain && e.detail() == not_an_object_message()
                &&& final(document)@ == old(document)@
            },
        },
{
    let before = match document.get(key) {
        Some(v) => v.duplicate(),
        None => JsonValue::Null,
    };
    match document {
        JsonValue::Object(_) => {},
        _ => return Err(domain_error("world state document is not an object")),
    }
    let removed = match document.remove(key) {
        Some(v) => v,
        None => JsonValue::Null,
    };
    Ok((before, removed))
}

/// Once a key is set, the document reads the set value under it; every other
/// key reads as before.
pub proof fn lemma_set_then_read(members: Seq<(Seq<char>, JsonModel)>, key: Seq<char>, value: JsonModel, other: Seq<char>)
    ensures
        lookup(JsonModel::Object(members_insert(members, key, value)), key) == Some(value),
        other != key ==> lookup(JsonModel::Object(members_insert(members, key, value)), other) == lookup(
            JsonModel::Object(members),
            other,
        ),
{
    lemma_members_insert(members, key, value, other);
}

/// Once a key is removed, the document has nothing under it; every other key
/// reads as before.
pub proof fn lemma_remove_then_read(members: Seq<(Seq<char>, JsonModel)>, key: Seq<char>, other: Seq<char>)
    ensures
        lookup(JsonModel::Object(members_remove(members, key)), key) is None,
        other != key ==> lookup(JsonModel::Object(members_remove(members, key)), other) == lookup(
            JsonModel::Object(members),
            other,
        ),
{
    lemma_members_remove(members, key, other);
}

/// Setting a key records the value it replaced: after a first set to `first`,
/// a second set to `second` reports `first` as its before-snapshot.
pub proof fn lemma_second_set_sees_first(members: Seq<(Seq<char>, JsonModel)>, key: Seq<char>, first: JsonModel, second: JsonModel)
    ensures
        value_or_null(JsonModel::Object(members_insert(members, key, first)), key) == first,
        lookup(JsonModel::Object(members_insert(members_insert(members, key, first), key, second)), key) == Some(second),
{
    lemma_members_insert(members, key, first, key);
    lemma_members_insert(members_insert(members, key, first), key, second, key);
}

/// Removing a key right after setting it reports the set value as both its
/// before-snapshot and the removed value.
pub proof fn lemma_set_then_remove(members: Seq<(Seq<char>, JsonModel)>, key: Seq<char>, value: JsonModel)
    ensures
        value_or_null(JsonModel::Object(members_insert(members, key, value)), key) == value,
{
    lemma_members_insert(members, key, value, key);
}

/// The world key and value a mutation sets; character mutations are not the
/// world applier's to apply.
pub fn world_key_of(mutation: &StateMutation) -> (r: Result<(&str, &JsonValue)>)
    ensures
        match *mutation {
            StateMutation::SetWorldKey { key, value } => r matches Ok((k, v)) && k@ == key@ && v@ == value@,
            _ => r matches Err(e) && e is Domain && e.detail() == "world applier cannot handle character mutations"@,
        },
{
    match mutation {
        StateMutation::SetWorldKey { key, value } => Ok((key.as_str(), value)),
        StateMutation::CreateCharacter { .. } => Err(domain_error("world applier cannot handle character mutations")),
    }
}

/// The message of the error for a character mutation sent to the world.
pub open spec fn character_mutation_message() -> Seq<char> {
    "world applier cannot handle character mutations"@
}

/// What applying `mutations` in order to a world document gives: the
/// (before, after) snapshots of each set applied, the document once they
/// are applied, and the message of the error that stopped the batch, if one
/// did (a character mutation, or a document that is not an object). Each
/// set sees the document left by the sets before it.
pub open spec fn batch_outcome(document: JsonModel, mutations: Seq<StateMutation>) -> (
    Seq<(JsonModel, JsonModel)>,
    JsonModel,
    Option<Seq<char>>,
)
    decreases mutations.len(),
{
    if mutations.len() == 0 {
        (Seq::empty(), document, None)
    } else {
        match mutations[0] {
            StateMutation::SetWorldKey { key, value } => match document {
                JsonModel::Object(members) => {
                    let rest = batch_outcome(
                        JsonModel::Object(members_insert(members, key@, value@)),
                        mutations.drop_first(),
                    );
                    (seq![(value_or_null(document, key@), value@)] + rest.0, rest.1, rest.2)
                },
                _ => (Seq::empty(), document, Some(not_an_object_message())),
            },
            _ => (Seq::empty(), document, Some(character_mutation_message())),
        }
    }
}

/// The views of a list of (before, after) snapshots.
pub open spec fn snapshots_view(pairs: Seq<(JsonValue, JsonValue)>) -> Seq<(JsonModel, JsonModel)> {
    pairs.map_values(|p: (JsonValue, JsonValue)| (p.0@, p.1@))
}

/// `e` is the domain error with message `msg`, or both are absent.
pub open spec fn error_is(e: Option<AppError>, msg: Option<Seq<char>>) -> bool {
    match e {
        None => msg is None,
        Some(err) => msg matches Some(m) && err is Domain && err.detail() == m,
    }
}

proof fn lemma_batch_step(document: JsonModel, mutations: Seq<StateMutation>, i: int)
    requires
        0 <= i < mutations.len(),
    ensures
        mutations.subrange(i, mutations.len() as int)[0] == mutations[i],
        mutations.subrange(i, mutations.len() as int).drop_first() =~= mutations.subrange(
            i + 1,
            mutations.len() as int,
        ),
{
}

/// Apply a command's world mutations in order to a world document,
/// returning the (before, after) snapshots of the sets applied and the error
/// that stopped the batch, if any; the document keeps every set applied
/// before that error.
pub fn apply_world_mutations(document: &mut JsonValue, mutations: &[StateMutation]) -> (r: (
    Vec<(JsonValue, JsonValue)>,
    Option<AppError>,
))
    ensures
        snapshots_view(r.0@) == batch_outcome(old(document)@, mutations@).0,
        final(document)@ == batch_outcome(old(document)@, mutations@).1,
        error_is(r.1, batch_outcome(old(document)@, mutations@).2),
{
    let ghost start = document@;
    let ghost all = mutations@;
    let mut changes: Vec<(JsonValue, JsonValue)> = Vec::new();
    let mut i: usize = 0;
    proof {
        assert(all.subrange(0, all.len() as int) =~= all);
        assert(snapshots_view(changes@) =~= Seq::<(JsonModel, JsonModel)>::empty());
    }
    while i < mutations.len()
        invariant
            all == mutations@,
            start == old(document)@,
            i <= all.len(),
            ({
                let rest = batch_outcome(document@, all.subrange(i as int, all.len() as int));
                batch_outcome(start, all) == (snapshots_view(changes@) + rest.0, rest.1, rest.2)
            }),
        decreases all.len() - i,
    {
        proof {
            lemma_batch_step(document@, all, i as int);
        }
        let ghost before_doc = document@;
        let ghost before_changes = snapshots_view(changes@);
        match world_key_of(&mutations[i]) {
            Err(e) => {
                proof {
                    assert(before_changes + Seq::<(JsonModel, JsonModel)>::empty() =~= before_changes);
                }
                return (changes, Some(e));
            },
            Ok((key, value)) => match set_document_key(document, key, value) {
                Err(e) => {
                    proof {
                        assert(document@ == before_doc);
                        assert(!(before_doc is Object));
                        assert(before_changes + Seq::<(JsonModel, JsonModel)>::empty() =~= before_changes);
                    }
                    return (changes, Some(e));
                },
                Ok(pair) => {
                    changes.push(pair);
                    proof {
                        let rest = batch_outcome(document@, all.subrange(i + 1, all.len() as int));
                        assert(snapshots_view(changes@) =~= before_changes.push((value_or_null(before_doc, key@), value@)));
                        assert(before_changes + (seq![(value_or_null(before_doc, key@), value@)] + rest.0)
                            =~= snapshots_view(changes@) + rest.0);
                    }
                },
            },
        }
        i = i + 1;
    }
    proof {
        assert(all.subrange(i as int, all.len() as int) =~= Seq::<StateMutation>::empty());
        assert(snapshots_view(changes@) + Seq::<(JsonModel, JsonModel)>::empty() =~= snapshots_view(changes@));
    }
    (changes, None)
}

/// Whether every mutation of a batch is a world-key set.
pub open spec fn all_world_sets(mutations: Seq<StateMutation>) -> bool {
    forall|i: int| 0 <= i < mutations.len() ==> #[trigger] mutations[i] is SetWorldKey
}

/// The value the last set of `key` in a batch writes, if any sets it.
pub open spec fn last_write(mutations: Seq<StateMutation>, key: Seq<char>) -> Option<JsonModel>
    decreases mutations.len(),
{
    if mutations.len() == 0 {
        None
    } else {
        match last_write(mutations.drop_first(), key) {
            Some(v) => Some(v),
            None => match mutations[0] {
                StateMutation::SetWorldKey { key: k, value } => if k@ == key {
                    Some(value@)
                } else {
                    None
                },
                _ => None,
            },
        }
    }
}

/// A batch of world sets applied to an object document succeeds, records one
/// snapshot per set, and leaves each key holding what the last set of it
/// wrote (last write wins); keys no set touches read as before.
pub proof fn law_world_batch_last_write_wins(
    members: Seq<(Seq<char>, JsonModel)>,
    mutations: Seq<StateMutation>,
    key: Seq<char>,
)
    requires
        all_world_sets(mutations),
    ensures
        batch_outcome(JsonModel::Object(members), mutations).2 is None,
        batch_outcome(JsonModel::Object(members), mutations).0.len() == mutations.len(),
        batch_outcome(JsonModel::Object(members), mutations).1 is Object,
        lookup(batch_outcome(JsonModel::Object(members), mutations).1, key) == match last_write(mutations, key) {
            Some(v) => Some(v),
            None => lookup(JsonModel::Object(members), key),
        },
    decreases mutations.len(),
{
    if mutations.len() > 0 {
        let rest = mutations.drop_first();
        assert(mutations[0] is SetWorldKey);
        assert forall|i: int| 0 <= i < rest.len() implies #[trigger] rest[i] is SetWorldKey by {
            assert(rest[i] == mutations[i + 1]);
        }
        match mutations[0] {
            StateMutation::SetWorldKey { key: k, value } => {
                law_world_batch_last_write_wins(members_insert(members, k@, value@), rest, key);
                lemma_members_insert(members, k@, value@, key);
            },
            _ => {},
        }
    }
}

/// The arguments recorded for a manual edit of `key`: `{"key": key}`.
pub fn manual_edit_args(key: &str) -> (args: JsonValue)
    ensures
        args@ == JsonModel::Object(seq![("key"@, str_model(key@))]),
{
    object1(member("key", JsonValue::from_str_slice(key)))
}

/// An audit entry with the given id and timestamp.
pub fn state_change(
    id: String,
    campaign_id: &str,
    tool: &str,
    args: &JsonValue,
    before: &JsonValue,
    after: &JsonValue,
    message_id: Option<&str>,
    created_at: String,
) -> (c: StateChange)
    ensures
        c.id@ == id@,
        c.campaign_id@ == campaign_id@,
        c.tool@ == tool@,
        c.args@ == args@,
        c.before_value@ == before@,
        c.after_value@ == after@,
        match message_id {
            Some(m) => c.message_id matches Some(s) && s@ == m@,
            None => c.message_id is None,
        },
        c.created_at@ == created_at@,
{
    StateChange {
        id,
        campaign_id: String::from_str(campaign_id),
        tool: String::from_str(tool),
        args: args.duplicate(),
        before_value: before.duplicate(),
        after_value: after.duplicate(),
        message_id: match message_id {
            Some(m) => Some(String::from_str(m)),
            None => None,
        },
        created_at,
    }
}

/// A fresh audit entry (new id, current time) for a change to a world key.
pub fn record_change(
    campaign_id: &str,
    tool: &str,
    args: &JsonValue,
    before: &JsonValue,
    after: &JsonValue,
    message_id: Option<&str>,
) -> (c: StateChange)
    ensures
        is_uuid_v4_text(c.id@),
        is_utc_rfc3339(c.created_at@),
        c.campaign_id@ == campaign_id@,
        c.tool@ == tool@,
        c.args@ == args@,
        c.before_value@ == before@,
        c.after_value@ == after@,
        match message_id {
            Some(m) => c.message_id matches Some(s) && s@ == m@,
            None => c.message_id is None,
        },
{
    state_change(new_id(), campaign_id, tool, args, before, after, message_id, now_rfc3339())
}

} // verus!
