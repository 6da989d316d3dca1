//! The registry's state as a mathematical map, and what each operation reads
//! from it and makes of it.
use crate::env::EnvView;
use crate::env::Event;
use crate::env::Notification;
use crate::storage::DataKeyView;
use crate::storage::ValueView;
use crate::types::AchievementView;
use crate::types::Error;
use crate::types::Status;
use vstd::prelude::*;

verus! {

/// The state of a store: its occupied slots.
pub type State = Map<DataKeyView, ValueView>;

/// The identifier allocated last: 0 while the slot is empty.
pub open spec fn stored_counter(m: State) -> Result<u64, Error> {
    if !m.contains_key(DataKeyView::NextId) {
        Ok(0)
    } else {
        match m[DataKeyView::NextId] {
            ValueView::Counter(n) => Ok(n),
            _ => Err(Error::StoreCorruption),
        }
    }
}

/// The record stored under `id`.
pub open spec fn stored_record(m: State, id: u64) -> Result<AchievementView, Error> {
    if !m.contains_key(DataKeyView::AchievementById(id)) {
        Err(Error::NotFound)
    } else {
        match m[DataKeyView::AchievementById(id)] {
            ValueView::Record(record) => Ok(record),
            _ => Err(Error::StoreCorruption),
        }
    }
}

/// The list of identifiers stored under `key`: empty while the slot is empty.
pub open spec fn stored_ids(m: State, key: DataKeyView) -> Result<Seq<u64>, Error> {
    if !m.contains_key(key) {
        Ok(Seq::empty())
    } else {
        match m[key] {
            ValueView::Ids(ids) => Ok(ids),
            _ => Err(Error::StoreCorruption),
        }
    }
}

/// Whether `caller` passes as the administrator.
pub open spec fn admin_gate(m: State, caller: Seq<char>) -> Result<(), Error> {
    if !m.contains_key(DataKeyView::Admin) {
        Err(Error::Unauthorized)
    } else {
        match m[DataKeyView::Admin] {
            ValueView::Holder(admin) => if admin == caller {
                Ok(())
            } else {
                Err(Error::Unauthorized)
            },
            _ => Err(Error::StoreCorruption),
        }
    }
}

/// Whether `address` is a whitelisted verifier.
pub open spec fn verifier_listed(m: State, address: Seq<char>) -> bool {
    m.contains_key(DataKeyView::Verifier(address))
}

/// The state after `id` has been appended to the list under `key`.
pub open spec fn with_id(m: State, key: DataKeyView, id: u64) -> State {
    m.insert(key, ValueView::Ids(stored_ids(m, key).unwrap().push(id)))
}

/// The state after the administrator has been set.
pub open spec fn initialized(m: State, admin: Seq<char>) -> State {
    m.insert(DataKeyView::Admin, ValueView::Holder(admin)).insert(
        DataKeyView::NextId,
        ValueView::Counter(0),
    )
}

/// The state after `record` has been created: the counter stands at its
/// identifier, the record is stored, and its identifier is the last entry of
/// its owner's list and of its category's list.
pub open spec fn created(m: State, record: AchievementView) -> State {
    let counted = m.insert(DataKeyView::NextId, ValueView::Counter(record.id));
    let stored = counted.insert(
        DataKeyView::AchievementById(record.id),
        ValueView::Record(record),
    );
    let by_owner = with_id(stored, DataKeyView::AchievementsByOwner(record.owner), record.id);
    with_id(by_owner, DataKeyView::AchievementsByCategory(record.category), record.id)
}

/// The state after `record` has been put in the slot of `id`.
pub open spec fn recorded(m: State, id: u64, record: AchievementView) -> State {
    m.insert(DataKeyView::AchievementById(id), ValueView::Record(record))
}

/// `record` with each given field in place of the old one.
pub open spec fn edited(
    record: AchievementView,
    title: Option<Seq<char>>,
    description: Option<Seq<char>>,
    category: Option<Seq<char>>,
    evidence_uri: Option<Seq<char>>,
) -> AchievementView {
    AchievementView {
        title: title.unwrap_or(record.title),
        description: description.unwrap_or(record.description),
        category: category.unwrap_or(record.category),
        evidence_uri: evidence_uri.unwrap_or(record.evidence_uri),
        ..record
    }
}

/// `record` at stage `status`.
pub open spec fn staged(record: AchievementView, status: Status) -> AchievementView {
    AchievementView { status: status, ..record }
}

/// The text of an optional string.
pub open spec fn text_of(field: Option<String>) -> Option<Seq<char>> {
    match field {
        Some(text) => Some(text@),
        None => None,
    }
}

/// Whether a record can be read at `id`.
pub open spec fn readable(m: State, id: u64) -> bool {
    stored_record(m, id) is Ok
}

/// The records that `ids` names, in the order of `ids`.
pub open spec fn records_of(m: State, ids: Seq<u64>) -> Seq<AchievementView> {
    Seq::new(ids.len(), |i: int| stored_record(m, ids[i]).unwrap())
}

/// The error that reading the record under `id` ends in, where none can be read.
pub open spec fn read_error(m: State, id: u64) -> Error {
    if m.contains_key(DataKeyView::AchievementById(id)) {
        Error::StoreCorruption
    } else {
        Error::NotFound
    }
}

/// What stands between the caller and a new record for `owner` under `category`.
pub open spec fn create_gate(env: EnvView, owner: Seq<char>, category: Seq<char>) -> Result<
    (),
    Error,
> {
    if env.caller != owner {
        Err(Error::Unauthorized)
    } else if stored_counter(env.storage) is Err || stored_ids(
        env.storage,
        DataKeyView::AchievementsByOwner(owner),
    ) is Err || stored_ids(env.storage, DataKeyView::AchievementsByCategory(category)) is Err {
        Err(Error::StoreCorruption)
    } else {
        Ok(())
    }
}

/// The record under `id`, where the caller is its owner.
pub open spec fn owner_gate(env: EnvView, id: u64) -> Result<AchievementView, Error> {
    match stored_record(env.storage, id) {
        Err(e) => Err(e),
        Ok(record) => if env.caller != record.owner {
            Err(Error::Unauthorized)
        } else {
            Ok(record)
        },
    }
}

/// The record under `id`, where the caller is its owner and it is still a draft.
pub open spec fn update_gate(env: EnvView, id: u64) -> Result<AchievementView, Error> {
    match owner_gate(env, id) {
        Err(e) => Err(e),
        Ok(record) => if record.status != Status::Draft {
            Err(Error::InvalidState)
        } else {
            Ok(record)
        },
    }
}

/// The record under `id`, where the caller is `verifier` and `verifier` is whitelisted.
pub open spec fn verify_gate(env: EnvView, id: u64, verifier: Seq<char>) -> Result<
    AchievementView,
    Error,
> {
    if env.caller != verifier || !verifier_listed(env.storage, verifier) {
        Err(Error::Unauthorized)
    } else {
        stored_record(env.storage, id)
    }
}

/// The record as `create_achievement` makes it.
pub open spec fn draft(
    m: State,
    timestamp: u64,
    owner: Seq<char>,
    title: Seq<char>,
    description: Seq<char>,
    category: Seq<char>,
    evidence_uri: Seq<char>,
) -> AchievementView {
    AchievementView {
        id: (stored_counter(m).unwrap() + 1) as u64,
        owner,
        title,
        description,
        category,
        evidence_uri,
        timestamp,
        status: Status::Draft,
    }
}

/// `env` with `storage` as its store and one more notification.
pub open spec fn committed(env: EnvView, storage: State, event: Event, id: u64) -> EnvView {
    EnvView { storage: storage, events: env.events.push(Notification { event, id }), ..env }
}

/// The place in `ids` of the first identifier under which no record can be
/// read: the length of `ids` where every one can.
pub open spec fn first_unreadable(m: State, ids: Seq<u64>) -> int
    decreases ids.len(),
{
    if ids.len() == 0 {
        0
    } else if !readable(m, ids[0]) {
        0
    } else {
        1 + first_unreadable(m, ids.drop_first())
    }
}

/// What reading the records that `ids` names gives: the records, in the
/// order of `ids`, or the error of the first that cannot be read.
pub open spec fn mapped(m: State, ids: Seq<u64>) -> Result<Seq<AchievementView>, Error> {
    let stop = first_unreadable(m, ids);
    if stop < ids.len() {
        Err(read_error(m, ids[stop]))
    } else {
        Ok(records_of(m, ids))
    }
}

/// What listing the records under the index `key` gives: the records that the
/// list names, in its order, or the error of the first that cannot be read.
pub open spec fn listed(m: State, key: DataKeyView) -> Result<Seq<AchievementView>, Error> {
    match stored_ids(m, key) {
        Err(e) => Err(e),
        Ok(ids) => mapped(m, ids),
    }
}

/// `first_unreadable` is the one place before which every record can be read
/// and at which, if it lies within `ids`, none can.
pub proof fn lemma_first_unreadable(m: State, ids: Seq<u64>)
    ensures
        0 <= first_unreadable(m, ids) <= ids.len(),
        forall|j: int| 0 <= j < first_unreadable(m, ids) ==> readable(m, ids[j]),
        first_unreadable(m, ids) < ids.len() ==> !readable(m, ids[first_unreadable(m, ids)]),
    decreases ids.len(),
{
    if ids.len() > 0 && readable(m, ids[0]) {
        let rest = ids.drop_first();
        lemma_first_unreadable(m, rest);
        assert forall|j: int| 0 <= j < first_unreadable(m, ids) implies readable(m, ids[j]) by {
            if j > 0 {
                assert(ids[j] == rest[j - 1]);
            }
        }
        if first_unreadable(m, ids) < ids.len() {
            assert(ids[first_unreadable(m, ids)] == rest[first_unreadable(m, rest)]);
        }
    }
}

} // verus!
