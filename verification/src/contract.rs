//! The operations of the registry, each behind the check of the role it asks for.
use crate::env::Env;
use crate::env::EnvView;
use crate::env::Event;
use crate::env::Notification;
use crate::laws::consistent;
use crate::laws::lemma_create_keeps_consistency;
use crate::laws::lemma_init_keeps_consistency;
use crate::laws::lemma_record_change_keeps_consistency;
use crate::laws::lemma_next_id_is_fresh;
use crate::laws::lemma_whitelist_keeps_consistency;
use crate::laws::stages_kept;
use crate::model::admin_gate;
use crate::model::committed;
use crate::model::create_gate;
use crate::model::created;
use crate::model::draft;
use crate::model::lemma_first_unreadable;
use crate::model::first_unreadable;
use crate::model::listed;
use crate::model::mapped;
use crate::model::owner_gate;
use crate::model::update_gate;
use crate::model::verify_gate;
use crate::model::edited;
use crate::model::initialized;
use crate::model::recorded;
use crate::model::readable;
use crate::model::records_of;
use crate::model::staged;
use crate::model::stored_counter;
use crate::model::stored_ids;
use crate::model::stored_record;
use crate::model::text_of;
use crate::model::verifier_listed;
use crate::model::with_id;
use crate::storage::DataKey;
use crate::storage::DataKeyView;
use crate::storage::Value;
use crate::types::Achievement;
use crate::types::AchievementView;
use crate::types::Address;
use crate::types::Error;
use crate::types::Status;
use vstd::prelude::*;

verus! {

/// The records of a list as mathematical values.
pub open spec fn views(records: Vec<Achievement>) -> Seq<AchievementView> {
    records@.map_values(|a: Achievement| a@)
}

/// The outcome of a listing as a mathematical value.
pub open spec fn listing(r: Result<Vec<Achievement>, Error>) -> Result<
    Seq<AchievementView>,
    Error,
> {
    match r {
        Ok(records) => Ok(views(records)),
        Err(e) => Err(e),
    }
}

/// Passes only where the caller is the administrator.
pub fn require_admin(env: &Env) -> (r: Result<(), Error>)
    ensures
        r == admin_gate(env@.storage, env@.caller),
{
    match env.storage.get(&DataKey::Admin) {
        None => Err(Error::Unauthorized),
        Some(Value::Holder(admin)) => {
            if admin.same(&env.caller) {
                Ok(())
            } else {
                Err(Error::Unauthorized)
            }
        },
        Some(_) => Err(Error::StoreCorruption),
    }
}

/// Passes only where the caller is `owner`.
pub fn require_owner(env: &Env, owner: &Address) -> (r: Result<(), Error>)
    ensures
        r == if env@.caller == owner@ {
            Ok::<(), Error>(())
        } else {
            Err::<(), Error>(Error::Unauthorized)
        },
{
    if env.caller.same(owner) {
        Ok(())
    } else {
        Err(Error::Unauthorized)
    }
}

/// Whether `addr` is a whitelisted verifier.
pub fn is_verifier(env: &Env, addr: &Address) -> (r: bool)
    ensures
        r == verifier_listed(env@.storage, addr@),
{
    env.storage.has(&DataKey::Verifier(addr.clone()))
}

/// The identifier allocated last.
fn read_counter(env: &Env) -> (r: Result<u64, Error>)
    ensures
        r == stored_counter(env@.storage),
{
    match env.storage.get(&DataKey::NextId) {
        None => Ok(0),
        Some(Value::Counter(n)) => Ok(*n),
        Some(_) => Err(Error::StoreCorruption),
    }
}

/// A copy of the record stored under `id`.
fn read_record(env: &Env, id: u64) -> (r: Result<Achievement, Error>)
    ensures
        match r {
            Ok(record) => stored_record(env@.storage, id) == Ok::<AchievementView, Error>(record@),
            Err(e) => stored_record(env@.storage, id) == Err::<AchievementView, Error>(e),
        },
{
    match env.storage.get(&DataKey::AchievementById(id)) {
        None => Err(Error::NotFound),
        Some(Value::Record(record)) => Ok(record.clone()),
        Some(_) => Err(Error::StoreCorruption),
    }
}

/// A copy of the list stored under `key`.
fn read_ids(env: &Env, key: &DataKey) -> (r: Result<Vec<u64>, Error>)
    ensures
        match r {
            Ok(ids) => stored_ids(env@.storage, key@) == Ok::<Seq<u64>, Error>(ids@),
            Err(e) => stored_ids(env@.storage, key@) == Err::<Seq<u64>, Error>(e),
        },
{
    match env.storage.get(key) {
        None => Ok(Vec::new()),
        Some(Value::Ids(ids)) => Ok(ids.clone()),
        Some(_) => Err(Error::StoreCorruption),
    }
}

/// Appends `id` to the list stored under `key`, starting the list where the
/// slot is empty. Fails, and changes nothing, where the slot holds no list.
pub fn push_id(env: &mut Env, key: DataKey, id: u64) -> (r: Result<(), Error>)
    ensures
        match r {
            Ok(()) => stored_ids(old(env)@.storage, key@) is Ok && final(env)@ == (EnvView {
                storage: with_id(old(env)@.storage, key@, id),
                ..old(env)@
            }),
            Err(e) => e == Error::StoreCorruption && stored_ids(old(env)@.storage, key@) is Err
                && final(env)@ == old(env)@,
        },
{
    match read_ids(env, &key) {
        Err(e) => Err(e),
        Ok(mut ids) => {
            ids.push(id);
            env.storage.set(key, Value::Ids(ids));
            Ok(())
        },
    }
}

/// Copies of the records that `ids` names, in the order of `ids`. Fails with
/// the error of the first identifier under which no record can be read.
pub fn map_ids(env: &Env, ids: Vec<u64>) -> (r: Result<Vec<Achievement>, Error>)
    ensures
        listing(r) == mapped(env@.storage, ids@),
{
    let mut res: Vec<Achievement> = Vec::new();
    let mut i: usize = 0;
    while i < ids.len()
        invariant
            i <= ids.len(),
            res.len() == i,
            forall|j: int| 0 <= j < i ==> readable(env@.storage, ids[j]),
            forall|j: int|
                0 <= j < i ==> (#[trigger] res[j])@ == stored_record(
                    env@.storage,
                    ids[j],
                ).unwrap(),
        decreases ids.len() - i,
    {
        proof {
            lemma_first_unreadable(env@.storage, ids@);
        }
        match read_record(env, ids[i]) {
            Err(e) => {
                return Err(e);
            },
            Ok(record) => {
                res.push(record);
            },
        }
        i += 1;
    }
    proof {
        lemma_first_unreadable(env@.storage, ids@);
        assert(views(res) =~= records_of(env@.storage, ids@));
    }
    Ok(res)
}

/// Adds the notification of `event` about record `id` to those sent.
pub fn ach_emit(env: &mut Env, event: Event, id: u64)
    ensures
        final(env)@ == (EnvView {
            events: old(env)@.events.push(Notification { event, id }),
            ..old(env)@
        }),
{
    env.events.push(Notification { event, id });
}

/// The registry of achievements.
pub struct AchievementsContract;

impl AchievementsContract {
    /// Sets the administrator, once: the caller names itself. The counter of
    /// identifiers starts at 0.
    pub fn init(env: &mut Env, admin: Address) -> (r: Result<(), Error>)
        ensures
            r == if old(env)@.storage.contains_key(DataKeyView::Admin) {
                Err::<(), Error>(Error::AlreadyInitialized)
            } else if old(env)@.caller != admin@ {
                Err::<(), Error>(Error::Unauthorized)
            } else {
                Ok::<(), Error>(())
            },
            final(env)@ == if r is Ok {
                EnvView { storage: initialized(old(env)@.storage, admin@), ..old(env)@ }
            } else {
                old(env)@
            },
            consistent(old(env)@.storage) && stored_counter(old(env)@.storage) == Ok::<u64, Error>(
                0,
            ) ==> consistent(final(env)@.storage),
            stages_kept(old(env)@.storage, final(env)@.storage),
    {
        proof {
            if consistent(env@.storage) && stored_counter(env@.storage) == Ok::<u64, Error>(0) {
                lemma_init_keeps_consistency(env@.storage, admin@);
            }
        }
        if env.storage.has(&DataKey::Admin) {
            return Err(Error::AlreadyInitialized);
        }
        if !env.caller.same(&admin) {
            return Err(Error::Unauthorized);
        }
        env.storage.set(DataKey::Admin, Value::Holder(admin));
        env.storage.set(DataKey::NextId, Value::Counter(0));
        Ok(())
    }

    /// Puts `verifier` on the whitelist. Only the administrator may.
    pub fn add_verifier(env: &mut Env, verifier: Address) -> (r: Result<(), Error>)
        ensures
            r == admin_gate(old(env)@.storage, old(env)@.caller),
            final(env)@ == if r is Ok {
                EnvView {
                    storage: old(env)@.storage.insert(
                        DataKeyView::Verifier(verifier@),
                        crate::storage::ValueView::Marker,
                    ),
                    ..old(env)@
                }
            } else {
                old(env)@
            },
            consistent(old(env)@.storage) ==> consistent(final(env)@.storage),
            stages_kept(old(env)@.storage, final(env)@.storage),
    {
        proof {
            if consistent(env@.storage) {
                lemma_whitelist_keeps_consistency(env@.storage, verifier@);
            }
        }
        match require_admin(env) {
            Err(e) => Err(e),
            Ok(()) => {
                env.storage.set(DataKey::Verifier(verifier), Value::Marker);
                Ok(())
            },
        }
    }

    /// Takes `verifier` off the whitelist; nothing changes where it was not on
    /// it. Only the administrator may.
    pub fn remove_verifier(env: &mut Env, verifier: Address) -> (r: Result<(), Error>)
        ensures
            r == admin_gate(old(env)@.storage, old(env)@.caller),
            final(env)@ == if r is Ok {
                EnvView {
                    storage: old(env)@.storage.remove(DataKeyView::Verifier(verifier@)),
                    ..old(env)@
                }
            } else {
                old(env)@
            },
            consistent(old(env)@.storage) ==> consistent(final(env)@.storage),
            stages_kept(old(env)@.storage, final(env)@.storage),
    {
        proof {
            if consistent(env@.storage) {
                lemma_whitelist_keeps_consistency(env@.storage, verifier@);
            }
        }
        match require_admin(env) {
            Err(e) => Err(e),
            Ok(()) => {
                env.storage.remove(&DataKey::Verifier(verifier));
                Ok(())
            },
        }
    }

    /// Creates a draft for `owner`, who must be the caller, under the next
    /// identifier, and enters it in its owner's and its category's list.
    pub fn create_achievement(
        env: &mut Env,
        owner: Address,
        title: String,
        description: String,
        category: String,
        evidence_uri: String,
    ) -> (r: Result<u64, Error>)
        requires
            stored_counter(old(env)@.storage) != Ok::<u64, Error>(u64::MAX),
        ensures
            match r {
                Ok(id) => {
                    let record = draft(
                        old(env)@.storage,
                        old(env)@.timestamp,
                        owner@,
                        title@,
                        description@,
                        category@,
                        evidence_uri@,
                    );
                    &&& create_gate(old(env)@, owner@, category@) is Ok
                    &&& id == record.id
                    &&& id == stored_counter(old(env)@.storage).unwrap() + 1
                    &&& final(env)@ == committed(
                        old(env)@,
                        created(old(env)@.storage, record),
                        Event::AchievementCreated,
                        id,
                    )
                },
                Err(e) => create_gate(old(env)@, owner@, category@) == Err::<(), Error>(e)
                    && final(env)@ == old(env)@,
            },
            consistent(old(env)@.storage) ==> consistent(final(env)@.storage),
            consistent(old(env)@.storage) ==> stages_kept(old(env)@.storage, final(env)@.storage),
    {
        proof {
            if consistent(env@.storage) {
                lemma_next_id_is_fresh(
                    env@.storage,
                    (stored_counter(env@.storage).unwrap() + 1) as u64,
                );
            }
        }
        proof {
            if consistent(env@.storage) {
                lemma_create_keeps_consistency(
                    env@.storage,
                    draft(
                        env@.storage,
                        env@.timestamp,
                        owner@,
                        title@,
                        description@,
                        category@,
                        evidence_uri@,
                    ),
                );
            }
        }
        match require_owner(env, &owner) {
            Err(e) => {
                return Err(e);
            },
            Ok(()) => {},
        }
        let owner_key = DataKey::AchievementsByOwner(owner.clone());
        let category_key = DataKey::AchievementsByCategory(category.clone());
        let counter = match read_counter(env) {
            Err(e) => {
                return Err(e);
            },
            Ok(n) => n,
        };
        if !Self::holds_list(env, &owner_key) || !Self::holds_list(env, &category_key) {
            return Err(Error::StoreCorruption);
        }
        let next_id: u64 = counter + 1;
        env.storage.set(DataKey::NextId, Value::Counter(next_id));
        let ach = Achievement {
            id: next_id,
            owner,
            title,
            description,
            category,
            evidence_uri,
            timestamp: env.timestamp,
            status: Status::Draft,
        };
        env.storage.set(DataKey::AchievementById(next_id), Value::Record(ach));
        let by_owner = push_id(env, owner_key, next_id);
        let by_category = push_id(env, category_key, next_id);
        assert(by_owner is Ok && by_category is Ok);
        ach_emit(env, Event::AchievementCreated, next_id);
        Ok(next_id)
    }

    /// Whether the slot of `key` is empty or holds a list.
    fn holds_list(env: &Env, key: &DataKey) -> (r: bool)
        ensures
            r == stored_ids(env@.storage, key@) is Ok,
    {
        match env.storage.get(key) {
            None => true,
            Some(Value::Ids(_)) => true,
            Some(_) => false,
        }
    }

    /// Overwrites the given fields of the draft under `id`; the others stay.
    /// Only the record's owner may, and only while the record is a draft. The
    /// lists by owner and by category stay as they are.
    pub fn update_achievement(
        env: &mut Env,
        id: u64,
        title: Option<String>,
        description: Option<String>,
        category: Option<String>,
        evidence_uri: Option<String>,
    ) -> (r: Result<Achievement, Error>)
        ensures
            match r {
                Ok(ach) => {
                    &&& update_gate(old(env)@, id) is Ok
                    &&& ach@ == edited(
                        update_gate(old(env)@, id).unwrap(),
                        text_of(title),
                        text_of(description),
                        text_of(category),
                        text_of(evidence_uri),
                    )
                    &&& final(env)@ == committed(
                        old(env)@,
                        recorded(old(env)@.storage, id, ach@),
                        Event::AchievementUpdated,
                        id,
                    )
                },
                Err(e) => update_gate(old(env)@, id) == Err::<AchievementView, Error>(e)
                    && final(env)@ == old(env)@,
            },
            consistent(old(env)@.storage) ==> consistent(final(env)@.storage),
            stages_kept(old(env)@.storage, final(env)@.storage),
    {
        let mut ach = match read_record(env, id) {
            Err(e) => {
                return Err(e);
            },
            Ok(record) => record,
        };
        match require_owner(env, &ach.owner) {
            Err(e) => {
                return Err(e);
            },
            Ok(()) => {},
        }
        match ach.status {
            Status::Draft => {},
            _ => {
                return Err(Error::InvalidState);
            },
        }
        if let Some(t) = title {
            ach.title = t;
        }
        if let Some(d) = description {
            ach.description = d;
        }
        if let Some(c) = category {
            ach.category = c;
        }
        if let Some(e) = evidence_uri {
            ach.evidence_uri = e;
        }
        proof {
            if consistent(env@.storage) {
                lemma_record_change_keeps_consistency(env@.storage, id, ach@);
            }
        }
        env.storage.set(DataKey::AchievementById(id), Value::Record(ach.clone()));
        ach_emit(env, Event::AchievementUpdated, id);
        Ok(ach)
    }

    /// Sets the stage of the record under `id` to minted, whatever it was
    /// before. Only the record's owner may.
    pub fn mint_achievement(env: &mut Env, id: u64) -> (r: Result<Achievement, Error>)
        ensures
            match r {
                Ok(ach) => {
                    &&& owner_gate(old(env)@, id) is Ok
                    &&& ach@ == staged(owner_gate(old(env)@, id).unwrap(), Status::Minted)
                    &&& final(env)@ == committed(
                        old(env)@,
                        recorded(old(env)@.storage, id, ach@),
                        Event::AchievementMinted,
                        id,
                    )
                },
                Err(e) => owner_gate(old(env)@, id) == Err::<AchievementView, Error>(e)
                    && final(env)@ == old(env)@,
            },
            consistent(old(env)@.storage) ==> consistent(final(env)@.storage),
            !(stored_record(old(env)@.storage, id) is Ok && stored_record(
                old(env)@.storage,
                id,
            ).unwrap().status == Status::Verified) ==> stages_kept(
                old(env)@.storage,
                final(env)@.storage,
            ),
    {
        let mut ach = match read_record(env, id) {
            Err(e) => {
                return Err(e);
            },
            Ok(record) => record,
        };
        match require_owner(env, &ach.owner) {
            Err(e) => {
                return Err(e);
            },
            Ok(()) => {},
        }
        ach.status = Status::Minted;
        proof {
            if consistent(env@.storage) {
                lemma_record_change_keeps_consistency(env@.storage, id, ach@);
            }
        }
        env.storage.set(DataKey::AchievementById(id), Value::Record(ach.clone()));
        ach_emit(env, Event::AchievementMinted, id);
        Ok(ach)
    }

    /// Sets the stage of the record under `id` to verified, whatever it was
    /// before. The caller must be `verifier`, and `verifier` on the whitelist:
    /// both are checked before the record is looked for.
    pub fn verify_achievement(env: &mut Env, id: u64, verifier: Address) -> (r: Result<
        Achievement,
        Error,
    >)
        ensures
            match r {
                Ok(ach) => {
                    &&& verify_gate(old(env)@, id, verifier@) is Ok
                    &&& ach@ == staged(
                        verify_gate(old(env)@, id, verifier@).unwrap(),
                        Status::Verified,
                    )
                    &&& final(env)@ == committed(
                        old(env)@,
                        recorded(old(env)@.storage, id, ach@),
                        Event::AchievementVerified,
                        id,
                    )
                },
                Err(e) => verify_gate(old(env)@, id, verifier@) == Err::<AchievementView, Error>(e)
                    && final(env)@ == old(env)@,
            },
            consistent(old(env)@.storage) ==> consistent(final(env)@.storage),
            stages_kept(old(env)@.storage, final(env)@.storage),
    {
        match require_owner(env, &verifier) {
            Err(e) => {
                return Err(e);
            },
            Ok(()) => {},
        }
        if !is_verifier(env, &verifier) {
            return Err(Error::Unauthorized);
        }
        let mut ach = match read_record(env, id) {
            Err(e) => {
                return Err(e);
            },
            Ok(record) => record,
        };
        ach.status = Status::Verified;
        proof {
            if consistent(env@.storage) {
                lemma_record_change_keeps_consistency(env@.storage, id, ach@);
            }
        }
        env.storage.set(DataKey::AchievementById(id), Value::Record(ach.clone()));
        ach_emit(env, Event::AchievementVerified, id);
        Ok(ach)
    }

    /// A copy of the record under `id`. Anyone may read.
    pub fn get_achievement(env: &Env, id: u64) -> (r: Result<Achievement, Error>)
        ensures
            match r {
                Ok(ach) => stored_record(env@.storage, id) == Ok::<AchievementView, Error>(ach@),
                Err(e) => stored_record(env@.storage, id) == Err::<AchievementView, Error>(e),
            },
    {
        read_record(env, id)
    }

    /// Copies of the records that `owner` created, oldest first. Anyone may read.
    pub fn list_by_owner(env: &Env, owner: Address) -> (r: Result<Vec<Achievement>, Error>)
        ensures
            listing(r) == listed(
                env@.storage,
                DataKeyView::AchievementsByOwner(owner@),
            ),
    {
        Self::list(env, DataKey::AchievementsByOwner(owner))
    }

    /// Copies of the records created under `category`, oldest first. Anyone may read.
    pub fn list_by_category(env: &Env, category: String) -> (r: Result<Vec<Achievement>, Error>)
        ensures
            listing(r) == listed(
                env@.storage,
                DataKeyView::AchievementsByCategory(category@),
            ),
    {
        Self::list(env, DataKey::AchievementsByCategory(category))
    }

    /// Copies of the records that the list under `key` names.
    fn list(env: &Env, key: DataKey) -> (r: Result<Vec<Achievement>, Error>)
        ensures
            listing(r) == listed(
                env@.storage,
                key@,
            ),
    {
        match read_ids(env, &key) {
            Err(e) => Err(e),
            Ok(ids) => map_ids(env, ids),
        }
    }
}

} // verus!
