//! What holds of every state that the operations of the registry can reach
//! from the empty store.
use crate::env::EnvView;
use crate::model::created;
use crate::model::draft;
use crate::model::edited;
use crate::model::initialized;
use crate::model::lemma_first_unreadable;
use crate::model::listed;
use crate::model::readable;
use crate::model::recorded;
use crate::model::records_of;
use crate::model::staged;
use crate::model::stored_counter;
use crate::model::stored_ids;
use crate::model::stored_record;
use crate::model::update_gate;
use crate::model::verifier_listed;
use crate::model::verify_gate;
use crate::model::State;
use crate::storage::DataKeyView;
use crate::storage::ValueView;
use crate::types::AchievementView;
use crate::types::Error;
use crate::types::Status;
use vstd::prelude::*;

verus! {

/// Each entry is greater than those before it.
pub open spec fn increasing(ids: Seq<u64>) -> bool {
    forall|i: int, j: int| 0 <= i < j < ids.len() ==> ids[i] < ids[j]
}

/// The list under category `c` names `id`.
pub open spec fn in_category(m: State, c: Seq<char>, id: u64) -> bool {
    stored_ids(m, DataKeyView::AchievementsByCategory(c)) is Ok && stored_ids(
        m,
        DataKeyView::AchievementsByCategory(c),
    ).unwrap().contains(id)
}

/// A record can be read under `id`, and `o` owns it.
pub open spec fn owned_by(m: State, id: u64, o: Seq<char>) -> bool {
    stored_record(m, id) is Ok && stored_record(m, id).unwrap().owner == o
}

/// The slot of `id` holds a record that carries `id`, was allocated by the
/// counter, and is named by its owner's list and by the list of some category.
pub open spec fn record_sound(m: State, id: u64) -> bool {
    &&& stored_record(m, id) is Ok
    &&& stored_counter(m) is Ok
    &&& stored_record(m, id).unwrap().id == id
    &&& 1 <= id <= stored_counter(m).unwrap()
    &&& stored_ids(m, DataKeyView::AchievementsByOwner(stored_record(m, id).unwrap().owner)) is Ok
    &&& stored_ids(
        m,
        DataKeyView::AchievementsByOwner(stored_record(m, id).unwrap().owner),
    ).unwrap().contains(id)
    &&& exists|c: Seq<char>| in_category(m, c, id)
}

/// The list of owner `o` is increasing and names only records that `o` owns.
pub open spec fn owner_index_sound(m: State, o: Seq<char>) -> bool {
    &&& stored_ids(m, DataKeyView::AchievementsByOwner(o)) is Ok
    &&& increasing(stored_ids(m, DataKeyView::AchievementsByOwner(o)).unwrap())
    &&& forall|i: int|
        0 <= i < stored_ids(m, DataKeyView::AchievementsByOwner(o)).unwrap().len() ==> owned_by(
            m,
            #[trigger] stored_ids(m, DataKeyView::AchievementsByOwner(o)).unwrap()[i],
            o,
        )
}

/// The list of category `c` is increasing and names only records that can be read.
pub open spec fn category_index_sound(m: State, c: Seq<char>) -> bool {
    &&& stored_ids(m, DataKeyView::AchievementsByCategory(c)) is Ok
    &&& increasing(stored_ids(m, DataKeyView::AchievementsByCategory(c)).unwrap())
    &&& forall|i: int|
        0 <= i < stored_ids(m, DataKeyView::AchievementsByCategory(c)).unwrap().len() ==> readable(
            m,
            #[trigger] stored_ids(m, DataKeyView::AchievementsByCategory(c)).unwrap()[i],
        )
}

/// The store and its indices agree: every slot holds what its key calls for,
/// every stored record is sound, and so is every list by owner and by category.
pub open spec fn consistent(m: State) -> bool {
    &&& stored_counter(m) is Ok
    &&& m.contains_key(DataKeyView::Admin) ==> m[DataKeyView::Admin] is Holder
    &&& forall|id: u64|
        m.contains_key(DataKeyView::AchievementById(id)) ==> #[trigger] record_sound(m, id)
    &&& forall|o: Seq<char>|
        m.contains_key(DataKeyView::AchievementsByOwner(o)) ==> #[trigger] owner_index_sound(m, o)
    &&& forall|c: Seq<char>|
        m.contains_key(DataKeyView::AchievementsByCategory(c)) ==> #[trigger] category_index_sound(
            m,
            c,
        )
}

/// Every record that can be read in `m` can be read in `m2`, and stands there
/// at the same stage or a later one.
pub open spec fn stages_kept(m: State, m2: State) -> bool {
    forall|id: u64| #[trigger]
        readable(m, id) ==> readable(m2, id) && stored_record(m2, id).unwrap().status.rank()
            >= stored_record(m, id).unwrap().status.rank()
}

/// The empty store is consistent.
pub proof fn lemma_empty_is_consistent()
    ensures
        consistent(Map::<DataKeyView, ValueView>::empty()),
{
}

/// In a consistent store every identifier that a list by owner names can be
/// read, and the record read carries that identifier and belongs to that owner.
pub proof fn lemma_owner_index_matches_records(m: State, owner: Seq<char>, i: int)
    requires
        consistent(m),
        stored_ids(m, DataKeyView::AchievementsByOwner(owner)) is Ok,
        0 <= i < stored_ids(m, DataKeyView::AchievementsByOwner(owner)).unwrap().len(),
    ensures
        ({
            let id = stored_ids(m, DataKeyView::AchievementsByOwner(owner)).unwrap()[i];
            &&& stored_record(m, id) is Ok
            &&& stored_record(m, id).unwrap().owner == owner
            &&& stored_record(m, id).unwrap().id == id
        }),
{
    let id = stored_ids(m, DataKeyView::AchievementsByOwner(owner)).unwrap()[i];
    assert(owner_index_sound(m, owner));
    assert(owned_by(m, id, owner));
    assert(record_sound(m, id));
}

/// In a consistent store every identifier that a list by category names can
/// be read, and the record read carries that identifier.
pub proof fn lemma_category_index_matches_records(m: State, category: Seq<char>, i: int)
    requires
        consistent(m),
        stored_ids(m, DataKeyView::AchievementsByCategory(category)) is Ok,
        0 <= i < stored_ids(m, DataKeyView::AchievementsByCategory(category)).unwrap().len(),
    ensures
        ({
            let id = stored_ids(m, DataKeyView::AchievementsByCategory(category)).unwrap()[i];
            &&& stored_record(m, id) is Ok
            &&& stored_record(m, id).unwrap().id == id
        }),
{
    let id = stored_ids(m, DataKeyView::AchievementsByCategory(category)).unwrap()[i];
    assert(category_index_sound(m, category));
    assert(readable(m, id));
    assert(record_sound(m, id));
}

/// In a consistent store every stored record is named by the list of its
/// owner and by the list of some category.
pub proof fn lemma_records_are_indexed(m: State, id: u64)
    requires
        consistent(m),
        stored_record(m, id) is Ok,
    ensures
        stored_record(m, id).unwrap().id == id,
        stored_ids(
            m,
            DataKeyView::AchievementsByOwner(stored_record(m, id).unwrap().owner),
        ).unwrap().contains(id),
        exists|c: Seq<char>| in_category(m, c, id),
{
    assert(record_sound(m, id));
}

/// In a consistent store no record is stored under an identifier beyond the
/// counter: the next identifier is fresh.
pub proof fn lemma_next_id_is_fresh(m: State, id: u64)
    requires
        consistent(m),
        id > stored_counter(m).unwrap(),
    ensures
        !m.contains_key(DataKeyView::AchievementById(id)),
{
    if m.contains_key(DataKeyView::AchievementById(id)) {
        assert(record_sound(m, id));
    }
}

/// Setting the administrator keeps a store consistent in which the counter
/// stands at 0.
pub proof fn lemma_init_keeps_consistency(m: State, admin: Seq<char>)
    requires
        consistent(m),
        stored_counter(m) == Ok::<u64, Error>(0),
    ensures
        consistent(initialized(m, admin)),
{
    let m2 = initialized(m, admin);
    assert forall|id: u64| m2.contains_key(DataKeyView::AchievementById(id)) implies record_sound(
        m2,
        id,
    ) by {
        assert(record_sound(m, id));
    }
    assert forall|o: Seq<char>|
        m2.contains_key(DataKeyView::AchievementsByOwner(o)) implies owner_index_sound(m2, o) by {
        assert(owner_index_sound(m, o));
        let ids = stored_ids(m, DataKeyView::AchievementsByOwner(o)).unwrap();
        assert forall|i: int| 0 <= i < ids.len() implies owned_by(m2, #[trigger] ids[i], o) by {
            assert(owned_by(m, ids[i], o));
        }
    }
    assert forall|c: Seq<char>|
        m2.contains_key(DataKeyView::AchievementsByCategory(c)) implies category_index_sound(
        m2,
        c,
    ) by {
        assert(category_index_sound(m, c));
        let ids = stored_ids(m, DataKeyView::AchievementsByCategory(c)).unwrap();
        assert forall|i: int| 0 <= i < ids.len() implies readable(m2, #[trigger] ids[i]) by {
            assert(readable(m, ids[i]));
        }
    }
}

/// Putting a verifier on the whitelist, or taking one off, keeps a store consistent.
pub proof fn lemma_whitelist_keeps_consistency(m: State, verifier: Seq<char>)
    requires
        consistent(m),
    ensures
        consistent(m.insert(DataKeyView::Verifier(verifier), ValueView::Marker)),
        consistent(m.remove(DataKeyView::Verifier(verifier))),
{
    let added = m.insert(DataKeyView::Verifier(verifier), ValueView::Marker);
    let removed = m.remove(DataKeyView::Verifier(verifier));
    lemma_same_registry_is_consistent(m, added);
    lemma_same_registry_is_consistent(m, removed);
}

/// A state that differs from a consistent one only in its whitelist is consistent.
proof fn lemma_same_registry_is_consistent(m: State, m2: State)
    requires
        consistent(m),
        forall|k: DataKeyView|
            !(k is Verifier) ==> (m.contains_key(k) <==> m2.contains_key(k)) && (m.contains_key(k)
                ==> m[k] == m2[k]),
    ensures
        consistent(m2),
{
    assert(stored_counter(m2) == stored_counter(m));
    assert forall|k: DataKeyView| !(k is Verifier) implies stored_ids(m2, k) == stored_ids(
        m,
        k,
    ) by {}
    assert forall|id: u64| stored_record(m2, id) == stored_record(m, id) by {}
    assert forall|c: Seq<char>, id: u64| in_category(m2, c, id) == in_category(m, c, id) by {}
    assert forall|id: u64| m2.contains_key(DataKeyView::AchievementById(id)) implies record_sound(
        m2,
        id,
    ) by {
        assert(record_sound(m, id));
        let c = choose|c: Seq<char>| in_category(m, c, id);
        assert(in_category(m2, c, id));
    }
    assert forall|o: Seq<char>|
        m2.contains_key(DataKeyView::AchievementsByOwner(o)) implies owner_index_sound(m2, o) by {
        assert(owner_index_sound(m, o));
        let ids = stored_ids(m, DataKeyView::AchievementsByOwner(o)).unwrap();
        assert forall|i: int| 0 <= i < ids.len() implies owned_by(m2, #[trigger] ids[i], o) by {
            assert(owned_by(m, ids[i], o));
        }
    }
    assert forall|c: Seq<char>|
        m2.contains_key(DataKeyView::AchievementsByCategory(c)) implies category_index_sound(
        m2,
        c,
    ) by {
        assert(category_index_sound(m, c));
        let ids = stored_ids(m, DataKeyView::AchievementsByCategory(c)).unwrap();
        assert forall|i: int| 0 <= i < ids.len() implies readable(m2, #[trigger] ids[i]) by {
            assert(readable(m, ids[i]));
        }
    }
}

/// Replacing a stored record by one with the same identifier and owner keeps
/// a store consistent: editing, minting and verifying do so.
pub proof fn lemma_record_change_keeps_consistency(m: State, id: u64, record: AchievementView)
    requires
        consistent(m),
        stored_record(m, id) is Ok,
        record.id == stored_record(m, id).unwrap().id,
        record.owner == stored_record(m, id).unwrap().owner,
    ensures
        consistent(recorded(m, id, record)),
{
    let m2 = recorded(m, id, record);
    assert(record_sound(m, id));
    assert(stored_counter(m2) == stored_counter(m));
    assert forall|k: DataKeyView| !(k is AchievementById) implies stored_ids(m2, k) == stored_ids(
        m,
        k,
    ) by {}
    assert forall|c: Seq<char>, x: u64| in_category(m2, c, x) == in_category(m, c, x) by {}
    assert forall|x: u64| m2.contains_key(DataKeyView::AchievementById(x)) implies record_sound(
        m2,
        x,
    ) by {
        assert(record_sound(m, x));
        let c = choose|c: Seq<char>| in_category(m, c, x);
        assert(in_category(m2, c, x));
    }
    assert forall|o: Seq<char>|
        m2.contains_key(DataKeyView::AchievementsByOwner(o)) implies owner_index_sound(m2, o) by {
        assert(owner_index_sound(m, o));
        let ids = stored_ids(m, DataKeyView::AchievementsByOwner(o)).unwrap();
        assert forall|i: int| 0 <= i < ids.len() implies owned_by(m2, #[trigger] ids[i], o) by {
            assert(owned_by(m, ids[i], o));
        }
    }
    assert forall|c: Seq<char>|
        m2.contains_key(DataKeyView::AchievementsByCategory(c)) implies category_index_sound(
        m2,
        c,
    ) by {
        assert(category_index_sound(m, c));
        let ids = stored_ids(m, DataKeyView::AchievementsByCategory(c)).unwrap();
        assert forall|i: int| 0 <= i < ids.len() implies readable(m2, #[trigger] ids[i]) by {
            assert(readable(m, ids[i]));
        }
    }
}

/// The lists of a consistent store can be read, and name no identifier
/// beyond the counter.
proof fn lemma_lists_within_counter(m: State, key: DataKeyView)
    requires
        consistent(m),
        key is AchievementsByOwner || key is AchievementsByCategory,
    ensures
        stored_ids(m, key) is Ok,
        increasing(stored_ids(m, key).unwrap()),
        forall|i: int|
            0 <= i < stored_ids(m, key).unwrap().len() ==> readable(
                m,
                #[trigger] stored_ids(m, key).unwrap()[i],
            ) && stored_ids(m, key).unwrap()[i] <= stored_counter(m).unwrap(),
{
    if m.contains_key(key) {
        let ids = stored_ids(m, key).unwrap();
        match key {
            DataKeyView::AchievementsByOwner(o) => {
                assert(owner_index_sound(m, o));
                assert forall|i: int| 0 <= i < ids.len() implies readable(m, #[trigger] ids[i])
                    && ids[i] <= stored_counter(m).unwrap() by {
                    assert(owned_by(m, ids[i], o));
                    assert(record_sound(m, ids[i]));
                }
            },
            DataKeyView::AchievementsByCategory(c) => {
                assert(category_index_sound(m, c));
                assert forall|i: int| 0 <= i < ids.len() implies readable(m, #[trigger] ids[i])
                    && ids[i] <= stored_counter(m).unwrap() by {
                    assert(readable(m, ids[i]));
                    assert(record_sound(m, ids[i]));
                }
            },
            _ => {},
        }
    }
}

/// Creating a record under the identifier that follows the counter keeps a
/// store consistent.
pub proof fn lemma_create_keeps_consistency(m: State, record: AchievementView)
    requires
        consistent(m),
        record.id == stored_counter(m).unwrap() + 1,
    ensures
        consistent(created(m, record)),
{
    let m2 = created(m, record);
    let id = record.id;
    let owner_key = DataKeyView::AchievementsByOwner(record.owner);
    let category_key = DataKeyView::AchievementsByCategory(record.category);
    lemma_lists_within_counter(m, owner_key);
    lemma_lists_within_counter(m, category_key);
    lemma_next_id_is_fresh(m, id);
    let owner_ids = stored_ids(m, owner_key).unwrap();
    let category_ids = stored_ids(m, category_key).unwrap();
    assert(stored_counter(m2) == Ok::<u64, Error>(id));
    assert(stored_ids(m2, owner_key) == Ok::<Seq<u64>, Error>(owner_ids.push(id)));
    assert(stored_ids(m2, category_key) == Ok::<Seq<u64>, Error>(
        category_ids.push(id),
    ));
    assert(owner_ids.push(id)[owner_ids.len() as int] == id);
    assert(category_ids.push(id)[category_ids.len() as int] == id);
    assert(in_category(m2, record.category, id));
    assert forall|k: DataKeyView|
        (k is AchievementsByOwner || k is AchievementsByCategory) && k != owner_key && k
            != category_key implies stored_ids(m2, k) == stored_ids(m, k) by {}
    assert forall|x: u64| x != id implies stored_record(m2, x) == stored_record(m, x) by {}
    assert(stored_record(m2, id) == Ok::<AchievementView, Error>(record));
    assert forall|c: Seq<char>, x: u64| in_category(m, c, x) implies in_category(m2, c, x) by {
        if c == record.category {
            let at = choose|i: int| 0 <= i < category_ids.len() && category_ids[i] == x;
            assert(category_ids.push(id)[at] == x);
        }
    }
    assert forall|x: u64| m2.contains_key(DataKeyView::AchievementById(x)) implies record_sound(
        m2,
        x,
    ) by {
        if x != id {
            assert(record_sound(m, x));
            let old_record = stored_record(m, x).unwrap();
            if old_record.owner == record.owner {
                let at = choose|i: int| 0 <= i < owner_ids.len() && owner_ids[i] == x;
                assert(owner_ids.push(id)[at] == x);
            }
            let c = choose|c: Seq<char>| in_category(m, c, x);
            assert(in_category(m2, c, x));
        }
    }
    assert forall|o: Seq<char>|
        m2.contains_key(DataKeyView::AchievementsByOwner(o)) implies owner_index_sound(m2, o) by {
        let ids2 = stored_ids(m2, DataKeyView::AchievementsByOwner(o)).unwrap();
        if o == record.owner {
            assert forall|i: int| 0 <= i < ids2.len() implies owned_by(m2, #[trigger] ids2[i], o) by {
                if i < owner_ids.len() {
                    assert(readable(m, owner_ids[i]));
                    if m.contains_key(owner_key) {
                        assert(owner_index_sound(m, o));
                        assert(owned_by(m, owner_ids[i], o));
                    }
                }
            }
            assert forall|i: int, j: int| 0 <= i < j < ids2.len() implies ids2[i] < ids2[j] by {
                assert(readable(m, owner_ids[i]));
            }
        } else {
            assert(owner_index_sound(m, o));
            let ids = stored_ids(m, DataKeyView::AchievementsByOwner(o)).unwrap();
            lemma_lists_within_counter(m, DataKeyView::AchievementsByOwner(o));
            assert forall|i: int| 0 <= i < ids.len() implies owned_by(m2, #[trigger] ids[i], o) by {
                assert(owned_by(m, ids[i], o));
                assert(readable(m, ids[i]));
            }
        }
    }
    assert forall|c: Seq<char>|
        m2.contains_key(DataKeyView::AchievementsByCategory(c)) implies category_index_sound(
        m2,
        c,
    ) by {
        let ids2 = stored_ids(m2, DataKeyView::AchievementsByCategory(c)).unwrap();
        if c == record.category {
            assert forall|i: int| 0 <= i < ids2.len() implies readable(m2, #[trigger] ids2[i]) by {
                if i < category_ids.len() {
                    assert(readable(m, category_ids[i]));
                }
            }
            assert forall|i: int, j: int| 0 <= i < j < ids2.len() implies ids2[i] < ids2[j] by {
                assert(readable(m, category_ids[i]));
            }
        } else {
            assert(category_index_sound(m, c));
            let ids = stored_ids(m, DataKeyView::AchievementsByCategory(c)).unwrap();
            lemma_lists_within_counter(m, DataKeyView::AchievementsByCategory(c));
            assert forall|i: int| 0 <= i < ids.len() implies readable(m2, #[trigger] ids[i]) by {
                assert(readable(m, ids[i]));
            }
        }
    }
}

/// The stage of a record does not fall when the record is edited or verified,
/// nor when a record that is not yet verified is minted.
pub proof fn lemma_stage_does_not_fall(
    record: AchievementView,
    title: Option<Seq<char>>,
    description: Option<Seq<char>>,
    category: Option<Seq<char>>,
    evidence_uri: Option<Seq<char>>,
)
    ensures
        edited(record, title, description, category, evidence_uri).status.rank()
            >= record.status.rank(),
        staged(record, Status::Verified).status.rank() >= record.status.rank(),
        record.status != Status::Verified ==> staged(record, Status::Minted).status.rank()
            >= record.status.rank(),
{
}

/// In a consistent store the listing of an owner's records succeeds, and
/// gives, for each identifier of the owner's list and in its order, the record
/// stored under it, which carries that identifier and belongs to that owner.
pub proof fn lemma_owner_listing(m: State, owner: Seq<char>)
    requires
        consistent(m),
    ensures
        stored_ids(m, DataKeyView::AchievementsByOwner(owner)) is Ok,
        listed(m, DataKeyView::AchievementsByOwner(owner)) == Ok::<Seq<AchievementView>, Error>(
            records_of(m, stored_ids(m, DataKeyView::AchievementsByOwner(owner)).unwrap()),
        ),
        forall|i: int|
            0 <= i < stored_ids(m, DataKeyView::AchievementsByOwner(owner)).unwrap().len() ==> {
                let id = stored_ids(m, DataKeyView::AchievementsByOwner(owner)).unwrap()[i];
                let record = #[trigger] records_of(
                    m,
                    stored_ids(m, DataKeyView::AchievementsByOwner(owner)).unwrap(),
                )[i];
                &&& stored_record(m, id) == Ok::<AchievementView, Error>(record)
                &&& record.id == id
                &&& record.owner == owner
            },
{
    let key = DataKeyView::AchievementsByOwner(owner);
    lemma_lists_within_counter(m, key);
    lemma_first_unreadable(m, stored_ids(m, key).unwrap());
    let ids = stored_ids(m, key).unwrap();
    assert forall|i: int| 0 <= i < ids.len() implies {
        let record = #[trigger] records_of(m, ids)[i];
        &&& stored_record(m, ids[i]) == Ok::<AchievementView, Error>(record)
        &&& record.id == ids[i]
        &&& record.owner == owner
    } by {
        lemma_owner_index_matches_records(m, owner, i);
    }
}

/// In a consistent store the listing of a category's records succeeds, and
/// gives, for each identifier of the category's list and in its order, the
/// record stored under it, which carries that identifier.
pub proof fn lemma_category_listing(m: State, category: Seq<char>)
    requires
        consistent(m),
    ensures
        stored_ids(m, DataKeyView::AchievementsByCategory(category)) is Ok,
        listed(m, DataKeyView::AchievementsByCategory(category)) == Ok::<
            Seq<AchievementView>,
            Error,
        >(records_of(m, stored_ids(m, DataKeyView::AchievementsByCategory(category)).unwrap())),
        forall|i: int|
            0 <= i < stored_ids(m, DataKeyView::AchievementsByCategory(category)).unwrap().len()
                ==> {
                let id = stored_ids(m, DataKeyView::AchievementsByCategory(category)).unwrap()[i];
                let record = #[trigger] records_of(
                    m,
                    stored_ids(m, DataKeyView::AchievementsByCategory(category)).unwrap(),
                )[i];
                &&& stored_record(m, id) == Ok::<AchievementView, Error>(record)
                &&& record.id == id
            },
{
    let key = DataKeyView::AchievementsByCategory(category);
    lemma_lists_within_counter(m, key);
    lemma_first_unreadable(m, stored_ids(m, key).unwrap());
    let ids = stored_ids(m, key).unwrap();
    assert forall|i: int| 0 <= i < ids.len() implies {
        let record = #[trigger] records_of(m, ids)[i];
        &&& stored_record(m, ids[i]) == Ok::<AchievementView, Error>(record)
        &&& record.id == ids[i]
    } by {
        lemma_category_index_matches_records(m, category, i);
    }
}

/// What a store holds once `record` has been created in it: the counter
/// stands at the record's identifier, the record can be read under it, its
/// identifier is the last entry of the list of its owner and of the list of
/// the category it was created under, and every other slot is as it was.
pub proof fn lemma_created_state(m: State, record: AchievementView)
    requires
        stored_ids(m, DataKeyView::AchievementsByOwner(record.owner)) is Ok,
        stored_ids(m, DataKeyView::AchievementsByCategory(record.category)) is Ok,
    ensures
        stored_counter(created(m, record)) == Ok::<u64, Error>(record.id),
        stored_record(created(m, record), record.id) == Ok::<AchievementView, Error>(record),
        stored_ids(created(m, record), DataKeyView::AchievementsByOwner(record.owner)) == Ok::<
            Seq<u64>,
            Error,
        >(stored_ids(m, DataKeyView::AchievementsByOwner(record.owner)).unwrap().push(record.id)),
        stored_ids(created(m, record), DataKeyView::AchievementsByCategory(record.category))
            == Ok::<Seq<u64>, Error>(
            stored_ids(m, DataKeyView::AchievementsByCategory(record.category)).unwrap().push(
                record.id,
            ),
        ),
        forall|k: DataKeyView|
            k != DataKeyView::NextId && k != DataKeyView::AchievementById(record.id) && k
                != DataKeyView::AchievementsByOwner(record.owner) && k
                != DataKeyView::AchievementsByCategory(record.category) ==> (created(
                m,
                record,
            ).contains_key(k) <==> m.contains_key(k)) && created(m, record)[k] == m[k],
{
}

/// Putting a record in the slot of an identifier changes no other slot: the
/// lists by owner and by category stay as they are when a record is edited,
/// minted or verified.
pub proof fn lemma_recorded_state(m: State, id: u64, record: AchievementView)
    ensures
        stored_record(recorded(m, id, record), id) == Ok::<AchievementView, Error>(record),
        forall|k: DataKeyView|
            k != DataKeyView::AchievementById(id) ==> (recorded(m, id, record).contains_key(k)
                <==> m.contains_key(k)) && recorded(m, id, record)[k] == m[k],
{
}

/// What is asked for one new record.
pub struct Submission {
    pub owner: Seq<char>,
    pub title: Seq<char>,
    pub description: Seq<char>,
    pub category: Seq<char>,
    pub evidence_uri: Seq<char>,
    pub timestamp: u64,
}

/// The record that creating `s` in state `m` makes.
pub open spec fn submitted(m: State, s: Submission) -> AchievementView {
    draft(m, s.timestamp, s.owner, s.title, s.description, s.category, s.evidence_uri)
}

/// The state after the records of `subs` have been created one after the other.
pub open spec fn after_creates(m: State, subs: Seq<Submission>) -> State
    decreases subs.len(),
{
    if subs.len() == 0 {
        m
    } else {
        let before = after_creates(m, subs.drop_last());
        created(before, submitted(before, subs.last()))
    }
}

/// Identifiers count up: in a consistent store, the creations of `subs`, one
/// after the other, get the identifiers that follow the counter, each one
/// greater than the last, and leave the store consistent. From the empty store,
/// or one just initialized, they are 1, 2, 3 and so on.
pub proof fn lemma_ids_count_up(m: State, subs: Seq<Submission>)
    requires
        consistent(m),
        stored_counter(m).unwrap() + subs.len() <= u64::MAX,
    ensures
        consistent(after_creates(m, subs)),
        stored_counter(after_creates(m, subs)) == Ok::<u64, Error>(
            (stored_counter(m).unwrap() + subs.len()) as u64,
        ),
        forall|k: int|
            0 <= k < subs.len() ==> (#[trigger] submitted(
                after_creates(m, subs.take(k)),
                subs[k],
            )).id == stored_counter(m).unwrap() + k + 1,
    decreases subs.len(),
{
    if subs.len() > 0 {
        let front = subs.drop_last();
        lemma_ids_count_up(m, front);
        let before = after_creates(m, front);
        let record = submitted(before, subs.last());
        lemma_create_keeps_consistency(before, record);
        lemma_lists_within_counter(before, DataKeyView::AchievementsByOwner(record.owner));
        lemma_lists_within_counter(before, DataKeyView::AchievementsByCategory(record.category));
        lemma_created_state(before, record);
        assert forall|k: int| 0 <= k < subs.len() implies (#[trigger] submitted(
            after_creates(m, subs.take(k)),
            subs[k],
        )).id == stored_counter(m).unwrap() + k + 1 by {
            if k < front.len() {
                assert(front.take(k) =~= subs.take(k));
                assert(front[k] == subs[k]);
            } else {
                assert(subs.take(k) =~= front);
            }
        }
    } else {
        assert(stored_counter(m) is Ok);
    }
}

/// The fields that one edit gives.
pub struct Edit {
    pub title: Option<Seq<char>>,
    pub description: Option<Seq<char>>,
    pub category: Option<Seq<char>>,
    pub evidence_uri: Option<Seq<char>>,
}

/// `record` after the edits of `edits`, one after the other.
pub open spec fn after_edits(record: AchievementView, edits: Seq<Edit>) -> AchievementView
    decreases edits.len(),
{
    if edits.len() == 0 {
        record
    } else {
        let e = edits.last();
        edited(
            after_edits(record, edits.drop_last()),
            e.title,
            e.description,
            e.category,
            e.evidence_uri,
        )
    }
}

/// However often a record is edited, its identifier, its owner, its creation
/// time and its stage stay as they were.
pub proof fn lemma_edits_keep_identity(record: AchievementView, edits: Seq<Edit>)
    ensures
        after_edits(record, edits).id == record.id,
        after_edits(record, edits).owner == record.owner,
        after_edits(record, edits).timestamp == record.timestamp,
        after_edits(record, edits).status == record.status,
    decreases edits.len(),
{
    if edits.len() > 0 {
        lemma_edits_keep_identity(record, edits.drop_last());
    }
}

/// A record that has left the draft stage cannot be edited: the attempt is
/// refused, and with `InvalidState` where the caller is the record's owner.
pub proof fn lemma_no_edit_after_draft(env: EnvView, id: u64)
    requires
        stored_record(env.storage, id) is Ok,
        stored_record(env.storage, id).unwrap().status != Status::Draft,
    ensures
        update_gate(env, id) is Err,
        env.caller == stored_record(env.storage, id).unwrap().owner ==> update_gate(env, id)
            == Err::<AchievementView, Error>(Error::InvalidState),
{
}

/// Nobody who is not on the whitelist can verify, the record's owner included.
pub proof fn lemma_unlisted_verifier_is_refused(env: EnvView, id: u64, verifier: Seq<char>)
    requires
        !verifier_listed(env.storage, verifier),
    ensures
        verify_gate(env, id, verifier) == Err::<AchievementView, Error>(Error::Unauthorized),
{
}

} // verus!
