use achievements::contract::ach_emit;
use achievements::contract::is_verifier;
use achievements::contract::map_ids;
use achievements::contract::push_id;
use achievements::contract::require_admin;
use achievements::contract::require_owner;
use achievements::Achievement;
use achievements::AchievementsContract;
use achievements::Address;
use achievements::DataKey;
use achievements::Env;
use achievements::Error;
use achievements::Event;
use achievements::Notification;
use achievements::Status;
use achievements::Storage;
use achievements::Value;

fn admin() -> Address {
    Address::from_str("GADMIN")
}

fn owner() -> Address {
    Address::from_str("GOWNER")
}

fn attester() -> Address {
    Address::from_str("GVERIFIER")
}

fn stranger() -> Address {
    Address::from_str("GSTRANGER")
}

/// An initialized registry with `attester()` on the whitelist, at time 1000.
fn ready() -> Env {
    let mut env = Env::new(admin(), 1000);
    AchievementsContract::init(&mut env, admin()).unwrap();
    AchievementsContract::add_verifier(&mut env, attester()).unwrap();
    env
}

fn create(env: &mut Env, who: Address, title: &str, category: &str) -> u64 {
    env.caller = who.clone();
    AchievementsContract::create_achievement(
        env,
        who,
        String::from(title),
        String::from("description"),
        String::from(category),
        String::from("ipfs://cid123"),
    )
    .unwrap()
}

#[test]
fn end_to_end_scenario() {
    let mut env = Env::new(admin(), 1000);
    assert_eq!(AchievementsContract::init(&mut env, admin()), Ok(()));
    assert_eq!(AchievementsContract::add_verifier(&mut env, attester()), Ok(()));

    env.caller = owner();
    env.timestamp = 2000;
    let id = AchievementsContract::create_achievement(
        &mut env,
        owner(),
        String::from("100-day streak"),
        String::from("Solved 750+ problems and maintained daily practice"),
        String::from("coding"),
        String::from("ipfs://cid123"),
    )
    .unwrap();
    assert_eq!(id, 1);

    let updated = AchievementsContract::update_achievement(
        &mut env,
        id,
        Some(String::from("101-day streak")),
        None,
        None,
        None,
    )
    .unwrap();
    assert_eq!(updated.title, "101-day streak");
    assert_eq!(updated.status, Status::Draft);

    let minted = AchievementsContract::mint_achievement(&mut env, id).unwrap();
    assert_eq!(minted.status.as_str(), "minted");

    let late = AchievementsContract::update_achievement(
        &mut env,
        id,
        Some(String::from("102-day streak")),
        None,
        None,
        None,
    );
    assert_eq!(late, Err(Error::InvalidState));

    env.caller = attester();
    let verified = AchievementsContract::verify_achievement(&mut env, id, attester()).unwrap();
    assert_eq!(verified.status.as_str(), "verified");

    let mine = AchievementsContract::list_by_owner(&env, owner()).unwrap();
    assert_eq!(mine.len(), 1);
    assert_eq!(mine[0].id, id);
    assert_eq!(mine[0].status.as_str(), "verified");
    assert_eq!(
        mine[0],
        Achievement {
            id: 1,
            owner: owner(),
            title: String::from("101-day streak"),
            description: String::from("Solved 750+ problems and maintained daily practice"),
            category: String::from("coding"),
            evidence_uri: String::from("ipfs://cid123"),
            timestamp: 2000,
            status: Status::Verified,
        }
    );
}

#[test]
fn verify_by_identity_never_added_fails_and_keeps_status() {
    let mut env = ready();
    let id = create(&mut env, owner(), "t", "coding");
    env.caller = stranger();
    let refused = AchievementsContract::verify_achievement(&mut env, id, stranger());
    assert_eq!(refused, Err(Error::Unauthorized));
    let got = AchievementsContract::get_achievement(&env, id).unwrap();
    assert_eq!(got.status, Status::Draft);

    env.caller = owner();
    AchievementsContract::mint_achievement(&mut env, id).unwrap();
    env.caller = stranger();
    let refused = AchievementsContract::verify_achievement(&mut env, id, stranger());
    assert_eq!(refused, Err(Error::Unauthorized));
    let got = AchievementsContract::get_achievement(&env, id).unwrap();
    assert_eq!(got.status, Status::Minted);
}

#[test]
fn owner_cannot_verify_unless_whitelisted() {
    let mut env = ready();
    let id = create(&mut env, owner(), "t", "coding");
    env.caller = owner();
    assert_eq!(
        AchievementsContract::verify_achievement(&mut env, id, owner()),
        Err(Error::Unauthorized)
    );
    env.caller = admin();
    AchievementsContract::add_verifier(&mut env, owner()).unwrap();
    env.caller = owner();
    let verified = AchievementsContract::verify_achievement(&mut env, id, owner()).unwrap();
    assert_eq!(verified.status, Status::Verified);
}

#[test]
fn verify_needs_the_caller_to_be_the_verifier_named() {
    let mut env = ready();
    let id = create(&mut env, owner(), "t", "coding");
    env.caller = owner();
    assert_eq!(
        AchievementsContract::verify_achievement(&mut env, id, attester()),
        Err(Error::Unauthorized)
    );
}

#[test]
fn verify_checks_the_role_before_the_record() {
    let mut env = ready();
    env.caller = stranger();
    assert_eq!(
        AchievementsContract::verify_achievement(&mut env, 99, stranger()),
        Err(Error::Unauthorized)
    );
    env.caller = attester();
    assert_eq!(
        AchievementsContract::verify_achievement(&mut env, 99, attester()),
        Err(Error::NotFound)
    );
}

#[test]
fn ids_start_at_one_and_count_up() {
    let mut env = ready();
    let a = create(&mut env, owner(), "a", "coding");
    let b = create(&mut env, stranger(), "b", "poetry");
    let c = create(&mut env, owner(), "c", "poetry");
    assert_eq!((a, b, c), (1, 2, 3));
    assert_eq!(env.storage.get(&DataKey::NextId), Some(&Value::Counter(3)));
}

#[test]
fn ids_start_at_one_without_init() {
    let mut env = Env::new(owner(), 5);
    let a = create(&mut env, owner(), "a", "coding");
    assert_eq!(a, 1);
}

#[test]
fn created_record_is_a_draft_with_the_time_of_the_call() {
    let mut env = ready();
    env.timestamp = 4242;
    let id = create(&mut env, owner(), "title", "coding");
    let got = AchievementsContract::get_achievement(&env, id).unwrap();
    assert_eq!(
        got,
        Achievement {
            id,
            owner: owner(),
            title: String::from("title"),
            description: String::from("description"),
            category: String::from("coding"),
            evidence_uri: String::from("ipfs://cid123"),
            timestamp: 4242,
            status: Status::Draft,
        }
    );
}

#[test]
fn indices_name_the_records_of_their_key() {
    let mut env = ready();
    let a = create(&mut env, owner(), "a", "coding");
    let b = create(&mut env, stranger(), "b", "coding");
    let c = create(&mut env, owner(), "c", "poetry");

    assert_eq!(
        env.storage.get(&DataKey::AchievementsByOwner(owner())),
        Some(&Value::Ids(vec![a, c]))
    );
    assert_eq!(
        env.storage.get(&DataKey::AchievementsByCategory(String::from("coding"))),
        Some(&Value::Ids(vec![a, b]))
    );

    let mine = AchievementsContract::list_by_owner(&env, owner()).unwrap();
    assert_eq!(mine.len(), 2);
    assert_eq!((mine[0].id, mine[1].id), (a, c));
    assert!(mine.iter().all(|r| r.owner == owner()));

    let coding =
        AchievementsContract::list_by_category(&env, String::from("coding")).unwrap();
    assert_eq!(coding.len(), 2);
    assert_eq!((coding[0].id, coding[1].id), (a, b));
    assert!(coding.iter().all(|r| r.category == "coding"));

    let poetry =
        AchievementsContract::list_by_category(&env, String::from("poetry")).unwrap();
    assert_eq!(poetry.len(), 1);
    assert_eq!(poetry[0].id, c);
}

#[test]
fn listing_an_unknown_key_is_empty() {
    let env = ready();
    assert_eq!(AchievementsContract::list_by_owner(&env, stranger()), Ok(vec![]));
    assert_eq!(
        AchievementsContract::list_by_category(&env, String::from("none")),
        Ok(vec![])
    );
}

#[test]
fn category_index_keeps_the_category_at_creation() {
    let mut env = ready();
    let id = create(&mut env, owner(), "a", "coding");
    let edited = AchievementsContract::update_achievement(
        &mut env,
        id,
        None,
        None,
        Some(String::from("poetry")),
        None,
    )
    .unwrap();
    assert_eq!(edited.category, "poetry");
    let coding =
        AchievementsContract::list_by_category(&env, String::from("coding")).unwrap();
    assert_eq!(coding.len(), 1);
    assert_eq!(coding[0].id, id);
    assert_eq!(coding[0].category, "poetry");
    assert_eq!(
        AchievementsContract::list_by_category(&env, String::from("poetry")),
        Ok(vec![])
    );
}

#[test]
fn update_overwrites_only_the_fields_given() {
    let mut env = ready();
    env.timestamp = 77;
    let id = create(&mut env, owner(), "a", "coding");
    env.timestamp = 99;
    let first = AchievementsContract::update_achievement(
        &mut env,
        id,
        None,
        Some(String::from("new description")),
        None,
        Some(String::from("ipfs://cid456")),
    )
    .unwrap();
    assert_eq!(first.title, "a");
    assert_eq!(first.description, "new description");
    assert_eq!(first.category, "coding");
    assert_eq!(first.evidence_uri, "ipfs://cid456");
    let second = AchievementsContract::update_achievement(
        &mut env,
        id,
        Some(String::from("b")),
        None,
        None,
        None,
    )
    .unwrap();
    assert_eq!(second.title, "b");
    assert_eq!(second.description, "new description");
    // identifier, owner, creation time and stage stay
    assert_eq!(second.id, id);
    assert_eq!(second.owner, owner());
    assert_eq!(second.timestamp, 77);
    assert_eq!(second.status, Status::Draft);
    assert_eq!(AchievementsContract::get_achievement(&env, id), Ok(second));
}

#[test]
fn update_with_nothing_given_changes_nothing() {
    let mut env = ready();
    let id = create(&mut env, owner(), "a", "coding");
    let before = AchievementsContract::get_achievement(&env, id).unwrap();
    let after =
        AchievementsContract::update_achievement(&mut env, id, None, None, None, None).unwrap();
    assert_eq!(before, after);
}

#[test]
fn no_update_once_the_draft_stage_is_left() {
    let mut env = ready();
    let id = create(&mut env, owner(), "a", "coding");
    AchievementsContract::mint_achievement(&mut env, id).unwrap();
    let before = AchievementsContract::get_achievement(&env, id).unwrap();
    assert_eq!(
        AchievementsContract::update_achievement(&mut env, id, None, None, None, None),
        Err(Error::InvalidState)
    );
    env.caller = attester();
    AchievementsContract::verify_achievement(&mut env, id, attester()).unwrap();
    env.caller = owner();
    assert_eq!(
        AchievementsContract::update_achievement(
            &mut env,
            id,
            Some(String::from("x")),
            None,
            None,
            None
        ),
        Err(Error::InvalidState)
    );
    let after = AchievementsContract::get_achievement(&env, id).unwrap();
    assert_eq!(after.title, before.title);
    assert_eq!(after.status, Status::Verified);
}

#[test]
fn update_and_mint_are_for_the_owner() {
    let mut env = ready();
    let id = create(&mut env, owner(), "a", "coding");
    env.caller = stranger();
    assert_eq!(
        AchievementsContract::update_achievement(&mut env, id, None, None, None, None),
        Err(Error::Unauthorized)
    );
    assert_eq!(AchievementsContract::mint_achievement(&mut env, id), Err(Error::Unauthorized));
    env.caller = attester();
    assert_eq!(AchievementsContract::mint_achievement(&mut env, id), Err(Error::Unauthorized));
    env.caller = admin();
    assert_eq!(AchievementsContract::mint_achievement(&mut env, id), Err(Error::Unauthorized));
    let got = AchievementsContract::get_achievement(&env, id).unwrap();
    assert_eq!(got.status, Status::Draft);
}

#[test]
fn unauthorized_comes_before_invalid_state() {
    let mut env = ready();
    let id = create(&mut env, owner(), "a", "coding");
    AchievementsContract::mint_achievement(&mut env, id).unwrap();
    env.caller = stranger();
    assert_eq!(
        AchievementsContract::update_achievement(&mut env, id, None, None, None, None),
        Err(Error::Unauthorized)
    );
}

#[test]
fn unknown_id_is_not_found() {
    let mut env = ready();
    env.caller = owner();
    assert_eq!(AchievementsContract::get_achievement(&env, 1), Err(Error::NotFound));
    assert_eq!(
        AchievementsContract::update_achievement(&mut env, 1, None, None, None, None),
        Err(Error::NotFound)
    );
    assert_eq!(AchievementsContract::mint_achievement(&mut env, 1), Err(Error::NotFound));
    assert_eq!(AchievementsContract::get_achievement(&env, 0), Err(Error::NotFound));
}

#[test]
fn mint_and_verify_set_the_stage_whatever_it_was() {
    let mut env = ready();
    let id = create(&mut env, owner(), "a", "coding");
    // a draft can be verified
    env.caller = attester();
    let verified = AchievementsContract::verify_achievement(&mut env, id, attester()).unwrap();
    assert_eq!(verified.status, Status::Verified);
    // and verified again
    let again = AchievementsContract::verify_achievement(&mut env, id, attester()).unwrap();
    assert_eq!(again.status, Status::Verified);
    // minting a verified record sets it to minted
    env.caller = owner();
    let minted = AchievementsContract::mint_achievement(&mut env, id).unwrap();
    assert_eq!(minted.status, Status::Minted);
    assert_eq!(AchievementsContract::get_achievement(&env, id).unwrap().status, Status::Minted);
}

#[test]
fn init_runs_once() {
    let mut env = Env::new(admin(), 0);
    assert_eq!(AchievementsContract::init(&mut env, admin()), Ok(()));
    assert_eq!(env.storage.get(&DataKey::Admin), Some(&Value::Holder(admin())));
    assert_eq!(env.storage.get(&DataKey::NextId), Some(&Value::Counter(0)));
    assert_eq!(AchievementsContract::init(&mut env, admin()), Err(Error::AlreadyInitialized));
    env.caller = stranger();
    assert_eq!(
        AchievementsContract::init(&mut env, stranger()),
        Err(Error::AlreadyInitialized)
    );
    assert_eq!(env.storage.get(&DataKey::Admin), Some(&Value::Holder(admin())));
}

#[test]
fn init_needs_the_caller_to_be_the_admin_named() {
    let mut env = Env::new(stranger(), 0);
    assert_eq!(AchievementsContract::init(&mut env, admin()), Err(Error::Unauthorized));
    assert!(!env.storage.has(&DataKey::Admin));
    assert!(!env.storage.has(&DataKey::NextId));
}

#[test]
fn whitelist_is_for_the_admin() {
    let mut env = Env::new(admin(), 0);
    // before init nobody is the administrator
    assert_eq!(AchievementsContract::add_verifier(&mut env, attester()), Err(Error::Unauthorized));
    assert_eq!(require_admin(&env), Err(Error::Unauthorized));
    AchievementsContract::init(&mut env, admin()).unwrap();
    assert_eq!(require_admin(&env), Ok(()));
    env.caller = stranger();
    assert_eq!(require_admin(&env), Err(Error::Unauthorized));
    assert_eq!(AchievementsContract::add_verifier(&mut env, attester()), Err(Error::Unauthorized));
    assert!(!is_verifier(&env, &attester()));
    env.caller = admin();
    assert_eq!(AchievementsContract::add_verifier(&mut env, attester()), Ok(()));
    assert!(is_verifier(&env, &attester()));
    env.caller = attester();
    assert_eq!(
        AchievementsContract::remove_verifier(&mut env, attester()),
        Err(Error::Unauthorized)
    );
    assert!(is_verifier(&env, &attester()));
}

#[test]
fn adding_and_removing_a_verifier_twice_is_no_error() {
    let mut env = ready();
    assert_eq!(AchievementsContract::add_verifier(&mut env, attester()), Ok(()));
    assert!(is_verifier(&env, &attester()));
    assert_eq!(AchievementsContract::remove_verifier(&mut env, attester()), Ok(()));
    assert!(!is_verifier(&env, &attester()));
    assert_eq!(AchievementsContract::remove_verifier(&mut env, attester()), Ok(()));
    assert_eq!(AchievementsContract::remove_verifier(&mut env, stranger()), Ok(()));
    assert!(!is_verifier(&env, &attester()));
    assert!(!is_verifier(&env, &stranger()));
}

#[test]
fn removed_verifier_can_no_longer_verify() {
    let mut env = ready();
    let id = create(&mut env, owner(), "a", "coding");
    env.caller = admin();
    AchievementsContract::remove_verifier(&mut env, attester()).unwrap();
    env.caller = attester();
    assert_eq!(
        AchievementsContract::verify_achievement(&mut env, id, attester()),
        Err(Error::Unauthorized)
    );
}

#[test]
fn create_is_for_the_owner_named() {
    let mut env = ready();
    env.caller = stranger();
    let refused = AchievementsContract::create_achievement(
        &mut env,
        owner(),
        String::from("t"),
        String::from("d"),
        String::from("coding"),
        String::from("u"),
    );
    assert_eq!(refused, Err(Error::Unauthorized));
    assert_eq!(env.storage.get(&DataKey::NextId), Some(&Value::Counter(0)));
    assert!(!env.storage.has(&DataKey::AchievementById(1)));
    assert!(!env.storage.has(&DataKey::AchievementsByOwner(owner())));
    assert!(!env.storage.has(&DataKey::AchievementsByCategory(String::from("coding"))));
    assert!(env.events.is_empty());
}

#[test]
fn require_owner_compares_the_caller() {
    let env = Env::new(owner(), 0);
    assert_eq!(require_owner(&env, &owner()), Ok(()));
    assert_eq!(require_owner(&env, &stranger()), Err(Error::Unauthorized));
    assert_eq!(require_owner(&env, &Address::from_str("GOWNER ")), Err(Error::Unauthorized));
}

#[test]
fn each_success_sends_its_notification() {
    let mut env = ready();
    assert!(env.events.is_empty());
    let id = create(&mut env, owner(), "a", "coding");
    AchievementsContract::update_achievement(&mut env, id, None, None, None, None).unwrap();
    AchievementsContract::mint_achievement(&mut env, id).unwrap();
    // a failure sends nothing
    assert!(AchievementsContract::update_achievement(&mut env, id, None, None, None, None)
        .is_err());
    env.caller = attester();
    AchievementsContract::verify_achievement(&mut env, id, attester()).unwrap();
    assert_eq!(
        env.events,
        vec![
            Notification { event: Event::AchievementCreated, id },
            Notification { event: Event::AchievementUpdated, id },
            Notification { event: Event::AchievementMinted, id },
            Notification { event: Event::AchievementVerified, id },
        ]
    );
}

#[test]
fn ach_emit_appends() {
    let mut env = Env::new(owner(), 0);
    ach_emit(&mut env, Event::AchievementMinted, 7);
    ach_emit(&mut env, Event::AchievementCreated, 8);
    assert_eq!(
        env.events,
        vec![
            Notification { event: Event::AchievementMinted, id: 7 },
            Notification { event: Event::AchievementCreated, id: 8 },
        ]
    );
    assert!(!env.storage.has(&DataKey::NextId));
}

#[test]
fn event_and_status_names() {
    assert_eq!(Event::AchievementCreated.as_str(), "AchievementCreated");
    assert_eq!(Event::AchievementUpdated.as_str(), "AchievementUpdated");
    assert_eq!(Event::AchievementMinted.as_str(), "AchievementMinted");
    assert_eq!(Event::AchievementVerified.as_str(), "AchievementVerified");
    assert_eq!(Event::topic(), "ACH");
    assert_eq!(Status::Draft.as_str(), "draft");
    assert_eq!(Status::Minted.as_str(), "minted");
    assert_eq!(Status::Verified.as_str(), "verified");
    assert_eq!(Status::parse("draft"), Some(Status::Draft));
    assert_eq!(Status::parse("minted"), Some(Status::Minted));
    assert_eq!(Status::parse("verified"), Some(Status::Verified));
    assert_eq!(Status::parse("Draft"), None);
    assert_eq!(Status::parse(""), None);
}

#[test]
fn push_id_starts_and_extends_a_list() {
    let mut env = Env::new(owner(), 0);
    let key = DataKey::AchievementsByOwner(owner());
    assert_eq!(push_id(&mut env, key.clone(), 4), Ok(()));
    assert_eq!(env.storage.get(&key), Some(&Value::Ids(vec![4])));
    assert_eq!(push_id(&mut env, key.clone(), 9), Ok(()));
    assert_eq!(env.storage.get(&key), Some(&Value::Ids(vec![4, 9])));
    // a slot that holds no list is left alone
    env.storage.set(DataKey::Admin, Value::Holder(admin()));
    assert_eq!(push_id(&mut env, DataKey::Admin, 1), Err(Error::StoreCorruption));
    assert_eq!(env.storage.get(&DataKey::Admin), Some(&Value::Holder(admin())));
}

#[test]
fn map_ids_reads_in_order_and_stops_at_the_first_gap() {
    let mut env = ready();
    let a = create(&mut env, owner(), "a", "coding");
    let b = create(&mut env, owner(), "b", "coding");
    let both = map_ids(&env, vec![b, a, b]).unwrap();
    assert_eq!(both.len(), 3);
    assert_eq!((both[0].id, both[1].id, both[2].id), (b, a, b));
    assert_eq!(both[1].title, "a");
    assert_eq!(map_ids(&env, vec![]), Ok(vec![]));
    assert_eq!(map_ids(&env, vec![a, 17, b]), Err(Error::NotFound));
    env.storage.set(DataKey::AchievementById(17), Value::Marker);
    assert_eq!(map_ids(&env, vec![a, 17, 18]), Err(Error::StoreCorruption));
    assert_eq!(map_ids(&env, vec![18, 17]), Err(Error::NotFound));
}

#[test]
fn listing_fails_where_an_index_names_no_record() {
    let mut env = ready();
    let a = create(&mut env, owner(), "a", "coding");
    env.storage.remove(&DataKey::AchievementById(a));
    assert_eq!(AchievementsContract::list_by_owner(&env, owner()), Err(Error::NotFound));
    assert_eq!(
        AchievementsContract::list_by_category(&env, String::from("coding")),
        Err(Error::NotFound)
    );
}

#[test]
fn slots_of_the_wrong_kind_are_reported() {
    let mut env = Env::new(owner(), 0);
    env.storage.set(DataKey::NextId, Value::Marker);
    let refused = AchievementsContract::create_achievement(
        &mut env,
        owner(),
        String::from("t"),
        String::from("d"),
        String::from("coding"),
        String::from("u"),
    );
    assert_eq!(refused, Err(Error::StoreCorruption));
    assert_eq!(env.storage.get(&DataKey::NextId), Some(&Value::Marker));

    let mut env = Env::new(owner(), 0);
    env.storage.set(DataKey::AchievementsByCategory(String::from("coding")), Value::Counter(1));
    let refused = AchievementsContract::create_achievement(
        &mut env,
        owner(),
        String::from("t"),
        String::from("d"),
        String::from("coding"),
        String::from("u"),
    );
    assert_eq!(refused, Err(Error::StoreCorruption));
    assert!(!env.storage.has(&DataKey::NextId));
    assert!(!env.storage.has(&DataKey::AchievementById(1)));
    assert!(!env.storage.has(&DataKey::AchievementsByOwner(owner())));

    let mut env = Env::new(owner(), 0);
    env.storage.set(DataKey::AchievementsByOwner(owner()), Value::Marker);
    assert_eq!(AchievementsContract::list_by_owner(&env, owner()), Err(Error::StoreCorruption));

    let mut env = Env::new(owner(), 0);
    env.storage.set(DataKey::AchievementById(3), Value::Ids(vec![1]));
    assert_eq!(AchievementsContract::get_achievement(&env, 3), Err(Error::StoreCorruption));
    assert_eq!(AchievementsContract::mint_achievement(&mut env, 3), Err(Error::StoreCorruption));

    let mut env = Env::new(admin(), 0);
    env.storage.set(DataKey::Admin, Value::Counter(0));
    assert_eq!(require_admin(&env), Err(Error::StoreCorruption));
    assert_eq!(
        AchievementsContract::add_verifier(&mut env, attester()),
        Err(Error::StoreCorruption)
    );
}

#[test]
fn storage_keeps_one_value_for_each_key() {
    let mut store = Storage::new();
    assert!(!store.has(&DataKey::NextId));
    assert_eq!(store.get(&DataKey::NextId), None);
    store.set(DataKey::NextId, Value::Counter(1));
    store.set(DataKey::AchievementById(1), Value::Marker);
    store.set(DataKey::AchievementById(2), Value::Counter(22));
    store.set(DataKey::Verifier(owner()), Value::Marker);
    store.set(DataKey::AchievementsByOwner(owner()), Value::Ids(vec![1, 2]));
    store.set(DataKey::NextId, Value::Counter(2));
    assert_eq!(store.get(&DataKey::NextId), Some(&Value::Counter(2)));
    assert_eq!(store.get(&DataKey::AchievementById(2)), Some(&Value::Counter(22)));
    assert_eq!(store.get(&DataKey::AchievementById(3)), None);
    // keys of different families with the same text are different keys
    assert!(store.has(&DataKey::Verifier(owner())));
    assert!(store.has(&DataKey::AchievementsByOwner(owner())));
    assert!(!store.has(&DataKey::AchievementsByCategory(String::from("GOWNER"))));
    store.remove(&DataKey::Verifier(owner()));
    assert!(!store.has(&DataKey::Verifier(owner())));
    assert!(store.has(&DataKey::AchievementsByOwner(owner())));
    store.remove(&DataKey::AchievementById(1));
    store.remove(&DataKey::AchievementById(1));
    assert_eq!(store.get(&DataKey::AchievementById(1)), None);
    assert_eq!(store.get(&DataKey::AchievementById(2)), Some(&Value::Counter(22)));
    assert_eq!(store.get(&DataKey::NextId), Some(&Value::Counter(2)));
    assert_eq!(
        store.get(&DataKey::AchievementsByOwner(owner())),
        Some(&Value::Ids(vec![1, 2]))
    );
}

#[test]
fn keys_and_addresses_compare_by_content() {
    assert!(owner().same(&Address::from_str("GOWNER")));
    assert!(!owner().same(&admin()));
    assert!(DataKey::Admin.same(&DataKey::Admin));
    assert!(!DataKey::Admin.same(&DataKey::NextId));
    assert!(DataKey::AchievementById(3).same(&DataKey::AchievementById(3)));
    assert!(!DataKey::AchievementById(3).same(&DataKey::AchievementById(4)));
    assert!(!DataKey::Verifier(owner()).same(&DataKey::AchievementsByOwner(owner())));
    assert!(DataKey::AchievementsByCategory(String::from("a"))
        .same(&DataKey::AchievementsByCategory(String::from("a"))));
    assert!(!DataKey::AchievementsByCategory(String::from("a"))
        .same(&DataKey::AchievementsByCategory(String::from("b"))));
    assert_eq!(DataKey::Verifier(owner()).clone(), DataKey::Verifier(owner()));
    assert_eq!(Value::Ids(vec![1, 2]).clone(), Value::Ids(vec![1, 2]));
}

#[test]
fn a_failed_call_leaves_the_records_as_they_were() {
    let mut env = ready();
    let id = create(&mut env, owner(), "a", "coding");
    let before = AchievementsContract::get_achievement(&env, id).unwrap();
    let sent = env.events.len();
    env.caller = stranger();
    assert!(AchievementsContract::update_achievement(
        &mut env,
        id,
        Some(String::from("x")),
        Some(String::from("y")),
        Some(String::from("z")),
        Some(String::from("w"))
    )
    .is_err());
    assert!(AchievementsContract::mint_achievement(&mut env, id).is_err());
    assert!(AchievementsContract::verify_achievement(&mut env, id, stranger()).is_err());
    assert_eq!(AchievementsContract::get_achievement(&env, id), Ok(before));
    assert_eq!(env.events.len(), sent);
    assert_eq!(env.storage.get(&DataKey::NextId), Some(&Value::Counter(1)));
}
