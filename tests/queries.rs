use krunker_link::store::{
    cleanup_expired_verifications, create_user, create_verification, delete_user, delete_verification,
    delete_verification_for, get_live_verification, get_user_by_discord_id, get_user_by_username,
    init_db, record_failed_attempt, user_exists, StoreError,
};

fn now() -> i64 {
    chrono::Utc::now().timestamp()
}

#[test]
fn test_create_and_get_user() {
    let mut store = init_db();

    let user_id = create_user(&mut store, "TestPlayer", "123456789", Some("US"), now()).unwrap();

    assert!(user_id > 0);

    let user = get_user_by_discord_id(&store, "123456789").expect("User should exist");

    assert_eq!(user.username, "TestPlayer");
    assert_eq!(user.discord_id, "123456789");
    assert_eq!(user.country, Some("US".to_string()));
}

#[test]
fn test_get_user_by_username() {
    let mut store = init_db();

    create_user(&mut store, "Player123", "999", None, now()).unwrap();

    let user = get_user_by_username(&store, "Player123").expect("User should exist");

    assert_eq!(user.discord_id, "999");
}

#[test]
fn test_user_exists() {
    let mut store = init_db();

    create_user(&mut store, "Test", "111", None, now()).unwrap();

    assert!(user_exists(&store, "111"));
    assert!(!user_exists(&store, "999"));
}

#[test]
fn test_delete_user() {
    let mut store = init_db();

    create_user(&mut store, "ToDelete", "333", None, now()).unwrap();
    delete_user(&mut store, "333");

    assert!(!user_exists(&store, "333"));
}

#[test]
fn test_create_and_get_verification() {
    let mut store = init_db();

    let now = now();
    let expires = now + 600;

    let verification_id =
        create_verification(&mut store, "discord123", "KrunkerPlayer", "VERIFY-ABC123", now, expires).unwrap();

    assert!(verification_id > 0);

    let verification = krunker_link::store::get_verification_by_code(&store, "VERIFY-ABC123", now)
        .expect("Verification should exist");

    assert_eq!(verification.discord_id, "discord123");
    assert_eq!(verification.krunker_username, "KrunkerPlayer");
    assert_eq!(verification.code, "VERIFY-ABC123");
    assert_eq!(verification.attempts, 0);
}

#[test]
fn test_expired_verification_not_returned() {
    let mut store = init_db();

    let now = now();
    let expires = now - 100;

    create_verification(&mut store, "discord456", "Player", "VERIFY-EXPIRED", now - 200, expires).unwrap();

    let result = krunker_link::store::get_verification_by_code(&store, "VERIFY-EXPIRED", now);

    assert!(result.is_none(), "Expired verification should not be returned");
}

#[test]
fn test_delete_verification() {
    let mut store = init_db();

    let now = now();
    let expires = now + 600;

    create_verification(&mut store, "discord789", "Player", "VERIFY-DELETE", now, expires).unwrap();

    delete_verification(&mut store, "VERIFY-DELETE");

    let result = krunker_link::store::get_verification_by_code(&store, "VERIFY-DELETE", now);

    assert!(result.is_none(), "Deleted verification should not exist");
}

#[test]
fn test_cleanup_expired_verifications() {
    let mut store = init_db();

    let now = now();

    create_verification(&mut store, "d1", "p1", "CODE1", now - 200, now - 100).unwrap();
    create_verification(&mut store, "d2", "p2", "CODE2", now, now + 600).unwrap();

    cleanup_expired_verifications(&mut store, now);

    assert!(krunker_link::store::get_verification_by_code(&store, "CODE1", now).is_none());
    // Gone from the table, not only expired: it is absent even at a time it was live.
    assert!(krunker_link::store::get_verification_by_code(&store, "CODE1", now - 150).is_none());
    assert!(krunker_link::store::get_verification_by_code(&store, "CODE2", now).is_some());
}

#[test]
fn test_unique_verification_code() {
    let mut store = init_db();

    let now = now();
    let expires = now + 600;

    create_verification(&mut store, "d1", "p1", "SAME-CODE", now, expires).unwrap();

    let result = create_verification(&mut store, "d2", "p2", "SAME-CODE", now, expires);

    assert!(result.is_err(), "Duplicate code should fail");
}

#[test]
fn duplicate_code_is_a_constraint_violation() {
    let mut store = init_db();
    create_verification(&mut store, "d1", "p1", "SAME-CODE", 10, 100).unwrap();
    assert_eq!(
        create_verification(&mut store, "d2", "p2", "SAME-CODE", 10, 100),
        Err(StoreError::ConstraintViolation)
    );
    assert!(get_live_verification(&store, "d2", 20).is_none());
}

#[test]
fn second_challenge_for_one_identity_is_refused() {
    let mut store = init_db();
    create_verification(&mut store, "d1", "p1", "CODE-A", 10, 100).unwrap();
    assert_eq!(
        create_verification(&mut store, "d1", "p2", "CODE-B", 10, 100),
        Err(StoreError::ConstraintViolation)
    );
    assert_eq!(get_live_verification(&store, "d1", 20).unwrap().code, "CODE-A");
}

#[test]
fn link_is_unique_on_both_sides() {
    let mut store = init_db();
    assert_eq!(create_user(&mut store, "Alice", "1", None, 5), Ok(1));
    assert_eq!(create_user(&mut store, "Alice", "2", None, 5), Err(StoreError::ConstraintViolation));
    assert_eq!(create_user(&mut store, "Bob", "1", None, 5), Err(StoreError::ConstraintViolation));
    assert_eq!(create_user(&mut store, "Bob", "2", None, 5), Ok(2));
    let alice = get_user_by_username(&store, "Alice").unwrap();
    assert_eq!(alice.id, 1);
    assert_eq!(alice.day_created, 5);
    assert!(get_user_by_username(&store, "alice").is_none());
}

#[test]
fn live_until_the_expiry_second() {
    let mut store = init_db();
    create_verification(&mut store, "d1", "p1", "CODE", 0, 100).unwrap();
    assert!(get_live_verification(&store, "d1", 99).is_some());
    assert!(get_live_verification(&store, "d1", 100).is_none());
}

#[test]
fn sweep_keeps_a_challenge_expiring_now() {
    let mut store = init_db();
    create_verification(&mut store, "d1", "p1", "CODE1", 0, 100).unwrap();
    create_verification(&mut store, "d2", "p2", "CODE2", 0, 99).unwrap();
    cleanup_expired_verifications(&mut store, 100);
    // The row expiring at 100 stays in the table but is no longer live.
    assert!(get_live_verification(&store, "d1", 100).is_none());
    assert!(get_live_verification(&store, "d1", 50).is_some());
    assert!(get_live_verification(&store, "d2", 50).is_none());
}

#[test]
fn failed_attempts_count_then_drop_the_challenge() {
    let mut store = init_db();
    create_verification(&mut store, "d1", "p1", "CODE", 0, 100).unwrap();
    assert_eq!(record_failed_attempt(&mut store, "d1"), 1);
    assert_eq!(record_failed_attempt(&mut store, "d1"), 2);
    assert_eq!(get_live_verification(&store, "d1", 1).unwrap().attempts, 2);
    assert_eq!(record_failed_attempt(&mut store, "d1"), 3);
    assert_eq!(record_failed_attempt(&mut store, "d1"), 4);
    assert_eq!(record_failed_attempt(&mut store, "d1"), 5);
    assert!(get_live_verification(&store, "d1", 1).is_none());
}

#[test]
fn delete_for_identity_leaves_others() {
    let mut store = init_db();
    create_verification(&mut store, "d1", "p1", "CODE1", 0, 100).unwrap();
    create_verification(&mut store, "d2", "p2", "CODE2", 0, 100).unwrap();
    delete_verification_for(&mut store, "d1");
    assert!(get_live_verification(&store, "d1", 1).is_none());
    assert!(get_live_verification(&store, "d2", 1).is_some());
}
