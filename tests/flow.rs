use krunker_link::flow::{
    check_verification, check_verification_at, complete_verification, complete_verification_at,
    start_verification, start_verification_at, FlowError, VERIFICATION_EXPIRY_SECONDS,
};
use krunker_link::models::VerificationResult;
use krunker_link::store::{
    create_user, create_verification, get_live_verification, get_user_by_discord_id, init_db, user_exists,
    StoreError,
};

fn posts(texts: &[&str]) -> Vec<String> {
    texts.iter().map(|t| t.to_string()).collect()
}

#[test]
fn test_start_verification_success() {
    let mut store = init_db();
    let discord_id = "12345";
    let krunker_username = "Player1";

    let result = start_verification(&mut store, discord_id, krunker_username);
    assert!(result.is_ok());

    let code = result.unwrap();
    assert!(code.starts_with("VERIFY-"));
    assert_eq!(code.len(), 15);
}

#[test]
fn test_start_verification_already_linked() {
    let mut store = init_db();
    let discord_id = "12345";

    create_user(&mut store, "ExistingPlayer", discord_id, None, 0).unwrap();

    let result = start_verification(&mut store, discord_id, "NewPlayer");
    assert!(result.is_err());
    assert!(result.unwrap_err().message().contains("already linked"));
}

#[test]
fn test_complete_verification_already_exists() {
    let mut store = init_db();
    let discord_id = "12345";

    create_user(&mut store, "Player1", discord_id, None, 0).unwrap();

    let result = complete_verification(&mut store, discord_id, "Player2");
    assert!(result.is_err());
}

#[test]
fn test_ishaq_ayubi_verification_pull() {
    let mut store = init_db();

    let discord_id = "test_discord_user";
    let krunker_username = "IshaqAyubi";
    let code = "VERIFYB2C1A3";

    let now = chrono::Utc::now().timestamp();
    create_verification(&mut store, discord_id, krunker_username, code, now, now + 600).unwrap();

    // The feed of the account, as the stats service would hand it back.
    let feed = posts(&["gg everyone", "new clan soon"]);
    match check_verification(&mut store, discord_id, &feed) {
        Ok(VerificationResult::NotFound { code: c, krunker_username: u, attempts }) => {
            assert_eq!(c, code);
            assert_eq!(u, krunker_username);
            assert_eq!(attempts, 1);
        }
        other => panic!("Unexpected result: {:?}", other),
    }

    let feed = posts(&["proof: VERIFYB2C1A3"]);
    assert_eq!(
        check_verification(&mut store, discord_id, &feed),
        Ok(VerificationResult::Success { krunker_username: krunker_username.to_string() })
    );
}

#[test]
fn start_refuses_a_linked_identity_without_a_challenge() {
    let mut store = init_db();
    create_user(&mut store, "Linked", "u", None, 0).unwrap();
    assert_eq!(start_verification_at(&mut store, "u", "Other", "VERIFY-AAAAAAAA", 10), Err(FlowError::AlreadyLinked));
    assert!(get_live_verification(&store, "u", 10).is_none());
}

#[test]
fn start_sets_expiry_and_zero_attempts() {
    let mut store = init_db();
    let code = start_verification_at(&mut store, "u", "P", "VERIFY-AAAAAAAA", 1000).unwrap();
    assert_eq!(code, "VERIFY-AAAAAAAA");
    let v = get_live_verification(&store, "u", 1000).unwrap();
    assert_eq!(v.created_at, 1000);
    assert_eq!(v.expires_at, 1000 + VERIFICATION_EXPIRY_SECONDS);
    assert_eq!(v.expires_at, 1120);
    assert_eq!(v.attempts, 0);
    assert_eq!(v.krunker_username, "P");
}

#[test]
fn start_expiry_saturates_at_the_largest_time() {
    let mut store = init_db();
    start_verification_at(&mut store, "u", "P", "VERIFY-AAAAAAAA", i64::MAX - 5).unwrap();
    assert_eq!(get_live_verification(&store, "u", i64::MAX - 5).unwrap().expires_at, i64::MAX);
}

#[test]
fn start_with_a_token_held_elsewhere_is_code_taken() {
    let mut store = init_db();
    start_verification_at(&mut store, "a", "P", "VERIFY-AAAAAAAA", 0).unwrap();
    assert_eq!(start_verification_at(&mut store, "b", "Q", "VERIFY-AAAAAAAA", 0), Err(FlowError::CodeTaken));
    assert!(get_live_verification(&store, "b", 0).is_none());
}

#[test]
fn restart_may_reuse_the_own_token() {
    let mut store = init_db();
    start_verification_at(&mut store, "a", "P", "VERIFY-AAAAAAAA", 0).unwrap();
    assert_eq!(start_verification_at(&mut store, "a", "Q", "VERIFY-AAAAAAAA", 5), Ok("VERIFY-AAAAAAAA".to_string()));
    assert_eq!(get_live_verification(&store, "a", 5).unwrap().krunker_username, "Q");
}

#[test]
fn one_challenge_per_identity_after_many_starts() {
    let mut store = init_db();
    start_verification_at(&mut store, "a", "P1", "VERIFY-11111111", 0).unwrap();
    start_verification_at(&mut store, "a", "P2", "VERIFY-22222222", 1).unwrap();
    start_verification_at(&mut store, "a", "P3", "VERIFY-33333333", 2).unwrap();
    let v = get_live_verification(&store, "a", 3).unwrap();
    assert_eq!(v.code, "VERIFY-33333333");
    assert_eq!(v.krunker_username, "P3");
    // The earlier tokens are free again: another identity may hold them.
    assert!(start_verification_at(&mut store, "b", "Q", "VERIFY-11111111", 3).is_ok());
}

#[test]
fn restart_discards_the_first_token() {
    let mut store = init_db();
    let first = start_verification_at(&mut store, "a", "P", "VERIFY-FIRST111", 0).unwrap();
    let second = start_verification_at(&mut store, "a", "P", "VERIFY-SECOND22", 1).unwrap();
    let feed = vec![format!("my code is {}", first)];
    assert_eq!(
        check_verification_at(&mut store, "a", &feed, 2),
        Ok(VerificationResult::NotFound { code: second, krunker_username: "P".to_string(), attempts: 1 })
    );
}

#[test]
fn found_check_is_repeatable_and_counts_nothing() {
    let mut store = init_db();
    let code = start_verification_at(&mut store, "a", "P", "VERIFY-ABCDEFGH", 0).unwrap();
    let feed = vec![format!("x{}y", code)];
    let found = Ok(VerificationResult::Success { krunker_username: "P".to_string() });
    assert_eq!(check_verification_at(&mut store, "a", &feed, 10), found);
    assert_eq!(check_verification_at(&mut store, "a", &feed, 11), found);
    assert_eq!(get_live_verification(&store, "a", 12).unwrap().attempts, 0);
}

#[test]
fn five_misses_drop_the_challenge() {
    let mut store = init_db();
    start_verification_at(&mut store, "a", "P", "VERIFY-ABCDEFGH", 0).unwrap();
    let feed = posts(&["nothing here", "VERIFY-ABCDEFG"]);
    for n in 1..5 {
        assert_eq!(
            check_verification_at(&mut store, "a", &feed, n as i64),
            Ok(VerificationResult::NotFound {
                code: "VERIFY-ABCDEFGH".to_string(),
                krunker_username: "P".to_string(),
                attempts: n,
            })
        );
    }
    assert_eq!(check_verification_at(&mut store, "a", &feed, 5), Err(FlowError::TooManyAttempts));
    assert_eq!(check_verification_at(&mut store, "a", &feed, 6), Ok(VerificationResult::NoVerification));
    assert!(FlowError::TooManyAttempts.message().contains("(5)"));
}

#[test]
fn complete_twice_is_a_no_op_and_a_second_claim_is_refused() {
    let mut store = init_db();
    start_verification_at(&mut store, "a", "P", "VERIFY-ABCDEFGH", 0).unwrap();
    assert_eq!(complete_verification_at(&mut store, "a", "P", 3), Ok(()));
    assert_eq!(complete_verification_at(&mut store, "a", "P", 4), Ok(()));
    assert_eq!(get_user_by_discord_id(&store, "a").unwrap().day_created, 3);
    assert!(get_live_verification(&store, "a", 5).is_none());
    assert_eq!(complete_verification_at(&mut store, "b", "P", 5), Err(FlowError::UsernameTaken));
    assert!(!user_exists(&store, "b"));
    assert!(FlowError::UsernameTaken.message().contains("already linked to another"));
}

#[test]
fn complete_for_an_identity_linked_elsewhere_is_refused() {
    let mut store = init_db();
    create_user(&mut store, "Player1", "a", None, 0).unwrap();
    start_verification_at(&mut store, "b", "Player2", "VERIFY-ABCDEFGH", 0).unwrap();
    assert_eq!(complete_verification_at(&mut store, "a", "Player2", 1), Err(FlowError::AlreadyLinked));
    assert_eq!(get_user_by_discord_id(&store, "a").unwrap().username, "Player1");
}

#[test]
fn expired_challenge_reads_as_absent() {
    let mut store = init_db();
    let now = chrono::Utc::now().timestamp();
    create_verification(&mut store, "a", "P", "VERIFY-OLDOLDOL", now - 300, now - 1).unwrap();
    let feed = posts(&["VERIFY-OLDOLDOL"]);
    assert_eq!(check_verification(&mut store, "a", &feed), Ok(VerificationResult::NoVerification));
    assert_eq!(check_verification_at(&mut store, "a", &feed, now - 1), Ok(VerificationResult::NoVerification));
    assert_eq!(
        check_verification_at(&mut store, "a", &feed, now - 2),
        Ok(VerificationResult::Success { krunker_username: "P".to_string() })
    );
}

#[test]
fn no_challenge_reads_as_no_verification() {
    let mut store = init_db();
    assert_eq!(check_verification_at(&mut store, "nobody", &Vec::new(), 0), Ok(VerificationResult::NoVerification));
}

#[test]
fn end_to_end_link() {
    let mut store = init_db();
    let token = start_verification(&mut store, "U1", "PlayerX").unwrap();
    assert_eq!(
        check_verification(&mut store, "U1", &posts(&["hello"])),
        Ok(VerificationResult::NotFound { code: token.clone(), krunker_username: "PlayerX".to_string(), attempts: 1 })
    );
    let published = vec![format!("linking my account: {}", token)];
    assert_eq!(
        check_verification(&mut store, "U1", &published),
        Ok(VerificationResult::Success { krunker_username: "PlayerX".to_string() })
    );
    assert_eq!(complete_verification(&mut store, "U1", "PlayerX"), Ok(()));
    assert_eq!(start_verification(&mut store, "U1", "anything"), Err(FlowError::AlreadyLinked));
}

#[test]
fn storage_errors_have_their_own_message() {
    assert!(FlowError::Storage(StoreError::ConstraintViolation).message().contains("Storage"));
    assert!(FlowError::CodeTaken.message().contains("/link"));
}
