use krunker_link::commands::{lookup_target, unlink_account, verify_and_link, verify_and_link_at, RankedMode};
use krunker_link::flow::{start_verification, start_verification_at, FlowError};
use krunker_link::models::VerificationResult;
use krunker_link::store::{create_user, get_live_verification, get_user_by_discord_id, init_db, user_exists};

#[test]
fn ranked_mode_names() {
    assert_eq!(RankedMode::from_name("stats"), Some(RankedMode::Stats));
    assert_eq!(RankedMode::from_name("list"), Some(RankedMode::List));
    assert_eq!(RankedMode::from_name("Stats"), None);
    assert_eq!(RankedMode::from_name(""), None);
}

#[test]
fn lookup_prefers_the_named_account() {
    let mut store = init_db();
    create_user(&mut store, "Linked", "a", None, 0).unwrap();
    assert_eq!(lookup_target(&store, "a", Some("Named")), Some("Named".to_string()));
    assert_eq!(lookup_target(&store, "a", None), Some("Linked".to_string()));
    assert_eq!(lookup_target(&store, "b", None), None);
}

#[test]
fn verify_links_once_the_token_is_published() {
    let mut store = init_db();
    let token = start_verification_at(&mut store, "a", "P", "VERIFY-ABCDEFGH", 0).unwrap();
    assert_eq!(
        verify_and_link_at(&mut store, "a", &vec!["nothing".to_string()], 1),
        Ok(VerificationResult::NotFound { code: token.clone(), krunker_username: "P".to_string(), attempts: 1 })
    );
    assert!(!user_exists(&store, "a"));
    assert_eq!(
        verify_and_link_at(&mut store, "a", &vec![token.clone()], 2),
        Ok(VerificationResult::Success { krunker_username: "P".to_string() })
    );
    assert_eq!(get_user_by_discord_id(&store, "a").unwrap().username, "P");
    assert!(get_live_verification(&store, "a", 3).is_none());
    assert_eq!(verify_and_link_at(&mut store, "a", &vec![token], 3), Ok(VerificationResult::NoVerification));
}

#[test]
fn verify_reports_a_username_claimed_meanwhile() {
    let mut store = init_db();
    start_verification_at(&mut store, "a", "P", "VERIFY-ABCDEFGH", 0).unwrap();
    create_user(&mut store, "P", "b", None, 0).unwrap();
    assert_eq!(
        verify_and_link_at(&mut store, "a", &vec!["VERIFY-ABCDEFGH".to_string()], 1),
        Err(FlowError::UsernameTaken)
    );
    // The challenge stays, so the identity may retry or restart.
    assert!(get_live_verification(&store, "a", 1).is_some());
}

#[test]
fn verify_with_the_clock() {
    let mut store = init_db();
    let token = start_verification(&mut store, "a", "P").unwrap();
    assert!(verify_and_link(&mut store, "a", &vec![token]).is_ok());
    assert!(user_exists(&store, "a"));
}

#[test]
fn unlink_tells_whether_a_link_was_there() {
    let mut store = init_db();
    create_user(&mut store, "P", "a", None, 0).unwrap();
    assert!(unlink_account(&mut store, "a"));
    assert!(!user_exists(&store, "a"));
    assert!(!unlink_account(&mut store, "a"));
}
