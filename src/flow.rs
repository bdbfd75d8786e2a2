use vstd::prelude::*;
use crate::clock::current_timestamp;
use crate::evidence::{evidence_found, posts_contain, texts};
use crate::models::{ChallengeModel, CheckOutcome, VerificationResult};
use crate::store::{
    ATTEMPT_LIMIT, Store, StoreError, StoreModel, bump_attempts, code_in_use, link_name, model_code, model_wf, create_user, create_verification,
    delete_verification_for, get_live_verification, get_user_by_username, insert_challenge,
    insert_link, live_challenge, record_failed_attempt, remove_challenge, user_exists,
    username_linked,
};
use crate::token::{generate_code, is_token};

verus! {

/// How long a challenge stays live, in seconds.
pub const VERIFICATION_EXPIRY_SECONDS: i64 = 120;

/// Why an operation of the linking flow did not go through.
#[derive(PartialEq, Eq, Structural, Clone, Copy, Debug)]
pub enum FlowError {
    /// The identity already holds a link.
    AlreadyLinked,
    /// The drawn token is held by another pending challenge; draw again.
    CodeTaken,
    /// The attempt budget is spent and the challenge was dropped.
    TooManyAttempts,
    /// The username is linked to another identity.
    UsernameTaken,
    /// The store refused the write.
    Storage(StoreError),
}

/// The sentence shown to the user for each error.
pub open spec fn error_text(e: FlowError) -> Seq<char> {
    match e {
        FlowError::AlreadyLinked => "You have already linked to a Krunker account. Use /unlink first."@,
        FlowError::CodeTaken => "That verification code is already in use. Please run /link again."@,
        FlowError::TooManyAttempts => "Too many verification attempts (5). Please start over with /link."@,
        FlowError::UsernameTaken => "This Krunker username is already linked to another Discord account."@,
        FlowError::Storage(StoreError::ConstraintViolation) => "Storage error: a uniqueness constraint was violated."@,
        FlowError::Storage(StoreError::IdsExhausted) => "Storage error: no row id is left."@,
    }
}

impl FlowError {
    /// A sentence for the user.
    pub fn message(&self) -> (s: String)
        ensures
            s@ == error_text(*self),
    {
        match self {
            FlowError::AlreadyLinked => {
                String::from_str("You have already linked to a Krunker account. Use /unlink first.")
            },
            FlowError::CodeTaken => {
                String::from_str("That verification code is already in use. Please run /link again.")
            },
            FlowError::TooManyAttempts => {
                String::from_str("Too many verification attempts (5). Please start over with /link.")
            },
            FlowError::UsernameTaken => {
                String::from_str("This Krunker username is already linked to another Discord account.")
            },
            FlowError::Storage(StoreError::ConstraintViolation) => {
                String::from_str("Storage error: a uniqueness constraint was violated.")
            },
            FlowError::Storage(StoreError::IdsExhausted) => {
                String::from_str("Storage error: no row id is left.")
            },
        }
    }
}

/// When a challenge opened at `now` expires.
pub open spec fn expiry(now: int) -> int {
    if now + VERIFICATION_EXPIRY_SECONDS > i64::MAX {
        i64::MAX as int
    } else {
        now + VERIFICATION_EXPIRY_SECONDS
    }
}

pub open spec fn text_result(r: Result<String, FlowError>) -> Result<Seq<char>, FlowError> {
    match r {
        Ok(s) => Ok(s@),
        Err(e) => Err(e),
    }
}

pub open spec fn outcome_result(r: Result<VerificationResult, FlowError>) -> Result<CheckOutcome, FlowError> {
    match r {
        Ok(v) => Ok(v@),
        Err(e) => Err(e),
    }
}

/// Starting a verification: refused for a linked identity; otherwise the
/// identity's earlier challenge is dropped and a fresh one holding `code` opened.
pub open spec fn start_spec(
    m: StoreModel,
    discord_id: Seq<char>,
    username: Seq<char>,
    code: Seq<char>,
    now: int,
) -> (StoreModel, Result<Seq<char>, FlowError>) {
    if m.links.contains_key(discord_id) {
        (m, Err(FlowError::AlreadyLinked))
    } else {
        let ins = insert_challenge(remove_challenge(m, discord_id), discord_id, username, code, now, expiry(now));
        (
            ins.0,
            match ins.1 {
                Ok(_) => Ok(code),
                Err(StoreError::ConstraintViolation) => Err(FlowError::CodeTaken),
                Err(e) => Err(FlowError::Storage(e)),
            },
        )
    }
}

/// Checking a verification against the posts found on the feed: a found token
/// changes nothing; a miss counts an attempt, and the last one drops the challenge.
pub open spec fn check_spec(
    m: StoreModel,
    discord_id: Seq<char>,
    posts: Seq<Seq<char>>,
    now: int,
) -> (StoreModel, Result<CheckOutcome, FlowError>) {
    match live_challenge(m, discord_id, now) {
        None => (m, Ok(CheckOutcome::NoVerification)),
        Some(c) => if evidence_found(posts, c.code) {
            (m, Ok(CheckOutcome::Success { username: c.username }))
        } else if c.attempts + 1 >= ATTEMPT_LIMIT {
            (remove_challenge(m, discord_id), Err(FlowError::TooManyAttempts))
        } else {
            (
                bump_attempts(m, discord_id),
                Ok(CheckOutcome::NotFound { code: c.code, username: c.username, attempts: c.attempts + 1 }),
            )
        },
    }
}

/// Completing a verification: the link is written (or found already written for
/// this identity) and the identity's challenge dropped.
pub open spec fn complete_spec(
    m: StoreModel,
    discord_id: Seq<char>,
    username: Seq<char>,
    now: int,
) -> (StoreModel, Result<(), FlowError>) {
    if username_linked(m, username) {
        if m.links.contains_key(discord_id) && m.links[discord_id].username == username {
            (remove_challenge(m, discord_id), Ok(()))
        } else {
            (m, Err(FlowError::UsernameTaken))
        }
    } else if m.links.contains_key(discord_id) {
        (m, Err(FlowError::AlreadyLinked))
    } else {
        let ins = insert_link(m, username, discord_id, None, now);
        match ins.1 {
            Ok(_) => (remove_challenge(ins.0, discord_id), Ok(())),
            Err(e) => (ins.0, Err(FlowError::Storage(e))),
        }
    }
}

fn expiry_of(now: i64) -> (e: i64)
    ensures
        e == expiry(now as int),
{
    if now > i64::MAX - VERIFICATION_EXPIRY_SECONDS {
        i64::MAX
    } else {
        now + VERIFICATION_EXPIRY_SECONDS
    }
}

/// Opens a challenge holding `code` at time `now` for `discord_id` to prove that
/// it controls `krunker_username`; the token to publish is returned.
pub fn start_verification_at(
    store: &mut Store,
    discord_id: &str,
    krunker_username: &str,
    code: &str,
    now: i64,
) -> (r: Result<String, FlowError>)
    requires
        old(store).wf(),
    ensures
        final(store).wf(),
        final(store)@ == start_spec(old(store)@, discord_id@, krunker_username@, code@, now as int).0,
        text_result(r) == start_spec(old(store)@, discord_id@, krunker_username@, code@, now as int).1,
{
    if user_exists(store, discord_id) {
        return Err(FlowError::AlreadyLinked);
    }
    delete_verification_for(store, discord_id);
    let expires_at = expiry_of(now);
    match create_verification(store, discord_id, krunker_username, code, now, expires_at) {
        Ok(_) => Ok(code.to_owned()),
        Err(StoreError::ConstraintViolation) => Err(FlowError::CodeTaken),
        Err(e) => Err(FlowError::Storage(e)),
    }
}

/// Opens a challenge for `discord_id` with a freshly drawn token at the current
/// time; the token to publish is returned.
pub fn start_verification(store: &mut Store, discord_id: &str, krunker_username: &str) -> (r: Result<String, FlowError>)
    requires
        old(store).wf(),
    ensures
        final(store).wf(),
        exists|code: Seq<char>, now: i64|
            {
                &&& is_token(code)
                &&& final(store)@ == start_spec(old(store)@, discord_id@, krunker_username@, code, now as int).0
                &&& text_result(r) == start_spec(old(store)@, discord_id@, krunker_username@, code, now as int).1
            },
{
    let code = generate_code();
    let now = current_timestamp();
    start_verification_at(store, discord_id, krunker_username, code.as_str(), now)
}

/// Checks the identity's live challenge at time `now` against `posts`, the
/// recent public posts of the challenge's username.
pub fn check_verification_at(
    store: &mut Store,
    discord_id: &str,
    posts: &Vec<String>,
    now: i64,
) -> (r: Result<VerificationResult, FlowError>)
    requires
        old(store).wf(),
    ensures
        final(store).wf(),
        final(store)@ == check_spec(old(store)@, discord_id@, texts(posts@), now as int).0,
        outcome_result(r) == check_spec(old(store)@, discord_id@, texts(posts@), now as int).1,
{
    match get_live_verification(store, discord_id, now) {
        None => Ok(VerificationResult::NoVerification),
        Some(v) => {
            if posts_contain(posts, v.code.as_str()) {
                Ok(VerificationResult::Success { krunker_username: v.krunker_username })
            } else {
                let attempts = record_failed_attempt(store, discord_id);
                if attempts >= ATTEMPT_LIMIT {
                    Err(FlowError::TooManyAttempts)
                } else {
                    Ok(VerificationResult::NotFound { code: v.code, krunker_username: v.krunker_username, attempts })
                }
            }
        },
    }
}

/// Checks the identity's live challenge at the current time against `posts`.
pub fn check_verification(
    store: &mut Store,
    discord_id: &str,
    posts: &Vec<String>,
) -> (r: Result<VerificationResult, FlowError>)
    requires
        old(store).wf(),
    ensures
        final(store).wf(),
        exists|now: i64|
            {
                &&& final(store)@ == check_spec(old(store)@, discord_id@, texts(posts@), now as int).0
                &&& outcome_result(r) == check_spec(old(store)@, discord_id@, texts(posts@), now as int).1
            },
{
    let now = current_timestamp();
    check_verification_at(store, discord_id, posts, now)
}

/// Links `discord_id` to `krunker_username` at time `now` and drops the
/// identity's challenge.
pub fn complete_verification_at(
    store: &mut Store,
    discord_id: &str,
    krunker_username: &str,
    now: i64,
) -> (r: Result<(), FlowError>)
    requires
        old(store).wf(),
    ensures
        final(store).wf(),
        (final(store)@, r) == complete_spec(old(store)@, discord_id@, krunker_username@, now as int),
{
    proof {
        store.lemma_model_wf();
    }
    match get_user_by_username(store, krunker_username) {
        Some(u) => {
            if u.discord_id.as_str().to_owned() == discord_id.to_owned() {
                proof {
                    let m = store@;
                    assert(crate::store::link_name()(m.links[u.discord_id@]) == krunker_username@);
                }
                delete_verification_for(store, discord_id);
                Ok(())
            } else {
                proof {
                    let m = store@;
                    assert(username_linked(m, krunker_username@)) by {
                        assert(crate::store::link_name()(m.links[u.discord_id@]) == krunker_username@);
                    }
                    if m.links.contains_key(discord_id@) && m.links[discord_id@].username == krunker_username@ {
                        assert(crate::store::link_name()(m.links[u.discord_id@]) == crate::store::link_name()(
                            m.links[discord_id@],
                        ));
                    }
                }
                Err(FlowError::UsernameTaken)
            }
        },
        None => {
            if user_exists(store, discord_id) {
                Err(FlowError::AlreadyLinked)
            } else {
                match create_user(store, krunker_username, discord_id, None, now) {
                    Ok(_) => {
                        delete_verification_for(store, discord_id);
                        Ok(())
                    },
                    Err(e) => Err(FlowError::Storage(e)),
                }
            }
        },
    }
}

/// Links `discord_id` to `krunker_username` at the current time and drops the
/// identity's challenge.
pub fn complete_verification(store: &mut Store, discord_id: &str, krunker_username: &str) -> (r: Result<(), FlowError>)
    requires
        old(store).wf(),
    ensures
        final(store).wf(),
        exists|now: i64| (final(store)@, r) == complete_spec(old(store)@, discord_id@, krunker_username@, now as int),
{
    let now = current_timestamp();
    complete_verification_at(store, discord_id, krunker_username, now)
}

/// Starting twice for one identity discards the first token: posts that hold the
/// first token but not the second count as a miss against the second challenge.
pub proof fn lemma_restart_discards_first_token(
    m: StoreModel,
    discord_id: Seq<char>,
    first_username: Seq<char>,
    first_code: Seq<char>,
    first_now: int,
    username: Seq<char>,
    code: Seq<char>,
    now: int,
    posts: Seq<Seq<char>>,
    check_now: int,
)
    requires
        start_spec(m, discord_id, first_username, first_code, first_now).1 is Ok,
        start_spec(start_spec(m, discord_id, first_username, first_code, first_now).0, discord_id, username, code, now).1 is Ok,
        evidence_found(posts, first_code),
        !evidence_found(posts, code),
        check_now < expiry(now),
    ensures
        ({
            let m1 = start_spec(m, discord_id, first_username, first_code, first_now).0;
            let m2 = start_spec(m1, discord_id, username, code, now).0;
            check_spec(m2, discord_id, posts, check_now).1 == Ok::<CheckOutcome, FlowError>(
                CheckOutcome::NotFound { code, username, attempts: 1 },
            )
        }),
{
    let m1 = start_spec(m, discord_id, first_username, first_code, first_now).0;
    let m2 = start_spec(m1, discord_id, username, code, now).0;
    assert(m2.challenges.contains_key(discord_id));
    assert(m2.challenges[discord_id].code == code);
}

/// A check that finds the token changes nothing, so a second check while the
/// challenge is still live finds it again.
pub proof fn lemma_found_check_is_idempotent(
    m: StoreModel,
    discord_id: Seq<char>,
    posts: Seq<Seq<char>>,
    now: int,
    later: int,
    username: Seq<char>,
)
    requires
        check_spec(m, discord_id, posts, now).1 == Ok::<CheckOutcome, FlowError>(CheckOutcome::Success { username }),
        later < m.challenges[discord_id].expires_at,
    ensures
        check_spec(m, discord_id, posts, now).0 == m,
        check_spec(check_spec(m, discord_id, posts, now).0, discord_id, posts, later) == (
            m,
            Ok::<CheckOutcome, FlowError>(CheckOutcome::Success { username }),
        ),
{
}

/// Five checks in a row that miss the token of a fresh challenge: the first four
/// count one to four attempts, the fifth drops the challenge with
/// `TooManyAttempts`, and after that no challenge is found.
pub proof fn lemma_five_misses_drop_challenge(
    m: StoreModel,
    discord_id: Seq<char>,
    posts: Seq<Seq<Seq<char>>>,
    times: Seq<int>,
    after_posts: Seq<Seq<char>>,
    after: int,
)
    requires
        m.challenges.contains_key(discord_id),
        m.challenges[discord_id].attempts == 0,
        posts.len() == 5,
        times.len() == 5,
        forall|i: int|
            0 <= i < 5 ==> #[trigger] times[i] < m.challenges[discord_id].expires_at && !evidence_found(
                posts[i],
                m.challenges[discord_id].code,
            ),
    ensures
        ({
            let c = m.challenges[discord_id];
            let s1 = check_spec(m, discord_id, posts[0], times[0]);
            let s2 = check_spec(s1.0, discord_id, posts[1], times[1]);
            let s3 = check_spec(s2.0, discord_id, posts[2], times[2]);
            let s4 = check_spec(s3.0, discord_id, posts[3], times[3]);
            let s5 = check_spec(s4.0, discord_id, posts[4], times[4]);
            &&& s1.1 == Ok::<CheckOutcome, FlowError>(CheckOutcome::NotFound { code: c.code, username: c.username, attempts: 1 })
            &&& s2.1 == Ok::<CheckOutcome, FlowError>(CheckOutcome::NotFound { code: c.code, username: c.username, attempts: 2 })
            &&& s3.1 == Ok::<CheckOutcome, FlowError>(CheckOutcome::NotFound { code: c.code, username: c.username, attempts: 3 })
            &&& s4.1 == Ok::<CheckOutcome, FlowError>(CheckOutcome::NotFound { code: c.code, username: c.username, attempts: 4 })
            &&& s5.1 == Err::<CheckOutcome, FlowError>(FlowError::TooManyAttempts)
            &&& check_spec(s5.0, discord_id, after_posts, after) == (
                s5.0,
                Ok::<CheckOutcome, FlowError>(CheckOutcome::NoVerification),
            )
        }),
{
    let c = m.challenges[discord_id];
    assert(times[0] < c.expires_at && !evidence_found(posts[0], c.code));
    assert(times[1] < c.expires_at && !evidence_found(posts[1], c.code));
    assert(times[2] < c.expires_at && !evidence_found(posts[2], c.code));
    assert(times[3] < c.expires_at && !evidence_found(posts[3], c.code));
    assert(times[4] < c.expires_at && !evidence_found(posts[4], c.code));
    let s1 = check_spec(m, discord_id, posts[0], times[0]);
    assert(s1.0.challenges[discord_id] == ChallengeModel { attempts: 1, ..c });
    let s2 = check_spec(s1.0, discord_id, posts[1], times[1]);
    assert(s2.0.challenges[discord_id] == ChallengeModel { attempts: 2, ..c });
    let s3 = check_spec(s2.0, discord_id, posts[2], times[2]);
    assert(s3.0.challenges[discord_id] == ChallengeModel { attempts: 3, ..c });
    let s4 = check_spec(s3.0, discord_id, posts[3], times[3]);
    assert(s4.0.challenges[discord_id] == ChallengeModel { attempts: 4, ..c });
    let s5 = check_spec(s4.0, discord_id, posts[4], times[4]);
    assert(!s5.0.challenges.contains_key(discord_id));
}

/// Completing again with a pair that is already linked succeeds and changes
/// nothing; another identity claiming the same username gets `UsernameTaken`.
pub proof fn lemma_complete_is_idempotent(
    m: StoreModel,
    discord_id: Seq<char>,
    username: Seq<char>,
    now: int,
    again: int,
    other_id: Seq<char>,
    other_now: int,
)
    requires
        model_wf(m),
        complete_spec(m, discord_id, username, now).1 is Ok,
        other_id != discord_id,
    ensures
        ({
            let m1 = complete_spec(m, discord_id, username, now).0;
            &&& complete_spec(m1, discord_id, username, again) == (m1, Ok::<(), FlowError>(()))
            &&& complete_spec(m1, other_id, username, other_now) == (m1, Err::<(), FlowError>(FlowError::UsernameTaken))
        }),
{
    let m1 = complete_spec(m, discord_id, username, now).0;
    assert(m1.links.contains_key(discord_id) && m1.links[discord_id].username == username);
    assert(link_name()(m1.links[discord_id]) == username);
    assert(username_linked(m1, username));
    assert(m1.challenges.remove(discord_id) =~= m1.challenges);
    if m1.links.contains_key(other_id) && m1.links[other_id].username == username {
        if username_linked(m, username) {
            assert(m1.links == m.links);
            assert(link_name()(m.links[other_id]) == link_name()(m.links[discord_id]));
        } else {
            assert(m.links.contains_key(other_id));
            assert(link_name()(m.links[other_id]) == username);
        }
    }
}

/// A challenge whose expiry has passed is invisible to a check, whether or not a
/// sweep has removed it.
pub proof fn lemma_expired_challenge_is_invisible(
    m: StoreModel,
    discord_id: Seq<char>,
    posts: Seq<Seq<char>>,
    now: int,
)
    requires
        m.challenges.contains_key(discord_id) ==> m.challenges[discord_id].expires_at <= now,
    ensures
        check_spec(m, discord_id, posts, now) == (m, Ok::<CheckOutcome, FlowError>(CheckOutcome::NoVerification)),
{
}

/// Starting a verification keeps the table constraints, so an identity never has
/// two challenges.
pub proof fn lemma_start_keeps_constraints(
    m: StoreModel,
    discord_id: Seq<char>,
    username: Seq<char>,
    code: Seq<char>,
    now: int,
)
    requires
        model_wf(m),
    ensures
        model_wf(start_spec(m, discord_id, username, code, now).0),
{
    let cleared = remove_challenge(m, discord_id);
    let m2 = start_spec(m, discord_id, username, code, now).0;
    if !m.links.contains_key(discord_id) && !code_in_use(cleared, code) && cleared.next_challenge_id < i64::MAX {
        assert forall|k1: Seq<char>, k2: Seq<char>|
            m2.challenges.contains_key(k1) && m2.challenges.contains_key(k2) && #[trigger] model_code()(m2.challenges[k1])
                == #[trigger] model_code()(m2.challenges[k2]) implies k1 == k2 by {
            if k1 != discord_id && k2 != discord_id {
                assert(model_code()(m.challenges[k1]) == model_code()(m.challenges[k2]));
            } else if k1 != discord_id {
                assert(cleared.challenges.contains_key(k1));
                assert(model_code()(cleared.challenges[k1]) == code);
            } else if k2 != discord_id {
                assert(cleared.challenges.contains_key(k2));
                assert(model_code()(cleared.challenges[k2]) == code);
            }
        }
    } else if !m.links.contains_key(discord_id) {
        assert forall|k1: Seq<char>, k2: Seq<char>|
            m2.challenges.contains_key(k1) && m2.challenges.contains_key(k2) && #[trigger] model_code()(m2.challenges[k1])
                == #[trigger] model_code()(m2.challenges[k2]) implies k1 == k2 by {
            assert(model_code()(m.challenges[k1]) == model_code()(m.challenges[k2]));
        }
    }
}

} // verus!
