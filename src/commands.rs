use vstd::prelude::*;
use vstd::string::*;
use crate::clock::current_timestamp;
use crate::evidence::texts;
use crate::flow::{FlowError, check_spec, check_verification_at, complete_spec, complete_verification_at, outcome_result};
use crate::models::{CheckOutcome, VerificationResult};
use crate::store::{Store, StoreModel, delete_user, get_user_by_discord_id, remove_link, user_exists};

verus! {

/// What the `ranked` command shows.
#[derive(PartialEq, Eq, Structural, Clone, Copy, Debug)]
pub enum RankedMode {
    /// Detailed statistics of each match.
    Stats,
    /// Only the match ids.
    List,
}

impl RankedMode {
    /// The mode named by a command argument.
    pub fn from_name(name: &str) -> (r: Option<RankedMode>)
        ensures
            r == (if name@ == "stats"@ {
                Some(RankedMode::Stats)
            } else if name@ == "list"@ {
                Some(RankedMode::List)
            } else {
                None
            }),
    {
        let given = name.to_owned();
        if given == String::from_str("stats") {
            Some(RankedMode::Stats)
        } else if given == String::from_str("list") {
            Some(RankedMode::List)
        } else {
            None
        }
    }
}

pub open spec fn opt_str_view(o: Option<&str>) -> Option<Seq<char>> {
    match o {
        Some(s) => Some(s@),
        None => None,
    }
}

pub open spec fn opt_string_view(o: Option<String>) -> Option<Seq<char>> {
    match o {
        Some(s) => Some(s@),
        None => None,
    }
}

/// The account a lookup is about: the one named, else the one linked to the
/// asking identity, else none.
pub open spec fn target_spec(m: StoreModel, discord_id: Seq<char>, username: Option<Seq<char>>) -> Option<Seq<char>> {
    match username {
        Some(u) => Some(u),
        None => if m.links.contains_key(discord_id) {
            Some(m.links[discord_id].username)
        } else {
            None
        },
    }
}

/// The account a lookup command is about.
pub fn lookup_target(store: &Store, discord_id: &str, username: Option<&str>) -> (r: Option<String>)
    requires
        store.wf(),
    ensures
        opt_string_view(r) == target_spec(store@, discord_id@, opt_str_view(username)),
{
    match username {
        Some(u) => Some(u.to_owned()),
        None => match get_user_by_discord_id(store, discord_id) {
            Some(user) => Some(user.username),
            None => None,
        },
    }
}

/// Checking and, once the token is found, linking: the check's outcome, or the
/// error of the link write.
pub open spec fn verify_spec(
    m: StoreModel,
    discord_id: Seq<char>,
    posts: Seq<Seq<char>>,
    now: int,
) -> (StoreModel, Result<CheckOutcome, FlowError>) {
    let checked = check_spec(m, discord_id, posts, now);
    match checked.1 {
        Ok(CheckOutcome::Success { username }) => {
            let done = complete_spec(checked.0, discord_id, username, now);
            match done.1 {
                Ok(_) => (done.0, checked.1),
                Err(e) => (done.0, Err(e)),
            }
        },
        _ => checked,
    }
}

/// Checks the identity's challenge at time `now` against `posts` and, when the
/// token is found, links the account.
pub fn verify_and_link_at(
    store: &mut Store,
    discord_id: &str,
    posts: &Vec<String>,
    now: i64,
) -> (r: Result<VerificationResult, FlowError>)
    requires
        old(store).wf(),
    ensures
        final(store).wf(),
        final(store)@ == verify_spec(old(store)@, discord_id@, texts(posts@), now as int).0,
        outcome_result(r) == verify_spec(old(store)@, discord_id@, texts(posts@), now as int).1,
{
    let checked = check_verification_at(store, discord_id, posts, now);
    match checked {
        Ok(VerificationResult::Success { krunker_username }) => {
            match complete_verification_at(store, discord_id, krunker_username.as_str(), now) {
                Ok(()) => Ok(VerificationResult::Success { krunker_username }),
                Err(e) => Err(e),
            }
        },
        other => other,
    }
}

/// Checks and links at the current time.
pub fn verify_and_link(store: &mut Store, discord_id: &str, posts: &Vec<String>) -> (r: Result<VerificationResult, FlowError>)
    requires
        old(store).wf(),
    ensures
        final(store).wf(),
        exists|now: i64|
            {
                &&& final(store)@ == verify_spec(old(store)@, discord_id@, texts(posts@), now as int).0
                &&& outcome_result(r) == verify_spec(old(store)@, discord_id@, texts(posts@), now as int).1
            },
{
    let now = current_timestamp();
    verify_and_link_at(store, discord_id, posts, now)
}

/// Removes the identity's link; tells whether there was one.
pub fn unlink_account(store: &mut Store, discord_id: &str) -> (r: bool)
    requires
        old(store).wf(),
    ensures
        final(store).wf(),
        r == old(store)@.links.contains_key(discord_id@),
        final(store)@ == remove_link(old(store)@, discord_id@),
{
    if !user_exists(store, discord_id) {
        assert(store@.links.remove(discord_id@) =~= store@.links);
        return false;
    }
    delete_user(store, discord_id);
    true
}

} // verus!
