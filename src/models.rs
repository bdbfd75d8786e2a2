use vstd::prelude::*;

verus! {

/// A committed link between a chat identity and an external game account.
#[derive(Debug)]
pub struct User {
    pub id: i64,
    pub username: String,
    pub discord_id: String,
    pub country: Option<String>,
    pub day_created: i64,
}

/// A pending challenge: the identity must publish `code` on the feed of
/// `krunker_username` before `expires_at`.
#[derive(Debug)]
pub struct Verification {
    pub id: i64,
    pub discord_id: String,
    pub krunker_username: String,
    pub code: String,
    pub created_at: i64,
    pub expires_at: i64,
    pub attempts: i32,
}

/// What a stored link holds, as mathematical values.
pub struct LinkModel {
    pub id: int,
    pub username: Seq<char>,
    pub discord_id: Seq<char>,
    pub country: Option<Seq<char>>,
    pub day_created: int,
}

/// What a stored challenge holds, as mathematical values.
pub struct ChallengeModel {
    pub id: int,
    pub discord_id: Seq<char>,
    pub username: Seq<char>,
    pub code: Seq<char>,
    pub created_at: int,
    pub expires_at: int,
    pub attempts: int,
}

pub open spec fn opt_text(o: Option<String>) -> Option<Seq<char>> {
    match o {
        Some(s) => Some(s@),
        None => None,
    }
}

impl View for User {
    type V = LinkModel;

    open spec fn view(&self) -> LinkModel {
        LinkModel {
            id: self.id as int,
            username: self.username@,
            discord_id: self.discord_id@,
            country: opt_text(self.country),
            day_created: self.day_created as int,
        }
    }
}

impl View for Verification {
    type V = ChallengeModel;

    open spec fn view(&self) -> ChallengeModel {
        ChallengeModel {
            id: self.id as int,
            discord_id: self.discord_id@,
            username: self.krunker_username@,
            code: self.code@,
            created_at: self.created_at as int,
            expires_at: self.expires_at as int,
            attempts: self.attempts as int,
        }
    }
}

impl ChallengeModel {
    /// A challenge is live until the moment it expires.
    pub open spec fn is_live(self, now: int) -> bool {
        now < self.expires_at
    }
}

fn copy_opt_text(o: &Option<String>) -> (r: Option<String>)
    ensures
        opt_text(r) == opt_text(*o),
{
    match o {
        Some(s) => Some(s.clone()),
        None => None,
    }
}

impl User {
    /// A field-by-field copy.
    pub fn duplicate(&self) -> (r: User)
        ensures
            r@ == self@,
    {
        User {
            id: self.id,
            username: self.username.clone(),
            discord_id: self.discord_id.clone(),
            country: copy_opt_text(&self.country),
            day_created: self.day_created,
        }
    }
}

impl Verification {
    /// A field-by-field copy.
    pub fn duplicate(&self) -> (r: Verification)
        ensures
            r == *self,
    {
        Verification {
            id: self.id,
            discord_id: self.discord_id.clone(),
            krunker_username: self.krunker_username.clone(),
            code: self.code.clone(),
            created_at: self.created_at,
            expires_at: self.expires_at,
            attempts: self.attempts,
        }
    }
}

/// The outcome of checking a pending challenge against the published posts.
#[derive(Debug, PartialEq, Eq)]
pub enum VerificationResult {
    /// No live challenge exists for the identity.
    NoVerification,
    /// The token was not found; `attempts` failed checks have been counted so far.
    NotFound { code: String, krunker_username: String, attempts: i32 },
    /// The token was found on the feed of `krunker_username`.
    Success { krunker_username: String },
}

/// A check outcome as mathematical values.
pub enum CheckOutcome {
    NoVerification,
    NotFound { code: Seq<char>, username: Seq<char>, attempts: int },
    Success { username: Seq<char> },
}

impl View for VerificationResult {
    type V = CheckOutcome;

    open spec fn view(&self) -> CheckOutcome {
        match self {
            VerificationResult::NoVerification => CheckOutcome::NoVerification,
            VerificationResult::NotFound { code, krunker_username, attempts } => CheckOutcome::NotFound {
                code: code@,
                username: krunker_username@,
                attempts: *attempts as int,
            },
            VerificationResult::Success { krunker_username } => CheckOutcome::Success {
                username: krunker_username@,
            },
        }
    }
}

} // verus!
