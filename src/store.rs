use vstd::prelude::*;
use crate::models::{ChallengeModel, LinkModel, User, Verification, opt_text};
use crate::table::{
    distinct_by, has_key, injective_by, keyed, lemma_keyed_at, lemma_keyed_push, lemma_keyed_remove,
    lemma_keyed_secondary, lemma_keyed_update, value_with,
};

verus! {

/// Checks that fail without a match before the challenge is dropped.
pub const ATTEMPT_LIMIT: i32 = 5;

/// Why the store refused a write.
#[derive(PartialEq, Eq, Structural, Clone, Copy, Debug)]
pub enum StoreError {
    /// A uniqueness constraint would be broken.
    ConstraintViolation,
    /// No row id is left to hand out.
    IdsExhausted,
}

/// The contents of the store: links and pending challenges, each keyed by chat
/// identity, and the next row ids.
pub struct StoreModel {
    pub links: Map<Seq<char>, LinkModel>,
    pub challenges: Map<Seq<char>, ChallengeModel>,
    pub next_user_id: int,
    pub next_challenge_id: int,
}

pub open spec fn user_key() -> spec_fn(User) -> Seq<char> {
    |u: User| u.discord_id@
}

pub open spec fn user_name() -> spec_fn(User) -> Seq<char> {
    |u: User| u.username@
}

pub open spec fn challenge_key() -> spec_fn(Verification) -> Seq<char> {
    |v: Verification| v.discord_id@
}

pub open spec fn challenge_code() -> spec_fn(Verification) -> Seq<char> {
    |v: Verification| v.code@
}

pub open spec fn link_name() -> spec_fn(LinkModel) -> Seq<char> {
    |l: LinkModel| l.username
}

pub open spec fn model_code() -> spec_fn(ChallengeModel) -> Seq<char> {
    |c: ChallengeModel| c.code
}

/// The constraints of the two tables: one link per identity and per username, one
/// challenge per identity and per token, attempts below the limit.
pub open spec fn model_wf(m: StoreModel) -> bool {
    &&& forall|k: Seq<char>| #[trigger] m.links.contains_key(k) ==> m.links[k].discord_id == k
    &&& injective_by(m.links, link_name())
    &&& forall|k: Seq<char>| #[trigger]
        m.challenges.contains_key(k) ==> {
            &&& m.challenges[k].discord_id == k
            &&& 0 <= m.challenges[k].attempts < ATTEMPT_LIMIT
        }
    &&& injective_by(m.challenges, model_code())
}

/// Some link holds `username`.
pub open spec fn username_linked(m: StoreModel, username: Seq<char>) -> bool {
    value_with(m.links, link_name(), username)
}

/// Some challenge holds `code`.
pub open spec fn code_in_use(m: StoreModel, code: Seq<char>) -> bool {
    value_with(m.challenges, model_code(), code)
}

pub open spec fn id_result(r: Result<i64, StoreError>) -> Result<int, StoreError> {
    match r {
        Ok(id) => Ok(id as int),
        Err(e) => Err(e),
    }
}

/// Inserting a link: refused when the identity or the username is already linked.
pub open spec fn insert_link(
    m: StoreModel,
    username: Seq<char>,
    discord_id: Seq<char>,
    country: Option<Seq<char>>,
    now: int,
) -> (StoreModel, Result<int, StoreError>) {
    if m.links.contains_key(discord_id) || username_linked(m, username) {
        (m, Err(StoreError::ConstraintViolation))
    } else if m.next_user_id >= i64::MAX {
        (m, Err(StoreError::IdsExhausted))
    } else {
        let link = LinkModel { id: m.next_user_id, username, discord_id, country, day_created: now };
        (
            StoreModel {
                links: m.links.insert(discord_id, link),
                next_user_id: m.next_user_id + 1,
                ..m
            },
            Ok(m.next_user_id),
        )
    }
}

pub open spec fn remove_link(m: StoreModel, discord_id: Seq<char>) -> StoreModel {
    StoreModel { links: m.links.remove(discord_id), ..m }
}

/// Inserting a challenge with no attempts: refused when the identity already has
/// one or the token is in use.
pub open spec fn insert_challenge(
    m: StoreModel,
    discord_id: Seq<char>,
    username: Seq<char>,
    code: Seq<char>,
    created_at: int,
    expires_at: int,
) -> (StoreModel, Result<int, StoreError>) {
    if m.challenges.contains_key(discord_id) || code_in_use(m, code) {
        (m, Err(StoreError::ConstraintViolation))
    } else if m.next_challenge_id >= i64::MAX {
        (m, Err(StoreError::IdsExhausted))
    } else {
        let c = ChallengeModel {
            id: m.next_challenge_id,
            discord_id,
            username,
            code,
            created_at,
            expires_at,
            attempts: 0,
        };
        (
            StoreModel {
                challenges: m.challenges.insert(discord_id, c),
                next_challenge_id: m.next_challenge_id + 1,
                ..m
            },
            Ok(m.next_challenge_id),
        )
    }
}

pub open spec fn remove_challenge(m: StoreModel, discord_id: Seq<char>) -> StoreModel {
    StoreModel { challenges: m.challenges.remove(discord_id), ..m }
}

/// Drops the challenge that holds `code`, if any.
pub open spec fn remove_challenge_with_code(m: StoreModel, code: Seq<char>) -> StoreModel {
    StoreModel {
        challenges: Map::new(
            |k: Seq<char>| m.challenges.contains_key(k) && m.challenges[k].code != code,
            |k: Seq<char>| m.challenges[k],
        ),
        ..m
    }
}

/// Drops every challenge whose expiry lies before `now`.
pub open spec fn sweep_expired(m: StoreModel, now: int) -> StoreModel {
    StoreModel {
        challenges: Map::new(
            |k: Seq<char>| m.challenges.contains_key(k) && !(m.challenges[k].expires_at < now),
            |k: Seq<char>| m.challenges[k],
        ),
        ..m
    }
}

/// Counts one more failed check on the identity's challenge.
pub open spec fn bump_attempts(m: StoreModel, discord_id: Seq<char>) -> StoreModel {
    let c = m.challenges[discord_id];
    StoreModel {
        challenges: m.challenges.insert(discord_id, ChallengeModel { attempts: c.attempts + 1, ..c }),
        ..m
    }
}

/// The identity's challenge, if it has one that has not expired at `now`.
pub open spec fn live_challenge(m: StoreModel, discord_id: Seq<char>, now: int) -> Option<ChallengeModel> {
    if m.challenges.contains_key(discord_id) && m.challenges[discord_id].is_live(now) {
        Some(m.challenges[discord_id])
    } else {
        None
    }
}

/// The link store and the challenge store, held in memory.
pub struct Store {
    users: Vec<User>,
    verifications: Vec<Verification>,
    next_user_id: i64,
    next_verification_id: i64,
}

impl View for Store {
    type V = StoreModel;

    closed spec fn view(&self) -> StoreModel {
        StoreModel {
            links: keyed(self.users@, user_key()),
            challenges: keyed(self.verifications@, challenge_key()),
            next_user_id: self.next_user_id as int,
            next_challenge_id: self.next_verification_id as int,
        }
    }
}

impl Store {
    /// The rows of the challenge table.
    pub closed spec fn challenge_rows(&self) -> Seq<ChallengeModel> {
        self.verifications@.map_values(|v: Verification| v@)
    }

    /// The table constraints hold.
    pub closed spec fn wf(&self) -> bool {
        &&& distinct_by(self.users@, user_key())
        &&& distinct_by(self.users@, user_name())
        &&& distinct_by(self.verifications@, challenge_key())
        &&& distinct_by(self.verifications@, challenge_code())
        &&& forall|i: int|
            0 <= i < self.verifications@.len() ==> 0 <= (#[trigger] self.verifications@[i]).attempts
                < ATTEMPT_LIMIT
    }

    proof fn lemma_secondary(&self)
        requires
            distinct_by(self.users@, user_key()),
            distinct_by(self.verifications@, challenge_key()),
        ensures
            forall|c: Seq<char>| has_key(self.users@, user_name(), c) <==> #[trigger] username_linked(self@, c),
            forall|c: Seq<char>| has_key(self.verifications@, challenge_code(), c) <==> #[trigger] code_in_use(self@, c),
            distinct_by(self.users@, user_name()) ==> injective_by(self@.links, link_name()),
            distinct_by(self.verifications@, challenge_code()) ==> injective_by(self@.challenges, model_code()),
    {
        assert forall|t: User| #[trigger] user_name()(t) == link_name()(t@) by {}
        assert forall|t: Verification| #[trigger] challenge_code()(t) == model_code()(t@) by {}
        lemma_keyed_secondary(self.users@, user_key(), user_name(), link_name());
        lemma_keyed_secondary(self.verifications@, challenge_key(), challenge_code(), model_code());
        assert forall|c: Seq<char>| has_key(self.users@, user_name(), c) <==> #[trigger] username_linked(self@, c) by {
            assert(value_with(keyed(self.users@, user_key()), link_name(), c) == username_linked(self@, c));
        }
    }

    /// An identity never has two live challenges in the table: every operation
    /// keeps `wf`, and under `wf` two live rows of one identity are the same row.
    pub proof fn lemma_one_live_challenge(&self, discord_id: Seq<char>, now: int)
        requires
            self.wf(),
        ensures
            forall|i: int, j: int|
                0 <= i < self.challenge_rows().len() && 0 <= j < self.challenge_rows().len()
                    && #[trigger] self.challenge_rows()[i].discord_id == discord_id
                    && #[trigger] self.challenge_rows()[j].discord_id == discord_id
                    && self.challenge_rows()[i].is_live(now) && self.challenge_rows()[j].is_live(now) ==> i == j,
    {
        assert forall|i: int, j: int|
            0 <= i < self.challenge_rows().len() && 0 <= j < self.challenge_rows().len()
                && #[trigger] self.challenge_rows()[i].discord_id == discord_id
                && #[trigger] self.challenge_rows()[j].discord_id == discord_id
                && self.challenge_rows()[i].is_live(now) && self.challenge_rows()[j].is_live(now) implies i == j by {
            if i != j {
                assert(challenge_key()(self.verifications@[i]) != challenge_key()(self.verifications@[j]));
            }
        }
    }

    /// A store that meets its constraints has a model that meets them.
    pub proof fn lemma_model_wf(&self)
        requires
            self.wf(),
        ensures
            model_wf(self@),
    {
        self.lemma_secondary();
        let m = self@;
        assert forall|k: Seq<char>| #[trigger] m.links.contains_key(k) implies m.links[k].discord_id == k by {
            let i = choose|i: int| 0 <= i < self.users@.len() && #[trigger] user_key()(self.users@[i]) == k;
            lemma_keyed_at(self.users@, user_key(), i);
        }
        assert forall|k: Seq<char>| #[trigger] m.challenges.contains_key(k) implies {
            &&& m.challenges[k].discord_id == k
            &&& 0 <= m.challenges[k].attempts < ATTEMPT_LIMIT
        } by {
            let i = choose|i: int| 0 <= i < self.verifications@.len() && #[trigger] challenge_key()(self.verifications@[i]) == k;
            lemma_keyed_at(self.verifications@, challenge_key(), i);
            assert(0 <= self.verifications@[i].attempts < ATTEMPT_LIMIT);
        }
    }
}

/// An empty store.
pub fn init_db() -> (s: Store)
    ensures
        s.wf(),
        s@.links == Map::<Seq<char>, LinkModel>::empty(),
        s@.challenges == Map::<Seq<char>, ChallengeModel>::empty(),
        s@.next_user_id == 1,
        s@.next_challenge_id == 1,
{
    let s = Store { users: Vec::new(), verifications: Vec::new(), next_user_id: 1, next_verification_id: 1 };
    assert(s@.links =~= Map::<Seq<char>, LinkModel>::empty());
    assert(s@.challenges =~= Map::<Seq<char>, ChallengeModel>::empty());
    s
}

fn find_user_by_id(rows: &Vec<User>, discord_id: &String) -> (r: Option<usize>)
    ensures
        match r {
            Some(i) => i < rows@.len() && rows@[i as int].discord_id@ == discord_id@ && has_key(rows@, user_key(), discord_id@),
            None => !has_key(rows@, user_key(), discord_id@),
        },
{
    let mut i: usize = 0;
    while i < rows.len()
        invariant
            i <= rows@.len(),
            forall|j: int| 0 <= j < i ==> #[trigger] user_key()(rows@[j]) != discord_id@,
        decreases rows@.len() - i,
    {
        if rows[i].discord_id == *discord_id {
            assert(user_key()(rows@[i as int]) == discord_id@);
            return Some(i);
        }
        i = i + 1;
    }
    None
}

fn find_user_by_name(rows: &Vec<User>, username: &String) -> (r: Option<usize>)
    ensures
        match r {
            Some(i) => i < rows@.len() && rows@[i as int].username@ == username@ && has_key(rows@, user_name(), username@),
            None => !has_key(rows@, user_name(), username@),
        },
{
    let mut i: usize = 0;
    while i < rows.len()
        invariant
            i <= rows@.len(),
            forall|j: int| 0 <= j < i ==> #[trigger] user_name()(rows@[j]) != username@,
        decreases rows@.len() - i,
    {
        if rows[i].username == *username {
            assert(user_name()(rows@[i as int]) == username@);
            return Some(i);
        }
        i = i + 1;
    }
    None
}

fn find_challenge_by_id(rows: &Vec<Verification>, discord_id: &String) -> (r: Option<usize>)
    ensures
        match r {
            Some(i) => i < rows@.len() && rows@[i as int].discord_id@ == discord_id@ && has_key(rows@, challenge_key(), discord_id@),
            None => !has_key(rows@, challenge_key(), discord_id@),
        },
{
    let mut i: usize = 0;
    while i < rows.len()
        invariant
            i <= rows@.len(),
            forall|j: int| 0 <= j < i ==> #[trigger] challenge_key()(rows@[j]) != discord_id@,
        decreases rows@.len() - i,
    {
        if rows[i].discord_id == *discord_id {
            assert(challenge_key()(rows@[i as int]) == discord_id@);
            return Some(i);
        }
        i = i + 1;
    }
    None
}

fn find_challenge_by_code(rows: &Vec<Verification>, code: &String) -> (r: Option<usize>)
    ensures
        match r {
            Some(i) => i < rows@.len() && rows@[i as int].code@ == code@ && has_key(rows@, challenge_code(), code@),
            None => !has_key(rows@, challenge_code(), code@),
        },
{
    let mut i: usize = 0;
    while i < rows.len()
        invariant
            i <= rows@.len(),
            forall|j: int| 0 <= j < i ==> #[trigger] challenge_code()(rows@[j]) != code@,
        decreases rows@.len() - i,
    {
        if rows[i].code == *code {
            assert(challenge_code()(rows@[i as int]) == code@);
            return Some(i);
        }
        i = i + 1;
    }
    None
}

fn owned(s: &str) -> (r: String)
    ensures
        r@ == s@,
{
    s.to_owned()
}

fn owned_opt(s: Option<&str>) -> (r: Option<String>)
    ensures
        opt_text(r) == match s {
            Some(t) => Some(t@),
            None => None::<Seq<char>>,
        },
{
    match s {
        Some(t) => Some(owned(t)),
        None => None,
    }
}

/// Links `discord_id` to `username`; the link's id is returned.
pub fn create_user(
    store: &mut Store,
    username: &str,
    discord_id: &str,
    country: Option<&str>,
    now: i64,
) -> (r: Result<i64, StoreError>)
    requires
        old(store).wf(),
    ensures
        final(store).wf(),
        (final(store)@, id_result(r)) == insert_link(
            old(store)@,
            username@,
            discord_id@,
            match country {
                Some(t) => Some(t@),
                None => None,
            },
            now as int,
        ),
{
    let id = owned(discord_id);
    let name = owned(username);
    proof {
        store.lemma_secondary();
    }
    if find_user_by_id(&store.users, &id).is_some() || find_user_by_name(&store.users, &name).is_some() {
        return Err(StoreError::ConstraintViolation);
    }
    if store.next_user_id == i64::MAX {
        return Err(StoreError::IdsExhausted);
    }
    let new_id = store.next_user_id;
    let user = User { id: new_id, username: name, discord_id: id, country: owned_opt(country), day_created: now };
    proof {
        lemma_keyed_push(store.users@, user_key(), user);
        lemma_keyed_push(store.users@, user_name(), user);
    }
    store.users.push(user);
    store.next_user_id = new_id + 1;
    Ok(new_id)
}

/// The link of `discord_id`, if any.
pub fn get_user_by_discord_id(store: &Store, discord_id: &str) -> (r: Option<User>)
    requires
        store.wf(),
    ensures
        match r {
            Some(u) => store@.links.contains_key(discord_id@) && u@ == store@.links[discord_id@],
            None => !store@.links.contains_key(discord_id@),
        },
{
    let id = owned(discord_id);
    match find_user_by_id(&store.users, &id) {
        Some(i) => {
            proof {
                lemma_keyed_at(store.users@, user_key(), i as int);
            }
            Some(store.users[i].duplicate())
        },
        None => None,
    }
}

/// The link that holds `username`, if any.
pub fn get_user_by_username(store: &Store, username: &str) -> (r: Option<User>)
    requires
        store.wf(),
    ensures
        match r {
            Some(u) => {
                &&& store@.links.contains_key(u.discord_id@)
                &&& u@ == store@.links[u.discord_id@]
                &&& u.username@ == username@
            },
            None => !username_linked(store@, username@),
        },
{
    proof {
        store.lemma_secondary();
    }
    let name = owned(username);
    match find_user_by_name(&store.users, &name) {
        Some(i) => {
            proof {
                lemma_keyed_at(store.users@, user_key(), i as int);
            }
            Some(store.users[i].duplicate())
        },
        None => None,
    }
}

/// Removes the link of `discord_id`, if any.
pub fn delete_user(store: &mut Store, discord_id: &str)
    requires
        old(store).wf(),
    ensures
        final(store).wf(),
        final(store)@ == remove_link(old(store)@, discord_id@),
{
    let id = owned(discord_id);
    match find_user_by_id(&store.users, &id) {
        Some(i) => {
            proof {
                lemma_keyed_remove(store.users@, user_key(), i as int);
                lemma_keyed_remove(store.users@, user_name(), i as int);
            }
            store.users.remove(i);
        },
        None => {
            assert(store@.links.remove(discord_id@) =~= store@.links);
        },
    }
}

/// Whether `discord_id` is linked.
pub fn user_exists(store: &Store, discord_id: &str) -> (r: bool)
    requires
        store.wf(),
    ensures
        r == store@.links.contains_key(discord_id@),
{
    let id = owned(discord_id);
    find_user_by_id(&store.users, &id).is_some()
}

/// Opens a challenge for `discord_id` with no attempts; the row's id is returned.
pub fn create_verification(
    store: &mut Store,
    discord_id: &str,
    krunker_username: &str,
    code: &str,
    created_at: i64,
    expires_at: i64,
) -> (r: Result<i64, StoreError>)
    requires
        old(store).wf(),
    ensures
        final(store).wf(),
        (final(store)@, id_result(r)) == insert_challenge(
            old(store)@,
            discord_id@,
            krunker_username@,
            code@,
            created_at as int,
            expires_at as int,
        ),
{
    let id = owned(discord_id);
    let token = owned(code);
    proof {
        store.lemma_secondary();
    }
    if find_challenge_by_id(&store.verifications, &id).is_some() || find_challenge_by_code(
        &store.verifications,
        &token,
    ).is_some() {
        return Err(StoreError::ConstraintViolation);
    }
    if store.next_verification_id == i64::MAX {
        return Err(StoreError::IdsExhausted);
    }
    let new_id = store.next_verification_id;
    let row = Verification {
        id: new_id,
        discord_id: id,
        krunker_username: owned(krunker_username),
        code: token,
        created_at,
        expires_at,
        attempts: 0,
    };
    proof {
        lemma_keyed_push(store.verifications@, challenge_key(), row);
        lemma_keyed_push(store.verifications@, challenge_code(), row);
    }
    store.verifications.push(row);
    proof {
        let rows = store.verifications@;
        assert forall|i: int| 0 <= i < rows.len() implies 0 <= (#[trigger] rows[i]).attempts < ATTEMPT_LIMIT by {
            if i < rows.len() - 1 {
                assert(rows[i] == old(store).verifications@[i]);
            }
        }
    }
    store.next_verification_id = new_id + 1;
    Ok(new_id)
}

/// The identity's challenge, if it has one that is still live at `now`.
pub fn get_live_verification(store: &Store, discord_id: &str, now: i64) -> (r: Option<Verification>)
    requires
        store.wf(),
    ensures
        match r {
            Some(v) => live_challenge(store@, discord_id@, now as int) == Some(v@),
            None => live_challenge(store@, discord_id@, now as int) is None,
        },
{
    let id = owned(discord_id);
    match find_challenge_by_id(&store.verifications, &id) {
        Some(i) => {
            proof {
                lemma_keyed_at(store.verifications@, challenge_key(), i as int);
            }
            if now < store.verifications[i].expires_at {
                Some(store.verifications[i].duplicate())
            } else {
                None
            }
        },
        None => None,
    }
}

/// The live challenge that holds `code`, if any.
pub fn get_verification_by_code(store: &Store, code: &str, now: i64) -> (r: Option<Verification>)
    requires
        store.wf(),
    ensures
        match r {
            Some(v) => {
                &&& store@.challenges.contains_key(v.discord_id@)
                &&& store@.challenges[v.discord_id@] == v@
                &&& v.code@ == code@
                &&& v@.is_live(now as int)
            },
            None => forall|k: Seq<char>|
                #[trigger] store@.challenges.contains_key(k) && store@.challenges[k].code == code@
                    ==> !store@.challenges[k].is_live(now as int),
        },
{
    proof {
        store.lemma_secondary();
        store.lemma_model_wf();
    }
    let token = owned(code);
    match find_challenge_by_code(&store.verifications, &token) {
        Some(i) => {
            proof {
                lemma_keyed_at(store.verifications@, challenge_key(), i as int);
            }
            if now < store.verifications[i].expires_at {
                Some(store.verifications[i].duplicate())
            } else {
                proof {
                    let k0 = store.verifications@[i as int].discord_id@;
                    assert forall|k: Seq<char>|
                        #[trigger] store@.challenges.contains_key(k) && store@.challenges[k].code == code@
                            implies !store@.challenges[k].is_live(now as int) by {
                        assert(model_code()(store@.challenges[k]) == model_code()(store@.challenges[k0]));
                    }
                }
                None
            }
        },
        None => {
            proof {
                assert forall|k: Seq<char>|
                    #[trigger] store@.challenges.contains_key(k) && store@.challenges[k].code == code@
                        implies !store@.challenges[k].is_live(now as int) by {
                    assert(model_code()(store@.challenges[k]) == code@);
                    assert(code_in_use(store@, code@));
                }
            }
            None
        },
    }
}

proof fn lemma_remove_row_keeps_bounds(rows: Seq<Verification>, i: int)
    requires
        0 <= i < rows.len(),
        forall|j: int| 0 <= j < rows.len() ==> 0 <= (#[trigger] rows[j]).attempts < ATTEMPT_LIMIT,
    ensures
        forall|j: int|
            0 <= j < rows.remove(i).len() ==> 0 <= (#[trigger] rows.remove(i)[j]).attempts < ATTEMPT_LIMIT,
{
    assert forall|j: int| 0 <= j < rows.remove(i).len() implies 0 <= (#[trigger] rows.remove(i)[j]).attempts
        < ATTEMPT_LIMIT by {
        if j < i {
            assert(rows.remove(i)[j] == rows[j]);
        } else {
            assert(rows.remove(i)[j] == rows[j + 1]);
        }
    }
}

/// Drops the challenge that holds `code`, if any.
pub fn delete_verification(store: &mut Store, code: &str)
    requires
        old(store).wf(),
    ensures
        final(store).wf(),
        final(store)@ == remove_challenge_with_code(old(store)@, code@),
{
    proof {
        store.lemma_secondary();
        store.lemma_model_wf();
    }
    let ghost m = store@;
    let token = owned(code);
    match find_challenge_by_code(&store.verifications, &token) {
        Some(i) => {
            let ghost k0 = store.verifications@[i as int].discord_id@;
            proof {
                lemma_keyed_at(store.verifications@, challenge_key(), i as int);
                lemma_keyed_remove(store.verifications@, challenge_key(), i as int);
                lemma_keyed_remove(store.verifications@, challenge_code(), i as int);
                lemma_remove_row_keeps_bounds(store.verifications@, i as int);
            }
            store.verifications.remove(i);
            proof {
                assert forall|k: Seq<char>| m.challenges.contains_key(k) && m.challenges[k].code == code@
                    implies k == k0 by {
                    assert(model_code()(m.challenges[k]) == model_code()(m.challenges[k0]));
                }
                assert(store@.challenges =~= remove_challenge_with_code(m, code@).challenges);
            }
        },
        None => {
            proof {
                assert forall|k: Seq<char>| m.challenges.contains_key(k) implies m.challenges[k].code != code@ by {
                    if m.challenges[k].code == code@ {
                        assert(model_code()(m.challenges[k]) == code@);
                        assert(code_in_use(m, code@));
                    }
                }
                assert(store@.challenges =~= remove_challenge_with_code(m, code@).challenges);
            }
        },
    }
}

/// Drops the identity's challenge, if any.
pub fn delete_verification_for(store: &mut Store, discord_id: &str)
    requires
        old(store).wf(),
    ensures
        final(store).wf(),
        final(store)@ == remove_challenge(old(store)@, discord_id@),
{
    let id = owned(discord_id);
    match find_challenge_by_id(&store.verifications, &id) {
        Some(i) => {
            proof {
                lemma_keyed_remove(store.verifications@, challenge_key(), i as int);
                lemma_keyed_remove(store.verifications@, challenge_code(), i as int);
                lemma_remove_row_keeps_bounds(store.verifications@, i as int);
            }
            store.verifications.remove(i);
        },
        None => {
            assert(store@.challenges.remove(discord_id@) =~= store@.challenges);
        },
    }
}

/// Counts one more failed check on the identity's challenge, unless that reaches
/// the limit, in which case the challenge is dropped.
pub fn record_failed_attempt(store: &mut Store, discord_id: &str) -> (attempts: i32)
    requires
        old(store).wf(),
        old(store)@.challenges.contains_key(discord_id@),
    ensures
        final(store).wf(),
        attempts == old(store)@.challenges[discord_id@].attempts + 1,
        attempts < ATTEMPT_LIMIT ==> final(store)@ == bump_attempts(old(store)@, discord_id@),
        attempts >= ATTEMPT_LIMIT ==> final(store)@ == remove_challenge(old(store)@, discord_id@),
{
    let id = owned(discord_id);
    let found = find_challenge_by_id(&store.verifications, &id);
    let i = found.unwrap();
    proof {
        lemma_keyed_at(store.verifications@, challenge_key(), i as int);
        assert(0 <= store.verifications@[i as int].attempts < ATTEMPT_LIMIT);
    }
    let attempts = store.verifications[i].attempts + 1;
    if attempts >= ATTEMPT_LIMIT {
        proof {
            lemma_keyed_remove(store.verifications@, challenge_key(), i as int);
            lemma_keyed_remove(store.verifications@, challenge_code(), i as int);
            lemma_remove_row_keeps_bounds(store.verifications@, i as int);
        }
        store.verifications.remove(i);
    } else {
        let ghost rows = store.verifications@;
        let mut row = store.verifications.remove(i);
        row.attempts = attempts;
        proof {
            lemma_keyed_update(rows, challenge_key(), i as int, row);
            lemma_keyed_update(rows, challenge_code(), i as int, row);
            assert(rows.remove(i as int).insert(i as int, row) =~= rows.update(i as int, row));
            assert(keyed(rows, challenge_key())[discord_id@] == rows[i as int]@);
            assert(row@ == ChallengeModel { attempts: attempts as int, ..rows[i as int]@ });
        }
        store.verifications.insert(i, row);
        proof {
            let r2 = store.verifications@;
            assert forall|j: int| 0 <= j < r2.len() implies 0 <= (#[trigger] r2[j]).attempts < ATTEMPT_LIMIT by {
                if j != i {
                    assert(r2[j] == rows[j]);
                }
            }
        }
    }
    attempts
}

proof fn lemma_has_key_extend(rows: Seq<Verification>, i: int)
    requires
        0 <= i < rows.len(),
    ensures
        forall|k: Seq<char>|
            #[trigger] has_key(rows.subrange(0, i + 1), challenge_key(), k) <==> (has_key(
                rows.subrange(0, i),
                challenge_key(),
                k,
            ) || challenge_key()(rows[i]) == k),
{
    let a = rows.subrange(0, i);
    let b = rows.subrange(0, i + 1);
    assert forall|k: Seq<char>| #[trigger] has_key(b, challenge_key(), k) <==> (has_key(a, challenge_key(), k)
        || challenge_key()(rows[i]) == k) by {
        if has_key(b, challenge_key(), k) {
            let j = choose|j: int| 0 <= j < b.len() && #[trigger] challenge_key()(b[j]) == k;
            if j < i {
                assert(a[j] == b[j]);
            }
        }
        if has_key(a, challenge_key(), k) {
            let j = choose|j: int| 0 <= j < a.len() && #[trigger] challenge_key()(a[j]) == k;
            assert(a[j] == b[j]);
        }
        if challenge_key()(rows[i]) == k {
            assert(b[i] == rows[i]);
        }
    }
}

/// Removes every challenge whose expiry lies before `now`. Reads never depend on
/// this having run: they treat an expired challenge as absent.
pub fn cleanup_expired_verifications(store: &mut Store, now: i64)
    requires
        old(store).wf(),
    ensures
        final(store).wf(),
        final(store)@ == sweep_expired(old(store)@, now as int),
{
    let ghost rows = store.verifications@;
    let ghost m = store@.challenges;
    let mut kept: Vec<Verification> = Vec::new();
    let mut i: usize = 0;
    proof {
        assert(keyed(kept@, challenge_key()) =~= Map::new(
            |k: Seq<char>| m.contains_key(k) && !(m[k].expires_at < now) && has_key(rows.subrange(0, 0), challenge_key(), k),
            |k: Seq<char>| m[k],
        ));
    }
    while i < store.verifications.len()
        invariant
            rows == store.verifications@,
            m == keyed(rows, challenge_key()),
            distinct_by(rows, challenge_key()),
            distinct_by(rows, challenge_code()),
            i <= rows.len(),
            distinct_by(kept@, challenge_key()),
            distinct_by(kept@, challenge_code()),
            forall|j: int| 0 <= j < kept@.len() ==> exists|l: int| 0 <= l < i && #[trigger] kept@[j] == rows[l],
            keyed(kept@, challenge_key()) == Map::new(
                |k: Seq<char>| m.contains_key(k) && !(m[k].expires_at < now) && has_key(rows.subrange(0, i as int), challenge_key(), k),
                |k: Seq<char>| m[k],
            ),
        decreases rows.len() - i,
    {
        let ghost before = kept@;
        proof {
            lemma_has_key_extend(rows, i as int);
            lemma_keyed_at(rows, challenge_key(), i as int);
        }
        if !(store.verifications[i].expires_at < now) {
            let row = store.verifications[i].duplicate();
            proof {
                assert(!has_key(before, challenge_key(), challenge_key()(row))) by {
                    if has_key(before, challenge_key(), challenge_key()(row)) {
                        let j = choose|j: int| 0 <= j < before.len() && #[trigger] challenge_key()(before[j]) == challenge_key()(row);
                        let l = choose|l: int| 0 <= l < i && #[trigger] before[j] == rows[l];
                        assert(challenge_key()(rows[l]) == challenge_key()(rows[i as int]));
                    }
                }
                assert(!has_key(before, challenge_code(), challenge_code()(row))) by {
                    if has_key(before, challenge_code(), challenge_code()(row)) {
                        let j = choose|j: int| 0 <= j < before.len() && #[trigger] challenge_code()(before[j]) == challenge_code()(row);
                        let l = choose|l: int| 0 <= l < i && #[trigger] before[j] == rows[l];
                        assert(challenge_code()(rows[l]) == challenge_code()(rows[i as int]));
                    }
                }
                lemma_keyed_push(before, challenge_key(), row);
                lemma_keyed_push(before, challenge_code(), row);
            }
            kept.push(row);
            proof {
                assert forall|j: int| 0 <= j < kept@.len() implies exists|l: int| 0 <= l < i + 1 && #[trigger] kept@[j] == rows[l] by {
                    if j < before.len() {
                        assert(kept@[j] == before[j]);
                        let l = choose|l: int| 0 <= l < i && #[trigger] before[j] == rows[l];
                        assert(kept@[j] == rows[l]);
                    } else {
                        assert(kept@[j] == rows[i as int]);
                    }
                }
                assert(keyed(kept@, challenge_key()) =~= Map::new(
                    |k: Seq<char>| m.contains_key(k) && !(m[k].expires_at < now) && has_key(rows.subrange(0, i + 1), challenge_key(), k),
                    |k: Seq<char>| m[k],
                ));
            }
        } else {
            proof {
                assert forall|j: int| 0 <= j < kept@.len() implies exists|l: int| 0 <= l < i + 1 && #[trigger] kept@[j] == rows[l] by {
                    let l = choose|l: int| 0 <= l < i && #[trigger] kept@[j] == rows[l];
                }
                assert(keyed(kept@, challenge_key()) =~= Map::new(
                    |k: Seq<char>| m.contains_key(k) && !(m[k].expires_at < now) && has_key(rows.subrange(0, i + 1), challenge_key(), k),
                    |k: Seq<char>| m[k],
                ));
            }
        }
        i = i + 1;
    }
    proof {
        assert(rows.subrange(0, rows.len() as int) =~= rows);
        assert forall|j: int| 0 <= j < kept@.len() implies 0 <= (#[trigger] kept@[j]).attempts < ATTEMPT_LIMIT by {
            let l = choose|l: int| 0 <= l < i && #[trigger] kept@[j] == rows[l];
        }
        assert(keyed(kept@, challenge_key()) =~= sweep_expired(old(store)@, now as int).challenges);
    }
    store.verifications = kept;
}

} // verus!
