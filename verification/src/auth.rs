//! The session and token lifecycle: users, bearer tokens and permission
//! queries.
//!
//! Tokens are signed and opened by the `jsonwebtoken` crate and passwords
//! are hashed by `bcrypt`; what those crates compute is named, and the rules
//! around them are stated over the names. Token times are seconds since the
//! Unix epoch.

use crate::clock::unix_now;
use crate::ident::{hyphenated, identifier_text, new_id};
use crate::strmap::StringMap;
use crate::text::str_eq;
use vstd::prelude::*;
use vstd::string::StringExecFns;

verus! {

/// The lifetime of a token, in seconds.
pub const TOKEN_LIFETIME_SECS: u64 = 86400;

/// The lifetime of a session record in the durable store, in seconds.
pub const SESSION_TTL_SECS: u64 = 3600;

/// The cost that password hashes are made with unless another is chosen.
pub const DEFAULT_HASH_COST: u32 = 12;

/// The lowest cost that `bcrypt` hashes at.
pub const MIN_HASH_COST: u32 = 4;

/// The highest cost that `bcrypt` hashes at.
pub const MAX_HASH_COST: u32 = 31;

#[derive(Clone, Copy, Debug, PartialEq, Eq, Structural)]
pub enum AuthError {
    /// No such account, or the password does not match its hash.
    InvalidCredentials,
    /// The token is malformed, unsigned or tampered with.
    TokenInvalid,
    /// The token's signature holds but its expiry has passed.
    TokenExpired,
    UserNotFound,
    DuplicateUser,
    HashingError,
    /// Signing failed: the signing key is unusable.
    SigningFailed,
    /// The durable store could not be read.
    StoreUnavailable,
}

impl AuthError {
    pub open spec fn text(self) -> Seq<char> {
        match self {
            AuthError::InvalidCredentials => "Invalid credentials"@,
            AuthError::TokenInvalid => "Invalid token"@,
            AuthError::TokenExpired => "Token expired"@,
            AuthError::UserNotFound => "User not found"@,
            AuthError::DuplicateUser => "User already exists"@,
            AuthError::HashingError => "Password hashing error"@,
            AuthError::SigningFailed => "JWT encoding error"@,
            AuthError::StoreUnavailable => "Session store unavailable"@,
        }
    }

    pub fn message(&self) -> (s: String)
        ensures
            s@ == self.text(),
    {
        match self {
            AuthError::InvalidCredentials => String::from_str("Invalid credentials"),
            AuthError::TokenInvalid => String::from_str("Invalid token"),
            AuthError::TokenExpired => String::from_str("Token expired"),
            AuthError::UserNotFound => String::from_str("User not found"),
            AuthError::DuplicateUser => String::from_str("User already exists"),
            AuthError::HashingError => String::from_str("Password hashing error"),
            AuthError::SigningFailed => String::from_str("JWT encoding error"),
            AuthError::StoreUnavailable => String::from_str("Session store unavailable"),
        }
    }
}

/// The texts of `list`, in order.
pub open spec fn texts(list: Seq<String>) -> Seq<Seq<char>> {
    Seq::new(list.len(), |i: int| list[i]@)
}

/// The signed payload of a bearer token.
#[derive(Debug)]
pub struct Claims {
    /// The user the token was issued to.
    pub sub: String,
    pub exp: u64,
    pub iat: u64,
    /// The user's permissions when the token was issued.
    pub permissions: Vec<String>,
}

/// The mathematical content of [`Claims`].
pub struct ClaimsView {
    pub sub: Seq<char>,
    pub exp: u64,
    pub iat: u64,
    pub permissions: Seq<Seq<char>>,
}

impl View for Claims {
    type V = ClaimsView;

    open spec fn view(&self) -> ClaimsView {
        ClaimsView {
            sub: self.sub@,
            exp: self.exp,
            iat: self.iat,
            permissions: texts(self.permissions@),
        }
    }
}

#[derive(Debug)]
pub struct User {
    pub id: String,
    pub username: String,
    pub email: String,
    pub permissions: Vec<String>,
    /// When the account was made, in seconds since the Unix epoch.
    pub created_at: u64,
    /// The salted hash that the password is verified against.
    pub password_hash: String,
}

/// The mathematical content of a [`User`].
pub struct UserView {
    pub id: Seq<char>,
    pub username: Seq<char>,
    pub email: Seq<char>,
    pub permissions: Seq<Seq<char>>,
    pub created_at: u64,
    pub password_hash: Seq<char>,
}

impl View for User {
    type V = UserView;

    open spec fn view(&self) -> UserView {
        UserView {
            id: self.id@,
            username: self.username@,
            email: self.email@,
            permissions: texts(self.permissions@),
            created_at: self.created_at,
            password_hash: self.password_hash@,
        }
    }
}

/// A copy of `list`.
pub fn copy_texts(list: &Vec<String>) -> (copy: Vec<String>)
    ensures
        texts(copy@) == texts(list@),
{
    let mut copy: Vec<String> = Vec::new();
    let mut i: usize = 0;
    while i < list.len()
        invariant
            i <= list.len(),
            copy@.len() == i,
            forall|j: int| 0 <= j < i ==> #[trigger] copy@[j]@ == list@[j]@,
        decreases list.len() - i,
    {
        copy.push(list[i].clone());
        i += 1;
    }
    assert(texts(copy@) =~= texts(list@));
    copy
}

impl Clone for Claims {
    fn clone(&self) -> (c: Self)
        ensures
            c@ == self@,
    {
        Claims {
            sub: self.sub.clone(),
            exp: self.exp,
            iat: self.iat,
            permissions: copy_texts(&self.permissions),
        }
    }
}

impl Clone for User {
    fn clone(&self) -> (u: Self)
        ensures
            u@ == self@,
    {
        User {
            id: self.id.clone(),
            username: self.username.clone(),
            email: self.email.clone(),
            permissions: copy_texts(&self.permissions),
            created_at: self.created_at,
            password_hash: self.password_hash.clone(),
        }
    }
}

/// The token that `jsonwebtoken::encode` makes of `claims` under the
/// default header (HS256) and the key `secret`; `None` where it reports an
/// error.
pub uninterp spec fn jwt_token(secret: Seq<char>, claims: ClaimsView) -> Option<Seq<char>>;

/// The claims that `jsonwebtoken::decode` reads from `token` under HS256
/// and the key `secret`, with the expiry left unchecked; `None` where it
/// rejects the token or the payload does not have the shape of
/// [`Claims`].
pub uninterp spec fn jwt_claims(secret: Seq<char>, token: Seq<char>) -> Option<ClaimsView>;

/// What `bcrypt::verify` answers for `password` and `hash`; `None` where it
/// reports an error, as for a malformed hash.
pub uninterp spec fn bcrypt_verdict(password: Seq<char>, hash: Seq<char>) -> Option<bool>;

pub open spec fn claims_view(claims: Option<Claims>) -> Option<ClaimsView> {
    match claims {
        Some(c) => Some(c@),
        None => None,
    }
}

pub open spec fn text_view(text: Option<String>) -> Option<Seq<char>> {
    match text {
        Some(t) => Some(t@),
        None => None,
    }
}

/// Signs `claims` with `jsonwebtoken::encode` under the default header and
/// an HMAC key made of `secret`. The token is named. The one fact taken
/// from the crate is that opening the token with the same secret, as
/// [`jwt_open`] does, gives the same claims back.
#[verifier::external_body]
pub(crate) fn jwt_sign(secret: &str, claims: &Claims) -> (token: Option<String>)
    ensures
        text_view(token) == jwt_token(secret@, claims@),
        token matches Some(t) ==> jwt_claims(secret@, t@) == Some(claims@),
{
    let mut body = serde_json::Map::new();
    body.insert("sub".to_string(), serde_json::Value::from(claims.sub.clone()));
    body.insert("exp".to_string(), serde_json::Value::from(claims.exp));
    body.insert("iat".to_string(), serde_json::Value::from(claims.iat));
    body.insert("permissions".to_string(), serde_json::Value::from(claims.permissions.clone()));
    let key = jsonwebtoken::EncodingKey::from_secret(secret.as_bytes());
    jsonwebtoken::encode(&jsonwebtoken::Header::default(), &body, &key).ok()
}

/// Opens `token` with `jsonwebtoken::decode` under HS256 and an HMAC key
/// made of `secret`, with the crate's own expiry check switched off, and
/// moves the payload's fields into [`Claims`]. The result is named.
#[verifier::external_body]
pub(crate) fn jwt_open(secret: &str, token: &str) -> (claims: Option<Claims>)
    ensures
        claims_view(claims) == jwt_claims(secret@, token@),
{
    let mut rules = jsonwebtoken::Validation::new(jsonwebtoken::Algorithm::HS256);
    rules.validate_exp = false;
    let key = jsonwebtoken::DecodingKey::from_secret(secret.as_bytes());
    let body = jsonwebtoken::decode::<serde_json::Value>(token, &key, &rules).ok()?.claims;
    let listed = body.get("permissions")?.as_array()?.iter();
    Some(Claims {
        sub: body.get("sub")?.as_str()?.to_string(),
        exp: body.get("exp")?.as_u64()?,
        iat: body.get("iat")?.as_u64()?,
        permissions: listed.map(|p| p.as_str().map(str::to_string)).collect::<Option<Vec<_>>>()?,
    })
}

/// What `bcrypt::hash` can answer for `password` at `cost`: a hash that
/// `bcrypt::verify` accepts the password against, or an error; and always
/// an error where the cost lies outside the range that the crate hashes at.
pub open spec fn hash_answer(password: Seq<char>, cost: u32, hash: Option<Seq<char>>) -> bool {
    &&& hash matches Some(h) ==> bcrypt_verdict(password, h) == Some(true)
    &&& !(MIN_HASH_COST <= cost <= MAX_HASH_COST) ==> hash is None
}

/// Hashes `password` with `bcrypt::hash` at the given cost, under a salt
/// that the crate draws at random. Which hash comes is left open. What is
/// taken from the crate is that `bcrypt::verify` accepts the password
/// against it, and that a cost outside 4 to 31 is refused.
#[verifier::external_body]
pub(crate) fn bcrypt_hash(password: &str, cost: u32) -> (hash: Option<String>)
    ensures
        hash_answer(password@, cost, text_view(hash)),
{
    bcrypt::hash(password, cost).ok()
}

/// Asks `bcrypt::verify` whether `password` matches `hash`. The answer is
/// named.
#[verifier::external_body]
pub(crate) fn bcrypt_verify(password: &str, hash: &str) -> (verdict: Option<bool>)
    ensures
        verdict == bcrypt_verdict(password@, hash@),
{
    bcrypt::verify(password, hash).ok()
}

/// When a token issued at `now` expires.
pub open spec fn token_expiry(now: u64) -> u64 {
    if now + TOKEN_LIFETIME_SECS <= u64::MAX {
        (now + TOKEN_LIFETIME_SECS) as u64
    } else {
        u64::MAX
    }
}

/// The claims of a token issued to `user_id` at `now`.
pub open spec fn claims_at(user_id: Seq<char>, permissions: Seq<Seq<char>>, now: u64) -> ClaimsView {
    ClaimsView { sub: user_id, exp: token_expiry(now), iat: now, permissions }
}

/// What verifying a token at `now` gives, from what opening it gave: a
/// token that does not open is invalid; one that opens is expired once
/// `now` has passed its expiry. Nothing is granted on a signature alone.
pub open spec fn claims_judgement(opened: Option<ClaimsView>, now: u64) -> Result<
    ClaimsView,
    AuthError,
> {
    match opened {
        None => Err(AuthError::TokenInvalid),
        Some(c) => if now > c.exp {
            Err(AuthError::TokenExpired)
        } else {
            Ok(c)
        },
    }
}

/// What verifying `token` under `secret` at `now` gives.
pub open spec fn verify_outcome(secret: Seq<char>, token: Seq<char>, now: u64) -> Result<
    ClaimsView,
    AuthError,
> {
    claims_judgement(jwt_claims(secret, token), now)
}

pub open spec fn verified_view(r: Result<Claims, AuthError>) -> Result<ClaimsView, AuthError> {
    match r {
        Ok(c) => Ok(c@),
        Err(e) => Err(e),
    }
}

pub open spec fn issued_view(r: Result<String, AuthError>) -> Result<Seq<char>, AuthError> {
    match r {
        Ok(t) => Ok(t@),
        Err(e) => Err(e),
    }
}

/// What issuing a token gives, from what signing gave.
pub open spec fn issue_outcome(secret: Seq<char>, claims: ClaimsView) -> Result<
    Seq<char>,
    AuthError,
> {
    match jwt_token(secret, claims) {
        Some(t) => Ok(t),
        None => Err(AuthError::SigningFailed),
    }
}

/// Whether a user with `permissions` may do what asks for `required`: the
/// permission itself or `admin` is among them.
pub open spec fn permits(permissions: Seq<Seq<char>>, required: Seq<char>) -> bool {
    permissions.contains(required) || permissions.contains("admin"@)
}

/// The first of `users[from..]` whose id is `id`.
pub open spec fn find_by_id(users: Seq<User>, id: Seq<char>, from: int) -> Option<User>
    decreases users.len() - from,
{
    if 0 <= from < users.len() {
        if users[from].id@ == id {
            Some(users[from])
        } else {
            find_by_id(users, id, from + 1)
        }
    } else {
        None
    }
}

/// The answer to a permission query about the user with id `user_id`.
pub open spec fn permission_outcome(users: Seq<User>, user_id: Seq<char>, required: Seq<char>) -> Result<
    bool,
    AuthError,
> {
    match find_by_id(users, user_id, 0) {
        Some(u) => Ok(permits(u@.permissions, required)),
        None => Err(AuthError::UserNotFound),
    }
}

/// A user who stands in the list is found by id: the search gives a user
/// with that id, the first in the list.
pub proof fn lemma_find_by_id(users: Seq<User>, id: Seq<char>, from: int, at: int)
    requires
        0 <= from <= at < users.len(),
        users[at].id@ == id,
    ensures
        find_by_id(users, id, from) matches Some(u) && u.id@ == id,
        (forall|j: int| from <= j < at ==> users[j].id@ != id) ==> find_by_id(users, id, from)
            == Some(users[at]),
    decreases at - from,
{
    if users[from].id@ != id {
        lemma_find_by_id(users, id, from + 1, at);
    }
}

/// The user that registration makes of its arguments.
pub open spec fn new_user(
    username: Seq<char>,
    email: Seq<char>,
    id: Seq<char>,
    hash: Seq<char>,
    now: u64,
) -> UserView {
    UserView {
        id,
        username,
        email,
        permissions: seq!["user"@],
        created_at: now,
        password_hash: hash,
    }
}

/// What registering `username` does, given the id drawn for the user and
/// what hashing the password gave: a taken name is refused, a failed hash
/// is an error, and both leave the accounts as they were. Otherwise the
/// new user is returned and stands last among the accounts, with every
/// earlier account unchanged.
pub open spec fn registered(
    before: Map<Seq<char>, User>,
    before_list: Seq<User>,
    after: Map<Seq<char>, User>,
    after_list: Seq<User>,
    r: Result<User, AuthError>,
    username: Seq<char>,
    email: Seq<char>,
    id: Seq<char>,
    hash: Option<Seq<char>>,
    now: u64,
) -> bool {
    &&& r == Err::<User, AuthError>(AuthError::DuplicateUser) <==> before.contains_key(username)
    &&& r == Err::<User, AuthError>(AuthError::HashingError) <==> !before.contains_key(username)
        && hash is None
    &&& r is Ok <==> !before.contains_key(username) && hash is Some
    &&& r is Err ==> after == before && after_list == before_list
    &&& r matches Ok(u) ==> {
        &&& u@ == new_user(username, email, id, hash->Some_0, now)
        &&& after.dom() == before.dom().insert(username)
        &&& after[username]@ == u@
        &&& forall|k: Seq<char>| before.contains_key(k) ==> #[trigger] after[k] == before[k]
        &&& after_list == before_list.push(after[username])
    }
}

/// Whether `password` is the password of the account `username`.
pub open spec fn credentials_hold(
    accounts: Map<Seq<char>, User>,
    username: Seq<char>,
    password: Seq<char>,
) -> bool {
    accounts.contains_key(username) && bcrypt_verdict(password, accounts[username].password_hash@)
        == Some(true)
}

/// What a login at `now` gives.
pub open spec fn login_outcome(
    secret: Seq<char>,
    accounts: Map<Seq<char>, User>,
    username: Seq<char>,
    password: Seq<char>,
    now: u64,
) -> Result<Seq<char>, AuthError> {
    if credentials_hold(accounts, username, password) {
        issue_outcome(
            secret,
            claims_at(accounts[username].id@, accounts[username]@.permissions, now),
        )
    } else {
        Err(AuthError::InvalidCredentials)
    }
}

/// Whether `list` holds `wanted`.
pub fn holds_text(list: &Vec<String>, wanted: &str) -> (r: bool)
    ensures
        r == texts(list@).contains(wanted@),
{
    let mut i: usize = 0;
    while i < list.len()
        invariant
            i <= list.len(),
            forall|j: int| 0 <= j < i ==> texts(list@)[j] != wanted@,
        decreases list.len() - i,
    {
        if str_eq(list[i].as_str(), wanted) {
            assert(texts(list@)[i as int] == wanted@);
            return true;
        }
        i += 1;
    }
    false
}

/// Verifies opened claims at `now`.
pub fn check_claims(opened: Option<Claims>, now: u64) -> (r: Result<Claims, AuthError>)
    ensures
        verified_view(r) == claims_judgement(claims_view(opened), now),
{
    match opened {
        None => Err(AuthError::TokenInvalid),
        Some(c) => {
            if now > c.exp {
                Err(AuthError::TokenExpired)
            } else {
                Ok(c)
            }
        },
    }
}

/// Reads bcrypt's answer: only a plain yes accepts the password.
pub fn password_accepted(verdict: Option<bool>) -> (r: bool)
    ensures
        r == (verdict == Some(true)),
{
    match verdict {
        Some(yes) => yes,
        None => false,
    }
}

/// What the durable store answered to a read of a session record.
pub enum StoreReply {
    Value(String),
    Absent,
    /// The store could not be reached or the read failed.
    Failed,
}

/// The write that the durable store is to make for a new session.
pub struct SessionWrite {
    pub key: String,
    pub user_id: String,
    pub ttl_secs: u64,
}

/// The key of a session record in the durable store.
pub open spec fn session_record_key(session_id: Seq<char>) -> Seq<char> {
    "session:"@ + session_id
}

/// What a session lookup gives, from what the store answered: a failed
/// read is an error, not an absent session.
pub open spec fn session_outcome(reply: StoreReply) -> Result<Option<Seq<char>>, AuthError> {
    match reply {
        StoreReply::Value(user_id) => Ok(Some(user_id@)),
        StoreReply::Absent => Ok(None),
        StoreReply::Failed => Err(AuthError::StoreUnavailable),
    }
}

pub open spec fn session_view(r: Result<Option<String>, AuthError>) -> Result<
    Option<Seq<char>>,
    AuthError,
> {
    match r {
        Ok(Some(u)) => Ok(Some(u@)),
        Ok(None) => Ok(None),
        Err(e) => Err(e),
    }
}

pub struct AuthManager {
    jwt_secret: String,
    users: StringMap<User>,
    hash_cost: u32,
}

impl AuthManager {
    pub closed spec fn wf(&self) -> bool {
        &&& self.users.wf()
        &&& forall|k: Seq<char>| #[trigger]
            self.users@.contains_key(k) ==> self.users@[k].username@ == k
    }

    pub closed spec fn secret(&self) -> Seq<char> {
        self.jwt_secret@
    }

    /// The accounts, by user name.
    pub closed spec fn accounts(&self) -> Map<Seq<char>, User> {
        self.users@
    }

    /// The accounts in the order in which they were made.
    pub closed spec fn account_list(&self) -> Seq<User> {
        self.users.val_seq()
    }

    pub closed spec fn cost(&self) -> u32 {
        self.hash_cost
    }

    /// The accounts by name and the accounts in order are the same
    /// accounts: each listed account is the one bound to its name, each
    /// bound account is listed, and there are as many of one as of the
    /// other.
    pub proof fn lemma_accounts_listed(&self)
        requires
            self.wf(),
        ensures
            self.accounts().dom().finite(),
            self.account_list().len() == self.accounts().dom().len(),
            forall|i: int|
                0 <= i < self.account_list().len() ==> self.accounts().contains_key(
                    (#[trigger] self.account_list()[i]).username@,
                ) && self.accounts()[self.account_list()[i].username@] == self.account_list()[i],
            forall|k: Seq<char>| #[trigger]
                self.accounts().contains_key(k) ==> exists|i: int|
                    0 <= i < self.account_list().len() && #[trigger] self.account_list()[i]
                        == self.accounts()[k],
    {
        self.users.lemma_listed();
        assert forall|i: int| 0 <= i < self.account_list().len() implies self.accounts().contains_key(
            (#[trigger] self.account_list()[i]).username@,
        ) && self.accounts()[self.account_list()[i].username@] == self.account_list()[i] by {
            let k = self.users.key_seq()[i];
            assert(self.users@.contains_key(k) && self.users@[k] == self.users.val_seq()[i]);
        }
        assert forall|k: Seq<char>| #[trigger] self.accounts().contains_key(k) implies exists|
            i: int,
        |
            0 <= i < self.account_list().len() && #[trigger] self.account_list()[i]
                == self.accounts()[k] by {
            let i = self.users.index_of(k);
            assert(self.users.bound_at(k, i));
            assert(self.account_list()[i] == self.accounts()[k]);
        }
    }

    pub fn new(jwt_secret: String) -> (m: Self)
        ensures
            m.wf(),
            m.secret() == jwt_secret@,
            m.accounts() == Map::<Seq<char>, User>::empty(),
            m.cost() == DEFAULT_HASH_COST,
    {
        AuthManager { jwt_secret, users: StringMap::new(), hash_cost: DEFAULT_HASH_COST }
    }

    /// A manager that hashes passwords at `hash_cost`.
    pub fn with_cost(jwt_secret: String, hash_cost: u32) -> (m: Self)
        ensures
            m.wf(),
            m.secret() == jwt_secret@,
            m.accounts() == Map::<Seq<char>, User>::empty(),
            m.cost() == hash_cost,
    {
        AuthManager { jwt_secret, users: StringMap::new(), hash_cost }
    }

    /// Issues a token for `user_id` at `now`: issued-at is `now`, expiry a
    /// day later, and the permissions are embedded as given. The token
    /// verifies, with these claims, at every instant up to its expiry.
    pub fn issue_token(&self, user_id: &str, permissions: &Vec<String>, now: u64) -> (r: Result<
        String,
        AuthError,
    >)
        ensures
            issued_view(r) == issue_outcome(
                self.secret(),
                claims_at(user_id@, texts(permissions@), now),
            ),
            r matches Ok(token) ==> forall|at: u64|
                at <= token_expiry(now) ==> #[trigger] verify_outcome(self.secret(), token@, at)
                    == Ok::<ClaimsView, AuthError>(claims_at(user_id@, texts(permissions@), now)),
    {
        let claims = Claims {
            sub: user_id.to_owned(),
            exp: now.saturating_add(TOKEN_LIFETIME_SECS),
            iat: now,
            permissions: copy_texts(permissions),
        };
        match jwt_sign(self.jwt_secret.as_str(), &claims) {
            Some(token) => Ok(token),
            None => Err(AuthError::SigningFailed),
        }
    }

    /// Verifies `token` at `now`.
    pub fn verify_token(&self, token: &str, now: u64) -> (r: Result<Claims, AuthError>)
        ensures
            verified_view(r) == verify_outcome(self.secret(), token@, now),
    {
        check_claims(jwt_open(self.jwt_secret.as_str(), token), now)
    }

    /// Issues a token at the current time. Whatever the clock reads, the
    /// token carries `user_id` and `permissions` and verifies until it
    /// expires.
    pub fn generate_jwt_token(&self, user_id: &str, permissions: &Vec<String>) -> (r: Result<
        String,
        AuthError,
    >)
        ensures
            exists|now: u64|
                issued_view(r) == #[trigger] issue_outcome(
                    self.secret(),
                    claims_at(user_id@, texts(permissions@), now),
                ),
            r is Err ==> r == Err::<String, AuthError>(AuthError::SigningFailed),
            r matches Ok(token) ==> exists|now: u64|
                {
                    &&& jwt_token(
                        self.secret(),
                        #[trigger] claims_at(user_id@, texts(permissions@), now),
                    ) == Some(token@)
                    &&& jwt_claims(self.secret(), token@) == Some(
                        claims_at(user_id@, texts(permissions@), now),
                    )
                },
    {
        let now = unix_now();
        let r = self.issue_token(user_id, permissions, now);
        proof {
            assert(issued_view(r) == issue_outcome(
                self.secret(),
                claims_at(user_id@, texts(permissions@), now),
            ));
            if r is Ok {
                assert(verify_outcome(self.secret(), r->Ok_0@, now) == Ok::<ClaimsView, AuthError>(
                    claims_at(user_id@, texts(permissions@), now),
                ));
            }
        }
        r
    }

    /// Verifies `token` at the current time. Whatever the clock reads, a
    /// token that does not open is invalid, and claims are only returned
    /// for a token that opens.
    pub fn verify_jwt_token(&self, token: &str) -> (r: Result<Claims, AuthError>)
        ensures
            exists|now: u64| verified_view(r) == #[trigger] verify_outcome(self.secret(), token@, now),
    {
        let now = unix_now();
        let r = self.verify_token(token, now);
        assert(verified_view(r) == verify_outcome(self.secret(), token@, now));
        r
    }

    /// Logs a user in at `now`: the account has to exist and the password
    /// has to match its stored hash.
    pub fn authenticate_user(&self, username: &str, password: &str, now: u64) -> (r: Result<
        String,
        AuthError,
    >)
        requires
            self.wf(),
        ensures
            issued_view(r) == login_outcome(
                self.secret(),
                self.accounts(),
                username@,
                password@,
                now,
            ),
    {
        match self.users.get(username) {
            Some(user) => {
                let verdict = bcrypt_verify(password, user.password_hash.as_str());
                if password_accepted(verdict) {
                    self.issue_token(user.id.as_str(), &user.permissions, now)
                } else {
                    Err(AuthError::InvalidCredentials)
                }
            },
            None => Err(AuthError::InvalidCredentials),
        }
    }

    /// Registers the user `username` under the id `id`, given what hashing
    /// the password gave.
    pub fn register_hashed(
        &mut self,
        username: String,
        email: String,
        id: String,
        hash: Option<String>,
        now: u64,
    ) -> (r: Result<User, AuthError>)
        requires
            old(self).wf(),
        ensures
            final(self).wf(),
            final(self).secret() == old(self).secret(),
            final(self).cost() == old(self).cost(),
            r == Err::<User, AuthError>(AuthError::DuplicateUser) <==> old(self).accounts().contains_key(username@),
            r == Err::<User, AuthError>(AuthError::HashingError) <==> !old(self).accounts().contains_key(username@) && hash is None,
            r is Err ==> final(self).accounts() == old(self).accounts() && final(self).account_list() == old(self).account_list(),
            r matches Ok(u) ==> u@ == new_user(username@, email@, id@, hash->Some_0@, now)
                && final(self).accounts()[username@]@ == u@ && final(self).accounts().dom() == old(self).accounts().dom().insert(username@),
            registered(
                old(self).accounts(),
                old(self).account_list(),
                final(self).accounts(),
                final(self).account_list(),
                r,
                username@,
                email@,
                id@,
                text_view(hash),
                now,
            ),
    {
        if self.users.get(username.as_str()).is_some() {
            return Err(AuthError::DuplicateUser);
        }
        let password_hash = match hash {
            Some(h) => h,
            None => {
                return Err(AuthError::HashingError);
            },
        };
        let mut permissions: Vec<String> = Vec::new();
        permissions.push(String::from_str("user"));
        let user = User {
            id,
            username: username.clone(),
            email,
            permissions,
            created_at: now,
            password_hash,
        };
        let copy = user.clone();
        proof {
            assert(user@.permissions =~= seq!["user"@]);
        }
        self.users.insert(username, user);
        proof {
            assert(self.accounts().dom() =~= old(self).accounts().dom().insert(username@));
        }
        Ok(copy)
    }

    /// Registers a user at `now`, with the default permission `user`. The
    /// name must be free: a taken name is refused before anything is drawn
    /// or hashed. For a free name a fresh identifier is drawn and the
    /// password is hashed at the manager's cost; what follows is
    /// [`Self::register_hashed`] on what the two gave. The password is
    /// stored only as that hash, which it verifies against.
    pub fn create_user(&mut self, username: String, email: String, password: String, now: u64) -> (r:
        Result<User, AuthError>)
        requires
            old(self).wf(),
        ensures
            final(self).wf(),
            final(self).secret() == old(self).secret(),
            final(self).cost() == old(self).cost(),
            exists|id: Seq<char>, hash: Option<Seq<char>>|
                {
                    &&& identifier_text(id)
                    &&& hash_answer(password@, old(self).cost(), hash)
                    &&& #[trigger] registered(
                        old(self).accounts(),
                        old(self).account_list(),
                        final(self).accounts(),
                        final(self).account_list(),
                        r,
                        username@,
                        email@,
                        id,
                        hash,
                        now,
                    )
                },
            old(self).accounts().contains_key(username@) <==> r == Err::<User, AuthError>(
                AuthError::DuplicateUser,
            ),
            !old(self).accounts().contains_key(username@) && !(MIN_HASH_COST <= old(self).cost()
                <= MAX_HASH_COST) ==> r == Err::<User, AuthError>(AuthError::HashingError),
            r is Err ==> final(self).accounts() == old(self).accounts() && final(self).account_list() == old(self).account_list() && (r == Err::<User, AuthError>(
                AuthError::DuplicateUser,
            ) || r == Err::<User, AuthError>(AuthError::HashingError)),
            r matches Ok(user) ==> {
                &&& identifier_text(user@.id)
                &&& user@.username == username@
                &&& user@.email == email@
                &&& user@.permissions == seq!["user"@]
                &&& user@.created_at == now
                &&& final(self).accounts().dom() == old(self).accounts().dom().insert(username@)
                &&& final(self).accounts()[username@]@ == user@
                &&& forall|k: Seq<char>|
                    old(self).accounts().contains_key(k) ==> #[trigger] final(self).accounts()[k]
                        == old(self).accounts()[k]
                &&& final(self).account_list() == old(self).account_list().push(
                    final(self).accounts()[username@],
                )
                &&& credentials_hold(final(self).accounts(), username@, password@)
            },
    {
        if self.users.get(username.as_str()).is_some() {
            proof {
                let zeros = Seq::new(16, |i: int| 0u8);
                let id = hyphenated(zeros);
                assert(zeros.len() == 16 && id == hyphenated(zeros));
                assert(identifier_text(id));
                assert(hash_answer(password@, self.cost(), None));
                assert(registered(
                    old(self).accounts(),
                    old(self).account_list(),
                    self.accounts(),
                    self.account_list(),
                    Err::<User, AuthError>(AuthError::DuplicateUser),
                    username@,
                    email@,
                    id,
                    None,
                    now,
                ));
            }
            return Err(AuthError::DuplicateUser);
        }
        let id = new_id();
        let hash = bcrypt_hash(password.as_str(), self.hash_cost);
        let ghost id_text = id@;
        let ghost hash_text = text_view(hash);
        let r = self.register_hashed(username, email, id, hash, now);
        proof {
            assert(registered(
                old(self).accounts(),
                old(self).account_list(),
                self.accounts(),
                self.account_list(),
                r,
                username@,
                email@,
                id_text,
                hash_text,
                now,
            ));
        }
        r
    }

    /// Grants `permission` to the account `username`. Permissions are an
    /// ordered set: one that the account already holds is not added again.
    pub fn grant_permission(&mut self, username: &str, permission: &str) -> (r: Result<
        (),
        AuthError,
    >)
        requires
            old(self).wf(),
        ensures
            final(self).wf(),
            final(self).secret() == old(self).secret(),
            final(self).cost() == old(self).cost(),
            final(self).accounts().dom() == old(self).accounts().dom(),
            forall|k: Seq<char>|
                old(self).accounts().contains_key(k) && k != username@
                    ==> #[trigger] final(self).accounts()[k] == old(self).accounts()[k],
            final(self).account_list().len() == old(self).account_list().len(),
            forall|j: int|
                0 <= j < old(self).account_list().len() ==> #[trigger] final(self).account_list()[j]
                    == if old(self).account_list()[j].username@ == username@ {
                    final(self).accounts()[username@]
                } else {
                    old(self).account_list()[j]
                },
            r is Ok <==> old(self).accounts().contains_key(username@),
            r is Err ==> r == Err::<(), AuthError>(AuthError::UserNotFound),
            r is Ok ==> {
                let before = old(self).accounts()[username@]@;
                final(self).accounts()[username@]@ == UserView {
                    permissions: if before.permissions.contains(permission@) {
                        before.permissions
                    } else {
                        before.permissions.push(permission@)
                    },
                    ..before
                }
            },
    {
        let mut user = match self.users.get(username) {
            Some(u) => u.clone(),
            None => {
                proof {
                    self.lemma_accounts_listed();
                }
                return Err(AuthError::UserNotFound);
            },
        };
        if !holds_text(&user.permissions, permission) {
            let ghost held = texts(user.permissions@);
            user.permissions.push(permission.to_owned());
            assert(texts(user.permissions@) =~= held.push(permission@));
        }
        self.users.insert(username.to_owned(), user);
        proof {
            assert(self.accounts().dom() =~= old(self).accounts().dom());
            old(self).lemma_accounts_listed();
            old(self).users.lemma_listed();
            self.users.lemma_listed();
            let at = old(self).users.index_of(username@);
            assert forall|j: int| 0 <= j < old(self).account_list().len() implies #[trigger] self.account_list()[j]
                == if old(self).account_list()[j].username@ == username@ {
                self.accounts()[username@]
            } else {
                old(self).account_list()[j]
            } by {
                let k = old(self).users.key_seq()[j];
                assert(old(self).users@.contains_key(k) && old(self).users@[k] == old(
                    self,
                ).users.val_seq()[j] && old(self).users.index_of(k) == j);
                assert(self.users.key_seq()[j] == k);
            }
        }
        Ok(())
    }

    /// Whether the user with id `user_id` may do what asks for
    /// `required_permission`.
    pub fn validate_permissions(&self, user_id: &str, required_permission: &str) -> (r: Result<
        bool,
        AuthError,
    >)
        requires
            self.wf(),
        ensures
            r == permission_outcome(self.account_list(), user_id@, required_permission@),
    {
        let n = self.users.len();
        let mut i: usize = 0;
        while i < n
            invariant
                self.wf(),
                n == self.account_list().len(),
                i <= n,
                find_by_id(self.account_list(), user_id@, 0) == find_by_id(
                    self.account_list(),
                    user_id@,
                    i as int,
                ),
            decreases n - i,
        {
            let user = self.users.value_at(i);
            if str_eq(user.id.as_str(), user_id) {
                let granted = holds_text(&user.permissions, required_permission) || holds_text(
                    &user.permissions,
                    "admin",
                );
                return Ok(granted);
            }
            i += 1;
        }
        Err(AuthError::UserNotFound)
    }

    /// The record that the durable store is to write for a new session: it
    /// binds the session to the user for an hour.
    pub fn store_session(&self, session_id: &str, user_id: &str) -> (w: SessionWrite)
        ensures
            w.key@ == session_record_key(session_id@),
            w.user_id@ == user_id@,
            w.ttl_secs == SESSION_TTL_SECS,
    {
        SessionWrite {
            key: Self::session_key(session_id),
            user_id: user_id.to_owned(),
            ttl_secs: SESSION_TTL_SECS,
        }
    }

    /// The key under which the durable store holds a session.
    pub fn session_key(session_id: &str) -> (key: String)
        ensures
            key@ == session_record_key(session_id@),
    {
        let mut key = String::from_str("session:");
        key.append(session_id);
        key
    }

    /// The user bound to a session, from what the durable store answered
    /// to a read of its record.
    pub fn get_session(&self, reply: StoreReply) -> (r: Result<Option<String>, AuthError>)
        ensures
            session_view(r) == session_outcome(reply),
    {
        match reply {
            StoreReply::Value(user_id) => Ok(Some(user_id)),
            StoreReply::Absent => Ok(None),
            StoreReply::Failed => Err(AuthError::StoreUnavailable),
        }
    }
}

/// A token whose expiry lies in the past is rejected as expired, whatever
/// else it holds.
pub proof fn law_expired_token_rejected(secret: Seq<char>, token: Seq<char>, now: u64)
    requires
        jwt_claims(secret, token) matches Some(c) && c.exp < now,
    ensures
        verify_outcome(secret, token, now) == Err::<ClaimsView, AuthError>(AuthError::TokenExpired),
{
}

/// A token that does not open under the secret is rejected as invalid at
/// every instant.
pub proof fn law_unopened_token_rejected(secret: Seq<char>, token: Seq<char>, now: u64)
    requires
        jwt_claims(secret, token) is None,
    ensures
        verify_outcome(secret, token, now) == Err::<ClaimsView, AuthError>(AuthError::TokenInvalid),
{
}

/// A user who holds `admin` passes every permission query, whatever was
/// asked for.
pub proof fn law_admin_permits_all(permissions: Seq<Seq<char>>, required: Seq<char>)
    requires
        permissions.contains("admin"@),
    ensures
        permits(permissions, required),
{
}

} // verus!
