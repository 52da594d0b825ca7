//! Token issue, rotation, revocation and request-time validation.

use vstd::prelude::*;
use vstd::string::*;
use vstd::utf8::encode_utf8;

use crate::common::credentials_findings;
use crate::common::credentials_valid;
use crate::common::findings_text;
use crate::common::Credentials;
use crate::common::LoginResponse;
use crate::config::JwtConfig;
use crate::db::account_id_for;
use crate::db::account_of;
use crate::db::email_taken;
use crate::db::first_holder;
use crate::db::holds_hash;
use crate::db::rotated;
use crate::db::session_of;
use crate::db::without_hash;
use crate::db::Account;
use crate::db::Database;
use crate::db::RefreshSession;
use crate::db::Session;
use crate::db::Tables;
use crate::decimal::account_id_of_text;
use crate::decimal::decimal_text;
use crate::decimal::format_account_id;
use crate::decimal::lemma_decimal_round_trip;
use crate::decimal::parse_account_id;
use crate::error::AppError;
use crate::error::STATUS_CREATED;
use crate::error::STATUS_NO_CONTENT;
use crate::extractors::AuthUser;
use crate::primitives::base64url_encode;
use crate::primitives::base64url_of;
use crate::primitives::bcrypt_hash;
use crate::primitives::bcrypt_verdict;
use crate::primitives::bcrypt_verify;
use crate::primitives::clock_reading;
use crate::primitives::hex_encode;
use crate::primitives::hex_text;
use crate::primitives::hs256_claims;
use crate::primitives::hs256_sign;
use crate::primitives::hs256_token;
use crate::primitives::hs256_verify;
use crate::primitives::is_alphanumeric;
use crate::primitives::is_url_safe;
use crate::primitives::random_alphanumeric;
use crate::primitives::random_bytes;
use crate::primitives::sha256;
use crate::primitives::sha256_of;
use crate::primitives::unix_time_now;
use crate::web_server::AppState;

verus! {

/// The number of characters in the nonce of an access token.
pub const NONCE_LENGTH: usize = 16;

/// The number of random bytes behind a refresh token.
pub const REFRESH_TOKEN_BYTES: usize = 32;

/// The longest run of bytes that a refresh token is made from; the text of
/// a longer one could outgrow what a 32-bit machine can hold.
pub const MAX_TOKEN_BYTES: usize = 0x3000_0000;

/// A stored account.
#[derive(Debug)]
pub struct User {
    pub id: i64,
    pub email: String,
    /// The salted, adaptive hash of the password; never the password.
    pub password_hash: String,
}

/// What a look-up of a refresh session by its token hash brings back.
#[derive(Debug, Clone, Copy)]
pub struct RefreshTokenRecord {
    pub user_id: i64,
    /// Expiry, in seconds since the Unix epoch.
    pub expires_at: i64,
}

/// The payload carried inside a signed access token.
#[derive(Debug)]
pub struct Claims {
    /// Subject: the account id in decimal.
    pub sub: String,
    /// Expiry, in seconds since the Unix epoch.
    pub exp: usize,
    /// Random text that keeps two tokens of one account and one second apart.
    pub nonce: String,
}

/// The body of a refresh request.
#[derive(Debug)]
pub struct RefreshPayload {
    pub refresh_token: String,
}

/// A freshly made pair of tokens, and the session row that stands for the
/// refresh token in storage.
#[derive(Debug)]
pub struct IssuedTokens {
    pub tokens: LoginResponse,
    pub session: RefreshSession,
}

/// What is stored of a refresh token: the lowercase hexadecimal SHA-256 of
/// its UTF-8 bytes.
pub open spec fn refresh_token_hash(token: Seq<char>) -> Seq<char> {
    hex_text(sha256_of(encode_utf8(token)))
}

/// When an access token issued at `now` expires.
pub open spec fn access_expiry(jwt: JwtConfig, now: int) -> int {
    now + 60 * jwt.access_token_expires_minutes
}

/// When a refresh session opened at `now` expires.
pub open spec fn refresh_expiry(jwt: JwtConfig, now: int) -> int {
    now + 86400 * jwt.refresh_token_expires_days
}

/// The access token for an account at a time under a nonce: the signed
/// claims, with the account id in decimal as subject. `None` where the
/// expiry is no timestamp a claim can hold.
pub open spec fn access_token_for(user_id: i64, jwt: JwtConfig, now: int, nonce: Seq<char>) -> Option<Seq<char>> {
    let exp = access_expiry(jwt, now);
    if 0 <= exp <= usize::MAX {
        Some(hs256_token(decimal_text(user_id as int), exp, nonce, jwt.secret@))
    } else {
        None
    }
}

/// The claims that a token must carry to be the access token of an account
/// at a time under a nonce.
pub open spec fn access_claims(user_id: i64, jwt: JwtConfig, now: int, nonce: Seq<char>) -> (Seq<char>, int, Seq<char>) {
    (decimal_text(user_id as int), access_expiry(jwt, now), nonce)
}

/// The session that stands for the refresh token made from `token_bytes` at
/// `now`. `None` where the expiry is out of range.
pub open spec fn session_for(jwt: JwtConfig, now: int, token_bytes: Seq<u8>) -> Option<Session> {
    let expires_at = refresh_expiry(jwt, now);
    if i64::MIN <= expires_at <= i64::MAX {
        Some(Session { token_hash: refresh_token_hash(base64url_of(token_bytes)), expires_at })
    } else {
        None
    }
}

/// Both tokens can be made: the two expiries are timestamps.
pub open spec fn tokens_issuable(user_id: i64, jwt: JwtConfig, now: int, nonce: Seq<char>) -> bool {
    access_token_for(user_id, jwt, now, nonce) is Some && i64::MIN <= refresh_expiry(jwt, now) <= i64::MAX
}

/// The account that a token names, once its signature has been checked
/// under `secret`.
pub open spec fn verified_subject(token: Seq<char>, secret: Seq<char>) -> Option<i64> {
    match hs256_claims(token, secret) {
        Some(claims) => account_id_of_text(claims.0),
        None => None,
    }
}

/// The expiry that a token carries, once its signature has been checked
/// under `secret`.
pub open spec fn verified_expiry(token: Seq<char>, secret: Seq<char>) -> Option<int> {
    match hs256_claims(token, secret) {
        Some(claims) => Some(claims.1),
        None => None,
    }
}

/// The hash under which a refresh token is stored and looked up.
pub fn hash_refresh_token(token: &str) -> (hash: String)
    ensures
        hash@ == refresh_token_hash(token@),
{
    let digest = sha256(token.as_bytes());
    hex_encode(digest.as_slice())
}

/// Signs an access token for `user_id` that expires the configured number
/// of minutes after `now`.
pub fn issue_access_token(user_id: i64, jwt_config: &JwtConfig, now: i64, nonce: String) -> (token: Result<
    String,
    AppError,
>)
    ensures
        token is Ok <==> access_token_for(user_id, *jwt_config, now as int, nonce@) is Some,
        token matches Ok(text) ==> {
            &&& access_token_for(user_id, *jwt_config, now as int, nonce@) == Some(text@)
            &&& hs256_claims(text@, jwt_config.secret@) == Some(
                access_claims(user_id, *jwt_config, now as int, nonce@),
            )
            &&& verified_subject(text@, jwt_config.secret@) == Some(user_id)
            &&& verified_expiry(text@, jwt_config.secret@) == Some(access_expiry(*jwt_config, now as int))
        },
        token matches Err(error) ==> error is InternalServerError,
{
    let exp: i128 = now as i128 + 60 * (jwt_config.access_token_expires_minutes as i128);
    if exp < 0 || exp > usize::MAX as i128 {
        return Err(AppError::InternalServerError(String::from_str("Token expiry out of range")));
    }
    let claims = Claims { sub: format_account_id(user_id), exp: exp as usize, nonce };
    match hs256_sign(&claims, jwt_config.secret.as_str()) {
        Ok(text) => {
            proof {
                lemma_decimal_round_trip(user_id);
            }
            Ok(text)
        },
        // Signing is relied on to succeed; were it ever to fail, the request
        // ends in an internal error.
        Err(_) => Err(AppError::InternalServerError(String::from_str("Token signing error"))),
    }
}

/// A refresh token is the URL-safe text of its bytes: four characters for
/// three bytes and two or three for a rest of one or two, each a letter, a
/// digit, `-` or `_`.
pub open spec fn refresh_token_made_of(token: Seq<char>, token_bytes: Seq<u8>) -> bool {
    &&& token == base64url_of(token_bytes)
    &&& token.len() == (4 * token_bytes.len() + 2) / 3
    &&& forall|i: int| 0 <= i < token.len() ==> is_url_safe(#[trigger] token[i])
}

/// What making a pair of tokens gives: it succeeds exactly where both
/// tokens can be made; then the access token is the signed claims, the
/// refresh token is the URL-safe text of the random bytes, and the session
/// row carries the hash of the refresh token and its expiry.
pub open spec fn mint_post(
    user_id: i64,
    jwt: JwtConfig,
    now: i64,
    nonce: Seq<char>,
    token_bytes: Seq<u8>,
    issued: Result<IssuedTokens, AppError>,
) -> bool {
    &&& issued is Ok <==> tokens_issuable(user_id, jwt, now as int, nonce)
    &&& issued matches Ok(pair) ==> {
        &&& access_token_for(user_id, jwt, now as int, nonce) == Some(pair.tokens.access_token@)
        &&& hs256_claims(pair.tokens.access_token@, jwt.secret@) == Some(
            access_claims(user_id, jwt, now as int, nonce),
        )
        &&& verified_subject(pair.tokens.access_token@, jwt.secret@) == Some(user_id)
        &&& verified_expiry(pair.tokens.access_token@, jwt.secret@) == Some(access_expiry(jwt, now as int))
        &&& refresh_token_made_of(pair.tokens.refresh_token@, token_bytes)
        &&& pair.session.user_id == user_id
        &&& session_for(jwt, now as int, token_bytes) == Some(session_of(pair.session))
    }
    &&& issued matches Err(error) ==> error is InternalServerError
}

/// Makes the pair of tokens for `user_id` and the session row to store;
/// touches no storage. The refresh token is the URL-safe text of
/// `token_bytes`; only its hash goes into the row.
pub fn mint_tokens(user_id: i64, jwt_config: &JwtConfig, now: i64, nonce: String, token_bytes: &[u8]) -> (issued:
    Result<IssuedTokens, AppError>)
    requires
        token_bytes@.len() <= MAX_TOKEN_BYTES,
    ensures
        mint_post(user_id, *jwt_config, now, nonce@, token_bytes@, issued),
{
    let access_token = match issue_access_token(user_id, jwt_config, now, nonce) {
        Ok(text) => text,
        Err(error) => {
            return Err(error);
        },
    };
    let expires: i128 = now as i128 + 86400 * (jwt_config.refresh_token_expires_days as i128);
    if expires < i64::MIN as i128 || expires > i64::MAX as i128 {
        return Err(AppError::InternalServerError(String::from_str("Session expiry out of range")));
    }
    let refresh_token = base64url_encode(token_bytes);
    let token_hash = hash_refresh_token(refresh_token.as_str());
    Ok(
        IssuedTokens {
            tokens: LoginResponse { access_token, refresh_token },
            session: RefreshSession { user_id, token_hash, expires_at: expires as i64 },
        },
    )
}

/// What a look-up of the presented refresh token decides.
#[derive(Debug, Clone, Copy, PartialEq, Eq)]
pub enum RefreshDecision {
    /// No session carries the token's hash: the token is unknown, forged or
    /// already used.
    Reject,
    /// The session has expired: reject, and delete it.
    RejectExpired,
    /// Rotate the session of this account.
    Rotate(i64),
}

/// What the check of an access token finds.
#[derive(Debug, Clone, Copy, PartialEq, Eq)]
pub enum AccessVerdict {
    /// The token is genuine and live, and names this account.
    Granted(i64),
    /// The token is malformed, its signature does not match, or it has
    /// expired.
    Denied,
    /// The token is genuine and live, but its subject is no account id.
    BadSubject,
}

/// The text of an optional string slice.
pub open spec fn text_of(text: Option<&str>) -> Option<Seq<char>> {
    match text {
        Some(slice) => Some(slice@),
        None => None,
    }
}

/// The nonce and the token bytes that the random source hands out: sixteen
/// letters or digits, and thirty-two bytes.
pub open spec fn fresh_inputs(nonce: Seq<char>, token_bytes: Seq<u8>) -> bool {
    &&& nonce.len() == NONCE_LENGTH
    &&& forall|i: int| 0 <= i < nonce.len() ==> is_alphanumeric(#[trigger] nonce[i])
    &&& token_bytes.len() == REFRESH_TOKEN_BYTES
}

/// An account is registered under `email`, and `password` matches the hash
/// stored for it.
pub open spec fn credentials_match(accounts: Map<int, Account>, email: Seq<char>, password: Seq<char>) -> bool {
    email_taken(accounts, email) && bcrypt_verdict(
        password,
        accounts[account_id_for(accounts, email)].password_hash,
    ) == Some(true)
}

/// The decision for what a look-up brought back: a session is expired
/// where its expiry lies before `now`.
pub open spec fn refresh_decision(found: Option<RefreshTokenRecord>, now: i64) -> RefreshDecision {
    match found {
        None => RefreshDecision::Reject,
        Some(record) => if record.expires_at < now {
            RefreshDecision::RejectExpired
        } else {
            RefreshDecision::Rotate(record.user_id)
        },
    }
}

/// The account whose session a refresh with this token hash rotates, or
/// `None` where the refresh is refused: nobody holds the hash, or the
/// session that holds it has expired.
pub open spec fn refresh_target(sessions: Map<int, Session>, hash: Seq<char>, now: int) -> Option<int> {
    match first_holder(sessions, hash) {
        Some(uid) => if sessions[uid].expires_at < now {
            None
        } else {
            Some(uid)
        },
        None => None,
    }
}

/// What the check of an access token finds at the time `now`: the signature
/// first, then the expiry with no leeway (a token is dead from the second
/// it expires in), then the subject.
pub open spec fn access_verdict(token: Seq<char>, secret: Seq<char>, now: int) -> AccessVerdict {
    match hs256_claims(token, secret) {
        None => AccessVerdict::Denied,
        Some(claims) => if claims.1 <= now {
            AccessVerdict::Denied
        } else {
            match account_id_of_text(claims.0) {
                Some(id) => AccessVerdict::Granted(id),
                None => AccessVerdict::BadSubject,
            }
        },
    }
}

/// A token whose subject and expiry have been verified is granted to that
/// subject at every time before the expiry, and denied from the expiry on:
/// what login and refresh hand out is good for the account it was issued
/// to, for the configured lifetime and no longer.
pub proof fn lemma_verified_token_is_granted_until_expiry(token: Seq<char>, secret: Seq<char>, now: int)
    ensures
        verified_subject(token, secret) matches Some(user_id) ==> (verified_expiry(token, secret) matches Some(
            expiry,
        ) && access_verdict(token, secret, now) == (if now < expiry {
            AccessVerdict::Granted(user_id)
        } else {
            AccessVerdict::Denied
        })),
{
}

/// A token is denied where its signature does not verify under the secret,
/// and where its expiry has come, whatever else it holds.
pub proof fn lemma_forged_or_expired_token_is_denied(token: Seq<char>, secret: Seq<char>, now: int)
    ensures
        hs256_claims(token, secret) is None ==> access_verdict(token, secret, now) == AccessVerdict::Denied,
        verified_expiry(token, secret) matches Some(expiry) && expiry <= now ==> access_verdict(token, secret, now)
            == AccessVerdict::Denied,
{
}

/// The tables with one more account, under the next free id.
pub open spec fn with_account(tables: Tables, email: Seq<char>, password_hash: Seq<char>) -> Tables {
    Tables {
        accounts: tables.accounts.insert(tables.next_user_id, Account { email, password_hash }),
        next_user_id: tables.next_user_id + 1,
        ..tables
    }
}

/// What issuing a pair of tokens for `user_id` does: it succeeds exactly
/// where both tokens can be made; then the access token is the signed
/// claims, the refresh token is the text of the random bytes, and the tables
/// hold its hash in place of the account's old session and of every session
/// with `old_hash`. On failure the tables are left as they were.
pub open spec fn issue_post(
    before: Tables,
    after: Tables,
    user_id: i64,
    jwt: JwtConfig,
    old_hash: Option<Seq<char>>,
    now: i64,
    nonce: Seq<char>,
    token_bytes: Seq<u8>,
    reply: Result<LoginResponse, AppError>,
) -> bool {
    &&& reply is Ok <==> tokens_issuable(user_id, jwt, now as int, nonce)
    &&& reply matches Ok(tokens) ==> {
        &&& access_token_for(user_id, jwt, now as int, nonce) == Some(tokens.access_token@)
        &&& hs256_claims(tokens.access_token@, jwt.secret@) == Some(
            access_claims(user_id, jwt, now as int, nonce),
        )
        &&& verified_subject(tokens.access_token@, jwt.secret@) == Some(user_id)
        &&& verified_expiry(tokens.access_token@, jwt.secret@) == Some(access_expiry(jwt, now as int))
        &&& refresh_token_made_of(tokens.refresh_token@, token_bytes)
        &&& after == (Tables {
            sessions: rotated(
                before.sessions,
                old_hash,
                user_id as int,
                Session {
                    token_hash: refresh_token_hash(tokens.refresh_token@),
                    expires_at: refresh_expiry(jwt, now as int),
                },
            ),
            ..before
        })
    }
    &&& reply matches Err(error) ==> error is InternalServerError && after == before
}

/// What registration does. Invalid credentials are reported and an address
/// that is taken is a conflict; neither adds an account. Otherwise either an
/// account is added whose stored hash the password matches, or hashing or
/// storage failed and nothing is added.
pub open spec fn register_post(pre: AppState, payload: Credentials, post: AppState, reply: Result<u16, AppError>) -> bool {
    &&& post.app_config == pre.app_config
    &&& post.db.wf()
    &&& if !credentials_valid(payload) {
        &&& reply matches Err(AppError::ValidationError(errors))
        &&& findings_text(errors.errors@) == credentials_findings(payload)
        &&& post.db@ == pre.db@
    } else if email_taken(pre.db@.accounts, payload.email@) {
        &&& reply matches Err(AppError::Conflict(text))
        &&& text@ == "User with this email already exists"@
        &&& post.db@ == pre.db@
    } else {
        match reply {
            Ok(status) => {
                &&& status == STATUS_CREATED
                &&& exists|hash: Seq<char>|
                    bcrypt_verdict(payload.password@, hash) == Some(true) && #[trigger] with_account(
                        pre.db@,
                        payload.email@,
                        hash,
                    ) == post.db@
            },
            Err(error) => error is InternalServerError && post.db@ == pre.db@,
        }
    }
}

/// What login does at the time `now` with the random `nonce` and
/// `token_bytes`. Invalid credentials are reported; an unknown address and a
/// wrong password get the same answer; otherwise the tokens are issued for
/// the account, and its session replaces whatever session it had.
pub open spec fn login_post(
    pre: AppState,
    payload: Credentials,
    now: i64,
    nonce: Seq<char>,
    token_bytes: Seq<u8>,
    post: AppState,
    reply: Result<LoginResponse, AppError>,
) -> bool {
    &&& post.app_config == pre.app_config
    &&& post.db.wf()
    &&& if !credentials_valid(payload) {
        &&& reply matches Err(AppError::ValidationError(errors))
        &&& findings_text(errors.errors@) == credentials_findings(payload)
        &&& post.db@ == pre.db@
    } else if !credentials_match(pre.db@.accounts, payload.email@, payload.password@) {
        &&& reply matches Err(AppError::Unauthorized)
        &&& post.db@ == pre.db@
    } else {
        issue_post(
            pre.db@,
            post.db@,
            account_id_for(pre.db@.accounts, payload.email@) as i64,
            pre.app_config.jwt,
            None,
            now,
            nonce,
            token_bytes,
            reply,
        )
    }
}

/// What a refresh does at the time `now` with the random `nonce` and
/// `token_bytes`. Where it is refused the answer is `Unauthorized` and no
/// session with the presented token's hash is left; where it is accepted the
/// tokens are issued for the account that held the hash, and the old hash
/// is gone in the same step.
pub open spec fn refresh_post(
    pre: AppState,
    payload: RefreshPayload,
    now: i64,
    nonce: Seq<char>,
    token_bytes: Seq<u8>,
    post: AppState,
    reply: Result<LoginResponse, AppError>,
) -> bool {
    let hash = refresh_token_hash(payload.refresh_token@);
    &&& post.app_config == pre.app_config
    &&& post.db.wf()
    &&& match refresh_target(pre.db@.sessions, hash, now as int) {
        None => {
            &&& reply matches Err(AppError::Unauthorized)
            &&& post.db@ == (Tables { sessions: without_hash(pre.db@.sessions, hash), ..pre.db@ })
        },
        Some(uid) => issue_post(
            pre.db@,
            post.db@,
            uid as i64,
            pre.app_config.jwt,
            Some(hash),
            now,
            nonce,
            token_bytes,
            reply,
        ),
    }
}

/// What logout does: the session of the account is gone, nothing else
/// changes, and the answer is 204 whether or not there was a session.
pub open spec fn logout_post(pre: AppState, user: AuthUser, post: AppState, reply: Result<u16, AppError>) -> bool {
    &&& post.app_config == pre.app_config
    &&& post.db.wf()
    &&& reply matches Ok(status) && status == STATUS_NO_CONTENT
    &&& post.db@ == (Tables { sessions: pre.db@.sessions.remove(user.id as int), ..pre.db@ })
}

/// What validation of a request does at the time `now`: without a token
/// the request is unauthorised; so it is where the token is not genuine and
/// live, or the account it names is gone; a subject that is no account id
/// is an internal error; otherwise the identity is the stored account's.
pub open spec fn identity_post(state: AppState, bearer: Option<Seq<char>>, now: i64, reply: Result<AuthUser, AppError>) -> bool {
    match bearer {
        None => reply matches Err(AppError::Unauthorized),
        Some(token) => match access_verdict(token, state.app_config.jwt.secret@, now as int) {
            AccessVerdict::Denied => reply matches Err(AppError::Unauthorized),
            AccessVerdict::BadSubject => reply matches Err(AppError::InternalServerError(_)),
            AccessVerdict::Granted(id) => if state.db@.accounts.contains_key(id as int) {
                &&& reply matches Ok(user)
                &&& user.id == id
                &&& user.email@ == state.db@.accounts[id as int].email
            } else {
                reply matches Err(AppError::Unauthorized)
            },
        },
    }
}

/// Decides a registration from what the look-up by e-mail address brought
/// back: an address that is taken is a conflict.
pub fn check_email_free(found: Option<User>) -> (verdict: Result<(), AppError>)
    ensures
        verdict is Ok <==> found is None,
        verdict matches Err(error) ==> error matches AppError::Conflict(text) && text@
            == "User with this email already exists"@,
{
    match found {
        None => Ok(()),
        Some(_) => Err(AppError::Conflict(String::from_str("User with this email already exists"))),
    }
}

/// Decides a login from what the look-up by e-mail address brought back:
/// the account, where there is one and the password matches its hash. No
/// account, a wrong password and an unreadable hash get the same answer.
pub fn check_password(found: Option<User>, password: &str) -> (verdict: Result<User, AppError>)
    ensures
        verdict is Ok <==> (found matches Some(user) && bcrypt_verdict(password@, user.password_hash@) == Some(
            true,
        )),
        verdict matches Ok(user) ==> found == Some(user),
        verdict matches Err(error) ==> error is Unauthorized,
{
    match found {
        None => Err(AppError::Unauthorized),
        Some(user) => match bcrypt_verify(password, user.password_hash.as_str()) {
            Ok(true) => Ok(user),
            Ok(false) => Err(AppError::Unauthorized),
            Err(_) => Err(AppError::Unauthorized),
        },
    }
}

/// Checks an e-mail address and a password against the stored accounts.
pub fn verify_credentials(db: &Database, email: &str, password: &str) -> (verdict: Result<User, AppError>)
    requires
        db.wf(),
    ensures
        verdict is Ok <==> credentials_match(db@.accounts, email@, password@),
        verdict matches Ok(user) ==> {
            &&& user.id as int == account_id_for(db@.accounts, email@)
            &&& user.email@ == email@
            &&& db@.accounts.contains_key(user.id as int)
            &&& db@.accounts[user.id as int] == account_of(user)
        },
        verdict matches Err(error) ==> error is Unauthorized,
{
    check_password(db.find_user_by_email(email), password)
}

/// Decides a refresh from what the look-up by token hash brought back.
pub fn judge_refresh(found: Option<RefreshTokenRecord>, now: i64) -> (decision: RefreshDecision)
    ensures
        decision == refresh_decision(found, now),
{
    match found {
        None => RefreshDecision::Reject,
        Some(record) => if record.expires_at < now {
            RefreshDecision::RejectExpired
        } else {
            RefreshDecision::Rotate(record.user_id)
        },
    }
}

/// What the claims that decoding brought back mean at the time `now`: no
/// claims, or an expiry that has come, deny; then the subject decides.
pub open spec fn claims_verdict(claims: Option<Claims>, now: i64) -> AccessVerdict {
    match claims {
        None => AccessVerdict::Denied,
        Some(held) => if held.exp <= now {
            AccessVerdict::Denied
        } else {
            match account_id_of_text(held.sub@) {
                Some(id) => AccessVerdict::Granted(id),
                None => AccessVerdict::BadSubject,
            }
        },
    }
}

/// Decides on an access token from what decoding it brought back: `None`
/// for a token that is malformed or whose signature does not match, else
/// its claims. The expiry is taken with no leeway, and before the subject.
pub fn judge_claims(claims: Option<Claims>, now: i64) -> (reply: Result<i64, AppError>)
    ensures
        match claims_verdict(claims, now) {
            AccessVerdict::Granted(id) => reply matches Ok(granted) && granted == id,
            AccessVerdict::Denied => reply matches Err(AppError::Unauthorized),
            AccessVerdict::BadSubject => reply matches Err(AppError::InternalServerError(text)) && text@
                == "Invalid user ID in token"@,
        },
{
    let held = match claims {
        Some(held) => held,
        None => {
            return Err(AppError::Unauthorized);
        },
    };
    if held.exp as i128 <= now as i128 {
        return Err(AppError::Unauthorized);
    }
    match parse_account_id(held.sub.as_str()) {
        Some(id) => Ok(id),
        None => Err(AppError::InternalServerError(String::from_str("Invalid user ID in token"))),
    }
}

/// Checks an access token at the time `now` and gives the account it names.
pub fn validate_access_token(token: &str, secret: &str, now: i64) -> (reply: Result<i64, AppError>)
    ensures
        match access_verdict(token@, secret@, now as int) {
            AccessVerdict::Granted(id) => reply matches Ok(granted) && granted == id,
            AccessVerdict::Denied => reply matches Err(AppError::Unauthorized),
            AccessVerdict::BadSubject => reply matches Err(AppError::InternalServerError(text)) && text@
                == "Invalid user ID in token"@,
        },
{
    judge_claims(hs256_verify(token, secret), now)
}

/// Turns the account that a token names into the identity of the request;
/// an account that is gone makes the request unauthorised.
pub fn resolve_identity(found: Option<User>) -> (reply: Result<AuthUser, AppError>)
    ensures
        match found {
            Some(user) => reply matches Ok(identity) && identity.id == user.id && identity.email == user.email,
            None => reply matches Err(AppError::Unauthorized),
        },
{
    match found {
        Some(user) => Ok(AuthUser { id: user.id, email: user.email }),
        None => Err(AppError::Unauthorized),
    }
}

/// Makes a pair of tokens for `user_id` now, with a nonce and a refresh
/// token from the random source; touches no storage.
pub fn mint_fresh_tokens(user_id: i64, jwt_config: &JwtConfig) -> (issued: Result<IssuedTokens, AppError>)
    ensures
        exists|now: i64, nonce: Seq<char>, token_bytes: Seq<u8>|
            clock_reading(now) && fresh_inputs(nonce, token_bytes) && #[trigger] mint_post(
                user_id,
                *jwt_config,
                now,
                nonce,
                token_bytes,
                issued,
            ),
{
    let now = unix_time_now();
    let nonce = random_alphanumeric(NONCE_LENGTH);
    let token_bytes = random_bytes(REFRESH_TOKEN_BYTES);
    let ghost nonce_text = nonce@;
    let issued = mint_tokens(user_id, jwt_config, now, nonce, token_bytes.as_slice());
    assert(mint_post(user_id, *jwt_config, now, nonce_text, token_bytes@, issued));
    issued
}

/// Hashes a password for storage. Every hash that comes back is one that
/// the password matches.
pub fn hash_password(password: &str) -> (hashed: Result<String, AppError>)
    ensures
        hashed matches Ok(hash) ==> bcrypt_verdict(password@, hash@) == Some(true),
        hashed matches Err(error) ==> error matches AppError::InternalServerError(text) && text@
            == "Password hashing error"@,
{
    match bcrypt_hash(password) {
        Ok(hash) => Ok(hash),
        Err(_) => Err(AppError::InternalServerError(String::from_str("Password hashing error"))),
    }
}

/// Issues a pair of tokens for `user_id` at the time `now` and stores the
/// session in one step with the deletion of the sessions that carry
/// `old_token_hash`.
pub fn issue_tokens_at(
    user_id: i64,
    db: &mut Database,
    jwt_config: &JwtConfig,
    old_token_hash: Option<&str>,
    now: i64,
    nonce: String,
    token_bytes: &[u8],
) -> (reply: Result<LoginResponse, AppError>)
    requires
        old(db).wf(),
        token_bytes@.len() <= MAX_TOKEN_BYTES,
    ensures
        final(db).wf(),
        issue_post(
            old(db)@,
            final(db)@,
            user_id,
            *jwt_config,
            text_of(old_token_hash),
            now,
            nonce@,
            token_bytes@,
            reply,
        ),
{
    match mint_tokens(user_id, jwt_config, now, nonce, token_bytes) {
        Err(error) => Err(error),
        Ok(issued) => {
            db.rotate_session(old_token_hash, issued.session);
            Ok(issued.tokens)
        },
    }
}

/// Issues a pair of tokens for `user_id` now, with a nonce and a refresh
/// token from the random source.
pub fn issue_tokens(user_id: i64, db: &mut Database, jwt_config: &JwtConfig, old_token_hash: Option<&str>) -> (reply:
    Result<LoginResponse, AppError>)
    requires
        old(db).wf(),
    ensures
        final(db).wf(),
        exists|now: i64, nonce: Seq<char>, token_bytes: Seq<u8>|
            clock_reading(now) && fresh_inputs(nonce, token_bytes) && #[trigger] issue_post(
                old(db)@,
                final(db)@,
                user_id,
                *jwt_config,
                text_of(old_token_hash),
                now,
                nonce,
                token_bytes,
                reply,
            ),
{
    let now = unix_time_now();
    let nonce = random_alphanumeric(NONCE_LENGTH);
    let token_bytes = random_bytes(REFRESH_TOKEN_BYTES);
    let ghost nonce_text = nonce@;
    let reply = issue_tokens_at(user_id, db, jwt_config, old_token_hash, now, nonce, token_bytes.as_slice());
    assert(issue_post(
        old(db)@,
        db@,
        user_id,
        *jwt_config,
        text_of(old_token_hash),
        now,
        nonce_text,
        token_bytes@,
        reply,
    ));
    reply
}

/// Stores a new account under `email` with the password hash that hashing
/// gave. A failed hashing, an address that is taken and an exhausted id
/// space are internal errors, and add nothing.
pub fn store_account(state: &mut AppState, email: String, hashed: Result<String, bcrypt::BcryptError>) -> (reply:
    Result<u16, AppError>)
    requires
        old(state).db.wf(),
    ensures
        final(state).db.wf(),
        final(state).app_config == old(state).app_config,
        match hashed {
            Err(_) => {
                &&& reply matches Err(AppError::InternalServerError(text))
                &&& text@ == "Password hashing error"@
                &&& final(state).db@ == old(state).db@
            },
            Ok(hash) => if !email_taken(old(state).db@.accounts, email@) && old(state).db@.next_user_id
                < i64::MAX {
                &&& reply matches Ok(status)
                &&& status == STATUS_CREATED
                &&& final(state).db@ == with_account(old(state).db@, email@, hash@)
            } else {
                &&& reply matches Err(AppError::InternalServerError(text))
                &&& text@ == "Failed to create user"@
                &&& final(state).db@ == old(state).db@
            },
        },
{
    match hashed {
        Err(_) => Err(AppError::InternalServerError(String::from_str("Password hashing error"))),
        Ok(hash) => match state.db.insert_user(email, hash) {
            Some(_) => Ok(STATUS_CREATED),
            None => Err(AppError::InternalServerError(String::from_str("Failed to create user"))),
        },
    }
}

/// Registers an account: 201 on success.
pub fn register(state: &mut AppState, payload: Credentials) -> (reply: Result<u16, AppError>)
    requires
        old(state).db.wf(),
    ensures
        register_post(*old(state), payload, *final(state), reply),
        reply is Ok ==> email_taken(final(state).db@.accounts, payload.email@),
{
    match payload.validate() {
        Err(errors) => {
            return Err(AppError::from(errors));
        },
        Ok(_) => {},
    }
    match check_email_free(state.db.find_user_by_email(payload.email.as_str())) {
        Err(error) => {
            return Err(error);
        },
        Ok(_) => {},
    }
    let hashed = bcrypt_hash(payload.password.as_str());
    let ghost hash_text = match &hashed {
        Ok(hash) => hash@,
        Err(_) => Seq::empty(),
    };
    let reply = store_account(state, payload.email, hashed);
    proof {
        if reply is Ok {
            let after = with_account(old(state).db@, payload.email@, hash_text);
            assert(after == state.db@);
            assert(after.accounts[old(state).db@.next_user_id].email == payload.email@);
        }
    }
    reply
}

/// Logs in at the time `now`, with `nonce` and `token_bytes` as the random
/// source gave them.
pub fn login_at(state: &mut AppState, payload: Credentials, now: i64, nonce: String, token_bytes: &[u8]) -> (reply:
    Result<LoginResponse, AppError>)
    requires
        old(state).db.wf(),
        token_bytes@.len() <= MAX_TOKEN_BYTES,
    ensures
        login_post(*old(state), payload, now, nonce@, token_bytes@, *final(state), reply),
{
    match payload.validate() {
        Err(errors) => {
            return Err(AppError::from(errors));
        },
        Ok(_) => {},
    }
    let user = match verify_credentials(&state.db, payload.email.as_str(), payload.password.as_str()) {
        Ok(user) => user,
        Err(error) => {
            return Err(error);
        },
    };
    issue_tokens_at(user.id, &mut state.db, &state.app_config.jwt, None, now, nonce, token_bytes)
}

/// Logs in: 200 with a pair of tokens on success.
pub fn login(state: &mut AppState, payload: Credentials) -> (reply: Result<LoginResponse, AppError>)
    requires
        old(state).db.wf(),
    ensures
        exists|now: i64, nonce: Seq<char>, token_bytes: Seq<u8>|
            clock_reading(now) && fresh_inputs(nonce, token_bytes) && #[trigger] login_post(
                *old(state),
                payload,
                now,
                nonce,
                token_bytes,
                *final(state),
                reply,
            ),
{
    let now = unix_time_now();
    let nonce = random_alphanumeric(NONCE_LENGTH);
    let token_bytes = random_bytes(REFRESH_TOKEN_BYTES);
    let ghost nonce_text = nonce@;
    let reply = login_at(state, payload, now, nonce, token_bytes.as_slice());
    assert(login_post(*old(state), payload, now, nonce_text, token_bytes@, *state, reply));
    reply
}

/// Exchanges a refresh token at the time `now`, with `nonce` and
/// `token_bytes` as the random source gave them.
pub fn refresh_at(state: &mut AppState, payload: RefreshPayload, now: i64, nonce: String, token_bytes: &[u8]) -> (reply:
    Result<LoginResponse, AppError>)
    requires
        old(state).db.wf(),
        token_bytes@.len() <= MAX_TOKEN_BYTES,
    ensures
        refresh_post(*old(state), payload, now, nonce@, token_bytes@, *final(state), reply),
{
    let hash = hash_refresh_token(payload.refresh_token.as_str());
    let found = state.db.find_session_by_hash(hash.as_str());
    match judge_refresh(found, now) {
        RefreshDecision::Reject => {
            proof {
                let sessions = state.db@.sessions;
                assert forall|uid: int| sessions.contains_key(uid) implies sessions[uid].token_hash != hash@ by {
                    assert(!holds_hash(sessions, uid, hash@));
                }
                assert(without_hash(sessions, hash@) =~= sessions);
            }
            Err(AppError::Unauthorized)
        },
        RefreshDecision::RejectExpired => {
            state.db.delete_sessions_by_hash(hash.as_str());
            Err(AppError::Unauthorized)
        },
        RefreshDecision::Rotate(user_id) => issue_tokens_at(
            user_id,
            &mut state.db,
            &state.app_config.jwt,
            Some(hash.as_str()),
            now,
            nonce,
            token_bytes,
        ),
    }
}

/// Exchanges a refresh token: 200 with a new pair of tokens on success.
pub fn refresh(state: &mut AppState, payload: RefreshPayload) -> (reply: Result<LoginResponse, AppError>)
    requires
        old(state).db.wf(),
    ensures
        exists|now: i64, nonce: Seq<char>, token_bytes: Seq<u8>|
            clock_reading(now) && fresh_inputs(nonce, token_bytes) && #[trigger] refresh_post(
                *old(state),
                payload,
                now,
                nonce,
                token_bytes,
                *final(state),
                reply,
            ),
{
    let now = unix_time_now();
    let nonce = random_alphanumeric(NONCE_LENGTH);
    let token_bytes = random_bytes(REFRESH_TOKEN_BYTES);
    let ghost nonce_text = nonce@;
    let reply = refresh_at(state, payload, now, nonce, token_bytes.as_slice());
    assert(refresh_post(*old(state), payload, now, nonce_text, token_bytes@, *state, reply));
    reply
}

/// Ends the session of `user`: 204, whether or not there was one.
pub fn logout(state: &mut AppState, user: AuthUser) -> (reply: Result<u16, AppError>)
    requires
        old(state).db.wf(),
    ensures
        logout_post(*old(state), user, *final(state), reply),
{
    state.db.delete_session_of(user.id);
    Ok(STATUS_NO_CONTENT)
}

/// Validates the access token of a request at the time `now`. A request
/// without a token is turned away before storage is touched.
pub fn auth_middleware_at(state: &AppState, auth_header: Option<&str>, now: i64) -> (reply: Result<AuthUser, AppError>)
    requires
        state.db.wf(),
    ensures
        identity_post(*state, text_of(auth_header), now, reply),
{
    let token = match auth_header {
        Some(token) => token,
        None => {
            return Err(AppError::Unauthorized);
        },
    };
    let user_id = match validate_access_token(token, state.app_config.jwt.secret.as_str(), now) {
        Ok(id) => id,
        Err(error) => {
            return Err(error);
        },
    };
    resolve_identity(state.db.find_user_by_id(user_id))
}

/// Validates the access token of a request against the clock.
pub fn auth_middleware(state: &AppState, auth_header: Option<&str>) -> (reply: Result<AuthUser, AppError>)
    requires
        state.db.wf(),
    ensures
        exists|now: i64| clock_reading(now) && #[trigger] identity_post(*state, text_of(auth_header), now, reply),
{
    let now = unix_time_now();
    let reply = auth_middleware_at(state, auth_header, now);
    assert(identity_post(*state, text_of(auth_header), now, reply));
    reply
}

} // verus!
