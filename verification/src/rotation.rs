//! What the handlers add up to over several requests: an address is
//! registered once, a refresh token is good for one exchange, and a login,
//! a logout or an expiry puts an end to the tokens that went before.
//!
//! Each statement comes twice. The first is over the handlers' contracts:
//! whatever states and replies satisfy them satisfy the statement. The
//! second, which the first rests on, is over the session table alone.

use vstd::prelude::*;

use crate::auth::fresh_inputs;
use crate::auth::identity_post;
use crate::auth::issue_post;
use crate::auth::lemma_verified_token_is_granted_until_expiry;
use crate::auth::login_post;
use crate::auth::logout_post;
use crate::auth::refresh_post;
use crate::auth::refresh_target;
use crate::auth::refresh_token_hash;
use crate::auth::register_post;
use crate::auth::verified_expiry;
use crate::auth::verified_subject;
use crate::auth::RefreshPayload;
use crate::common::credentials_valid;
use crate::common::Credentials;
use crate::common::LoginResponse;
use crate::config::JwtConfig;
use crate::db::account_id_for;
use crate::db::first_holder;
use crate::db::holds_hash;
use crate::db::lemma_no_holder;
use crate::db::rotated;
use crate::db::without_hash;
use crate::db::Session;
use crate::db::Tables;
use crate::decimal::decimal_text;
use crate::error::AppError;
use crate::primitives::hs256_claims;
use crate::primitives::is_alphanumeric;
use crate::primitives::is_url_safe;
use crate::extractors::AuthUser;
use crate::web_server::AppState;

verus! {

/// Registration happens once for an address: after a registration that
/// succeeded, a registration of valid credentials under the same address is
/// a conflict and leaves the tables as they were.
pub proof fn lemma_second_registration_is_a_conflict(
    start: AppState,
    first: Credentials,
    middle: AppState,
    first_reply: Result<u16, AppError>,
    second: Credentials,
    end: AppState,
    second_reply: Result<u16, AppError>,
)
    requires
        register_post(start, first, middle, first_reply),
        first_reply is Ok,
        second.email@ == first.email@,
        credentials_valid(second),
        register_post(middle, second, end, second_reply),
    ensures
        second_reply matches Err(AppError::Conflict(_)),
        end.db@ == middle.db@,
{
    let id = start.db@.next_user_id;
    assert(middle.db@.accounts.contains_key(id) && middle.db@.accounts[id].email == first.email@);
}

/// The access token of a login names the account that logged in and lives
/// for the configured number of minutes from the time of issue: until then
/// validation resolves it to that account, with the address it logged in
/// under, and from then on it is unauthorised.
pub proof fn lemma_login_token_resolves_to_the_account(
    start: AppState,
    credentials: Credentials,
    now: i64,
    nonce: Seq<char>,
    token_bytes: Seq<u8>,
    middle: AppState,
    login_reply: Result<LoginResponse, AppError>,
    at: i64,
    identity_reply: Result<AuthUser, AppError>,
)
    requires
        start.db.wf(),
        login_post(start, credentials, now, nonce, token_bytes, middle, login_reply),
        login_reply is Ok,
        identity_post(middle, Some(login_reply->Ok_0.access_token@), at, identity_reply),
    ensures
        verified_subject(login_reply->Ok_0.access_token@, start.app_config.jwt.secret@) == Some(
            account_id_for(start.db@.accounts, credentials.email@) as i64,
        ),
        verified_expiry(login_reply->Ok_0.access_token@, start.app_config.jwt.secret@) == Some(
            now + 60 * start.app_config.jwt.access_token_expires_minutes,
        ),
        at < now + 60 * start.app_config.jwt.access_token_expires_minutes ==> (identity_reply matches Ok(user)
            && user.id == account_id_for(start.db@.accounts, credentials.email@) && user.email@
            == credentials.email@),
        at >= now + 60 * start.app_config.jwt.access_token_expires_minutes ==> identity_reply matches Err(
            AppError::Unauthorized,
        ),
{
    start.db.lemma_wf_tables();
    let token = login_reply->Ok_0.access_token@;
    let secret = start.app_config.jwt.secret@;
    lemma_verified_token_is_granted_until_expiry(token, secret, at as int);
    let uid = account_id_for(start.db@.accounts, credentials.email@);
    assert(start.db@.accounts.contains_key(uid));
}

/// After two logins of one account the account has one session, that of
/// the second login, and a refresh with the token of the first login is
/// answered with `Unauthorized`.
///
/// This holds where the two refresh tokens differ in their hash and no
/// other account held the hash of the first; both fail only where the
/// random source repeats itself or the hash collides.
pub proof fn lemma_second_login_supersedes_first(
    start: AppState,
    credentials: Credentials,
    first_now: i64,
    first_nonce: Seq<char>,
    first_bytes: Seq<u8>,
    middle: AppState,
    first_reply: Result<LoginResponse, AppError>,
    second_now: i64,
    second_nonce: Seq<char>,
    second_bytes: Seq<u8>,
    after: AppState,
    second_reply: Result<LoginResponse, AppError>,
    payload: RefreshPayload,
    refresh_now: i64,
    refresh_nonce: Seq<char>,
    refresh_bytes: Seq<u8>,
    end: AppState,
    refresh_reply: Result<LoginResponse, AppError>,
)
    requires
        login_post(start, credentials, first_now, first_nonce, first_bytes, middle, first_reply),
        login_post(middle, credentials, second_now, second_nonce, second_bytes, after, second_reply),
        first_reply is Ok,
        second_reply is Ok,
        payload.refresh_token@ == first_reply->Ok_0.refresh_token@,
        refresh_token_hash(first_reply->Ok_0.refresh_token@) != refresh_token_hash(
            second_reply->Ok_0.refresh_token@,
        ),
        forall|other: int|
            other != account_id_for(start.db@.accounts, credentials.email@) as i64 ==> !holds_hash(
                start.db@.sessions,
                other,
                refresh_token_hash(first_reply->Ok_0.refresh_token@),
            ),
        refresh_post(after, payload, refresh_now, refresh_nonce, refresh_bytes, end, refresh_reply),
    ensures
        ({
            let uid = account_id_for(start.db@.accounts, credentials.email@) as i64 as int;
            &&& after.db@.sessions.contains_key(uid)
            &&& after.db@.sessions[uid].token_hash == refresh_token_hash(second_reply->Ok_0.refresh_token@)
            &&& after.db@.sessions == start.db@.sessions.insert(uid, after.db@.sessions[uid])
        }),
        refresh_reply matches Err(AppError::Unauthorized),
{
    let uid = account_id_for(start.db@.accounts, credentials.email@) as i64 as int;
    let first = middle.db@.sessions[uid];
    let second = after.db@.sessions[uid];
    lemma_login_supersedes(start.db@.sessions, uid, first, second, refresh_now as int);
}

/// Tokens issued from what the random source hands out have their shape:
/// the refresh token is 43 characters of letters, digits, `-` and `_`, and
/// the access token carries a nonce of sixteen letters or digits, together
/// with the account in decimal and the expiry.
pub proof fn lemma_issued_tokens_have_their_shape(
    before: Tables,
    after: Tables,
    user_id: i64,
    jwt: JwtConfig,
    old_hash: Option<Seq<char>>,
    now: i64,
    nonce: Seq<char>,
    token_bytes: Seq<u8>,
    reply: Result<LoginResponse, AppError>,
)
    requires
        fresh_inputs(nonce, token_bytes),
        issue_post(before, after, user_id, jwt, old_hash, now, nonce, token_bytes, reply),
        reply is Ok,
    ensures
        reply->Ok_0.refresh_token@.len() == 43,
        forall|i: int|
            0 <= i < reply->Ok_0.refresh_token@.len() ==> is_url_safe(#[trigger] reply->Ok_0.refresh_token@[i]),
        hs256_claims(reply->Ok_0.access_token@, jwt.secret@) matches Some(claims) && claims.0 == decimal_text(
            user_id as int,
        ) && claims.1 == now + 60 * jwt.access_token_expires_minutes && claims.2.len() == 16 && forall|i: int|
            0 <= i < claims.2.len() ==> is_alphanumeric(#[trigger] claims.2[i]),
{
}

/// A refresh hands out an access token that differs from the one of the
/// login before it, where the two were issued in different seconds or under
/// different nonces, and a refresh token that differs where its hash does.
///
/// Within one second this rests on the nonce: it fails only where the
/// random source hands out the same sixteen characters again.
pub proof fn lemma_refresh_renews_the_tokens(
    start: AppState,
    credentials: Credentials,
    login_now: i64,
    login_nonce: Seq<char>,
    login_bytes: Seq<u8>,
    middle: AppState,
    login_reply: Result<LoginResponse, AppError>,
    payload: RefreshPayload,
    refresh_now: i64,
    refresh_nonce: Seq<char>,
    refresh_bytes: Seq<u8>,
    end: AppState,
    refresh_reply: Result<LoginResponse, AppError>,
)
    requires
        login_post(start, credentials, login_now, login_nonce, login_bytes, middle, login_reply),
        login_reply is Ok,
        payload.refresh_token@ == login_reply->Ok_0.refresh_token@,
        refresh_post(middle, payload, refresh_now, refresh_nonce, refresh_bytes, end, refresh_reply),
        refresh_reply is Ok,
    ensures
        login_now != refresh_now || login_nonce != refresh_nonce ==> refresh_reply->Ok_0.access_token@
            != login_reply->Ok_0.access_token@,
        refresh_token_hash(refresh_reply->Ok_0.refresh_token@) != refresh_token_hash(
            login_reply->Ok_0.refresh_token@,
        ) ==> refresh_reply->Ok_0.refresh_token@ != login_reply->Ok_0.refresh_token@,
{
    let secret = start.app_config.jwt.secret@;
    let old = login_reply->Ok_0.access_token@;
    let new = refresh_reply->Ok_0.access_token@;
    if login_now != refresh_now || login_nonce != refresh_nonce {
        assert(hs256_claims(old, secret) != hs256_claims(new, secret));
    }
}

/// A refresh token is exchanged at most once: after a refresh that
/// succeeded, a refresh with the same token is answered with
/// `Unauthorized`, at whatever time it comes.
///
/// This holds where the new refresh token differs from the old one in its
/// hash; it fails only where the random source hands out the same token
/// again or the hash collides.
pub proof fn lemma_refresh_token_is_single_use(
    start: AppState,
    payload: RefreshPayload,
    first_now: i64,
    first_nonce: Seq<char>,
    first_bytes: Seq<u8>,
    middle: AppState,
    first_reply: Result<LoginResponse, AppError>,
    second_now: i64,
    second_nonce: Seq<char>,
    second_bytes: Seq<u8>,
    end: AppState,
    second_reply: Result<LoginResponse, AppError>,
)
    requires
        refresh_post(start, payload, first_now, first_nonce, first_bytes, middle, first_reply),
        first_reply is Ok,
        refresh_token_hash(first_reply->Ok_0.refresh_token@) != refresh_token_hash(payload.refresh_token@),
        refresh_post(middle, payload, second_now, second_nonce, second_bytes, end, second_reply),
    ensures
        second_reply matches Err(AppError::Unauthorized),
{
    let hash = refresh_token_hash(payload.refresh_token@);
    let sessions = start.db@.sessions;
    let uid = refresh_target(sessions, hash, first_now as int)->Some_0;
    let held = uid as i64 as int;
    let fresh = middle.db@.sessions[held];
    assert(middle.db@.sessions == rotated(sessions, Some(hash), held, fresh));
    lemma_rotation_retires_hash(sessions, hash, held, fresh, second_now as int);
}

/// A refresh with a token whose session has expired is answered with
/// `Unauthorized`, and so is its repetition, at whatever time it comes: the
/// session is gone either way.
pub proof fn lemma_expired_refresh_stays_unauthorized(
    start: AppState,
    payload: RefreshPayload,
    first_now: i64,
    first_nonce: Seq<char>,
    first_bytes: Seq<u8>,
    middle: AppState,
    first_reply: Result<LoginResponse, AppError>,
    second_now: i64,
    second_nonce: Seq<char>,
    second_bytes: Seq<u8>,
    end: AppState,
    second_reply: Result<LoginResponse, AppError>,
)
    requires
        first_holder(start.db@.sessions, refresh_token_hash(payload.refresh_token@)) matches Some(uid)
            && start.db@.sessions[uid].expires_at < first_now,
        refresh_post(start, payload, first_now, first_nonce, first_bytes, middle, first_reply),
        refresh_post(middle, payload, second_now, second_nonce, second_bytes, end, second_reply),
    ensures
        first_reply matches Err(AppError::Unauthorized),
        second_reply matches Err(AppError::Unauthorized),
{
    lemma_refused_refresh_stays_refused(
        start.db@.sessions,
        refresh_token_hash(payload.refresh_token@),
        second_now as int,
    );
}

/// After a logout a refresh with the account's refresh token is answered
/// with `Unauthorized`.
///
/// This holds where no other account holds a session with the same hash,
/// which fails only where the random source repeats itself or the hash
/// collides.
pub proof fn lemma_logout_revokes_refresh_token(
    start: AppState,
    user: AuthUser,
    middle: AppState,
    logout_reply: Result<u16, AppError>,
    payload: RefreshPayload,
    now: i64,
    nonce: Seq<char>,
    token_bytes: Seq<u8>,
    end: AppState,
    refresh_reply: Result<LoginResponse, AppError>,
)
    requires
        logout_post(start, user, middle, logout_reply),
        forall|other: int|
            other != user.id ==> !holds_hash(
                start.db@.sessions,
                other,
                refresh_token_hash(payload.refresh_token@),
            ),
        refresh_post(middle, payload, now, nonce, token_bytes, end, refresh_reply),
    ensures
        refresh_reply matches Err(AppError::Unauthorized),
{
    lemma_removal_retires_hash(
        start.db@.sessions,
        user.id as int,
        refresh_token_hash(payload.refresh_token@),
        now as int,
    );
}

/// Over the table: storing a second session for an account leaves it with
/// that session alone, and the hash of the first finds nobody, where the two
/// hashes differ and no other account holds the first.
pub proof fn lemma_login_supersedes(
    sessions: Map<int, Session>,
    uid: int,
    first: Session,
    second: Session,
    now: int,
)
    requires
        first.token_hash != second.token_hash,
        forall|other: int| other != uid ==> !holds_hash(sessions, other, first.token_hash),
    ensures
        ({
            let after = sessions.insert(uid, first).insert(uid, second);
            &&& after == sessions.insert(uid, second)
            &&& after.contains_key(uid)
            &&& after[uid] == second
            &&& refresh_target(after, first.token_hash, now) is None
        }),
{
    let after = sessions.insert(uid, first).insert(uid, second);
    assert(after =~= sessions.insert(uid, second));
    assert forall|v: int| !holds_hash(after, v, first.token_hash) by {
        if v != uid {
            assert(!holds_hash(sessions, v, first.token_hash));
        }
    }
    lemma_no_holder(after, first.token_hash);
}

/// Over the table: a rotation retires the hash it replaces. Whichever
/// account's session is rotated, the old hash finds nobody afterwards, where
/// the new hash differs from it.
pub proof fn lemma_rotation_retires_hash(
    sessions: Map<int, Session>,
    hash: Seq<char>,
    uid: int,
    fresh: Session,
    later: int,
)
    requires
        fresh.token_hash != hash,
    ensures
        refresh_target(rotated(sessions, Some(hash), uid, fresh), hash, later) is None,
{
    let after = rotated(sessions, Some(hash), uid, fresh);
    assert forall|v: int| !holds_hash(after, v, hash) by {}
    lemma_no_holder(after, hash);
}

/// Over the table: once the sessions with a hash are deleted, the hash
/// finds nobody.
pub proof fn lemma_refused_refresh_stays_refused(sessions: Map<int, Session>, hash: Seq<char>, later: int)
    ensures
        refresh_target(without_hash(sessions, hash), hash, later) is None,
{
    let after = without_hash(sessions, hash);
    assert forall|v: int| !holds_hash(after, v, hash) by {}
    lemma_no_holder(after, hash);
}

/// Over the table: once an account's session is deleted, a hash that no
/// other account holds finds nobody.
pub proof fn lemma_removal_retires_hash(sessions: Map<int, Session>, uid: int, hash: Seq<char>, now: int)
    requires
        forall|other: int| other != uid ==> !holds_hash(sessions, other, hash),
    ensures
        !sessions.remove(uid).contains_key(uid),
        refresh_target(sessions.remove(uid), hash, now) is None,
{
    let after = sessions.remove(uid);
    assert forall|v: int| !holds_hash(after, v, hash) by {
        if v != uid {
            assert(!holds_hash(sessions, v, hash));
        }
    }
    lemma_no_holder(after, hash);
}

} // verus!
