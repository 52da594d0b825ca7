//! The boundary to the cryptographic, random, clock and text primitives.
//!
//! Nothing in this file is proved. Each function states what the primitive
//! it calls is relied on to do; the rest of the crate is verified against
//! these statements.

use base64::Engine;
use rand::Rng;
use rand::RngCore;
use sha2::Digest;
use vstd::prelude::*;

use crate::auth::Claims;
use crate::type_export::texts;

verus! {

/// The error type of the `bcrypt` crate, carried through untouched.
#[verifier::external_type_specification]
#[verifier::external_body]
pub struct ExBcryptError(bcrypt::BcryptError);

/// The error type of the `jsonwebtoken` crate, carried through untouched.
#[verifier::external_type_specification]
#[verifier::external_body]
pub struct ExJwtError(jsonwebtoken::errors::Error);

/// The SHA-256 digest of `data`, as `sha2::Sha256` computes it.
pub uninterp spec fn sha256_of(data: Seq<u8>) -> Seq<u8>;

/// The unpadded URL-safe base64 text of `data`, as the `base64` crate's
/// `URL_SAFE_NO_PAD` engine produces it.
pub uninterp spec fn base64url_of(data: Seq<u8>) -> Seq<char>;

/// What `bcrypt::verify` answers for a password and a stored hash: `None`
/// where it reports an error (a malformed hash), else whether they match.
pub uninterp spec fn bcrypt_verdict(password: Seq<char>, hash: Seq<char>) -> Option<bool>;

/// The HS256 token that `jsonwebtoken::encode` builds from the three claims
/// under `secret`.
pub uninterp spec fn hs256_token(sub: Seq<char>, exp: int, nonce: Seq<char>, secret: Seq<char>) -> Seq<char>;

/// The claims `(sub, exp, nonce)` that `jsonwebtoken::decode` recovers from
/// `token` when it checks the HS256 signature under `secret` and does not look
/// at the clock; `None` where the token is malformed, the signature does not
/// match, or a claim is missing or of the wrong type.
pub uninterp spec fn hs256_claims(token: Seq<char>, secret: Seq<char>) -> Option<(Seq<char>, int, Seq<char>)>;

/// Whether `validator`'s e-mail check accepts `text`.
pub uninterp spec fn email_accepted(text: Seq<char>) -> bool;

/// The sixteen lowercase hexadecimal digits, in order.
pub open spec fn hex_digits() -> Seq<char> {
    seq!['0', '1', '2', '3', '4', '5', '6', '7', '8', '9', 'a', 'b', 'c', 'd', 'e', 'f']
}

/// Lowercase hexadecimal text of `data`: two digits for each byte, the high
/// half first.
pub open spec fn hex_text(data: Seq<u8>) -> Seq<char> {
    Seq::new(
        2 * data.len(),
        |i: int| if i % 2 == 0 { hex_digits()[data[i / 2] as int / 16] } else { hex_digits()[data[i / 2] as int % 16] },
    )
}

/// Whether `c` is one of `A`-`Z`, `a`-`z`, `0`-`9`.
pub open spec fn is_alphanumeric(c: char) -> bool {
    ||| 'A' <= c <= 'Z'
    ||| 'a' <= c <= 'z'
    ||| '0' <= c <= '9'
}

/// The last second that `chrono` can tell: the end of the year 262142.
pub const MAX_CLOCK_SECONDS: i64 = 8_210_266_876_799;

/// What the clock can read: a second from the Unix epoch to the last one
/// that `chrono` can tell.
pub open spec fn clock_reading(now: i64) -> bool {
    0 <= now <= MAX_CLOCK_SECONDS
}

/// Whether `c` may stand in URL-safe base64 text: a letter, a digit, `-` or
/// `_`.
pub open spec fn is_url_safe(c: char) -> bool {
    is_alphanumeric(c) || c == '-' || c == '_'
}

/// `chrono::Utc::now().timestamp()`: the wall clock, in whole seconds since
/// the Unix epoch. `Utc::now` does not return where the system's clock
/// stands before the epoch or beyond what `chrono` can tell, so what comes
/// back lies between; nothing else is claimed of the value.
#[verifier::external_body]
pub(crate) fn unix_time_now() -> (now: i64)
    ensures
        clock_reading(now),
{
    chrono::Utc::now().timestamp()
}

/// `len` samples of `rand::distr::Alphanumeric` from the thread's generator.
/// Claimed: the length, and that every character is an ASCII letter or digit.
#[verifier::external_body]
pub(crate) fn random_alphanumeric(len: usize) -> (text: String)
    ensures
        text@.len() == len,
        forall|i: int| 0 <= i < text@.len() ==> is_alphanumeric(#[trigger] text@[i]),
{
    rand::rng().sample_iter(&rand::distr::Alphanumeric).take(len).map(char::from).collect()
}

/// `len` bytes from `RngCore::fill_bytes` on the thread's generator.
/// Claimed: the length only.
#[verifier::external_body]
pub(crate) fn random_bytes(len: usize) -> (bytes: Vec<u8>)
    ensures
        bytes@.len() == len,
{
    let mut bytes = vec![0u8; len];
    rand::rng().fill_bytes(&mut bytes);
    bytes
}

/// `URL_SAFE_NO_PAD.encode` of the `base64` crate. Claimed besides the
/// name: the length that the crate's `encoded_len` computes without padding,
/// four characters for three bytes and two or three for a rest of one or
/// two, and the URL-safe alphabet. The bound keeps the input away from the
/// length at which that computation overflows.
#[verifier::external_body]
pub(crate) fn base64url_encode(data: &[u8]) -> (text: String)
    requires
        data@.len() <= 0x3000_0000,
    ensures
        text@ == base64url_of(data@),
        text@.len() == (4 * data@.len() + 2) / 3,
        forall|i: int| 0 <= i < text@.len() ==> is_url_safe(#[trigger] text@[i]),
{
    base64::engine::general_purpose::URL_SAFE_NO_PAD.encode(data)
}

/// `Sha256::digest` of the `sha2` crate. A digest has 32 bytes.
#[verifier::external_body]
pub(crate) fn sha256(data: &[u8]) -> (digest: Vec<u8>)
    ensures
        digest@ == sha256_of(data@),
        digest@.len() == 32,
{
    sha2::Sha256::digest(data).to_vec()
}

/// `hex::encode`: documented to give two lowercase hexadecimal digits for
/// each byte.
#[verifier::external_body]
pub(crate) fn hex_encode(data: &[u8]) -> (text: String)
    ensures
        text@ == hex_text(data@),
{
    hex::encode(data)
}

/// `bcrypt::hash` at the crate's default cost, with a salt that the crate
/// draws itself. Claimed of every hash that comes back: `bcrypt::verify`
/// accepts the same password against it, since it re-derives the hash from
/// the salt and cost that the text carries.
#[verifier::external_body]
pub(crate) fn bcrypt_hash(password: &str) -> (hashed: Result<String, bcrypt::BcryptError>)
    ensures
        hashed matches Ok(h) ==> bcrypt_verdict(password@, h@) == Some(true),
{
    bcrypt::hash(password, bcrypt::DEFAULT_COST)
}

/// `bcrypt::verify`.
#[verifier::external_body]
pub(crate) fn bcrypt_verify(password: &str, hash: &str) -> (verdict: Result<bool, bcrypt::BcryptError>)
    ensures
        verdict matches Ok(b) ==> bcrypt_verdict(password@, hash@) == Some(b),
        verdict is Err ==> bcrypt_verdict(password@, hash@) is None,
{
    bcrypt::verify(password, hash)
}

/// `jsonwebtoken::encode` with the default header (HS256) over the JSON
/// object that holds the three members of `claims`. Claimed besides the
/// name: it succeeds, since for a secret key and the HS256 header `encode`
/// only writes JSON text of strings and a number and computes an HMAC, none
/// of which can fail; and decoding the token under the same secret gives the
/// same three claims back, since `decode` recomputes the signature over the
/// same bytes and JSON text reads back as what was written.
#[verifier::external_body]
pub(crate) fn hs256_sign(claims: &Claims, secret: &str) -> (token: Result<String, jsonwebtoken::errors::Error>)
    ensures
        token is Ok,
        token matches Ok(t) ==> t@ == hs256_token(claims.sub@, claims.exp as int, claims.nonce@, secret@),
        token matches Ok(t) ==> hs256_claims(t@, secret@) == Some((claims.sub@, claims.exp as int, claims.nonce@)),
{
    let mut body = serde_json::Map::new();
    body.insert("sub".to_owned(), serde_json::Value::from(claims.sub.as_str()));
    body.insert("exp".to_owned(), serde_json::Value::from(claims.exp));
    body.insert("nonce".to_owned(), serde_json::Value::from(claims.nonce.as_str()));
    let key = jsonwebtoken::EncodingKey::from_secret(secret.as_bytes());
    jsonwebtoken::encode(&jsonwebtoken::Header::default(), &body, &key)
}

/// `jsonwebtoken::decode` with the default validation (HS256 only) and the
/// expiry check switched off, so that the answer depends on the token and the
/// secret alone. The payload is decoded as a JSON value and its three
/// members are moved into `Claims`, each by its type; a payload without one
/// of them, or with one of another type, gives `None`, as does a token that
/// `decode` turns down.
#[verifier::external_body]
pub(crate) fn hs256_verify(token: &str, secret: &str) -> (claims: Option<Claims>)
    ensures
        claims matches Some(c) ==> hs256_claims(token@, secret@) == Some((c.sub@, c.exp as int, c.nonce@)),
        claims is None ==> hs256_claims(token@, secret@) is None,
{
    let mut validation = jsonwebtoken::Validation::default();
    validation.validate_exp = false;
    let key = jsonwebtoken::DecodingKey::from_secret(secret.as_bytes());
    let body = jsonwebtoken::decode::<serde_json::Value>(token, &key, &validation).ok()?.claims;
    Some(Claims {
        sub: body.get("sub")?.as_str()?.to_owned(),
        exp: usize::try_from(body.get("exp")?.as_u64()?).ok()?,
        nonce: body.get("nonce")?.as_str()?.to_owned(),
    })
}

/// `validator::ValidateEmail::validate_email` on a string slice.
#[verifier::external_body]
pub(crate) fn email_is_valid(text: &str) -> (ok: bool)
    ensures
        ok == email_accepted(text@),
{
    validator::ValidateEmail::validate_email(&text)
}

/// Whether `c` is white space: the characters with the Unicode property
/// White_Space.
pub open spec fn is_white_space(c: char) -> bool {
    ||| '\u{9}' <= c <= '\u{d}'
    ||| c == ' '
    ||| c == '\u{85}'
    ||| c == '\u{a0}'
    ||| c == '\u{1680}'
    ||| '\u{2000}' <= c <= '\u{200a}'
    ||| c == '\u{2028}'
    ||| c == '\u{2029}'
    ||| c == '\u{202f}'
    ||| c == '\u{205f}'
    ||| c == '\u{3000}'
}

/// A text without its leading white space.
pub open spec fn trim_start_of(text: Seq<char>) -> Seq<char>
    decreases text.len(),
{
    if text.len() > 0 && is_white_space(text[0]) {
        trim_start_of(text.skip(1))
    } else {
        text
    }
}

/// The position of the first line feed in a text, or the length of the
/// text where it holds none.
pub open spec fn first_line_feed(text: Seq<char>) -> int
    decreases text.len(),
{
    if text.len() == 0 || text[0] == '\n' {
        0
    } else {
        1 + first_line_feed(text.skip(1))
    }
}

/// A line without the carriage return that stood before its line feed.
pub open spec fn without_carriage_return(line: Seq<char>) -> Seq<char> {
    if line.len() > 0 && line.last() == '\r' {
        line.drop_last()
    } else {
        line
    }
}

/// The lines of a text: it is split at every line feed, and a carriage
/// return right before a line feed goes with the line ending. A last line
/// without a line feed counts as it stands; an empty rest after the last
/// line feed does not.
pub open spec fn lines_of(text: Seq<char>) -> Seq<Seq<char>>
    decreases text.len(),
{
    let end = first_line_feed(text);
    if text.len() == 0 {
        Seq::empty()
    } else if end < 0 || end >= text.len() {
        seq![text]
    } else {
        seq![without_carriage_return(text.take(end))] + lines_of(text.skip(end + 1))
    }
}

/// `str::lines`, each line copied out: documented to split at line feeds,
/// to take a carriage return before a line feed as part of the ending, and
/// to leave a lone carriage return alone.
#[verifier::external_body]
pub(crate) fn split_lines(text: &str) -> (lines: Vec<String>)
    ensures
        texts(lines@) == lines_of(text@),
{
    text.lines().map(|line| line.to_owned()).collect()
}

/// `str::trim_start`: documented to cut the leading characters with the
/// Unicode property White_Space.
#[verifier::external_body]
pub(crate) fn trim_start(text: &str) -> (rest: &str)
    ensures
        rest@ == trim_start_of(text@),
{
    text.trim_start()
}

} // verus!
