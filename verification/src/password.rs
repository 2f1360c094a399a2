//! The credential hasher: salted, memory-hard, one-way hashing of
//! passwords, and the check of a password against a stored hash.

use vstd::prelude::*;
use vstd::string::StringExecFns;
use argon2::password_hash::{PasswordHash, PasswordVerifier, Salt, SaltString};
use argon2::Argon2;
use rand::rngs::OsRng;
use rand::RngCore;

verus! {

/// A failure of the hasher: the entropy source or an encoding, never the
/// content of a password.
#[derive(Debug, Clone, PartialEq, Eq)]
pub struct HashingError {
    /// What failed, for the log.
    pub message: String,
}

/// How a password stands to a stored hash.
#[derive(Debug, Clone, PartialEq, Eq)]
pub enum HashCheck {
    /// The hash is the password's.
    Matches,
    /// The hash is well formed and not the password's.
    Differs,
    /// The stored text is no hash; the string says why.
    Unreadable(String),
}

/// The mathematical content of [`HashCheck`].
pub ghost enum HashCheckView {
    Matches,
    Differs,
    Unreadable(Seq<char>),
}

impl View for HashCheck {
    type V = HashCheckView;

    open spec fn view(&self) -> HashCheckView {
        match self {
            HashCheck::Matches => HashCheckView::Matches,
            HashCheck::Differs => HashCheckView::Differs,
            HashCheck::Unreadable(why) => HashCheckView::Unreadable(why@),
        }
    }
}

/// The encoded Argon2id hash of `password` under `salt` with the default
/// parameters, or the reason why there is none.
pub uninterp spec fn argon2id_hashed(password: Seq<char>, salt: Seq<char>) -> Result<
    Seq<char>,
    Seq<char>,
>;

/// How `password` stands to the stored text `hash`.
pub uninterp spec fn argon2id_checked(password: Seq<char>, hash: Seq<char>) -> HashCheckView;

/// The view of a result that holds strings on both sides.
pub open spec fn text_view(r: Result<String, String>) -> Result<Seq<char>, Seq<char>> {
    match r {
        Ok(t) => Ok(t@),
        Err(e) => Err(e@),
    }
}

/// `OsRng.try_fill_bytes` on a buffer of the recommended salt length, then
/// `SaltString::encode_b64` on the bytes drawn: a fresh salt in its text
/// form, or the message of the random source or of the encoding where
/// either fails. Nothing is claimed of the value.
#[verifier::external_body]
fn random_salt() -> Result<String, String> {
    let mut bytes = [0u8; Salt::RECOMMENDED_LENGTH];
    match OsRng.try_fill_bytes(&mut bytes) {
        Ok(()) => match SaltString::encode_b64(&bytes) {
            Ok(salt) => Ok(salt.as_str().to_owned()),
            Err(e) => Err(e.to_string()),
        },
        Err(e) => Err(e.to_string()),
    }
}

/// `PasswordHash::generate` with `Argon2::default()` on the salt that
/// `SaltString::from_b64` reads from `salt`, turned into its text form; an
/// error is turned into its message. The contract names the outcome, and
/// claims of a hash so made that `PasswordHash::new` reads it, whatever
/// password it is then held against, and that
/// `Argon2::default().verify_password` finds it to match its own password.
#[verifier::external_body]
fn argon2id_hash(password: &str, salt: &str) -> (r: Result<String, String>)
    ensures
        text_view(r) == argon2id_hashed(password@, salt@),
        r matches Ok(h) ==> argon2id_checked(password@, h@) == HashCheckView::Matches,
        r matches Ok(h) ==> forall|other: Seq<char>|
            !(#[trigger] argon2id_checked(other, h@) is Unreadable),
{
    match SaltString::from_b64(salt) {
        Ok(s) => match PasswordHash::generate(Argon2::default(), password, &s) {
            Ok(h) => Ok(h.to_string()),
            Err(e) => Err(e.to_string()),
        },
        Err(e) => Err(e.to_string()),
    }
}

/// `PasswordHash::new` on the stored text, then
/// `Argon2::default().verify_password` on the password's bytes. A text that
/// does not parse gives `Unreadable` with the error's message; a check
/// that fails gives `Differs`.
#[verifier::external_body]
fn argon2id_check(password: &str, hash: &str) -> (r: HashCheck)
    ensures
        r@ == argon2id_checked(password@, hash@),
{
    match PasswordHash::new(hash) {
        Err(e) => HashCheck::Unreadable(e.to_string()),
        Ok(parsed) => match Argon2::default().verify_password(password.as_bytes(), &parsed) {
            Ok(()) => HashCheck::Matches,
            Err(_) => HashCheck::Differs,
        },
    }
}

/// The message of a hashing failure with the given cause.
pub open spec fn hashing_failed(cause: Seq<char>) -> Seq<char> {
    "密码哈希失败: "@ + cause
}

/// The message of an unreadable stored hash with the given cause.
pub open spec fn parsing_failed(cause: Seq<char>) -> Seq<char> {
    "解析密码哈希失败: "@ + cause
}

/// The view of a hashing result.
pub open spec fn hashed_view(r: Result<String, HashingError>) -> Result<Seq<char>, Seq<char>> {
    match r {
        Ok(h) => Ok(h@),
        Err(e) => Err(e.message@),
    }
}

/// What hashing `password` under `salt` returns.
pub open spec fn hashed_with(password: Seq<char>, salt: Seq<char>) -> Result<Seq<char>, Seq<char>> {
    match argon2id_hashed(password, salt) {
        Ok(h) => Ok(h),
        Err(cause) => Err(hashing_failed(cause)),
    }
}

/// Whether the stored text is a hash that can be read: checking any
/// password against it gives `true` or `false`, never an error.
pub open spec fn readable(hash: Seq<char>) -> bool {
    forall|password: Seq<char>| (#[trigger] verified(password, hash)) is Ok
}

/// Hashes `password` under the given salt. Where it succeeds, the hash
/// verifies against the same password, and checking any other password
/// against it is no error.
pub fn hash_with_salt(password: &str, salt: &str) -> (r: Result<String, HashingError>)
    ensures
        hashed_view(r) == hashed_with(password@, salt@),
        r matches Ok(h) ==> verified(password@, h@) == Ok::<bool, Seq<char>>(true) && readable(h@),
{
    match argon2id_hash(password, salt) {
        Ok(h) => Ok(h),
        Err(cause) => Err(
            HashingError { message: String::from_str("密码哈希失败: ").concat(cause.as_str()) },
        ),
    }
}

/// What hashing `password` returns once the salt has been drawn: with a
/// salt, what [`hashed_with`] gives for it; without one, the failure of the
/// draw.
pub open spec fn hashed_after(password: Seq<char>, drawn: Result<Seq<char>, Seq<char>>) -> Result<
    Seq<char>,
    Seq<char>,
> {
    match drawn {
        Ok(salt) => hashed_with(password, salt),
        Err(cause) => Err(hashing_failed(cause)),
    }
}

/// Hashes `password` under the salt that was drawn, or reports why none
/// was. Where it succeeds, the hash verifies against the same password,
/// and checking any other password against it is no error.
pub fn hash_with_drawn(password: &str, drawn: Result<String, String>) -> (r: Result<
    String,
    HashingError,
>)
    ensures
        hashed_view(r) == hashed_after(password@, text_view(drawn)),
        r matches Ok(h) ==> verified(password@, h@) == Ok::<bool, Seq<char>>(true) && readable(h@),
{
    match drawn {
        Ok(salt) => hash_with_salt(password, salt.as_str()),
        Err(cause) => Err(
            HashingError { message: String::from_str("密码哈希失败: ").concat(cause.as_str()) },
        ),
    }
}

/// Hashes `password` under a fresh random salt. Whatever the random source
/// gave, the result is that of [`hash_with_drawn`] for it: a failure of the
/// source is an error and never a panic, and a hash that comes back
/// verifies against the same password, while checking any other password
/// against it is no error.
pub fn hash_password(password: &str) -> (r: Result<String, HashingError>)
    ensures
        exists|drawn: Result<Seq<char>, Seq<char>>|
            hashed_view(r) == #[trigger] hashed_after(password@, drawn),
        r matches Ok(h) ==> verified(password@, h@) == Ok::<bool, Seq<char>>(true) && readable(h@),
{
    let drawn = random_salt();
    let ghost seen = text_view(drawn);
    let r = hash_with_drawn(password, drawn);
    proof {
        assert(hashed_view(r) == hashed_after(password@, seen));
    }
    r
}

/// What checking `password` against the stored text `hash` returns: `true`
/// for a match, `false` for a well-formed hash of something else, and an
/// error where the text is no hash.
pub open spec fn verified(password: Seq<char>, hash: Seq<char>) -> Result<bool, Seq<char>> {
    match argon2id_checked(password, hash) {
        HashCheckView::Matches => Ok(true),
        HashCheckView::Differs => Ok(false),
        HashCheckView::Unreadable(cause) => Err(parsing_failed(cause)),
    }
}

/// The view of a verification result.
pub open spec fn verified_view(r: Result<bool, HashingError>) -> Result<bool, Seq<char>> {
    match r {
        Ok(b) => Ok(b),
        Err(e) => Err(e.message@),
    }
}

/// Tells what a check's outcome means to the caller: see [`verified`].
pub fn outcome_of_check(check: HashCheck) -> (r: Result<bool, HashingError>)
    ensures
        verified_view(r) == match check@ {
            HashCheckView::Matches => Ok::<bool, Seq<char>>(true),
            HashCheckView::Differs => Ok(false),
            HashCheckView::Unreadable(cause) => Err(parsing_failed(cause)),
        },
{
    match check {
        HashCheck::Matches => Ok(true),
        HashCheck::Differs => Ok(false),
        HashCheck::Unreadable(cause) => Err(
            HashingError { message: String::from_str("解析密码哈希失败: ").concat(cause.as_str()) },
        ),
    }
}

/// Checks `password` against the stored text `password_hash`, with the
/// parameters that the text itself carries.
pub fn verify_password(password: &str, password_hash: &str) -> (r: Result<bool, HashingError>)
    ensures
        verified_view(r) == verified(password@, password_hash@),
{
    outcome_of_check(argon2id_check(password, password_hash))
}

} // verus!
