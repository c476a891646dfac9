//! Passwords are stored as PBKDF2 hashes in PHC string form, computed and
//! checked by the `pbkdf2` crate.

use vstd::prelude::*;
use vstd::utf8::encode_utf8;
use pbkdf2::Pbkdf2;
use pbkdf2::password_hash::{PasswordHash, PasswordHasher, PasswordVerifier, Salt, SaltString};
use pbkdf2::password_hash::rand_core::OsRng;

verus! {

/// What `Pbkdf2.hash_password` gives for a password and a (B64) salt: the
/// PHC string of the hash, or the message of the error.
pub uninterp spec fn pbkdf2_hash(password: Seq<u8>, salt: Seq<char>) -> Result<Seq<char>, Seq<char>>;

/// Whether `Pbkdf2.verify_password` accepts a password against a stored
/// PHC string; `None` where the string does not parse as a password hash.
pub uninterp spec fn pbkdf2_accepts(password: Seq<u8>, phc: Seq<char>) -> Option<bool>;

/// Calls `Salt::from_b64` on the salt and `Pbkdf2.hash_password` with it,
/// giving the PHC string of the hash (`to_string`) or an error's message.
/// Beyond naming the result, the contract claims what the `password-hash`
/// source shows of `verify_password`: it re-hashes the password with the
/// algorithm, parameters and salt read back from the PHC string and
/// compares the outputs, so a string this call produces accepts the very
/// password it was made from.
#[verifier::external_body]
fn pbkdf2_hash_password(password: &[u8], salt: &str) -> (r: Result<String, String>)
    ensures
        match r {
            Ok(h) => pbkdf2_hash(password@, salt@) == Ok::<Seq<char>, Seq<char>>(h@)
                && pbkdf2_accepts(password@, h@) == Some(true),
            Err(e) => pbkdf2_hash(password@, salt@) == Err::<Seq<char>, Seq<char>>(e@),
        },
{
    match Salt::from_b64(salt) {
        Err(e) => Err(e.to_string()),
        Ok(s) => match Pbkdf2.hash_password(password, s) {
            Ok(h) => Ok(h.to_string()),
            Err(e) => Err(e.to_string()),
        },
    }
}

/// Calls `PasswordHash::new` on the stored string and, when it parses,
/// `Pbkdf2.verify_password` with it; the result names which of the two
/// happened.
#[verifier::external_body]
fn pbkdf2_verify_password(password: &[u8], phc: &str) -> (r: Option<bool>)
    ensures
        r == pbkdf2_accepts(password@, phc@),
{
    match PasswordHash::new(phc) {
        Err(_) => None,
        Ok(h) => Some(Pbkdf2.verify_password(password, &h).is_ok()),
    }
}

/// Calls `SaltString::generate` with the operating system's random source
/// and hands back the B64 salt. The source draws 16 random bytes and
/// encodes them in unpadded B64 (`A`-`Z`, `a`-`z`, `0`-`9`, `+`, `/`), so
/// the salt is 22 such characters, and
/// `Pbkdf2.hash_password` with its default parameters accepts such a salt
/// for every password (the salt parses and decodes, and the output length
/// and parameters are the defaults). Which characters are drawn is left to
/// chance.
#[verifier::external_body]
pub(crate) fn generate_salt() -> (r: String)
    ensures
        r@.len() == 22,
        forall|i: int| 0 <= i < r@.len() ==> is_b64_char(#[trigger] r@[i]),
        forall|p: Seq<u8>| #[trigger] pbkdf2_hash(p, r@) is Ok,
{
    SaltString::generate(&mut OsRng).as_str().to_string()
}

/// A character of the B64 alphabet that salts are written in.
pub open spec fn is_b64_char(c: char) -> bool {
    ('a' <= c && c <= 'z') || ('A' <= c && c <= 'Z') || ('0' <= c && c <= '9') || c == '+' || c
        == '/'
}

/// The bytes of a password as it is hashed: its UTF-8 encoding.
pub open spec fn password_bytes(password: Seq<char>) -> Seq<u8> {
    encode_utf8(password)
}

/// Whether `password` matches the stored hash `stored`: `Some(true)` or
/// `Some(false)`, and `None` when `stored` is not a password hash.
pub fn check_password(stored: &str, password: &str) -> (r: Option<bool>)
    ensures
        r == pbkdf2_accepts(password_bytes(password@), stored@),
{
    pbkdf2_verify_password(password.as_bytes(), stored)
}

/// The stored form of `password` hashed with `salt`, or the hashing error's
/// message. A stored form made here accepts the password it was made from.
pub fn hash_password_with(password: &str, salt: &str) -> (r: Result<String, String>)
    ensures
        match r {
            Ok(h) => pbkdf2_hash(password_bytes(password@), salt@) == Ok::<Seq<char>, Seq<char>>(h@)
                && pbkdf2_accepts(password_bytes(password@), h@) == Some(true),
            Err(e) => pbkdf2_hash(password_bytes(password@), salt@) == Err::<Seq<char>, Seq<char>>(e@),
        },
{
    pbkdf2_hash_password(password.as_bytes(), salt)
}

} // verus!
