//! Passwords are kept as Argon2 hashes that describe themselves: the stored
//! text names the algorithm, its cost and the salt, so that checking a
//! candidate needs the stored text and the candidate alone.

use vstd::prelude::*;
use vstd::utf8::encode_utf8;
use crate::error::ApiError;

verus! {

/// The most bytes that Argon2 takes as a password.
pub const MAX_PASSWORD_BYTES: usize = 0xffff_ffff;

/// The encoded hash that Argon2 computes, at the crate's default cost, for
/// a password and a salt.
pub uninterp spec fn argon2_encoding(password: Seq<u8>, salt: Seq<u8>) -> Seq<char>;

/// What Argon2 says of a candidate password against a stored text:
/// whether it fits, or `None` where the crate refuses the text, because it
/// is no encoded hash at all or names a salt or costs outside the crate's
/// limits.
pub uninterp spec fn argon2_verdict(encoded: Seq<char>, password: Seq<u8>) -> Option<bool>;

/// The lengths that Argon2 takes: a password of up to 2^32 - 1 bytes and a
/// salt of 8 bytes up to as many.
pub open spec fn within_limits(password: Seq<u8>, salt: Seq<u8>) -> bool {
    password.len() <= MAX_PASSWORD_BYTES && 8 <= salt.len() <= 0xffff_ffff
}

#[verifier::external_type_specification]
#[verifier::external_body]
pub struct ExArgon2Error(argon2::Error);

/// `argon2::hash_encoded` with `Config::default()`. The crate refuses
/// only inputs outside its limits, which for the default configuration
/// are the lengths of the password and the salt; it computes the hash from
/// its arguments alone and writes it out with the parameters and the salt.
/// That the result is accepted for the same password is the crate's
/// purpose: `verify_encoded` reads parameters and salt back from the text,
/// hashes the candidate again and compares.
#[verifier::external_body]
fn argon2_hash(password: &[u8], salt: &[u8]) -> (res: Result<String, argon2::Error>)
    ensures
        res is Ok <==> within_limits(password@, salt@),
        res matches Ok(encoded) ==> encoded@ == argon2_encoding(password@, salt@),
        res matches Ok(encoded) ==> argon2_verdict(encoded@, password@) == Some(true),
{
    argon2::hash_encoded(password, salt, &argon2::Config::default())
}

/// `argon2::verify_encoded`: an error where the text cannot be read as an
/// encoded hash or what it names is outside the crate's limits, else
/// whether the candidate hashes to the same value.
#[verifier::external_body]
fn argon2_verify(encoded: &str, password: &[u8]) -> (res: Result<bool, argon2::Error>)
    ensures
        match res {
            Ok(fits) => argon2_verdict(encoded@, password@) == Some(fits),
            Err(_) => argon2_verdict(encoded@, password@) is None,
        },
{
    argon2::verify_encoded(encoded, password)
}

/// What is stored for a password once the hashing library has answered:
/// its answer, unless it failed or handed the password back as it was.
pub open spec fn accepted_hash(plaintext: Seq<char>, encoded: Option<Seq<char>>) -> Option<Seq<char>> {
    match encoded {
        Some(text) => if text == plaintext { None } else { Some(text) },
        None => None,
    }
}

/// The characters of a text that may be missing.
pub open spec fn text_of(text: Option<String>) -> Option<Seq<char>> {
    match text {
        Some(s) => Some(s@),
        None => None,
    }
}

/// What is stored for `plaintext` hashed with `salt`, or `None` where
/// hashing fails.
pub open spec fn sealed(plaintext: Seq<char>, salt: Seq<u8>) -> Option<Seq<char>> {
    let bytes = encode_utf8(plaintext);
    if within_limits(bytes, salt) {
        accepted_hash(plaintext, Some(argon2_encoding(bytes, salt)))
    } else {
        None
    }
}

/// Whether `candidate` is known to open the stored `hash`.
pub open spec fn opens(hash: Seq<char>, candidate: Seq<u8>) -> bool {
    argon2_verdict(hash, candidate) == Some(true)
}

/// What a check of a password reports for each answer of the hashing
/// library: its verdict, or an internal failure where it gave none.
pub open spec fn checked(verdict: Option<bool>) -> Result<bool, ApiError> {
    match verdict {
        Some(fits) => Ok(fits),
        None => Err(ApiError::Internal),
    }
}

/// Decides what to store once the hashing library has answered. A hash
/// that equals the password it was made from is refused: what is stored
/// is never the plaintext.
pub fn accept_hash(plaintext: &String, encoded: Option<String>) -> (res: Result<String, ApiError>)
    ensures
        match accepted_hash(plaintext@, text_of(encoded)) {
            Some(text) => res matches Ok(stored) && stored@ == text,
            None => res == Err::<String, ApiError>(ApiError::Internal),
        },
{
    match encoded {
        Some(text) => {
            if text == *plaintext {
                Err(ApiError::Internal)
            } else {
                Ok(text)
            }
        },
        None => Err(ApiError::Internal),
    }
}

/// Hashes `plaintext` with `salt`.
pub fn seal(plaintext: &String, salt: &[u8; 32]) -> (res: Result<String, ApiError>)
    ensures
        match sealed(plaintext@, salt@) {
            Some(text) => res matches Ok(stored) && stored@ == text
                && opens(text, encode_utf8(plaintext@)) && text != plaintext@,
            None => res == Err::<String, ApiError>(ApiError::Internal),
        },
{
    let encoded = argon2_hash(plaintext.as_str().as_bytes(), salt.as_slice());
    accept_hash(plaintext, encoded.ok())
}

/// Reports the hashing library's answer to a check.
pub fn report_verdict(verdict: Option<bool>) -> (res: Result<bool, ApiError>)
    ensures
        res == checked(verdict),
{
    match verdict {
        Some(fits) => Ok(fits),
        None => Err(ApiError::Internal),
    }
}

/// Checks `candidate` against the stored `hash`. A stored text that is no
/// encoded hash is an internal failure, never a plain "no".
pub fn check(hash: &String, candidate: &[u8]) -> (res: Result<bool, ApiError>)
    ensures
        res == checked(argon2_verdict(hash@, candidate@)),
{
    report_verdict(argon2_verify(hash.as_str(), candidate).ok())
}

} // verus!
