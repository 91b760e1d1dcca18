//! Hashing and checking passwords with bcrypt.
use crate::error::EmulatorError;
use vstd::prelude::*;

verus! {

/// What `bcrypt::verify` says of a password and a stored hash; nothing where the hash is not one.
pub uninterp spec fn bcrypt_verified(password: Seq<char>, hash: Seq<char>) -> Option<bool>;

/// The head of every hash made with this cost: the version and the cost in two digits.
pub open spec fn hash_head(cost: u32) -> Seq<char> {
    "$2b$"@ + seq![(48 + cost / 10) as char, (48 + cost % 10) as char, '$']
}

/// `bcrypt::verify`: whether `password` is the one that `hash` was made from, or nothing where
/// `hash` is malformed. How the two are compared is left to the name `bcrypt_verified`.
#[verifier::external_body]
fn bcrypt_verify(password: &str, hash: &str) -> (r: Option<bool>)
    ensures
        r == bcrypt_verified(password@, hash@),
{
    bcrypt::verify(password, hash).ok()
}

/// `bcrypt::hash` with a cost that it allows: a hash with a fresh random salt, which begins with
/// the version and the cost, is 60 characters long and verifies with the password that it was
/// made from. It fails, with the text of the error, only where the machine gives it no random
/// bytes: when that happens is not stated.
#[verifier::external_body]
fn bcrypt_hash(password: &str, cost: u32) -> (r: Result<String, String>)
    requires
        4 <= cost <= 31,
    ensures
        r matches Ok(hash) ==> bcrypt_verified(password@, hash@) == Some(true),
        r matches Ok(hash) ==> hash@.len() == 60 && hash_head(cost).is_prefix_of(hash@),
{
    bcrypt::hash(password, cost).map_err(|e| e.to_string())
}

/// The cost of the hashes of passwords that users choose.
pub const PASSWORD_COST: u32 = 10;

/// The cost of the hashes of seeded passwords.
pub const SEED_COST: u32 = 4;

/// Whether `hash` stands for `password`: it verifies with it and was made at this cost.
pub open spec fn stands_for(hash: Seq<char>, password: Seq<char>, cost: u32) -> bool {
    &&& bcrypt_verified(password, hash) == Some(true)
    &&& hash.len() == 60
    &&& hash_head(cost).is_prefix_of(hash)
}

/// Whether `password` is the one that `hash` was made from; nothing where `hash` is malformed.
pub fn verify_password(password: &str, hash: &str) -> (r: Option<bool>)
    ensures
        r == bcrypt_verified(password@, hash@),
{
    bcrypt_verify(password, hash)
}

/// The hash to store for a password that a user chose.
pub fn hash_password(password: &str) -> (r: Result<String, EmulatorError>)
    ensures
        match r {
            Ok(hash) => stands_for(hash@, password@, PASSWORD_COST),
            Err(e) => e is Internal,
        },
{
    hash_or_internal(bcrypt_hash(password, PASSWORD_COST))
}

/// Whether the error is an internal one that names bcrypt.
pub open spec fn names_bcrypt(e: EmulatorError) -> bool {
    e matches EmulatorError::Internal(message) && "bcrypt error: "@.is_prefix_of(message@)
}

/// The hash to store for a seeded password.
pub fn hash_seed_password(password: &str) -> (r: Result<String, EmulatorError>)
    ensures
        match r {
            Ok(hash) => stands_for(hash@, password@, SEED_COST),
            Err(e) => names_bcrypt(e),
        },
{
    hash_or_bcrypt_error(bcrypt_hash(password, SEED_COST))
}

/// A failed hash is an internal error with the text of the failure.
pub fn hash_or_internal(hashed: Result<String, String>) -> (r: Result<String, EmulatorError>)
    ensures
        match hashed {
            Ok(hash) => r == Ok::<String, EmulatorError>(hash),
            Err(message) => r == Err::<String, EmulatorError>(EmulatorError::Internal(message)),
        },
{
    match hashed {
        Ok(hash) => Ok(hash),
        Err(message) => Err(EmulatorError::Internal(message)),
    }
}

/// A failed hash of a seeded password is an internal error that names bcrypt.
pub fn hash_or_bcrypt_error(hashed: Result<String, String>) -> (r: Result<String, EmulatorError>)
    ensures
        match hashed {
            Ok(hash) => r == Ok::<String, EmulatorError>(hash),
            Err(message) => r matches Err(EmulatorError::Internal(t)) && t@ == "bcrypt error: "@
                + message@,
        },
{
    match hashed {
        Ok(hash) => Ok(hash),
        Err(message) => {
            let mut t: String = "bcrypt error: ".to_owned();
            t.append(message.as_str());
            Err(EmulatorError::Internal(t))
        },
    }
}

/// The hash of a password that a user chose, and that of a seeded one, verify with it; they tell
/// their costs apart in their heads.
pub proof fn law_hashes_tell_their_cost(hash: Seq<char>, password: Seq<char>)
    ensures
        stands_for(hash, password, PASSWORD_COST) <==> bcrypt_verified(password, hash) == Some(true)
            && hash.len() == 60 && "$2b$10$"@.is_prefix_of(hash),
        stands_for(hash, password, SEED_COST) <==> bcrypt_verified(password, hash) == Some(true)
            && hash.len() == 60 && "$2b$04$"@.is_prefix_of(hash),
{
    reveal_strlit("$2b$");
    reveal_strlit("$2b$10$");
    reveal_strlit("$2b$04$");
    assert(hash_head(10) =~= "$2b$10$"@);
    assert(hash_head(4) =~= "$2b$04$"@);
}

/// An error that names bcrypt is an internal one whose text begins so.
pub proof fn law_bcrypt_error_names_itself(message: String, text: Seq<char>)
    ensures
        message@ == "bcrypt error: "@ + text ==> names_bcrypt(EmulatorError::Internal(message)),
        names_bcrypt(EmulatorError::Internal(message)) ==> exists|rest: Seq<char>|
            message@ == #[trigger] ("bcrypt error: "@ + rest),
        !names_bcrypt(EmulatorError::InvalidCredentials),
{
    if "bcrypt error: "@.is_prefix_of(message@) {
        let rest = message@.skip("bcrypt error: "@.len() as int);
        assert(message@ =~= "bcrypt error: "@ + rest);
    }
    assert(("bcrypt error: "@ + text).take("bcrypt error: "@.len() as int) =~= "bcrypt error: "@);
}

} // verus!
