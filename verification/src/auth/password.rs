//! Passwords: the rules for a new password, its Argon2id hash, and the check
//! of a password against a stored hash.
use argon2::password_hash::{PasswordHash, PasswordHasher, PasswordVerifier, SaltString};
use vstd::prelude::*;

use crate::auth::session::os_random_32;

verus! {

/// Whether `password` verifies against the Argon2 hash `phc`, a string in PHC
/// format (`$argon2id$v=19$m=..,t=..,p=..$<salt>$<hash>`). It depends on the
/// two strings alone: the algorithm, version, cost parameters and salt are all
/// read from `phc`.
pub uninterp spec fn spec_password_verifies(password: Seq<char>, phc: Seq<char>) -> bool;

/// Checks `password` against the stored hash `phc`.
///
/// Calls `PasswordHash::new` of the `password-hash` crate to parse `phc`, and
/// `PasswordVerifier::verify_password` of `argon2` on the parsed hash; a hash
/// that does not parse verifies nothing. The contract claims only that the
/// answer is a function of the two strings, named
/// `spec_password_verifies`: the verifier hashes `password` again with the
/// algorithm, version, parameters and salt written in `phc` and compares the
/// result with the hash written there. What that comparison yields is not
/// stated here. The call allocates the memory cost that `phc` names, and like
/// any allocation aborts the process when that memory cannot be had.
#[verifier::external_body]
pub(crate) fn verify_password(password: &str, phc: &str) -> (r: bool)
    ensures
        r == spec_password_verifies(password@, phc@),
{
    match PasswordHash::new(phc) {
        Ok(h) => argon2::Argon2::default().verify_password(password.as_bytes(), &h).is_ok(),
        Err(_) => false,
    }
}

/// Why a new password was refused.
#[derive(Clone, Copy, Debug, PartialEq, Eq, Structural)]
pub enum PasswordError {
    /// The confirmation differs from the password.
    Mismatch,
    /// The password is shorter than 8 bytes.
    TooShort,
}

/// The Argon2id memory cost of a new hash, in KiB (19 MiB).
pub const HASH_M_COST: u32 = 19456;

/// The Argon2id number of passes of a new hash.
pub const HASH_T_COST: u32 = 2;

/// The Argon2id parallelism of a new hash.
pub const HASH_P_COST: u32 = 1;

/// The salt length of a new hash, in bytes.
pub const SALT_LEN: usize = 16;

/// What Argon2id, version 0x13, makes of `password` with the salt bytes `salt`
/// and the costs `m_cost` (KiB), `t_cost` (passes) and `p_cost` (lanes): the
/// hash as a PHC string, or `None` where the costs or the salt are out of the
/// ranges Argon2 accepts.
pub uninterp spec fn spec_argon2id_hash(
    password: Seq<char>,
    salt: Seq<u8>,
    m_cost: u32,
    t_cost: u32,
    p_cost: u32,
) -> Option<Seq<char>>;

/// Hashes `password` with Argon2id, version 0x13, at the given costs and salt.
///
/// Calls `argon2::Params::new`, `SaltString::encode_b64` of `password-hash`,
/// and `PasswordHasher::hash_password` of `argon2`, and writes the hash as a
/// PHC string; an error of any of them gives `None`. The contract claims that
/// the result is a function of the arguments, named `spec_argon2id_hash`, and
/// that `password` verifies against a hash made of it: the string records the
/// algorithm, version, costs, salt and output, and the verifier hashes the
/// password again with exactly these and compares the outputs. The call
/// allocates `m_cost` KiB, and like any allocation aborts the process when that
/// memory cannot be had.
#[verifier::external_body]
fn argon2id_hash(password: &str, salt: &[u8], m_cost: u32, t_cost: u32, p_cost: u32) -> (r: Option<String>)
    ensures
        match r {
            Some(h) => spec_argon2id_hash(password@, salt@, m_cost, t_cost, p_cost) == Some(h@),
            None => spec_argon2id_hash(password@, salt@, m_cost, t_cost, p_cost) is None,
        },
        r matches Some(h) ==> spec_password_verifies(password@, h@),
{
    let params = argon2::Params::new(m_cost, t_cost, p_cost, None).ok()?;
    let salt = SaltString::encode_b64(salt).ok()?;
    let hasher = argon2::Argon2::new(argon2::Algorithm::Argon2id, argon2::Version::V0x13, params);
    let h = hasher.hash_password(password.as_bytes(), &salt).ok()?;
    Some(h.to_string())
}

/// Hashes a new password for storage from 32 random bytes: Argon2id with
/// 19 MiB of memory, two passes and one lane (the OWASP recommendation), salted
/// with the first `SALT_LEN` of the bytes. `None` where Argon2 refuses.
/// A password always verifies against its own hash.
pub fn hash_with_random(password: &str, random: &[u8; 32]) -> (r: Option<String>)
    ensures
        match spec_argon2id_hash(password@, random@.take(SALT_LEN as int), HASH_M_COST, HASH_T_COST, HASH_P_COST) {
            Some(h) => r matches Some(s) && s@ == h,
            None => r is None,
        },
        r matches Some(h) ==> spec_password_verifies(password@, h@),
{
    let mut salt: Vec<u8> = Vec::new();
    for i in 0..SALT_LEN
        invariant
            salt@ == random@.take(i as int),
    {
        salt.push(random[i]);
        assert(random@.take(i as int).push(random@[i as int]) =~= random@.take(i + 1));
    }
    argon2id_hash(password, salt.as_slice(), HASH_M_COST, HASH_T_COST, HASH_P_COST)
}

/// Hashes a new password for storage: 32 bytes drawn from the operating
/// system's random source, made into a hash by `hash_with_random`. `None` when
/// the draw fails or Argon2 refuses. A password always verifies against its
/// own hash.
pub fn hash(password: &str) -> (r: Option<String>)
    ensures
        r matches Some(h) ==> {
            &&& spec_password_verifies(password@, h@)
            &&& exists|b: Seq<u8>|
                b.len() == 32 && spec_argon2id_hash(
                    password@,
                    b.take(SALT_LEN as int),
                    HASH_M_COST,
                    HASH_T_COST,
                    HASH_P_COST,
                ) == Some(h@)
        },
{
    match os_random_32() {
        Some(buf) => {
            let r = hash_with_random(password, &buf);
            proof {
                if r is Some {
                    assert(buf@.len() == 32);
                    assert(spec_argon2id_hash(password@, buf@.take(SALT_LEN as int), HASH_M_COST, HASH_T_COST, HASH_P_COST) == Some(r->0@));
                }
            }
            r
        },
        None => None,
    }
}

/// Checks a new password and its confirmation: they must be equal, and the
/// password at least 8 bytes long.
pub fn check_new_password(password: &str, confirmation: &str) -> (r: Result<(), PasswordError>)
    ensures
        password@ != confirmation@ ==> r == Err::<(), PasswordError>(PasswordError::Mismatch),
        password@ == confirmation@ && password.len() < 8 ==> r == Err::<
            (),
            PasswordError,
        >(PasswordError::TooShort),
        r is Ok <==> password@ == confirmation@ && password.len() >= 8,
{
    if !crate::text::str_eq(password, confirmation) {
        return Err(PasswordError::Mismatch);
    }
    if password.len() < 8 {
        return Err(PasswordError::TooShort);
    }
    Ok(())
}

} // verus!
