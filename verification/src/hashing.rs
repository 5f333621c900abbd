//! Credential hashing: salted Argon2id digests in PHC string form, and
//! verification of a secret against a stored digest.

use argon2::password_hash::rand_core::OsRng;
use argon2::password_hash::{PasswordHash, PasswordHasher, PasswordVerifier, SaltString};
use argon2::Argon2;
use vstd::prelude::*;

verus! {

/// Why the hasher gave no usable answer.
#[derive(Clone, Copy, Debug, PartialEq, Eq, Structural)]
pub enum HashingError {
    /// Argon2 refused to derive a digest from the secret and salt.
    Derivation,
    /// The derived digest came out equal to the secret itself.
    DigestEqualsSecret,
    /// Recomputing a well-formed digest failed for a reason other than a
    /// mismatch.
    Verification,
}

/// What recomputing a digest against a secret can yield.
#[derive(Clone, Copy, Debug, PartialEq, Eq, Structural)]
pub enum Verdict {
    /// The secret reproduces the digest.
    Match,
    /// The digest is well formed and the secret does not reproduce it.
    Mismatch,
    /// The digest is not a PHC string.
    Malformed,
    /// The digest parsed, but Argon2 could not recompute it.
    Fault,
}

/// The error type of the `password-hash` crate, carried through opaquely.
#[verifier::external_type_specification]
#[verifier::external_body]
pub struct ExPasswordHashError(argon2::password_hash::Error);

/// The PHC string that Argon2id with default parameters derives from a
/// secret and a B64 salt, or `None` where it derives none.
pub uninterp spec fn argon2_phc(password: Seq<char>, salt: Seq<char>) -> Option<Seq<char>>;

/// The verdict of recomputing `digest` against `password`.
pub uninterp spec fn phc_verdict(password: Seq<char>, digest: Seq<char>) -> Verdict;

/// The characters of the unpadded B64 alphabet of PHC strings.
pub open spec fn is_b64_char(c: char) -> bool {
    ||| ('A' as u32 <= c as u32 && c as u32 <= 'Z' as u32)
    ||| ('a' as u32 <= c as u32 && c as u32 <= 'z' as u32)
    ||| ('0' as u32 <= c as u32 && c as u32 <= '9' as u32)
    ||| c == '+'
    ||| c == '/'
}

/// A text made of B64 characters only.
pub open spec fn is_b64_text(s: Seq<char>) -> bool {
    forall|i: int| 0 <= i < s.len() ==> is_b64_char(#[trigger] s[i])
}

/// Length of a generated salt: sixteen bytes in unpadded B64.
pub const SALT_CHARS: usize = 22;

/// Length of the digest's tag: thirty-two bytes in unpadded B64.
pub const TAG_CHARS: usize = 43;

/// Length of the digest's header.
pub const HEADER_CHARS: usize = 31;

/// A freshly generated salt: twenty-two B64 characters.
pub open spec fn is_salt_text(s: Seq<char>) -> bool {
    s.len() == SALT_CHARS && is_b64_text(s)
}

/// The header every digest of this library starts with: algorithm, version
/// and cost parameters.
pub open spec fn phc_header() -> Seq<char> {
    "$argon2id$v=19$m=19456,t=2,p=1$"@
}

/// The shape of a digest: header, salt, a separator, and the tag.
pub open spec fn phc_layout(digest: Seq<char>, salt: Seq<char>) -> bool {
    &&& digest.len() == HEADER_CHARS + salt.len() + 1 + TAG_CHARS
    &&& digest.subrange(0, HEADER_CHARS as int) == phc_header()
    &&& digest.subrange(HEADER_CHARS as int, HEADER_CHARS + salt.len()) == salt
    &&& digest[HEADER_CHARS + salt.len()] == '$'
    &&& is_b64_text(digest.subrange(HEADER_CHARS + salt.len() + 1, digest.len() as int))
}

/// What hashing yields once the derived digest is known: the digest, unless
/// none was derived or it equals the secret.
pub open spec fn sealed(password: Seq<char>, derived: Option<Seq<char>>) -> Result<
    Seq<char>,
    HashingError,
> {
    match derived {
        Some(d) => if d == password {
            Err(HashingError::DigestEqualsSecret)
        } else {
            Ok(d)
        },
        None => Err(HashingError::Derivation),
    }
}

/// The view of a hashing result.
pub open spec fn digest_view(res: Result<String, HashingError>) -> Result<Seq<char>, HashingError> {
    match res {
        Ok(d) => Ok(d@),
        Err(e) => Err(e),
    }
}

/// `res` is what hashing `password` under `salt` yields.
pub open spec fn hashed_with(
    password: Seq<char>,
    salt: Seq<char>,
    res: Result<Seq<char>, HashingError>,
) -> bool {
    &&& res == sealed(password, argon2_phc(password, salt))
    &&& res matches Ok(d) ==> phc_layout(d, salt) && phc_verdict(password, d) == Verdict::Match
}

/// What verification answers: a mismatch and a malformed digest both fail
/// closed, a fault is an error of its own.
pub open spec fn verdict_outcome(v: Verdict) -> Result<bool, HashingError> {
    match v {
        Verdict::Match => Ok(true),
        Verdict::Mismatch => Ok(false),
        Verdict::Malformed => Ok(false),
        Verdict::Fault => Err(HashingError::Verification),
    }
}

/// Calls `SaltString::generate` of `password-hash` on the operating
/// system's random source. Whatever the draw, the salt is sixteen random
/// bytes in unpadded B64: twenty-two characters of that alphabet.
#[verifier::external_body]
fn generate_salt() -> (salt: String)
    ensures
        is_salt_text(salt@),
{
    SaltString::generate(&mut OsRng).as_str().to_string()
}

/// Calls `Argon2::default().hash_password` with the salt parsed by
/// `SaltString::from_b64`, and reads the PHC string back through
/// `PasswordHash::new`. The result is a function of secret and salt. A
/// digest that comes back has the default header, the salt as given, and a
/// thirty-two byte tag, and `verify_password` accepts it for this secret.
#[verifier::external_body]
fn derive_digest(password: &str, salt: &str) -> (res: Result<
    String,
    argon2::password_hash::Error,
>)
    ensures
        res is Ok <==> argon2_phc(password@, salt@) is Some,
        res matches Ok(d) ==> argon2_phc(password@, salt@) == Some(d@),
        res matches Ok(d) ==> phc_layout(d@, salt@),
        res matches Ok(d) ==> phc_verdict(password@, d@) == Verdict::Match,
{
    let salt = SaltString::from_b64(salt)?;
    let phc = Argon2::default().hash_password(password.as_bytes(), &salt)?.to_string();
    let parsed = PasswordHash::new(&phc)?;
    Ok(parsed.to_string())
}

/// Calls `PasswordHash::new` and `Argon2::default().verify_password`. The
/// verdict is a function of secret and digest. A digest that is empty or
/// does not start with `$` does not parse.
#[verifier::external_body]
fn recompute(password: &str, digest: &str) -> (v: Verdict)
    ensures
        v == phc_verdict(password@, digest@),
        digest@.len() == 0 || digest@[0] != '$' ==> v == Verdict::Malformed,
{
    match PasswordHash::new(digest) {
        Err(_) => Verdict::Malformed,
        Ok(parsed) => match Argon2::default().verify_password(password.as_bytes(), &parsed) {
            Ok(()) => Verdict::Match,
            Err(argon2::password_hash::Error::Password) => Verdict::Mismatch,
            Err(_) => Verdict::Fault,
        },
    }
}

/// Whether two texts hold the same characters.
pub fn same_text(a: &str, b: &str) -> (same: bool)
    ensures
        same == (a@ == b@),
{
    let left: String = a.to_owned();
    let right: String = b.to_owned();
    left == right
}

/// Decides what hashing returns once Argon2 has answered: a digest equal
/// to the secret is never handed out.
pub fn seal_digest(password: &str, derived: Option<String>) -> (res: Result<String, HashingError>)
    ensures
        digest_view(res) == sealed(
            password@,
            match derived {
                Some(d) => Some(d@),
                None => None,
            },
        ),
        res matches Ok(d) ==> derived == Some(d),
{
    match derived {
        Some(d) => {
            if same_text(d.as_str(), password) {
                Err(HashingError::DigestEqualsSecret)
            } else {
                Ok(d)
            }
        },
        None => Err(HashingError::Derivation),
    }
}

/// Hashes `password` under the given B64 salt.
pub fn hash_with_salt(password: &str, salt: &str) -> (res: Result<String, HashingError>)
    ensures
        hashed_with(password@, salt@, digest_view(res)),
{
    let derived: Option<String> = match derive_digest(password, salt) {
        Ok(d) => Some(d),
        Err(_) => None,
    };
    seal_digest(password, derived)
}

/// Hashes `password` under a fresh random salt.
///
/// A digest that comes back differs from the secret, carries its salt and
/// parameters, and verifies against the secret.
pub fn hash_my_password(password: String) -> (res: Result<String, HashingError>)
    ensures
        exists|salt: Seq<char>|
            is_salt_text(salt) && #[trigger] hashed_with(password@, salt, digest_view(res)),
        res matches Ok(d) ==> d@ != password@,
        res matches Ok(d) ==> verdict_outcome(phc_verdict(password@, d@)) == Ok::<
            bool,
            HashingError,
        >(true),
{
    let salt: String = generate_salt();
    hash_with_salt(password.as_str(), salt.as_str())
}

/// Maps a verdict to the answer of verification.
pub fn judge(v: Verdict) -> (res: Result<bool, HashingError>)
    ensures
        res == verdict_outcome(v),
{
    match v {
        Verdict::Match => Ok(true),
        Verdict::Mismatch => Ok(false),
        Verdict::Malformed => Ok(false),
        Verdict::Fault => Err(HashingError::Verification),
    }
}

/// Verifies `password` against a stored digest, using the parameters the
/// digest carries. A digest that does not parse never verifies.
pub fn verify_password(password: &str, digest: &str) -> (res: Result<bool, HashingError>)
    ensures
        res == verdict_outcome(phc_verdict(password@, digest@)),
        digest@.len() == 0 || digest@[0] != '$' ==> res == Ok::<bool, HashingError>(false),
{
    judge(recompute(password, digest))
}

/// Digests made under different salts differ, whatever the secrets: a
/// fresh salt gives a fresh digest even for a secret that was hashed before.
pub proof fn lemma_salt_separates_digests(
    secret: Seq<char>,
    salt: Seq<char>,
    digest: Seq<char>,
    other_secret: Seq<char>,
    other_salt: Seq<char>,
    other_digest: Seq<char>,
)
    requires
        is_salt_text(salt),
        is_salt_text(other_salt),
        salt != other_salt,
        hashed_with(secret, salt, Ok(digest)),
        hashed_with(other_secret, other_salt, Ok(other_digest)),
    ensures
        digest != other_digest,
{
    if digest == other_digest {
        let from = HEADER_CHARS as int;
        assert(salt == digest.subrange(from, from + SALT_CHARS));
        assert(other_salt == digest.subrange(from, from + SALT_CHARS));
    }
}

} // verus!
