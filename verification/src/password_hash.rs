//! Argon2 password hashes in the PHC text format.

use argon2::password_hash::rand_core::OsRng;
use argon2::password_hash::{PasswordHash, PasswordHasher, PasswordVerifier, SaltString};
use argon2::Argon2;
use vstd::prelude::*;

use crate::text;

verus! {

pub open spec fn is_base64(c: char) -> bool {
    'A' <= c <= 'Z' || 'a' <= c <= 'z' || '0' <= c <= '9' || c == '+' || c == '/'
}

/// Sixteen bytes in unpadded base64: 22 characters, of which the last one
/// carries only two bits.
pub open spec fn is_salt(s: Seq<char>) -> bool {
    &&& s.len() == 22
    &&& forall|i: int| 0 <= i < s.len() ==> is_base64(#[trigger] s[i])
    &&& (s[21] == 'A' || s[21] == 'Q' || s[21] == 'g' || s[21] == 'w')
}

/// Whether the parameter `p`, the number of lanes, starts at `i`.
pub open spec fn lanes_at(s: Seq<char>, i: int) -> bool {
    0 <= i && i + 1 < s.len() && s[i] == 'p' && s[i + 1] == '='
}

/// The hash text asks for a number of lanes of nine digits or more: the last
/// `p=` in it is followed by as many. Argon2 has at most 2^24 - 1 lanes.
pub open spec fn asks_too_many_lanes(s: Seq<char>) -> bool {
    exists|i: int| #[trigger]
        lanes_at(s, i) && (forall|k: int| i < k ==> !lanes_at(s, k)) && i + 11 <= s.len()
            && text::all_digits(s.subrange(i + 2, i + 11))
}

/// What Argon2 with its default parameters makes of a password and a salt: the
/// hash in PHC format, or the text of an error.
pub uninterp spec fn argon2_hash(password: Seq<char>, salt: Seq<char>) -> Result<
    Seq<char>,
    Seq<char>,
>;

/// Whether Argon2, run with the parameters and the salt in a PHC text, makes of
/// the password the output in that text.
pub uninterp spec fn argon2_accepts(password: Seq<char>, hash: Seq<char>) -> bool;

/// `SaltString::generate` with the operating system's random numbers: some salt.
/// Which one is up to chance.
#[verifier::external_body]
fn random_salt() -> (salt: String)
    ensures
        is_salt(salt@),
{
    SaltString::generate(&mut OsRng).as_str().to_owned()
}

/// `Argon2::hash_password` with the default parameters. The result is
/// [`argon2_hash`]. With a salt of sixteen bytes it fails only on passwords of
/// more than `u32::MAX` bytes. A hash is a text that starts with `$`, asks for
/// one lane, and is accepted for the password that it was made of.
#[verifier::external_body]
fn hash_with_salt(password: &str, salt: &str) -> (r: Result<String, String>)
    ensures
        match r {
            Ok(hash) => argon2_hash(password@, salt@) == Ok::<Seq<char>, Seq<char>>(hash@),
            Err(error) => argon2_hash(password@, salt@) == Err::<Seq<char>, Seq<char>>(error@),
        },
        is_salt(salt@) ==> (r is Ok <==> vstd::utf8::encode_utf8(password@).len() <= u32::MAX),
        r matches Ok(hash) ==> hash@.len() > 0 && !asks_too_many_lanes(hash@) && argon2_accepts(
            password@,
            hash@,
        ),
{
    SaltString::from_b64(salt)
        .and_then(
            |salt| {
                Argon2::default().hash_password(password.as_bytes(), &salt).map(|hash| hash.to_string())
            },
        )
        .map_err(|error| error.to_string())
}

/// `PasswordHash::new` and `Argon2::verify_password`: whether `hash` parses and
/// the password is the one that it was made of. A text that asks for too many
/// lanes is left out, since the check of the parameters multiplies their number
/// by eight without regard to overflow. The memory and the time that it takes
/// are those that the parameters in `hash` ask for.
#[verifier::external_body]
fn verify_with_hash(password: &str, hash: &str) -> (r: bool)
    requires
        !asks_too_many_lanes(hash@),
    ensures
        r == argon2_accepts(password@, hash@),
{
    match PasswordHash::new(hash) {
        Ok(parsed) => Argon2::default().verify_password(password.as_bytes(), &parsed).is_ok(),
        Err(_) => false,
    }
}

/// `hash` is one of the hashes that hashing `password` may give.
pub open spec fn is_hash_of(password: Seq<char>, hash: Seq<char>) -> bool {
    exists|salt: Seq<char>|
        is_salt(salt) && #[trigger] argon2_hash(password, salt) == Ok::<Seq<char>, Seq<char>>(hash)
}

/// `error` is one of the errors that hashing `password` may give.
pub open spec fn is_hash_error_of(password: Seq<char>, error: Seq<char>) -> bool {
    exists|salt: Seq<char>|
        is_salt(salt) && #[trigger] argon2_hash(password, salt) == Err::<Seq<char>, Seq<char>>(
            error,
        )
}

/// A password that Argon2 can hash.
pub open spec fn can_hash(password: Seq<char>) -> bool {
    vstd::utf8::encode_utf8(password).len() <= u32::MAX
}

/// Whether `password` matches the stored `hash`. No password matches a text
/// that asks for more lanes than Argon2 has.
pub open spec fn accepts(password: Seq<char>, hash: Seq<char>) -> bool {
    !asks_too_many_lanes(hash) && argon2_accepts(password, hash)
}

/// Hashes `plaintext` with a salt of its own.
pub fn hash_password(plaintext: &str) -> (r: Result<String, String>)
    ensures
        r is Ok <==> can_hash(plaintext@),
        match r {
            Ok(hash) => is_hash_of(plaintext@, hash@) && hash@.len() > 0 && accepts(
                plaintext@,
                hash@,
            ),
            Err(error) => is_hash_error_of(plaintext@, error@),
        },
        r is Ok <==> vstd::utf8::encode_utf8(plaintext@).len() <= u32::MAX,
        r matches Ok(hash) ==> hash@.len() > 0 && !asks_too_many_lanes(hash@) && argon2_accepts(
            plaintext@,
            hash@,
        ) && exists|salt: Seq<char>|
            is_salt(salt) && #[trigger] argon2_hash(plaintext@, salt) == Ok::<
                Seq<char>,
                Seq<char>,
            >(hash@),
{
    let salt = random_salt();
    hash_with_salt(plaintext, salt.as_str())
}

/// Whether the last `p=` in `hash` is followed by nine digits.
fn check_lanes(hash: &str) -> (r: bool)
    ensures
        r == asks_too_many_lanes(hash@),
{
    let chars = text::chars_of(hash);
    let n: usize = chars.len();
    if n < 2 {
        return false;
    }
    let mut i: usize = n - 1;
    while i > 0
        invariant
            i < n == chars@.len(),
            chars@ == hash@,
            forall|k: int| i <= k ==> !lanes_at(hash@, k),
        decreases i,
    {
        i = i - 1;
        if chars[i] == 'p' && chars[i + 1] == '=' {
            assert(lanes_at(hash@, i as int));
            if n - i < 11 {
                assert(!asks_too_many_lanes(hash@)) by {
                    if asks_too_many_lanes(hash@) {
                        let m = choose|m: int| #[trigger]
                            lanes_at(hash@, m) && (forall|k: int| m < k ==> !lanes_at(hash@, k))
                                && m + 11 <= hash@.len() && text::all_digits(
                                hash@.subrange(m + 2, m + 11),
                            );
                        assert(m == i);
                    }
                }
                return false;
            }
            let mut j: usize = 0;
            while j < 9
                invariant
                    j <= 9,
                    i + 11 <= n == chars@.len(),
                    chars@ == hash@,
                    lanes_at(hash@, i as int),
                    forall|k: int| i < k ==> !lanes_at(hash@, k),
                    forall|k: int|
                        0 <= k < j ==> text::is_digit(
                            #[trigger] hash@.subrange(i + 2, i + 11)[k],
                        ),
                decreases 9 - j,
            {
                let c = chars[i + 2 + j];
                assert(hash@.subrange(i + 2, i + 11)[j as int] == c);
                if c < '0' || c > '9' {
                    assert(!asks_too_many_lanes(hash@)) by {
                        if asks_too_many_lanes(hash@) {
                            let m = choose|m: int| #[trigger]
                                lanes_at(hash@, m) && (forall|k: int|
                                    m < k ==> !lanes_at(hash@, k)) && m + 11 <= hash@.len()
                                    && text::all_digits(hash@.subrange(m + 2, m + 11));
                            assert(m == i);
                        }
                    }
                    return false;
                }
                j = j + 1;
            }
            return true;
        }
    }
    false
}

/// Whether `plaintext` is the password that `hash` was made of. A text that is
/// no hash matches nothing.
pub fn verify_password(plaintext: &str, hash: &str) -> (r: bool)
    ensures
        r == accepts(plaintext@, hash@),
        r <==> !asks_too_many_lanes(hash@) && argon2_accepts(plaintext@, hash@),
{
    if check_lanes(hash) {
        false
    } else {
        verify_with_hash(plaintext, hash)
    }
}

/// A password and a hash match only if Argon2 says so, and a hash that hashing the
/// password gave matches it wherever Argon2 says so and asks for few lanes.
pub proof fn only_argon2_decides(password: Seq<char>, hash: Seq<char>)
    ensures
        accepts(password, hash) ==> argon2_accepts(password, hash),
        argon2_accepts(password, hash) && !asks_too_many_lanes(hash) ==> accepts(password, hash),
{
}

} // verus!
