//! Generation of random short keys: strings of a caller-chosen length drawn
//! from a URL-safe alphabet, produced from a cryptographically strong random
//! source. The generator does not check for collisions; the store's
//! uniqueness constraint and the service's retry loop handle those.

use vstd::prelude::*;

verus! {

/// The key length used when the caller does not ask for one.
pub const DEFAULT_KEY_LENGTH: usize = 10;

/// Why a key could not be generated.
#[derive(Clone, Copy, PartialEq, Eq, Structural, Debug)]
pub enum KeyGenError {
    /// The requested length was zero.
    InvalidLength,
}

/// The URL-safe alphabet: letters, digits, `_` and `-`. None of these
/// characters needs percent-encoding in a URL.
pub open spec fn is_url_safe_char(c: char) -> bool {
    ||| c == '_'
    ||| c == '-'
    ||| ('0' as u32) <= (c as u32) <= ('9' as u32)
    ||| ('a' as u32) <= (c as u32) <= ('z' as u32)
    ||| ('A' as u32) <= (c as u32) <= ('Z' as u32)
}

/// Every character of the sequence is drawn from the URL-safe alphabet.
pub open spec fn all_url_safe(s: Seq<char>) -> bool {
    forall|i: int| 0 <= i < s.len() ==> is_url_safe_char(#[trigger] s[i])
}

/// Relies on `nanoid::format` with `nanoid::rngs::default` and the 64-symbol
/// URL-safe alphabet `nanoid::alphabet::SAFE` (letters, digits, `_`, `-`):
/// it returns exactly `length` characters, each drawn from that alphabet,
/// from a cryptographically strong random source. The result is random, so
/// nothing relates two calls on the same length.
#[verifier::external_body]
fn nanoid_safe(length: usize) -> (r: String)
    ensures
        r@.len() == length,
        all_url_safe(r@),
{
    nanoid::format(nanoid::rngs::default, &nanoid::alphabet::SAFE, length)
}

/// Generates a random short key of exactly `length` URL-safe characters.
/// A zero length is rejected rather than silently replaced by the default.
pub fn generate(length: usize) -> (r: Result<String, KeyGenError>)
    ensures
        r is Ok <==> length > 0,
        r matches Ok(key) ==> key@.len() == length && all_url_safe(key@),
{
    if length == 0 {
        Err(KeyGenError::InvalidLength)
    } else {
        Ok(nanoid_safe(length))
    }
}

} // verus!
