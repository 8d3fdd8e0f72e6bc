//! What the library takes on trust: the message authentication code, its
//! base64 text, random choice, the system clock, and that `String::push`
//! appends.

use base64::Engine;
use hmac::{Hmac, Mac};
use rand::seq::SliceRandom;
use sha1::Sha1;
use vstd::prelude::*;

verus! {

/// `InvalidLength` of the `digest` crate, as `hmac` hands it on: the error
/// of a key whose length is not accepted.
#[verifier::external_type_specification]
#[verifier::external_body]
pub struct ExInvalidLength(hmac::digest::InvalidLength);

/// `std::time::SystemTime`: a reading of the system clock.
#[verifier::external_type_specification]
#[verifier::external_body]
pub struct ExSystemTime(std::time::SystemTime);

/// `std::time::SystemTimeError`: the error of a time that lies before the
/// one it is measured from.
#[verifier::external_type_specification]
#[verifier::external_body]
pub struct ExSystemTimeError(std::time::SystemTimeError);

/// The HMAC-SHA1 authentication code of `message` under `key`.
pub uninterp spec fn hmac_sha1(key: Seq<u8>, message: Seq<u8>) -> Seq<u8>;

/// The base64 text of `bytes`, in the standard alphabet and padded.
pub uninterp spec fn base64_standard(bytes: Seq<u8>) -> Seq<char>;

/// The whole seconds that a duration holds.
pub uninterp spec fn whole_seconds(duration: std::time::Duration) -> u64;

/// `Hmac::<Sha1>::new_from_slice`, `update` and `finalize` of the `hmac`
/// crate: a key of any length is accepted, so the result is never the error,
/// and it is the authentication code of the message under the key, which has
/// the twenty bytes of a SHA-1 digest. Equal keys and messages give equal
/// codes.
#[verifier::external_body]
pub(crate) fn authentication_code(key: &[u8], message: &[u8]) -> (r: Result<
    Vec<u8>,
    hmac::digest::InvalidLength,
>)
    ensures
        r is Ok,
        r matches Ok(code) ==> code@ == hmac_sha1(key@, message@),
        r matches Ok(code) ==> code@.len() == 20,
{
    let mut mac = Hmac::<Sha1>::new_from_slice(key)?;
    mac.update(message);
    Ok(mac.finalize().into_bytes().to_vec())
}

/// `Engine::encode` of the `base64` crate on its `STANDARD` engine: the
/// result is the padded base64 text of the bytes. The call panics where the
/// length of that text does not fit a `usize`, so such inputs are left out.
#[verifier::external_body]
pub(crate) fn base64_text(bytes: &[u8]) -> (text: String)
    requires
        bytes@.len() / 3 * 4 + 4 <= usize::MAX,
    ensures
        text@ == base64_standard(bytes@),
{
    base64::engine::general_purpose::STANDARD.encode(bytes)
}

/// `SliceRandom::choose` of the `rand` crate with the thread's generator:
/// one of the symbols, whichever chance picks, and none only where there is
/// no symbol.
#[verifier::external_body]
pub(crate) fn choose_at_random(symbols: &[char]) -> (r: Option<char>)
    ensures
        match r {
            Some(c) => symbols@.contains(c),
            None => symbols@.len() == 0,
        },
{
    symbols.choose(&mut rand::thread_rng()).copied()
}

/// `String::push` appends the given character to the end of the string and
/// leaves what was there before untouched.
pub assume_specification[ String::push ](text: &mut String, c: char)
    ensures
        final(text)@ == old(text)@.push(c),
;

/// `SystemTime::now` reads the system clock; nothing is known of the reading.
pub assume_specification[ std::time::SystemTime::now ]() -> std::time::SystemTime;

/// `SystemTime::duration_since` with `UNIX_EPOCH`: the time elapsed since
/// the epoch, or an error where the given time lies before it.
#[verifier::external_body]
pub(crate) fn since_unix_epoch(time: &std::time::SystemTime) -> Result<
    std::time::Duration,
    std::time::SystemTimeError,
> {
    time.duration_since(std::time::UNIX_EPOCH)
}

/// `Duration::as_secs` gives the whole seconds that the duration holds; the
/// part of a second beyond them is left out.
pub assume_specification[ std::time::Duration::as_secs ](duration: &std::time::Duration) -> (secs:
    u64)
    ensures
        secs == whole_seconds(*duration),
;

} // verus!
