//! The calls that leave this crate: the random generator of `rand`, the
//! system clock, and the functions of std on text for which Verus has no
//! specification. Nothing here is proved; each contract states what the
//! called function documents.

use rand::rngs::ThreadRng;
use rand::RngExt;
use std::time::{Duration, SystemTime};
use vstd::prelude::*;
use vstd::utf8::{decode_utf8, valid_utf8};

verus! {

/// `rand::rngs::ThreadRng`, a handle to the generator of the current thread.
/// Nothing inside it is visible here.
#[verifier::external_type_specification]
#[verifier::external_body]
pub struct ExThreadRng(ThreadRng);

/// `std::time::SystemTime`, a reading of the system clock.
#[verifier::external_type_specification]
#[verifier::external_body]
pub struct ExSystemTime(SystemTime);

/// `rand::rng`: the generator of the current thread. Nothing is claimed of
/// it. It panics if the operating system cannot seed the generator.
pub assume_specification[ rand::rng ]() -> (rng: ThreadRng);

/// `RngExt::random` at twelve bytes: any twelve bytes may come back.
#[verifier::external_body]
pub(crate) fn random_payload(rng: &mut ThreadRng) -> (payload: [u8; 12]) {
    rng.random()
}

/// `RngExt::random_range` over `low..high`: the value lies in that range.
/// The range must not be empty, on which `random_range` panics.
#[verifier::external_body]
pub(crate) fn random_index(rng: &mut ThreadRng, low: usize, high: usize) -> (index: usize)
    requires
        low < high,
    ensures
        low <= index < high,
{
    rng.random_range(low..high)
}

/// `SystemTime::now`: the current reading of the system clock.
pub assume_specification[ SystemTime::now ]() -> (now: SystemTime);

/// `SystemTime::duration_since` the Unix epoch: the time elapsed since then,
/// or `None` where the clock reads earlier than the epoch.
#[verifier::external_body]
pub(crate) fn since_unix_epoch(now: &SystemTime) -> (elapsed: Option<Duration>) {
    match now.duration_since(SystemTime::UNIX_EPOCH) {
        Ok(elapsed) => Some(elapsed),
        Err(_) => None,
    }
}

/// `Duration::as_nanos`: the whole duration in nanoseconds.
pub assume_specification[ Duration::as_nanos ](duration: &Duration) -> (nanos: u128);

/// `String::push`: the character is appended to the text.
#[verifier::external_body]
pub(crate) fn push_char(text: &mut String, c: char)
    ensures
        final(text)@ == old(text)@.push(c),
{
    text.push(c)
}

/// What `str::to_lowercase` makes of a text: its lower-case form by the
/// Unicode tables, which depends on the text alone.
pub uninterp spec fn spec_lowercase(text: Seq<char>) -> Seq<char>;

/// `str::to_lowercase`: the lower-case form of the text.
#[verifier::external_body]
pub(crate) fn to_lowercase(text: &str) -> (lower: String)
    ensures
        lower@ == spec_lowercase(text@),
{
    text.to_lowercase()
}

/// `String::from_utf8`: the text that the bytes encode in UTF-8, or `None`
/// where they are no valid UTF-8.
#[verifier::external_body]
pub(crate) fn string_from_utf8(bytes: Vec<u8>) -> (text: Option<String>)
    ensures
        match text {
            Some(text) => valid_utf8(bytes@) && text@ == decode_utf8(bytes@),
            None => !valid_utf8(bytes@),
        },
{
    match String::from_utf8(bytes) {
        Ok(text) => Some(text),
        Err(_) => None,
    }
}

} // verus!
