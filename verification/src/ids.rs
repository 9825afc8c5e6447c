//! Random identifiers and clock readings, from outside the library.

use vstd::prelude::*;
use vstd::arithmetic::power::pow;

verus! {

/// A fresh random identifier (`uuid::Uuid::new_v4`), as its 128-bit value.
/// Nothing is stated of the value: it is random.
#[verifier::external_body]
pub(crate) fn new_uuid() -> u128 {
    uuid::Uuid::new_v4().as_u128()
}

/// The lowercase hexadecimal digit of a value below 16.
pub open spec fn hex_digit(n: nat) -> char {
    if n < 10 {
        ((n + 48) as u32) as char
    } else {
        ((n + 87) as u32) as char
    }
}

/// The 32 hexadecimal digits of a 128-bit value, most significant first.
pub open spec fn hex_digits(v: u128) -> Seq<char> {
    Seq::new(32, |i: int| hex_digit(((v as nat) / pow(16, (31 - i) as nat) as nat) % 16))
}

/// The hyphenated lowercase text of an identifier: its 32 hexadecimal
/// digits, most significant first, in groups of 8, 4, 4, 4 and 12 joined by
/// `-`.
pub open spec fn uuid_text(id: u128) -> Seq<char> {
    let h = hex_digits(id);
    h.subrange(0, 8) + seq!['-'] + h.subrange(8, 12) + seq!['-'] + h.subrange(12, 16) + seq!['-']
        + h.subrange(16, 20) + seq!['-'] + h.subrange(20, 32)
}

/// Displays an identifier (`uuid::Uuid::from_u128(id).to_string()`): the
/// value's bytes taken most significant first, shown as lowercase
/// hexadecimal in the hyphenated form.
#[verifier::external_body]
pub(crate) fn uuid_to_string(id: u128) -> (res: String)
    ensures
        res@ == uuid_text(id),
{
    uuid::Uuid::from_u128(id).to_string()
}

#[verifier::external_type_specification]
#[verifier::external_body]
pub struct ExSystemTime(std::time::SystemTime);

/// The current wall-clock time (`std::time::SystemTime::now`). Nothing is
/// stated of the value: it is the time.
#[verifier::external_body]
fn system_now() -> std::time::SystemTime {
    std::time::SystemTime::now()
}

/// The time elapsed from the Unix epoch to `t`
/// (`SystemTime::duration_since(UNIX_EPOCH)`), `None` when `t` is earlier.
/// Nothing is stated of the value: `t` is opaque here.
#[verifier::external_body]
fn since_epoch(t: &std::time::SystemTime) -> Option<std::time::Duration> {
    t.duration_since(std::time::UNIX_EPOCH).ok()
}

/// The whole nanoseconds of a duration (`Duration::as_nanos`). Nothing is
/// stated of the value: the duration is opaque here.
#[verifier::external_body]
fn duration_nanos(d: &std::time::Duration) -> u128 {
    d.as_nanos()
}

/// Nanoseconds since the Unix epoch as a `u64`, from the elapsed
/// nanoseconds that the clock gave (`None` when it reads earlier than the
/// epoch): 0 for `None`, saturating at `u64::MAX`.
pub fn nanos_since_epoch(elapsed: Option<u128>) -> (res: u64)
    ensures
        res == match elapsed {
            Some(n) => if n > u64::MAX { u64::MAX as int } else { n as int },
            None => 0,
        },
{
    match elapsed {
        Some(n) => {
            if n > 0xffff_ffff_ffff_ffffu128 {
                0xffff_ffff_ffff_ffffu64
            } else {
                n as u64
            }
        },
        None => 0,
    }
}

/// The current wall-clock time in nanoseconds since the Unix epoch, as
/// `nanos_since_epoch` gives it from the clock's reading. Nothing more is
/// stated of the value: it is the time.
pub(crate) fn clock_nanos() -> u64 {
    let now = system_now();
    let elapsed = match since_epoch(&now) {
        Some(d) => Some(duration_nanos(&d)),
        None => None,
    };
    nanos_since_epoch(elapsed)
}

} // verus!
