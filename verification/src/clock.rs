//! The system clock, read through the standard library, and the decimal
//! timestamp text that the skill services write into manifests and records.
use std::time::Duration;
use std::time::SystemTime;
use std::time::UNIX_EPOCH;
use vstd::prelude::*;

use crate::text::decimal_string;
use crate::text::decimal_text;
use crate::text::digit_char;
use crate::text::is_blank_text;
use crate::text::is_white_space;

verus! {

#[verifier::external_type_specification]
#[verifier::external_body]
pub struct ExSystemTime(SystemTime);

/// `SystemTime::now`: the current system time. Nothing is promised of its
/// value, which depends on the clock.
#[verifier::external_body]
fn system_time_now() -> SystemTime {
    SystemTime::now()
}

/// `SystemTime::duration_since(UNIX_EPOCH)`: the time elapsed since the Unix
/// epoch, `None` where the call returns its error (a clock set before the
/// epoch). Nothing is promised of which case comes, nor of the duration.
#[verifier::external_body]
fn duration_since_unix_epoch(t: &SystemTime) -> Option<Duration> {
    match t.duration_since(UNIX_EPOCH) {
        Ok(d) => Some(d),
        Err(_) => None,
    }
}

/// `Duration::as_secs`: the whole seconds of `d`. A `Duration` is opaque
/// here, so nothing is stated of the number.
#[verifier::external_body]
fn whole_seconds(d: &Duration) -> u64 {
    d.as_secs()
}

/// The timestamp text for a number of seconds since the Unix epoch: its
/// decimal rendering, or `"0"` when the clock could not give one.
pub open spec fn timestamp_text(secs: Option<u64>) -> Seq<char> {
    match secs {
        Some(s) => decimal_text(s as nat),
        None => seq!['0'],
    }
}

/// Whether a text is a timestamp text for some clock reading.
pub open spec fn is_timestamp_text(t: Seq<char>) -> bool {
    exists|secs: Option<u64>| t == #[trigger] timestamp_text(secs)
}

/// Renders a clock reading as timestamp text.
pub fn format_unix_seconds(secs: Option<u64>) -> (r: String)
    ensures
        r@ == timestamp_text(secs),
{
    match secs {
        Some(s) => decimal_string(s),
        None => {
            let r = String::from_str("0");
            proof {
                reveal_strlit("0");
            }
            assert(r@ =~= seq!['0']);
            r
        },
    }
}

/// The current time as timestamp text (whole seconds since the Unix epoch,
/// or `"0"` for a clock before the epoch).
pub fn now_rfc3339() -> (r: String)
    ensures
        is_timestamp_text(r@),
{
    let now = system_time_now();
    let secs = match duration_since_unix_epoch(&now) {
        Some(d) => Some(whole_seconds(&d)),
        None => None,
    };
    let r = format_unix_seconds(secs);
    assert(r@ == timestamp_text(secs));
    r
}

proof fn lemma_decimal_text_digits(n: nat)
    ensures
        forall|i: int|
            0 <= i < decimal_text(n).len() ==> 48 <= (#[trigger] decimal_text(n)[i]) as int <= 57,
        decimal_text(n).len() > 0,
    decreases n,
{
    if n >= 10 {
        lemma_decimal_text_digits(n / 10);
    }
    assert((digit_char(n % 10)) as int == 48 + n % 10);
}

/// A timestamp text is never blank: it is made of decimal digits only.
pub proof fn lemma_timestamp_not_blank(t: Seq<char>)
    requires
        is_timestamp_text(t),
    ensures
        !is_blank_text(t),
{
    let secs = choose|secs: Option<u64>| t == #[trigger] timestamp_text(secs);
    match secs {
        Some(s) => {
            lemma_decimal_text_digits(s as nat);
            assert(!is_white_space(t[0]));
        },
        None => {
            assert(!is_white_space(t[0]));
        },
    }
}

} // verus!
