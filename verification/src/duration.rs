//! How a length of time is written in a progress line.

use crate::bytes::append;
use crate::text::{
    all_ascii, ascii_chars, ascii_string, decimal, decimal_bytes, lemma_decimal_digits,
};
use vstd::prelude::*;

verus! {

/// The tenths of a second in `millis` milliseconds, rounded to the nearest, a
/// half rounded up.
pub open spec fn tenths(millis: nat) -> nat {
    (millis + 50) / 100
}

/// Seconds with one digit behind the point: the text of `millis` milliseconds,
/// rounded to a tenth of a second.
pub open spec fn seconds_text(millis: nat) -> Seq<u8> {
    decimal(tenths(millis) / 10) + seq![0x2eu8] + decimal(tenths(millis) % 10)
}

/// A count of hours or minutes as it is written: no more than `u32::MAX`.
pub open spec fn capped(count: nat) -> nat {
    if count > 0xffff_ffff {
        0xffff_ffff
    } else {
        count
    }
}

/// The text of a length of time of `millis` milliseconds. Under a minute it is
/// the seconds and `s`; under an hour the whole minutes and `m` come first; from
/// an hour on the whole hours and `h` come before the minutes of the hour. The
/// seconds are those of the last minute, rounded after the minutes were taken
/// off, so that they can read `60.0`.
pub open spec fn duration_text(millis: nat) -> Seq<u8> {
    if millis < 60_000 {
        seconds_text(millis) + seq![0x73u8]
    } else if millis < 3_600_000 {
        decimal(capped(millis / 60_000)) + seq![0x6du8] + seconds_text(millis % 60_000) + seq![
            0x73u8,
        ]
    } else {
        decimal(capped(millis / 3_600_000)) + seq![0x68u8] + decimal(
            capped((millis % 3_600_000) / 60_000),
        ) + seq![0x6du8] + seconds_text(millis % 60_000) + seq![0x73u8]
    }
}

/// Appends the seconds of `millis` milliseconds, with one digit behind the
/// point, to `text`.
fn push_seconds(text: &mut Vec<u8>, millis: u64)
    requires
        millis <= 60_000,
        all_ascii(old(text)@),
    ensures
        final(text)@ == old(text)@ + seconds_text(millis as nat),
        all_ascii(final(text)@),
{
    let rounded: u64 = (millis + 50) / 100;
    let whole = decimal_bytes((rounded / 10) as usize);
    let part = decimal_bytes((rounded % 10) as usize);
    proof {
        lemma_decimal_digits((rounded / 10) as nat);
        lemma_decimal_digits((rounded % 10) as nat);
    }
    let ghost before = text@;
    append(text, whole.as_slice());
    text.push(0x2e);
    append(text, part.as_slice());
    assert(text@ =~= before + seconds_text(millis as nat));
}

/// Appends a count of hours or minutes to `text`, no more than `u32::MAX`.
fn push_count(text: &mut Vec<u8>, count: u64)
    requires
        all_ascii(old(text)@),
    ensures
        final(text)@ == old(text)@ + decimal(capped(count as nat)),
        all_ascii(final(text)@),
{
    let shown: usize = if count > 0xffff_ffff {
        0xffff_ffff
    } else {
        count as usize
    };
    let digits = decimal_bytes(shown);
    proof {
        lemma_decimal_digits(shown as nat);
    }
    append(text, digits.as_slice());
}

/// Writes a length of time, given in whole milliseconds, for a progress line:
/// `12.3s`, `4m5.6s`, `1h2m3.4s`.
pub fn format_duration(total_millis: u64) -> (text: String)
    ensures
        text@ == ascii_chars(duration_text(total_millis as nat)),
{
    let mut out: Vec<u8> = Vec::new();
    if total_millis < 60_000 {
        push_seconds(&mut out, total_millis);
        out.push(0x73);
    } else if total_millis < 3_600_000 {
        push_count(&mut out, total_millis / 60_000);
        out.push(0x6d);
        push_seconds(&mut out, total_millis % 60_000);
        out.push(0x73);
    } else {
        push_count(&mut out, total_millis / 3_600_000);
        out.push(0x68);
        push_count(&mut out, (total_millis % 3_600_000) / 60_000);
        out.push(0x6d);
        push_seconds(&mut out, total_millis % 60_000);
        out.push(0x73);
    }
    assert(out@ =~= duration_text(total_millis as nat));
    ascii_string(out.as_slice())
}

} // verus!
