//! Rendering of byte counts as short human-readable strings ("512 B",
//! "1.5 KB", "2.0 GB"), used for the informational rate label on progress
//! records. Scaling is fixed-point: one decimal digit, rounded half up.
use vstd::arithmetic::div_mod::{lemma_div_is_ordered, lemma_div_is_ordered_by_denominator};
use vstd::prelude::*;
use vstd::string::*;

use crate::text::dec_digits;

verus! {

pub const KB: u64 = 1024;

pub const MB: u64 = 1048576;

pub const GB: u64 = 1073741824;

/// Ten times the scaled value `b / unit`, rounded half up: the digits of the
/// one-decimal rendering.
pub open spec fn scaled_tenths(b: u64, unit: u64) -> int {
    (b * 10 + unit / 2) / (unit as int)
}

/// The one-decimal rendering of `b / unit`.
pub open spec fn spec_scaled(b: u64, unit: u64) -> Seq<char> {
    let t = scaled_tenths(b, unit);
    dec_digits((t / 10) as nat) + "."@ + dec_digits((t % 10) as nat)
}

/// The rendering of a byte count: scaled to the largest unit it reaches, or
/// plain bytes under 1 KB.
pub open spec fn spec_format_bytes(b: u64) -> Seq<char> {
    if b >= GB {
        spec_scaled(b, GB) + " GB"@
    } else if b >= MB {
        spec_scaled(b, MB) + " MB"@
    } else if b >= KB {
        spec_scaled(b, KB) + " KB"@
    } else {
        dec_digits(b as nat) + " B"@
    }
}

fn scaled_string(b: u64, unit: u64, suffix: &str) -> (r: String)
    requires
        unit == KB || unit == MB || unit == GB,
    ensures
        r@ == spec_scaled(b, unit) + suffix@,
{
    proof {
        lemma_div_is_ordered(b * 10 + unit / 2, 11 * (u64::MAX as int), unit as int);
        lemma_div_is_ordered_by_denominator(11 * (u64::MAX as int), 1024, unit as int);
    }
    let t128 = ((b as u128) * 10 + (unit as u128) / 2) / (unit as u128);
    let t = t128 as u64;
    let mut s = crate::text::u64_to_dec(t / 10);
    s.append(".");
    let tenth = crate::text::u64_to_dec(t % 10);
    s.append(tenth.as_str());
    s.append(suffix);
    s
}

/// Renders a byte count for display, as in "900 B", "1.5 KB", "2.0 GB".
pub fn format_bytes(b: u64) -> (r: String)
    ensures
        r@ == spec_format_bytes(b),
{
    if b >= GB {
        scaled_string(b, GB, " GB")
    } else if b >= MB {
        scaled_string(b, MB, " MB")
    } else if b >= KB {
        scaled_string(b, KB, " KB")
    } else {
        let mut s = crate::text::u64_to_dec(b);
        s.append(" B");
        s
    }
}

} // verus!
