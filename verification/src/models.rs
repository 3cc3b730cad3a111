//! Metadata of model files found on disk.

use vstd::prelude::*;

use crate::text::{append_str, spec_decimal, u64_to_string};

verus! {

/// What is known of one `.gguf` file in the models directory.
#[derive(Debug, Clone, PartialEq)]
pub struct ModelInfo {
    /// Full path to the model file.
    pub path: String,
    /// File name of the model.
    pub filename: String,
    /// File size in bytes.
    pub size_bytes: u64,
    /// Seconds since the epoch of the last modification.
    pub last_modified: u64,
}

/// A value scaled into a unit, with two truncated decimal places:
/// the whole part, a dot, and two fraction digits.
pub open spec fn spec_two_decimals(bytes: nat, unit: nat) -> Seq<char>
    recommends
        unit >= 1,
{
    let whole = bytes / unit;
    let frac = (bytes % unit) * 100 / unit;
    spec_decimal(whole) + "."@ + (if frac < 10 {
        "0"@ + spec_decimal(frac)
    } else {
        spec_decimal(frac)
    })
}

/// The human-readable size of a byte count: bytes below 1024, then KB, MB,
/// and GB with two decimal places, truncated.
pub open spec fn spec_size_string(bytes: nat) -> Seq<char> {
    if bytes < 1024 {
        spec_decimal(bytes) + " B"@
    } else if bytes < 1024 * 1024 {
        spec_two_decimals(bytes, 1024) + " KB"@
    } else if bytes < 1024 * 1024 * 1024 {
        spec_two_decimals(bytes, 1024 * 1024) + " MB"@
    } else {
        spec_two_decimals(bytes, 1024 * 1024 * 1024) + " GB"@
    }
}

fn two_decimals(bytes: u64, unit: u64) -> (r: String)
    requires
        1 <= unit <= 0x40000000,
    ensures
        r@ == spec_two_decimals(bytes as nat, unit as nat),
{
    let whole: u64 = bytes / unit;
    let rem: u64 = bytes % unit;
    let frac: u64 = rem * 100 / unit;
    proof {
        assert(rem < unit);
        assert(rem * 100 < unit * 100) by (nonlinear_arith)
            requires
                rem < unit,
                unit >= 1,
        ;
        assert((bytes as nat) % (unit as nat) == rem as nat);
        assert((bytes as nat) / (unit as nat) == whole as nat);
    }
    let mut out = u64_to_string(whole);
    append_str(&mut out, ".");
    if frac < 10 {
        append_str(&mut out, "0");
        let d = u64_to_string(frac);
        append_str(&mut out, d.as_str());
        proof {
            assert((spec_decimal(whole as nat) + "."@) + ("0"@ + spec_decimal(frac as nat))
                =~= ((spec_decimal(whole as nat) + "."@) + "0"@) + spec_decimal(frac as nat));
        }
    } else {
        let d = u64_to_string(frac);
        append_str(&mut out, d.as_str());
    }
    out
}

impl ModelInfo {
    /// The size as text: `N B` below 1 KB, else two truncated decimals in
    /// KB, MB, or GB.
    pub fn size_string(&self) -> (r: String)
        ensures
            r@ == spec_size_string(self.size_bytes as nat),
    {
        let bytes = self.size_bytes;
        if bytes < 1024 {
            let mut out = u64_to_string(bytes);
            append_str(&mut out, " B");
            out
        } else if bytes < 1024 * 1024 {
            let mut out = two_decimals(bytes, 1024);
            append_str(&mut out, " KB");
            out
        } else if bytes < 1024 * 1024 * 1024 {
            let mut out = two_decimals(bytes, 1024 * 1024);
            append_str(&mut out, " MB");
            out
        } else {
            let mut out = two_decimals(bytes, 1024 * 1024 * 1024);
            append_str(&mut out, " GB");
            out
        }
    }
}

} // verus!
