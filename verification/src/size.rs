//! Root volume sizing: whole gibibytes that cover an image.

use vstd::prelude::*;

verus! {

/// Number of bytes in one gibibyte, the unit in which volumes are declared.
pub const BYTES_PER_GB: u64 = 1073741824;

/// The least number of whole gigabytes that holds `bytes` bytes.
pub open spec fn gb_ceil(bytes: nat) -> nat {
    if bytes % 1073741824 == 0 {
        bytes / 1073741824
    } else {
        bytes / 1073741824 + 1
    }
}

/// The root volume size that a registration declares: the caller's override
/// taken verbatim when there is one, else the image size rounded up.
pub open spec fn spec_root_volume_gb(logical_bytes: u64, root_size_override: Option<u64>) -> nat {
    match root_size_override {
        Some(gb) => gb as nat,
        None => gb_ceil(logical_bytes as nat),
    }
}

/// `gb_ceil(bytes)` gigabytes hold `bytes`, and no smaller whole number `g`
/// does: the declared volume is never smaller than the image.
pub proof fn law_gb_ceil_is_least_cover(bytes: nat, g: nat)
    ensures
        gb_ceil(bytes) * 1073741824 >= bytes,
        g * 1073741824 >= bytes ==> g >= gb_ceil(bytes),
{
    let q = bytes / 1073741824;
    let r = bytes % 1073741824;
    assert(bytes == q * 1073741824 + r) by (nonlinear_arith)
        requires
            q == bytes / 1073741824,
            r == bytes % 1073741824,
    ;
    if g < gb_ceil(bytes) {
        if r == 0 {
            assert(g + 1 <= q);
        } else {
            assert(g <= q);
        }
    }
}

/// Rounding up never adds a whole gigabyte: an exact multiple keeps its
/// quotient, and anything else gets the quotient plus one.
pub proof fn law_gb_ceil_rounds_up(bytes: nat)
    ensures
        bytes % 1073741824 == 0 ==> gb_ceil(bytes) == bytes / 1073741824,
        bytes % 1073741824 != 0 ==> gb_ceil(bytes) == bytes / 1073741824 + 1,
        gb_ceil(bytes) == (bytes + 1073741823) / 1073741824,
{
}

/// Whole gigabytes that cover `bytes`, for every `u64` (the sum that the
/// closed formula needs is never formed, so nothing overflows).
pub fn gb_round_up(bytes: u64) -> (gb: u64)
    ensures
        gb as nat == gb_ceil(bytes as nat),
{
    let whole: u64 = bytes / BYTES_PER_GB;
    if bytes % BYTES_PER_GB == 0 {
        whole
    } else {
        whole + 1
    }
}

/// The root volume size in gigabytes for an image of `logical_bytes` bytes.
pub fn root_volume_gb(logical_bytes: u64, root_size_override: Option<u64>) -> (gb: u64)
    ensures
        gb as nat == spec_root_volume_gb(logical_bytes, root_size_override),
{
    match root_size_override {
        Some(gb) => gb,
        None => gb_round_up(logical_bytes),
    }
}

} // verus!
