//! Reading the fields of an image's metadata record.

use vstd::prelude::*;
use crate::publish::ImageMetadata;

verus! {

/// Whether `c` is one of the ten decimal digits.
pub open spec fn spec_is_digit(c: char) -> bool {
    48 <= c as u32 <= 57
}

/// The value of a decimal digit; zero for any other character.
pub open spec fn spec_digit(c: char) -> nat {
    if spec_is_digit(c) {
        (c as u32 - 48) as nat
    } else {
        0
    }
}

/// The number that a run of decimal digits writes.
pub open spec fn spec_decimal(digits: Seq<char>) -> nat
    decreases digits.len(),
{
    if digits.len() == 0 {
        0
    } else {
        spec_decimal(digits.drop_last()) * 10 + spec_digit(digits.last())
    }
}

/// The digits of a number text: the text without one leading plus sign.
pub open spec fn spec_unsigned_part(text: Seq<char>) -> Seq<char> {
    if text.len() > 0 && text[0] == '+' {
        text.subrange(1, text.len() as int)
    } else {
        text
    }
}

/// The unsigned 64-bit number that `text` writes in decimal: at least one
/// digit, nothing but digits after an optional plus sign, and a value that
/// fits.
pub open spec fn spec_parse_u64(text: Seq<char>) -> Option<u64> {
    let digits = spec_unsigned_part(text);
    if digits.len() > 0 && (forall|i: int| 0 <= i < digits.len() ==> spec_is_digit(digits[i]))
        && spec_decimal(digits) <= u64::MAX {
        Some(spec_decimal(digits) as u64)
    } else {
        None
    }
}

/// A number is at least what any of its leading digits write.
pub proof fn lemma_decimal_grows(digits: Seq<char>, k: int)
    requires
        0 <= k <= digits.len(),
    ensures
        spec_decimal(digits.take(k)) <= spec_decimal(digits),
    decreases digits.len() - k,
{
    if k < digits.len() {
        assert(digits.take(k + 1).drop_last() =~= digits.take(k));
        lemma_decimal_grows(digits, k + 1);
    } else {
        assert(digits.take(k) =~= digits);
    }
}

/// Reads the image size, which the metadata holds as a decimal text.
pub fn parse_logical_bytes(text: &str) -> (bytes: Option<u64>)
    ensures
        bytes == spec_parse_u64(text@),
{
    let n: usize = text.unicode_len();
    if n == 0 {
        return None;
    }
    let start: usize = if text.get_char(0) == '+' {
        1
    } else {
        0
    };
    let ghost digits = spec_unsigned_part(text@);
    if start == n {
        return None;
    }
    let mut value: u64 = 0;
    let mut i: usize = start;
    proof {
        assert(digits.take(0) =~= Seq::<char>::empty());
    }
    while i < n
        invariant
            n == text@.len(),
            start <= i <= n,
            digits == spec_unsigned_part(text@),
            digits.len() == n - start,
            forall|j: int| 0 <= j < digits.len() ==> digits[j] == text@[j + start],
            forall|j: int| 0 <= j < i - start ==> spec_is_digit(digits[j]),
            value as nat == spec_decimal(digits.take(i - start)),
        decreases n - i,
    {
        let c = text.get_char(i);
        let code: u32 = c as u32;
        proof {
            assert(digits.take(i - start + 1).drop_last() =~= digits.take(i - start));
            assert(digits.take(i - start + 1).last() == c);
        }
        if code < 48 || code > 57 {
            assert(!spec_is_digit(digits[i - start]));
            return None;
        }
        let digit: u64 = (code - 48) as u64;
        if value > (u64::MAX - digit) / 10 {
            proof {
                assert(spec_digit(c) == digit);
                assert(spec_decimal(digits.take(i - start + 1)) == value * 10 + digit);
                lemma_decimal_grows(digits, i - start + 1);
            }
            return None;
        }
        value = value * 10 + digit;
        i = i + 1;
    }
    proof {
        assert(digits.take(n - start) =~= digits);
    }
    Some(value)
}

/// Why a metadata record was refused.
#[derive(Debug, Clone, PartialEq, Eq)]
pub enum MetadataError {
    /// The size is no unsigned 64-bit number in decimal; the text is what
    /// stood in its place.
    InvalidSize(String),
}

/// Builds the metadata of an image from the fields of its record, the size
/// still as the text in which the record holds it.
pub fn image_metadata(label: String, system: String, logical_bytes: &str, file: String) -> (r:
    Result<ImageMetadata, MetadataError>)
    ensures
        match r {
            Ok(image) => image.label == label && image.system == system && image.file == file
                && spec_parse_u64(logical_bytes@) == Some(image.logical_bytes),
            Err(MetadataError::InvalidSize(t)) => spec_parse_u64(logical_bytes@) is None && t@
                == logical_bytes@,
        },
{
    match parse_logical_bytes(logical_bytes) {
        Some(bytes) => Ok(ImageMetadata { label, system, logical_bytes: bytes, file }),
        None => Err(MetadataError::InvalidSize(String::from_str(logical_bytes))),
    }
}

} // verus!
