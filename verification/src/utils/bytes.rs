//! Byte counts as text, and a checksum.

use crate::utils::text::decimal;
use crate::utils::text::push_decimal;
use crate::utils::text::push_two_digits;
use crate::utils::text::two_digits;
use vstd::prelude::*;
use vstd::string::*;

verus! {

/// The unit in which a byte count is shown: 0 for bytes, then one more for
/// each factor of 1024, up to 4 for terabytes.
pub open spec fn unit_index(bytes: int) -> int {
    if bytes < 1024 {
        0
    } else if bytes < 1048576 {
        1
    } else if bytes < 1073741824 {
        2
    } else if bytes < 1099511627776 {
        3
    } else {
        4
    }
}

/// The number of bytes in one unit.
pub open spec fn unit_size(unit: int) -> int {
    if unit <= 0 {
        1
    } else if unit == 1 {
        1024
    } else if unit == 2 {
        1048576
    } else if unit == 3 {
        1073741824
    } else {
        1099511627776
    }
}

/// The name of a unit.
pub open spec fn unit_name(unit: int) -> Seq<char> {
    if unit <= 0 {
        "B"@
    } else if unit == 1 {
        "KB"@
    } else if unit == 2 {
        "MB"@
    } else if unit == 3 {
        "GB"@
    } else {
        "TB"@
    }
}

/// A byte count in hundredths of its unit, rounded to the nearest
/// hundredth, a tie to the even one.
pub open spec fn hundredths(bytes: int) -> int {
    let size = unit_size(unit_index(bytes));
    let q = bytes * 100 / size;
    let r = bytes * 100 % size;
    if 2 * r > size || (2 * r == size && q % 2 == 1) {
        q + 1
    } else {
        q
    }
}

/// A byte count as text: "0 B" for nothing, else the count in its unit with
/// two decimals, a space and the unit's name.
pub open spec fn spec_format_bytes(bytes: int) -> Seq<char> {
    if bytes == 0 {
        "0 B"@
    } else {
        decimal((hundredths(bytes) / 100) as nat) + "."@ + two_digits(
            (hundredths(bytes) % 100) as nat,
        ) + " "@ + unit_name(unit_index(bytes))
    }
}

/// Format bytes as human readable string.
pub fn format_bytes(bytes: usize) -> (text: String)
    ensures
        text@ == spec_format_bytes(bytes as int),
{
    if bytes == 0 {
        return String::from_str("0 B");
    }
    let b: u128 = bytes as u128;
    let size: u128 = if b < 1024 {
        1
    } else if b < 1048576 {
        1024
    } else if b < 1073741824 {
        1048576
    } else if b < 1099511627776 {
        1073741824
    } else {
        1099511627776
    };
    let name: &str = if b < 1024 {
        "B"
    } else if b < 1048576 {
        "KB"
    } else if b < 1073741824 {
        "MB"
    } else if b < 1099511627776 {
        "GB"
    } else {
        "TB"
    };
    let q: u128 = b * 100 / size;
    let r: u128 = b * 100 % size;
    let h: u128 = if 2 * r > size || (2 * r == size && q % 2 == 1) {
        q + 1
    } else {
        q
    };
    let mut text = String::new();
    push_decimal(&mut text, h / 100);
    text.append(".");
    push_two_digits(&mut text, (h % 100) as u8);
    text.append(" ");
    text.append(name);
    proof {
        assert(text@ =~= spec_format_bytes(bytes as int));
    }
    text
}

/// The checksum of a byte sequence: starting from 0, each byte takes the
/// sum so far times 31 plus the byte, modulo 2 to the 32.
pub open spec fn spec_checksum(data: Seq<u8>) -> u32
    decreases data.len(),
{
    if data.len() == 0 {
        0
    } else {
        ((spec_checksum(data.drop_last()) * 31 + data.last()) % 0x1_0000_0000) as u32
    }
}

/// Calculate checksum for data.
pub fn calculate_checksum(data: &[u8]) -> (sum: u32)
    ensures
        sum == spec_checksum(data@),
{
    let mut sum: u32 = 0;
    let mut i: usize = 0;
    proof {
        assert(data@.subrange(0, 0) =~= Seq::<u8>::empty());
    }
    while i < data.len()
        invariant
            i <= data.len(),
            sum == spec_checksum(data@.subrange(0, i as int)),
        decreases data.len() - i,
    {
        proof {
            assert(data@.subrange(0, i + 1).drop_last() =~= data@.subrange(0, i as int));
        }
        let next: u64 = ((sum as u64) * 31 + (data[i] as u64)) % 0x1_0000_0000;
        sum = next as u32;
        i = i + 1;
    }
    proof {
        assert(data@.subrange(0, i as int) =~= data@);
    }
    sum
}

/// Validate data with checksum.
pub fn validate_checksum(data: &[u8], expected_checksum: u32) -> (valid: bool)
    ensures
        valid == (spec_checksum(data@) == expected_checksum),
{
    calculate_checksum(data) == expected_checksum
}

} // verus!
