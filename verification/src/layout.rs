//! Bit layout of a Snowflake ID.
//!
//! | Field | Bits | Description |
//! | -- | -- | -- |
//! | Timestamp | 22 to 63 | Milliseconds since the epoch. |
//! | Constant | 12 to 21 | User-specified constant. |
//! | Increment | 0 to 11 | Increments with every generated ID. |
use vstd::prelude::*;

verus! {

/// Largest value of the constant field (10 bits).
pub const CONSTANT_MAX: i64 = 1023;

/// Largest value of the increment field (12 bits).
pub const INCREMENT_FIELD_MAX: i64 = 4095;

/// The timestamp field: bits 22 to 63 of the ID, read as an unsigned number.
pub open spec fn timestamp_field(id: i64) -> u64 {
    (id as u64) >> 22u64
}

/// The constant field: bits 12 to 21 of the ID.
pub open spec fn constant_field(id: i64) -> u64 {
    ((id as u64) >> 12u64) & 0x3ffu64
}

/// The increment field: bits 0 to 11 of the ID.
pub open spec fn increment_field(id: i64) -> u64 {
    (id as u64) & 0xfffu64
}

/// The low 42 bits of a timestamp: what the timestamp field can hold of it.
pub open spec fn timestamp_bits(timestamp: i64) -> u64 {
    (timestamp as u64) & 0x3ff_ffff_ffffu64
}

/// The ID with the low 42 bits of `timestamp` in bits 22 to 63, `constant` in bits 12 to 21
/// and `increment` in bits 0 to 11.
pub open spec fn snowflake_id(timestamp: i64, constant: int, increment: int) -> i64 {
    (timestamp << 22u32) | ((constant as i64) << 12u32) | (increment as i64)
}

/// The fields of `snowflake_id` are the values it was given, where these fit their fields.
pub proof fn lemma_snowflake_id_fields(timestamp: i64, constant: int, increment: int)
    requires
        0 <= constant <= CONSTANT_MAX,
        0 <= increment <= INCREMENT_FIELD_MAX,
    ensures
        timestamp_field(snowflake_id(timestamp, constant, increment)) == timestamp_bits(timestamp),
        constant_field(snowflake_id(timestamp, constant, increment)) == constant,
        increment_field(snowflake_id(timestamp, constant, increment)) == increment,
{
    let c = constant as i64;
    let k = increment as i64;
    let w = snowflake_id(timestamp, constant, increment);
    assert(timestamp_field(w) == timestamp_bits(timestamp) && constant_field(w) == c as u64
        && increment_field(w) == k as u64) by (bit_vector)
        requires
            w == (timestamp << 22u32) | (c << 12u32) | k,
            0 <= c <= 1023,
            0 <= k <= 4095,
    ;
}

/// Packs a timestamp, a constant and an increment into one ID.
pub fn compose(timestamp: i64, constant: i64, increment: i64) -> (id: i64)
    requires
        0 <= constant <= CONSTANT_MAX,
        0 <= increment <= INCREMENT_FIELD_MAX,
    ensures
        timestamp_field(id) == timestamp_bits(timestamp),
        constant_field(id) == constant,
        increment_field(id) == increment,
        id == snowflake_id(timestamp, constant as int, increment as int),
{
    proof {
        lemma_snowflake_id_fields(timestamp, constant as int, increment as int);
    }
    (timestamp << 22u32) | (constant << 12u32) | increment
}

/// Two IDs with the same three fields are the same ID.
pub proof fn lemma_fields_determine_id(a: i64, b: i64)
    requires
        timestamp_field(a) == timestamp_field(b),
        constant_field(a) == constant_field(b),
        increment_field(a) == increment_field(b),
    ensures
        a == b,
{
    assert(a == b) by (bit_vector)
        requires
            (a as u64) >> 22u64 == (b as u64) >> 22u64,
            ((a as u64) >> 12u64) & 0x3ffu64 == ((b as u64) >> 12u64) & 0x3ffu64,
            (a as u64) & 0xfffu64 == (b as u64) & 0xfffu64,
    ;
}

/// While the timestamp field stays below 2^41 the ID is not negative, and its value
/// is the fields weighted by their bit positions.
pub proof fn lemma_id_value(id: i64)
    requires
        timestamp_field(id) < 0x200_0000_0000u64,
    ensures
        id as int == timestamp_field(id) * 0x40_0000 + constant_field(id) * 0x1000
            + increment_field(id),
{
    assert(id as int == ((id as u64) >> 22u64) * 0x40_0000 + (((id as u64) >> 12u64) & 0x3ffu64)
        * 0x1000 + ((id as u64) & 0xfffu64)) by (bit_vector)
        requires
            (id as u64) >> 22u64 < 0x200_0000_0000u64,
    ;
}

/// A timestamp in `0 .. 2^42` fits the timestamp field whole.
pub proof fn lemma_timestamp_bits_exact(timestamp: i64)
    requires
        0 <= timestamp < 0x400_0000_0000i64,
    ensures
        timestamp_bits(timestamp) == timestamp,
{
    assert((timestamp as u64) & 0x3ff_ffff_ffffu64 == timestamp) by (bit_vector)
        requires
            0 <= timestamp < 0x400_0000_0000i64,
    ;
}

/// Two timestamps less than 2^42 apart differ in their low 42 bits, unless they are equal.
pub proof fn lemma_timestamp_bits_injective(a: i64, b: i64)
    requires
        timestamp_bits(a) == timestamp_bits(b),
        -0x400_0000_0000 < a - b < 0x400_0000_0000,
    ensures
        a == b,
{
    assert(a == b) by (bit_vector)
        requires
            (a as u64) & 0x3ff_ffff_ffffu64 == (b as u64) & 0x3ff_ffff_ffffu64,
            -0x400_0000_0000 < a - b < 0x400_0000_0000,
    ;
}

/// Where the timestamp lies in `-2^41 .. 2^41`, shifting the ID right by 22 bits, sign kept,
/// gives the timestamp back.
pub proof fn lemma_signed_timestamp(id: i64, timestamp: i64)
    requires
        timestamp_field(id) == timestamp_bits(timestamp),
        -0x200_0000_0000 <= timestamp < 0x200_0000_0000,
    ensures
        id >> 22u64 == timestamp,
{
    assert(id >> 22u64 == timestamp) by (bit_vector)
        requires
            (id as u64) >> 22u64 == (timestamp as u64) & 0x3ff_ffff_ffffu64,
            -0x200_0000_0000 <= timestamp < 0x200_0000_0000,
    ;
}

} // verus!
