//! An ID generator inspired by Twitter's Snowflake format.
//!
//! The generator hands out IDs for timestamps given in milliseconds since the epoch (see
//! `crate::epoch`). Its increment starts a new cycle whenever it comes back to 0; the
//! timestamp at which a cycle starts cannot be used again until the cycle ends. A timestamp
//! behind the one of the last issued ID is refused too, so that a request whose clock reading
//! went stale while others were served cannot hand out an ID again.
use vstd::prelude::*;
use crate::layout::{
    compose, snowflake_id, timestamp_field, timestamp_bits, constant_field, increment_field,
    lemma_snowflake_id_fields, CONSTANT_MAX,
};

verus! {

/// The increment cycles through `0 .. INCREMENT_MAX`.
pub const INCREMENT_MAX: i64 = 4096;

/// Timestamps must stay below this value: 2^42 - 1 milliseconds after the epoch, in
/// December 2161.
pub const TIMESTAMP_LIMIT: i64 = 4398046511103;

/// The state of a generator, as mathematical integers.
pub struct SnowflakeState {
    /// Timestamp at which the current increment cycle started.
    pub last_overflow: int,
    /// Timestamp of the last issued ID (`i64::MIN` before the first one).
    pub last_timestamp: int,
    /// Increment of the last issued ID.
    pub increment: int,
    /// Constant written into every ID.
    pub constant: int,
}

/// A state that a generator can be in.
pub open spec fn valid_state(s: SnowflakeState) -> bool {
    &&& 0 <= s.increment < INCREMENT_MAX
    &&& 0 <= s.constant <= CONSTANT_MAX
    &&& i64::MIN <= s.last_timestamp <= i64::MAX
}

/// The state of a fresh generator.
pub open spec fn initial_state() -> SnowflakeState {
    SnowflakeState { last_overflow: 0, last_timestamp: i64::MIN as int, increment: 0, constant: 0 }
}

/// The state with the constant replaced.
pub open spec fn with_constant(s: SnowflakeState, constant: int) -> SnowflakeState {
    SnowflakeState { constant, ..s }
}

/// The increment that follows `increment`, wrapping to 0 at `INCREMENT_MAX`.
pub open spec fn successor_increment(increment: int) -> int {
    if increment + 1 == INCREMENT_MAX {
        0
    } else {
        increment + 1
    }
}

/// A request at `timestamp` is refused: the timestamp is behind the one of the last issued ID,
/// or it is the one at which the current cycle started.
pub open spec fn refused(s: SnowflakeState, timestamp: i64) -> bool {
    timestamp < s.last_timestamp || s.last_overflow == timestamp
}

/// What a request for an ID at `timestamp` returns: nothing where it is refused, otherwise the
/// ID with the next increment.
pub open spec fn issue(s: SnowflakeState, timestamp: i64) -> Option<i64> {
    if refused(s, timestamp) {
        None
    } else {
        Some(snowflake_id(timestamp, s.constant, successor_increment(s.increment)))
    }
}

/// The state after a request for an ID at `timestamp`.
pub open spec fn next_state(s: SnowflakeState, timestamp: i64) -> SnowflakeState {
    if refused(s, timestamp) {
        s
    } else {
        SnowflakeState {
            last_overflow: if s.increment == 0 {
                timestamp as int
            } else {
                s.last_overflow
            },
            last_timestamp: timestamp as int,
            increment: successor_increment(s.increment),
            constant: s.constant,
        }
    }
}

/// A Snowflake ID generator: the cycle state and the constant.
pub struct Snowflake {
    last_overflow: i64,
    last_timestamp: i64,
    increment: i64,
    constant: i64,
}

impl View for Snowflake {
    type V = SnowflakeState;

    closed spec fn view(&self) -> SnowflakeState {
        SnowflakeState {
            last_overflow: self.last_overflow as int,
            last_timestamp: self.last_timestamp as int,
            increment: self.increment as int,
            constant: self.constant as int,
        }
    }
}

impl Snowflake {
    /// The generator is in a state it can be in.
    pub open spec fn wf(&self) -> bool {
        valid_state(self@)
    }

    /// A fresh generator: no cycle started, no ID issued, constant 0.
    pub fn new() -> (generator: Snowflake)
        ensures
            generator.wf(),
            generator@ == initial_state(),
    {
        Snowflake { last_overflow: 0, last_timestamp: i64::MIN, increment: 0, constant: 0 }
    }
}

/// Returns the next Snowflake ID for `timestamp`, or `None` when the timestamp is behind the
/// one of the last issued ID or is the one at which the current increment cycle started: the
/// caller then waits for the next millisecond and asks again with a fresh timestamp.
///
/// The IDs handed out never repeat as long as the timestamps lie less than 2^42 milliseconds
/// apart, which holds of all timestamps from the epoch (0) on: the timestamp field keeps only
/// the low 42 bits. See `crate::issuance`.
pub fn next(generator: &mut Snowflake, timestamp: i64) -> (id: Option<i64>)
    requires
        old(generator).wf(),
        timestamp < TIMESTAMP_LIMIT,
    ensures
        final(generator).wf(),
        final(generator)@ == next_state(old(generator)@, timestamp),
        id == issue(old(generator)@, timestamp),
        final(generator)@.constant == old(generator)@.constant,
        id is None <==> (timestamp < old(generator)@.last_timestamp
            || timestamp == old(generator)@.last_overflow),
        id is None ==> final(generator)@ == old(generator)@,
        id matches Some(v) ==> {
            &&& timestamp_field(v) == timestamp_bits(timestamp)
            &&& constant_field(v) == old(generator)@.constant
            &&& increment_field(v) == (old(generator)@.increment + 1) % (INCREMENT_MAX as int)
            &&& final(generator)@.increment == increment_field(v)
            &&& final(generator)@.last_timestamp == timestamp
        },
{
    if timestamp < generator.last_timestamp || generator.last_overflow == timestamp {
        return None;
    }
    if generator.increment == 0 {
        generator.last_overflow = timestamp;
    }
    generator.last_timestamp = timestamp;
    let mut increment = generator.increment + 1;
    if increment == INCREMENT_MAX {
        increment = 0;
    }
    generator.increment = increment;
    Some(compose(timestamp, generator.constant, increment))
}

/// Sets the Snowflake constant.
///
/// Note: The constant cannot be greater than 2¹⁰-1, or less than 0
pub fn load_constant(generator: &mut Snowflake, snowflake_constant: i64)
    requires
        old(generator).wf(),
        0 <= snowflake_constant <= CONSTANT_MAX,
    ensures
        final(generator).wf(),
        final(generator)@ == with_constant(old(generator)@, snowflake_constant as int),
{
    generator.constant = snowflake_constant;
}

/// Asking for an ID never changes the generator's constant; only `load_constant` does.
pub proof fn lemma_requests_keep_constant(s: SnowflakeState, timestamp: i64)
    ensures
        next_state(s, timestamp).constant == s.constant,
{
}

/// Two requests with no `load_constant` between them hand out IDs that carry the same
/// constant, the generator's.
pub proof fn lemma_consecutive_ids_share_constant(s: SnowflakeState, t1: i64, t2: i64)
    requires
        valid_state(s),
        issue(s, t1) is Some,
        issue(next_state(s, t1), t2) is Some,
    ensures
        constant_field(issue(s, t1)->0) == s.constant,
        constant_field(issue(next_state(s, t1), t2)->0) == s.constant,
{
    lemma_snowflake_id_fields(t1, s.constant, successor_increment(s.increment));
    let s1 = next_state(s, t1);
    lemma_snowflake_id_fields(t2, s1.constant, successor_increment(s1.increment));
}

} // verus!
