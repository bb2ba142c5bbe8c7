//! What a generator hands out over many requests: IDs never repeat, their timestamps never go
//! back, and one ID is larger than the one before it save where the increment wraps within the
//! same millisecond.
use vstd::prelude::*;
use crate::layout::{
    timestamp_field, timestamp_bits, constant_field, increment_field, snowflake_id, lemma_snowflake_id_fields,
    lemma_timestamp_bits_exact, lemma_timestamp_bits_injective, lemma_signed_timestamp,
    lemma_id_value, CONSTANT_MAX,
};
use crate::snowflake::{
    SnowflakeState, valid_state, initial_state, with_constant, successor_increment, issue,
    next_state, INCREMENT_MAX, TIMESTAMP_LIMIT,
};

verus! {

/// Runs a generator through `calls`: each call sets the constant (`.1`) and then asks for an
/// ID at a timestamp (`.0`). Gives the final state and the IDs handed out, in order.
pub open spec fn run(s: SnowflakeState, calls: Seq<(i64, i64)>) -> (SnowflakeState, Seq<i64>)
    decreases calls.len(),
{
    if calls.len() == 0 {
        (s, Seq::empty())
    } else {
        let (before, ids) = run(s, calls.drop_last());
        let loaded = with_constant(before, calls.last().1 as int);
        let timestamp = calls.last().0;
        (
            next_state(loaded, timestamp),
            match issue(loaded, timestamp) {
                Some(id) => ids.push(id),
                None => ids,
            },
        )
    }
}

/// The timestamps of the IDs that `run` hands out, in the same order.
pub open spec fn issued_timestamps(s: SnowflakeState, calls: Seq<(i64, i64)>) -> Seq<i64>
    decreases calls.len(),
{
    if calls.len() == 0 {
        Seq::empty()
    } else {
        let before = run(s, calls.drop_last()).0;
        let loaded = with_constant(before, calls.last().1 as int);
        let timestamp = calls.last().0;
        let stamps = issued_timestamps(s, calls.drop_last());
        match issue(loaded, timestamp) {
            Some(_) => stamps.push(timestamp),
            None => stamps,
        }
    }
}

/// Calls whose timestamps stay below `TIMESTAMP_LIMIT` and lie less than 2^42 milliseconds
/// apart (the span that the timestamp field can tell apart), in any order, and whose
/// constants fit the constant field.
pub open spec fn valid_calls(calls: Seq<(i64, i64)>) -> bool {
    &&& forall|i: int|
        0 <= i < calls.len() ==> #[trigger] calls[i].0 < TIMESTAMP_LIMIT && 0 <= calls[i].1
            <= CONSTANT_MAX
    &&& forall|i: int, j: int|
        0 <= i < calls.len() && 0 <= j < calls.len() ==> #[trigger] calls[i].0 - #[trigger] calls[j].0
            < 0x400_0000_0000
}

/// Increments that the current cycle has already handed out at timestamps after its start.
spec fn used_in_cycle(k: int, increment: int) -> bool {
    if increment == 0 {
        k != 1
    } else {
        2 <= k <= increment
    }
}

/// What holds after every run from a fresh generator.
spec fn run_invariant(calls: Seq<(i64, i64)>) -> bool {
    let (st, ids) = run(initial_state(), calls);
    let stamps = issued_timestamps(initial_state(), calls);
    &&& valid_state(st)
    &&& ids.no_duplicates()
    &&& stamps.len() == ids.len()
    &&& st.increment != 0 ==> ids.len() > 0
    &&& ids.len() > 0 ==> st.last_overflow <= st.last_timestamp && st.last_timestamp
        == stamps.last()
    &&& forall|i: int|
        0 <= i < ids.len() ==> timestamp_field(#[trigger] ids[i]) == timestamp_bits(stamps[i])
            && exists|j: int| 0 <= j < calls.len() && calls[j].0 == stamps[i]
    &&& forall|i: int| 0 <= i < ids.len() ==> #[trigger] stamps[i] <= st.last_timestamp
    &&& forall|i: int|
        0 <= i < ids.len() && #[trigger] stamps[i] > st.last_overflow ==> used_in_cycle(
            increment_field(ids[i]) as int,
            st.increment,
        )
    &&& forall|i: int, j: int| 0 <= i <= j < ids.len() ==> stamps[i] <= stamps[j]
}

proof fn lemma_run_invariant(calls: Seq<(i64, i64)>)
    requires
        valid_calls(calls),
    ensures
        run_invariant(calls),
    decreases calls.len(),
{
    if calls.len() == 0 {
        return;
    }
    let prefix = calls.drop_last();
    assert forall|i: int| 0 <= i < prefix.len() implies #[trigger] prefix[i].0 < TIMESTAMP_LIMIT
        && 0 <= prefix[i].1 <= CONSTANT_MAX by {
        assert(prefix[i] == calls[i]);
    }
    assert forall|i: int, j: int| 0 <= i < prefix.len() && 0 <= j < prefix.len() implies
        #[trigger] prefix[i].0 - #[trigger] prefix[j].0 < 0x400_0000_0000 by {
        assert(prefix[i] == calls[i] && prefix[j] == calls[j]);
    }
    lemma_run_invariant(prefix);
    let (st, ids) = run(initial_state(), prefix);
    let stamps = issued_timestamps(initial_state(), prefix);
    let n = calls.len() - 1;
    let t = calls.last().0;
    let c = calls.last().1;
    assert(calls[n] == calls.last());
    assert(t < TIMESTAMP_LIMIT && 0 <= c <= CONSTANT_MAX);
    // Every earlier issued timestamp came from a call, so it lies within 2^42 of `t`.
    assert forall|i: int| 0 <= i < ids.len() implies -0x400_0000_0000 < #[trigger] stamps[i] - t
        < 0x400_0000_0000 by {
        assert(timestamp_field(ids[i]) == timestamp_bits(stamps[i]));
        let j = choose|j: int| 0 <= j < prefix.len() && prefix[j].0 == stamps[i];
        assert(prefix[j] == calls[j]);
        assert(calls[j].0 - calls[n].0 < 0x400_0000_0000);
        assert(calls[n].0 - calls[j].0 < 0x400_0000_0000);
    }
    let w = with_constant(st, c as int);
    let (st2, ids2) = run(initial_state(), calls);
    let stamps2 = issued_timestamps(initial_state(), calls);
    assert(st2 == next_state(w, t));
    if t < st.last_timestamp || st.last_overflow == t {
        assert(ids2 == ids);
        assert(stamps2 == stamps);
        assert forall|i: int| 0 <= i < ids2.len() implies timestamp_field(#[trigger] ids2[i])
            == timestamp_bits(stamps2[i]) && exists|j: int|
            0 <= j < calls.len() && calls[j].0 == stamps2[i] by {
            assert(timestamp_field(ids[i]) == timestamp_bits(stamps[i]));
        let j = choose|j: int| 0 <= j < prefix.len() && prefix[j].0 == stamps[i];
            assert(prefix[j] == calls[j]);
        }
    } else {
        let k = successor_increment(st.increment);
        let y = snowflake_id(t, c as int, k);
        assert(ids2 == ids.push(y));
        assert(stamps2 == stamps.push(t));
        lemma_snowflake_id_fields(t, c as int, k);
        assert(timestamp_field(y) == timestamp_bits(t) && increment_field(y) == k);
        assert forall|i: int| 0 <= i < ids.len() implies ids[i] != y by {
            if ids[i] == y {
                lemma_timestamp_bits_injective(stamps[i], t);
                if stamps[i] > st.last_overflow {
                    assert(used_in_cycle(k, st.increment));
                }
            }
        }
        assert(ids2.no_duplicates()) by {
            assert forall|i: int, j: int|
                0 <= i < ids2.len() && 0 <= j < ids2.len() && i != j implies ids2[i]
                != ids2[j] by {
                if i < ids.len() && j < ids.len() {
                    assert(ids2[i] == ids[i] && ids2[j] == ids[j]);
                } else if i < ids.len() {
                    assert(ids2[i] == ids[i]);
                } else if j < ids.len() {
                    assert(ids2[j] == ids[j]);
                }
            }
        }
        assert forall|i: int| 0 <= i < ids2.len() implies timestamp_field(#[trigger] ids2[i])
            == timestamp_bits(stamps2[i]) && exists|j: int|
            0 <= j < calls.len() && calls[j].0 == stamps2[i] by {
            if i < ids.len() {
                assert(ids2[i] == ids[i] && stamps2[i] == stamps[i]);
                assert(timestamp_field(ids[i]) == timestamp_bits(stamps[i]));
        let j = choose|j: int| 0 <= j < prefix.len() && prefix[j].0 == stamps[i];
                assert(prefix[j] == calls[j]);
            } else {
                assert(calls[n].0 == stamps2[i]);
            }
        }
        assert forall|i: int| 0 <= i < ids2.len() implies #[trigger] stamps2[i] <= t by {
            if i < ids.len() {
                assert(stamps2[i] == stamps[i]);
            }
        }
        assert forall|i: int|
            0 <= i < ids2.len() && #[trigger] stamps2[i] > st2.last_overflow implies used_in_cycle(
            increment_field(ids2[i]) as int,
            st2.increment,
        ) by {
            if i < ids.len() {
                assert(stamps2[i] == stamps[i] && ids2[i] == ids[i]);
            }
        }
        assert forall|i: int, j: int| 0 <= i <= j < ids2.len() implies stamps2[i]
            <= stamps2[j] by {
            if j < ids.len() {
                assert(stamps2[i] == stamps[i] && stamps2[j] == stamps[j]);
            } else if i < ids.len() {
                assert(stamps2[i] == stamps[i]);
            }
        }
    }
}

/// Every two IDs that a fresh generator hands out are different, whatever order the requests'
/// timestamps come in (concurrent callers may present stale ones) and whatever constants are
/// loaded between the requests, as long as the timestamps lie less than 2^42 milliseconds
/// apart.
pub proof fn lemma_issued_ids_are_unique(calls: Seq<(i64, i64)>)
    requires
        valid_calls(calls),
    ensures
        run(initial_state(), calls).1.no_duplicates(),
{
    lemma_run_invariant(calls);
}

/// The IDs that a fresh generator hands out carry, in their timestamp field, the low 42 bits
/// of timestamps that never decrease, whatever order the requests' timestamps come in. Where
/// the timestamps lie in `0 .. TIMESTAMP_LIMIT` the unsigned timestamp fields never decrease;
/// where they lie in `-2^41 .. 2^41`, neither do the IDs shifted right by 22 bits.
pub proof fn lemma_issued_timestamps_never_decrease(calls: Seq<(i64, i64)>)
    requires
        valid_calls(calls),
    ensures
        ({
            let ids = run(initial_state(), calls).1;
            let stamps = issued_timestamps(initial_state(), calls);
            &&& stamps.len() == ids.len()
            &&& forall|i: int|
                0 <= i < ids.len() ==> timestamp_field(#[trigger] ids[i]) == timestamp_bits(
                    stamps[i],
                )
            &&& forall|i: int, j: int| 0 <= i <= j < ids.len() ==> stamps[i] <= stamps[j]
            &&& (forall|i: int| 0 <= i < calls.len() ==> 0 <= #[trigger] calls[i].0) ==> forall|
                i: int,
                j: int,
            |
                0 <= i <= j < ids.len() ==> timestamp_field(ids[i]) <= timestamp_field(ids[j])
            &&& (forall|i: int|
                0 <= i < calls.len() ==> -0x200_0000_0000 <= #[trigger] calls[i].0
                    < 0x200_0000_0000) ==> forall|i: int, j: int|
                0 <= i <= j < ids.len() ==> ids[i] >> 22u64 <= ids[j] >> 22u64
        }),
{
    lemma_run_invariant(calls);
    let ids = run(initial_state(), calls).1;
    let stamps = issued_timestamps(initial_state(), calls);
    if forall|i: int| 0 <= i < calls.len() ==> 0 <= #[trigger] calls[i].0 {
        assert forall|i: int, j: int| 0 <= i <= j < ids.len() implies timestamp_field(ids[i])
            <= timestamp_field(ids[j]) by {
            assert(timestamp_field(ids[i]) == timestamp_bits(stamps[i]));
            assert(timestamp_field(ids[j]) == timestamp_bits(stamps[j]));
            let a = choose|a: int| 0 <= a < calls.len() && calls[a].0 == stamps[i];
            let b = choose|b: int| 0 <= b < calls.len() && calls[b].0 == stamps[j];
            assert(calls[a].0 < TIMESTAMP_LIMIT && calls[b].0 < TIMESTAMP_LIMIT);
            lemma_timestamp_bits_exact(stamps[i]);
            lemma_timestamp_bits_exact(stamps[j]);
        }
    }
    if forall|i: int| 0 <= i < calls.len() ==> -0x200_0000_0000 <= #[trigger] calls[i].0
        < 0x200_0000_0000 {
        assert forall|i: int, j: int| 0 <= i <= j < ids.len() implies ids[i] >> 22u64 <= ids[j]
            >> 22u64 by {
            assert(timestamp_field(ids[i]) == timestamp_bits(stamps[i]));
            assert(timestamp_field(ids[j]) == timestamp_bits(stamps[j]));
            let a = choose|a: int| 0 <= a < calls.len() && calls[a].0 == stamps[i];
            let b = choose|b: int| 0 <= b < calls.len() && calls[b].0 == stamps[j];
            assert(-0x200_0000_0000 <= calls[a].0 < 0x200_0000_0000);
            assert(-0x200_0000_0000 <= calls[b].0 < 0x200_0000_0000);
            lemma_signed_timestamp(ids[i], stamps[i]);
            lemma_signed_timestamp(ids[j], stamps[j]);
        }
    }
}

/// An issued ID carries its timestamp, the loaded constant, and the increment after the
/// generator's last one, each in its own field.
pub proof fn lemma_issued_id_fields(s: SnowflakeState, timestamp: i64)
    requires
        valid_state(s),
        0 <= timestamp < TIMESTAMP_LIMIT,
        issue(s, timestamp) is Some,
    ensures
        timestamp_field(issue(s, timestamp)->0) == timestamp,
        constant_field(issue(s, timestamp)->0) == s.constant,
        increment_field(issue(s, timestamp)->0) == successor_increment(s.increment),
{
    lemma_snowflake_id_fields(timestamp, s.constant, successor_increment(s.increment));
    lemma_timestamp_bits_exact(timestamp);
}

/// Two IDs issued one after the other, with any constant `c2` loaded in between:
/// - the second one's increment follows the first one's, modulo `INCREMENT_MAX`, and it carries
///   `c2`;
/// - its timestamp is not behind the first one's, and is ahead of it where the first one
///   started a cycle (increment 1);
/// - where the constant stayed the same and the timestamps are below 2^41, the second ID is
///   the larger, except where its increment has wrapped to 0 within the millisecond of the
///   first.
pub proof fn lemma_consecutive_ids(s: SnowflakeState, t1: i64, c2: int, t2: i64)
    requires
        valid_state(s),
        0 <= t1 < TIMESTAMP_LIMIT,
        0 <= t2 < TIMESTAMP_LIMIT,
        0 <= c2 <= CONSTANT_MAX,
        issue(s, t1) is Some,
        issue(with_constant(next_state(s, t1), c2), t2) is Some,
    ensures
        ({
            let id1 = issue(s, t1)->0;
            let id2 = issue(with_constant(next_state(s, t1), c2), t2)->0;
            &&& increment_field(id2) == (increment_field(id1) + 1) % (INCREMENT_MAX as int)
            &&& constant_field(id2) == c2
            &&& timestamp_field(id1) <= timestamp_field(id2)
            &&& increment_field(id1) == 1 ==> timestamp_field(id1) < timestamp_field(id2)
            &&& c2 == s.constant && t2 < 0x200_0000_0000i64 && !(timestamp_field(id1)
                == timestamp_field(id2) && increment_field(id2) == 0) ==> id1 < id2
        }),
{
    let k1 = successor_increment(s.increment);
    let k2 = successor_increment(k1);
    let id1 = snowflake_id(t1, s.constant, k1);
    let id2 = snowflake_id(t2, c2, k2);
    lemma_snowflake_id_fields(t1, s.constant, k1);
    lemma_snowflake_id_fields(t2, c2, k2);
    lemma_timestamp_bits_exact(t1);
    lemma_timestamp_bits_exact(t2);
    if t2 < 0x200_0000_0000i64 {
        lemma_id_value(id1);
        lemma_id_value(id2);
    }
}

} // verus!
