//! The unique identifier type: a Snowflake ID, ordered by its value and written in decimal.
use vstd::prelude::*;
use vstd::std_specs::cmp::{PartialOrdSpec, PartialOrdSpecImpl};
use vstd::std_specs::convert::FromSpecImpl;
use core::cmp::Ordering;
use crate::decimal::{parse_i64, i64_to_string, decimal_string, parse_decimal, lemma_decimal_round_trip};
use crate::snowflake::{Snowflake, next, issue, next_state, TIMESTAMP_LIMIT};

verus! {

/// Unique identifier.
#[derive(Debug, Clone, Copy, PartialEq, Eq, Structural, Hash, Ord)]
pub struct Id(i64);

impl View for Id {
    type V = i64;

    closed spec fn view(&self) -> i64 {
        self.0
    }
}

impl Id {
    /// Generates a new unique ID using the snowflake algorithm, for `timestamp` in
    /// milliseconds since the epoch; `None` when the caller must wait for the next
    /// millisecond and ask again.
    pub fn unique(generator: &mut Snowflake, timestamp: i64) -> (id: Option<Id>)
        requires
            old(generator).wf(),
            timestamp < TIMESTAMP_LIMIT,
        ensures
            final(generator).wf(),
            final(generator)@ == next_state(old(generator)@, timestamp),
            id is None <==> issue(old(generator)@, timestamp) is None,
            id matches Some(v) ==> issue(old(generator)@, timestamp) == Some(v@),
    {
        match next(generator, timestamp) {
            Some(value) => Some(Id(value)),
            None => None,
        }
    }

    /// Reads an ID from its decimal text.
    pub fn parse(src: &str) -> (r: Result<Id, std::num::ParseIntError>)
        ensures
            r is Ok <==> parse_decimal(src@) is Some,
            r matches Ok(id) ==> parse_decimal(src@) == Some(id@ as int),
    {
        match parse_i64(src) {
            Ok(value) => Ok(Id(value)),
            Err(e) => Err(e),
        }
    }

    /// The decimal text of the ID.
    pub fn to_string(&self) -> (s: String)
        ensures
            s@ == decimal_string(self@ as int),
    {
        i64_to_string(self.0)
    }
}

/// An ID written as decimal text reads back as the same ID: `Id::parse` of `Id::to_string`
/// succeeds, and what it reads is the ID that was written.
pub proof fn lemma_id_text_round_trip(id: Id, back: Id)
    ensures
        parse_decimal(decimal_string(id@ as int)) == Some(id@ as int),
        parse_decimal(decimal_string(id@ as int)) == Some(back@ as int) ==> back == id,
{
    lemma_decimal_round_trip(id@);
}

/// IDs are ordered by their values: one is less than, equal to or greater than another exactly
/// where its value is.
pub proof fn lemma_id_order_is_value_order(a: Id, b: Id)
    ensures
        PartialOrdSpec::partial_cmp_spec(&a, &b) == Some(Ordering::Less) <==> a@ < b@,
        PartialOrdSpec::partial_cmp_spec(&a, &b) == Some(Ordering::Equal) <==> a@ == b@,
        PartialOrdSpec::partial_cmp_spec(&a, &b) == Some(Ordering::Greater) <==> a@ > b@,
        PartialOrdSpec::partial_cmp_spec(&a, &b) is Some,
{
}

/// Converting an `i64` to an ID and an ID to an `i64` keep the value, so each undoes the other.
pub proof fn lemma_conversions_keep_value(value: i64, id: Id)
    ensures
        <Id as vstd::std_specs::convert::FromSpec<i64>>::from_spec(value)@ == value,
        <i64 as vstd::std_specs::convert::FromSpec<Id>>::from_spec(id) == id@,
        <i64 as vstd::std_specs::convert::FromSpec<Id>>::from_spec(
            <Id as vstd::std_specs::convert::FromSpec<i64>>::from_spec(value),
        ) == value,
{
    let witness = Id(value);
    assert(witness@ == value);
}

impl std::str::FromStr for Id {
    type Err = std::num::ParseIntError;

    fn from_str(src: &str) -> (r: Result<Id, std::num::ParseIntError>)
        ensures
            r is Ok <==> parse_decimal(src@) is Some,
            r matches Ok(id) ==> parse_decimal(src@) == Some(id@ as int),
    {
        Id::parse(src)
    }
}

impl PartialOrd for Id {
    fn partial_cmp(&self, other: &Id) -> (r: Option<Ordering>)
        ensures
            r == Some(Ordering::Less) <==> self@ < other@,
            r == Some(Ordering::Equal) <==> self@ == other@,
            r == Some(Ordering::Greater) <==> self@ > other@,
    {
        if self.0 < other.0 {
            Some(Ordering::Less)
        } else if self.0 == other.0 {
            Some(Ordering::Equal)
        } else {
            Some(Ordering::Greater)
        }
    }
}

impl PartialOrdSpecImpl for Id {
    open spec fn obeys_partial_cmp_spec() -> bool {
        true
    }

    open spec fn partial_cmp_spec(&self, other: &Id) -> Option<Ordering> {
        if self@ < other@ {
            Some(Ordering::Less)
        } else if self@ == other@ {
            Some(Ordering::Equal)
        } else {
            Some(Ordering::Greater)
        }
    }
}

impl From<i64> for Id {
    fn from(value: i64) -> (id: Id)
        ensures
            id@ == value,
    {
        let id = Id(value);
        proof {
            let chosen = choose|c: Id| c@ == value;
            assert(id@ == value);
            assert(chosen@ == value);
            assert(chosen == id);
        }
        id
    }
}

impl FromSpecImpl<i64> for Id {
    open spec fn obeys_from_spec() -> bool {
        true
    }

    open spec fn from_spec(value: i64) -> Id {
        choose|id: Id| id@ == value
    }
}

impl From<Id> for i64 {
    fn from(id: Id) -> (value: i64)
        ensures
            value == id@,
    {
        id.0
    }
}

impl FromSpecImpl<Id> for i64 {
    open spec fn obeys_from_spec() -> bool {
        true
    }

    open spec fn from_spec(id: Id) -> i64 {
        id@
    }
}

} // verus!
