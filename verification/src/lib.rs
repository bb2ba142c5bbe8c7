//! Unique identifiers in the Snowflake layout, and the logic that issues them.

pub mod layout;
pub mod snowflake;
pub mod issuance;
pub mod clock;
pub mod epoch;
pub mod decimal;
pub mod id;
pub mod span;
