//! Batch reconnaissance pipeline: hostname pattern expansion, a bounded-width
//! wave scheduler, resolution and probe record construction, and the row codec
//! used by the persistence sink.

pub mod asn;
pub mod pattern;
pub mod records;
pub mod rows;
pub mod schedule;
pub mod timefmt;
