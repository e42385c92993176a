//! Per-player match statistics extracted from game replays.
//!
//! A replay, decoded by an outside parser into a tree of named properties,
//! yields one record per player plus the two team scores.  The winner is
//! resolved, one player on the winning team is marked most valuable, matches
//! are aggregated into a fixed-width table, and the table is exported as
//! delimited rows.

pub mod aggregate;
pub mod digits;
pub mod error;
pub mod export;
pub mod extract;
pub mod mvp;
pub mod parse;
pub mod props;
pub mod record;
