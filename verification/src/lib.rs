//! Housekeeping for a Postgres database, as decisions that can be checked.
//!
//! The library decides what a maintenance run does: which catalog query lists
//! the base tables, indexes or materialized views; which of the objects that
//! come back are worked on, and in what order; which statement is run on each;
//! and what happens when a query or a statement fails. It never talks to a
//! database. A run hands out one action at a time and is told how it went, so
//! that every decision is a function of plain values with a proved contract.
pub mod catalog;
pub mod configuration;
pub mod db;
pub mod quoting;
pub mod row;
pub mod target;
